//! In-memory structural view of a compiled binary module, and the
//! post-processing surgery applied to it: export pruning, memory-limit
//! enforcement, custom-section stripping and import validation.
//!
//! Sections are held in order as an arena; every transformation replaces
//! section contents wholesale and is pure: nothing here touches the disk.

use vstd::prelude::*;
use vstd::pervasive::unreached;
use crate::error::Error;
use crate::error::SpecError;
use crate::error::spec_result;
use crate::strutil::str_eq;
use crate::strutil::views_of;

verus! {

/// Page limits of a linear memory: initial page count and optional maximum.
#[derive(Debug, Clone, Copy, PartialEq, Eq)]
pub struct MemoryLimits {
    pub initial: u32,
    pub maximum: Option<u32>,
}

/// Element limits of an imported table.
#[derive(Debug, Clone, Copy, PartialEq, Eq)]
pub struct TableLimits {
    pub initial: u32,
    pub maximum: Option<u32>,
}

/// Type of an imported global: its value-type byte and mutability.
#[derive(Debug, Clone, Copy, PartialEq, Eq)]
pub struct GlobalType {
    pub content_type: u8,
    pub mutable: bool,
}

/// What one import entry brings into the module.
#[derive(Debug, Clone, Copy, PartialEq, Eq)]
pub enum ImportKind {
    /// A function import, with its type index.
    Function(u32),
    /// A table import.
    Table(TableLimits),
    /// A linear-memory import.
    Memory(MemoryLimits),
    /// A global import.
    Global(GlobalType),
}

/// One entry of the import section: `module.field` of the given kind.
#[derive(Debug, Clone, PartialEq, Eq)]
pub struct ImportEntry {
    pub module: String,
    pub field: String,
    pub kind: ImportKind,
}

/// What one export entry points at inside the module.
#[derive(Debug, Clone, Copy, PartialEq, Eq)]
pub enum ExportKind {
    Function(u32),
    Table(u32),
    Memory(u32),
    Global(u32),
}

/// One entry of the export section: an exported name and its target.
#[derive(Debug, Clone, PartialEq, Eq)]
pub struct ExportEntry {
    pub field: String,
    pub kind: ExportKind,
}

/// A custom section: a name and an opaque payload.
#[derive(Debug, Clone, PartialEq, Eq)]
pub struct CustomSection {
    pub name: String,
    pub payload: Vec<u8>,
}

/// A section the surgery never looks into, carried as raw bytes under its
/// section id.
#[derive(Debug, Clone, PartialEq, Eq)]
pub struct OpaqueSection {
    pub id: u8,
    pub body: Vec<u8>,
}

/// One section of the module, in the order the binary holds them.
#[derive(Debug, Clone, PartialEq, Eq)]
pub enum Section {
    Import(Vec<ImportEntry>),
    Export(Vec<ExportEntry>),
    Custom(CustomSection),
    /// A relocation section, carried opaquely; stripping removes it whole.
    Reloc(Vec<u8>),
    Other(OpaqueSection),
}

/// The in-memory structural view of a compiled binary artifact.
#[derive(Debug, Clone, PartialEq, Eq)]
pub struct CompiledModule {
    pub sections: Vec<Section>,
}

/// Mathematical model of an import entry.
#[verifier::ext_equal]
pub struct SpecImportEntry {
    pub module: Seq<char>,
    pub field: Seq<char>,
    pub kind: ImportKind,
}

/// Mathematical model of an export entry.
#[verifier::ext_equal]
pub struct SpecExportEntry {
    pub field: Seq<char>,
    pub kind: ExportKind,
}

/// Mathematical model of a custom section.
#[verifier::ext_equal]
pub struct SpecCustomSection {
    pub name: Seq<char>,
    pub payload: Seq<u8>,
}

/// Mathematical model of an opaque section.
#[verifier::ext_equal]
pub struct SpecOpaqueSection {
    pub id: u8,
    pub body: Seq<u8>,
}

/// Mathematical model of a section.
#[verifier::ext_equal]
pub enum SpecSection {
    Import(Seq<SpecImportEntry>),
    Export(Seq<SpecExportEntry>),
    Custom(SpecCustomSection),
    Reloc(Seq<u8>),
    Other(SpecOpaqueSection),
}

/// Mathematical model of a module: its sections in order.
#[verifier::ext_equal]
pub struct SpecModule {
    pub sections: Seq<SpecSection>,
}

impl View for ImportEntry {
    type V = SpecImportEntry;

    open spec fn view(&self) -> SpecImportEntry {
        SpecImportEntry { module: self.module@, field: self.field@, kind: self.kind }
    }
}

impl View for ExportEntry {
    type V = SpecExportEntry;

    open spec fn view(&self) -> SpecExportEntry {
        SpecExportEntry { field: self.field@, kind: self.kind }
    }
}

impl View for Section {
    type V = SpecSection;

    open spec fn view(&self) -> SpecSection {
        match self {
            Section::Import(es) => SpecSection::Import(views_of(es@)),
            Section::Export(es) => SpecSection::Export(views_of(es@)),
            Section::Custom(c) => SpecSection::Custom(
                SpecCustomSection { name: c.name@, payload: c.payload@ },
            ),
            Section::Reloc(b) => SpecSection::Reloc(b@),
            Section::Other(o) => SpecSection::Other(SpecOpaqueSection { id: o.id, body: o.body@ }),
        }
    }
}

impl View for CompiledModule {
    type V = SpecModule;

    open spec fn view(&self) -> SpecModule {
        SpecModule { sections: views_of(self.sections@) }
    }
}

// ---------------------------------------------------------------------------
// Export pruning
// ---------------------------------------------------------------------------

/// The two entry points a contract must keep exported: the entry must be a
/// function export named exactly `call` or `deploy`.
pub open spec fn spec_is_entry_point_export(e: SpecExportEntry) -> bool {
    &&& e.kind is Function
    &&& (e.field == "call"@ || e.field == "deploy"@)
}

/// The export entries that pruning keeps, in order.
pub open spec fn spec_filter_entry_points(es: Seq<SpecExportEntry>) -> Seq<SpecExportEntry> {
    es.filter(|e: SpecExportEntry| spec_is_entry_point_export(e))
}

/// How one section looks after export pruning.
pub open spec fn spec_prune_section(s: SpecSection) -> SpecSection {
    match s {
        SpecSection::Export(es) => SpecSection::Export(spec_filter_entry_points(es)),
        _ => s,
    }
}

/// Each section after export pruning, in order.
pub open spec fn spec_prune_sections(ss: Seq<SpecSection>) -> Seq<SpecSection> {
    ss.map_values(|s: SpecSection| spec_prune_section(s))
}

/// A module after export pruning: every export section keeps only the two
/// entry points; every other section is untouched.
pub open spec fn spec_strip_exports(m: SpecModule) -> SpecModule {
    SpecModule { sections: spec_prune_sections(m.sections) }
}

/// Whether an export entry is one of the two required entry points.
fn is_entry_point_export(e: &ExportEntry) -> (r: bool)
    ensures
        r == spec_is_entry_point_export(e@),
{
    match e.kind {
        ExportKind::Function(_) => {
            str_eq(e.field.as_str(), "call") || str_eq(e.field.as_str(), "deploy")
        },
        _ => false,
    }
}

/// Keeps only the entry-point function exports of one export section.
#[verifier::loop_isolation(false)]
fn filter_entry_points(entries: Vec<ExportEntry>) -> (r: Vec<ExportEntry>)
    ensures
        views_of(r@) == spec_filter_entry_points(views_of(entries@)),
{
    let ghost orig = entries@;
    let ghost origv = views_of(entries@);
    let mut remaining = entries;
    let mut kept: Vec<ExportEntry> = Vec::new();
    let ghost mut seen: int = 0;
    while remaining.len() > 0
        invariant
            0 <= seen <= orig.len(),
            seen + remaining@.len() == orig.len(),
            remaining@ == orig.skip(seen),
            views_of(kept@) == spec_filter_entry_points(origv.take(seen)),
        decreases remaining@.len(),
    {
        let e = remaining.remove(0);
        assert(e == orig[seen]);
        let keep = is_entry_point_export(&e);
        if keep {
            kept.push(e);
        }
        proof {
            reveal(Seq::filter);
            assert(origv.take(seen + 1).drop_last() =~= origv.take(seen));
            assert(origv.take(seen + 1).last() == origv[seen]);
            assert(origv[seen] == orig[seen]@);
            if keep {
                assert(views_of(kept@) =~= spec_filter_entry_points(origv.take(seen)).push(
                    orig[seen]@,
                ));
            }
            seen = seen + 1;
            assert(remaining@ =~= orig.skip(seen));
        }
    }
    proof {
        assert(origv.take(seen) =~= origv);
    }
    kept
}

/// Retains in every export section only the function exports named for the
/// two required entry points; every other export is dropped. Anything those
/// drops orphan is expected to have been removed by the prior optimization
/// pass already.
#[verifier::loop_isolation(false)]
pub fn strip_exports(module: CompiledModule) -> (r: CompiledModule)
    ensures
        r@ == spec_strip_exports(module@),
{
    let ghost orig = module.sections@;
    let ghost origv = views_of(module.sections@);
    let mut sections = module.sections;
    let mut done: Vec<Section> = Vec::new();
    while sections.len() > 0
        invariant
            done@.len() + sections@.len() == orig.len(),
            sections@ == orig.skip(done@.len() as int),
            views_of(done@) == spec_prune_sections(origv.take(done@.len() as int)),
        decreases sections@.len(),
    {
        let ghost i = done@.len() as int;
        let sec = sections.remove(0);
        assert(sec == orig[i]);
        let stripped = match sec {
            Section::Export(entries) => Section::Export(filter_entry_points(entries)),
            other => other,
        };
        proof {
            assert(stripped@ == spec_prune_section(orig[i]@));
        }
        let ghost old_done = done@;
        done.push(stripped);
        proof {
            assert forall|k: int| 0 <= k < i + 1 implies views_of(done@)[k]
                == spec_prune_sections(origv.take(i + 1))[k] by {
                assert(views_of(done@)[k] == done@[k]@);
                assert(spec_prune_sections(origv.take(i + 1))[k] == spec_prune_section(
                    origv.take(i + 1)[k],
                ));
                assert(origv.take(i + 1)[k] == origv[k]);
                if k < i {
                    assert(done@[k] == old_done[k]);
                    assert(views_of(old_done)[k] == old_done[k]@);
                    assert(views_of(old_done)[k] == spec_prune_sections(origv.take(i))[k]);
                } else {
                    assert(done@[k] == stripped);
                    assert(origv[k] == orig[k]@);
                }
            }
            assert(views_of(done@) =~= spec_prune_sections(origv.take(i + 1)));
            assert(sections@ =~= orig.skip(done@.len() as int));
        }
    }
    proof {
        assert(origv.take(orig.len() as int) =~= origv);
        assert(views_of(done@) =~= spec_strip_exports(SpecModule { sections: origv }).sections);
    }
    CompiledModule { sections: done }
}

// ---------------------------------------------------------------------------
// Memory-limit enforcement
// ---------------------------------------------------------------------------

/// The index of the first import section at or after position `i`, if any.
pub open spec fn spec_find_import_sec(sections: Seq<SpecSection>, i: int) -> Option<int>
    decreases sections.len() - i,
{
    if i < 0 || i >= sections.len() {
        None
    } else if sections[i] is Import {
        Some(i)
    } else {
        spec_find_import_sec(sections, i + 1)
    }
}

/// The index of the first memory import at or after position `j`, if any.
pub open spec fn spec_find_mem_entry(es: Seq<SpecImportEntry>, j: int) -> Option<int>
    decreases es.len() - j,
{
    if j < 0 || j >= es.len() {
        None
    } else if es[j].kind is Memory {
        Some(j)
    } else {
        spec_find_mem_entry(es, j + 1)
    }
}

/// The position of the single imported memory declaration: the first memory
/// entry of the first import section.
pub open spec fn spec_mem_location(m: SpecModule) -> Option<(int, int)> {
    match spec_find_import_sec(m.sections, 0) {
        None => None,
        Some(i) => match spec_find_mem_entry(m.sections[i]->Import_0, 0) {
            None => None,
            Some(j) => Some((i, j)),
        },
    }
}

/// Memory-limit enforcement. A missing memory import is a configuration
/// error. A declared maximum above the ceiling is fatal, reporting both
/// values. A missing maximum is set to the ceiling, with the initial page
/// count unchanged and every other part of the module untouched.
pub open spec fn spec_enforce_memory(m: SpecModule, allowed: u32) -> Result<SpecModule, SpecError> {
    match spec_mem_location(m) {
        None => Err(SpecError::MemoryImportMissing),
        Some((i, j)) => {
            let es = m.sections[i]->Import_0;
            let entry = es[j];
            let limits = entry.kind->Memory_0;
            match limits.maximum {
                Some(requested) => {
                    if requested > allowed {
                        Err(
                            SpecError::MemoryLimitExceeded {
                                requested_pages: requested,
                                allowed_pages: allowed,
                            },
                        )
                    } else {
                        Ok(m)
                    }
                },
                None => {
                    let new_entry = SpecImportEntry {
                        module: entry.module,
                        field: entry.field,
                        kind: ImportKind::Memory(
                            MemoryLimits { initial: limits.initial, maximum: Some(allowed) },
                        ),
                    };
                    Ok(
                        SpecModule {
                            sections: m.sections.update(
                                i,
                                SpecSection::Import(es.update(j, new_entry)),
                            ),
                        },
                    )
                },
            }
        },
    }
}

/// Finds the first import section of the module.
#[verifier::loop_isolation(false)]
fn find_import_sec(sections: &Vec<Section>) -> (r: Option<usize>)
    ensures
        match r {
            Some(i) => {
                &&& i < sections@.len()
                &&& sections@[i as int] is Import
                &&& spec_find_import_sec(views_of(sections@), 0) == Some(i as int)
            },
            None => spec_find_import_sec(views_of(sections@), 0) is None,
        },
{
    let ghost sv = views_of(sections@);
    let mut k: usize = 0;
    while k < sections.len()
        invariant
            0 <= k <= sections@.len(),
            spec_find_import_sec(sv, 0) == spec_find_import_sec(sv, k as int),
        decreases sections@.len() - k,
    {
        let found = match &sections[k] {
            Section::Import(_) => true,
            _ => false,
        };
        proof {
            assert(sv[k as int] == sections@[k as int]@);
        }
        if found {
            return Some(k);
        }
        k = k + 1;
    }
    None
}

/// Finds the first memory import among the entries of an import section.
#[verifier::loop_isolation(false)]
fn find_mem_entry(entries: &Vec<ImportEntry>) -> (r: Option<usize>)
    ensures
        match r {
            Some(j) => {
                &&& j < entries@.len()
                &&& entries@[j as int].kind is Memory
                &&& spec_find_mem_entry(views_of(entries@), 0) == Some(j as int)
            },
            None => spec_find_mem_entry(views_of(entries@), 0) is None,
        },
{
    let ghost ev = views_of(entries@);
    let mut k: usize = 0;
    while k < entries.len()
        invariant
            0 <= k <= entries@.len(),
            spec_find_mem_entry(ev, 0) == spec_find_mem_entry(ev, k as int),
        decreases entries@.len() - k,
    {
        let found = match &entries[k].kind {
            ImportKind::Memory(_) => true,
            _ => false,
        };
        proof {
            assert(ev[k as int] == entries@[k as int]@);
        }
        if found {
            return Some(k);
        }
        k = k + 1;
    }
    None
}

/// Ensures the memory import of the module has a maximum number of pages.
///
/// Locates the memory import entry; absence is fatal. A declared maximum
/// above `maximum_allowed_pages` is fatal, reporting both values; a missing
/// maximum is set to `maximum_allowed_pages`, preserving the initial page
/// count.
pub fn ensure_maximum_memory_pages(module: CompiledModule, maximum_allowed_pages: u32) -> (r:
    Result<CompiledModule, Error>)
    ensures
        spec_result(r) == spec_enforce_memory(module@, maximum_allowed_pages),
{
    let ghost m0 = module@;
    let mut sections = module.sections;
    let i = match find_import_sec(&sections) {
        Some(i) => i,
        None => {
            return Err(Error::MemoryImportMissing);
        },
    };
    let maximum: Option<u32> = match &sections[i] {
        Section::Import(entries) => {
            match find_mem_entry(entries) {
                Some(j) => {
                    match &entries[j].kind {
                        ImportKind::Memory(limits) => limits.maximum,
                        _ => unreached(),
                    }
                },
                None => {
                    return Err(Error::MemoryImportMissing);
                },
            }
        },
        _ => unreached(),
    };
    match maximum {
        Some(requested) => {
            if requested > maximum_allowed_pages {
                Err(
                    Error::MemoryLimitExceeded {
                        requested_pages: requested,
                        allowed_pages: maximum_allowed_pages,
                    },
                )
            } else {
                Ok(CompiledModule { sections })
            }
        },
        None => {
            let ghost j_spec = spec_mem_location(m0)->Some_0.1;
            let sec = sections.remove(i);
            let mut entries = match sec {
                Section::Import(es) => es,
                _ => unreached(),
            };
            let j = match find_mem_entry(&entries) {
                Some(j) => j,
                None => unreached(),
            };
            let entry = entries.remove(j);
            let (module_name, field_name, initial) = match entry {
                ImportEntry { module: mn, field: fname, kind: ImportKind::Memory(limits) } => {
                    (mn, fname, limits.initial)
                },
                _ => unreached(),
            };
            let new_entry = ImportEntry {
                module: module_name,
                field: field_name,
                kind: ImportKind::Memory(
                    MemoryLimits { initial, maximum: Some(maximum_allowed_pages) },
                ),
            };
            entries.insert(j, new_entry);
            sections.insert(i, Section::Import(entries));
            let r = CompiledModule { sections };
            proof {
                let expected = spec_enforce_memory(m0, maximum_allowed_pages)->Ok_0;
                assert(views_of(entries@) =~= expected.sections[i as int]->Import_0);
                assert(r@.sections =~= expected.sections);
            }
            Ok(r)
        },
    }
}

// ---------------------------------------------------------------------------
// Custom-section stripping
// ---------------------------------------------------------------------------

/// Whether stripping keeps a section: every relocation section goes, and
/// every custom section except the one reserved for debug-name metadata.
pub open spec fn spec_keep_section(s: SpecSection) -> bool {
    match s {
        SpecSection::Reloc(_) => false,
        SpecSection::Custom(c) => c.name == "name"@,
        _ => true,
    }
}

/// A module after custom-section stripping.
pub open spec fn spec_strip_custom(m: SpecModule) -> SpecModule {
    SpecModule { sections: m.sections.filter(|s: SpecSection| spec_keep_section(s)) }
}

/// Whether this section survives custom-section stripping.
fn keep_section(s: &Section) -> (r: bool)
    ensures
        r == spec_keep_section(s@),
{
    match s {
        Section::Reloc(_) => false,
        Section::Custom(c) => str_eq(c.name.as_str(), "name"),
        _ => true,
    }
}

/// Strips all relocation sections and all custom sections but the
/// debug-name section (`name`), which the optimizer already removes unless
/// debug symbols were explicitly kept.
#[verifier::loop_isolation(false)]
pub fn strip_custom_sections(module: CompiledModule) -> (r: CompiledModule)
    ensures
        r@ == spec_strip_custom(module@),
{
    let ghost orig = module.sections@;
    let ghost origv = views_of(module.sections@);
    let mut remaining = module.sections;
    let mut kept: Vec<Section> = Vec::new();
    let ghost mut seen: int = 0;
    while remaining.len() > 0
        invariant
            0 <= seen <= orig.len(),
            seen + remaining@.len() == orig.len(),
            remaining@ == orig.skip(seen),
            views_of(kept@) == origv.take(seen).filter(|s: SpecSection| spec_keep_section(s)),
        decreases remaining@.len(),
    {
        let sec = remaining.remove(0);
        assert(sec == orig[seen]);
        let keep = keep_section(&sec);
        if keep {
            kept.push(sec);
        }
        proof {
            reveal(Seq::filter);
            assert(origv.take(seen + 1).drop_last() =~= origv.take(seen));
            assert(origv.take(seen + 1).last() == origv[seen]);
            assert(origv[seen] == orig[seen]@);
            if keep {
                assert(views_of(kept@) =~= origv.take(seen).filter(
                    |s: SpecSection| spec_keep_section(s),
                ).push(orig[seen]@));
            }
            seen = seen + 1;
            assert(remaining@ =~= orig.skip(seen));
        }
    }
    proof {
        assert(origv.take(seen) =~= origv);
    }
    CompiledModule { sections: kept }
}

// ---------------------------------------------------------------------------
// Import validation
// ---------------------------------------------------------------------------

/// Whether a module name designates a host-function namespace: the
/// environment module or one of its versioned extension modules.
pub open spec fn spec_seal_module(name: Seq<char>) -> bool {
    name.len() >= 4 && name.subrange(0, 4) == "seal"@
}

/// The recognized host imports: a function from the environment module or a
/// versioned extension module, or the linear memory from the environment
/// module. Everything else is unexpected.
pub open spec fn spec_import_recognized(e: SpecImportEntry) -> bool {
    match e.kind {
        ImportKind::Function(_) => e.module == "env"@ || spec_seal_module(e.module),
        ImportKind::Memory(_) => e.module == "env"@,
        _ => false,
    }
}

/// The index of the first unrecognized entry at or after position `j`, if
/// any.
pub open spec fn spec_find_bad_import(es: Seq<SpecImportEntry>, j: int) -> Option<int>
    decreases es.len() - j,
{
    if j < 0 || j >= es.len() {
        None
    } else if !spec_import_recognized(es[j]) {
        Some(j)
    } else {
        spec_find_bad_import(es, j + 1)
    }
}

/// Import validation: every entry of the import section must be a
/// recognized host import; the first unexpected one is fatal. A module
/// without an import section has nothing to check.
pub open spec fn spec_validate_imports(m: SpecModule) -> Result<(), SpecError> {
    match spec_find_import_sec(m.sections, 0) {
        None => Ok(()),
        Some(i) => {
            let es = m.sections[i]->Import_0;
            match spec_find_bad_import(es, 0) {
                None => Ok(()),
                Some(j) => Err(
                    SpecError::UnexpectedImport { module: es[j].module, field: es[j].field },
                ),
            }
        },
    }
}

/// Whether a module name starts with the versioned host-namespace prefix.
fn is_seal_module(name: &str) -> (r: bool)
    ensures
        r == spec_seal_module(name@),
{
    let n = name.unicode_len();
    if n < 4 {
        return false;
    }
    let r = name.get_char(0) == 's' && name.get_char(1) == 'e' && name.get_char(2) == 'a'
        && name.get_char(3) == 'l';
    proof {
        reveal_strlit("seal");
        if r {
            assert(name@.subrange(0, 4) =~= "seal"@);
        } else {
            assert(name@.subrange(0, 4)[0] == name@[0]);
            assert(name@.subrange(0, 4)[1] == name@[1]);
            assert(name@.subrange(0, 4)[2] == name@[2]);
            assert(name@.subrange(0, 4)[3] == name@[3]);
        }
    }
    r
}

/// Whether one import entry belongs to the recognized host-import set.
fn import_recognized(e: &ImportEntry) -> (r: bool)
    ensures
        r == spec_import_recognized(e@),
{
    match &e.kind {
        ImportKind::Function(_) => {
            str_eq(e.module.as_str(), "env") || is_seal_module(e.module.as_str())
        },
        ImportKind::Memory(_) => str_eq(e.module.as_str(), "env"),
        _ => false,
    }
}

/// Re-checks the import section of the module: only the recognized,
/// expected host imports may be present; an unexpected import is fatal.
#[verifier::loop_isolation(false)]
pub fn validate_import_section(module: &CompiledModule) -> (r: Result<(), Error>)
    ensures
        match r {
            Ok(_) => spec_validate_imports(module@) is Ok,
            Err(e) => spec_validate_imports(module@) == Err::<(), SpecError>(e@),
        },
{
    let i = match find_import_sec(&module.sections) {
        Some(i) => i,
        None => {
            return Ok(());
        },
    };
    match &module.sections[i] {
        Section::Import(entries) => {
            let ghost ev = views_of(entries@);
            let mut k: usize = 0;
            while k < entries.len()
                invariant
                    0 <= k <= entries@.len(),
                    spec_find_bad_import(ev, 0) == spec_find_bad_import(ev, k as int),
                decreases entries@.len() - k,
            {
                let entry = &entries[k];
                let ok = import_recognized(entry);
                proof {
                    assert(ev[k as int] == entries@[k as int]@);
                }
                if !ok {
                    return Err(
                        Error::UnexpectedImport {
                            module: entry.module.clone(),
                            field: entry.field.clone(),
                        },
                    );
                }
                k = k + 1;
            }
            Ok(())
        },
        _ => unreached(),
    }
}

// ---------------------------------------------------------------------------
// The post-processing pipeline
// ---------------------------------------------------------------------------

/// The required post-processing of a compiled module, in fixed order:
/// export pruning, memory-limit enforcement, custom-section stripping, and
/// import validation unless explicitly skipped.
pub open spec fn spec_post_process(m: SpecModule, max_memory_pages: u32, skip_validation: bool) -> Result<
    SpecModule,
    SpecError,
> {
    let pruned = spec_strip_exports(m);
    match spec_enforce_memory(pruned, max_memory_pages) {
        Err(e) => Err(e),
        Ok(enforced) => {
            let stripped = spec_strip_custom(enforced);
            if skip_validation {
                Ok(stripped)
            } else {
                match spec_validate_imports(stripped) {
                    Ok(_) => Ok(stripped),
                    Err(e) => Err(e),
                }
            }
        },
    }
}

/// Performs the required post-processing steps on the compiled module, in
/// memory: export pruning, memory-limit enforcement, custom-section
/// stripping, then import validation unless `skip_validation` is set (the
/// caller then owes the user a visible correctness-risk warning). No step
/// writes anything; a failure leaves the on-disk artifact as it was.
pub fn post_process_wasm(module: CompiledModule, max_memory_pages: u32, skip_validation: bool) -> (r:
    Result<CompiledModule, Error>)
    ensures
        spec_result(r) == spec_post_process(module@, max_memory_pages, skip_validation),
{
    let pruned = strip_exports(module);
    let enforced = match ensure_maximum_memory_pages(pruned, max_memory_pages) {
        Ok(m) => m,
        Err(e) => {
            return Err(e);
        },
    };
    let stripped = strip_custom_sections(enforced);
    if !skip_validation {
        match validate_import_section(&stripped) {
            Ok(_) => {},
            Err(e) => {
                return Err(e);
            },
        }
    }
    Ok(stripped)
}

// ---------------------------------------------------------------------------
// Laws of memory-limit enforcement
// ---------------------------------------------------------------------------

/// A found import section lies in range and is an import section.
proof fn lemma_find_import_sec_props(s: Seq<SpecSection>, i: int)
    ensures
        spec_find_import_sec(s, i) matches Some(k) ==> i <= k < s.len() && s[k] is Import,
    decreases s.len() - i,
{
    if 0 <= i < s.len() && !(s[i] is Import) {
        lemma_find_import_sec_props(s, i + 1);
    }
}

/// A found memory entry lies in range and is a memory import.
proof fn lemma_find_mem_entry_props(es: Seq<SpecImportEntry>, j: int)
    ensures
        spec_find_mem_entry(es, j) matches Some(k) ==> j <= k < es.len() && es[k].kind is Memory,
    decreases es.len() - j,
{
    if 0 <= j < es.len() && !(es[j].kind is Memory) {
        lemma_find_mem_entry_props(es, j + 1);
    }
}

/// The location of the memory import lies in range, inside an import
/// section, and designates a memory entry.
pub proof fn lemma_mem_location_props(m: SpecModule)
    ensures
        spec_mem_location(m) matches Some((i, j)) ==> {
            &&& 0 <= i < m.sections.len()
            &&& m.sections[i] is Import
            &&& 0 <= j < m.sections[i]->Import_0.len()
            &&& m.sections[i]->Import_0[j].kind is Memory
        },
{
    lemma_find_import_sec_props(m.sections, 0);
    if spec_find_import_sec(m.sections, 0) is Some {
        let i = spec_find_import_sec(m.sections, 0)->Some_0;
        lemma_find_mem_entry_props(m.sections[i]->Import_0, 0);
    }
}

/// For a module whose memory import declares no maximum, enforcement
/// succeeds, sets the maximum to the ceiling, and leaves the initial page
/// count — and every other section and entry — unchanged.
pub proof fn lemma_enforce_memory_sets_missing_maximum(m: SpecModule, allowed: u32)
    requires
        spec_mem_location(m) is Some,
        ({
            let (i, j) = spec_mem_location(m)->Some_0;
            m.sections[i]->Import_0[j].kind->Memory_0.maximum is None
        }),
    ensures
        spec_enforce_memory(m, allowed) is Ok,
        ({
            let (i, j) = spec_mem_location(m)->Some_0;
            let n = spec_enforce_memory(m, allowed)->Ok_0;
            let oe = m.sections[i]->Import_0[j];
            let ne = n.sections[i]->Import_0[j];
            &&& n.sections.len() == m.sections.len()
            &&& forall|k: int| 0 <= k < m.sections.len() && k != i ==> n.sections[k]
                == m.sections[k]
            &&& n.sections[i]->Import_0.len() == m.sections[i]->Import_0.len()
            &&& forall|l: int| 0 <= l < m.sections[i]->Import_0.len() && l != j
                ==> n.sections[i]->Import_0[l] == m.sections[i]->Import_0[l]
            &&& ne.module == oe.module
            &&& ne.field == oe.field
            &&& ne.kind == ImportKind::Memory(
                MemoryLimits {
                    initial: oe.kind->Memory_0.initial,
                    maximum: Some(allowed),
                },
            )
        }),
{
    lemma_mem_location_props(m);
}

/// A module whose memory import declares a maximum above the ceiling is
/// rejected, and the error carries both the requested and the allowed page
/// count.
pub proof fn lemma_enforce_memory_rejects_oversized(m: SpecModule, allowed: u32)
    requires
        spec_mem_location(m) is Some,
        ({
            let (i, j) = spec_mem_location(m)->Some_0;
            let max = m.sections[i]->Import_0[j].kind->Memory_0.maximum;
            max is Some && max->0 > allowed
        }),
    ensures
        ({
            let (i, j) = spec_mem_location(m)->Some_0;
            let requested = m.sections[i]->Import_0[j].kind->Memory_0.maximum->0;
            spec_enforce_memory(m, allowed) == Err::<SpecModule, SpecError>(
                SpecError::MemoryLimitExceeded { requested_pages: requested, allowed_pages: allowed },
            )
        }),
{
    lemma_mem_location_props(m);
}

/// A module with no memory import is rejected with the error whose message
/// references the missing linker option.
pub proof fn lemma_enforce_memory_rejects_missing_import(m: SpecModule, allowed: u32)
    requires
        spec_mem_location(m) is None,
    ensures
        spec_enforce_memory(m, allowed) == Err::<SpecModule, SpecError>(
            SpecError::MemoryImportMissing,
        ),
{
}

} // verus!
