//! The output record of one build — artifact paths, optimization sizes,
//! mode, artifact selection, verbosity — with its two presentations: a
//! stable machine-readable serialized form and a human-readable summary.
//! The human-readable form is never part of the serialized form.

use vstd::prelude::*;
use crate::args::BuildArtifacts;
use crate::args::BuildMode;
use crate::args::Features;
use crate::args::Network;
use crate::args::OutputType;
use crate::args::Target;
use crate::args::UnstableFlags;
use crate::args::Verbosity;
use crate::strutil::push_char;
use crate::strutil::spec_digit_char;
use crate::strutil::spec_u64_digits;
use crate::strutil::u64_to_string;
use crate::version::Version;

verus! {

/// This is the default maximum number of pages available for a contract to
/// allocate.
pub const DEFAULT_MAX_MEMORY_PAGES: u32 = 16;

/// How many optimization passes the external size optimizer runs.
#[derive(Debug, Clone, Copy, PartialEq, Eq, Structural)]
pub enum OptimizationPasses {
    Zero,
    One,
    Two,
    Three,
    Four,
    S,
    Z,
}

impl Default for OptimizationPasses {
    fn default() -> (r: Self)
        ensures
            r == OptimizationPasses::Z,
    {
        OptimizationPasses::Z
    }
}

/// The variant of the image used for a verifiable build.
#[derive(Debug, Clone, PartialEq, Eq)]
pub enum ImageVariant {
    Default,
    Custom(String),
}

/// Arguments to use when executing `build` or `check` commands.
#[derive(Debug, Clone)]
pub struct ExecuteArgs {
    /// The location of the build-configuration document to use.
    pub manifest_path: String,
    pub verbosity: Verbosity,
    pub build_mode: BuildMode,
    pub features: Features,
    pub network: Network,
    pub build_artifact: BuildArtifacts,
    pub unstable_flags: UnstableFlags,
    pub optimization_passes: Option<OptimizationPasses>,
    pub keep_debug_symbols: bool,
    pub dylint: bool,
    pub output_type: OutputType,
    pub skip_wasm_validation: bool,
    pub target: Target,
    pub max_memory_pages: u32,
    pub image: ImageVariant,
}

impl Default for ExecuteArgs {
    fn default() -> (r: Self)
        ensures
            r.manifest_path@ == Seq::<char>::empty(),
            r.verbosity == Verbosity::Default,
            r.build_mode == BuildMode::Debug,
            r.features@ == Seq::<Seq<char>>::empty(),
            r.network == Network::Online,
            r.build_artifact == BuildArtifacts::All,
            r.unstable_flags == (UnstableFlags { original_manifest: false }),
            r.optimization_passes is None,
            !r.keep_debug_symbols,
            !r.dylint,
            r.output_type == OutputType::HumanReadable,
            !r.skip_wasm_validation,
            r.target == Target::Wasm,
            r.max_memory_pages == DEFAULT_MAX_MEMORY_PAGES,
            r.image == ImageVariant::Default,
    {
        ExecuteArgs {
            manifest_path: String::new(),
            verbosity: Verbosity::Default,
            build_mode: BuildMode::Debug,
            features: Features::new(),
            network: Network::Online,
            build_artifact: BuildArtifacts::All,
            unstable_flags: UnstableFlags { original_manifest: false },
            optimization_passes: None,
            keep_debug_symbols: false,
            dylint: false,
            output_type: OutputType::HumanReadable,
            skip_wasm_validation: false,
            target: Target::Wasm,
            max_memory_pages: DEFAULT_MAX_MEMORY_PAGES,
            image: ImageVariant::Default,
        }
    }
}

/// Result of the metadata generation: where the metadata document and the
/// code-plus-metadata bundle were written.
#[derive(Debug, Clone, PartialEq, Eq)]
pub struct MetadataArtifacts {
    pub dest_metadata: String,
    pub dest_bundle: String,
}

/// Result of the size optimization: artifact sizes in bytes before and
/// after.
#[derive(Debug, Clone, Copy, PartialEq, Eq, Structural)]
pub struct OptimizationResult {
    pub original_size: u64,
    pub optimized_size: u64,
}

/// The optimizer settings recorded alongside the artifact.
#[derive(Debug, Clone, Copy, PartialEq, Eq, Structural)]
pub struct WasmOptSettings {
    pub optimization_passes: OptimizationPasses,
    pub keep_debug_symbols: bool,
}

/// The toolchain and settings a build was made with, persisted alongside
/// the artifact for later change detection.
#[derive(Debug, Clone)]
pub struct BuildInfo {
    pub rust_toolchain: String,
    pub cargo_contract_version: Version,
    pub build_mode: BuildMode,
    pub wasm_opt_settings: WasmOptSettings,
}

/// Result of the build process.
#[derive(Debug, Clone)]
pub struct BuildResult {
    /// Path to the resulting code artifact, if one was produced.
    pub dest_wasm: Option<String>,
    /// Result of the metadata generation, if it ran.
    pub metadata_result: Option<MetadataArtifacts>,
    /// Path to the directory where output files are written to.
    pub target_directory: String,
    /// If existent the result of the optimization.
    pub optimization_result: Option<OptimizationResult>,
    /// The mode the contract was built in.
    pub build_mode: BuildMode,
    /// Which build artifacts were generated.
    pub build_artifact: BuildArtifacts,
    /// The verbosity flags.
    pub verbosity: Verbosity,
    /// Image used for the verifiable build.
    pub image: Option<String>,
    /// The type of formatting to use for the build output. Presentation
    /// only: never part of the serialized form.
    pub output_type: OutputType,
}

/// Mathematical model of the serializable part of a build result.
#[verifier::ext_equal]
pub struct SpecBuildResult {
    pub dest_wasm: Option<Seq<char>>,
    pub metadata_result: Option<(Seq<char>, Seq<char>)>,
    pub target_directory: Seq<char>,
    pub optimization_result: Option<OptimizationResult>,
    pub build_mode: BuildMode,
    pub build_artifact: BuildArtifacts,
    pub verbosity: Verbosity,
    pub image: Option<Seq<char>>,
}

impl View for BuildResult {
    type V = SpecBuildResult;

    open spec fn view(&self) -> SpecBuildResult {
        SpecBuildResult {
            dest_wasm: match self.dest_wasm {
                Some(p) => Some(p@),
                None => None,
            },
            metadata_result: match self.metadata_result {
                Some(m) => Some((m.dest_metadata@, m.dest_bundle@)),
                None => None,
            },
            target_directory: self.target_directory@,
            optimization_result: self.optimization_result,
            build_mode: self.build_mode,
            build_artifact: self.build_artifact,
            verbosity: self.verbosity,
            image: match self.image {
                Some(i) => Some(i@),
                None => None,
            },
        }
    }
}

// ---------------------------------------------------------------------------
// The human-readable summary
// ---------------------------------------------------------------------------

/// A size in bytes rendered in thousands with one decimal, rounding half
/// up: the whole thousands, a point, and the rounded tenths digit. (A
/// float formatter would round an exact half to the even neighbour
/// instead; the two differ only on exact-tie byte counts.)
pub open spec fn spec_k_size(bytes: u64) -> Seq<char> {
    let tenths = bytes / 100 + if bytes % 100 >= 50 {
        1int
    } else {
        0int
    };
    spec_u64_digits(tenths / 10) + "."@ + spec_u64_digits(tenths % 10)
}

/// The upper-case name of the build mode.
pub open spec fn spec_mode_upper(m: BuildMode) -> Seq<char> {
    match m {
        BuildMode::Debug => "DEBUG"@,
        BuildMode::Release => "RELEASE"@,
        BuildMode::Verifiable => "VERIFIABLE"@,
    }
}

/// The file name of a path: everything after its last separator.
pub open spec fn spec_base_name(p: Seq<char>) -> Seq<char>
    decreases p.len(),
{
    if p.len() == 0 {
        p
    } else if p.last() == '/' {
        Seq::empty()
    } else {
        spec_base_name(p.drop_last()).push(p.last())
    }
}

/// The size line of the summary: both sizes when the optimizer ran, a bare
/// break otherwise.
pub open spec fn spec_size_diff(o: Option<OptimizationResult>) -> Seq<char> {
    match o {
        Some(o) => {
            "\nOriginal wasm size: "@ + spec_k_size(o.original_size) + "K, Optimized: "@
                + spec_k_size(o.optimized_size) + "K\n\n"@
        },
        None => "\n"@,
    }
}

/// The whole human-readable summary of a build result.
pub open spec fn spec_display(r: SpecBuildResult) -> Seq<char> {
    let head = spec_size_diff(r.optimization_result) + "The contract was built in "@
        + spec_mode_upper(r.build_mode) + " mode.\n\n"@;
    if r.build_artifact == BuildArtifacts::CodeOnly {
        head + "Your contract's code is ready. You can find it here:\n"@ + r.dest_wasm->0
    } else {
        let listing = head + "Your contract artifacts are ready. You can find them in:\n"@
            + r.target_directory + "\n\n"@;
        let with_bundle = match r.metadata_result {
            Some(m) => listing + "  - "@ + spec_base_name(m.1) + " (code + metadata)\n"@,
            None => listing,
        };
        let with_wasm = match r.dest_wasm {
            Some(w) => with_bundle + "  - "@ + spec_base_name(w) + " (the contract's code)\n"@,
            None => with_bundle,
        };
        match r.metadata_result {
            Some(m) => with_wasm + "  - "@ + spec_base_name(m.0) + " (the contract's metadata)"@,
            None => with_wasm,
        }
    }
}

/// Renders a size in bytes in thousands with one decimal.
fn k_size(bytes: u64) -> (s: String)
    ensures
        s@ == spec_k_size(bytes),
{
    let tenths = (bytes / 100) + (if bytes % 100 >= 50 {
        1
    } else {
        0
    });
    let mut s = u64_to_string(tenths / 10);
    push_char(&mut s, '.');
    let frac = u64_to_string(tenths % 10);
    s.append(frac.as_str());
    proof {
        reveal_strlit(".");
        assert("."@ =~= seq!['.']);
        assert(s@ =~= spec_k_size(bytes));
    }
    s
}

/// Finds the file name of a path: everything after the last separator.
#[verifier::loop_isolation(false)]
fn base_name(p: &str) -> (r: String)
    ensures
        r@ == spec_base_name(p@),
{
    let n = p.unicode_len();
    let mut k: usize = n;
    while k > 0 && p.get_char(k - 1) != '/'
        invariant
            0 <= k <= n,
            n == p@.len(),
            forall|j: int| k <= j < n ==> p@[j] != '/',
        decreases k,
    {
        k = k - 1;
    }
    let tail = p.substring_char(k, n);
    proof {
        lemma_base_name_suffix(p@, k as int);
    }
    tail.to_owned()
}

/// The file name of a path is its suffix after the last separator.
proof fn lemma_base_name_suffix(p: Seq<char>, k: int)
    requires
        0 <= k <= p.len(),
        k > 0 ==> p[k - 1] == '/',
        forall|j: int| k <= j < p.len() ==> p[j] != '/',
    ensures
        spec_base_name(p) == p.subrange(k, p.len() as int),
    decreases p.len(),
{
    if p.len() == 0 {
        assert(spec_base_name(p) =~= p.subrange(k, p.len() as int));
    } else if k == p.len() {
        if k > 0 {
            assert(p.last() == '/');
        }
        assert(spec_base_name(p) =~= p.subrange(k, p.len() as int));
    } else {
        assert(p.last() != '/');
        lemma_base_name_suffix(p.drop_last(), k);
        assert(spec_base_name(p) == spec_base_name(p.drop_last()).push(p.last()));
        assert(spec_base_name(p) =~= p.subrange(k, p.len() as int));
    }
}

impl BuildResult {
    /// The human-readable multi-line summary of this build result. This
    /// presentation form is never part of the serialized form.
    pub fn display(&self) -> (s: String)
        requires
            self.build_artifact == BuildArtifacts::CodeOnly ==> self.dest_wasm is Some,
        ensures
            s@ == spec_display(self@),
    {
        let mut out: String = String::new();
        match &self.optimization_result {
            Some(o) => {
                out.append("\nOriginal wasm size: ");
                let orig = k_size(o.original_size);
                out.append(orig.as_str());
                out.append("K, Optimized: ");
                let opt = k_size(o.optimized_size);
                out.append(opt.as_str());
                out.append("K\n\n");
            },
            None => {
                out.append("\n");
            },
        }
        proof {
            assert(out@ =~= spec_size_diff(self@.optimization_result));
        }
        out.append("The contract was built in ");
        match self.build_mode {
            BuildMode::Debug => out.append("DEBUG"),
            BuildMode::Release => out.append("RELEASE"),
            BuildMode::Verifiable => out.append("VERIFIABLE"),
        }
        out.append(" mode.\n\n");
        if self.build_artifact == BuildArtifacts::CodeOnly {
            out.append("Your contract's code is ready. You can find it here:\n");
            match &self.dest_wasm {
                Some(w) => out.append(w.as_str()),
                None => {},
            }
            proof {
                assert(out@ =~= spec_display(self@));
            }
            return out;
        }
        out.append("Your contract artifacts are ready. You can find them in:\n");
        out.append(self.target_directory.as_str());
        out.append("\n\n");
        match &self.metadata_result {
            Some(m) => {
                out.append("  - ");
                let b = base_name(m.dest_bundle.as_str());
                out.append(b.as_str());
                out.append(" (code + metadata)\n");
            },
            None => {},
        }
        match &self.dest_wasm {
            Some(w) => {
                out.append("  - ");
                let b = base_name(w.as_str());
                out.append(b.as_str());
                out.append(" (the contract's code)\n");
            },
            None => {},
        }
        match &self.metadata_result {
            Some(m) => {
                out.append("  - ");
                let b = base_name(m.dest_metadata.as_str());
                out.append(b.as_str());
                out.append(" (the contract's metadata)");
            },
            None => {},
        }
        proof {
            assert(out@ =~= spec_display(self@));
        }
        out
    }
}

// ---------------------------------------------------------------------------
// The machine-readable serialized form
// ---------------------------------------------------------------------------

/// A hexadecimal digit character, lower case.
pub open spec fn spec_hex_char(d: int) -> char {
    if d < 10 {
        ((48 + d) as char)
    } else {
        ((87 + d) as char)
    }
}

/// How one character is written inside a serialized string: quote and
/// backslash escaped, the named control characters short-escaped, every
/// other control character in universal form, everything else verbatim.
pub open spec fn spec_escape_char(c: char) -> Seq<char> {
    if c == '"' {
        seq!['\\', '"']
    } else if c == '\\' {
        seq!['\\', '\\']
    } else if c == '\u{08}' {
        seq!['\\', 'b']
    } else if c == '\u{09}' {
        seq!['\\', 't']
    } else if c == '\u{0a}' {
        seq!['\\', 'n']
    } else if c == '\u{0c}' {
        seq!['\\', 'f']
    } else if c == '\u{0d}' {
        seq!['\\', 'r']
    } else if (c as int) < 32 {
        seq!['\\', 'u', '0', '0', spec_hex_char(c as int / 16), spec_hex_char(c as int % 16)]
    } else {
        seq![c]
    }
}

/// A whole character sequence escaped for a serialized string.
pub open spec fn spec_escape(s: Seq<char>) -> Seq<char>
    decreases s.len(),
{
    if s.len() == 0 {
        Seq::empty()
    } else {
        spec_escape_char(s.first()) + spec_escape(s.drop_first())
    }
}

/// Escaping a sequence extended at the end escapes the extension at the
/// end.
pub proof fn lemma_escape_snoc(s: Seq<char>, c: char)
    ensures
        spec_escape(s.push(c)) == spec_escape(s) + spec_escape_char(c),
    decreases s.len(),
{
    if s.len() == 0 {
        assert(s.push(c).first() == c);
        assert(s.push(c).drop_first() =~= Seq::<char>::empty());
        assert(spec_escape(Seq::<char>::empty()) == Seq::<char>::empty());
        assert(spec_escape(s.push(c)) =~= spec_escape(s) + spec_escape_char(c));
    } else {
        assert(s.push(c).drop_first() =~= s.drop_first().push(c));
        lemma_escape_snoc(s.drop_first(), c);
        assert(spec_escape(s.push(c)) =~= spec_escape(s) + spec_escape_char(c));
    }
}

/// A serialized string value: the escaped characters between quotes.
pub open spec fn spec_json_string(s: Seq<char>) -> Seq<char> {
    seq!['"'] + spec_escape(s) + seq!['"']
}

/// A serialized optional string value: the string, or the null keyword.
pub open spec fn spec_json_opt_string(o: Option<Seq<char>>) -> Seq<char> {
    match o {
        Some(s) => spec_json_string(s),
        None => "null"@,
    }
}

/// A size in bytes serialized as thousands: the whole part, a point, and
/// the fractional thousandths with trailing zeros trimmed.
pub open spec fn spec_k_number(bytes: u64) -> Seq<char> {
    let frac = (bytes % 1000) as int;
    let d1 = spec_digit_char(frac / 100);
    let d2 = spec_digit_char((frac / 10) % 10);
    let d3 = spec_digit_char(frac % 10);
    spec_u64_digits(bytes as int / 1000) + "."@ + if frac % 10 != 0 {
        seq![d1, d2, d3]
    } else if (frac / 10) % 10 != 0 {
        seq![d1, d2]
    } else {
        seq![d1]
    }
}

/// The serialized name of the build mode.
pub open spec fn spec_mode_name(m: BuildMode) -> Seq<char> {
    match m {
        BuildMode::Debug => "Debug"@,
        BuildMode::Release => "Release"@,
        BuildMode::Verifiable => "Verifiable"@,
    }
}

/// The serialized name of the artifact selection.
pub open spec fn spec_artifact_name(a: BuildArtifacts) -> Seq<char> {
    match a {
        BuildArtifacts::CheckOnly => "CheckOnly"@,
        BuildArtifacts::CodeOnly => "CodeOnly"@,
        BuildArtifacts::All => "All"@,
    }
}

/// The serialized name of the verbosity.
pub open spec fn spec_verbosity_name(v: Verbosity) -> Seq<char> {
    match v {
        Verbosity::Quiet => "Quiet"@,
        Verbosity::Default => "Default"@,
        Verbosity::Verbose => "Verbose"@,
    }
}

/// The serialized artifact-path field, with the opening brace.
pub open spec fn spec_dest_part(r: SpecBuildResult) -> Seq<char> {
    "{\n  \"dest_wasm\": "@ + spec_json_opt_string(r.dest_wasm)
}

/// The serialized metadata-artifacts field.
pub open spec fn spec_meta_part(r: SpecBuildResult) -> Seq<char> {
    ",\n  \"metadata_result\": "@ + match r.metadata_result {
        Some(m) => {
            "{\n    \"dest_metadata\": "@ + spec_json_string(m.0) + ",\n    \"dest_bundle\": "@
                + spec_json_string(m.1) + "\n  }"@
        },
        None => "null"@,
    }
}

/// The serialized target-directory field.
pub open spec fn spec_dir_part(r: SpecBuildResult) -> Seq<char> {
    ",\n  \"target_directory\": "@ + spec_json_string(r.target_directory)
}

/// The serialized optimization-sizes field.
pub open spec fn spec_opt_part(r: SpecBuildResult) -> Seq<char> {
    ",\n  \"optimization_result\": "@ + match r.optimization_result {
        Some(o) => {
            "{\n    \"original_size\": "@ + spec_k_number(o.original_size)
                + ",\n    \"optimized_size\": "@ + spec_k_number(o.optimized_size) + "\n  }"@
        },
        None => "null"@,
    }
}

/// The serialized mode, artifact-selection, verbosity and image fields,
/// with the closing brace.
pub open spec fn spec_tail_part(r: SpecBuildResult) -> Seq<char> {
    ",\n  \"build_mode\": \""@ + spec_mode_name(r.build_mode) + "\",\n  \"build_artifact\": \""@
        + spec_artifact_name(r.build_artifact) + "\",\n  \"verbosity\": \""@ + spec_verbosity_name(
        r.verbosity,
    ) + "\",\n  \"image\": "@ + spec_json_opt_string(r.image) + "\n}"@
}

/// The stable machine-readable serialized form of a build result. The
/// presentation-only formatting field is not part of it.
pub open spec fn spec_serialize(r: SpecBuildResult) -> Seq<char> {
    spec_dest_part(r) + spec_meta_part(r) + spec_dir_part(r) + spec_opt_part(r) + spec_tail_part(r)
}

/// Appends one character, escaped for a serialized string.
fn append_escaped_char(out: &mut String, c: char)
    ensures
        final(out)@ == old(out)@ + spec_escape_char(c),
{
    let code = c as u32;
    if c == '"' {
        out.append("\\\"");
        proof {
            reveal_strlit("\\\"");
            assert(out@ =~= old(out)@ + spec_escape_char(c));
        }
    } else if c == '\\' {
        out.append("\\\\");
        proof {
            reveal_strlit("\\\\");
            assert(out@ =~= old(out)@ + spec_escape_char(c));
        }
    } else if code == 8 {
        out.append("\\b");
        proof {
            reveal_strlit("\\b");
            assert(out@ =~= old(out)@ + spec_escape_char(c));
        }
    } else if code == 9 {
        out.append("\\t");
        proof {
            reveal_strlit("\\t");
            assert(out@ =~= old(out)@ + spec_escape_char(c));
        }
    } else if code == 10 {
        out.append("\\n");
        proof {
            reveal_strlit("\\n");
            assert(out@ =~= old(out)@ + spec_escape_char(c));
        }
    } else if code == 12 {
        out.append("\\f");
        proof {
            reveal_strlit("\\f");
            assert(out@ =~= old(out)@ + spec_escape_char(c));
        }
    } else if code == 13 {
        out.append("\\r");
        proof {
            reveal_strlit("\\r");
            assert(out@ =~= old(out)@ + spec_escape_char(c));
        }
    } else if code < 32 {
        out.append("\\u00");
        let d1 = (code / 16) as u8;
        let d2 = (code % 16) as u8;
        let c1 = if d1 < 10 {
            (48 + d1) as char
        } else {
            (87 + d1) as char
        };
        let c2 = if d2 < 10 {
            (48 + d2) as char
        } else {
            (87 + d2) as char
        };
        push_char(out, c1);
        push_char(out, c2);
        proof {
            reveal_strlit("\\u00");
            assert(out@ =~= old(out)@ + spec_escape_char(c));
        }
    } else {
        push_char(out, c);
        proof {
            assert(out@ =~= old(out)@ + spec_escape_char(c));
        }
    }
}

/// Appends a whole serialized string value: a quote, the escaped
/// characters, a quote.
#[verifier::loop_isolation(false)]
fn append_json_string(out: &mut String, s: &str)
    ensures
        final(out)@ == old(out)@ + spec_json_string(s@),
{
    push_char(out, '"');
    let n = s.unicode_len();
    let mut i: usize = 0;
    while i < n
        invariant
            0 <= i <= n,
            n == s@.len(),
            out@ == old(out)@ + seq!['"'] + spec_escape(s@.take(i as int)),
        decreases n - i,
    {
        let c = s.get_char(i);
        append_escaped_char(out, c);
        proof {
            assert(s@.take(i as int).push(c) =~= s@.take(i + 1));
            lemma_escape_snoc(s@.take(i as int), c);
        }
        i = i + 1;
    }
    push_char(out, '"');
    proof {
        assert(s@.take(n as int) =~= s@);
        assert(out@ =~= old(out)@ + spec_json_string(s@));
    }
}

/// Appends a serialized size in thousands with trailing zeros trimmed.
fn append_k_number(out: &mut String, bytes: u64)
    ensures
        final(out)@ == old(out)@ + spec_k_number(bytes),
{
    let whole = u64_to_string(bytes / 1000);
    out.append(whole.as_str());
    push_char(out, '.');
    let frac = bytes % 1000;
    let d1 = (48 + (frac / 100) as u8) as char;
    let d2 = (48 + ((frac / 10) % 10) as u8) as char;
    let d3 = (48 + (frac % 10) as u8) as char;
    if frac % 10 != 0 {
        push_char(out, d1);
        push_char(out, d2);
        push_char(out, d3);
    } else if (frac / 10) % 10 != 0 {
        push_char(out, d1);
        push_char(out, d2);
    } else {
        push_char(out, d1);
    }
    proof {
        reveal_strlit(".");
        assert("."@ =~= seq!['.']);
        assert(out@ =~= old(out)@ + spec_k_number(bytes));
    }
}

impl BuildResult {
    /// Serializes the build result into its stable machine-readable form.
    pub fn serialize_json(&self) -> (r: Result<String, crate::error::Error>)
        ensures
            r is Ok,
            r matches Ok(s) ==> s@ == spec_serialize(self@),
    {
        let mut out: String = String::new();
        self.append_dest_part(&mut out);
        self.append_meta_part(&mut out);
        self.append_dir_part(&mut out);
        self.append_opt_part(&mut out);
        self.append_tail_part(&mut out);
        proof {
            assert(out@ =~= spec_serialize(self@));
        }
        Ok(out)
    }

    /// Writes the artifact-path field, with the opening brace.
    fn append_dest_part(&self, out: &mut String)
        ensures
            final(out)@ == old(out)@ + spec_dest_part(self@),
    {
        out.append("{\n  \"dest_wasm\": ");
        match &self.dest_wasm {
            Some(w) => append_json_string(out, w.as_str()),
            None => out.append("null"),
        }
        proof {
            assert(out@ =~= old(out)@ + spec_dest_part(self@));
        }
    }

    /// Writes the metadata-artifacts field.
    fn append_meta_part(&self, out: &mut String)
        ensures
            final(out)@ == old(out)@ + spec_meta_part(self@),
    {
        out.append(",\n  \"metadata_result\": ");
        match &self.metadata_result {
            Some(m) => {
                out.append("{\n    \"dest_metadata\": ");
                append_json_string(out, m.dest_metadata.as_str());
                out.append(",\n    \"dest_bundle\": ");
                append_json_string(out, m.dest_bundle.as_str());
                out.append("\n  }");
            },
            None => out.append("null"),
        }
        proof {
            assert(out@ =~= old(out)@ + spec_meta_part(self@));
        }
    }

    /// Writes the target-directory field.
    fn append_dir_part(&self, out: &mut String)
        ensures
            final(out)@ == old(out)@ + spec_dir_part(self@),
    {
        out.append(",\n  \"target_directory\": ");
        append_json_string(out, self.target_directory.as_str());
        proof {
            assert(out@ =~= old(out)@ + spec_dir_part(self@));
        }
    }

    /// Writes the optimization-sizes field.
    fn append_opt_part(&self, out: &mut String)
        ensures
            final(out)@ == old(out)@ + spec_opt_part(self@),
    {
        out.append(",\n  \"optimization_result\": ");
        match &self.optimization_result {
            Some(o) => {
                out.append("{\n    \"original_size\": ");
                append_k_number(out, o.original_size);
                out.append(",\n    \"optimized_size\": ");
                append_k_number(out, o.optimized_size);
                out.append("\n  }");
            },
            None => out.append("null"),
        }
        proof {
            assert(out@ =~= old(out)@ + spec_opt_part(self@));
        }
    }

    /// Writes the mode, artifact-selection, verbosity and image fields,
    /// with the closing brace.
    fn append_tail_part(&self, out: &mut String)
        ensures
            final(out)@ == old(out)@ + spec_tail_part(self@),
    {
        out.append(",\n  \"build_mode\": \"");
        match self.build_mode {
            BuildMode::Debug => out.append("Debug"),
            BuildMode::Release => out.append("Release"),
            BuildMode::Verifiable => out.append("Verifiable"),
        }
        out.append("\",\n  \"build_artifact\": \"");
        match self.build_artifact {
            BuildArtifacts::CheckOnly => out.append("CheckOnly"),
            BuildArtifacts::CodeOnly => out.append("CodeOnly"),
            BuildArtifacts::All => out.append("All"),
        }
        out.append("\",\n  \"verbosity\": \"");
        match self.verbosity {
            Verbosity::Quiet => out.append("Quiet"),
            Verbosity::Default => out.append("Default"),
            Verbosity::Verbose => out.append("Verbose"),
        }
        out.append("\",\n  \"image\": ");
        match &self.image {
            Some(i) => append_json_string(out, i.as_str()),
            None => out.append("null"),
        }
        out.append("\n}");
        proof {
            assert(out@ =~= old(out)@ + spec_tail_part(self@));
        }
    }

    /// Reads a build result back from its serialized form. Deserialization
    /// succeeds on every serialized record, and whatever comes back
    /// serializes to exactly the given text — so, with the injectivity of
    /// the serialized form, every serialized field is recovered exactly.
    /// Text that is not the serialized form of a build result is rejected.
    /// The presentation-only field takes its default.
    pub fn deserialize_json(s: &str) -> (r: Option<BuildResult>)
        ensures
            (r matches Some(b) ==> spec_serialize(b@) == s@),
            ((exists|b: SpecBuildResult| spec_serialize(b) == s@) ==> r is Some),
    {
        let ghost gw: Option<SpecBuildResult> = if exists|b: SpecBuildResult|
            spec_serialize(b) == s@ {
            Some(choose|b: SpecBuildResult| spec_serialize(b) == s@)
        } else {
            None
        };
        let candidate = match parse_build_result(s, Ghost(gw)) {
            Some(b) => b,
            None => {
                proof {
                    if gw is Some {
                        assert(false);
                    }
                }
                return None;
            },
        };
        let reserialized = match candidate.serialize_json() {
            Ok(text) => text,
            Err(_) => {
                proof {
                    assert(false);
                }
                return None;
            },
        };
        if crate::strutil::str_eq(reserialized.as_str(), s) {
            Some(candidate)
        } else {
            proof {
                if gw is Some {
                    assert(false);
                }
            }
            return None;
        }
    }
}

/// A character's code point is non-negative.
proof fn lemma_char_int_nonneg(c: char)
    ensures
        0 <= c as int,
{
    vstd::utf8::char_is_scalar(c);
    let u = c as u32;
    vstd::utf8::char_u32_cast(c, u);
    assert((u as char) == c);
    assert((u as char) as int == u as int);
    assert(c as int == u as int);
}

/// Splitting a concatenation at the prefix length yields its two parts.
proof fn lemma_prefix_parts(lit: Seq<char>, x: Seq<char>)
    ensures
        (lit + x).len() == lit.len() + x.len(),
        (lit + x).take(lit.len() as int) == lit,
        (lit + x).skip(lit.len() as int) == x,
{
    assert((lit + x).take(lit.len() as int) =~= lit);
    assert((lit + x).skip(lit.len() as int) =~= x);
}

/// Consuming a known prefix of the remaining input leaves the known tail.
proof fn lemma_skip_advance(s: Seq<char>, pos: int, a: Seq<char>, tail: Seq<char>)
    requires
        0 <= pos <= s.len(),
        s.skip(pos) == a + tail,
    ensures
        pos + a.len() <= s.len(),
        s.skip(pos + a.len()) == tail,
{
    assert(s.skip(pos).len() == s.len() - pos);
    assert((a + tail).len() == a.len() + tail.len());
    assert forall|i: int| 0 <= i < tail.len() implies s.skip(pos + a.len())[i] == tail[i] by {
        assert(s.skip(pos)[a.len() + i] == s[pos + a.len() + i]);
        assert((a + tail)[a.len() + i] == tail[i]);
        assert(s.skip(pos + a.len())[i] == s[pos + a.len() + i]);
    }
    assert(s.skip(pos + a.len()) =~= tail);
}

/// Input that continues with one text cannot start with a literal whose
/// first character differs.
proof fn lemma_not_prefixed(remv: Seq<char>, a: Seq<char>, x: Seq<char>, lit: Seq<char>)
    requires
        remv == a + x,
        a.len() >= 1,
        lit.len() >= 1,
        a[0] != lit[0],
    ensures
        !(remv.len() >= lit.len() && remv.take(lit.len() as int) == lit),
{
    if remv.len() >= lit.len() {
        assert(remv.take(lit.len() as int)[0] == remv[0]);
        assert(remv[0] == a[0]);
    }
}

/// The decimal value of a rendered number is the number.
proof fn lemma_dec_val_of_digits(n: int)
    requires
        n >= 0,
    ensures
        crate::strutil::spec_dec_val(spec_u64_digits(n)) == n,
    decreases n,
{
    reveal_with_fuel(crate::strutil::spec_dec_val, 3);
    if n < 10 {
        assert(spec_u64_digits(n).drop_last() =~= Seq::<char>::empty());
        assert(crate::strutil::spec_digit_val(spec_digit_char(n)) == n);
    } else {
        lemma_dec_val_of_digits(n / 10);
        assert(spec_u64_digits(n).drop_last() =~= spec_u64_digits(n / 10));
        assert(spec_u64_digits(n).last() == spec_digit_char(n % 10));
        assert(crate::strutil::spec_digit_val(spec_digit_char(n % 10)) == n % 10);
    }
}

/// Parsing a rendered number recovers it.
proof fn lemma_parse_digits_roundtrip(v: u64)
    ensures
        crate::strutil::spec_parse_u64(spec_u64_digits(v as int)) == Some(v),
{
    lemma_digits_are_digits(v as int);
    lemma_dec_val_of_digits(v as int);
    let digits = spec_u64_digits(v as int);
    assert(crate::strutil::spec_is_digit(digits[0]));
    assert(digits[0] != '+');
}

/// Parsing the fractional digits of a serialized size recovers the
/// fraction at the digits' scale.
proof fn lemma_parse_frac(x: u64)
    ensures
        ({
            let fr = spec_k_number_frac(x);
            let f = (x % 1000) as int;
            &&& (fr.len() == 3 ==> crate::strutil::spec_parse_u64(fr) == Some(f as u64))
            &&& (fr.len() == 2 ==> crate::strutil::spec_parse_u64(fr) == Some((f / 10) as u64))
            &&& (fr.len() == 1 ==> crate::strutil::spec_parse_u64(fr) == Some((f / 100) as u64))
        }),
{
    reveal_with_fuel(crate::strutil::spec_dec_val, 5);
    lemma_frac_digits(x);
    let fr = spec_k_number_frac(x);
    let f = (x % 1000) as int;
    let a = f / 100;
    let b = (f / 10) % 10;
    let c = f % 10;
    assert(crate::strutil::spec_is_digit(fr[0]));
    assert(fr[0] != '+');
    if f % 10 != 0 {
        assert(fr =~= seq![spec_digit_char(a), spec_digit_char(b), spec_digit_char(c)]);
        assert(fr.drop_last() =~= seq![spec_digit_char(a), spec_digit_char(b)]);
        assert(fr.drop_last().drop_last() =~= seq![spec_digit_char(a)]);
        assert(fr.drop_last().drop_last().drop_last() =~= Seq::<char>::empty());
        assert(crate::strutil::spec_dec_val(fr) == (a * 10 + b) * 10 + c);
        assert(f == 100 * a + 10 * b + c);
    } else if b != 0 {
        assert(fr =~= seq![spec_digit_char(a), spec_digit_char(b)]);
        assert(fr.drop_last() =~= seq![spec_digit_char(a)]);
        assert(fr.drop_last().drop_last() =~= Seq::<char>::empty());
        assert(crate::strutil::spec_dec_val(fr) == a * 10 + b);
        assert(f == 100 * a + 10 * b);
        assert(f / 10 == a * 10 + b);
    } else {
        assert(fr =~= seq![spec_digit_char(a)]);
        assert(fr.drop_last() =~= Seq::<char>::empty());
        assert(crate::strutil::spec_dec_val(fr) == a);
        assert(f == 100 * a);
        assert(f / 100 == a);
    }
}

/// A cursor over the characters of the serialized text.
struct Cursor<'a> {
    s: &'a str,
    pos: usize,
    n: usize,
}

impl<'a> Cursor<'a> {
    spec fn wf(self) -> bool {
        &&& self.n == self.s@.len()
        &&& self.pos <= self.n
    }

    /// The input not yet consumed.
    spec fn rem(self) -> Seq<char> {
        self.s@.skip(self.pos as int)
    }

    /// Consumes the literal if and only if it comes next.
    #[verifier::loop_isolation(false)]
    fn eat(&mut self, lit: &str) -> (r: bool)
        requires
            old(self).wf(),
        ensures
            final(self).wf(),
            final(self).s == old(self).s,
            final(self).n == old(self).n,
            (r ==> old(self).rem().len() >= lit@.len() && old(self).rem().take(lit@.len() as int)
                == lit@ && final(self).rem() == old(self).rem().skip(lit@.len() as int)),
            (!r ==> *final(self) == *old(self) && !(old(self).rem().len() >= lit@.len() && old(
                self,
            ).rem().take(lit@.len() as int) == lit@)),
    {
        let m = lit.unicode_len();
        if m > self.n - self.pos {
            proof {
                assert(old(self).rem().len() == self.n - self.pos);
            }
            return false;
        }
        let mut i: usize = 0;
        while i < m
            invariant
                self == old(self),
                i <= m,
                m == lit@.len(),
                m <= self.n - self.pos,
                forall|j: int| 0 <= j < i ==> old(self).rem()[j] == lit@[j],
            decreases m - i,
        {
            let c = self.s.get_char(self.pos + i);
            proof {
                assert(old(self).rem()[i as int] == self.s@[self.pos + i]);
            }
            if c != lit.get_char(i) {
                proof {
                    assert(old(self).rem().len() >= lit@.len() ==> old(self).rem().take(
                        lit@.len() as int,
                    )[i as int] != lit@[i as int]);
                }
                return false;
            }
            i = i + 1;
        }
        self.pos = self.pos + m;
        proof {
            assert(old(self).rem().take(m as int) =~= lit@);
            assert(self.rem() =~= old(self).rem().skip(m as int));
        }
        true
    }

    /// Reads a quoted string value, undoing the escapes. When the input is
    /// known to carry a serialized string, that string is recovered
    /// exactly.
    #[verifier::loop_isolation(false)]
    #[verifier::rlimit(100)]
    fn read_string(&mut self, Ghost(gw): Ghost<Option<(Seq<char>, Seq<char>)>>) -> (r: Option<
        String,
    >)
        requires
            old(self).wf(),
            (gw matches Some((w, rest)) ==> old(self).rem() == spec_json_string(w) + rest),
        ensures
            final(self).wf(),
            final(self).s == old(self).s,
            final(self).n == old(self).n,
            (gw matches Some((w, rest)) ==> (r matches Some(out) && out@ == w
                && final(self).rem() == rest)),
    {
        let ghost gww: Seq<char> = match gw {
            Some((w, _)) => w,
            None => Seq::empty(),
        };
        let ghost grest: Seq<char> = match gw {
            Some((_, rest)) => rest,
            None => Seq::empty(),
        };
        proof {
            if gw is Some {
                reveal_strlit("\"");
                assert("\""@ =~= seq!['"']);
                assert(spec_json_string(gww) + grest =~= "\""@ + (spec_escape(gww) + (seq!['"']
                    + grest)));
                lemma_prefix_parts("\""@, spec_escape(gww) + (seq!['"'] + grest));
            }
        }
        if !self.eat("\"") {
            proof {
                if gw is Some {
                    assert(false);
                }
            }
            return None;
        }
        let mut out = String::new();
        let ghost mut k: int = 0;
        proof {
            if gw is Some {
                assert(gww.skip(0) =~= gww);
                assert(out@ =~= gww.take(0));
            }
        }
        loop
            invariant
                self.wf(),
                self.s == old(self).s,
                self.n == old(self).n,
                (gw is Some ==> 0 <= k <= gww.len() && out@ == gww.take(k) && self.rem()
                    == spec_escape(gww.skip(k)) + (seq!['"'] + grest)),
            decreases self.n - self.pos,
        {
            let ghost pos0 = self.pos as int;
            let ghost chunk: Seq<char> = if gw is Some && k < gww.len() {
                spec_escape_char(gww[k])
            } else {
                seq!['"']
            };
            let ghost tail: Seq<char> = if gw is Some && k < gww.len() {
                spec_escape(gww.skip(k + 1)) + (seq!['"'] + grest)
            } else {
                grest
            };
            proof {
                if gw is Some {
                    if k < gww.len() {
                        assert(gww.skip(k).first() == gww[k]);
                        assert(gww.skip(k).drop_first() =~= gww.skip(k + 1));
                        assert(spec_escape(gww.skip(k)) == spec_escape_char(gww[k]) + spec_escape(
                            gww.skip(k + 1),
                        ));
                        lemma_escape_char_first(gww[k]);
                        assert(self.rem() =~= chunk + tail);
                    } else {
                        assert(gww.skip(k) =~= Seq::<char>::empty());
                        assert(spec_escape(gww.skip(k)) == Seq::<char>::empty());
                        assert(self.rem() =~= chunk + tail);
                    }
                    assert(self.s@.skip(pos0) == chunk + tail);
                    assert(chunk.len() >= 1);
                    assert(self.rem().len() >= 1);
                }
            }
            if self.pos >= self.n {
                proof {
                    if gw is Some {
                        assert(false);
                    }
                }
                return None;
            }
            let c = self.s.get_char(self.pos);
            self.pos = self.pos + 1;
            proof {
                if gw is Some {
                    assert(self.s@.skip(pos0)[0] == self.s@[pos0]);
                    assert((chunk + tail)[0] == chunk[0]);
                    assert(c == chunk[0]);
                }
            }
            if c == '"' {
                proof {
                    if gw is Some {
                        if k < gww.len() {
                            assert(chunk[0] != '"');
                            assert(false);
                        }
                        assert(out@ =~= gww);
                        lemma_skip_advance(self.s@, pos0, chunk, tail);
                        assert(self.rem() == grest);
                    }
                }
                return Some(out);
            }
            if c != '\\' {
                proof {
                    if gw is Some {
                        if k == gww.len() {
                            assert(chunk[0] == '"');
                            assert(false);
                        }
                        if spec_is_escaped(gww[k]) {
                            assert(chunk[0] == '\\');
                            assert(false);
                        }
                        assert(chunk == seq![gww[k]]);
                        assert(c == gww[k]);
                    }
                }
                push_char(&mut out, c);
                proof {
                    if gw is Some {
                        assert(out@ =~= gww.take(k + 1));
                        lemma_skip_advance(self.s@, pos0, chunk, tail);
                        assert(self.rem() == tail);
                        k = k + 1;
                    }
                }
                continue ;
            }
            proof {
                if gw is Some {
                    if k == gww.len() {
                        assert(chunk[0] == '"');
                        assert(false);
                    }
                    if !spec_is_escaped(gww[k]) {
                        assert(chunk == seq![gww[k]]);
                        assert(c == gww[k] && c != '\\');
                        assert(false);
                    }
                    assert(chunk.len() >= 2);
                    assert(self.s@.skip(pos0).len() >= 2);
                }
            }
            if self.pos >= self.n {
                proof {
                    if gw is Some {
                        assert(false);
                    }
                }
                return None;
            }
            let e = self.s.get_char(self.pos);
            self.pos = self.pos + 1;
            proof {
                if gw is Some {
                    assert(self.s@.skip(pos0)[1] == self.s@[pos0 + 1]);
                    assert((chunk + tail)[1] == chunk[1]);
                    assert(e == chunk[1]);
                }
            }
            if e == '"' || e == '\\' {
                proof {
                    if gw is Some {
                        assert(gww[k] == e);
                        assert(chunk.len() == 2);
                    }
                }
                push_char(&mut out, e);
                proof {
                    if gw is Some {
                        assert(out@ =~= gww.take(k + 1));
                        lemma_skip_advance(self.s@, pos0, chunk, tail);
                        assert(self.rem() == tail);
                        k = k + 1;
                    }
                }
            } else if e == 'b' || e == 't' || e == 'n' || e == 'f' || e == 'r' {
                let decoded: char = if e == 'b' {
                    8u8 as char
                } else if e == 't' {
                    9u8 as char
                } else if e == 'n' {
                    10u8 as char
                } else if e == 'f' {
                    12u8 as char
                } else {
                    13u8 as char
                };
                proof {
                    if gw is Some {
                        assert(gww[k] == decoded);
                        assert(chunk.len() == 2);
                    }
                }
                push_char(&mut out, decoded);
                proof {
                    if gw is Some {
                        assert(out@ =~= gww.take(k + 1));
                        lemma_skip_advance(self.s@, pos0, chunk, tail);
                        assert(self.rem() == tail);
                        k = k + 1;
                    }
                }
            } else if e == 'u' {
                proof {
                    if gw is Some {
                        assert(chunk.len() == 6);
                        assert((gww[k] as int) < 32);
                        assert(self.s@.skip(pos0).len() == chunk.len() + tail.len());
                        assert(self.s@.skip(pos0)[4] == self.s@[pos0 + 4]);
                        assert(self.s@.skip(pos0)[5] == self.s@[pos0 + 5]);
                        assert((chunk + tail)[4] == chunk[4]);
                        assert((chunk + tail)[5] == chunk[5]);
                    }
                }
                if self.n - self.pos < 4 {
                    proof {
                        if gw is Some {
                            assert(false);
                        }
                    }
                    return None;
                }
                let h1 = hex_val(self.s.get_char(self.pos + 2));
                let h2 = hex_val(self.s.get_char(self.pos + 3));
                self.pos = self.pos + 4;
                proof {
                    if gw is Some {
                        let g = gww[k] as int;
                        assert(chunk[4] == spec_hex_char(g / 16));
                        assert(chunk[5] == spec_hex_char(g % 16));
                        lemma_char_int_nonneg(gww[k]);
                        assert(0 <= g < 32);
                        assert(0 <= g / 16 < 10);
                        assert(0 <= g % 16 < 16);
                        assert(spec_hex_char(g / 16) as int == 48 + g / 16);
                        if g % 16 < 10 {
                            assert(spec_hex_char(g % 16) as int == 48 + g % 16);
                        } else {
                            assert(spec_hex_char(g % 16) as int == 87 + g % 16);
                        }
                    }
                }
                match (h1, h2) {
                    (Some(a), Some(b)) => {
                        let code: u8 = a * 16 + b;
                        proof {
                            if gw is Some {
                                let g = gww[k] as int;
                                let va = a as int;
                                let vb = b as int;
                                assert(spec_hex_char(va) == spec_hex_char(g / 16));
                                assert(spec_hex_char(vb) == spec_hex_char(g % 16));
                                assert(va < 16 && vb < 16);
                                if va < 10 {
                                    assert(spec_hex_char(va) as int == 48 + va);
                                } else {
                                    assert(spec_hex_char(va) as int == 87 + va);
                                }
                                if vb < 10 {
                                    assert(spec_hex_char(vb) as int == 48 + vb);
                                } else {
                                    assert(spec_hex_char(vb) as int == 87 + vb);
                                }
                                assert(spec_hex_char(va) as int == spec_hex_char(g / 16) as int);
                                assert(spec_hex_char(vb) as int == spec_hex_char(g % 16) as int);
                                assert(va == g / 16 && vb == g % 16);
                                assert(code as int == g);
                                assert((code as char) as int == gww[k] as int);
                                assert(code as char == gww[k]);
                            }
                        }
                        if code >= 32 {
                            proof {
                                if gw is Some {
                                    assert(false);
                                }
                            }
                            return None;
                        }
                        push_char(&mut out, code as char);
                        proof {
                            if gw is Some {
                                assert(out@ =~= gww.take(k + 1));
                                lemma_skip_advance(self.s@, pos0, chunk, tail);
                                assert(self.rem() == tail);
                                k = k + 1;
                            }
                        }
                    },
                    _ => {
                        proof {
                            if gw is Some {
                                assert(false);
                            }
                        }
                        return None;
                    },
                }
            } else {
                proof {
                    if gw is Some {
                        assert(chunk[1] == e);
                        assert(false);
                    }
                }
                return None;
            }
        }
    }

    /// Reads a serialized size in thousands back into bytes. When the
    /// input is known to carry a serialized size followed by a non-digit,
    /// that size is recovered exactly.
    #[verifier::loop_isolation(false)]
    #[verifier::rlimit(100)]
    fn read_k_number(&mut self, Ghost(gw): Ghost<Option<(u64, Seq<char>)>>) -> (r: Option<u64>)
        requires
            old(self).wf(),
            (gw matches Some((x, rest)) ==> old(self).rem() == spec_k_number(x) + rest
                && rest.len() >= 1 && !crate::strutil::spec_is_digit(rest[0])),
        ensures
            final(self).wf(),
            final(self).s == old(self).s,
            final(self).n == old(self).n,
            (gw matches Some((x, rest)) ==> r == Some(x) && final(self).rem() == rest),
    {
        let ghost gx: u64 = match gw {
            Some((x, _)) => x,
            None => 0,
        };
        let ghost grest: Seq<char> = match gw {
            Some((_, rest)) => rest,
            None => Seq::empty(),
        };
        let ghost dig = spec_u64_digits(gx as int / 1000);
        let ghost fr = spec_k_number_frac(gx);
        let ghost mid = "."@ + fr + grest;
        proof {
            if gw is Some {
                reveal_strlit(".");
                lemma_frac_digits(gx);
                lemma_digits_are_digits(gx as int / 1000);
                assert(spec_k_number(gx) + grest =~= dig + mid);
                assert(mid =~= "."@ + (fr + grest));
            }
        }
        let start = self.pos;
        let mut end = self.pos;
        while end < self.n && is_digit_char(self.s.get_char(end))
            invariant
                self.wf(),
                self.s == old(self).s,
                self.n == old(self).n,
                self.pos == start,
                start <= end <= self.n,
                (gw is Some ==> end <= start + dig.len()),
            decreases self.n - end,
        {
            proof {
                if gw is Some && end == start + dig.len() {
                    assert(self.rem()[end - start] == mid[0]);
                    assert(mid[0] == '.');
                    assert(!crate::strutil::spec_is_digit('.'));
                    assert(false);
                }
            }
            end = end + 1;
        }
        proof {
            if gw is Some {
                if end < start + dig.len() {
                    assert(self.rem()[end - start] == dig[end - start]);
                    assert(crate::strutil::spec_is_digit(dig[end - start]));
                    assert(end < self.n);
                    assert(false);
                }
                assert(end == start + dig.len());
            }
        }
        if end == start {
            proof {
                if gw is Some {
                    assert(dig.len() >= 1);
                    assert(false);
                }
            }
            return None;
        }
        let digits_text = self.s.substring_char(start, end);
        proof {
            if gw is Some {
                assert(digits_text@ =~= dig);
                lemma_parse_digits_roundtrip((gx / 1000) as u64);
                assert(spec_u64_digits((gx / 1000) as int) == dig);
            }
        }
        let whole = match crate::strutil::parse_u64(digits_text) {
            Some(w) => w,
            None => {
                proof {
                    if gw is Some {
                        assert(false);
                    }
                }
                return None;
            },
        };
        self.pos = end;
        proof {
            if gw is Some {
                assert(old(self).rem().len() == dig.len() + mid.len());
                assert forall|i: int| 0 <= i < mid.len() implies self.rem()[i] == mid[i] by {
                    assert(self.rem()[i] == self.s@[end + i]);
                    assert(old(self).rem()[dig.len() + i] == self.s@[start + dig.len() + i]);
                    assert((dig + mid)[dig.len() + i] == mid[i]);
                }
                assert(self.rem() =~= mid);
            }
        }
        if !self.eat(".") {
            proof {
                if gw is Some {
                    reveal_strlit(".");
                    lemma_prefix_parts("."@, fr + grest);
                    assert(false);
                }
            }
            return None;
        }
        proof {
            if gw is Some {
                reveal_strlit(".");
                lemma_prefix_parts("."@, fr + grest);
                assert(self.rem() =~= fr + grest);
            }
        }
        let fstart = self.pos;
        let mut fend = self.pos;
        while fend < self.n && is_digit_char(self.s.get_char(fend))
            invariant
                self.wf(),
                self.s == old(self).s,
                self.n == old(self).n,
                self.pos == fstart,
                fstart <= fend <= self.n,
                (gw is Some ==> fend <= fstart + fr.len() && self.rem() == fr + grest),
            decreases self.n - fend,
        {
            proof {
                if gw is Some && fend == fstart + fr.len() {
                    assert(self.rem()[fend - fstart] == grest[0]);
                    assert(false);
                }
            }
            fend = fend + 1;
        }
        proof {
            if gw is Some {
                if fend < fstart + fr.len() {
                    assert(self.rem()[fend - fstart] == fr[fend - fstart]);
                    assert(crate::strutil::spec_is_digit(fr[fend - fstart]));
                    assert(fend < self.n);
                    assert(false);
                }
                assert(fend == fstart + fr.len());
            }
        }
        let flen = fend - fstart;
        if flen == 0 || flen > 3 {
            proof {
                if gw is Some {
                    assert(false);
                }
            }
            return None;
        }
        let frac_text = self.s.substring_char(fstart, fend);
        proof {
            if gw is Some {
                assert(frac_text@ =~= fr);
                lemma_parse_frac(gx);
            }
        }
        let frac = match crate::strutil::parse_u64(frac_text) {
            Some(f) => f,
            None => {
                proof {
                    if gw is Some {
                        assert(false);
                    }
                }
                return None;
            },
        };
        self.pos = fend;
        proof {
            if gw is Some {
                let ghost before = self.s@.skip(fstart as int);
                assert(before == fr + grest);
                assert(before.len() == fr.len() + grest.len());
                assert forall|i: int| 0 <= i < grest.len() implies self.rem()[i] == grest[i] by {
                    assert(self.rem()[i] == self.s@[fend + i]);
                    assert(before[fr.len() + i] == self.s@[fstart + fr.len() + i]);
                    assert((fr + grest)[fr.len() + i] == grest[i]);
                }
                assert(self.rem() =~= grest);
            }
        }
        let scale: u64 = if flen == 1 {
            100
        } else if flen == 2 {
            10
        } else {
            1
        };
        if whole > u64::MAX / 1000 {
            proof {
                if gw is Some {
                    assert(whole == gx / 1000);
                    assert(gx / 1000 <= u64::MAX / 1000);
                    assert(false);
                }
            }
            return None;
        }
        let base = whole * 1000;
        if frac > 999 || base > u64::MAX - frac * scale {
            proof {
                if gw is Some {
                    lemma_k_reconstruct(gx, flen as int);
                    assert(false);
                }
            }
            return None;
        }
        let result = base + frac * scale;
        proof {
            if gw is Some {
                lemma_k_reconstruct(gx, flen as int);
                assert(result == gx);
            }
        }
        Some(result)
    }
}

/// A serialized size rebuilt from its whole part and its fraction at the
/// digits' scale is the size itself, and it fits.
proof fn lemma_k_reconstruct(x: u64, flen: int)
    requires
        flen == spec_k_number_frac(x).len(),
    ensures
        ({
            let f = (x % 1000) as int;
            let parsed = if flen == 3 {
                f
            } else if flen == 2 {
                f / 10
            } else {
                f / 100
            };
            let scale = if flen == 1 {
                100int
            } else if flen == 2 {
                10int
            } else {
                1int
            };
            &&& 1 <= flen <= 3
            &&& parsed <= 999
            &&& (x as int / 1000) * 1000 + parsed * scale == x
        }),
{
    let f = (x % 1000) as int;
    assert(x == 1000 * (x as int / 1000) + f);
    if f % 10 != 0 {
        assert(spec_k_number_frac(x).len() == 3);
    } else if (f / 10) % 10 != 0 {
        assert(spec_k_number_frac(x).len() == 2);
        assert(f == 10 * (f / 10));
    } else {
        assert(spec_k_number_frac(x).len() == 1);
        assert(f % 10 == 0 && (f / 10) % 10 == 0);
        assert(f == 100 * (f / 100));
    }
}

/// The value of one hexadecimal digit character, lower case./// The value of one hexadecimal digit character, lower case.
fn hex_val(c: char) -> (r: Option<u8>)
    ensures
        (r matches Some(v) ==> v < 16 && c == spec_hex_char(v as int)),
        ((48 <= c as int <= 57 || 97 <= c as int <= 102) ==> r is Some),
{
    let v = c as u32;
    if 48 <= v && v <= 57 {
        Some((v - 48) as u8)
    } else if 97 <= v && v <= 102 {
        Some((v - 87) as u8)
    } else {
        None
    }
}

/// Whether the character is a decimal digit.
fn is_digit_char(c: char) -> (r: bool)
    ensures
        r == crate::strutil::spec_is_digit(c),
{
    let v = c as u32;
    48 <= v && v <= 57
}

/// The view of an optional string value.
spec fn spec_opt_str_view(o: Option<String>) -> Option<Seq<char>> {
    match o {
        Some(x) => Some(x@),
        None => None,
    }
}

/// Reads a serialized optional string: the null keyword or a string.
fn read_opt_string<'a>(
    cur: &mut Cursor<'a>,
    Ghost(gw): Ghost<Option<(Option<Seq<char>>, Seq<char>)>>,
) -> (r: Option<Option<String>>)
    requires
        old(cur).wf(),
        (gw matches Some((v, rest)) ==> old(cur).rem() == spec_json_opt_string(v) + rest),
    ensures
        final(cur).wf(),
        final(cur).s == old(cur).s,
        final(cur).n == old(cur).n,
        (gw matches Some((v, rest)) ==> (r matches Some(o) && spec_opt_str_view(o) == v
            && final(cur).rem() == rest)),
{
    let ghost gv: Option<Seq<char>> = match gw {
        Some((v, _)) => v,
        None => None,
    };
    let ghost grest: Seq<char> = match gw {
        Some((_, rest)) => rest,
        None => Seq::empty(),
    };
    proof {
        if gw is Some {
            reveal_strlit("null");
            if gv is Some {
                assert(spec_json_opt_string(gv) + grest =~= seq!['"'] + (spec_escape(gv->0)
                    + (seq!['"'] + grest)));
                lemma_not_prefixed(
                    old(cur).rem(),
                    seq!['"'],
                    spec_escape(gv->0) + (seq!['"'] + grest),
                    "null"@,
                );
            } else {
                lemma_prefix_parts("null"@, grest);
            }
        }
    }
    if cur.eat("null") {
        proof {
            if gw is Some {
                assert(gv is None);
            }
        }
        return Some(None);
    }
    match cur.read_string(Ghost(
        if gw is Some {
            Some((gv->0, grest))
        } else {
            None
        },
    )) {
        Some(w) => Some(Some(w)),
        None => {
            proof {
                if gw is Some {
                    assert(false);
                }
            }
            None
        },
    }
}

/// Reads the body of the serialized metadata-artifacts field: the null
/// keyword or the object with both paths.
fn read_meta_body<'a>(
    cur: &mut Cursor<'a>,
    Ghost(gw): Ghost<Option<(Option<(Seq<char>, Seq<char>)>, Seq<char>)>>,
) -> (r: Option<Option<MetadataArtifacts>>)
    requires
        old(cur).wf(),
        (gw matches Some((m, rest)) ==> old(cur).rem() == spec_meta_body(m) + rest),
    ensures
        final(cur).wf(),
        final(cur).s == old(cur).s,
        final(cur).n == old(cur).n,
        (gw matches Some((m, rest)) ==> (r matches Some(o) && (match o {
            Some(a) => m == Some((a.dest_metadata@, a.dest_bundle@)),
            None => m is None,
        }) && final(cur).rem() == rest)),
{
    let ghost gm: Option<(Seq<char>, Seq<char>)> = match gw {
        Some((m, _)) => m,
        None => None,
    };
    let ghost grest: Seq<char> = match gw {
        Some((_, rest)) => rest,
        None => Seq::empty(),
    };
    let ghost gpair: (Seq<char>, Seq<char>) = match gm {
        Some(p) => p,
        None => (Seq::empty(), Seq::empty()),
    };
    let ghost meta_rest1 = ",\n    \"dest_bundle\": "@ + (spec_json_string(gpair.1) + ("\n  }"@
        + grest));
    proof {
        if gw is Some {
            reveal_strlit("null");
            reveal_strlit("{\n    \"dest_metadata\": ");
            if gm is Some {
                assert(spec_meta_body(gm) + grest =~= "{\n    \"dest_metadata\": "@
                    + (spec_json_string(gpair.0) + meta_rest1));
                lemma_not_prefixed(
                    old(cur).rem(),
                    "{\n    \"dest_metadata\": "@,
                    spec_json_string(gpair.0) + meta_rest1,
                    "null"@,
                );
                lemma_prefix_parts(
                    "{\n    \"dest_metadata\": "@,
                    spec_json_string(gpair.0) + meta_rest1,
                );
            } else {
                lemma_prefix_parts("null"@, grest);
            }
        }
    }
    if cur.eat("null") {
        proof {
            if gw is Some {
                assert(gm is None);
            }
        }
        return Some(None);
    }
    if !cur.eat("{\n    \"dest_metadata\": ") {
        proof {
            if gw is Some {
                assert(false);
            }
        }
        return None;
    }
    let dest_metadata = match cur.read_string(Ghost(
        if gw is Some {
            Some((gpair.0, meta_rest1))
        } else {
            None
        },
    )) {
        Some(m) => m,
        None => {
            proof {
                if gw is Some {
                    assert(false);
                }
            }
            return None;
        },
    };
    proof {
        if gw is Some {
            lemma_prefix_parts(
                ",\n    \"dest_bundle\": "@,
                spec_json_string(gpair.1) + ("\n  }"@ + grest),
            );
        }
    }
    if !cur.eat(",\n    \"dest_bundle\": ") {
        proof {
            if gw is Some {
                assert(false);
            }
        }
        return None;
    }
    let dest_bundle = match cur.read_string(Ghost(
        if gw is Some {
            Some((gpair.1, "\n  }"@ + grest))
        } else {
            None
        },
    )) {
        Some(b) => b,
        None => {
            proof {
                if gw is Some {
                    assert(false);
                }
            }
            return None;
        },
    };
    proof {
        if gw is Some {
            lemma_prefix_parts("\n  }"@, grest);
        }
    }
    if !cur.eat("\n  }") {
        proof {
            if gw is Some {
                assert(false);
            }
        }
        return None;
    }
    Some(Some(MetadataArtifacts { dest_metadata, dest_bundle }))
}

/// Reads the body of the serialized optimization-sizes field: the null
/// keyword or the object with both sizes.
fn read_opt_body<'a>(
    cur: &mut Cursor<'a>,
    Ghost(gw): Ghost<Option<(Option<OptimizationResult>, Seq<char>)>>,
) -> (r: Option<Option<OptimizationResult>>)
    requires
        old(cur).wf(),
        (gw matches Some((o, rest)) ==> old(cur).rem() == spec_opt_body(o) + rest),
    ensures
        final(cur).wf(),
        final(cur).s == old(cur).s,
        final(cur).n == old(cur).n,
        (gw matches Some((o, rest)) ==> (r == Some(o) && final(cur).rem() == rest)),
{
    let ghost go: Option<OptimizationResult> = match gw {
        Some((o, _)) => o,
        None => None,
    };
    let ghost grest: Seq<char> = match gw {
        Some((_, rest)) => rest,
        None => Seq::empty(),
    };
    let ghost opt_rest1 = ",\n    \"optimized_size\": "@ + (spec_k_number(go->0.optimized_size)
        + ("\n  }"@ + grest));
    proof {
        if gw is Some {
            reveal_strlit("null");
            reveal_strlit("{\n    \"original_size\": ");
            reveal_strlit(",\n    \"optimized_size\": ");
            reveal_strlit("\n  }");
            if go is Some {
                assert(spec_opt_body(go) + grest =~= "{\n    \"original_size\": "@
                    + (spec_k_number(go->0.original_size) + opt_rest1));
                lemma_not_prefixed(
                    old(cur).rem(),
                    "{\n    \"original_size\": "@,
                    spec_k_number(go->0.original_size) + opt_rest1,
                    "null"@,
                );
                lemma_prefix_parts(
                    "{\n    \"original_size\": "@,
                    spec_k_number(go->0.original_size) + opt_rest1,
                );
                assert(opt_rest1[0] == ',');
                assert(!crate::strutil::spec_is_digit(','));
            } else {
                lemma_prefix_parts("null"@, grest);
            }
        }
    }
    if cur.eat("null") {
        proof {
            if gw is Some {
                assert(go is None);
            }
        }
        return Some(None);
    }
    if !cur.eat("{\n    \"original_size\": ") {
        proof {
            if gw is Some {
                assert(false);
            }
        }
        return None;
    }
    let original_size = match cur.read_k_number(Ghost(
        if gw is Some {
            Some((go->0.original_size, opt_rest1))
        } else {
            None
        },
    )) {
        Some(v) => v,
        None => {
            proof {
                if gw is Some {
                    assert(false);
                }
            }
            return None;
        },
    };
    proof {
        if gw is Some {
            reveal_strlit("\n  }");
            lemma_prefix_parts(
                ",\n    \"optimized_size\": "@,
                spec_k_number(go->0.optimized_size) + ("\n  }"@ + grest),
            );
            assert(("\n  }"@ + grest)[0] == '\u{0a}');
            assert(!crate::strutil::spec_is_digit('\u{0a}'));
        }
    }
    if !cur.eat(",\n    \"optimized_size\": ") {
        proof {
            if gw is Some {
                assert(false);
            }
        }
        return None;
    }
    let optimized_size = match cur.read_k_number(Ghost(
        if gw is Some {
            Some((go->0.optimized_size, "\n  }"@ + grest))
        } else {
            None
        },
    )) {
        Some(v) => v,
        None => {
            proof {
                if gw is Some {
                    assert(false);
                }
            }
            return None;
        },
    };
    proof {
        if gw is Some {
            lemma_prefix_parts("\n  }"@, grest);
        }
    }
    if !cur.eat("\n  }") {
        proof {
            if gw is Some {
                assert(false);
            }
        }
        return None;
    }
    Some(Some(OptimizationResult { original_size, optimized_size }))
}

/// Reads the serialized build-mode name.
fn read_mode<'a>(cur: &mut Cursor<'a>, Ghost(gw): Ghost<Option<(BuildMode, Seq<char>)>>) -> (r:
    Option<BuildMode>)
    requires
        old(cur).wf(),
        (gw matches Some((m, rest)) ==> old(cur).rem() == spec_mode_name(m) + rest),
    ensures
        final(cur).wf(),
        final(cur).s == old(cur).s,
        final(cur).n == old(cur).n,
        (gw matches Some((m, rest)) ==> (r == Some(m) && final(cur).rem() == rest)),
{
    let ghost m: BuildMode = match gw {
        Some((m, _)) => m,
        None => BuildMode::Debug,
    };
    let ghost rest: Seq<char> = match gw {
        Some((_, rest)) => rest,
        None => Seq::empty(),
    };
    proof {
        if gw is Some {
            reveal_strlit("Debug");
            reveal_strlit("Release");
            reveal_strlit("Verifiable");
            if m != BuildMode::Debug {
                lemma_not_prefixed(old(cur).rem(), spec_mode_name(m), rest, "Debug"@);
            }
            if m != BuildMode::Release {
                lemma_not_prefixed(old(cur).rem(), spec_mode_name(m), rest, "Release"@);
            }
            if m != BuildMode::Verifiable {
                lemma_not_prefixed(old(cur).rem(), spec_mode_name(m), rest, "Verifiable"@);
            }
            lemma_prefix_parts(spec_mode_name(m), rest);
        }
    }
    if cur.eat("Debug") {
        Some(BuildMode::Debug)
    } else if cur.eat("Release") {
        Some(BuildMode::Release)
    } else if cur.eat("Verifiable") {
        Some(BuildMode::Verifiable)
    } else {
        proof {
            if gw is Some {
                assert(false);
            }
        }
        None
    }
}

/// Reads the serialized artifact-selection name. The first two names
/// share a first character; their second characters tell them apart.
fn read_artifact<'a>(
    cur: &mut Cursor<'a>,
    Ghost(gw): Ghost<Option<(BuildArtifacts, Seq<char>)>>,
) -> (r: Option<BuildArtifacts>)
    requires
        old(cur).wf(),
        (gw matches Some((a, rest)) ==> old(cur).rem() == spec_artifact_name(a) + rest),
    ensures
        final(cur).wf(),
        final(cur).s == old(cur).s,
        final(cur).n == old(cur).n,
        (gw matches Some((a, rest)) ==> (r == Some(a) && final(cur).rem() == rest)),
{
    let ghost a: BuildArtifacts = match gw {
        Some((a, _)) => a,
        None => BuildArtifacts::All,
    };
    let ghost rest: Seq<char> = match gw {
        Some((_, rest)) => rest,
        None => Seq::empty(),
    };
    proof {
        if gw is Some {
            reveal_strlit("CheckOnly");
            reveal_strlit("CodeOnly");
            reveal_strlit("All");
            lemma_prefix_parts(spec_artifact_name(a), rest);
        }
    }
    if cur.eat("CheckOnly") {
        proof {
            if gw is Some {
                if a != BuildArtifacts::CheckOnly {
                    let name = spec_artifact_name(a);
                    assert((name + rest).take(9)[0] == (name + rest)[0]);
                    assert((name + rest).take(9)[1] == (name + rest)[1]);
                    assert(false);
                }
            }
        }
        Some(BuildArtifacts::CheckOnly)
    } else if cur.eat("CodeOnly") {
        proof {
            if gw is Some {
                if a != BuildArtifacts::CodeOnly {
                    let name = spec_artifact_name(a);
                    assert((name + rest).take(8)[0] == (name + rest)[0]);
                    assert((name + rest).take(8)[1] == (name + rest)[1]);
                    assert(false);
                }
            }
        }
        Some(BuildArtifacts::CodeOnly)
    } else if cur.eat("All") {
        proof {
            if gw is Some {
                if a != BuildArtifacts::All {
                    let name = spec_artifact_name(a);
                    assert((name + rest).take(3)[0] == (name + rest)[0]);
                    assert(false);
                }
            }
        }
        Some(BuildArtifacts::All)
    } else {
        proof {
            if gw is Some {
                assert(false);
            }
        }
        None
    }
}

/// Reads the serialized verbosity name.
fn read_verbosity<'a>(cur: &mut Cursor<'a>, Ghost(gw): Ghost<Option<(Verbosity, Seq<char>)>>) -> (r:
    Option<Verbosity>)
    requires
        old(cur).wf(),
        (gw matches Some((v, rest)) ==> old(cur).rem() == spec_verbosity_name(v) + rest),
    ensures
        final(cur).wf(),
        final(cur).s == old(cur).s,
        final(cur).n == old(cur).n,
        (gw matches Some((v, rest)) ==> (r == Some(v) && final(cur).rem() == rest)),
{
    let ghost v: Verbosity = match gw {
        Some((v, _)) => v,
        None => Verbosity::Quiet,
    };
    let ghost rest: Seq<char> = match gw {
        Some((_, rest)) => rest,
        None => Seq::empty(),
    };
    proof {
        if gw is Some {
            reveal_strlit("Quiet");
            reveal_strlit("Default");
            reveal_strlit("Verbose");
            if v != Verbosity::Quiet {
                lemma_not_prefixed(old(cur).rem(), spec_verbosity_name(v), rest, "Quiet"@);
            }
            if v != Verbosity::Default {
                lemma_not_prefixed(old(cur).rem(), spec_verbosity_name(v), rest, "Default"@);
            }
            if v != Verbosity::Verbose {
                lemma_not_prefixed(old(cur).rem(), spec_verbosity_name(v), rest, "Verbose"@);
            }
            lemma_prefix_parts(spec_verbosity_name(v), rest);
        }
    }
    if cur.eat("Quiet") {
        Some(Verbosity::Quiet)
    } else if cur.eat("Default") {
        Some(Verbosity::Default)
    } else if cur.eat("Verbose") {
        Some(Verbosity::Verbose)
    } else {
        proof {
            if gw is Some {
                assert(false);
            }
        }
        None
    }
}

/// Reads the fields of a serialized build result, in order. On input that
/// is the serialized form of some record, every field of that record is
/// recovered. The caller additionally re-serializes the outcome and holds
/// it against the input.
#[verifier::rlimit(100)]
fn parse_build_result(s: &str, Ghost(gw): Ghost<Option<SpecBuildResult>>) -> (r: Option<
    BuildResult,
>)
    requires
        (gw matches Some(b0) ==> spec_serialize(b0) == s@),
    ensures
        (gw matches Some(b0) ==> (r matches Some(c) && c@ == b0)),
{
    let ghost b0: SpecBuildResult = match gw {
        Some(b) => b,
        None => SpecBuildResult {
            dest_wasm: None,
            metadata_result: None,
            target_directory: Seq::empty(),
            optimization_result: None,
            build_mode: BuildMode::Debug,
            build_artifact: BuildArtifacts::All,
            verbosity: Verbosity::Quiet,
            image: None,
        },
    };
    let n = s.unicode_len();
    let mut cur = Cursor { s, pos: 0, n };
    let ghost x1 = spec_meta_part(b0) + (spec_dir_part(b0) + (spec_opt_part(b0) + spec_tail_part(
        b0,
    )));
    proof {
        if gw is Some {
            lemma_chain5(
                spec_dest_part(b0),
                spec_meta_part(b0),
                spec_dir_part(b0),
                spec_opt_part(b0),
                spec_tail_part(b0),
            );
            lemma_assoc3("{\n  \"dest_wasm\": "@, spec_json_opt_string(b0.dest_wasm), x1);
            assert(cur.rem() =~= s@);
            assert(cur.rem() == "{\n  \"dest_wasm\": "@ + (spec_json_opt_string(b0.dest_wasm)
                + x1));
            lemma_prefix_parts("{\n  \"dest_wasm\": "@, spec_json_opt_string(b0.dest_wasm) + x1);
        }
    }
    if !cur.eat("{\n  \"dest_wasm\": ") {
        proof {
            if gw is Some {
                assert(false);
            }
        }
        return None;
    }
    let dest_wasm: Option<String> = match read_opt_string(
        &mut cur,
        Ghost(
            if gw is Some {
                Some((b0.dest_wasm, x1))
            } else {
                None
            },
        ),
    ) {
        Some(o) => o,
        None => {
            proof {
                if gw is Some {
                    assert(false);
                }
            }
            return None;
        },
    };
    let ghost x2 = spec_dir_part(b0) + (spec_opt_part(b0) + spec_tail_part(b0));
    proof {
        if gw is Some {
            assert(cur.rem() == x1);
            lemma_assoc3(",\n  \"metadata_result\": "@, spec_meta_body(b0.metadata_result), x2);
            assert(spec_meta_part(b0) =~= ",\n  \"metadata_result\": "@ + spec_meta_body(
                b0.metadata_result,
            ));
            assert(x1 =~= ",\n  \"metadata_result\": "@ + (spec_meta_body(b0.metadata_result)
                + x2));
            lemma_prefix_parts(
                ",\n  \"metadata_result\": "@,
                spec_meta_body(b0.metadata_result) + x2,
            );
        }
    }
    if !cur.eat(",\n  \"metadata_result\": ") {
        proof {
            if gw is Some {
                assert(false);
            }
        }
        return None;
    }
    let metadata_result: Option<MetadataArtifacts> = match read_meta_body(
        &mut cur,
        Ghost(
            if gw is Some {
                Some((b0.metadata_result, x2))
            } else {
                None
            },
        ),
    ) {
        Some(o) => o,
        None => {
            proof {
                if gw is Some {
                    assert(false);
                }
            }
            return None;
        },
    };
    let ghost x3 = spec_opt_part(b0) + spec_tail_part(b0);
    proof {
        if gw is Some {
            assert(cur.rem() == x2);
            assert(spec_dir_part(b0) =~= (",\n  \"target_directory\": "@ + seq!['"'])
                + (spec_escape(b0.target_directory) + seq!['"']));
            assert(x2 =~= ",\n  \"target_directory\": "@ + (spec_json_string(b0.target_directory)
                + x3));
            lemma_prefix_parts(
                ",\n  \"target_directory\": "@,
                spec_json_string(b0.target_directory) + x3,
            );
        }
    }
    if !cur.eat(",\n  \"target_directory\": ") {
        proof {
            if gw is Some {
                assert(false);
            }
        }
        return None;
    }
    let target_directory = match cur.read_string(Ghost(
        if gw is Some {
            Some((b0.target_directory, x3))
        } else {
            None
        },
    )) {
        Some(d) => d,
        None => {
            proof {
                if gw is Some {
                    assert(false);
                }
            }
            return None;
        },
    };
    let ghost x4 = spec_tail_part(b0);
    proof {
        if gw is Some {
            assert(cur.rem() == x3);
            lemma_assoc3(
                ",\n  \"optimization_result\": "@,
                spec_opt_body(b0.optimization_result),
                x4,
            );
            assert(spec_opt_part(b0) =~= ",\n  \"optimization_result\": "@ + spec_opt_body(
                b0.optimization_result,
            ));
            assert(x3 =~= ",\n  \"optimization_result\": "@ + (spec_opt_body(
                b0.optimization_result,
            ) + x4));
            lemma_prefix_parts(
                ",\n  \"optimization_result\": "@,
                spec_opt_body(b0.optimization_result) + x4,
            );
        }
    }
    if !cur.eat(",\n  \"optimization_result\": ") {
        proof {
            if gw is Some {
                assert(false);
            }
        }
        return None;
    }
    let optimization_result: Option<OptimizationResult> = match read_opt_body(
        &mut cur,
        Ghost(
            if gw is Some {
                Some((b0.optimization_result, x4))
            } else {
                None
            },
        ),
    ) {
        Some(o) => o,
        None => {
            proof {
                if gw is Some {
                    assert(false);
                }
            }
            return None;
        },
    };
    let ghost t4 = "\",\n  \"build_artifact\": \""@ + (spec_artifact_name(b0.build_artifact)
        + ("\",\n  \"verbosity\": \""@ + (spec_verbosity_name(b0.verbosity) + ("\",\n  \"image\": "@
        + (spec_json_opt_string(b0.image) + "\n}"@)))));
    proof {
        if gw is Some {
            assert(cur.rem() == x4);
            lemma_chain9(
                ",\n  \"build_mode\": \""@,
                spec_mode_name(b0.build_mode),
                "\",\n  \"build_artifact\": \""@,
                spec_artifact_name(b0.build_artifact),
                "\",\n  \"verbosity\": \""@,
                spec_verbosity_name(b0.verbosity),
                "\",\n  \"image\": "@,
                spec_json_opt_string(b0.image),
                "\n}"@,
            );
            assert(x4 == ",\n  \"build_mode\": \""@ + (spec_mode_name(b0.build_mode) + t4));
            lemma_prefix_parts(",\n  \"build_mode\": \""@, spec_mode_name(b0.build_mode) + t4);
        }
    }
    if !cur.eat(",\n  \"build_mode\": \"") {
        proof {
            if gw is Some {
                assert(false);
            }
        }
        return None;
    }
    let build_mode = match read_mode(
        &mut cur,
        Ghost(
            if gw is Some {
                Some((b0.build_mode, t4))
            } else {
                None
            },
        ),
    ) {
        Some(m) => m,
        None => {
            proof {
                if gw is Some {
                    assert(false);
                }
            }
            return None;
        },
    };
    let ghost t5 = "\",\n  \"verbosity\": \""@ + (spec_verbosity_name(b0.verbosity)
        + ("\",\n  \"image\": "@ + (spec_json_opt_string(b0.image) + "\n}"@)));
    proof {
        if gw is Some {
            lemma_prefix_parts(
                "\",\n  \"build_artifact\": \""@,
                spec_artifact_name(b0.build_artifact) + t5,
            );
        }
    }
    if !cur.eat("\",\n  \"build_artifact\": \"") {
        proof {
            if gw is Some {
                assert(false);
            }
        }
        return None;
    }
    let build_artifact = match read_artifact(
        &mut cur,
        Ghost(
            if gw is Some {
                Some((b0.build_artifact, t5))
            } else {
                None
            },
        ),
    ) {
        Some(a) => a,
        None => {
            proof {
                if gw is Some {
                    assert(false);
                }
            }
            return None;
        },
    };
    let ghost t6 = "\",\n  \"image\": "@ + (spec_json_opt_string(b0.image) + "\n}"@);
    proof {
        if gw is Some {
            lemma_prefix_parts("\",\n  \"verbosity\": \""@, spec_verbosity_name(b0.verbosity) + t6);
        }
    }
    if !cur.eat("\",\n  \"verbosity\": \"") {
        proof {
            if gw is Some {
                assert(false);
            }
        }
        return None;
    }
    let verbosity = match read_verbosity(
        &mut cur,
        Ghost(
            if gw is Some {
                Some((b0.verbosity, t6))
            } else {
                None
            },
        ),
    ) {
        Some(v) => v,
        None => {
            proof {
                if gw is Some {
                    assert(false);
                }
            }
            return None;
        },
    };
    proof {
        if gw is Some {
            lemma_prefix_parts("\",\n  \"image\": "@, spec_json_opt_string(b0.image) + "\n}"@);
        }
    }
    if !cur.eat("\",\n  \"image\": ") {
        proof {
            if gw is Some {
                assert(false);
            }
        }
        return None;
    }
    let image: Option<String> = match read_opt_string(
        &mut cur,
        Ghost(
            if gw is Some {
                Some((b0.image, "\n}"@))
            } else {
                None
            },
        ),
    ) {
        Some(o) => o,
        None => {
            proof {
                if gw is Some {
                    assert(false);
                }
            }
            return None;
        },
    };
    let result = BuildResult {
        dest_wasm,
        metadata_result,
        target_directory,
        optimization_result,
        build_mode,
        build_artifact,
        verbosity,
        image,
        output_type: OutputType::HumanReadable,
    };
    proof {
        if gw is Some {
            assert(result@ =~= b0);
        }
    }
    Some(result)
}

// ---------------------------------------------------------------------------
// The serialized form determines the record
// ---------------------------------------------------------------------------

/// Equal sequences with an equal prefix have equal remainders.
proof fn lemma_cancel_left(x: Seq<char>, r1: Seq<char>, r2: Seq<char>)
    requires
        x + r1 == x + r2,
    ensures
        r1 == r2,
{
    assert((x + r1).len() == x.len() + r1.len());
    assert((x + r2).len() == x.len() + r2.len());
    assert(r1.len() == r2.len());
    assert forall|i: int| 0 <= i < r1.len() implies r1[i] == r2[i] by {
        assert((x + r1)[x.len() + i] == r1[i]);
        assert((x + r2)[x.len() + i] == r2[i]);
    }
    assert(r1 =~= r2);
}

/// Whether a character is written escaped inside a serialized string.
spec fn spec_is_escaped(c: char) -> bool {
    c == '"' || c == '\\' || c == '\u{08}' || c == '\u{09}' || c == '\u{0a}' || c == '\u{0c}'
        || c == '\u{0d}' || (c as int) < 32
}

/// The first character of an escaped-character chunk: a backslash for an
/// escaped character, the character itself — never a quote or backslash —
/// otherwise.
proof fn lemma_escape_char_first(c: char)
    ensures
        spec_escape_char(c).len() >= 1,
        spec_is_escaped(c) ==> spec_escape_char(c)[0] == '\\',
        !spec_is_escaped(c) ==> spec_escape_char(c) == seq![c] && c != '"' && c != '\\',
{
}

/// One escaped chunk followed by anything determines the character and the
/// remainder.
proof fn lemma_escape_chunk_inj(a0: char, b0: char, t1: Seq<char>, t2: Seq<char>)
    requires
        spec_escape_char(a0) + t1 == spec_escape_char(b0) + t2,
    ensures
        a0 == b0,
        t1 == t2,
{
    let ca = spec_escape_char(a0);
    let cb = spec_escape_char(b0);
    let total = ca + t1;
    lemma_escape_char_first(a0);
    lemma_escape_char_first(b0);
    if !spec_is_escaped(a0) && !spec_is_escaped(b0) {
        assert(total[0] == a0);
        assert(total[0] == b0);
        lemma_cancel_left(ca, t1, t2);
    } else if !spec_is_escaped(a0) {
        assert(total[0] == a0 && total[0] == '\\');
        assert(false);
    } else if !spec_is_escaped(b0) {
        assert(total[0] == b0 && total[0] == '\\');
        assert(false);
    } else {
        let sa = ca[1];
        let sb = cb[1];
        assert(ca.len() >= 2 && cb.len() >= 2);
        assert(sa == sb) by {
            assert(total[1] == ca[1]);
            assert(total[1] == cb[1]);
        }
        if ca.len() == 2 && cb.len() == 2 {
            assert(a0 == b0);
            lemma_cancel_left(ca, t1, t2);
        } else if ca.len() == 6 && cb.len() == 6 {
            let ha1 = ca[4];
            let ha2 = ca[5];
            assert(ha1 == cb[4] && ha2 == cb[5]) by {
                assert(total[4] == ca[4] && total[4] == cb[4]);
                assert(total[5] == ca[5] && total[5] == cb[5]);
            }
            assert(spec_hex_char(a0 as int / 16) == spec_hex_char(b0 as int / 16));
            assert(spec_hex_char(a0 as int % 16) == spec_hex_char(b0 as int % 16));
            assert(a0 as int / 16 == b0 as int / 16 && a0 as int % 16 == b0 as int % 16);
            assert(a0 as int == b0 as int);
            assert(a0 == b0);
            lemma_cancel_left(ca, t1, t2);
        } else {
            // One chunk is short, the other universal: their second
            // characters differ.
            assert(sa == 'u' || sb == 'u');
            assert(false);
        }
    }
}

/// An escaped string closed by a quote determines the string and whatever
/// follows the closing quote.
proof fn lemma_escape_inj(a: Seq<char>, b: Seq<char>, r1: Seq<char>, r2: Seq<char>)
    requires
        spec_escape(a) + seq!['"'] + r1 == spec_escape(b) + seq!['"'] + r2,
    ensures
        a == b,
        r1 == r2,
    decreases a.len(),
{
    let total = spec_escape(a) + seq!['"'] + r1;
    if a.len() == 0 && b.len() == 0 {
        assert(spec_escape(a) =~= Seq::<char>::empty());
        assert(spec_escape(b) =~= Seq::<char>::empty());
        assert(a =~= b);
        lemma_cancel_left(spec_escape(a) + seq!['"'], r1, r2);
    } else if a.len() == 0 {
        lemma_escape_char_first(b.first());
        assert(total[0] == '"');
        assert(spec_escape(b) == spec_escape_char(b.first()) + spec_escape(b.drop_first()));
        assert(total[0] == spec_escape_char(b.first())[0]);
        assert(spec_escape_char(b.first())[0] != '"');
        assert(false);
    } else if b.len() == 0 {
        lemma_escape_char_first(a.first());
        assert(total[0] == '"');
        assert(spec_escape(a) == spec_escape_char(a.first()) + spec_escape(a.drop_first()));
        assert(total[0] == spec_escape_char(a.first())[0]);
        assert(spec_escape_char(a.first())[0] != '"');
        assert(false);
    } else {
        assert(spec_escape(a) == spec_escape_char(a.first()) + spec_escape(a.drop_first()));
        assert(spec_escape(b) == spec_escape_char(b.first()) + spec_escape(b.drop_first()));
        let ta = spec_escape(a.drop_first()) + seq!['"'] + r1;
        let tb = spec_escape(b.drop_first()) + seq!['"'] + r2;
        assert(spec_escape_char(a.first()) + ta =~= total);
        assert(spec_escape_char(b.first()) + tb =~= total);
        lemma_escape_chunk_inj(a.first(), b.first(), ta, tb);
        lemma_escape_inj(a.drop_first(), b.drop_first(), r1, r2);
        assert(a =~= seq![a.first()] + a.drop_first());
        assert(b =~= seq![b.first()] + b.drop_first());
    }
}

/// Every character of a rendered number is a decimal digit, and there is
/// at least one.
proof fn lemma_digits_are_digits(n: int)
    requires
        n >= 0,
    ensures
        spec_u64_digits(n).len() >= 1,
        forall|i: int| 0 <= i < spec_u64_digits(n).len() ==> crate::strutil::spec_is_digit(
            #[trigger] spec_u64_digits(n)[i],
        ),
    decreases n,
{
    if n >= 10 {
        lemma_digits_are_digits(n / 10);
    }
}

/// Two numbers with the same decimal rendering are equal.
proof fn lemma_digits_inj(m: int, n: int)
    requires
        m >= 0,
        n >= 0,
        spec_u64_digits(m) == spec_u64_digits(n),
    ensures
        m == n,
    decreases m,
{
    lemma_digits_are_digits(m);
    lemma_digits_are_digits(n);
    if m < 10 && n < 10 {
        assert(spec_u64_digits(m) == seq![spec_digit_char(m)]);
        assert(spec_u64_digits(n) == seq![spec_digit_char(n)]);
        assert(spec_u64_digits(m)[0] == spec_digit_char(m));
        assert(48 + m == 48 + n);
    } else if m < 10 {
        assert(spec_u64_digits(n).len() == spec_u64_digits(n / 10).len() + 1);
        assert(spec_u64_digits(m).len() == 1);
        assert(false);
    } else if n < 10 {
        assert(spec_u64_digits(m).len() == spec_u64_digits(m / 10).len() + 1);
        assert(false);
    } else {
        assert(spec_u64_digits(m).last() == spec_digit_char(m % 10));
        assert(spec_u64_digits(n).last() == spec_digit_char(n % 10));
        assert(48 + m % 10 == 48 + n % 10);
        assert(spec_u64_digits(m).drop_last() =~= spec_u64_digits(m / 10));
        assert(spec_u64_digits(n).drop_last() =~= spec_u64_digits(n / 10));
        lemma_digits_inj(m / 10, n / 10);
    }
}

/// Two all-digit runs closed by a non-digit are the same run with the
/// same remainder.
proof fn lemma_digit_run_inj(p1: Seq<char>, p2: Seq<char>, s1: Seq<char>, s2: Seq<char>)
    requires
        p1 + s1 == p2 + s2,
        forall|i: int| 0 <= i < p1.len() ==> crate::strutil::spec_is_digit(#[trigger] p1[i]),
        forall|i: int| 0 <= i < p2.len() ==> crate::strutil::spec_is_digit(#[trigger] p2[i]),
        s1.len() >= 1,
        s2.len() >= 1,
        !crate::strutil::spec_is_digit(s1[0]),
        !crate::strutil::spec_is_digit(s2[0]),
    ensures
        p1 == p2,
        s1 == s2,
{
    let total = p1 + s1;
    if p1.len() < p2.len() {
        assert(total[p1.len() as int] == s1[0]);
        assert(total[p1.len() as int] == p2[p1.len() as int]);
        assert(false);
    } else if p2.len() < p1.len() {
        assert(total[p2.len() as int] == s2[0]);
        assert(total[p2.len() as int] == p1[p2.len() as int]);
        assert(false);
    } else {
        assert forall|i: int| 0 <= i < p1.len() implies p1[i] == p2[i] by {
            assert(total[i] == p1[i]);
            assert(total[i] == p2[i]);
        }
        assert(p1 =~= p2);
        lemma_cancel_left(p1, s1, s2);
    }
}

/// A serialized size followed by a non-digit, non-point character
/// determines the byte count and the remainder.
proof fn lemma_k_number_inj(x: u64, y: u64, r1: Seq<char>, r2: Seq<char>)
    requires
        spec_k_number(x) + r1 == spec_k_number(y) + r2,
        r1.len() >= 1,
        r2.len() >= 1,
        !crate::strutil::spec_is_digit(r1[0]),
        !crate::strutil::spec_is_digit(r2[0]),
    ensures
        x == y,
        r1 == r2,
{
    reveal_strlit(".");
    assert("."@ =~= seq!['.']);
    let wx = x as int / 1000;
    let wy = y as int / 1000;
    let fx = spec_k_number_frac(x);
    let fy = spec_k_number_frac(y);
    assert(spec_k_number(x) =~= spec_u64_digits(wx) + (seq!['.'] + fx));
    assert(spec_k_number(y) =~= spec_u64_digits(wy) + (seq!['.'] + fy));
    lemma_digits_are_digits(wx);
    lemma_digits_are_digits(wy);
    lemma_frac_digits(x);
    lemma_frac_digits(y);
    assert(spec_u64_digits(wx) + (seq!['.'] + fx + r1) =~= spec_k_number(x) + r1);
    assert(spec_u64_digits(wy) + (seq!['.'] + fy + r2) =~= spec_k_number(y) + r2);
    assert(!crate::strutil::spec_is_digit((seq!['.'] + fx + r1)[0]));
    assert(!crate::strutil::spec_is_digit((seq!['.'] + fy + r2)[0]));
    lemma_digit_run_inj(
        spec_u64_digits(wx),
        spec_u64_digits(wy),
        seq!['.'] + fx + r1,
        seq!['.'] + fy + r2,
    );
    lemma_digits_inj(wx, wy);
    assert(seq!['.'] + (fx + r1) =~= seq!['.'] + fx + r1);
    assert(seq!['.'] + (fy + r2) =~= seq!['.'] + fy + r2);
    lemma_cancel_left(seq!['.'], fx + r1, fy + r2);
    lemma_digit_run_inj(fx, fy, r1, r2);
    lemma_frac_inj(x, y);
}

/// The fractional digits of a serialized size.
spec fn spec_k_number_frac(bytes: u64) -> Seq<char> {
    let frac = (bytes % 1000) as int;
    let d1 = spec_digit_char(frac / 100);
    let d2 = spec_digit_char((frac / 10) % 10);
    let d3 = spec_digit_char(frac % 10);
    if frac % 10 != 0 {
        seq![d1, d2, d3]
    } else if (frac / 10) % 10 != 0 {
        seq![d1, d2]
    } else {
        seq![d1]
    }
}

/// The fractional digits are decimal digits, at least one of them, and
/// the serialized size is the whole digits, a point, and them.
proof fn lemma_frac_digits(x: u64)
    ensures
        spec_k_number_frac(x).len() >= 1,
        forall|i: int| 0 <= i < spec_k_number_frac(x).len() ==> crate::strutil::spec_is_digit(
            #[trigger] spec_k_number_frac(x)[i],
        ),
        spec_k_number(x) == spec_u64_digits(x as int / 1000) + "."@ + spec_k_number_frac(x),
{
}

/// Equal whole parts and equal fractional digits mean equal byte counts.
proof fn lemma_frac_inj(x: u64, y: u64)
    requires
        x as int / 1000 == y as int / 1000,
        spec_k_number_frac(x) == spec_k_number_frac(y),
    ensures
        x == y,
{
    let fx = (x % 1000) as int;
    let fy = (y % 1000) as int;
    let sx = spec_k_number_frac(x);
    let sy = spec_k_number_frac(y);
    assert(sx.len() == sy.len());
    if sx.len() == 3 {
        assert(fx % 10 != 0 && fy % 10 != 0);
        assert(sx[0] == spec_digit_char(fx / 100) && sx[1] == spec_digit_char((fx / 10) % 10)
            && sx[2] == spec_digit_char(fx % 10));
        assert(sy[0] == spec_digit_char(fy / 100) && sy[1] == spec_digit_char((fy / 10) % 10)
            && sy[2] == spec_digit_char(fy % 10));
        assert(sx[0] == sy[0] && sx[1] == sy[1] && sx[2] == sy[2]);
        assert(fx / 100 == fy / 100 && (fx / 10) % 10 == (fy / 10) % 10 && fx % 10 == fy % 10);
        assert(fx == 100 * (fx / 100) + 10 * ((fx / 10) % 10) + fx % 10);
        assert(fy == 100 * (fy / 100) + 10 * ((fy / 10) % 10) + fy % 10);
    } else if sx.len() == 2 {
        assert(fx % 10 == 0 && fy % 10 == 0 && (fx / 10) % 10 != 0 && (fy / 10) % 10 != 0);
        assert(sx[0] == spec_digit_char(fx / 100) && sx[1] == spec_digit_char((fx / 10) % 10));
        assert(sy[0] == spec_digit_char(fy / 100) && sy[1] == spec_digit_char((fy / 10) % 10));
        assert(sx[0] == sy[0] && sx[1] == sy[1]);
        assert(fx / 100 == fy / 100 && (fx / 10) % 10 == (fy / 10) % 10);
        assert(fx == 100 * (fx / 100) + 10 * ((fx / 10) % 10));
        assert(fy == 100 * (fy / 100) + 10 * ((fy / 10) % 10));
    } else {
        assert(sx.len() == 1);
        assert(fx % 10 == 0 && fy % 10 == 0 && (fx / 10) % 10 == 0 && (fy / 10) % 10 == 0);
        assert(sx[0] == spec_digit_char(fx / 100));
        assert(sy[0] == spec_digit_char(fy / 100));
        assert(sx[0] == sy[0]);
        assert(fx / 100 == fy / 100);
        assert(fx == 100 * (fx / 100));
        assert(fy == 100 * (fy / 100));
    }
    assert(x == 1000 * (x as int / 1000) + fx);
    assert(y == 1000 * (y as int / 1000) + fy);
}

/// A serialized optional string followed by anything that is not a digit
/// determines the option and the remainder.
proof fn lemma_opt_string_inj(
    o1: Option<Seq<char>>,
    o2: Option<Seq<char>>,
    r1: Seq<char>,
    r2: Seq<char>,
)
    requires
        spec_json_opt_string(o1) + r1 == spec_json_opt_string(o2) + r2,
    ensures
        o1 == o2,
        r1 == r2,
{
    reveal_strlit("null");
    let t = spec_json_opt_string(o1) + r1;
    match (o1, o2) {
        (None, None) => {
            lemma_cancel_left("null"@, r1, r2);
        },
        (Some(s1), Some(s2)) => {
            assert(spec_json_string(s1) + r1 =~= seq!['"'] + (spec_escape(s1) + seq!['"'] + r1));
            assert(spec_json_string(s2) + r2 =~= seq!['"'] + (spec_escape(s2) + seq!['"'] + r2));
            lemma_cancel_left(
                seq!['"'],
                spec_escape(s1) + seq!['"'] + r1,
                spec_escape(s2) + seq!['"'] + r2,
            );
            lemma_escape_inj(s1, s2, r1, r2);
        },
        (None, Some(s2)) => {
            assert(t[0] == "null"@[0]);
            assert(spec_json_string(s2)[0] == '"');
            assert(t[0] == '"');
            assert(false);
        },
        (Some(s1), None) => {
            assert(t[0] == '"');
            assert(t[0] == "null"@[0]);
            assert(false);
        },
    }
}

/// The serialized build-mode name determines the mode and the remainder.
proof fn lemma_mode_name_inj(m1: BuildMode, m2: BuildMode, r1: Seq<char>, r2: Seq<char>)
    requires
        spec_mode_name(m1) + r1 == spec_mode_name(m2) + r2,
    ensures
        m1 == m2,
        r1 == r2,
{
    reveal_strlit("Debug");
    reveal_strlit("Release");
    reveal_strlit("Verifiable");
    let t = spec_mode_name(m1) + r1;
    if m1 != m2 {
        assert(t[0] == spec_mode_name(m1)[0]);
        assert(t[0] == spec_mode_name(m2)[0]);
        assert(false);
    }
    lemma_cancel_left(spec_mode_name(m1), r1, r2);
}

/// The serialized artifact-selection name determines the selection and the
/// remainder.
proof fn lemma_artifact_name_inj(
    a1: BuildArtifacts,
    a2: BuildArtifacts,
    r1: Seq<char>,
    r2: Seq<char>,
)
    requires
        spec_artifact_name(a1) + r1 == spec_artifact_name(a2) + r2,
    ensures
        a1 == a2,
        r1 == r2,
{
    reveal_strlit("CheckOnly");
    reveal_strlit("CodeOnly");
    reveal_strlit("All");
    let t = spec_artifact_name(a1) + r1;
    if a1 != a2 {
        assert(t[0] == spec_artifact_name(a1)[0]);
        assert(t[0] == spec_artifact_name(a2)[0]);
        assert(t[1] == spec_artifact_name(a1)[1]);
        assert(t[1] == spec_artifact_name(a2)[1]);
        assert(false);
    }
    lemma_cancel_left(spec_artifact_name(a1), r1, r2);
}

/// The serialized verbosity name determines the verbosity and the
/// remainder.
proof fn lemma_verbosity_name_inj(v1: Verbosity, v2: Verbosity, r1: Seq<char>, r2: Seq<char>)
    requires
        spec_verbosity_name(v1) + r1 == spec_verbosity_name(v2) + r2,
    ensures
        v1 == v2,
        r1 == r2,
{
    reveal_strlit("Quiet");
    reveal_strlit("Default");
    reveal_strlit("Verbose");
    let t = spec_verbosity_name(v1) + r1;
    if v1 != v2 {
        assert(t[0] == spec_verbosity_name(v1)[0]);
        assert(t[0] == spec_verbosity_name(v2)[0]);
        assert(false);
    }
    lemma_cancel_left(spec_verbosity_name(v1), r1, r2);
}

/// The two serialized strings of the metadata-artifacts object determine
/// both paths and the remainder.
proof fn lemma_meta_obj_inj(
    m1: (Seq<char>, Seq<char>),
    m2: (Seq<char>, Seq<char>),
    r1: Seq<char>,
    r2: Seq<char>,
)
    requires
        spec_meta_body(Some(m1)) + r1 == spec_meta_body(Some(m2)) + r2,
    ensures
        m1 == m2,
        r1 == r2,
{
    let lit_a = "{\n    \"dest_metadata\": "@;
    let lit_b = ",\n    \"dest_bundle\": "@;
    let lit_c = "\n  }"@;
    assert(spec_meta_body(Some(m1)) + r1 =~= (lit_a + seq!['"']) + (spec_escape(m1.0) + seq!['"']
        + (lit_b + (seq!['"'] + (spec_escape(m1.1) + seq!['"'] + (lit_c + r1))))));
    assert(spec_meta_body(Some(m2)) + r2 =~= (lit_a + seq!['"']) + (spec_escape(m2.0) + seq!['"']
        + (lit_b + (seq!['"'] + (spec_escape(m2.1) + seq!['"'] + (lit_c + r2))))));
    lemma_cancel_left(
        lit_a + seq!['"'],
        spec_escape(m1.0) + seq!['"'] + (lit_b + (seq!['"'] + (spec_escape(m1.1) + seq!['"']
            + (lit_c + r1)))),
        spec_escape(m2.0) + seq!['"'] + (lit_b + (seq!['"'] + (spec_escape(m2.1) + seq!['"']
            + (lit_c + r2)))),
    );
    lemma_escape_inj(
        m1.0,
        m2.0,
        lit_b + (seq!['"'] + (spec_escape(m1.1) + seq!['"'] + (lit_c + r1))),
        lit_b + (seq!['"'] + (spec_escape(m2.1) + seq!['"'] + (lit_c + r2))),
    );
    assert(lit_b + (seq!['"'] + (spec_escape(m1.1) + seq!['"'] + (lit_c + r1))) =~= (lit_b
        + seq!['"']) + (spec_escape(m1.1) + seq!['"'] + (lit_c + r1)));
    assert(lit_b + (seq!['"'] + (spec_escape(m2.1) + seq!['"'] + (lit_c + r2))) =~= (lit_b
        + seq!['"']) + (spec_escape(m2.1) + seq!['"'] + (lit_c + r2)));
    lemma_cancel_left(
        lit_b + seq!['"'],
        spec_escape(m1.1) + seq!['"'] + (lit_c + r1),
        spec_escape(m2.1) + seq!['"'] + (lit_c + r2),
    );
    lemma_escape_inj(m1.1, m2.1, lit_c + r1, lit_c + r2);
    lemma_cancel_left(lit_c, r1, r2);
    assert(m1 =~= m2);
}

/// The serialized metadata-artifacts field determines the option and the
/// remainder.
proof fn lemma_meta_part_inj(a: SpecBuildResult, b: SpecBuildResult, r1: Seq<char>, r2: Seq<char>)
    requires
        spec_meta_part(a) + r1 == spec_meta_part(b) + r2,
    ensures
        a.metadata_result == b.metadata_result,
        r1 == r2,
{
    reveal_strlit("null");
    reveal_strlit("{\n    \"dest_metadata\": ");
    let lit = ",\n  \"metadata_result\": "@;
    assert(spec_meta_part(a) + r1 =~= lit + (spec_meta_body(a.metadata_result) + r1));
    assert(spec_meta_part(b) + r2 =~= lit + (spec_meta_body(b.metadata_result) + r2));
    lemma_cancel_left(
        lit,
        spec_meta_body(a.metadata_result) + r1,
        spec_meta_body(b.metadata_result) + r2,
    );
    let t = spec_meta_body(a.metadata_result) + r1;
    match (a.metadata_result, b.metadata_result) {
        (None, None) => {
            lemma_cancel_left("null"@, r1, r2);
        },
        (Some(m1), Some(m2)) => {
            lemma_meta_obj_inj(m1, m2, r1, r2);
        },
        (None, Some(m2)) => {
            assert(t[0] == "null"@[0]);
            assert(t[0] == "{\n    \"dest_metadata\": "@[0]);
            assert(false);
        },
        (Some(m1), None) => {
            assert(t[0] == "null"@[0]);
            assert(t[0] == "{\n    \"dest_metadata\": "@[0]);
            assert(false);
        },
    }
}

/// The body of the serialized metadata-artifacts field.
spec fn spec_meta_body(m: Option<(Seq<char>, Seq<char>)>) -> Seq<char> {
    match m {
        Some(m) => {
            "{\n    \"dest_metadata\": "@ + spec_json_string(m.0) + ",\n    \"dest_bundle\": "@
                + spec_json_string(m.1) + "\n  }"@
        },
        None => "null"@,
    }
}

/// The body of the serialized optimization-sizes field.
spec fn spec_opt_body(o: Option<OptimizationResult>) -> Seq<char> {
    match o {
        Some(o) => {
            "{\n    \"original_size\": "@ + spec_k_number(o.original_size)
                + ",\n    \"optimized_size\": "@ + spec_k_number(o.optimized_size) + "\n  }"@
        },
        None => "null"@,
    }
}

/// The two serialized sizes of the optimization object determine both
/// byte counts and the remainder.
proof fn lemma_opt_obj_inj(
    o1: OptimizationResult,
    o2: OptimizationResult,
    r1: Seq<char>,
    r2: Seq<char>,
)
    requires
        spec_opt_body(Some(o1)) + r1 == spec_opt_body(Some(o2)) + r2,
    ensures
        o1 == o2,
        r1 == r2,
{
    let lit_a = "{\n    \"original_size\": "@;
    let lit_b = ",\n    \"optimized_size\": "@;
    let lit_c = "\n  }"@;
    reveal_strlit(",\n    \"optimized_size\": ");
    reveal_strlit("\n  }");
    assert(spec_opt_body(Some(o1)) + r1 =~= lit_a + (spec_k_number(o1.original_size) + (lit_b
        + (spec_k_number(o1.optimized_size) + (lit_c + r1)))));
    assert(spec_opt_body(Some(o2)) + r2 =~= lit_a + (spec_k_number(o2.original_size) + (lit_b
        + (spec_k_number(o2.optimized_size) + (lit_c + r2)))));
    lemma_cancel_left(
        lit_a,
        spec_k_number(o1.original_size) + (lit_b + (spec_k_number(o1.optimized_size) + (lit_c
            + r1))),
        spec_k_number(o2.original_size) + (lit_b + (spec_k_number(o2.optimized_size) + (lit_c
            + r2))),
    );
    let tail1 = lit_b + (spec_k_number(o1.optimized_size) + (lit_c + r1));
    let tail2 = lit_b + (spec_k_number(o2.optimized_size) + (lit_c + r2));
    assert(tail1[0] == lit_b[0] && tail2[0] == lit_b[0]);
    assert(!crate::strutil::spec_is_digit(lit_b[0]));
    lemma_k_number_inj(o1.original_size, o2.original_size, tail1, tail2);
    lemma_cancel_left(
        lit_b,
        spec_k_number(o1.optimized_size) + (lit_c + r1),
        spec_k_number(o2.optimized_size) + (lit_c + r2),
    );
    assert((lit_c + r1)[0] == lit_c[0] && (lit_c + r2)[0] == lit_c[0]);
    assert(!crate::strutil::spec_is_digit(lit_c[0]));
    lemma_k_number_inj(o1.optimized_size, o2.optimized_size, lit_c + r1, lit_c + r2);
    lemma_cancel_left(lit_c, r1, r2);
}

/// The serialized optimization-sizes field determines the option and the
/// remainder.
proof fn lemma_opt_part_inj(a: SpecBuildResult, b: SpecBuildResult, r1: Seq<char>, r2: Seq<char>)
    requires
        spec_opt_part(a) + r1 == spec_opt_part(b) + r2,
    ensures
        a.optimization_result == b.optimization_result,
        r1 == r2,
{
    reveal_strlit("null");
    reveal_strlit("{\n    \"original_size\": ");
    let lit = ",\n  \"optimization_result\": "@;
    assert(spec_opt_part(a) + r1 =~= lit + (spec_opt_body(a.optimization_result) + r1));
    assert(spec_opt_part(b) + r2 =~= lit + (spec_opt_body(b.optimization_result) + r2));
    lemma_cancel_left(
        lit,
        spec_opt_body(a.optimization_result) + r1,
        spec_opt_body(b.optimization_result) + r2,
    );
    let t = spec_opt_body(a.optimization_result) + r1;
    match (a.optimization_result, b.optimization_result) {
        (None, None) => {
            lemma_cancel_left("null"@, r1, r2);
        },
        (Some(o1), Some(o2)) => {
            lemma_opt_obj_inj(o1, o2, r1, r2);
        },
        (None, Some(o2)) => {
            assert(t[0] == "null"@[0]);
            assert(t[0] == "{\n    \"original_size\": "@[0]);
            assert(false);
        },
        (Some(o1), None) => {
            assert(t[0] == "null"@[0]);
            assert(t[0] == "{\n    \"original_size\": "@[0]);
            assert(false);
        },
    }
}

/// Concatenation of sequences associates.
proof fn lemma_assoc3(x: Seq<char>, y: Seq<char>, z: Seq<char>)
    ensures
        x + y + z == x + (y + z),
{
    assert(x + y + z =~= x + (y + z));
}

/// A left-nested five-part concatenation, rotated right.
proof fn lemma_chain5(p1: Seq<char>, p2: Seq<char>, p3: Seq<char>, p4: Seq<char>, p5: Seq<char>)
    ensures
        p1 + p2 + p3 + p4 + p5 == p1 + (p2 + (p3 + (p4 + p5))),
{
    assert(p1 + p2 + p3 + p4 + p5 =~= p1 + (p2 + (p3 + (p4 + p5))));
}

/// A left-nested nine-part concatenation, rotated right.
#[verifier::rlimit(100)]
proof fn lemma_chain9(
    p1: Seq<char>,
    p2: Seq<char>,
    p3: Seq<char>,
    p4: Seq<char>,
    p5: Seq<char>,
    p6: Seq<char>,
    p7: Seq<char>,
    p8: Seq<char>,
    p9: Seq<char>,
)
    ensures
        p1 + p2 + p3 + p4 + p5 + p6 + p7 + p8 + p9 == p1 + (p2 + (p3 + (p4 + (p5 + (p6 + (p7 + (p8
            + p9))))))),
{
    assert(p1 + p2 + p3 + p4 + p5 + p6 + p7 + p8 + p9 =~= p1 + (p2 + (p3 + (p4 + (p5 + (p6 + (p7
        + (p8 + p9))))))));
}

/// A serialized string field after its key, reshaped so the escaped text
/// stands between its quotes.
proof fn lemma_string_field(lit: Seq<char>, e: Seq<char>, y: Seq<char>)
    ensures
        (lit + (seq!['"'] + e + seq!['"'])) + y == (lit + seq!['"']) + (e + seq!['"'] + y),
{
    assert((lit + (seq!['"'] + e + seq!['"'])) + y =~= (lit + seq!['"']) + (e + seq!['"'] + y));
}

/// The front half of the serialized form determines the artifact path,
/// the metadata artifacts and the target directory, and leaves the equal
/// back half.
proof fn lemma_front_inj(a: SpecBuildResult, b: SpecBuildResult)
    requires
        spec_serialize(a) == spec_serialize(b),
    ensures
        a.dest_wasm == b.dest_wasm,
        a.metadata_result == b.metadata_result,
        a.target_directory == b.target_directory,
        spec_opt_part(a) + spec_tail_part(a) == spec_opt_part(b) + spec_tail_part(b),
{
    let lit1 = "{\n  \"dest_wasm\": "@;
    let xa = spec_meta_part(a) + (spec_dir_part(a) + (spec_opt_part(a) + spec_tail_part(a)));
    let xb = spec_meta_part(b) + (spec_dir_part(b) + (spec_opt_part(b) + spec_tail_part(b)));
    lemma_chain5(
        spec_dest_part(a),
        spec_meta_part(a),
        spec_dir_part(a),
        spec_opt_part(a),
        spec_tail_part(a),
    );
    lemma_chain5(
        spec_dest_part(b),
        spec_meta_part(b),
        spec_dir_part(b),
        spec_opt_part(b),
        spec_tail_part(b),
    );
    lemma_assoc3(lit1, spec_json_opt_string(a.dest_wasm), xa);
    lemma_assoc3(lit1, spec_json_opt_string(b.dest_wasm), xb);
    lemma_cancel_left(
        lit1,
        spec_json_opt_string(a.dest_wasm) + xa,
        spec_json_opt_string(b.dest_wasm) + xb,
    );
    lemma_opt_string_inj(a.dest_wasm, b.dest_wasm, xa, xb);
    let ya = spec_dir_part(a) + (spec_opt_part(a) + spec_tail_part(a));
    let yb = spec_dir_part(b) + (spec_opt_part(b) + spec_tail_part(b));
    lemma_meta_part_inj(a, b, ya, yb);
    let lit3 = ",\n  \"target_directory\": "@;
    let za = spec_opt_part(a) + spec_tail_part(a);
    let zb = spec_opt_part(b) + spec_tail_part(b);
    lemma_string_field(lit3, spec_escape(a.target_directory), za);
    lemma_string_field(lit3, spec_escape(b.target_directory), zb);
    lemma_cancel_left(
        lit3 + seq!['"'],
        spec_escape(a.target_directory) + seq!['"'] + za,
        spec_escape(b.target_directory) + seq!['"'] + zb,
    );
    lemma_escape_inj(a.target_directory, b.target_directory, za, zb);
}

/// The back half of the serialized form determines the mode, the artifact
/// selection, the verbosity and the image.
proof fn lemma_tail_inj(a: SpecBuildResult, b: SpecBuildResult)
    requires
        spec_tail_part(a) == spec_tail_part(b),
    ensures
        a.build_mode == b.build_mode,
        a.build_artifact == b.build_artifact,
        a.verbosity == b.verbosity,
        a.image == b.image,
{
    let lit7 = ",\n  \"build_mode\": \""@;
    let lit8 = "\",\n  \"build_artifact\": \""@;
    let lit9 = "\",\n  \"verbosity\": \""@;
    let lit10 = "\",\n  \"image\": "@;
    let lit11 = "\n}"@;
    lemma_chain9(
        lit7,
        spec_mode_name(a.build_mode),
        lit8,
        spec_artifact_name(a.build_artifact),
        lit9,
        spec_verbosity_name(a.verbosity),
        lit10,
        spec_json_opt_string(a.image),
        lit11,
    );
    lemma_chain9(
        lit7,
        spec_mode_name(b.build_mode),
        lit8,
        spec_artifact_name(b.build_artifact),
        lit9,
        spec_verbosity_name(b.verbosity),
        lit10,
        spec_json_opt_string(b.image),
        lit11,
    );
    let t4a = lit8 + (spec_artifact_name(a.build_artifact) + (lit9 + (spec_verbosity_name(
        a.verbosity,
    ) + (lit10 + (spec_json_opt_string(a.image) + lit11)))));
    let t4b = lit8 + (spec_artifact_name(b.build_artifact) + (lit9 + (spec_verbosity_name(
        b.verbosity,
    ) + (lit10 + (spec_json_opt_string(b.image) + lit11)))));
    lemma_cancel_left(
        lit7,
        spec_mode_name(a.build_mode) + t4a,
        spec_mode_name(b.build_mode) + t4b,
    );
    lemma_mode_name_inj(a.build_mode, b.build_mode, t4a, t4b);
    lemma_cancel_left(
        lit8,
        spec_artifact_name(a.build_artifact) + (lit9 + (spec_verbosity_name(a.verbosity) + (lit10
            + (spec_json_opt_string(a.image) + lit11)))),
        spec_artifact_name(b.build_artifact) + (lit9 + (spec_verbosity_name(b.verbosity) + (lit10
            + (spec_json_opt_string(b.image) + lit11)))),
    );
    lemma_artifact_name_inj(
        a.build_artifact,
        b.build_artifact,
        lit9 + (spec_verbosity_name(a.verbosity) + (lit10 + (spec_json_opt_string(a.image)
            + lit11))),
        lit9 + (spec_verbosity_name(b.verbosity) + (lit10 + (spec_json_opt_string(b.image)
            + lit11))),
    );
    lemma_cancel_left(
        lit9,
        spec_verbosity_name(a.verbosity) + (lit10 + (spec_json_opt_string(a.image) + lit11)),
        spec_verbosity_name(b.verbosity) + (lit10 + (spec_json_opt_string(b.image) + lit11)),
    );
    lemma_verbosity_name_inj(
        a.verbosity,
        b.verbosity,
        lit10 + (spec_json_opt_string(a.image) + lit11),
        lit10 + (spec_json_opt_string(b.image) + lit11),
    );
    lemma_cancel_left(
        lit10,
        spec_json_opt_string(a.image) + lit11,
        spec_json_opt_string(b.image) + lit11,
    );
    lemma_opt_string_inj(a.image, b.image, lit11, lit11);
}

/// The serialized form determines the record: two build results with the
/// same serialization agree on every serialized field — a deserialization
/// of a serialized record can recover each field exactly, the
/// presentation-only field excluded.
pub proof fn lemma_serialize_injective(a: SpecBuildResult, b: SpecBuildResult)
    requires
        spec_serialize(a) == spec_serialize(b),
    ensures
        a == b,
{
    lemma_front_inj(a, b);
    lemma_opt_part_inj(a, b, spec_tail_part(a), spec_tail_part(b));
    lemma_tail_inj(a, b);
    assert(a =~= b);
}

} // verus!
