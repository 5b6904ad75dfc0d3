//! An isolated, non-destructive model of the build-configuration document
//! and the ordered, composable transformations that rewrite a copy of it
//! for minimal-size output. Every transformation is pure and idempotent,
//! and never overwrites a setting the user already made explicitly; the
//! caller builds against the transformed copy and the user's original
//! document is never touched.

use vstd::prelude::*;
use crate::strutil::str_eq;
use crate::strutil::views_of;

verus! {

/// The optimization level of a build profile.
#[derive(Debug, Clone, Copy, PartialEq, Eq, Structural)]
pub enum OptLevel {
    Zero,
    One,
    Two,
    Three,
    S,
    Z,
}

/// Link-time-optimization setting of a build profile.
#[derive(Debug, Clone, Copy, PartialEq, Eq, Structural)]
pub enum Lto {
    Thin,
    Fat,
}

/// What the generated code does on panic.
#[derive(Debug, Clone, Copy, PartialEq, Eq, Structural)]
pub enum PanicStrategy {
    Unwind,
    Abort,
}

/// The release-profile settings the patcher cares about. `None` means the
/// user did not set the field explicitly.
#[derive(Debug, Clone, Copy, PartialEq, Eq, Structural)]
pub struct Profile {
    pub opt_level: Option<OptLevel>,
    pub debug_info: Option<bool>,
    pub codegen_units: Option<u32>,
    pub lto: Option<Lto>,
    pub panic: Option<PanicStrategy>,
}

impl Profile {
    /// The size-optimal release defaults injected for a contract build:
    /// smallest-size optimization, no debug info, a single
    /// code-generation unit, full link-time optimization, abort on panic.
    pub fn default_contract_release() -> (p: Profile)
        ensures
            p == (Profile {
                opt_level: Some(OptLevel::Z),
                debug_info: Some(false),
                codegen_units: Some(1u32),
                lto: Some(Lto::Fat),
                panic: Some(PanicStrategy::Abort),
            }),
    {
        Profile {
            opt_level: Some(OptLevel::Z),
            debug_info: Some(false),
            codegen_units: Some(1),
            lto: Some(Lto::Fat),
            panic: Some(PanicStrategy::Abort),
        }
    }

    /// Fills every setting the user left unset from the defaults; explicit
    /// user settings always win.
    pub fn merged_with_defaults(self, defaults: &Profile) -> (r: Profile)
        ensures
            r == spec_merged_profile(self, *defaults),
    {
        Profile {
            opt_level: match self.opt_level {
                Some(v) => Some(v),
                None => defaults.opt_level,
            },
            debug_info: match self.debug_info {
                Some(v) => Some(v),
                None => defaults.debug_info,
            },
            codegen_units: match self.codegen_units {
                Some(v) => Some(v),
                None => defaults.codegen_units,
            },
            lto: match self.lto {
                Some(v) => Some(v),
                None => defaults.lto,
            },
            panic: match self.panic {
                Some(v) => Some(v),
                None => defaults.panic,
            },
        }
    }
}

/// A profile with every unset field filled from the defaults: an explicit
/// setting always wins; only a missing one takes the documented default.
pub open spec fn spec_merged_profile(p: Profile, defaults: Profile) -> Profile {
    Profile {
        opt_level: if p.opt_level is Some {
            p.opt_level
        } else {
            defaults.opt_level
        },
        debug_info: if p.debug_info is Some {
            p.debug_info
        } else {
            defaults.debug_info
        },
        codegen_units: if p.codegen_units is Some {
            p.codegen_units
        } else {
            defaults.codegen_units
        },
        lto: if p.lto is Some {
            p.lto
        } else {
            defaults.lto
        },
        panic: if p.panic is Some {
            p.panic
        } else {
            defaults.panic
        },
    }
}

/// The kind of a build target the document declares.
#[derive(Debug, Clone, Copy, PartialEq, Eq, Structural)]
pub enum TargetKind {
    /// The entry-point binary target.
    Binary,
    /// A library-type target, which inflates the final binary size.
    Library,
}

/// One build target of the document.
#[derive(Debug, Clone, PartialEq, Eq)]
pub struct ManifestTarget {
    pub name: String,
    pub kind: TargetKind,
}

/// One dependency override of an enclosing workspace: a dependency name
/// and the local path it resolves to.
#[derive(Debug, Clone, PartialEq, Eq)]
pub struct PatchEntry {
    pub name: String,
    pub path: String,
}

/// The in-memory build-configuration document: its build targets, the
/// release-profile settings, the dependency overrides, whether it declares
/// an (empty) enclosing workspace, and the lint libraries it requests.
#[derive(Debug, Clone, PartialEq, Eq)]
pub struct ManifestDoc {
    pub targets: Vec<ManifestTarget>,
    pub release_profile: Profile,
    pub patches: Vec<PatchEntry>,
    pub has_workspace_marker: bool,
    pub lint_libraries: Vec<String>,
}

/// Mathematical model of a build target.
#[verifier::ext_equal]
pub struct SpecManifestTarget {
    pub name: Seq<char>,
    pub kind: TargetKind,
}

/// Mathematical model of a dependency override.
#[verifier::ext_equal]
pub struct SpecPatchEntry {
    pub name: Seq<char>,
    pub path: Seq<char>,
}

/// Mathematical model of the configuration document.
#[verifier::ext_equal]
pub struct SpecManifestDoc {
    pub targets: Seq<SpecManifestTarget>,
    pub release_profile: Profile,
    pub patches: Seq<SpecPatchEntry>,
    pub has_workspace_marker: bool,
    pub lint_libraries: Seq<Seq<char>>,
}

impl View for ManifestTarget {
    type V = SpecManifestTarget;

    open spec fn view(&self) -> SpecManifestTarget {
        SpecManifestTarget { name: self.name@, kind: self.kind }
    }
}

impl View for PatchEntry {
    type V = SpecPatchEntry;

    open spec fn view(&self) -> SpecPatchEntry {
        SpecPatchEntry { name: self.name@, path: self.path@ }
    }
}

impl View for ManifestDoc {
    type V = SpecManifestDoc;

    open spec fn view(&self) -> SpecManifestDoc {
        SpecManifestDoc {
            targets: views_of(self.targets@),
            release_profile: self.release_profile,
            patches: views_of(self.patches@),
            has_workspace_marker: self.has_workspace_marker,
            lint_libraries: views_of(self.lint_libraries@),
        }
    }
}

/// A target after the library-to-binary rewrite.
pub open spec fn spec_target_as_binary(t: SpecManifestTarget) -> SpecManifestTarget {
    SpecManifestTarget { name: t.name, kind: TargetKind::Binary }
}

/// All targets after the library-to-binary rewrite.
pub open spec fn spec_targets_as_binary(ts: Seq<SpecManifestTarget>) -> Seq<SpecManifestTarget> {
    ts.map_values(|t: SpecManifestTarget| spec_target_as_binary(t))
}

/// Whether some override with this name is already present.
pub open spec fn spec_contains_patch_name(ps: Seq<SpecPatchEntry>, name: Seq<char>) -> bool {
    exists|i: int| 0 <= i < ps.len() && (#[trigger] ps[i]).name == name
}

/// The workspace overrides that merging adds: those whose name the
/// document does not already override.
pub open spec fn spec_new_patches(mine: Seq<SpecPatchEntry>, ws: Seq<SpecPatchEntry>) -> Seq<
    SpecPatchEntry,
> {
    ws.filter(|p: SpecPatchEntry| !spec_contains_patch_name(mine, p.name))
}

/// Whether some lint library with this name is already requested.
pub open spec fn spec_contains_library(libs: Seq<Seq<char>>, name: Seq<char>) -> bool {
    exists|i: int| 0 <= i < libs.len() && #[trigger] libs[i] == name
}

/// The name of the lint-tool library injected for the lint path.
pub open spec fn spec_lint_library() -> Seq<char> {
    "ink_linting"@
}

impl ManifestDoc {
    /// Rewrites every library-type build target into the entry-point
    /// binary target, keeping its name; nothing else changes. A document
    /// without library targets is left as it is.
    #[verifier::loop_isolation(false)]
    pub fn with_replaced_lib_to_bin(self) -> (r: ManifestDoc)
        ensures
            r@ == (SpecManifestDoc { targets: spec_targets_as_binary(self@.targets), ..self@ }),
    {
        let ghost orig = self.targets@;
        let ghost origv = views_of(self.targets@);
        let mut remaining = self.targets;
        let mut done: Vec<ManifestTarget> = Vec::new();
        while remaining.len() > 0
            invariant
                done@.len() + remaining@.len() == orig.len(),
                remaining@ == orig.skip(done@.len() as int),
                views_of(done@) == spec_targets_as_binary(origv.take(done@.len() as int)),
            decreases remaining@.len(),
        {
            let ghost i = done@.len() as int;
            let t = remaining.remove(0);
            assert(t == orig[i]);
            let rewritten = ManifestTarget { name: t.name, kind: TargetKind::Binary };
            proof {
                assert(rewritten@ == spec_target_as_binary(orig[i]@));
            }
            let ghost old_done = done@;
            done.push(rewritten);
            proof {
                assert forall|k: int| 0 <= k < i + 1 implies views_of(done@)[k]
                    == spec_targets_as_binary(origv.take(i + 1))[k] by {
                    assert(views_of(done@)[k] == done@[k]@);
                    assert(spec_targets_as_binary(origv.take(i + 1))[k] == spec_target_as_binary(
                        origv.take(i + 1)[k],
                    ));
                    assert(origv.take(i + 1)[k] == origv[k]);
                    if k < i {
                        assert(done@[k] == old_done[k]);
                        assert(views_of(old_done)[k] == old_done[k]@);
                        assert(views_of(old_done)[k] == spec_targets_as_binary(origv.take(i))[k]);
                    } else {
                        assert(done@[k] == rewritten);
                        assert(origv[k] == orig[k]@);
                    }
                }
                assert(views_of(done@) =~= spec_targets_as_binary(origv.take(i + 1)));
                assert(remaining@ =~= orig.skip(done@.len() as int));
            }
        }
        proof {
            assert(origv.take(orig.len() as int) =~= origv);
        }
        let r = ManifestDoc { targets: done, ..self };
        proof {
            assert(r@ =~= (SpecManifestDoc {
                targets: spec_targets_as_binary(views_of(orig)),
                ..r@
            }));
        }
        r
    }

    /// Injects the size-optimal release defaults for every profile setting
    /// the user has not set explicitly; explicit settings always win.
    pub fn with_profile_release_defaults(self, defaults: &Profile) -> (r: ManifestDoc)
        ensures
            r@ == (SpecManifestDoc {
                release_profile: spec_merged_profile(self.release_profile, *defaults),
                ..self@
            }),
    {
        let merged = self.release_profile.merged_with_defaults(defaults);
        let r = ManifestDoc { release_profile: merged, ..self };
        proof {
            assert(r@ =~= (SpecManifestDoc {
                release_profile: merged,
                ..r@
            }));
        }
        r
    }

    /// Merges the enclosing workspace's dependency overrides into the
    /// isolated copy, so local path dependencies still resolve outside the
    /// original workspace; an override the document already has by name is
    /// kept as the user wrote it.
    #[verifier::loop_isolation(false)]
    pub fn with_merged_workspace_dependencies(self, workspace_patches: Vec<PatchEntry>) -> (r:
        ManifestDoc)
        ensures
            r@ == (SpecManifestDoc {
                patches: self@.patches + spec_new_patches(
                    self@.patches,
                    views_of(workspace_patches@),
                ),
                ..self@
            }),
    {
        let ghost minev = views_of(self.patches@);
        let ghost wsorig = workspace_patches@;
        let ghost wsv = views_of(workspace_patches@);
        let mut merged = self.patches;
        let mut additions: Vec<PatchEntry> = Vec::new();
        let mut ws = workspace_patches;
        let ghost mut seen: int = 0;
        proof {
            assert(views_of(additions@) =~= spec_new_patches(minev, wsv.take(0)));
        }
        while ws.len() > 0
            invariant
                0 <= seen <= wsorig.len(),
                seen + ws@.len() == wsorig.len(),
                ws@ == wsorig.skip(seen),
                views_of(merged@) == minev,
                views_of(additions@) == spec_new_patches(minev, wsv.take(seen)),
            decreases ws@.len(),
        {
            let p = ws.remove(0);
            assert(p == wsorig[seen]);
            let already = Self::patches_contain_name(&merged, Ghost(minev), p.name.as_str());
            let ghost old_additions = additions@;
            if !already {
                additions.push(p);
            }
            proof {
                reveal(Seq::filter);
                assert(wsv.take(seen + 1).drop_last() =~= wsv.take(seen));
                assert(wsv.take(seen + 1).last() == wsorig[seen]@);
                if !already {
                    assert(views_of(additions@) =~= spec_new_patches(
                        minev,
                        wsv.take(seen),
                    ).push(wsorig[seen]@));
                } else {
                    assert(views_of(additions@) =~= views_of(old_additions));
                }
                seen = seen + 1;
                assert(ws@ =~= wsorig.skip(seen));
            }
        }
        proof {
            assert(wsv.take(seen) =~= wsv);
        }
        merged.append(&mut additions);
        proof {
            assert(views_of(merged@) =~= minev + spec_new_patches(minev, wsv));
        }
        let r = ManifestDoc { patches: merged, ..self };
        proof {
            assert(r@ =~= (SpecManifestDoc {
                patches: minev + spec_new_patches(minev, wsv),
                ..r@
            }));
        }
        r
    }

    /// Whether the first `prefix` entries of `ps` (all of them, here)
    /// already override the given name. The ghost argument carries the view
    /// against which membership is stated.
    #[verifier::loop_isolation(false)]
    fn patches_contain_name(ps: &Vec<PatchEntry>, Ghost(psv): Ghost<Seq<SpecPatchEntry>>, name: &str) -> (r:
        bool)
        requires
            views_of(ps@) == psv,
        ensures
            r == spec_contains_patch_name(psv, name@),
    {
        let mut k: usize = 0;
        while k < ps.len()
            invariant
                0 <= k <= ps@.len(),
                forall|i: int| 0 <= i < k ==> (#[trigger] psv[i]).name != name@,
            decreases ps@.len() - k,
        {
            if str_eq(ps[k].name.as_str(), name) {
                proof {
                    assert(psv[k as int].name == name@);
                }
                return true;
            }
            k = k + 1;
        }
        false
    }

    /// Whether the lint-tool library is already requested.
    #[verifier::loop_isolation(false)]
    fn libraries_contain(libs: &Vec<String>, Ghost(libsv): Ghost<Seq<Seq<char>>>) -> (r: bool)
        requires
            views_of(libs@) == libsv,
        ensures
            r == spec_contains_library(libsv, spec_lint_library()),
    {
        let mut k: usize = 0;
        while k < libs.len()
            invariant
                0 <= k <= libs@.len(),
                forall|i: int| 0 <= i < k ==> #[trigger] libsv[i] != spec_lint_library(),
            decreases libs@.len() - k,
        {
            if str_eq(libs[k].as_str(), "ink_linting") {
                proof {
                    assert(libsv[k as int] == spec_lint_library());
                }
                return true;
            }
            k = k + 1;
        }
        false
    }

    /// Declares an (empty) enclosing workspace, so the isolated copy is
    /// not swallowed by a parent workspace definition; a document that
    /// already declares one is unchanged.
    pub fn with_empty_workspace(self) -> (r: ManifestDoc)
        ensures
            r@ == (SpecManifestDoc { has_workspace_marker: true, ..self@ }),
    {
        let r = ManifestDoc { has_workspace_marker: true, ..self };
        proof {
            assert(r@ =~= (SpecManifestDoc { has_workspace_marker: true, ..r@ }));
        }
        r
    }

    /// Injects the lint-tool library dependency, once: a document that
    /// already requests it is unchanged.
    pub fn with_dylint(self) -> (r: ManifestDoc)
        ensures
            r@ == (SpecManifestDoc {
                lint_libraries: if spec_contains_library(self@.lint_libraries, spec_lint_library()) {
                    self@.lint_libraries
                } else {
                    self@.lint_libraries.push(spec_lint_library())
                },
                ..self@
            }),
    {
        let ghost libsv = views_of(self.lint_libraries@);
        let present = Self::libraries_contain(&self.lint_libraries, Ghost(libsv));
        if present {
            let r = self;
            proof {
                assert(r@ =~= (SpecManifestDoc { lint_libraries: libsv, ..r@ }));
            }
            r
        } else {
            let mut libs = self.lint_libraries;
            libs.push("ink_linting".to_owned());
            let r = ManifestDoc { lint_libraries: libs, ..self };
            proof {
                assert(views_of(r.lint_libraries@) =~= libsv.push(spec_lint_library()));
                assert(r@ =~= (SpecManifestDoc {
                    lint_libraries: libsv.push(spec_lint_library()),
                    ..r@
                }));
            }
            r
        }
    }
}

} // verus!
