use contract_build::manifest::ManifestTarget;
use contract_build::manifest::PatchEntry;
use contract_build::manifest::TargetKind;
use contract_build::Lto;
use contract_build::ManifestDoc;
use contract_build::OptLevel;
use contract_build::PanicStrategy;
use contract_build::Profile;

fn empty_doc() -> ManifestDoc {
    ManifestDoc {
        targets: Vec::new(),
        release_profile: Profile {
            opt_level: None,
            debug_info: None,
            codegen_units: None,
            lto: None,
            panic: None,
        },
        patches: Vec::new(),
        has_workspace_marker: false,
        lint_libraries: Vec::new(),
    }
}

#[test]
fn release_defaults_never_overwrite_explicit_settings() {
    let defaults = Profile::default_contract_release();

    let explicit = ManifestDoc {
        release_profile: Profile {
            opt_level: Some(OptLevel::Three),
            debug_info: None,
            codegen_units: None,
            lto: None,
            panic: None,
        },
        ..empty_doc()
    };
    let patched = explicit.with_profile_release_defaults(&defaults);
    // The explicit optimization level wins; the unset fields get defaults.
    assert_eq!(patched.release_profile.opt_level, Some(OptLevel::Three));
    assert_eq!(patched.release_profile.debug_info, Some(false));
    assert_eq!(patched.release_profile.codegen_units, Some(1));
    assert_eq!(patched.release_profile.lto, Some(Lto::Fat));
    assert_eq!(patched.release_profile.panic, Some(PanicStrategy::Abort));

    let unset = empty_doc().with_profile_release_defaults(&defaults);
    assert_eq!(unset.release_profile.opt_level, Some(OptLevel::Z));
}

#[test]
fn release_defaults_are_idempotent() {
    let defaults = Profile::default_contract_release();
    let once = empty_doc().with_profile_release_defaults(&defaults);
    let twice = once.clone().with_profile_release_defaults(&defaults);
    assert_eq!(once.release_profile, twice.release_profile);
}

#[test]
fn library_targets_become_the_entry_point_binary() {
    let doc = ManifestDoc {
        targets: vec![
            ManifestTarget { name: "flipper".to_string(), kind: TargetKind::Library },
            ManifestTarget { name: "helper".to_string(), kind: TargetKind::Binary },
        ],
        ..empty_doc()
    };
    let patched = doc.with_replaced_lib_to_bin();
    assert!(patched.targets.iter().all(|t| t.kind == TargetKind::Binary));
    assert_eq!(patched.targets[0].name, "flipper");
}

#[test]
fn workspace_dependency_merge_keeps_user_overrides() {
    let doc = ManifestDoc {
        patches: vec![PatchEntry { name: "ink".to_string(), path: "/user/ink".to_string() }],
        ..empty_doc()
    };
    let from_workspace = vec![
        PatchEntry { name: "ink".to_string(), path: "/workspace/ink".to_string() },
        PatchEntry { name: "scale".to_string(), path: "/workspace/scale".to_string() },
    ];
    let merged = doc.with_merged_workspace_dependencies(from_workspace);
    assert_eq!(merged.patches.len(), 2);
    assert_eq!(merged.patches[0].path, "/user/ink");
    assert_eq!(merged.patches[1].name, "scale");
}

#[test]
fn empty_workspace_marker_is_declared_once() {
    let doc = empty_doc().with_empty_workspace();
    assert!(doc.has_workspace_marker);
    assert!(doc.with_empty_workspace().has_workspace_marker);
}

#[test]
fn lint_library_is_injected_once() {
    let doc = empty_doc().with_dylint();
    assert_eq!(doc.lint_libraries, vec!["ink_linting".to_string()]);
    let again = doc.with_dylint();
    assert_eq!(again.lint_libraries, vec!["ink_linting".to_string()]);
}
