use contract_build::orchestrator::check_buffer_size_decision;
use contract_build::orchestrator::clippy_cargo_args;
use contract_build::orchestrator::dylint_requirements_outcome;
use contract_build::orchestrator::dylint_verbosity;
use contract_build::orchestrator::lint_sequence;
use contract_build::orchestrator::next_step;
use contract_build::orchestrator::onchain_cargo_args;
use contract_build::orchestrator::onchain_cargo_envs;
use contract_build::orchestrator::should_regenerate_metadata;
use contract_build::orchestrator::should_skip_post_processing;
use contract_build::orchestrator::BuildAction;
use contract_build::orchestrator::BuildEvent;
use contract_build::orchestrator::BuildPhase;
use contract_build::orchestrator::CleanDecision;
use contract_build::orchestrator::LintTool;
use contract_build::BuildArtifacts;
use contract_build::BuildMode;
use contract_build::Features;
use contract_build::Fingerprint;
use contract_build::Network;
use contract_build::Target;
use contract_build::Verbosity;

#[test]
fn unchanged_build_reports_skipped_and_does_no_more_work() {
    let pre = Fingerprint::compute("/p/code.wasm".to_string(), b"bytes", 3, "wasm32".to_string());
    let post = Fingerprint::compute("/p/code.wasm".to_string(), b"bytes", 3, "wasm32".to_string());
    assert!(should_skip_post_processing(&Some(pre), &post, true));

    let (phase, actions) = next_step(
        BuildArtifacts::CodeOnly,
        Target::Wasm,
        BuildPhase::PostFingerprinting,
        BuildEvent::PostFingerprintOk { artifact_unchanged: true },
    );
    assert_eq!(phase, BuildPhase::Done { skipped: true });
    assert!(actions.contains(&BuildAction::ReportSkipped));
    assert!(!actions.contains(&BuildAction::OptimizeModule));
    assert!(!actions.contains(&BuildAction::PostProcessModule));
    assert!(!actions.contains(&BuildAction::GenerateMetadata));

    // With every artifact present and no new optimization, metadata stays.
    assert!(!should_regenerate_metadata(false, true, true));
    assert!(should_regenerate_metadata(true, true, true));
    assert!(should_regenerate_metadata(false, false, true));
}

#[test]
fn changed_fingerprint_forces_post_processing() {
    let pre = Fingerprint::compute("/p/code.wasm".to_string(), b"old", 3, "wasm32".to_string());
    let post = Fingerprint::compute("/p/code.wasm".to_string(), b"new", 3, "wasm32".to_string());
    assert!(!should_skip_post_processing(&Some(pre), &post, true));
    assert!(!should_skip_post_processing(&None, &post, true));

    let (phase, actions) = next_step(
        BuildArtifacts::All,
        Target::Wasm,
        BuildPhase::PostFingerprinting,
        BuildEvent::PostFingerprintOk { artifact_unchanged: false },
    );
    assert_eq!(phase, BuildPhase::PostProcessing);
    assert_eq!(
        actions,
        vec![
            BuildAction::PurgeStaleArtifacts,
            BuildAction::OptimizeModule,
            BuildAction::PostProcessModule,
        ]
    );

    let (_, riscv_actions) = next_step(
        BuildArtifacts::All,
        Target::RiscV,
        BuildPhase::PostFingerprinting,
        BuildEvent::PostFingerprintOk { artifact_unchanged: false },
    );
    assert_eq!(
        riscv_actions,
        vec![BuildAction::PurgeStaleArtifacts, BuildAction::LinkRegisterMachine]
    );
}

#[test]
fn failures_after_compile_clean_the_metadata_of_a_full_build() {
    let (phase, actions) = next_step(
        BuildArtifacts::All,
        Target::Wasm,
        BuildPhase::Compiling,
        BuildEvent::CompileFailed,
    );
    assert_eq!(phase, BuildPhase::Failed);
    assert_eq!(actions, vec![BuildAction::CleanMetadata, BuildAction::Abort]);

    let (_, check_only) = next_step(
        BuildArtifacts::CheckOnly,
        Target::Wasm,
        BuildPhase::Linting,
        BuildEvent::LintFailed,
    );
    assert_eq!(check_only, vec![BuildAction::Abort]);
}

#[test]
fn check_only_builds_lint_and_finish() {
    let (phase, actions) = next_step(
        BuildArtifacts::CheckOnly,
        Target::Wasm,
        BuildPhase::Start,
        BuildEvent::Started,
    );
    assert_eq!(phase, BuildPhase::Linting);
    assert_eq!(actions, vec![BuildAction::RunLint]);
    let (phase, actions) = next_step(
        BuildArtifacts::CheckOnly,
        Target::Wasm,
        BuildPhase::Linting,
        BuildEvent::LintOk,
    );
    assert_eq!(phase, BuildPhase::Done { skipped: false });
    assert_eq!(actions, vec![BuildAction::Finish]);
}

#[test]
fn code_only_builds_purge_stale_metadata_first() {
    let (_, actions) = next_step(
        BuildArtifacts::CodeOnly,
        Target::Wasm,
        BuildPhase::Start,
        BuildEvent::Started,
    );
    assert_eq!(actions, vec![BuildAction::CleanMetadata, BuildAction::RunLint]);
}

#[test]
fn compile_arguments_follow_mode_network_and_target() {
    let mut features = Features::new();
    features.push("std-fallback");
    let args = onchain_cargo_args("/tmp/target", &features, BuildMode::Debug, Network::Offline,
        Target::Wasm);
    assert_eq!(
        args,
        vec![
            "--target=wasm32-unknown-unknown".to_string(),
            "--no-default-features".to_string(),
            "--release".to_string(),
            "--target-dir=/tmp/target".to_string(),
            "--offline".to_string(),
            "--features=std-fallback".to_string(),
            "--features=ink/ink-debug".to_string(),
            "-Zbuild-std=core,alloc".to_string(),
        ]
    );

    let release_args = onchain_cargo_args("/tmp/target", &Features::new(), BuildMode::Release,
        Network::Online, Target::RiscV);
    assert_eq!(
        release_args,
        vec![
            "--target=riscv32em-unknown-none-elf".to_string(),
            "--no-default-features".to_string(),
            "--release".to_string(),
            "--target-dir=/tmp/target".to_string(),
            "-Zbuild-std-features=panic_immediate_abort".to_string(),
        ]
    );
}

#[test]
fn compile_environment_selects_the_backend_toolchain() {
    let wasm = onchain_cargo_envs(Target::Wasm, true, "");
    assert_eq!(wasm.len(), 2);
    assert_eq!(wasm[0].name, "RUSTC_BOOTSTRAP");
    assert_eq!(wasm[0].value, Some("1".to_string()));
    assert_eq!(wasm[1].name, "CARGO_ENCODED_RUSTFLAGS");

    let riscv = onchain_cargo_envs(Target::RiscV, false, "/tmp/layout.ld");
    assert_eq!(riscv.len(), 2);
    assert_eq!(riscv[0].name, "RUSTUP_TOOLCHAIN");
    assert_eq!(riscv[0].value, Some("rve-nightly".to_string()));
    assert!(riscv[1].value.as_ref().unwrap().ends_with("-Clink-arg=-T/tmp/layout.ld"));
}

#[test]
fn clippy_always_runs_first() {
    assert_eq!(lint_sequence(false), vec![LintTool::Clippy]);
    assert_eq!(lint_sequence(true), vec![LintTool::Clippy, LintTool::Dylint]);
    assert_eq!(
        clippy_cargo_args(),
        vec![
            "--all-features".to_string(),
            "--".to_string(),
            "-Dclippy::arithmetic_side_effects".to_string(),
        ]
    );
    assert_eq!(dylint_verbosity(Verbosity::Verbose), Verbosity::Default);
    assert_eq!(dylint_verbosity(Verbosity::Default), Verbosity::Quiet);
}

#[test]
fn missing_lint_binaries_are_named() {
    assert!(dylint_requirements_outcome(true, true).is_ok());
    let err = dylint_requirements_outcome(false, true).expect_err("requirement must fail");
    assert_eq!(
        err.message(),
        "cargo-dylint was not found!\nMake sure it is installed and the binary is in your PATH environment.\n\nYou can install it by executing `cargo install cargo-dylint`."
    );
    let err = dylint_requirements_outcome(true, false).expect_err("requirement must fail");
    assert_eq!(
        err.message(),
        "dylint-link was not found!\nMake sure it is installed and the binary is in your PATH environment.\n\nYou can install it by executing `cargo install dylint-link`."
    );
}

#[test]
fn buffer_size_override_decisions() {
    assert_eq!(
        check_buffer_size_decision(None, None).unwrap(),
        CleanDecision::NoBufferOverride
    );
    assert_eq!(
        check_buffer_size_decision(Some("16384"), Some(16384)).unwrap(),
        CleanDecision::BufferSizeAlreadySpecified
    );
    assert_eq!(
        check_buffer_size_decision(Some("32768"), Some(16384)).unwrap(),
        CleanDecision::RebuildForChangedBufferSize
    );
    assert_eq!(
        check_buffer_size_decision(Some("16384"), None).unwrap(),
        CleanDecision::RebuildForUnreadableMetadata
    );
    let err = check_buffer_size_decision(Some("lots"), Some(16384)).expect_err(
        "a non-integer override must fail",
    );
    assert_eq!(err.message(), "`INK_STATIC_BUFFER_SIZE` must have an integer value.");
}

#[test]
fn decimal_parsing_and_formatting() {
    assert_eq!(contract_build::u64_to_string(0), "0");
    assert_eq!(contract_build::u64_to_string(16384), "16384");
    assert_eq!(contract_build::strutil::parse_u64("+42"), Some(42));
    assert_eq!(contract_build::strutil::parse_u64("18446744073709551615"), Some(u64::MAX));
    assert_eq!(contract_build::strutil::parse_u64("18446744073709551616"), None);
    assert_eq!(contract_build::strutil::parse_u64(""), None);
    assert_eq!(contract_build::strutil::parse_u64("12a"), None);
}
