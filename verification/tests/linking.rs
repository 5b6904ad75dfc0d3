use contract_build::linker::link_register_machine_program;
use contract_build::Target;

#[test]
fn backend_dispatch_data_is_fixed() {
    assert_eq!(Target::Wasm.llvm_target(), "wasm32-unknown-unknown");
    assert_eq!(Target::RiscV.llvm_target(), "riscv32em-unknown-none-elf");
    assert_eq!(Target::Wasm.dest_extension(), "wasm");
    assert_eq!(Target::RiscV.dest_extension(), "polkavm");
    assert_eq!(Target::all(), vec![Target::Wasm, Target::RiscV]);
    assert!(Target::Wasm.rustflags().contains("--import-memory"));
}

#[test]
fn linker_failure_carries_the_linker_diagnostic() {
    let mut config = polkavm_linker::Config::default();
    config.set_strip(true);
    let outcome = polkavm_linker::program_from_elf(
        config,
        polkavm_linker::TargetInstructionSet::ReviveV1,
        b"this is not an object file",
    )
    .map_err(|e| e.to_string());
    let diagnostic = outcome.clone().expect_err("linking must fail on garbage");
    assert!(!diagnostic.is_empty());
    let err = link_register_machine_program(outcome).expect_err("the failure must map to an error");
    assert_eq!(
        err.message(),
        format!("Failed to link polkavm program: {diagnostic}")
    );
}

#[test]
fn linked_program_bytes_pass_through() {
    let linked = link_register_machine_program(Ok(vec![1, 2, 3])).expect("bytes must pass through");
    assert_eq!(linked, vec![1, 2, 3]);
}
