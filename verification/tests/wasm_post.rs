use contract_build::wasm::CustomSection;
use contract_build::wasm::ExportEntry;
use contract_build::wasm::ExportKind;
use contract_build::wasm::ImportEntry;
use contract_build::wasm::ImportKind;
use contract_build::wasm::MemoryLimits;
use contract_build::wasm::OpaqueSection;
use contract_build::wasm::Section;
use contract_build::wasm::ensure_maximum_memory_pages;
use contract_build::wasm::strip_custom_sections;
use contract_build::wasm::strip_exports;
use contract_build::wasm::validate_import_section;
use contract_build::CompiledModule;
use contract_build::post_process_wasm;

fn export(field: &str, kind: ExportKind) -> ExportEntry {
    ExportEntry { field: field.to_string(), kind }
}

fn memory_import(maximum: Option<u32>) -> ImportEntry {
    ImportEntry {
        module: "env".to_string(),
        field: "memory".to_string(),
        kind: ImportKind::Memory(MemoryLimits { initial: 2, maximum }),
    }
}

fn function_import(module: &str, field: &str) -> ImportEntry {
    ImportEntry {
        module: module.to_string(),
        field: field.to_string(),
        kind: ImportKind::Function(0),
    }
}

#[test]
fn export_pruning_keeps_exactly_call_and_deploy() {
    let module = CompiledModule {
        sections: vec![Section::Export(vec![
            export("call", ExportKind::Function(0)),
            export("deploy", ExportKind::Function(1)),
            export("memory", ExportKind::Memory(0)),
            export("extra_fn", ExportKind::Function(2)),
        ])],
    };
    let stripped = strip_exports(module);
    match &stripped.sections[0] {
        Section::Export(entries) => {
            let names: Vec<&str> = entries.iter().map(|e| e.field.as_str()).collect();
            assert_eq!(names, vec!["call", "deploy"]);
        }
        _ => panic!("export section expected"),
    }
}

#[test]
fn export_pruning_drops_non_function_call_export() {
    let module = CompiledModule {
        sections: vec![Section::Export(vec![
            export("call", ExportKind::Global(0)),
            export("deploy", ExportKind::Function(1)),
        ])],
    };
    let stripped = strip_exports(module);
    match &stripped.sections[0] {
        Section::Export(entries) => {
            assert_eq!(entries.len(), 1);
            assert_eq!(entries[0].field, "deploy");
        }
        _ => panic!("export section expected"),
    }
}

#[test]
fn memory_enforcement_sets_missing_maximum() {
    let module = CompiledModule { sections: vec![Section::Import(vec![memory_import(None)])] };
    let enforced = ensure_maximum_memory_pages(module, 16).expect("enforcement must succeed");
    match &enforced.sections[0] {
        Section::Import(entries) => match &entries[0].kind {
            ImportKind::Memory(limits) => {
                assert_eq!(limits.initial, 2);
                assert_eq!(limits.maximum, Some(16));
            }
            _ => panic!("memory import expected"),
        },
        _ => panic!("import section expected"),
    }
}

#[test]
fn memory_enforcement_keeps_declared_maximum_within_ceiling() {
    let module = CompiledModule { sections: vec![Section::Import(vec![memory_import(Some(8))])] };
    let enforced = ensure_maximum_memory_pages(module, 16).expect("enforcement must succeed");
    match &enforced.sections[0] {
        Section::Import(entries) => match &entries[0].kind {
            ImportKind::Memory(limits) => assert_eq!(limits.maximum, Some(8)),
            _ => panic!("memory import expected"),
        },
        _ => panic!("import section expected"),
    }
}

#[test]
fn memory_enforcement_rejects_oversized_maximum_with_both_values() {
    let module = CompiledModule { sections: vec![Section::Import(vec![memory_import(Some(20))])] };
    let err = ensure_maximum_memory_pages(module, 16).expect_err("enforcement must fail");
    assert_eq!(
        err.message(),
        "The wasm module requires 20 pages. The maximum allowed number of pages is 16"
    );
}

#[test]
fn memory_enforcement_rejects_missing_import_naming_the_linker_option() {
    let module = CompiledModule {
        sections: vec![Section::Import(vec![function_import("env", "gas_left")])],
    };
    let err = ensure_maximum_memory_pages(module, 16).expect_err("enforcement must fail");
    assert_eq!(
        err.message(),
        "Memory import is not found. Is --import-memory specified in the linker args"
    );
}

#[test]
fn custom_section_stripping_keeps_only_the_name_section() {
    let module = CompiledModule {
        sections: vec![
            Section::Custom(CustomSection { name: "name".to_string(), payload: vec![1] }),
            Section::Custom(CustomSection { name: "producers".to_string(), payload: vec![2] }),
            Section::Reloc(vec![3]),
            Section::Other(OpaqueSection { id: 10, body: vec![4] }),
        ],
    };
    let stripped = strip_custom_sections(module);
    assert_eq!(stripped.sections.len(), 2);
    match &stripped.sections[0] {
        Section::Custom(c) => assert_eq!(c.name, "name"),
        _ => panic!("name section expected"),
    }
    match &stripped.sections[1] {
        Section::Other(o) => assert_eq!(o.id, 10),
        _ => panic!("opaque section expected"),
    }
}

#[test]
fn import_validation_rejects_unexpected_imports() {
    let good = CompiledModule {
        sections: vec![Section::Import(vec![
            memory_import(Some(4)),
            function_import("seal0", "gas_left"),
            function_import("env", "debug_message"),
        ])],
    };
    assert!(validate_import_section(&good).is_ok());

    let bad = CompiledModule {
        sections: vec![Section::Import(vec![function_import("wasi_snapshot_preview1", "fd_write")])],
    };
    let err = validate_import_section(&bad).expect_err("validation must fail");
    assert_eq!(err.message(), "An unexpected import was found: wasi_snapshot_preview1.fd_write");
}

#[test]
fn post_processing_runs_all_steps_in_order() {
    let module = CompiledModule {
        sections: vec![
            Section::Import(vec![memory_import(None), function_import("seal1", "transfer")]),
            Section::Export(vec![
                export("call", ExportKind::Function(0)),
                export("extra_fn", ExportKind::Function(2)),
            ]),
            Section::Reloc(vec![9]),
            Section::Custom(CustomSection { name: "producers".to_string(), payload: vec![5] }),
        ],
    };
    let processed = post_process_wasm(module, 16, false).expect("post-processing must succeed");
    assert_eq!(processed.sections.len(), 2);
    match &processed.sections[0] {
        Section::Import(entries) => match &entries[0].kind {
            ImportKind::Memory(limits) => assert_eq!(limits.maximum, Some(16)),
            _ => panic!("memory import expected"),
        },
        _ => panic!("import section expected"),
    }
    match &processed.sections[1] {
        Section::Export(entries) => {
            assert_eq!(entries.len(), 1);
            assert_eq!(entries[0].field, "call");
        }
        _ => panic!("export section expected"),
    }
}

#[test]
fn post_processing_can_skip_validation() {
    let module = CompiledModule {
        sections: vec![Section::Import(vec![
            memory_import(None),
            function_import("wasi_snapshot_preview1", "fd_write"),
        ])],
    };
    let rejected = post_process_wasm(module.clone(), 16, false);
    assert!(rejected.is_err());
    let accepted = post_process_wasm(module, 16, true);
    assert!(accepted.is_ok());
}
