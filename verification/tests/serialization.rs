use contract_build::BuildArtifacts;
use contract_build::BuildMode;
use contract_build::BuildResult;
use contract_build::MetadataArtifacts;
use contract_build::OptimizationResult;
use contract_build::OutputType;
use contract_build::Verbosity;

fn sample_result() -> BuildResult {
    BuildResult {
        dest_wasm: Some(String::from("/path/to/contract.wasm")),
        metadata_result: Some(MetadataArtifacts {
            dest_metadata: String::from("/path/to/contract.json"),
            dest_bundle: String::from("/path/to/contract.contract"),
        }),
        target_directory: String::from("/path/to/target"),
        optimization_result: Some(OptimizationResult {
            original_size: 64_000,
            optimized_size: 32_000,
        }),
        build_mode: Default::default(),
        build_artifact: Default::default(),
        image: None,
        verbosity: Verbosity::Quiet,
        output_type: OutputType::Json,
    }
}

#[test]
fn build_result_seralization_sanity_check() {
    // given
    let raw_result = r#"{
  "dest_wasm": "/path/to/contract.wasm",
  "metadata_result": {
    "dest_metadata": "/path/to/contract.json",
    "dest_bundle": "/path/to/contract.contract"
  },
  "target_directory": "/path/to/target",
  "optimization_result": {
    "original_size": 64.0,
    "optimized_size": 32.0
  },
  "build_mode": "Debug",
  "build_artifact": "All",
  "verbosity": "Quiet",
  "image": null
}"#;

    let build_result = sample_result();

    // when
    let serialized_result = build_result.serialize_json();

    // then
    assert!(serialized_result.is_ok());
    assert_eq!(serialized_result.unwrap(), raw_result);
}

#[test]
fn serialized_form_is_wellformed_json() {
    let serialized = sample_result().serialize_json().unwrap();
    let value: serde_json::Value = serde_json::from_str(&serialized).unwrap();
    assert_eq!(value["dest_wasm"], "/path/to/contract.wasm");
    assert_eq!(value["optimization_result"]["original_size"], 64.0);
    assert_eq!(value["build_mode"], "Debug");
    assert!(value["image"].is_null());
}

#[test]
fn deserialized_result_is_field_for_field_equal() {
    let original = sample_result();
    let serialized = original.serialize_json().unwrap();
    let recovered = BuildResult::deserialize_json(&serialized).expect("deserialization must work");
    assert_eq!(recovered.dest_wasm, original.dest_wasm);
    assert_eq!(recovered.metadata_result, original.metadata_result);
    assert_eq!(recovered.target_directory, original.target_directory);
    assert_eq!(recovered.optimization_result, original.optimization_result);
    assert_eq!(recovered.build_mode, original.build_mode);
    assert_eq!(recovered.build_artifact, original.build_artifact);
    assert_eq!(recovered.verbosity, original.verbosity);
    assert_eq!(recovered.image, original.image);
    // The presentation-only field is not serialized and takes its default.
    assert_eq!(recovered.output_type, OutputType::HumanReadable);
}

#[test]
fn deserialization_round_trip_with_nones_and_escapes() {
    let original = BuildResult {
        dest_wasm: None,
        metadata_result: None,
        target_directory: String::from("/tmp/with \"quotes\"\\and\nnewline"),
        optimization_result: Some(OptimizationResult {
            original_size: 64_123,
            optimized_size: 64_050,
        }),
        build_mode: BuildMode::Release,
        build_artifact: BuildArtifacts::CodeOnly,
        verbosity: Verbosity::Verbose,
        image: Some(String::from("registry/image:tag")),
        output_type: OutputType::HumanReadable,
    };
    let serialized = original.serialize_json().unwrap();
    assert!(serialized.contains("\"original_size\": 64.123"));
    assert!(serialized.contains("\"optimized_size\": 64.05"));
    let recovered = BuildResult::deserialize_json(&serialized).expect("deserialization must work");
    assert_eq!(recovered.target_directory, original.target_directory);
    assert_eq!(recovered.optimization_result, original.optimization_result);
    assert_eq!(recovered.image, original.image);
    assert_eq!(recovered.dest_wasm, None);
    assert_eq!(recovered.metadata_result, None);
}

#[test]
fn deserialization_rejects_mangled_input() {
    let serialized = sample_result().serialize_json().unwrap();
    let mangled = serialized.replace("build_mode", "build_mood");
    assert!(BuildResult::deserialize_json(&mangled).is_none());
    assert!(BuildResult::deserialize_json("not json at all").is_none());
}

#[test]
fn display_lists_all_artifacts() {
    let result = BuildResult {
        verbosity: Verbosity::Default,
        output_type: OutputType::HumanReadable,
        ..sample_result()
    };
    let expected = "\nOriginal wasm size: 64.0K, Optimized: 32.0K\n\n\
        The contract was built in DEBUG mode.\n\n\
        Your contract artifacts are ready. You can find them in:\n\
        /path/to/target\n\n\
        \x20 - contract.contract (code + metadata)\n\
        \x20 - contract.wasm (the contract's code)\n\
        \x20 - contract.json (the contract's metadata)";
    assert_eq!(result.display(), expected);
}

#[test]
fn display_code_only_names_the_code_path() {
    let result = BuildResult {
        build_artifact: BuildArtifacts::CodeOnly,
        optimization_result: None,
        metadata_result: None,
        ..sample_result()
    };
    let expected = "\nThe contract was built in DEBUG mode.\n\n\
        Your contract's code is ready. You can find it here:\n\
        /path/to/contract.wasm";
    assert_eq!(result.display(), expected);
}
