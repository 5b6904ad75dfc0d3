//! Verified core of a smart-contract build pipeline.
//!
//! The crate turns a source package into a deployable binary artifact:
//! it detects stale compilation output by content fingerprint, patches an
//! isolated copy of the build configuration for minimal-size output,
//! dispatches to one of two target backends, post-processes the compiled
//! module (export pruning, memory-limit enforcement, section stripping,
//! import validation), and scans the compiler subprocess output for one
//! known diagnostic signature.

pub mod args;
pub mod buildresult;
pub mod error;
pub mod fingerprint;
pub mod linker;
pub mod manifest;
pub mod monitor;
pub mod orchestrator;
pub mod strutil;
pub mod version;
pub mod wasm;

pub use args::BuildArtifacts;
pub use args::BuildMode;
pub use args::Features;
pub use args::Network;
pub use args::OutputType;
pub use args::Target;
pub use args::UnstableFlags;
pub use args::Verbosity;
pub use buildresult::BuildInfo;
pub use buildresult::BuildResult;
pub use buildresult::ExecuteArgs;
pub use buildresult::ImageVariant;
pub use buildresult::MetadataArtifacts;
pub use buildresult::OptimizationPasses;
pub use buildresult::OptimizationResult;
pub use buildresult::WasmOptSettings;
pub use buildresult::DEFAULT_MAX_MEMORY_PAGES;
pub use error::Error;
pub use fingerprint::code_hash;
pub use fingerprint::Fingerprint;
pub use manifest::Lto;
pub use manifest::ManifestDoc;
pub use manifest::OptLevel;
pub use manifest::PanicStrategy;
pub use manifest::Profile;
pub use monitor::ScanState;
pub use strutil::u64_to_string;
pub use version::assert_debug_mode_supported;
pub use version::Version;
pub use wasm::post_process_wasm;
pub use wasm::CompiledModule;
