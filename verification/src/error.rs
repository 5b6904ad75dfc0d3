//! The error taxonomy of the build pipeline: configuration errors,
//! binary-structure errors, compile-time errors and toolchain-availability
//! errors, each with a human-readable message.

use vstd::prelude::*;
use crate::strutil::spec_u64_digits;
use crate::strutil::u64_to_string;

verus! {

/// A fatal error of one build invocation.
#[derive(Debug, Clone, PartialEq, Eq)]
pub enum Error {
    /// The compiled module imports no linear memory.
    MemoryImportMissing,
    /// The compiled module declares a maximum page count above the ceiling.
    MemoryLimitExceeded { requested_pages: u32, allowed_pages: u32 },
    /// The compiled module imports a host symbol outside the recognized set.
    UnexpectedImport { module: String, field: String },
    /// Debug builds need a contract language version that knows the debug feature.
    DebugModeUnsupported,
    /// The compiler diagnostic signature for a missing entry-point attribute matched.
    MissingNoMainAttribute,
    /// The sidecar file recording the last-used target could not be read.
    SidecarUnreadable { path: String },
    /// The artifact expected from the compiler was not produced.
    ArtifactMissing { path: String },
    /// The register-machine linker rejected the compiled object.
    LinkerFailure { message: String },
    /// The environment-provided buffer size is not an unsigned integer.
    BufferSizeNotInteger,
    /// A required companion binary was not found on the system.
    ToolchainMissing { binary: String },
}

/// The mathematical model of an [`Error`]: the same variants over character
/// sequences.
pub enum SpecError {
    MemoryImportMissing,
    MemoryLimitExceeded { requested_pages: u32, allowed_pages: u32 },
    UnexpectedImport { module: Seq<char>, field: Seq<char> },
    DebugModeUnsupported,
    MissingNoMainAttribute,
    SidecarUnreadable { path: Seq<char> },
    ArtifactMissing { path: Seq<char> },
    LinkerFailure { message: Seq<char> },
    BufferSizeNotInteger,
    ToolchainMissing { binary: Seq<char> },
}

impl View for Error {
    type V = SpecError;

    open spec fn view(&self) -> SpecError {
        match self {
            Error::MemoryImportMissing => SpecError::MemoryImportMissing,
            Error::MemoryLimitExceeded { requested_pages, allowed_pages } => {
                SpecError::MemoryLimitExceeded {
                    requested_pages: *requested_pages,
                    allowed_pages: *allowed_pages,
                }
            },
            Error::UnexpectedImport { module, field } => {
                SpecError::UnexpectedImport { module: module@, field: field@ }
            },
            Error::DebugModeUnsupported => SpecError::DebugModeUnsupported,
            Error::MissingNoMainAttribute => SpecError::MissingNoMainAttribute,
            Error::SidecarUnreadable { path } => SpecError::SidecarUnreadable { path: path@ },
            Error::ArtifactMissing { path } => SpecError::ArtifactMissing { path: path@ },
            Error::LinkerFailure { message } => SpecError::LinkerFailure { message: message@ },
            Error::BufferSizeNotInteger => SpecError::BufferSizeNotInteger,
            Error::ToolchainMissing { binary } => SpecError::ToolchainMissing { binary: binary@ },
        }
    }
}

/// The mathematical model of a fallible outcome: the view of whichever side
/// the result holds.
pub open spec fn spec_result<T: View>(r: Result<T, Error>) -> Result<T::V, SpecError> {
    match r {
        Ok(v) => Ok(v@),
        Err(e) => Err(e@),
    }
}

/// The message text of each error, as character sequence.
pub open spec fn spec_message(e: Error) -> Seq<char> {
    match e {
        Error::MemoryImportMissing => {
            "Memory import is not found. Is --import-memory specified in the linker args"@
        },
        Error::MemoryLimitExceeded { requested_pages, allowed_pages } => {
            "The wasm module requires "@ + spec_u64_digits(requested_pages as int)
                + " pages. The maximum allowed number of pages is "@
                + spec_u64_digits(allowed_pages as int)
        },
        Error::UnexpectedImport { module, field } => {
            "An unexpected import was found: "@ + module@ + "."@ + field@
        },
        Error::DebugModeUnsupported => {
            "Building the contract in debug mode requires an ink! version newer than `3.0.0-rc3`!"@
        },
        Error::MissingNoMainAttribute => "missing `no_main` attribute"@,
        Error::SidecarUnreadable { path } => {
            "Cannot read "@ + path@ + ".\n A clean build will fix this."@
        },
        Error::ArtifactMissing { path } => {
            "Expected '"@ + path@ + "' to be generated by build"@
        },
        Error::LinkerFailure { message } => {
            "Failed to link polkavm program: "@ + message@
        },
        Error::BufferSizeNotInteger => {
            "`INK_STATIC_BUFFER_SIZE` must have an integer value."@
        },
        Error::ToolchainMissing { binary } => {
            binary@
                + " was not found!\nMake sure it is installed and the binary is in your PATH environment.\n\nYou can install it by executing `cargo install "@
                + binary@ + "`."@
        },
    }
}

impl Error {
    /// The human-readable message of this error.
    pub fn message(&self) -> (s: String)
        ensures
            s@ == spec_message(*self),
    {
        match self {
            Error::MemoryImportMissing => {
                let s: String =
                    "Memory import is not found. Is --import-memory specified in the linker args".to_owned();
                s
            },
            Error::MemoryLimitExceeded { requested_pages, allowed_pages } => {
                let mut s: String = "The wasm module requires ".to_owned();
                let req = u64_to_string(*requested_pages as u64);
                s.append(req.as_str());
                s.append(" pages. The maximum allowed number of pages is ");
                let allowed = u64_to_string(*allowed_pages as u64);
                s.append(allowed.as_str());
                assert(s@ =~= spec_message(*self));
                s
            },
            Error::UnexpectedImport { module, field } => {
                let mut s: String = "An unexpected import was found: ".to_owned();
                s.append(module.as_str());
                s.append(".");
                s.append(field.as_str());
                assert(s@ =~= spec_message(*self));
                s
            },
            Error::DebugModeUnsupported => {
                let s: String =
                    "Building the contract in debug mode requires an ink! version newer than `3.0.0-rc3`!".to_owned();
                s
            },
            Error::MissingNoMainAttribute => {
                let s: String = "missing `no_main` attribute".to_owned();
                s
            },
            Error::SidecarUnreadable { path } => {
                let mut s: String = "Cannot read ".to_owned();
                s.append(path.as_str());
                s.append(".\n A clean build will fix this.");
                assert(s@ =~= spec_message(*self));
                s
            },
            Error::ArtifactMissing { path } => {
                let mut s: String = "Expected '".to_owned();
                s.append(path.as_str());
                s.append("' to be generated by build");
                assert(s@ =~= spec_message(*self));
                s
            },
            Error::LinkerFailure { message } => {
                let mut s: String = "Failed to link polkavm program: ".to_owned();
                s.append(message.as_str());
                assert(s@ =~= spec_message(*self));
                s
            },
            Error::BufferSizeNotInteger => {
                let s: String = "`INK_STATIC_BUFFER_SIZE` must have an integer value.".to_owned();
                s
            },
            Error::ToolchainMissing { binary } => {
                let mut s: String = binary.clone();
                s.append(
                    " was not found!\nMake sure it is installed and the binary is in your PATH environment.\n\nYou can install it by executing `cargo install ",
                );
                s.append(binary.as_str());
                s.append("`.");
                assert(s@ =~= spec_message(*self));
                s
            },
        }
    }
}

} // verus!
