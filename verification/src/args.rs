//! The immutable input bundle of one build invocation — mode, features,
//! network policy, artifact selection, verbosity, target backend — and the
//! target-specific compile dispatch: each backend owns its target triple,
//! its encoded codegen flags and its artifact file extension.

use vstd::prelude::*;
use crate::strutil::views_of;

verus! {

/// How much the build prints.
#[derive(Debug, Clone, Copy, PartialEq, Eq, Structural)]
pub enum Verbosity {
    Quiet,
    Default,
    Verbose,
}

impl Default for Verbosity {
    fn default() -> (r: Self)
        ensures
            r == Verbosity::Default,
    {
        Verbosity::Default
    }
}

/// The mode to build the contract in.
#[derive(Debug, Clone, Copy, PartialEq, Eq, Structural)]
pub enum BuildMode {
    Debug,
    Release,
    Verifiable,
}

impl Default for BuildMode {
    fn default() -> (r: Self)
        ensures
            r == BuildMode::Debug,
    {
        BuildMode::Debug
    }
}

/// Which build artifacts are generated.
#[derive(Debug, Clone, Copy, PartialEq, Eq, Structural)]
pub enum BuildArtifacts {
    /// Lint only, build nothing.
    CheckOnly,
    /// Compile and post-process the code; metadata is purged, not rebuilt.
    CodeOnly,
    /// Compile, post-process and regenerate metadata.
    All,
}

impl Default for BuildArtifacts {
    fn default() -> (r: Self)
        ensures
            r == BuildArtifacts::All,
    {
        BuildArtifacts::All
    }
}

/// Network policy of the build.
#[derive(Debug, Clone, Copy, PartialEq, Eq, Structural)]
pub enum Network {
    Online,
    Offline,
}

impl Default for Network {
    fn default() -> (r: Self)
        ensures
            r == Network::Online,
    {
        Network::Online
    }
}

/// The formatting of the build output.
#[derive(Debug, Clone, Copy, PartialEq, Eq, Structural)]
pub enum OutputType {
    HumanReadable,
    Json,
}

impl Default for OutputType {
    fn default() -> (r: Self)
        ensures
            r == OutputType::HumanReadable,
    {
        OutputType::HumanReadable
    }
}

/// The target backend: a size-minimized binary module, or a linked
/// register-machine program.
#[derive(Debug, Clone, Copy, PartialEq, Eq, Structural)]
pub enum Target {
    Wasm,
    RiscV,
}

impl Default for Target {
    fn default() -> (r: Self)
        ensures
            r == Target::Wasm,
    {
        Target::Wasm
    }
}

impl Target {
    /// The compiler target triple of this backend.
    pub fn llvm_target(&self) -> (r: &'static str)
        ensures
            r@ == spec_llvm_target(*self),
    {
        match self {
            Target::Wasm => "wasm32-unknown-unknown",
            Target::RiscV => "riscv32em-unknown-none-elf",
        }
    }

    /// The artifact file extension of this backend, used to purge stale
    /// outputs of a previously-used, now-abandoned target.
    pub fn dest_extension(&self) -> (r: &'static str)
        ensures
            r@ == spec_dest_extension(*self),
    {
        match self {
            Target::Wasm => "wasm",
            Target::RiscV => "polkavm",
        }
    }

    /// The additional codegen flags of this backend, as the encoded blob
    /// the build tool expects (entries separated by the unit separator).
    pub fn rustflags(&self) -> (r: &'static str)
        ensures
            r@ == spec_rustflags(*self),
    {
        match self {
            Target::Wasm => {
                "-Clink-arg=-zstack-size=65536\u{1f}-Clink-arg=--import-memory\u{1f}-Clinker-plugin-lto\u{1f}-Ctarget-cpu=mvp"
            },
            Target::RiscV => "-Crelocation-model=pie\u{1f}-Clink-arg=--emit-relocs",
        }
    }

    /// Every supported target backend, in a fixed order.
    pub fn all() -> (r: Vec<Target>)
        ensures
            views_of(r@) == seq![Target::Wasm, Target::RiscV],
    {
        let mut v: Vec<Target> = Vec::new();
        v.push(Target::Wasm);
        v.push(Target::RiscV);
        proof {
            assert(views_of(v@) =~= seq![Target::Wasm, Target::RiscV]);
        }
        v
    }
}

impl View for Target {
    type V = Target;

    open spec fn view(&self) -> Target {
        *self
    }
}

/// The target triple of each backend.
pub open spec fn spec_llvm_target(t: Target) -> Seq<char> {
    match t {
        Target::Wasm => "wasm32-unknown-unknown"@,
        Target::RiscV => "riscv32em-unknown-none-elf"@,
    }
}

/// The artifact extension of each backend.
pub open spec fn spec_dest_extension(t: Target) -> Seq<char> {
    match t {
        Target::Wasm => "wasm"@,
        Target::RiscV => "polkavm"@,
    }
}

/// The encoded codegen flag blob of each backend.
pub open spec fn spec_rustflags(t: Target) -> Seq<char> {
    match t {
        Target::Wasm => {
            "-Clink-arg=-zstack-size=65536\u{1f}-Clink-arg=--import-memory\u{1f}-Clinker-plugin-lto\u{1f}-Ctarget-cpu=mvp"@
        },
        Target::RiscV => "-Crelocation-model=pie\u{1f}-Clink-arg=--emit-relocs"@,
    }
}

/// The feature list passed to the build.
#[derive(Debug, Clone, PartialEq, Eq, Default)]
pub struct Features {
    pub features: Vec<String>,
}

impl View for Features {
    type V = Seq<Seq<char>>;

    open spec fn view(&self) -> Seq<Seq<char>> {
        views_of(self.features@)
    }
}

impl Features {
    /// A feature list with nothing enabled.
    pub fn new() -> (r: Features)
        ensures
            r@ == Seq::<Seq<char>>::empty(),
    {
        let r = Features { features: Vec::new() };
        proof {
            assert(r@ =~= Seq::<Seq<char>>::empty());
        }
        r
    }

    /// Enables one feature.
    pub fn push(&mut self, feature: &str)
        ensures
            final(self)@ == old(self)@.push(feature@),
    {
        self.features.push(feature.to_owned());
        proof {
            assert(self@ =~= old(self)@.push(feature@));
        }
    }
}

/// The unstable flags of the build.
#[derive(Debug, Clone, Copy, PartialEq, Eq, Structural, Default)]
pub struct UnstableFlags {
    /// Build the original configuration document verbatim, trading output
    /// size for reduced patching.
    pub original_manifest: bool,
}

} // verus!
