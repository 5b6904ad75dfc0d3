//! The build orchestration: the compiler invocation each backend gets, the
//! lint ordering, the environment-driven clean decision, the
//! skip-or-process decision, and the linear pipeline of stages — lint,
//! fingerprint, patch-and-compile, fingerprint, skip-or-post-process,
//! persist — as one step function from phase and event to the next phase
//! and the actions owed, with one coordinator deciding continue-or-abort.

use vstd::prelude::*;
use vstd::std_specs::cmp::PartialEqSpec;
use crate::args::BuildArtifacts;
use crate::args::BuildMode;
use crate::args::Features;
use crate::args::Network;
use crate::args::Target;
use crate::args::Verbosity;
use crate::args::spec_llvm_target;
use crate::args::spec_rustflags;
use crate::buildresult::OptimizationPasses;
use crate::error::Error;
use crate::error::SpecError;
use crate::fingerprint::Fingerprint;
use crate::fingerprint::SpecFingerprint;
use crate::fingerprint::blake2b256_of;
use crate::strutil::parse_u64;
use crate::strutil::spec_parse_u64;
use crate::strutil::views_of;

verus! {

// ---------------------------------------------------------------------------
// The compiler invocation
// ---------------------------------------------------------------------------

/// One environment override handed to the external compiler: set the
/// variable to the value, or unset it.
#[derive(Debug, Clone, PartialEq, Eq)]
pub struct EnvVar {
    pub name: String,
    pub value: Option<String>,
}

impl View for EnvVar {
    type V = (Seq<char>, Option<Seq<char>>);

    open spec fn view(&self) -> (Seq<char>, Option<Seq<char>>) {
        (
            self.name@,
            match self.value {
                Some(v) => Some(v@),
                None => None,
            },
        )
    }
}

/// The features the compiler is given: the caller's, plus the debug
/// feature of the contract language in a debug build.
pub open spec fn spec_effective_features(features: Seq<Seq<char>>, build_mode: BuildMode) -> Seq<
    Seq<char>,
> {
    if build_mode is Debug {
        features.push("ink/ink-debug"@)
    } else {
        features
    }
}

/// One feature flag argument.
pub open spec fn spec_feature_arg(f: Seq<char>) -> Seq<char> {
    "--features="@ + f
}

/// The feature flag arguments, in order.
pub open spec fn spec_feature_args(fs: Seq<Seq<char>>) -> Seq<Seq<char>> {
    fs.map_values(|f: Seq<char>| spec_feature_arg(f))
}

/// The whole argument list of the compile invocation for the on-chain
/// target: target triple, no default features, release, the target
/// directory, the network policy, the standard-library minimization unless
/// a debug build, the features, and the standard-library rebuild for the
/// module target.
pub open spec fn spec_onchain_args(
    target_dir: Seq<char>,
    features: Seq<Seq<char>>,
    build_mode: BuildMode,
    network: Network,
    target: Target,
) -> Seq<Seq<char>> {
    seq![
        "--target="@ + spec_llvm_target(target),
        "--no-default-features"@,
        "--release"@,
        "--target-dir="@ + target_dir,
    ] + (if network is Offline {
        seq!["--offline"@]
    } else {
        Seq::<Seq<char>>::empty()
    }) + (if build_mode is Debug {
        Seq::<Seq<char>>::empty()
    } else {
        seq!["-Zbuild-std-features=panic_immediate_abort"@]
    }) + spec_feature_args(spec_effective_features(features, build_mode)) + (if target is Wasm {
        seq!["-Zbuild-std=core,alloc"@]
    } else {
        Seq::<Seq<char>>::empty()
    })
}

/// The environment overrides of the compile invocation: nightly features
/// allowed on a stable toolchain, and each backend's encoded codegen
/// flags; the register-machine backend additionally selects its toolchain
/// and hands the linker its memory-layout script.
pub open spec fn spec_onchain_envs(
    target: Target,
    stable_channel: bool,
    linker_script: Seq<char>,
) -> Seq<(Seq<char>, Option<Seq<char>>)> {
    (if stable_channel {
        seq![("RUSTC_BOOTSTRAP"@, Some("1"@))]
    } else {
        Seq::<(Seq<char>, Option<Seq<char>>)>::empty()
    }) + (match target {
        Target::Wasm => seq![("CARGO_ENCODED_RUSTFLAGS"@, Some(spec_rustflags(Target::Wasm)))],
        Target::RiscV => seq![
            ("RUSTUP_TOOLCHAIN"@, Some("rve-nightly"@)),
            (
                "CARGO_ENCODED_RUSTFLAGS"@,
                Some(spec_rustflags(Target::RiscV) + "\u{1f}-Clink-arg=-T"@ + linker_script),
            ),
        ],
    })
}

/// Builds one feature flag argument.
fn feature_arg(f: &str) -> (r: String)
    ensures
        r@ == spec_feature_arg(f@),
{
    let mut s: String = "--features=".to_owned();
    s.append(f);
    s
}

/// Builds the argument list of the compile invocation for the on-chain
/// target.
#[verifier::loop_isolation(false)]
pub fn onchain_cargo_args(
    target_dir: &str,
    features: &Features,
    build_mode: BuildMode,
    network: Network,
    target: Target,
) -> (r: Vec<String>)
    ensures
        views_of(r@) == spec_onchain_args(target_dir@, features@, build_mode, network, target),
{
    let ghost expected = spec_onchain_args(target_dir@, features@, build_mode, network, target);
    let mut args: Vec<String> = Vec::new();
    let mut target_arg: String = "--target=".to_owned();
    target_arg.append(target.llvm_target());
    args.push(target_arg);
    args.push("--no-default-features".to_owned());
    args.push("--release".to_owned());
    let mut dir_arg: String = "--target-dir=".to_owned();
    dir_arg.append(target_dir);
    args.push(dir_arg);
    match network {
        Network::Offline => args.push("--offline".to_owned()),
        Network::Online => {},
    }
    match build_mode {
        BuildMode::Debug => {},
        _ => args.push("-Zbuild-std-features=panic_immediate_abort".to_owned()),
    }
    let ghost head = views_of(args@);
    let ghost eff = spec_effective_features(features@, build_mode);
    let n = features.features.len();
    let mut i: usize = 0;
    while i < n
        invariant
            0 <= i <= n,
            n == features.features@.len(),
            views_of(args@) == head + spec_feature_args(features@.take(i as int)),
        decreases n - i,
    {
        let arg = feature_arg(features.features[i].as_str());
        let ghost old_args = args@;
        args.push(arg);
        proof {
            assert forall|k: int| 0 <= k < args@.len() implies views_of(args@)[k] == (head
                + spec_feature_args(features@.take(i + 1)))[k] by {
                assert(views_of(args@)[k] == args@[k]@);
                if k < old_args.len() {
                    assert(args@[k] == old_args[k]);
                    assert(views_of(old_args)[k] == old_args[k]@);
                } else {
                    assert(args@[k] == arg);
                    assert(features@.take(i + 1)[k - head.len()] == features@[i as int]);
                }
            }
            assert(views_of(args@) =~= head + spec_feature_args(features@.take(i + 1)));
        }
        i = i + 1;
    }
    proof {
        assert(features@.take(n as int) =~= features@);
    }
    match build_mode {
        BuildMode::Debug => {
            let arg = feature_arg("ink/ink-debug");
            let ghost old_args = args@;
            args.push(arg);
            proof {
                assert forall|k: int| 0 <= k < args@.len() implies views_of(args@)[k] == (head
                    + spec_feature_args(eff))[k] by {
                    assert(views_of(args@)[k] == args@[k]@);
                    if k < old_args.len() {
                        assert(args@[k] == old_args[k]);
                        assert(views_of(old_args)[k] == old_args[k]@);
                        if k >= head.len() {
                            assert(spec_feature_args(features@)[k - head.len()] == spec_feature_arg(
                                features@[k - head.len()],
                            ));
                            assert(eff[k - head.len()] == features@[k - head.len()]);
                        }
                    } else {
                        assert(args@[k] == arg);
                        assert(eff[k - head.len()] == "ink/ink-debug"@);
                    }
                }
                assert(views_of(args@) =~= head + spec_feature_args(eff));
            }
        },
        _ => {
            proof {
                assert(eff =~= features@);
            }
        },
    }
    let ghost pre_tail = args@;
    match target {
        Target::Wasm => args.push("-Zbuild-std=core,alloc".to_owned()),
        Target::RiscV => {},
    }
    proof {
        if target is Wasm {
            assert forall|k: int| 0 <= k < args@.len() implies views_of(args@)[k] == (views_of(
                pre_tail,
            ) + seq!["-Zbuild-std=core,alloc"@])[k] by {
                assert(views_of(args@)[k] == args@[k]@);
                if k < pre_tail.len() {
                    assert(args@[k] == pre_tail[k]);
                    assert(views_of(pre_tail)[k] == pre_tail[k]@);
                }
            }
            assert(views_of(args@) =~= views_of(pre_tail) + seq!["-Zbuild-std=core,alloc"@]);
        }
        assert(views_of(args@) =~= expected);
    }
    args
}

/// Builds the environment overrides of the compile invocation.
pub fn onchain_cargo_envs(target: Target, stable_channel: bool, linker_script: &str) -> (r: Vec<
    EnvVar,
>)
    ensures
        views_of(r@) == spec_onchain_envs(target, stable_channel, linker_script@),
{
    let mut envs: Vec<EnvVar> = Vec::new();
    if stable_channel {
        envs.push(EnvVar { name: "RUSTC_BOOTSTRAP".to_owned(), value: Some("1".to_owned()) });
    }
    match target {
        Target::Wasm => {
            envs.push(
                EnvVar {
                    name: "CARGO_ENCODED_RUSTFLAGS".to_owned(),
                    value: Some(target.rustflags().to_owned()),
                },
            );
        },
        Target::RiscV => {
            envs.push(
                EnvVar { name: "RUSTUP_TOOLCHAIN".to_owned(), value: Some("rve-nightly".to_owned()) },
            );
            let mut flags: String = target.rustflags().to_owned();
            flags.append("\u{1f}-Clink-arg=-T");
            flags.append(linker_script);
            envs.push(EnvVar { name: "CARGO_ENCODED_RUSTFLAGS".to_owned(), value: Some(flags) });
        },
    }
    proof {
        assert(views_of(envs@) =~= spec_onchain_envs(target, stable_channel, linker_script@));
    }
    envs
}

// ---------------------------------------------------------------------------
// Linting
// ---------------------------------------------------------------------------

/// The lint tools, in the order they run.
#[derive(Debug, Clone, Copy, PartialEq, Eq, Structural)]
pub enum LintTool {
    Clippy,
    Dylint,
}

impl View for LintTool {
    type V = LintTool;

    open spec fn view(&self) -> LintTool {
        *self
    }
}

/// The linting steps of one build: the first linter is mandatory and
/// always runs first; the second only on demand.
pub fn lint_sequence(dylint: bool) -> (r: Vec<LintTool>)
    ensures
        views_of(r@) == if dylint {
            seq![LintTool::Clippy, LintTool::Dylint]
        } else {
            seq![LintTool::Clippy]
        },
{
    let mut v: Vec<LintTool> = Vec::new();
    v.push(LintTool::Clippy);
    if dylint {
        v.push(LintTool::Dylint);
    }
    proof {
        if dylint {
            assert(views_of(v@) =~= seq![LintTool::Clippy, LintTool::Dylint]);
        } else {
            assert(views_of(v@) =~= seq![LintTool::Clippy]);
        }
    }
    v
}

/// The arguments of the mandatory lint pass: all features, and implicit
/// overflow as a hard error.
pub fn clippy_cargo_args() -> (r: Vec<String>)
    ensures
        views_of(r@) == seq!["--all-features"@, "--"@, "-Dclippy::arithmetic_side_effects"@],
{
    let mut v: Vec<String> = Vec::new();
    v.push("--all-features".to_owned());
    v.push("--".to_owned());
    v.push("-Dclippy::arithmetic_side_effects".to_owned());
    proof {
        assert(views_of(v@) =~= seq!["--all-features"@, "--"@, "-Dclippy::arithmetic_side_effects"@]);
    }
    v
}

/// The arguments of the optional lint pass.
pub fn dylint_cargo_args() -> (r: Vec<String>)
    ensures
        views_of(r@) == seq!["--lib=ink_linting"@],
{
    let mut v: Vec<String> = Vec::new();
    v.push("--lib=ink_linting".to_owned());
    proof {
        assert(views_of(v@) =~= seq!["--lib=ink_linting"@]);
    }
    v
}

/// The environment of the optional lint pass: the output directory is
/// pinned, and any compiler wrapper is unset.
pub fn dylint_envs(target_dir: &str) -> (r: Vec<EnvVar>)
    ensures
        views_of(r@) == seq![
            ("CARGO_TARGET_DIR"@, Some(target_dir@)),
            ("RUSTC_WRAPPER"@, None::<Seq<char>>),
        ],
{
    let mut v: Vec<EnvVar> = Vec::new();
    v.push(EnvVar { name: "CARGO_TARGET_DIR".to_owned(), value: Some(target_dir.to_owned()) });
    v.push(EnvVar { name: "RUSTC_WRAPPER".to_owned(), value: None });
    proof {
        assert(views_of(v@) =~= seq![
            ("CARGO_TARGET_DIR"@, Some(target_dir@)),
            ("RUSTC_WRAPPER"@, None::<Seq<char>>),
        ]);
    }
    v
}

/// The optional linter is verbose by default: only an explicitly verbose
/// build keeps its default output; everything else runs it quietly.
pub fn dylint_verbosity(verbosity: Verbosity) -> (r: Verbosity)
    ensures
        r == if verbosity is Verbose {
            Verbosity::Default
        } else {
            Verbosity::Quiet
        },
{
    match verbosity {
        Verbosity::Verbose => Verbosity::Default,
        _ => Verbosity::Quiet,
    }
}

/// Both companion binaries of the optional linter must be installed; the
/// missing one is named in the error.
pub fn dylint_requirements_outcome(cargo_dylint_found: bool, dylint_link_found: bool) -> (r: Result<
    (),
    Error,
>)
    ensures
        ((r is Ok) <==> cargo_dylint_found && dylint_link_found),
        (!cargo_dylint_found ==> (r matches Err(e) && e@ == (SpecError::ToolchainMissing {
            binary: "cargo-dylint"@,
        }))),
        (cargo_dylint_found && !dylint_link_found ==> (r matches Err(e) && e@
            == (SpecError::ToolchainMissing { binary: "dylint-link"@ }))),
{
    if !cargo_dylint_found {
        Err(Error::ToolchainMissing { binary: "cargo-dylint".to_owned() })
    } else if !dylint_link_found {
        Err(Error::ToolchainMissing { binary: "dylint-link".to_owned() })
    } else {
        Ok(())
    }
}

// ---------------------------------------------------------------------------
// The environment-driven rebuild trigger
// ---------------------------------------------------------------------------

/// What the buffer-size check decides.
#[derive(Debug, Clone, Copy, PartialEq, Eq, Structural)]
pub enum CleanDecision {
    /// The environment variable is not set: nothing to do.
    NoBufferOverride,
    /// The recorded value matches the override: nothing to rebuild.
    BufferSizeAlreadySpecified,
    /// The recorded value differs: clean and rebuild.
    RebuildForChangedBufferSize,
    /// The metadata or its recorded value cannot be read: clean and
    /// rebuild.
    RebuildForUnreadableMetadata,
}

/// The decision for a given environment override and recorded value: an
/// unset variable is a no-op; a non-integer override is a configuration
/// error; a match means nothing to do; a mismatch or unreadable record
/// forces a clean rebuild.
pub open spec fn spec_buffer_size_decision(
    env_value: Option<Seq<char>>,
    recorded_size: Option<u64>,
) -> Result<CleanDecision, SpecError> {
    match env_value {
        None => Ok(CleanDecision::NoBufferOverride),
        Some(s) => match spec_parse_u64(s) {
            None => Err(SpecError::BufferSizeNotInteger),
            Some(v) => match recorded_size {
                None => Ok(CleanDecision::RebuildForUnreadableMetadata),
                Some(m) => if m == v {
                    Ok(CleanDecision::BufferSizeAlreadySpecified)
                } else {
                    Ok(CleanDecision::RebuildForChangedBufferSize)
                },
            },
        },
    }
}

/// Decides whether a configured static buffer size forces a clean
/// rebuild, from the environment override and the size recorded in the
/// metadata document.
pub fn check_buffer_size_decision(env_value: Option<&str>, recorded_size: Option<u64>) -> (r: Result<
    CleanDecision,
    Error,
>)
    ensures
        ({
            let s = spec_buffer_size_decision(
                match env_value {
                    Some(v) => Some(v@),
                    None => None,
                },
                recorded_size,
            );
            match r {
                Ok(d) => s == Ok::<CleanDecision, SpecError>(d),
                Err(e) => s == Err::<CleanDecision, SpecError>(e@),
            }
        }),
{
    match env_value {
        None => Ok(CleanDecision::NoBufferOverride),
        Some(raw) => {
            match parse_u64(raw) {
                None => Err(Error::BufferSizeNotInteger),
                Some(v) => {
                    match recorded_size {
                        None => Ok(CleanDecision::RebuildForUnreadableMetadata),
                        Some(m) => {
                            if m == v {
                                Ok(CleanDecision::BufferSizeAlreadySpecified)
                            } else {
                                Ok(CleanDecision::RebuildForChangedBufferSize)
                            }
                        },
                    }
                },
            }
        },
    }
}

/// Resolves the optimization passes of one build: the command line wins
/// over a setting in the build-configuration profile; with neither, the
/// default applies.
pub fn resolve_optimization_passes(
    from_cli: Option<OptimizationPasses>,
    from_profile: Option<OptimizationPasses>,
) -> (r: OptimizationPasses)
    ensures
        r == (match from_cli {
            Some(p) => p,
            None => match from_profile {
                Some(p) => p,
                None => OptimizationPasses::Z,
            },
        }),
{
    match from_cli {
        Some(p) => p,
        None => match from_profile {
            Some(p) => p,
            None => OptimizationPasses::default(),
        },
    }
}

// ---------------------------------------------------------------------------
// The skip-or-process decision
// ---------------------------------------------------------------------------

/// Whether all downstream post-processing and metadata generation can be
/// skipped: the compiler produced byte-identical output — the fingerprints
/// before and after compilation are equal — and the final artifact still
/// exists.
pub open spec fn spec_should_skip(
    pre: Option<SpecFingerprint>,
    post: SpecFingerprint,
    dest_code_exists: bool,
) -> bool {
    pre == Some(post) && dest_code_exists
}

/// Decides whether post-processing is skipped, from the fingerprints
/// taken before and after compilation and the existence of the final
/// artifact.
pub fn should_skip_post_processing(
    pre: &Option<Fingerprint>,
    post: &Fingerprint,
    dest_code_exists: bool,
) -> (r: bool)
    ensures
        (r == spec_should_skip(
            match pre {
                Some(f) => Some(f@),
                None => None,
            },
            post@,
            dest_code_exists,
        )),
{
    match pre {
        Some(f) => {
            let eq = f == post;
            proof {
                assert(eq == f.eq_spec(post));
            }
            eq && dest_code_exists
        },
        None => false,
    }
}

/// Two fingerprints taken of the same artifact bytes, path, modification
/// time and target are equal, so an unchanged compilation output is
/// skipped.
pub proof fn lemma_unchanged_output_skips(
    path: Seq<char>,
    bytes: Seq<u8>,
    modified: u128,
    target: Seq<char>,
)
    ensures
        spec_should_skip(
            Some(SpecFingerprint { path, hash: blake2b256_of(bytes), modified, target }),
            SpecFingerprint { path, hash: blake2b256_of(bytes), modified, target },
            true,
        ),
{
}

/// Whether the metadata artifacts must be regenerated: the code was
/// re-optimized, or either metadata artifact is missing.
pub fn should_regenerate_metadata(
    optimization_ran: bool,
    metadata_exists: bool,
    bundle_exists: bool,
) -> (r: bool)
    ensures
        r == (optimization_ran || !metadata_exists || !bundle_exists),
{
    optimization_ran || !metadata_exists || !bundle_exists
}

// ---------------------------------------------------------------------------
// The build pipeline
// ---------------------------------------------------------------------------

/// Where one build invocation stands.
#[derive(Debug, Clone, Copy, PartialEq, Eq, Structural)]
pub enum BuildPhase {
    Start,
    Linting,
    PreFingerprinting,
    Compiling,
    PostFingerprinting,
    PostProcessing,
    GeneratingMetadata { skipped: bool },
    Done { skipped: bool },
    Failed,
}

/// What the surrounding process reports back after performing the actions
/// of a step.
#[derive(Debug, Clone, Copy, PartialEq, Eq, Structural)]
pub enum BuildEvent {
    Started,
    LintOk,
    LintFailed,
    PreFingerprintOk,
    CompileOk,
    CompileFailed,
    PostFingerprintOk { artifact_unchanged: bool },
    PostFingerprintMissing,
    PostProcessOk,
    PostProcessFailed,
    MetadataRegenerated,
    MetadataUpToDate,
    MetadataFailed,
    IoFailed,
}

/// What the surrounding process owes next, in order.
#[derive(Debug, Clone, Copy, PartialEq, Eq, Structural)]
pub enum BuildAction {
    RunLint,
    CleanMetadata,
    ComputePreFingerprint,
    CheckBufferSize,
    RunCompiler,
    PersistTargetSidecar,
    ComputePostFingerprint,
    PurgeStaleArtifacts,
    OptimizeModule,
    PostProcessModule,
    LinkRegisterMachine,
    DecideMetadata,
    GenerateMetadata,
    ReportSkipped,
    Finish,
    Abort,
}

impl View for BuildAction {
    type V = BuildAction;

    open spec fn view(&self) -> BuildAction {
        *self
    }
}

/// The actions owed when a stage failed: an aborted full build leaves no
/// stale metadata behind.
pub open spec fn spec_fail_actions(artifact: BuildArtifacts) -> Seq<BuildAction> {
    if artifact is All {
        seq![BuildAction::CleanMetadata, BuildAction::Abort]
    } else {
        seq![BuildAction::Abort]
    }
}

/// One step of the build pipeline: from the artifact selection, the
/// target backend, the current phase and the reported event to the next
/// phase and the actions owed. Stages run strictly sequentially: lint,
/// fingerprint, compile, fingerprint, skip-or-post-process, metadata.
pub open spec fn spec_next(
    artifact: BuildArtifacts,
    target: Target,
    phase: BuildPhase,
    event: BuildEvent,
) -> (BuildPhase, Seq<BuildAction>) {
    match (phase, event) {
        (BuildPhase::Start, BuildEvent::Started) => {
            if artifact is CodeOnly {
                (BuildPhase::Linting, seq![BuildAction::CleanMetadata, BuildAction::RunLint])
            } else {
                (BuildPhase::Linting, seq![BuildAction::RunLint])
            }
        },
        (BuildPhase::Linting, BuildEvent::LintOk) => {
            if artifact is CheckOnly {
                (BuildPhase::Done { skipped: false }, seq![BuildAction::Finish])
            } else {
                (BuildPhase::PreFingerprinting, seq![BuildAction::ComputePreFingerprint])
            }
        },
        (BuildPhase::Linting, BuildEvent::LintFailed) => (
            BuildPhase::Failed,
            spec_fail_actions(artifact),
        ),
        (BuildPhase::PreFingerprinting, BuildEvent::PreFingerprintOk) => (
            BuildPhase::Compiling,
            seq![BuildAction::CheckBufferSize, BuildAction::RunCompiler],
        ),
        (BuildPhase::Compiling, BuildEvent::CompileOk) => (
            BuildPhase::PostFingerprinting,
            seq![BuildAction::PersistTargetSidecar, BuildAction::ComputePostFingerprint],
        ),
        (BuildPhase::Compiling, BuildEvent::CompileFailed) => (
            BuildPhase::Failed,
            spec_fail_actions(artifact),
        ),
        (BuildPhase::PostFingerprinting, BuildEvent::PostFingerprintMissing) => (
            BuildPhase::Failed,
            spec_fail_actions(artifact),
        ),
        (
            BuildPhase::PostFingerprinting,
            BuildEvent::PostFingerprintOk { artifact_unchanged },
        ) => {
            if artifact_unchanged {
                if artifact is All {
                    (BuildPhase::GeneratingMetadata { skipped: true }, seq![
                        BuildAction::DecideMetadata,
                    ])
                } else {
                    (BuildPhase::Done { skipped: true }, seq![
                        BuildAction::ReportSkipped,
                        BuildAction::Finish,
                    ])
                }
            } else {
                (
                    BuildPhase::PostProcessing,
                    seq![BuildAction::PurgeStaleArtifacts] + match target {
                        Target::Wasm => seq![
                            BuildAction::OptimizeModule,
                            BuildAction::PostProcessModule,
                        ],
                        Target::RiscV => seq![BuildAction::LinkRegisterMachine],
                    },
                )
            }
        },
        (BuildPhase::PostProcessing, BuildEvent::PostProcessOk) => {
            if artifact is All {
                (BuildPhase::GeneratingMetadata { skipped: false }, seq![
                    BuildAction::CleanMetadata,
                    BuildAction::GenerateMetadata,
                ])
            } else {
                (BuildPhase::Done { skipped: false }, seq![BuildAction::Finish])
            }
        },
        (BuildPhase::PostProcessing, BuildEvent::PostProcessFailed) => (
            BuildPhase::Failed,
            spec_fail_actions(artifact),
        ),
        (BuildPhase::GeneratingMetadata { skipped }, BuildEvent::MetadataRegenerated) => (
            BuildPhase::Done { skipped },
            seq![BuildAction::Finish],
        ),
        (BuildPhase::GeneratingMetadata { skipped }, BuildEvent::MetadataUpToDate) => (
            BuildPhase::Done { skipped },
            seq![BuildAction::Finish],
        ),
        (BuildPhase::GeneratingMetadata { skipped: _ }, BuildEvent::MetadataFailed) => (
            BuildPhase::Failed,
            seq![BuildAction::CleanMetadata, BuildAction::Abort],
        ),
        (BuildPhase::Done { skipped }, _) => (BuildPhase::Done { skipped }, Seq::empty()),
        (_, _) => (BuildPhase::Failed, spec_fail_actions(artifact)),
    }
}

/// Performs one step of the build pipeline.
pub fn next_step(
    artifact: BuildArtifacts,
    target: Target,
    phase: BuildPhase,
    event: BuildEvent,
) -> (r: (BuildPhase, Vec<BuildAction>))
    ensures
        r.0 == spec_next(artifact, target, phase, event).0,
        views_of(r.1@) == spec_next(artifact, target, phase, event).1,
{
    let (next_phase, actions): (BuildPhase, Vec<BuildAction>) = match (phase, event) {
        (BuildPhase::Start, BuildEvent::Started) => {
            match artifact {
                BuildArtifacts::CodeOnly => (
                    BuildPhase::Linting,
                    two_actions(BuildAction::CleanMetadata, BuildAction::RunLint),
                ),
                _ => (BuildPhase::Linting, one_action(BuildAction::RunLint)),
            }
        },
        (BuildPhase::Linting, BuildEvent::LintOk) => {
            match artifact {
                BuildArtifacts::CheckOnly => (
                    BuildPhase::Done { skipped: false },
                    one_action(BuildAction::Finish),
                ),
                _ => (
                    BuildPhase::PreFingerprinting,
                    one_action(BuildAction::ComputePreFingerprint),
                ),
            }
        },
        (BuildPhase::Linting, BuildEvent::LintFailed) => (BuildPhase::Failed, fail_actions(artifact)),
        (BuildPhase::PreFingerprinting, BuildEvent::PreFingerprintOk) => (
            BuildPhase::Compiling,
            two_actions(BuildAction::CheckBufferSize, BuildAction::RunCompiler),
        ),
        (BuildPhase::Compiling, BuildEvent::CompileOk) => (
            BuildPhase::PostFingerprinting,
            two_actions(BuildAction::PersistTargetSidecar, BuildAction::ComputePostFingerprint),
        ),
        (BuildPhase::Compiling, BuildEvent::CompileFailed) => (
            BuildPhase::Failed,
            fail_actions(artifact),
        ),
        (BuildPhase::PostFingerprinting, BuildEvent::PostFingerprintMissing) => (
            BuildPhase::Failed,
            fail_actions(artifact),
        ),
        (BuildPhase::PostFingerprinting, BuildEvent::PostFingerprintOk { artifact_unchanged }) => {
            if artifact_unchanged {
                match artifact {
                    BuildArtifacts::All => (
                        BuildPhase::GeneratingMetadata { skipped: true },
                        one_action(BuildAction::DecideMetadata),
                    ),
                    _ => (
                        BuildPhase::Done { skipped: true },
                        two_actions(BuildAction::ReportSkipped, BuildAction::Finish),
                    ),
                }
            } else {
                let mut v = one_action(BuildAction::PurgeStaleArtifacts);
                match target {
                    Target::Wasm => {
                        v.push(BuildAction::OptimizeModule);
                        v.push(BuildAction::PostProcessModule);
                    },
                    Target::RiscV => {
                        v.push(BuildAction::LinkRegisterMachine);
                    },
                }
                proof {
                    assert(views_of(v@) =~= spec_next(artifact, target, phase, event).1);
                }
                (BuildPhase::PostProcessing, v)
            }
        },
        (BuildPhase::PostProcessing, BuildEvent::PostProcessOk) => {
            match artifact {
                BuildArtifacts::All => (
                    BuildPhase::GeneratingMetadata { skipped: false },
                    two_actions(BuildAction::CleanMetadata, BuildAction::GenerateMetadata),
                ),
                _ => (BuildPhase::Done { skipped: false }, one_action(BuildAction::Finish)),
            }
        },
        (BuildPhase::PostProcessing, BuildEvent::PostProcessFailed) => (
            BuildPhase::Failed,
            fail_actions(artifact),
        ),
        (BuildPhase::GeneratingMetadata { skipped }, BuildEvent::MetadataRegenerated) => (
            BuildPhase::Done { skipped },
            one_action(BuildAction::Finish),
        ),
        (BuildPhase::GeneratingMetadata { skipped }, BuildEvent::MetadataUpToDate) => (
            BuildPhase::Done { skipped },
            one_action(BuildAction::Finish),
        ),
        (BuildPhase::GeneratingMetadata { skipped: _ }, BuildEvent::MetadataFailed) => (
            BuildPhase::Failed,
            two_actions(BuildAction::CleanMetadata, BuildAction::Abort),
        ),
        (BuildPhase::Done { skipped }, _) => {
            let v: Vec<BuildAction> = Vec::new();
            proof {
                assert(views_of(v@) =~= Seq::<BuildAction>::empty());
            }
            (BuildPhase::Done { skipped }, v)
        },
        (_, _) => (BuildPhase::Failed, fail_actions(artifact)),
    };
    (next_phase, actions)
}

/// One owed action.
fn one_action(a: BuildAction) -> (r: Vec<BuildAction>)
    ensures
        views_of(r@) == seq![a],
{
    let mut v: Vec<BuildAction> = Vec::new();
    v.push(a);
    proof {
        assert(views_of(v@) =~= seq![a]);
    }
    v
}

/// Two owed actions, in order.
fn two_actions(a: BuildAction, b: BuildAction) -> (r: Vec<BuildAction>)
    ensures
        views_of(r@) == seq![a, b],
{
    let mut v: Vec<BuildAction> = Vec::new();
    v.push(a);
    v.push(b);
    proof {
        assert(views_of(v@) =~= seq![a, b]);
    }
    v
}

/// The actions owed after a failed stage.
fn fail_actions(artifact: BuildArtifacts) -> (r: Vec<BuildAction>)
    ensures
        views_of(r@) == spec_fail_actions(artifact),
{
    match artifact {
        BuildArtifacts::All => two_actions(BuildAction::CleanMetadata, BuildAction::Abort),
        _ => one_action(BuildAction::Abort),
    }
}

/// An unchanged compilation output skips all downstream work: the step
/// after the post-compilation fingerprint owes neither optimization, nor
/// module post-processing, nor linking, nor a metadata write — and a
/// code-only build finishes with a reported skip.
pub proof fn lemma_unchanged_build_skips_downstream(
    artifact: BuildArtifacts,
    target: Target,
)
    ensures
        ({
            let (p, a) = spec_next(
                artifact,
                target,
                BuildPhase::PostFingerprinting,
                BuildEvent::PostFingerprintOk { artifact_unchanged: true },
            );
            &&& !a.contains(BuildAction::OptimizeModule)
            &&& !a.contains(BuildAction::PostProcessModule)
            &&& !a.contains(BuildAction::LinkRegisterMachine)
            &&& !a.contains(BuildAction::GenerateMetadata)
            &&& (artifact is CodeOnly ==> p == (BuildPhase::Done { skipped: true })
                && a.contains(BuildAction::ReportSkipped))
        }),
{
    let (p, a) = spec_next(
        artifact,
        target,
        BuildPhase::PostFingerprinting,
        BuildEvent::PostFingerprintOk { artifact_unchanged: true },
    );
    assert(a.len() <= 2);
    assert(forall|i: int| 0 <= i < a.len() ==> a[i] != BuildAction::OptimizeModule);
    assert(forall|i: int| 0 <= i < a.len() ==> a[i] != BuildAction::PostProcessModule);
    assert(forall|i: int| 0 <= i < a.len() ==> a[i] != BuildAction::LinkRegisterMachine);
    assert(forall|i: int| 0 <= i < a.len() ==> a[i] != BuildAction::GenerateMetadata);
    if artifact is CodeOnly {
        assert(a[0] == BuildAction::ReportSkipped);
    }
}

/// A finished build owes nothing more: no later event adds an action.
pub proof fn lemma_done_is_final(
    artifact: BuildArtifacts,
    target: Target,
    skipped: bool,
    event: BuildEvent,
)
    ensures
        spec_next(artifact, target, BuildPhase::Done { skipped }, event).0 == (BuildPhase::Done {
            skipped,
        }),
        spec_next(artifact, target, BuildPhase::Done { skipped }, event).1 == Seq::<
            BuildAction,
        >::empty(),
{
}

/// Every failure after compilation has started cleans the previously
/// generated metadata of a full build, so no mismatched metadata and code
/// pair remains reachable.
pub proof fn lemma_failure_cleans_metadata(target: Target, phase: BuildPhase, event: BuildEvent)
    requires
        (phase == BuildPhase::Compiling && event == BuildEvent::CompileFailed) || (phase
            == BuildPhase::PostFingerprinting && event == BuildEvent::PostFingerprintMissing) || (
        phase == BuildPhase::PostProcessing && event == BuildEvent::PostProcessFailed) || (
        phase matches BuildPhase::GeneratingMetadata { .. } && event == BuildEvent::MetadataFailed),
    ensures
        spec_next(BuildArtifacts::All, target, phase, event).1.contains(BuildAction::CleanMetadata),
{
    let a = spec_next(BuildArtifacts::All, target, phase, event).1;
    assert(a[0] == BuildAction::CleanMetadata);
}

/// The compiler runs only after linting succeeded: the only step that
/// owes a compile is the one leaving the fingerprint stage that follows a
/// successful lint.
pub proof fn lemma_lint_precedes_compile(
    artifact: BuildArtifacts,
    target: Target,
    phase: BuildPhase,
    event: BuildEvent,
)
    requires
        spec_next(artifact, target, phase, event).1.contains(BuildAction::RunCompiler),
    ensures
        phase == BuildPhase::PreFingerprinting,
        event == BuildEvent::PreFingerprintOk,
{
}

} // verus!
