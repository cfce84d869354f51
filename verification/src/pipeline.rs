use vstd::prelude::*;

use crate::archive::{archive_ok, extract_plan, extract_plan_spec, open_archive, zip_entries, zip_entry_ok};
use crate::codec::{config_json_spec, config_parse_spec, config_to_json, parse_config};
use crate::config::{config_defaults, opt_view, ConfigV, ModConfig};
use crate::errors::Error;
use crate::fsops::{find_write, find_write_spec, join2, FsOp, FsOpV};
use crate::template::{
    discover_sdk_version, discover_spec, pack_mcmeta_spec, pack_mcmeta_text,
    rewrite_build_definition, rewritten_build_def,
};
use crate::text::{bytes_text, utf8_lossy_of};

verus! {

// ------------------------------------------------------------------
// The orchestrator's vocabulary
// ------------------------------------------------------------------

/// What the surrounding program is asked to perform next. The pipelines
/// themselves never touch the filesystem or spawn a process: they hand
/// out one action at a time and take its outcome back as an `Event`.
pub enum Action {
    /// Report whether the path exists; answer with `Exists`.
    CheckExists(String),
    /// Create the directory (with its ancestors), canonicalize it, and
    /// resolve its final path segment; answer with `DirName` or `Failed`.
    PrepareDir(String),
    /// Read the file's bytes; answer with `Bytes` or `Failed`.
    ReadBytes(String),
    /// Read the file as text; answer with `Text` or `Failed`.
    ReadText(String),
    /// Apply the filesystem mutations, in order, aborting at the first
    /// failure; answer with `Done` or `Failed`.
    Apply(Vec<FsOp>),
    /// Run the build tool's platform launcher with the single command
    /// argument, in the working directory, without touching the caller's
    /// own working directory; answer with `Exited`, or `Failed` if the
    /// child cannot be spawned.
    RunTool { working_dir: String, command: String, verbose: bool },
}

/// The outcome the surrounding program reports for the last action.
pub enum Event {
    Exists(bool),
    /// The directory was created; its canonicalized final path segment,
    /// or `None` when it has no resolvable name component.
    DirName(Option<String>),
    Bytes(Vec<u8>),
    Text(String),
    Done,
    /// The child process terminated with this exit code.
    Exited(i32),
    /// The action itself could not be carried out.
    Failed,
}

/// Whether performing the action can change anything on the machine.
pub open spec fn action_mutates(a: Action) -> bool {
    match a {
        Action::CheckExists(_) => false,
        Action::ReadBytes(_) => false,
        Action::ReadText(_) => false,
        Action::PrepareDir(_) => true,
        Action::Apply(_) => true,
        Action::RunTool { .. } => true,
    }
}

/// What a pipeline hands back: the next state with the next action, or
/// the terminal result.
pub enum Step<S> {
    Next(S, Action),
    Stop(Result<(), Error>),
}

// ------------------------------------------------------------------
// The create pipeline
// ------------------------------------------------------------------

pub struct CreateParams {
    pub directory: String,
    pub archive_path: String,
    pub display_name: Option<String>,
    pub mod_id: Option<String>,
    pub mod_version: Option<String>,
    pub description: Option<String>,
    pub authors: Option<String>,
    pub verbose: bool,
}

pub enum CreateState {
    /// Verifying that the target directory does not already exist.
    Checking,
    /// Creating the project directory and resolving its name.
    Preparing,
    /// Reading the development-kit archive.
    Loading { config: ModConfig },
    /// Applying the scaffold plan.
    Scaffolding { mod_dir: String },
    /// Running the build tool's preparation command.
    Running,
}

pub open spec fn opt_string_view(o: Option<String>) -> Option<Seq<char>> {
    match o {
        Some(s) => Some(s@),
        None => None,
    }
}

/// The descriptor invariant holds of an explicitly requested project id.
pub open spec fn create_params_wf(params: CreateParams) -> bool {
    params.mod_id matches Some(m) ==> crate::config::wf_mod_id(m@)
}

/// The events that answer each state's pending action.
pub open spec fn create_fits(st: CreateState, ev: Event) -> bool {
    match (st, ev) {
        (CreateState::Checking, Event::Exists(_)) => true,
        (CreateState::Preparing, Event::DirName(_)) => true,
        (CreateState::Preparing, Event::Failed) => true,
        (CreateState::Loading { .. }, Event::Bytes(_)) => true,
        (CreateState::Loading { .. }, Event::Failed) => true,
        (CreateState::Scaffolding { .. }, Event::Done) => true,
        (CreateState::Scaffolding { .. }, Event::Failed) => true,
        (CreateState::Running, Event::Exited(_)) => true,
        (CreateState::Running, Event::Failed) => true,
        _ => false,
    }
}

/// Everything the scaffold step writes once the archive's entries are
/// known, and the descriptor it leaves behind: the project directory,
/// the extracted entries, the descriptor persisted before and again
/// after version discovery, the rewritten build definition, and the
/// removal of the bundled example sources.
pub open spec fn scaffold_spec(
    directory: Seq<char>,
    cfg: ConfigV,
    entries: Seq<(Seq<char>, Seq<u8>, Option<u32>)>,
) -> Result<(Seq<FsOpV>, ConfigV), Error> {
    let mod_dir = directory + "/"@ + cfg.mod_id;
    let ext = extract_plan_spec(mod_dir, entries);
    let bg_path = mod_dir + "/"@ + "build.gradle"@;
    match find_write_spec(ext, bg_path) {
        None => Err(Error::FileIo),
        Some(bytes) => {
            let text = utf8_lossy_of(bytes);
            match discover_spec(text) {
                None => Err(Error::PatternNotFound),
                Some(ver) => match crate::config::version_parse_spec(ver) {
                    None => Err(Error::Parse),
                    Some(mcv) => {
                        let cfg1 = ConfigV { mc_version: mcv, ..cfg };
                        let cfg_path = directory + "/"@ + "config.json"@;
                        Ok(
                            (
                                seq![FsOpV::MkDirAll(mod_dir)] + ext + seq![
                                    FsOpV::WriteText(cfg_path, config_json_spec(cfg)),
                                    FsOpV::WriteText(cfg_path, config_json_spec(cfg1)),
                                    FsOpV::WriteText(
                                        bg_path,
                                        rewritten_build_def(text, cfg.mod_id, cfg.mod_version),
                                    ),
                                    FsOpV::RemoveTree(mod_dir + "/"@ + "src"@),
                                ],
                                cfg1,
                            ),
                        )
                    },
                },
            }
        },
    }
}

/// Computes the scaffold plan from the archive bytes: extraction under
/// the project directory, the two descriptor persists around version
/// discovery, the build-definition rewrite and the example-tree removal.
/// The archive error comes exactly when the zip reader refuses the bytes
/// or an entry of them; every other outcome is the one `scaffold_spec`
/// gives for the archive's entries.
pub fn scaffold_ops(config: &mut ModConfig, directory: &str, archive_bytes: Vec<u8>) -> (r: Result<
    (Vec<FsOp>, String),
    Error,
>)
    ensures
        match r {
            Ok((ops, mod_dir)) => {
                &&& scaffold_spec(directory@, old(config)@, zip_entries(archive_bytes@)) == Ok::<
                    _,
                    Error,
                >((ops.deep_view(), final(config)@))
                &&& mod_dir@ == directory@ + "/"@ + old(config).mod_id@
            },
            Err(e) => (e == Error::Archive && !archive_ok(archive_bytes@)) || scaffold_spec(
                directory@,
                old(config)@,
                zip_entries(archive_bytes@),
            ) == Err::<(Seq<FsOpV>, ConfigV), _>(e),
        },
        (archive_ok(archive_bytes@) && scaffold_spec(
            directory@,
            old(config)@,
            zip_entries(archive_bytes@),
        ) is Ok) ==> r is Ok,
        r is Err ==> *final(config) == *old(config),
{
    let ghost entries = zip_entries(archive_bytes@);
    let mut archive = match open_archive(archive_bytes) {
        Ok(a) => a,
        Err(e) => {
            return Err(e);
        },
    };
    let mod_dir = join2(directory, config.mod_id());
    let mut ext_ops = match extract_plan(&mut archive, mod_dir.as_str()) {
        Ok(o) => o,
        Err(e) => {
            proof {
                // Some entry of the reader failed, so some entry of the
                // bytes fails: the bytes are not a sound archive.
                assert(!(forall|i: int|
                    0 <= i < entries.len() ==> #[trigger] zip_entry_ok(archive_bytes@, i)));
            }
            return Err(e);
        },
    };
    let bg_path = join2(mod_dir.as_str(), "build.gradle");
    let bg_bytes = match find_write(&ext_ops, &bg_path) {
        Some(b) => b,
        None => {
            return Err(Error::FileIo);
        },
    };
    let text = bytes_text(&bg_bytes);
    let ver = match discover_sdk_version(text.as_str()) {
        Ok(v) => v,
        Err(e) => {
            return Err(e);
        },
    };
    let json0 = config_to_json(config);
    match config.set_mc_version(ver.as_str()) {
        Ok(()) => {},
        Err(e) => {
            return Err(e);
        },
    }
    let json1 = config_to_json(config);
    let rewritten = rewrite_build_definition(text.as_str(), config.mod_id(), config.mod_version());
    let cfg_path = join2(directory, "config.json");
    let src_path = join2(mod_dir.as_str(), "src");
    let mut ops: Vec<FsOp> = Vec::new();
    ops.push(FsOp::MkDirAll(mod_dir.clone()));
    ops.append(&mut ext_ops);
    ops.push(FsOp::WriteText(cfg_path.clone(), json0));
    ops.push(FsOp::WriteText(cfg_path, json1));
    ops.push(FsOp::WriteText(bg_path, rewritten));
    ops.push(FsOp::RemoveTree(src_path));
    proof {
        assert(final(config)@ =~= ConfigV { mc_version: final(config)@.mc_version, ..old(config)@ });
        assert(ops.deep_view() =~~= seq![FsOpV::MkDirAll(mod_dir@)] + extract_plan_spec(
            mod_dir@,
            entries,
        ) + seq![
            FsOpV::WriteText(directory@ + "/"@ + "config.json"@, config_json_spec(old(config)@)),
            FsOpV::WriteText(directory@ + "/"@ + "config.json"@, config_json_spec(final(config)@)),
            FsOpV::WriteText(
                mod_dir@ + "/"@ + "build.gradle"@,
                rewritten_build_def(text@, old(config)@.mod_id, old(config)@.mod_version),
            ),
            FsOpV::RemoveTree(mod_dir@ + "/"@ + "src"@),
        ]);
    }
    Ok((ops, mod_dir))
}

/// The transition relation of the create pipeline. A reader can take it
/// as the machine's definition: each state's answer determines the next
/// state and action, or the terminal result.
pub open spec fn create_next_rel(
    st: CreateState,
    ev: Event,
    params: CreateParams,
    r: Step<CreateState>,
) -> bool {
    match (st, ev) {
        (CreateState::Checking, Event::Exists(ex)) => if ex {
            r == Step::<CreateState>::Stop(Err(Error::ProjectExists))
        } else {
            r matches Step::Next(s2, Action::PrepareDir(p)) && s2 is Preparing && p@
                == params.directory@
        },
        (CreateState::Preparing, Event::DirName(dn)) => {
            match config_defaults(
                opt_string_view(dn),
                opt_string_view(params.display_name),
                opt_string_view(params.mod_id),
                opt_string_view(params.mod_version),
                opt_string_view(params.description),
                opt_string_view(params.authors),
            ) {
                Some(cv) => r matches Step::Next(CreateState::Loading { config }, Action::ReadBytes(p))
                    && config@ == cv && p@ == params.archive_path@,
                None => r == Step::<CreateState>::Stop(Err(Error::FileIo)),
            }
        },
        (CreateState::Preparing, Event::Failed) => r == Step::<CreateState>::Stop(
            Err(Error::FileIo),
        ),
        (CreateState::Loading { config }, Event::Bytes(b)) => {
            let sc = scaffold_spec(params.directory@, config@, zip_entries(b@));
            ||| (r matches Step::Stop(Err(e)) && ((e == Error::Archive && !archive_ok(b@)) || sc
                == Err::<(Seq<FsOpV>, ConfigV), _>(e)))
            ||| (r matches Step::Next(CreateState::Scaffolding { mod_dir }, Action::Apply(ops))
                && sc matches Ok((opsv, cfg1)) && mod_dir@ == params.directory@ + "/"@
                + config.mod_id@ && ops.deep_view() == opsv)
        },
        (CreateState::Loading { .. }, Event::Failed) => r == Step::<CreateState>::Stop(
            Err(Error::FileIo),
        ),
        (CreateState::Scaffolding { mod_dir }, Event::Done) => r matches Step::Next(
            s2,
            Action::RunTool { working_dir, command, verbose },
        ) && s2 is Running && working_dir@ == mod_dir@ && command@ == "prepareRuns"@ && verbose
            == params.verbose,
        (CreateState::Scaffolding { .. }, Event::Failed) => r == Step::<CreateState>::Stop(
            Err(Error::FileIo),
        ),
        (CreateState::Running, Event::Exited(code)) => if code == 0 {
            r == Step::<CreateState>::Stop(Ok(()))
        } else {
            r == Step::<CreateState>::Stop(Err(Error::BuildFailed))
        },
        (CreateState::Running, Event::Failed) => r == Step::<CreateState>::Stop(
            Err(Error::Process),
        ),
        _ => false,
    }
}

/// The create pipeline's first step only asks whether the target exists:
/// nothing is mutated before that answer arrives.
pub fn create_start(params: &CreateParams) -> (r: (CreateState, Action))
    ensures
        r.0 is Checking,
        r.1 matches Action::CheckExists(p) && p@ == params.directory@,
        !action_mutates(r.1),
{
    (CreateState::Checking, Action::CheckExists(params.directory.clone()))
}

/// Law: a create aimed at an existing directory stops with
/// `ProjectExists`; together with `create_start`, whose only action is a
/// non-mutating existence check, no filesystem mutation happens first.
pub proof fn lemma_create_rejects_existing(params: CreateParams, r: Step<CreateState>)
    requires
        create_next_rel(CreateState::Checking, Event::Exists(true), params, r),
    ensures
        r == Step::<CreateState>::Stop(Err(Error::ProjectExists)),
{
}

/// One transition of the create pipeline.
pub fn create_next(st: CreateState, ev: Event, params: &CreateParams) -> (r: Step<CreateState>)
    requires
        create_fits(st, ev),
        create_params_wf(*params),
    ensures
        create_next_rel(st, ev, *params, r),
{
    match (st, ev) {
        (CreateState::Checking, Event::Exists(ex)) => {
            if ex {
                Step::Stop(Err(Error::ProjectExists))
            } else {
                Step::Next(CreateState::Preparing, Action::PrepareDir(params.directory.clone()))
            }
        },
        (CreateState::Preparing, Event::DirName(dn)) => {
            let config = ModConfig::new(
                opt_str(&dn),
                opt_str(&params.display_name),
                opt_str(&params.mod_id),
                opt_str(&params.mod_version),
                opt_str(&params.description),
                opt_str(&params.authors),
            );
            match config {
                Ok(config) => Step::Next(
                    CreateState::Loading { config },
                    Action::ReadBytes(params.archive_path.clone()),
                ),
                Err(e) => Step::Stop(Err(e)),
            }
        },
        (CreateState::Preparing, Event::Failed) => Step::Stop(Err(Error::FileIo)),
        (CreateState::Loading { config }, Event::Bytes(b)) => {
            let mut config = config;
            match scaffold_ops(&mut config, params.directory.as_str(), b) {
                Ok((ops, mod_dir)) => Step::Next(
                    CreateState::Scaffolding { mod_dir },
                    Action::Apply(ops),
                ),
                Err(e) => Step::Stop(Err(e)),
            }
        },
        (CreateState::Loading { .. }, Event::Failed) => Step::Stop(Err(Error::FileIo)),
        (CreateState::Scaffolding { mod_dir }, Event::Done) => Step::Next(
            CreateState::Running,
            Action::RunTool {
                working_dir: mod_dir,
                command: "prepareRuns".to_owned(),
                verbose: params.verbose,
            },
        ),
        (CreateState::Scaffolding { .. }, Event::Failed) => Step::Stop(Err(Error::FileIo)),
        (CreateState::Running, Event::Exited(code)) => {
            if code == 0 {
                Step::Stop(Ok(()))
            } else {
                Step::Stop(Err(Error::BuildFailed))
            }
        },
        (CreateState::Running, Event::Failed) => Step::Stop(Err(Error::Process)),
        _ => Step::Stop(Err(Error::Process)),
    }
}

fn opt_str(o: &Option<String>) -> (r: Option<&str>)
    ensures
        opt_view(r) == opt_string_view(*o),
{
    match o {
        Some(s) => Some(s.as_str()),
        None => None,
    }
}

// ------------------------------------------------------------------
// The build pipeline
// ------------------------------------------------------------------

pub struct BuildParams {
    pub directory: String,
    pub verbose: bool,
}

pub enum BuildState {
    /// Reading the persisted descriptor.
    LoadingConfig,
    /// Regenerating the pack metadata file.
    Refreshing { mod_dir: String, jar: String },
    /// Running the build tool's build command.
    Building { mod_dir: String, jar: String },
    /// Copying the produced artifact into the top-level output directory.
    Collecting,
}

pub open spec fn build_fits(st: BuildState, ev: Event) -> bool {
    match (st, ev) {
        (BuildState::LoadingConfig, Event::Text(_)) => true,
        (BuildState::LoadingConfig, Event::Failed) => true,
        (BuildState::Refreshing { .. }, Event::Done) => true,
        (BuildState::Refreshing { .. }, Event::Failed) => true,
        (BuildState::Building { .. }, Event::Exited(_)) => true,
        (BuildState::Building { .. }, Event::Failed) => true,
        (BuildState::Collecting, Event::Done) => true,
        (BuildState::Collecting, Event::Failed) => true,
        _ => false,
    }
}

/// The transition relation of the build pipeline.
pub open spec fn build_next_rel(
    st: BuildState,
    ev: Event,
    params: BuildParams,
    r: Step<BuildState>,
) -> bool {
    match (st, ev) {
        (BuildState::LoadingConfig, Event::Text(t)) => match config_parse_spec(t@) {
            Some(cv) => r matches Step::Next(
                BuildState::Refreshing { mod_dir, jar },
                Action::Apply(ops),
            ) && mod_dir@ == params.directory@ + "/"@ + cv.mod_id && jar@ == cv.mod_id + "-"@
                + cv.mod_version + ".jar"@ && ops.deep_view() == seq![
                FsOpV::MkDirAll(mod_dir@ + "/"@ + "src/main/resources"@),
                FsOpV::WriteText(
                    mod_dir@ + "/"@ + "src/main/resources/pack.mcmeta"@,
                    pack_mcmeta_spec(cv.display_name),
                ),
            ],
            None => r == Step::<BuildState>::Stop(Err(Error::Parse)),
        },
        (BuildState::LoadingConfig, Event::Failed) => r == Step::<BuildState>::Stop(
            Err(Error::FileIo),
        ),
        (BuildState::Refreshing { mod_dir, jar }, Event::Done) => r matches Step::Next(
            BuildState::Building { mod_dir: m2, jar: j2 },
            Action::RunTool { working_dir, command, verbose },
        ) && m2@ == mod_dir@ && j2@ == jar@ && working_dir@ == mod_dir@ && command@ == "build"@
            && verbose == params.verbose,
        (BuildState::Refreshing { .. }, Event::Failed) => r == Step::<BuildState>::Stop(
            Err(Error::FileIo),
        ),
        (BuildState::Building { mod_dir, jar }, Event::Exited(code)) => if code == 0 {
            r matches Step::Next(BuildState::Collecting, Action::Apply(ops)) && ops.deep_view()
                == seq![
                FsOpV::MkDirAll(params.directory@ + "/"@ + "build"@),
                FsOpV::CopyFile(
                    mod_dir@ + "/build/libs/"@ + jar@,
                    params.directory@ + "/build/"@ + jar@,
                ),
            ]
        } else {
            r == Step::<BuildState>::Stop(Err(Error::BuildFailed))
        },
        (BuildState::Building { .. }, Event::Failed) => r == Step::<BuildState>::Stop(
            Err(Error::Process),
        ),
        (BuildState::Collecting, Event::Done) => r == Step::<BuildState>::Stop(Ok(())),
        (BuildState::Collecting, Event::Failed) => r == Step::<BuildState>::Stop(
            Err(Error::FileIo),
        ),
        _ => false,
    }
}

/// The build pipeline starts by reading the persisted descriptor: the
/// single source of truth left behind by the create pipeline.
pub fn build_start(params: &BuildParams) -> (r: (BuildState, Action))
    ensures
        r.0 is LoadingConfig,
        r.1 matches Action::ReadText(p) && p@ == params.directory@ + "/"@ + "config.json"@,
        !action_mutates(r.1),
{
    (BuildState::LoadingConfig, Action::ReadText(join2(params.directory.as_str(), "config.json")))
}

/// Law: fed the very descriptor document the create pipeline persisted,
/// the build pipeline heads for that descriptor's artifact: loading the
/// text leads to the project directory and jar name derived from the
/// descriptor's id and version. Together with the `Building` arm of
/// `build_next_rel` — which pins the collection step after a zero exit to
/// copying that jar to `<directory>/build/<id>-<version>.jar` — this is
/// the end-to-end path of a created-then-built project.
pub proof fn lemma_build_follows_persisted_descriptor(
    params: BuildParams,
    cfg: ConfigV,
    ev: Event,
    r: Step<BuildState>,
)
    requires
        ev matches Event::Text(t) && t@ == config_json_spec(cfg),
        build_next_rel(BuildState::LoadingConfig, ev, params, r),
    ensures
        r matches Step::Next(s2, a) && s2 matches BuildState::Refreshing { mod_dir, jar }
            && mod_dir@ == params.directory@ + "/"@ + cfg.mod_id && jar@ == cfg.mod_id + "-"@
            + cfg.mod_version + ".jar"@,
{
    crate::codec::lemma_config_round_trip(cfg);
}

/// One transition of the build pipeline.
pub fn build_next(st: BuildState, ev: Event, params: &BuildParams) -> (r: Step<BuildState>)
    requires
        build_fits(st, ev),
    ensures
        build_next_rel(st, ev, *params, r),
{
    match (st, ev) {
        (BuildState::LoadingConfig, Event::Text(t)) => {
            match parse_config(t.as_str()) {
                Ok(config) => {
                    let mod_dir = join2(params.directory.as_str(), config.mod_id());
                    let mut jar: String = config.mod_id.clone();
                    jar.append("-");
                    jar.append(config.mod_version.as_str());
                    jar.append(".jar");
                    let res_dir = join2(mod_dir.as_str(), "src/main/resources");
                    let meta_path = join2(mod_dir.as_str(), "src/main/resources/pack.mcmeta");
                    let meta = pack_mcmeta_text(config.display_name());
                    let mut ops: Vec<FsOp> = Vec::new();
                    ops.push(FsOp::MkDirAll(res_dir));
                    ops.push(FsOp::WriteText(meta_path, meta));
                    proof {
                        assert(ops.deep_view() =~~= seq![
                            FsOpV::MkDirAll(mod_dir@ + "/"@ + "src/main/resources"@),
                            FsOpV::WriteText(
                                mod_dir@ + "/"@ + "src/main/resources/pack.mcmeta"@,
                                pack_mcmeta_spec(config.display_name@),
                            ),
                        ]);
                    }
                    Step::Next(BuildState::Refreshing { mod_dir, jar }, Action::Apply(ops))
                },
                Err(e) => Step::Stop(Err(e)),
            }
        },
        (BuildState::LoadingConfig, Event::Failed) => Step::Stop(Err(Error::FileIo)),
        (BuildState::Refreshing { mod_dir, jar }, Event::Done) => {
            let working_dir = mod_dir.clone();
            Step::Next(
                BuildState::Building { mod_dir, jar },
                Action::RunTool {
                    working_dir,
                    command: "build".to_owned(),
                    verbose: params.verbose,
                },
            )
        },
        (BuildState::Refreshing { .. }, Event::Failed) => Step::Stop(Err(Error::FileIo)),
        (BuildState::Building { mod_dir, jar }, Event::Exited(code)) => {
            if code == 0 {
                let out_dir = join2(params.directory.as_str(), "build");
                let mut from: String = mod_dir.clone();
                from.append("/build/libs/");
                from.append(jar.as_str());
                let mut to: String = params.directory.clone();
                to.append("/build/");
                to.append(jar.as_str());
                let mut ops: Vec<FsOp> = Vec::new();
                ops.push(FsOp::MkDirAll(out_dir));
                ops.push(FsOp::CopyFile(from, to));
                proof {
                    assert(ops.deep_view() =~~= seq![
                        FsOpV::MkDirAll(params.directory@ + "/"@ + "build"@),
                        FsOpV::CopyFile(
                            mod_dir@ + "/build/libs/"@ + jar@,
                            params.directory@ + "/build/"@ + jar@,
                        ),
                    ]);
                }
                Step::Next(BuildState::Collecting, Action::Apply(ops))
            } else {
                Step::Stop(Err(Error::BuildFailed))
            }
        },
        (BuildState::Building { .. }, Event::Failed) => Step::Stop(Err(Error::Process)),
        (BuildState::Collecting, Event::Done) => Step::Stop(Ok(())),
        (BuildState::Collecting, Event::Failed) => Step::Stop(Err(Error::FileIo)),
        _ => Step::Stop(Err(Error::Process)),
    }
}

} // verus!
