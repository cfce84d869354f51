use std::collections::{HashMap, HashSet};
use std::io::{Cursor, Write};

use modcrafter::codec::parse_config;
use modcrafter::config::Version;
use modcrafter::errors::Error;
use modcrafter::fsops::FsOp;
use modcrafter::pipeline::{
    build_next, build_start, create_next, create_start, Action, BuildParams, BuildState,
    CreateParams, CreateState, Event, Step,
};
use zip::write::SimpleFileOptions;
use zip::ZipWriter;

/// An in-memory filesystem standing in for the real one, plus a mocked
/// build tool that succeeds as a no-op (producing the jar on `build`).
struct MockWorld {
    files: HashMap<String, Vec<u8>>,
    dirs: HashSet<String>,
    commands: Vec<String>,
}

impl MockWorld {
    fn new() -> Self {
        MockWorld { files: HashMap::new(), dirs: HashSet::new(), commands: Vec::new() }
    }

    fn apply(&mut self, ops: &[FsOp]) {
        for op in ops {
            match op {
                FsOp::MkDirAll(p) => {
                    self.dirs.insert(p.clone());
                }
                FsOp::WriteFile(p, data, _) => {
                    self.files.insert(p.clone(), data.clone());
                }
                FsOp::WriteText(p, text) => {
                    self.files.insert(p.clone(), text.as_bytes().to_vec());
                }
                FsOp::RemoveTree(p) => {
                    let prefix = format!("{}/", p);
                    self.files.retain(|k, _| k != p && !k.starts_with(&prefix));
                    self.dirs.retain(|k| k != p && !k.starts_with(&prefix));
                }
                FsOp::CopyFile(from, to) => {
                    let data = self.files.get(from).expect("copy source must exist").clone();
                    self.files.insert(to.clone(), data);
                }
            }
        }
    }

    fn run_tool(&mut self, working_dir: &str, command: &str) -> i32 {
        self.commands.push(format!("{} @ {}", command, working_dir));
        if command == "build" {
            // The mocked build tool drops its artifact where the real one would.
            let cfg = parse_config(
                std::str::from_utf8(self.files.get("proj/config.json").unwrap()).unwrap(),
            )
            .unwrap();
            let jar = format!(
                "{}/build/libs/{}-{}.jar",
                working_dir,
                cfg.mod_id(),
                cfg.mod_version()
            );
            self.files.insert(jar, b"jar bytes".to_vec());
        }
        0
    }
}

fn sdk_zip() -> Vec<u8> {
    let gradle = "group = 'com.yourname.modid'\nminecraft 'net.minecraftforge:forge:1.16.5-36.2.0'\nversion = '1.0'\nexamplemod\n";
    let mut writer = ZipWriter::new(Cursor::new(Vec::new()));
    writer
        .start_file("build.gradle", SimpleFileOptions::default())
        .unwrap();
    writer.write_all(gradle.as_bytes()).unwrap();
    writer
        .add_directory("src/", SimpleFileOptions::default())
        .unwrap();
    writer
        .start_file("src/main/java/Example.java", SimpleFileOptions::default())
        .unwrap();
    writer.write_all(b"class Example {}").unwrap();
    writer.finish().unwrap().into_inner()
}

fn drive_create(world: &mut MockWorld, params: &CreateParams, exists: bool) -> Result<(), Error> {
    let (mut state, mut action) = create_start(params);
    loop {
        let event = match &action {
            Action::CheckExists(_) => Event::Exists(exists),
            Action::PrepareDir(p) => {
                world.dirs.insert(p.clone());
                Event::DirName(Some(p.clone()))
            }
            Action::ReadBytes(_) => Event::Bytes(sdk_zip()),
            Action::ReadText(p) => match world.files.get(p) {
                Some(data) => Event::Text(String::from_utf8(data.clone()).unwrap()),
                None => Event::Failed,
            },
            Action::Apply(ops) => {
                world.apply(ops);
                Event::Done
            }
            Action::RunTool { working_dir, command, .. } => {
                Event::Exited(world.run_tool(working_dir, command))
            }
        };
        match create_next(state, event, params) {
            Step::Next(s, a) => {
                state = s;
                action = a;
            }
            Step::Stop(result) => return result,
        }
    }
}

fn drive_build(world: &mut MockWorld, params: &BuildParams) -> Result<(), Error> {
    let (mut state, mut action) = build_start(params);
    loop {
        let event = match &action {
            Action::CheckExists(p) => Event::Exists(world.files.contains_key(p)),
            Action::PrepareDir(p) => Event::DirName(Some(p.clone())),
            Action::ReadBytes(p) | Action::ReadText(p) => match world.files.get(p) {
                Some(data) => Event::Text(String::from_utf8(data.clone()).unwrap()),
                None => Event::Failed,
            },
            Action::Apply(ops) => {
                world.apply(ops);
                Event::Done
            }
            Action::RunTool { working_dir, command, .. } => {
                Event::Exited(world.run_tool(working_dir, command))
            }
        };
        match build_next(state, event, params) {
            Step::Next(s, a) => {
                state = s;
                action = a;
            }
            Step::Stop(result) => return result,
        }
    }
}

fn params_for(dir: &str) -> CreateParams {
    CreateParams {
        directory: dir.to_owned(),
        archive_path: "sdk.zip".to_owned(),
        display_name: None,
        mod_id: None,
        mod_version: None,
        description: None,
        authors: None,
        verbose: false,
    }
}

#[test]
fn create_on_existing_directory_fails_without_mutation() {
    let params = params_for("proj");
    let (state, action) = create_start(&params);
    // The first action only looks.
    match &action {
        Action::CheckExists(p) => assert_eq!(p, "proj"),
        _ => panic!("the first action must be the existence check"),
    }
    match create_next(state, Event::Exists(true), &params) {
        Step::Stop(Err(Error::ProjectExists)) => {}
        _ => panic!("an existing directory must abort the pipeline"),
    }
}

#[test]
fn create_then_build_produces_the_output_jar() {
    let mut world = MockWorld::new();
    let params = params_for("proj");
    drive_create(&mut world, &params, false).unwrap();

    // The descriptor was persisted with the discovered SDK version.
    let cfg =
        parse_config(std::str::from_utf8(world.files.get("proj/config.json").unwrap()).unwrap())
            .unwrap();
    assert_eq!(cfg.mod_id(), "proj");
    assert_eq!(cfg.mod_version(), "0.1.0");
    assert_eq!(cfg.mc_version, Version::parse("1.16.5").unwrap());

    // The build definition was rewritten and the example tree removed.
    let gradle =
        String::from_utf8(world.files.get("proj/proj/build.gradle").unwrap().clone()).unwrap();
    assert!(gradle.contains("modcrafter.proj"));
    assert!(!gradle.contains("examplemod"));
    assert!(gradle.contains("version = '0.1.0'"));
    assert!(!world.files.contains_key("proj/proj/src/main/java/Example.java"));
    assert_eq!(world.commands, vec!["prepareRuns @ proj/proj"]);

    let build_params = BuildParams { directory: "proj".to_owned(), verbose: false };
    drive_build(&mut world, &build_params).unwrap();
    assert_eq!(
        world.files.get("proj/build/proj-0.1.0.jar").map(Vec::as_slice),
        Some(b"jar bytes".as_slice())
    );
    assert!(world
        .files
        .get("proj/proj/src/main/resources/pack.mcmeta")
        .map(|d| String::from_utf8(d.clone()).unwrap().contains("proj resources"))
        .unwrap_or(false));
}

#[test]
fn build_without_descriptor_fails_with_file_error() {
    let mut world = MockWorld::new();
    let build_params = BuildParams { directory: "proj".to_owned(), verbose: false };
    assert_eq!(drive_build(&mut world, &build_params).unwrap_err(), Error::FileIo);
}

#[test]
fn build_tool_failure_surfaces_as_build_failed() {
    let params = params_for("proj");
    let state = CreateState::Running;
    match create_next(state, Event::Exited(1), &params) {
        Step::Stop(Err(Error::BuildFailed)) => {}
        _ => panic!("a non-zero exit status must become BuildFailed"),
    }
    let bp = BuildParams { directory: "proj".to_owned(), verbose: false };
    match build_next(BuildState::Collecting, Event::Done, &bp) {
        Step::Stop(Ok(())) => {}
        _ => panic!("a finished collection must end the pipeline successfully"),
    }
}

#[test]
fn archive_that_is_not_a_zip_aborts_create() {
    let params = params_for("proj2");
    let (state, action) = create_start(&params);
    assert!(matches!(action, Action::CheckExists(_)));
    let state = match create_next(state, Event::Exists(false), &params) {
        Step::Next(s, Action::PrepareDir(_)) => s,
        _ => panic!("expected the directory preparation step"),
    };
    let state = match create_next(state, Event::DirName(Some("proj2".to_owned())), &params) {
        Step::Next(s, Action::ReadBytes(p)) => {
            assert_eq!(p, "sdk.zip");
            s
        }
        _ => panic!("expected the archive read step"),
    };
    match create_next(state, Event::Bytes(b"not a zip".to_vec()), &params) {
        Step::Stop(Err(Error::Archive)) => {}
        _ => panic!("unreadable archive bytes must abort with the archive error"),
    }
}

#[test]
fn sdk_without_version_marker_aborts_with_pattern_not_found() {
    let params = params_for("proj3");
    let mut writer = ZipWriter::new(Cursor::new(Vec::new()));
    writer
        .start_file("build.gradle", SimpleFileOptions::default())
        .unwrap();
    writer.write_all(b"no marker here").unwrap();
    let bytes = writer.finish().unwrap().into_inner();

    let state = CreateState::Checking;
    let state = match create_next(state, Event::Exists(false), &params) {
        Step::Next(s, _) => s,
        _ => panic!("expected a next step"),
    };
    let state = match create_next(state, Event::DirName(Some("proj3".to_owned())), &params) {
        Step::Next(s, _) => s,
        _ => panic!("expected a next step"),
    };
    match create_next(state, Event::Bytes(bytes), &params) {
        Step::Stop(Err(Error::PatternNotFound)) => {}
        _ => panic!("a build definition without the marker must abort"),
    }
}
