use theseus::document::{parse_profile, render_profile, Json};
use theseus::index::decode_index;
use theseus::launch::{exit_outcome, hook_command, step, LaunchAction, LaunchEvent, LaunchState};
use theseus::model::{
    icon_file_name, name_is_blank, Error, Hooks, JavaSettings, MemorySettings, ModLoader, Profile,
    ProfileMetadata, WindowSize, CURRENT_FORMAT_VERSION,
};
use theseus::resolve::{find_version, effective_hooks, effective_java_args, effective_memory, effective_resolution, java_path, Settings};
use theseus::store::Profiles;

fn s(x: &str) -> String {
    String::from(x)
}

fn obj(entries: Vec<(&str, Json)>) -> Json {
    Json::Object(entries.into_iter().map(|(k, v)| (s(k), v)).collect())
}

fn example_profile() -> Profile {
    Profile {
        path: s("/tmp/nunya/beeswax"),
        metadata: ProfileMetadata {
            name: s("Example Pack"),
            icon: None,
            game_version: s("1.18.2"),
            loader: ModLoader::Vanilla,
            loader_version: None,
            format_version: CURRENT_FORMAT_VERSION,
        },
        java: Some(JavaSettings { install: Some(s("/usr/bin/java")), extra_arguments: Some(Vec::new()) }),
        memory: Some(MemorySettings { minimum: None, maximum: 8192 }),
        resolution: Some(WindowSize(1920, 1080)),
        hooks: Some(Hooks { pre_launch: Vec::new(), wrapper: None, post_exit: Vec::new() }),
    }
}

fn example_json(as_written: bool) -> Json {
    let mut entries = Vec::new();
    if !as_written {
        entries.push(("path", Json::Str(s("/tmp/nunya/beeswax"))));
    }
    let mut metadata = vec![("name", Json::Str(s("Example Pack"))), ("game_version", Json::Str(s("1.18.2")))];
    if as_written {
        metadata.push(("loader", Json::Str(s("vanilla"))));
    }
    metadata.push(("format_version", Json::Number(1)));
    entries.push(("metadata", obj(metadata)));
    let mut java = vec![("install", Json::Str(s("/usr/bin/java")))];
    if as_written {
        java.push(("extra_arguments", Json::Array(Vec::new())));
    }
    entries.push(("java", obj(java)));
    entries.push(("memory", obj(vec![("maximum", Json::Number(8192))])));
    entries.push(("resolution", Json::Array(vec![Json::Number(1920), Json::Number(1080)])));
    entries.push(("hooks", obj(vec![])));
    obj(entries)
}

fn settings() -> Settings {
    Settings {
        java_8_path: Some(s("/opt/java8/bin/java")),
        java_17_path: Some(s("/opt/java17/bin/java")),
        custom_java_args: vec![s("-Xss1M")],
        memory: MemorySettings::default_memory(),
        game_resolution: WindowSize::default_size(),
        hooks: Hooks::default_hooks(),
    }
}

#[test]
fn profile_test() {
    let profile = example_profile();
    let rendered = render_profile(&profile);
    assert_eq!(format!("{:?}", rendered), format!("{:?}", example_json(true)));
    let parsed = parse_profile(&example_json(true), s("/tmp/nunya/beeswax")).unwrap();
    assert_eq!(format!("{:?}", parsed), format!("{:?}", profile));
    let mut without_arguments = example_profile();
    without_arguments.java = Some(JavaSettings { install: Some(s("/usr/bin/java")), extra_arguments: None });
    let parsed = parse_profile(&example_json(false), s("/tmp/nunya/beeswax")).unwrap();
    assert_eq!(format!("{:?}", parsed), format!("{:?}", without_arguments));
}

#[test]
fn profiles_profile_test() {
    let profile = example_profile();
    let parsed = parse_profile(&render_profile(&profile), s("/tmp/nunya/beeswax")).unwrap();
    assert_eq!(format!("{:?}", parsed), format!("{:?}", profile));
}

#[test]
fn unset_overrides_have_no_key() {
    let p = Profile::new(s("Pack"), s("1.19"), s("/p")).unwrap();
    match render_profile(&p) {
        Json::Object(fs) => {
            assert_eq!(fs.len(), 1);
            assert_eq!(fs[0].0, "metadata");
        }
        _ => panic!("not an object"),
    }
}

#[test]
fn missing_loader_reads_as_vanilla() {
    let doc = obj(vec![(
        "metadata",
        obj(vec![
            ("name", Json::Str(s("A"))),
            ("game_version", Json::Str(s("1.8"))),
            ("format_version", Json::Number(1)),
        ]),
    )]);
    let p = parse_profile(&doc, s("/a")).unwrap();
    assert_eq!(p.metadata.loader, ModLoader::Vanilla);
    assert_eq!(p.path, "/a");
}

#[test]
fn malformed_document_is_serialization_error() {
    let doc = obj(vec![("metadata", obj(vec![("name", Json::Number(3))]))]);
    assert!(matches!(parse_profile(&doc, s("/a")), Err(Error::SerializationError(_))));
    let bad_res = obj(vec![
        ("metadata", obj(vec![
            ("name", Json::Str(s("A"))),
            ("game_version", Json::Str(s("1.8"))),
            ("format_version", Json::Number(1)),
        ])),
        ("resolution", Json::Array(vec![Json::Number(70000), Json::Number(1)])),
    ]);
    assert!(matches!(parse_profile(&bad_res, s("/a")), Err(Error::SerializationError(_))));
}

#[test]
fn memory_merge() {
    let mut p = Profile::new(s("Pack"), s("1.19"), s("/p")).unwrap();
    let g = settings();
    assert_eq!(effective_memory(&p, &g).maximum, 2048);
    p.with_memory(Some(MemorySettings { minimum: None, maximum: 8192 }));
    assert_eq!(effective_memory(&p, &g), MemorySettings { minimum: None, maximum: 8192 });
    assert_eq!(effective_resolution(&p, &g), WindowSize(854, 480));
    assert_eq!(effective_java_args(&p, &g), &vec![s("-Xss1M")]);
    assert!(effective_hooks(&p, &g).pre_launch.is_empty());
}

#[test]
fn java_tiers() {
    let mut p = Profile::new(s("Pack"), s("1.19"), s("/p")).unwrap();
    let g = settings();
    assert_eq!(java_path(&p, &g, Some(17)).unwrap(), "/opt/java17/bin/java");
    assert_eq!(java_path(&p, &g, Some(16)).unwrap(), "/opt/java17/bin/java");
    assert_eq!(java_path(&p, &g, Some(8)).unwrap(), "/opt/java8/bin/java");
    assert_eq!(java_path(&p, &g, None).unwrap(), "/opt/java8/bin/java");
    p.with_java_settings(Some(JavaSettings { install: Some(s("/mine/java")), extra_arguments: None }));
    assert_eq!(java_path(&p, &g, Some(17)).unwrap(), "/mine/java");
    let mut none = settings();
    none.java_17_path = None;
    p.with_java_settings(None);
    assert!(java_path(&p, &none, Some(17)).is_none());
}

#[test]
fn hook_failure_aborts_launch() {
    let (st, a) = step(LaunchState::NotStarted, 3, true, LaunchEvent::Start);
    assert_eq!(a, LaunchAction::RunHook(0));
    let (st, a) = step(st, 3, true, LaunchEvent::HookExited(Some(0)));
    assert_eq!(a, LaunchAction::RunHook(1));
    let (st, a) = step(st, 3, true, LaunchEvent::HookExited(Some(3)));
    assert_eq!(st, LaunchState::HookFailed(3));
    assert_eq!(a, LaunchAction::Finish(Err(Error::ExitError(3))));
    let (st2, a) = step(st, 3, true, LaunchEvent::HookExited(Some(0)));
    assert_eq!(st2, st);
    assert_eq!(a, LaunchAction::Ignore);
}

#[test]
fn launch_runs_to_success() {
    let (st, a) = step(LaunchState::NotStarted, 0, true, LaunchEvent::Start);
    assert_eq!(a, LaunchAction::CheckJava);
    let (st, a) = step(st, 0, true, LaunchEvent::JavaChecked(true));
    assert_eq!(a, LaunchAction::Spawn);
    let (st, a) = step(st, 0, true, LaunchEvent::Spawned);
    assert_eq!(a, LaunchAction::Wait);
    let (st, a) = step(st, 0, true, LaunchEvent::GameExited(Some(0)));
    assert_eq!(st, LaunchState::ExitedSuccess);
    assert_eq!(a, LaunchAction::Finish(Ok(())));
}

#[test]
fn missing_java_fails() {
    let (_, a) = step(LaunchState::NotStarted, 0, false, LaunchEvent::Start);
    assert_eq!(a, LaunchAction::Finish(Err(Error::JavaNotFoundError)));
    let (st, a) = step(LaunchState::JavaResolving, 0, true, LaunchEvent::JavaChecked(false));
    assert_eq!(st, LaunchState::JavaMissing);
    assert_eq!(a, LaunchAction::Finish(Err(Error::JavaNotFoundError)));
}

#[test]
fn exit_codes_translate() {
    assert_eq!(exit_outcome(Some(0)), Ok(()));
    assert_eq!(exit_outcome(Some(2)), Err(Error::ExitError(2)));
    assert_eq!(exit_outcome(None), Err(Error::ExitError(-1)));
    let (st, a) = step(LaunchState::Running, 0, true, LaunchEvent::KilledExited(None));
    assert_eq!(st, LaunchState::Killed(-1));
    assert_eq!(a, LaunchAction::Finish(Err(Error::ExitError(-1))));
}

#[test]
fn hook_commands_split_on_spaces() {
    assert_eq!(hook_command("echo a b"), vec![s("echo"), s("a"), s("b")]);
    assert_eq!(hook_command("run"), vec![s("run")]);
    assert!(hook_command("").is_empty());
    assert!(hook_command(" \t ").is_empty());
    assert_eq!(hook_command("a  b"), vec![s("a"), s("b")]);
    assert_eq!(hook_command("  a\tb\u{3000}c "), vec![s("a"), s("b"), s("c")]);
}

#[test]
fn name_validation() {
    assert!(matches!(Profile::new(s("   "), s("1.19"), s("/p")), Err(Error::InputError(_))));
    assert!(matches!(Profile::new(s(""), s("1.19"), s("/p")), Err(Error::InputError(_))));
    let p = Profile::new(s(" Pack "), s("1.19"), s("/p")).unwrap();
    assert_eq!(p.metadata.name, " Pack ");
    assert!(name_is_blank("\t \n"));
    assert!(matches!(Profile::new(s("\u{a0}\u{2003}"), s("1.19"), s("/p")), Err(Error::InputError(_))));
    assert!(name_is_blank("\u{a0}"));
    assert!(!name_is_blank(" x "));
}

#[test]
fn icon_extensions() {
    let mut p = Profile::new(s("Pack"), s("1.19"), s("/p")).unwrap();
    assert!(matches!(p.with_icon("exe"), Err(Error::InputError(_))));
    assert!(p.metadata.icon.is_none());
    assert!(matches!(icon_file_name("exe"), Err(Error::InputError(_))));
    assert_eq!(icon_file_name("png").unwrap(), "icon.png");
    assert!(p.with_icon("png").is_ok());
    assert_eq!(p.metadata.icon.as_deref(), Some("./icon.png"));
}

#[test]
fn builders_set_fields() {
    let mut p = Profile::new(s("Pack"), s("1.19"), s("/p")).unwrap();
    p.with_name(s("Other"));
    p.with_game_version(s("1.20"));
    p.with_loader(ModLoader::Fabric, None);
    p.with_resolution(Some(WindowSize(800, 600)));
    p.with_hooks(Some(Hooks { pre_launch: vec![s("echo hi")], wrapper: Some(s("gamemoderun")), post_exit: Vec::new() }));
    assert_eq!(p.metadata.name, "Other");
    assert_eq!(p.metadata.game_version, "1.20");
    assert_eq!(p.metadata.loader, ModLoader::Fabric);
    assert_eq!(p.metadata.loader.name(), "Fabric");
    assert_eq!(p.resolution, Some(WindowSize(800, 600)));
    let back = parse_profile(&render_profile(&p), s("/p")).unwrap();
    assert_eq!(format!("{:?}", back), format!("{:?}", p));
}

#[test]
fn store_round_trip() {
    let mut store = Profiles::new();
    let mut p = Profile::new(s("Pack"), s("1.19"), s("/games/x")).unwrap();
    p.with_memory(Some(MemorySettings { minimum: Some(512), maximum: 4096 }));
    store.insert(p.clone());
    store.insert(Profile::new(s("Two"), s("1.8"), s("/games/y")).unwrap());
    let bytes = store.index_bytes().unwrap();
    let paths = decode_index(Some(bytes)).unwrap();
    assert_eq!(paths.len(), 2);
    let docs: Vec<Json> = paths.iter().map(|q| render_profile(store.get(q).unwrap())).collect();
    let reloaded = Profiles::load(paths, docs).unwrap();
    let got = reloaded.get("/games/x").unwrap();
    assert_eq!(format!("{:?}", got), format!("{:?}", p));
    assert!(reloaded.get("/games/y").is_some());
}

#[test]
fn index_encoding_is_length_prefixed() {
    let mut store = Profiles::new();
    store.insert(Profile::new(s("Pack"), s("1.19"), s("/ab")).unwrap());
    let bytes = store.index_bytes().unwrap();
    assert_eq!(bytes.len(), 8 + 8 + 3);
    assert_eq!(bytes.clone(), store.index_bytes().unwrap());
    assert_eq!(bytes, vec![1, 0, 0, 0, 0, 0, 0, 0, 3, 0, 0, 0, 0, 0, 0, 0, b'/', b'a', b'b']);
    assert_eq!(decode_index(Some(bytes)).unwrap(), vec![s("/ab")]);
    assert!(decode_index(None).unwrap().is_empty());
    assert!(matches!(decode_index(Some(vec![1, 2])), Err(Error::SerializationError(_))));
}

#[test]
fn sync_records_index() {
    let mut store = Profiles::new();
    store.insert(Profile::new(s("Pack"), s("1.19"), s("/ab")).unwrap());
    let mut batch = sled::Batch::default();
    let before = format!("{:?}", batch);
    assert!(store.sync(&mut batch).is_ok());
    assert_ne!(format!("{:?}", batch), before);
}

#[test]
fn remove_is_idempotent() {
    let mut store = Profiles::new();
    store.insert(Profile::new(s("Pack"), s("1.19"), s("/a")).unwrap());
    assert!(store.remove("/missing").is_none());
    assert!(store.get("/a").is_some());
    let removed = store.remove("/a").unwrap();
    assert_eq!(removed.metadata.name, "Pack");
    assert!(store.remove("/a").is_none());
    assert!(store.get("/a").is_none());
}

#[test]
fn insert_replaces_same_path() {
    let mut store = Profiles::new();
    store.insert(Profile::new(s("One"), s("1.19"), s("/a")).unwrap());
    store.insert(Profile::new(s("Two"), s("1.19"), s("/a")).unwrap());
    assert_eq!(store.paths().len(), 1);
    assert_eq!(store.get("/a").unwrap().metadata.name, "Two");
}

#[test]
fn bad_document_fails_load() {
    let r = Profiles::load(vec![s("/a")], vec![Json::Null]);
    assert!(matches!(r, Err(Error::SerializationError(_))));
}

#[test]
fn version_lookup() {
    let known = vec![s("1.8.9"), s("1.18.2"), s("1.18.2")];
    assert_eq!(find_version(&known, "1.18.2"), Ok(1));
    assert_eq!(find_version(&known, "1.8.9"), Ok(0));
    assert!(matches!(find_version(&known, "9.9"), Err(Error::VersionNotFound(v)) if v == "9.9"));
}

#[test]
fn duplicate_hooks_are_refused() {
    let doc = obj(vec![
        ("metadata", obj(vec![
            ("name", Json::Str(s("A"))),
            ("game_version", Json::Str(s("1.8"))),
            ("format_version", Json::Number(1)),
        ])),
        ("hooks", obj(vec![("pre_launch", Json::Array(vec![Json::Str(s("x")), Json::Str(s("x"))]))])),
    ]);
    assert!(matches!(parse_profile(&doc, s("/a")), Err(Error::SerializationError(_))));
    assert!(theseus::model::all_distinct(&vec![s("a"), s("b")]));
    assert!(!theseus::model::all_distinct(&vec![s("a"), s("b"), s("a")]));
    let mut p = Profile::new(s("Pack"), s("1.19"), s("/p")).unwrap();
    assert!(p.is_well_formed());
    p.with_hooks(Some(Hooks { pre_launch: vec![s("x"), s("x")], wrapper: None, post_exit: Vec::new() }));
    assert!(!p.is_well_formed());
}

#[test]
fn hooks_and_loader_version_round_trip() {
    let mut p = Profile::new(s("Pack"), s("1.19"), s("/p")).unwrap();
    p.with_loader(
        ModLoader::Forge,
        Some(theseus::model::LoaderVersion { id: s("40.1"), url: s("https://example.invalid/forge"), stable: true }),
    );
    p.with_hooks(Some(Hooks { pre_launch: vec![s("a"), s("b c")], wrapper: None, post_exit: vec![s("d")] }));
    p.with_icon("svg").unwrap();
    let back = parse_profile(&render_profile(&p), s("/p")).unwrap();
    assert_eq!(format!("{:?}", back), format!("{:?}", p));
}

#[test]
fn defaults() {
    assert_eq!(ModLoader::default(), ModLoader::Vanilla);
    assert_eq!(MemorySettings::default(), MemorySettings { minimum: None, maximum: 2048 });
    assert_eq!(WindowSize::default(), WindowSize(854, 480));
    let h = Hooks::default();
    assert!(h.pre_launch.is_empty() && h.wrapper.is_none() && h.post_exit.is_empty());
}
