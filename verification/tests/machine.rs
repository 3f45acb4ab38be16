use mc_launch::accounts::{Account, AccountType, TokenGrant};
use mc_launch::command::LaunchInput;
use mc_launch::environment::{EnvEdit, EnvSnapshot};
use mc_launch::errors::LaunchError;
use mc_launch::machine::{LaunchAction, LaunchEvent, LaunchMachine, Phase, RunState};
use mc_launch::models::{
    InstanceConfig, LaunchPatch, LaunchSettings, LoaderArguments, LoaderLibrary,
    LoaderProfileJson, MetaArtifact, MetaAssetIndex, MetaJson, MetaLibrary, MetaLibraryDownloads,
    ModLoader, Platform,
};
use mc_launch::paths::{Directories, LaunchPath, PathRoot};

fn strings(list: &[&str]) -> Vec<String> {
    list.iter().map(|s| s.to_string()).collect()
}

fn native(parts: &[&str]) -> String {
    parts.iter().collect::<std::path::PathBuf>().to_string_lossy().into_owned()
}

fn input(loader: ModLoader) -> LaunchInput {
    LaunchInput {
        config: InstanceConfig {
            name: "pack".to_owned(),
            game_version: "1.20.1".to_owned(),
            loader,
            loader_version: Some("47.4.0".to_owned()),
            java_path: None,
            memory_max: None,
            memory_min: None,
            jvm_args: strings(&["-Duser"]),
        },
        dirs: Directories { instances: "/instances".to_owned(), meta: "/meta".to_owned() },
        platform: Platform { os: "linux".to_owned(), windows: false, linux: true },
    }
}

fn settings_loaded(java_path: Option<&str>) -> LaunchEvent {
    LaunchEvent::SettingsLoaded {
        settings: LaunchSettings {
            java_path: java_path.map(str::to_owned),
            memory_min: "1G".to_owned(),
            memory_max: "4G".to_owned(),
        },
    }
}

fn environment_loaded() -> LaunchEvent {
    LaunchEvent::EnvironmentLoaded {
        environment: EnvSnapshot {
            ld_library_path: Some("/x".to_owned()),
            launcher_ld_library_path: None,
            ld_preload: None,
            launcher_ld_preload: None,
            xdg_session_type: None,
            wayland_display: None,
            display: None,
        },
    }
}

fn meta() -> MetaJson {
    MetaJson {
        main_class: "net.minecraft.client.main.Main".to_owned(),
        asset_index: MetaAssetIndex { id: "5".to_owned() },
        libraries: vec![MetaLibrary {
            downloads: Some(MetaLibraryDownloads {
                artifact: Some(MetaArtifact { path: "base.jar".to_owned() }),
            }),
            rules: None,
        }],
    }
}

fn profile() -> LoaderProfileJson {
    LoaderProfileJson {
        main_class: "loader.Main".to_owned(),
        libraries: vec![
            LoaderLibrary { name: "g:a:1".to_owned() },
            LoaderLibrary { name: "broken".to_owned() },
            LoaderLibrary { name: "g:b:1".to_owned() },
            LoaderLibrary { name: "g:c:1".to_owned() },
        ],
        game_arguments: strings(&["--legacy"]),
        jvm_arguments: strings(&["-Dlibs=${library_directory}", "-Dname=${version_name}"]),
        arguments: Some(LoaderArguments { game: strings(&["--modern"]), jvm: Vec::new() }),
    }
}

fn coordinates() -> LaunchEvent {
    LaunchEvent::CoordinatesResolved {
        paths: vec![
            Some("a.jar".to_owned()),
            None,
            Some("b.jar".to_owned()),
            Some("c.jar".to_owned()),
        ],
    }
}

fn account(account_type: AccountType) -> Account {
    Account {
        uuid: "u-1".to_owned(),
        username: "Player".to_owned(),
        account_type,
        active: true,
        refresh_token: Some("refresh".to_owned()),
        cached_mc_token: None,
        cached_mc_token_expires_at: None,
    }
}

fn accounts_loaded(account_type: AccountType, has_microsoft_account: bool) -> LaunchEvent {
    LaunchEvent::AccountsLoaded {
        active: Some(account(account_type)),
        has_microsoft_account,
        accounts: vec![account(account_type)],
    }
}

fn found(found: bool) -> LaunchEvent {
    LaunchEvent::Checked { found }
}

fn up_to_profile(input: LaunchInput) -> LaunchMachine {
    LaunchMachine::start(input)
        .advance(found(true))
        .advance(LaunchEvent::MetaLoaded { meta: meta() })
}

fn up_to_accounts(input: LaunchInput) -> LaunchMachine {
    up_to_profile(input).advance(settings_loaded(Some("/usr/bin/java")))
}

fn asked_path(machine: &LaunchMachine) -> String {
    let path = match machine.action() {
        LaunchAction::CheckExists { path } => path,
        LaunchAction::ReadMeta { path } => path,
        LaunchAction::ReadProfile { path } => path,
        _ => panic!("no file is asked for"),
    };
    path.to_text(&machine.input.dirs)
}

fn failure(machine: LaunchMachine) -> String {
    assert!(matches!(machine.action(), LaunchAction::Stop));
    assert_eq!(machine.run_state(), None);
    match machine.phase {
        Phase::Failed { error } => error.message(),
        _ => panic!("the launch has not failed"),
    }
}

#[test]
fn vanilla_launch_with_an_offline_account() {
    let machine = LaunchMachine::start(input(ModLoader::Vanilla));
    assert_eq!(asked_path(&machine), native(&["/meta", "versions", "1.20.1", "meta.json"]));
    let machine = machine.advance(found(true));
    assert!(matches!(machine.action(), LaunchAction::ReadMeta { .. }));
    assert_eq!(asked_path(&machine), native(&["/meta", "versions", "1.20.1", "meta.json"]));
    let machine = machine.advance(LaunchEvent::MetaLoaded { meta: meta() });
    assert!(matches!(machine.action(), LaunchAction::LoadSettings));
    let machine = machine.advance(settings_loaded(Some("/usr/bin/java")));
    assert!(matches!(machine.action(), LaunchAction::LoadAccounts));
    assert_eq!(machine.run_state(), None);
    let machine = machine.advance(accounts_loaded(AccountType::Offline, true));
    assert!(matches!(machine.action(), LaunchAction::ReadEnvironment));
    assert!(!machine.can_be_killed());
    let machine = machine.advance(environment_loaded());
    assert!(machine.can_be_killed());
    assert_eq!(machine.run_state(), Some(RunState::Starting));
    match machine.action() {
        LaunchAction::Spawn { command } => {
            assert_eq!(command.program, "/usr/bin/java");
            let game_dir = native(&["/instances", "pack", ".minecraft"]);
            assert_eq!(command.current_dir.to_text(&machine.input.dirs), game_dir);
            let classpath = format!(
                "{}:{}",
                native(&["/meta", "libraries", "base.jar"]),
                native(&["/meta", "versions", "1.20.1", "1.20.1.jar"])
            );
            assert_eq!(command.jvm_args, strings(&["-Xms1G", "-Xmx4G", "-Duser"]));
            assert_eq!(command.classpath.join(":"), classpath);
            assert_eq!(command.main_class, "net.minecraft.client.main.Main");
            assert_eq!(
                command.args(),
                strings(&[
                    "-Xms1G",
                    "-Xmx4G",
                    "-Duser",
                    "-cp",
                    &classpath,
                    "net.minecraft.client.main.Main",
                    "--username",
                    "Player",
                    "--version",
                    "1.20.1",
                    "--gameDir",
                    &game_dir,
                    "--assetsDir",
                    &native(&["/meta", "assets"]),
                    "--assetIndex",
                    "5",
                    "--uuid",
                    "u-1",
                    "--accessToken",
                    "0",
                    "--userProperties",
                    "{}",
                    "--userType",
                    "legacy",
                ])
            );
            assert_eq!(command.environment.len(), 1);
            assert!(matches!(
                &command.environment[0],
                EnvEdit::Remove { name } if name == "LD_LIBRARY_PATH"
            ));
        }
        _ => panic!("the game should be started"),
    }
    let machine = machine.advance(LaunchEvent::Spawned);
    assert_eq!(machine.run_state(), Some(RunState::Running));
    assert!(matches!(machine.action(), LaunchAction::Supervise));
    assert!(machine.can_be_killed());
    let machine = machine.advance(LaunchEvent::ProcessExited { code: Some(0) });
    assert_eq!(machine.run_state(), None);
    assert!(matches!(machine.action(), LaunchAction::RecordPlay));
    assert!(machine.can_be_killed());
    let machine = machine.advance(LaunchEvent::PlayRecorded);
    assert_eq!(machine.run_state(), None);
    assert!(matches!(machine.action(), LaunchAction::Stop));
    assert!(!machine.can_be_killed());
}

#[test]
fn missing_metadata_ends_the_launch() {
    let machine = LaunchMachine::start(input(ModLoader::Vanilla)).advance(found(false));
    let path = native(&["/meta", "versions", "1.20.1", "meta.json"]);
    assert_eq!(
        failure(machine),
        format!("Version metadata not found: {path}. Re-create the instance to fix this.")
    );
}

#[test]
fn missing_profile_ends_the_launch() {
    let machine = up_to_profile(input(ModLoader::Fabric));
    let path = native(&["/meta", "loader-profiles", "fabric-1.20.1-47.4.0.json"]);
    assert_eq!(asked_path(&machine), path);
    assert_eq!(
        failure(machine.advance(found(false))),
        format!("Version metadata not found: {path}. Re-create the instance to fix this.")
    );
}

#[test]
fn unreadable_files_end_the_launch() {
    let io = || std::io::Error::new(std::io::ErrorKind::Other, "cannot read");
    let json = || serde_json::from_slice::<u32>(b"x").unwrap_err();
    let reading = || LaunchMachine::start(input(ModLoader::Quilt)).advance(found(true));
    let machine = reading().advance(LaunchEvent::ReadFailed { error: io() });
    assert!(matches!(machine.phase, Phase::Failed { error: LaunchError::Io(_) }));
    let machine = reading().advance(LaunchEvent::ParseFailed { cause: json() });
    assert!(matches!(machine.phase, Phase::Failed { error: LaunchError::Json(_) }));
    let reading_profile = || up_to_profile(input(ModLoader::Quilt)).advance(found(true));
    assert_eq!(
        asked_path(&reading_profile()),
        native(&["/meta", "loader-profiles", "quilt-1.20.1-47.4.0.json"])
    );
    let machine = reading_profile().advance(LaunchEvent::ReadFailed { error: io() });
    assert_eq!(failure(machine), "IO error: cannot read");
    let machine = reading_profile().advance(LaunchEvent::ParseFailed { cause: json() });
    assert!(matches!(machine.phase, Phase::Failed { error: LaunchError::Json(_) }));
}

fn args_after(machine: LaunchMachine) -> Vec<String> {
    let machine = machine
        .advance(settings_loaded(Some("/usr/bin/java")))
        .advance(accounts_loaded(AccountType::Offline, true))
        .advance(environment_loaded());
    match machine.phase {
        Phase::Spawning { command } => command.args(),
        _ => panic!("the game should be started"),
    }
}

#[test]
fn fabric_takes_all_libraries_from_the_shared_ones() {
    let machine = up_to_profile(input(ModLoader::Fabric))
        .advance(found(true))
        .advance(LaunchEvent::ProfileLoaded { profile: profile() });
    match machine.action() {
        LaunchAction::ResolveCoordinates { libraries } => {
            assert_eq!(libraries.len(), 4);
            assert_eq!(libraries[0].name, "g:a:1");
        }
        _ => panic!("coordinates should be asked for"),
    }
    let args = args_after(machine.advance(coordinates()));
    let libs = |name: &str| native(&["/meta", "libraries", name]);
    assert_eq!(args[2], format!("-Dlibs={}", native(&["/meta", "libraries"])));
    assert_eq!(args[3], "-Dname=1.20.1");
    assert_eq!(args[4], "-Duser");
    assert_eq!(
        args[6],
        [
            libs("base.jar"),
            libs("a.jar"),
            libs("b.jar"),
            libs("c.jar"),
            native(&["/meta", "versions", "1.20.1", "1.20.1.jar"])
        ]
        .join(":")
    );
    assert_eq!(args[7], "loader.Main");
    assert_eq!(args.last().map(String::as_str), Some("--modern"));
}

fn probed(loader: ModLoader) -> LaunchMachine {
    let local = |name: &str| native(&["/instances", "pack", ".minecraft", "libraries", name]);
    let shared = |name: &str| native(&["/meta", "libraries", name]);
    let machine = up_to_profile(input(loader))
        .advance(found(true))
        .advance(LaunchEvent::ProfileLoaded { profile: profile() })
        .advance(coordinates());
    assert_eq!(asked_path(&machine), local("a.jar"));
    let machine = machine.advance(found(true));
    assert_eq!(asked_path(&machine), local("b.jar"));
    let machine = machine.advance(found(false));
    assert_eq!(asked_path(&machine), shared("b.jar"));
    let machine = machine.advance(found(true));
    assert_eq!(asked_path(&machine), local("c.jar"));
    let machine = machine.advance(found(false));
    assert_eq!(asked_path(&machine), shared("c.jar"));
    machine.advance(found(false))
}

#[test]
fn local_libraries_take_priority() {
    let args = args_after(probed(ModLoader::NeoForge));
    let local_dir = native(&["/instances", "pack", ".minecraft", "libraries"]);
    assert_eq!(args[2], format!("-Dlibs={local_dir}"));
    assert_eq!(args[3], "-Dname=neoforge-47.4.0");
    assert_eq!(
        args[6],
        [
            native(&["/meta", "libraries", "base.jar"]),
            native(&[&local_dir, "a.jar"]),
            native(&["/meta", "libraries", "b.jar"]),
            native(&["/meta", "versions", "1.20.1", "1.20.1.jar"])
        ]
        .join(":")
    );
}

#[test]
fn forge_is_patched() {
    let machine = probed(ModLoader::Forge);
    match machine.action() {
        LaunchAction::ApplyPatches { minecraft_dir, library_dir, classpath } => {
            let text = |path: &LaunchPath| path.to_text(&machine.input.dirs);
            assert_eq!(text(&minecraft_dir), native(&["/instances", "pack", ".minecraft"]));
            assert_eq!(text(&library_dir), native(&["/meta", "libraries"]));
            assert_eq!(classpath.len(), 4);
        }
        _ => panic!("patches should be applied"),
    }
    let machine = machine.advance(LaunchEvent::Patched {
        classpath: vec![LaunchPath {
            root: PathRoot::Fixed("/patched.jar".to_owned()),
            parts: Vec::new(),
        }],
        patch: Some(LaunchPatch {
            jvm_args: strings(&["-Dpatch"]),
            main_class: "patch.Main".to_owned(),
            extra_args: strings(&["--patched"]),
        }),
    });
    let args = args_after(machine);
    assert_eq!(args[3], "-Dname=1.20.1-forge-47.4.0");
    assert_eq!(
        args[4..10],
        strings(&["-Dpatch", "-Duser", "-cp", "/patched.jar", "patch.Main", "--patched"])
    );
    assert_eq!(args[10], "--username");
}

#[test]
fn forge_without_a_patch_keeps_its_main_class() {
    let machine = probed(ModLoader::Forge)
        .advance(LaunchEvent::Patched { classpath: Vec::new(), patch: None });
    let args = args_after(machine);
    assert_eq!(args[4..8], strings(&["-Duser", "-cp", "", "loader.Main"]));
}

#[test]
fn forge_from_1_21_on_starts_its_game_args_with_the_launch_target() {
    let mut input = input(ModLoader::Forge);
    input.config.game_version = "1.21".to_owned();
    let machine = up_to_profile(input)
        .advance(found(true))
        .advance(LaunchEvent::ProfileLoaded { profile: profile() })
        .advance(LaunchEvent::CoordinatesResolved { paths: Vec::new() })
        .advance(LaunchEvent::Patched { classpath: Vec::new(), patch: None });
    let args = args_after(machine);
    assert_eq!(args[8..11], strings(&["--launchTarget", "forge_client", "--username"]));
}

#[test]
fn java_of_the_instance_comes_before_the_launchers_and_detection() {
    let java = |config: Option<&str>, settings: Option<&str>| {
        let mut input = input(ModLoader::Vanilla);
        input.config.java_path = config.map(str::to_owned);
        let mut machine = up_to_profile(input).advance(settings_loaded(settings));
        if matches!(machine.action(), LaunchAction::DetectJava) {
            machine = machine.advance(LaunchEvent::JavaDetected { java: "found".to_owned() });
        }
        let machine = machine
            .advance(accounts_loaded(AccountType::Offline, true))
            .advance(environment_loaded());
        match machine.phase {
            Phase::Spawning { command } => command.program,
            _ => panic!("the game should be started"),
        }
    };
    assert_eq!(java(Some("own"), Some("global")), "own");
    assert_eq!(java(Some("own"), None), "own");
    assert_eq!(java(None, Some("global")), "global");
    assert_eq!(java(None, None), "found");
}

#[test]
fn launch_without_an_account_is_refused() {
    let machine = up_to_accounts(input(ModLoader::Vanilla)).advance(LaunchEvent::AccountsLoaded {
        active: None,
        has_microsoft_account: true,
        accounts: Vec::new(),
    });
    assert_eq!(failure(machine), "No account selected");
}

#[test]
fn launch_with_a_lone_offline_account_is_refused() {
    let machine = up_to_accounts(input(ModLoader::Vanilla))
        .advance(accounts_loaded(AccountType::Offline, false));
    assert_eq!(
        failure(machine),
        "Offline accounts require a Microsoft account that owns Minecraft"
    );
}

fn refreshing() -> LaunchMachine {
    let machine = up_to_accounts(input(ModLoader::Vanilla))
        .advance(accounts_loaded(AccountType::Microsoft, true));
    match machine.action() {
        LaunchAction::RefreshToken { account } => assert_eq!(account.uuid, "u-1"),
        _ => panic!("a token should be asked for"),
    }
    machine
}

#[test]
fn refused_token_ends_the_launch() {
    let machine = refreshing().advance(LaunchEvent::TokenRefused { reason: "expired".to_owned() });
    assert_eq!(failure(machine), "Authentication failed: expired");
}

#[test]
fn new_tokens_are_saved_before_the_game_starts() {
    let machine = refreshing().advance(LaunchEvent::TokenGranted {
        grant: TokenGrant {
            token: "fresh".to_owned(),
            refresh_token: Some("next".to_owned()),
            expires_at: Some(7),
        },
    });
    match machine.action() {
        LaunchAction::SaveAccounts { accounts } => {
            assert_eq!(accounts[0].refresh_token.as_deref(), Some("next"));
            assert_eq!(accounts[0].cached_mc_token.as_deref(), Some("fresh"));
            assert_eq!(accounts[0].cached_mc_token_expires_at, Some(7));
        }
        _ => panic!("the accounts should be saved"),
    }
    match machine.advance(LaunchEvent::AccountsSaved).advance(environment_loaded()).phase {
        Phase::Spawning { command } => {
            let args = command.args();
            let token = args.iter().position(|arg| arg == "--accessToken").unwrap();
            assert_eq!(args[token + 1], "fresh");
            assert_eq!(args.last().map(String::as_str), Some("msa"));
        }
        _ => panic!("the game should be started"),
    }
}

#[test]
fn cached_token_needs_no_saving() {
    let machine = refreshing().advance(LaunchEvent::TokenGranted {
        grant: TokenGrant { token: "cached".to_owned(), refresh_token: None, expires_at: None },
    });
    assert!(matches!(machine.action(), LaunchAction::ReadEnvironment));
}

fn spawning() -> LaunchMachine {
    up_to_accounts(input(ModLoader::Vanilla))
        .advance(accounts_loaded(AccountType::Offline, true))
        .advance(environment_loaded())
}

#[test]
fn failure_to_start_is_reported() {
    let error = std::io::Error::new(std::io::ErrorKind::NotFound, "no java");
    let machine = spawning().advance(LaunchEvent::SpawnFailed { error });
    assert!(!machine.can_be_killed());
    assert_eq!(failure(machine), "IO error: no java");
}

#[test]
fn game_that_ends_badly_has_crashed() {
    let running = || spawning().advance(LaunchEvent::Spawned);
    let crashed = |event| running().advance(event).run_state();
    assert_eq!(
        crashed(LaunchEvent::ProcessExited { code: Some(1) }),
        Some(RunState::Crashed(Some(1)))
    );
    assert_eq!(crashed(LaunchEvent::ProcessExited { code: None }), Some(RunState::Crashed(None)));
    assert_eq!(crashed(LaunchEvent::Killed), Some(RunState::Crashed(None)));
    let recorded = running()
        .advance(LaunchEvent::ProcessExited { code: Some(1) })
        .advance(LaunchEvent::PlayRecorded);
    assert!(matches!(recorded.phase, Phase::Finished { code: Some(1) }));
    assert_eq!(recorded.run_state(), Some(RunState::Crashed(Some(1))));
}

#[test]
fn events_that_were_not_asked_for_change_nothing() {
    let machine = LaunchMachine::start(input(ModLoader::Vanilla)).advance(LaunchEvent::Spawned);
    assert!(matches!(machine.phase, Phase::MetaCheck));
    let machine = machine.advance(found(false)).advance(found(true));
    assert!(matches!(machine.phase, Phase::Failed { .. }));
}

#[test]
fn environment_is_read_after_the_account_is_settled() {
    let machine = up_to_accounts(input(ModLoader::Vanilla)).advance(environment_loaded());
    assert!(matches!(machine.action(), LaunchAction::LoadAccounts));
    let machine = machine.advance(accounts_loaded(AccountType::Offline, true));
    let machine = machine.advance(LaunchEvent::EnvironmentLoaded {
        environment: EnvSnapshot {
            ld_library_path: None,
            launcher_ld_library_path: Some("/mine".to_owned()),
            ld_preload: None,
            launcher_ld_preload: None,
            xdg_session_type: None,
            wayland_display: None,
            display: None,
        },
    });
    match machine.phase {
        Phase::Spawning { command } => {
            assert_eq!(command.environment.len(), 1);
            assert!(matches!(
                &command.environment[0],
                EnvEdit::Assign { name, value } if name == "LD_LIBRARY_PATH" && value == "/mine"
            ));
        }
        _ => panic!("the game should be started"),
    }
}

#[test]
fn game_directory_may_hold_a_colon() {
    let mut input = input(ModLoader::Vanilla);
    input.config.name = "Pack: Reborn".to_owned();
    let args = args_after(up_to_profile(input));
    let position = args.iter().position(|arg| arg == "--gameDir").unwrap();
    assert_eq!(args[position + 1], native(&["/instances", "Pack: Reborn", ".minecraft"]));
}
