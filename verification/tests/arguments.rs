use mc_launch::accounts::GameAuth;
use mc_launch::arguments::{
    add_launch_target, build_game_args, build_jvm_args, game_args_with_assets,
    is_game_version_at_least, resolve_jvm_placeholders,
};
use mc_launch::models::{InstanceConfig, LaunchSettings, ModLoader};

fn test_config() -> InstanceConfig {
    InstanceConfig {
        name: "test".to_owned(),
        game_version: "1.7.10".to_owned(),
        loader: ModLoader::Forge,
        loader_version: Some("10.13.4.1614".to_owned()),
        java_path: None,
        memory_max: None,
        memory_min: None,
        jvm_args: Vec::new(),
    }
}

fn test_auth() -> GameAuth {
    GameAuth {
        username: "TestPlayer".to_owned(),
        uuid: "00000000-0000-0000-0000-000000000000".to_owned(),
        token: "token".to_owned(),
        user_type: "msa".to_owned(),
    }
}

fn strings(list: &[&str]) -> Vec<String> {
    list.iter().map(|s| s.to_string()).collect()
}

#[test]
fn game_args_include_empty_user_properties() {
    let args = build_game_args(
        &test_config(),
        "/instances/test/.minecraft",
        "/meta",
        "legacy",
        GameAuth {
            username: "TestPlayer".to_owned(),
            uuid: "00000000-0000-0000-0000-000000000000".to_owned(),
            token: "token".to_owned(),
            user_type: "msa".to_owned(),
        },
        vec![
            "--tweakClass".to_owned(),
            "cpw.mods.fml.common.launcher.FMLTweaker".to_owned(),
        ],
    );

    let position = args
        .iter()
        .position(|arg| arg == "--userProperties")
        .expect("game args should include --userProperties");
    assert_eq!(args.get(position + 1).map(String::as_str), Some("{}"));
    assert!(
        args.windows(2)
            .any(|pair| pair == ["--tweakClass", "cpw.mods.fml.common.launcher.FMLTweaker"])
    );
}

#[test]
fn game_args_are_complete_and_in_order() {
    let args = build_game_args(
        &test_config(),
        "/instances/test/.minecraft",
        "/meta",
        "legacy",
        test_auth(),
        strings(&["--extra"]),
    );
    let assets = std::path::Path::new("/meta").join("assets").to_string_lossy().into_owned();
    assert_eq!(
        args,
        strings(&[
            "--username",
            "TestPlayer",
            "--version",
            "1.7.10",
            "--gameDir",
            "/instances/test/.minecraft",
            "--assetsDir",
            &assets,
            "--assetIndex",
            "legacy",
            "--uuid",
            "00000000-0000-0000-0000-000000000000",
            "--accessToken",
            "token",
            "--userProperties",
            "{}",
            "--userType",
            "msa",
            "--extra",
        ])
    );
    assert!(args[7] == "/meta/assets" || args[7] == "/meta\\assets");
}

#[test]
fn assets_below_a_directory_with_a_slash_or_without_a_name() {
    let assets = |meta_dir: &str| {
        build_game_args(&test_config(), "game", meta_dir, "5", test_auth(), Vec::new())[7].clone()
    };
    assert_eq!(assets("/meta/"), "/meta/assets");
    assert_eq!(assets("/"), "/assets");
    assert_eq!(assets(""), "assets");
}

#[test]
fn game_args_take_the_assets_as_they_are_written() {
    let args = game_args_with_assets(
        &test_config(),
        "game",
        "D:\\assets",
        "5",
        test_auth(),
        Vec::new(),
    );
    assert_eq!(args.len(), 18);
    assert_eq!(args[5], "game");
    assert_eq!(args[7], "D:\\assets");
    assert_eq!(args[9], "5");
}

#[test]
fn release_versions_are_compared_by_number() {
    assert!(is_game_version_at_least("1.21", 1, 21));
    assert!(is_game_version_at_least("1.21.4", 1, 21));
    assert!(is_game_version_at_least("2.0", 1, 21));
    assert!(is_game_version_at_least("1.100", 1, 21));
    assert!(is_game_version_at_least("1.20.1", 1, 20));
    assert!(!is_game_version_at_least("1.20.1", 1, 21));
    assert!(!is_game_version_at_least("1.7.10", 1, 21));
    assert!(!is_game_version_at_least("0.99", 1, 21));
    assert!(is_game_version_at_least("+1.021", 1, 21));
    assert!(is_game_version_at_least("4294967295.0", 4294967295, 0));
}

#[test]
fn other_versions_are_never_at_least_a_release() {
    assert!(!is_game_version_at_least("24w14a", 1, 21));
    assert!(!is_game_version_at_least("1.21-pre1", 1, 21));
    assert!(!is_game_version_at_least("1.21.2-pre3", 1, 21));
    assert!(!is_game_version_at_least("", 0, 0));
    assert!(!is_game_version_at_least("1", 0, 0));
    assert!(!is_game_version_at_least("1.", 0, 0));
    assert!(!is_game_version_at_least("+.1", 0, 0));
    assert!(!is_game_version_at_least("4294967296.0", 0, 0));
    assert!(!is_game_version_at_least("99999999999999999999.0", 0, 0));
    assert!(!is_game_version_at_least("1. 21", 1, 21));
}

#[test]
fn a_later_version_is_at_least_every_earlier_release() {
    assert!(is_game_version_at_least("1.21.1", 1, 20));
    assert!(is_game_version_at_least("1.21.1", 0, 99));
}

#[test]
fn placeholders_are_resolved() {
    let args = resolve_jvm_placeholders(
        strings(&[
            "-DlibraryDirectory=${library_directory}",
            "${library_directory}/a.jar${classpath_separator}${library_directory}/b.jar",
            "-Dname=${version_name}",
            "-Xss2M",
            "${unknown}",
            "",
            "${version_name",
            "é${version_name}é",
        ]),
        "/libs",
        ":",
        "1.20.1-forge-47.4.0",
    );
    assert_eq!(
        args,
        strings(&[
            "-DlibraryDirectory=/libs",
            "/libs/a.jar:/libs/b.jar",
            "-Dname=1.20.1-forge-47.4.0",
            "-Xss2M",
            "${unknown}",
            "",
            "${version_name",
            "é1.20.1-forge-47.4.0é",
        ])
    );
}

#[test]
fn placeholders_in_values_are_resolved_only_by_later_kinds() {
    let args = resolve_jvm_placeholders(
        strings(&["${library_directory}", "${version_name}", "$${version_name}"]),
        "${version_name}",
        ":",
        "${library_directory}",
    );
    assert_eq!(
        args,
        strings(&["${library_directory}", "${library_directory}", "$${library_directory}"])
    );
}

#[test]
fn resolving_agrees_with_the_standard_library() {
    let cases = ["aaa${version_name}", "${${version_name}}", "${version_name}${version_name}", "$"];
    for case in cases {
        let ours = resolve_jvm_placeholders(strings(&[case]), "/l", ";", "v");
        let theirs = case
            .replace("${library_directory}", "/l")
            .replace("${classpath_separator}", ";")
            .replace("${version_name}", "v");
        assert_eq!(ours, vec![theirs]);
    }
}

#[test]
fn forge_gets_a_launch_target_from_1_21_on() {
    let modern = InstanceConfig { game_version: "1.21.1".to_owned(), ..test_config() };
    assert_eq!(
        add_launch_target(&modern, strings(&["--username", "x"])),
        strings(&["--launchTarget", "forge_client", "--username", "x"])
    );
    assert_eq!(add_launch_target(&test_config(), strings(&["a"])), strings(&["a"]));
    let neo = InstanceConfig { loader: ModLoader::NeoForge, ..modern };
    assert_eq!(add_launch_target(&neo, strings(&["a"])), strings(&["a"]));
}

#[test]
fn jvm_args_start_with_memory_and_end_with_the_users() {
    let settings = LaunchSettings {
        java_path: None,
        memory_min: "512M".to_owned(),
        memory_max: "2G".to_owned(),
    };
    let config = InstanceConfig {
        memory_max: Some("8G".to_owned()),
        jvm_args: strings(&["-Duser=1"]),
        ..test_config()
    };
    assert_eq!(
        build_jvm_args(&config, &settings, strings(&["-Dloader"]), strings(&["-Dpatch"])),
        strings(&["-Xms512M", "-Xmx8G", "-Dloader", "-Dpatch", "-Duser=1"])
    );
}
