use mc_launch::command::{process_args, CommandLine};
use mc_launch::models::{
    InstanceConfig, LoaderArguments, LoaderProfileJson, ModLoader, Platform,
};
use mc_launch::paths::{LaunchPath, PathRoot};
use mc_launch::profile::{
    classpath_separator, has_local_libraries, profile_filename, profile_game_args,
    profile_jvm_args, version_name,
};

fn config(loader: ModLoader, loader_version: Option<&str>) -> InstanceConfig {
    InstanceConfig {
        name: "test".to_owned(),
        game_version: "1.20.1".to_owned(),
        loader,
        loader_version: loader_version.map(str::to_owned),
        java_path: None,
        memory_max: None,
        memory_min: None,
        jvm_args: Vec::new(),
    }
}

fn strings(list: &[&str]) -> Vec<String> {
    list.iter().map(|s| s.to_string()).collect()
}

#[test]
fn every_loader_names_its_profile() {
    let name = |loader| profile_filename(&config(loader, Some("2.0")));
    assert_eq!(name(ModLoader::Vanilla), None);
    assert_eq!(name(ModLoader::Fabric).as_deref(), Some("fabric-1.20.1-2.0.json"));
    assert_eq!(name(ModLoader::Quilt).as_deref(), Some("quilt-1.20.1-2.0.json"));
    assert_eq!(name(ModLoader::Forge).as_deref(), Some("forge-1.20.1-2.0.json"));
    assert_eq!(name(ModLoader::NeoForge).as_deref(), Some("neoforge-2.0.json"));
    assert_eq!(
        profile_filename(&config(ModLoader::Forge, None)).as_deref(),
        Some("forge-1.20.1-unknown.json")
    );
}

#[test]
fn version_is_named_after_the_loader() {
    let name = |loader| version_name(&config(loader, Some("47.4.0")));
    assert_eq!(name(ModLoader::Forge), "1.20.1-forge-47.4.0");
    assert_eq!(name(ModLoader::NeoForge), "neoforge-47.4.0");
    assert_eq!(name(ModLoader::Fabric), "1.20.1");
    assert_eq!(name(ModLoader::Vanilla), "1.20.1");
    assert_eq!(version_name(&config(ModLoader::NeoForge, None)), "neoforge-unknown");
}

#[test]
fn only_forge_and_neoforge_have_local_libraries() {
    assert!(has_local_libraries(ModLoader::Forge));
    assert!(has_local_libraries(ModLoader::NeoForge));
    assert!(!has_local_libraries(ModLoader::Fabric));
    assert!(!has_local_libraries(ModLoader::Quilt));
    assert!(!has_local_libraries(ModLoader::Vanilla));
}

fn profile(arguments: Option<LoaderArguments>) -> LoaderProfileJson {
    LoaderProfileJson {
        main_class: "Main".to_owned(),
        libraries: Vec::new(),
        game_arguments: strings(&["old-game"]),
        jvm_arguments: strings(&["old-jvm"]),
        arguments,
    }
}

#[test]
fn modern_arguments_come_before_legacy_ones() {
    let modern = profile(Some(LoaderArguments {
        game: strings(&["game"]),
        jvm: strings(&["jvm"]),
    }));
    assert_eq!(profile_game_args(&modern), strings(&["game"]));
    assert_eq!(profile_jvm_args(&modern), strings(&["jvm"]));
    let empty = profile(Some(LoaderArguments { game: Vec::new(), jvm: Vec::new() }));
    assert_eq!(profile_game_args(&empty), strings(&["old-game"]));
    assert_eq!(profile_jvm_args(&empty), strings(&["old-jvm"]));
    let legacy = profile(None);
    assert_eq!(profile_game_args(&legacy), strings(&["old-game"]));
    assert_eq!(profile_jvm_args(&legacy), strings(&["old-jvm"]));
}

fn platform(windows: bool) -> Platform {
    Platform { os: "any".to_owned(), windows, linux: !windows }
}

#[test]
fn class_path_is_separated_as_the_platform_does() {
    assert_eq!(classpath_separator(&platform(true)), ";");
    assert_eq!(classpath_separator(&platform(false)), ":");
    let joined = |entries: &[&str], windows: bool| {
        let command = CommandLine {
            program: "java".to_owned(),
            jvm_args: strings(&["-Xmx1G"]),
            classpath: strings(entries),
            classpath_separator: classpath_separator(&platform(windows)),
            main_class: "Main".to_owned(),
            extra_args: Vec::new(),
            game_args: strings(&["game"]),
            current_dir: LaunchPath { root: PathRoot::Instances, parts: Vec::new() },
            environment: Vec::new(),
        };
        let args = command.args();
        assert_eq!(args.len(), 5);
        assert_eq!(args[..2], strings(&["-Xmx1G", "-cp"]));
        assert_eq!(args[3..], strings(&["Main", "game"]));
        args[2].clone()
    };
    assert_eq!(joined(&["a", "b", "c"], true), "a;b;c");
    assert_eq!(joined(&["a"], false), "a");
    assert_eq!(joined(&[], false), "");
    assert_eq!(joined(&["", ""], false), ":");
}

#[test]
fn process_arguments_are_in_order() {
    assert_eq!(
        process_args(
            strings(&["-Xmx1G"]),
            "a:b".to_owned(),
            "Main".to_owned(),
            strings(&["extra"]),
            strings(&["game"]),
        ),
        strings(&["-Xmx1G", "-cp", "a:b", "Main", "extra", "game"])
    );
}
