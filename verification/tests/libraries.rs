use mc_launch::models::{
    InstanceConfig, MetaArtifact, MetaLibrary, MetaLibraryDownloads, MetaOsRule, MetaRule,
    ModLoader,
};
use mc_launch::paths::{
    library_dir, local_library_dir, meta_file, minecraft_dir, path_texts, profile_path,
    version_jar, Directories, LaunchPath, PathRoot,
};
use mc_launch::rules::{lib_allowed, library_paths, metadata_os_name};

fn rule(action: &str, os: Option<Option<&str>>) -> MetaRule {
    MetaRule {
        action: action.to_owned(),
        os: os.map(|name| MetaOsRule { name: name.map(str::to_owned) }),
    }
}

fn library(path: &str, rules: Option<Vec<MetaRule>>) -> MetaLibrary {
    MetaLibrary {
        downloads: Some(MetaLibraryDownloads {
            artifact: Some(MetaArtifact { path: path.to_owned() }),
        }),
        rules,
    }
}

fn allowed(rules: Vec<MetaRule>, os: &str) -> bool {
    lib_allowed(&library("x", Some(rules)), os)
}

#[test]
fn metadata_has_its_own_name_for_macos() {
    assert_eq!(metadata_os_name("macos"), "osx");
    assert_eq!(metadata_os_name("linux"), "linux");
    assert_eq!(metadata_os_name("windows"), "windows");
}

#[test]
fn library_without_rules_is_allowed() {
    assert!(lib_allowed(&library("x", None), "linux"));
    assert!(allowed(vec![], "linux"));
}

#[test]
fn first_rule_for_the_os_that_decides_wins() {
    assert!(allowed(vec![rule("allow", None)], "linux"));
    assert!(!allowed(vec![rule("disallow", None)], "linux"));
    assert!(allowed(vec![rule("allow", None), rule("disallow", None)], "linux"));
    assert!(!allowed(vec![rule("disallow", Some(Some("osx"))), rule("allow", None)], "macos"));
    assert!(allowed(vec![rule("disallow", Some(Some("osx"))), rule("allow", None)], "linux"));
    assert!(allowed(vec![rule("allow", Some(Some("osx")))], "macos"));
    assert!(allowed(vec![rule("allow", Some(None))], "linux"));
}

#[test]
fn library_whose_rules_speak_of_other_systems_is_allowed() {
    assert!(allowed(vec![rule("allow", Some(Some("osx")))], "linux"));
    assert!(allowed(vec![rule("disallow", Some(Some("windows")))], "linux"));
    assert!(allowed(vec![rule("allow", Some(Some("macos")))], "macos"));
}

#[test]
fn rule_with_an_unknown_action_only_dominates() {
    assert!(!allowed(vec![rule("maybe", None)], "linux"));
    assert!(allowed(vec![rule("maybe", None), rule("allow", None)], "linux"));
    assert!(!allowed(vec![rule("maybe", None), rule("allow", Some(Some("osx")))], "linux"));
}

fn dirs() -> Directories {
    Directories { instances: "/instances".to_owned(), meta: "/meta".to_owned() }
}

fn native(parts: &[&str]) -> String {
    parts.iter().collect::<std::path::PathBuf>().to_string_lossy().into_owned()
}

#[test]
fn class_path_has_the_archives_of_allowed_libraries() {
    let libraries = vec![
        library("a/b/a.jar", None),
        library("c.jar", Some(vec![rule("disallow", None)])),
        MetaLibrary { downloads: None, rules: None },
        MetaLibrary { downloads: Some(MetaLibraryDownloads { artifact: None }), rules: None },
        library("d.jar", Some(vec![rule("allow", Some(Some("linux")))])),
    ];
    let paths = library_paths(&libraries, "linux");
    assert_eq!(
        path_texts(&paths, &dirs()),
        vec![native(&["/meta", "libraries", "a/b/a.jar"]), native(&["/meta", "libraries", "d.jar"])]
    );
}

fn config() -> InstanceConfig {
    InstanceConfig {
        name: "pack".to_owned(),
        game_version: "1.20.1".to_owned(),
        loader: ModLoader::Vanilla,
        loader_version: None,
        java_path: None,
        memory_max: None,
        memory_min: None,
        jvm_args: Vec::new(),
    }
}

#[test]
fn paths_are_joined_as_the_platform_does() {
    let config = config();
    let text = |path: LaunchPath| path.to_text(&dirs());
    assert_eq!(text(minecraft_dir(&config)), native(&["/instances", "pack", ".minecraft"]));
    assert_eq!(
        text(local_library_dir(&config)),
        native(&["/instances", "pack", ".minecraft", "libraries"])
    );
    assert_eq!(text(library_dir()), native(&["/meta", "libraries"]));
    assert_eq!(text(meta_file(&config)), native(&["/meta", "versions", "1.20.1", "meta.json"]));
    assert_eq!(text(version_jar(&config)), native(&["/meta", "versions", "1.20.1", "1.20.1.jar"]));
    assert_eq!(text(profile_path("p.json")), native(&["/meta", "loader-profiles", "p.json"]));
}

#[test]
fn path_given_as_text_keeps_its_text() {
    let fixed = LaunchPath { root: PathRoot::Fixed("x//y/".to_owned()), parts: Vec::new() };
    assert_eq!(fixed.to_text(&dirs()), "x//y/");
    assert_eq!(
        LaunchPath { root: PathRoot::Fixed("/a".to_owned()), parts: Vec::new() }
            .child("b")
            .to_text(&dirs()),
        native(&["/a", "b"])
    );
}

#[test]
fn absolute_instance_name_replaces_the_directory() {
    let config = InstanceConfig { name: "/elsewhere".to_owned(), ..config() };
    assert_eq!(
        minecraft_dir(&config).to_text(&dirs()),
        native(&["/instances", "/elsewhere", ".minecraft"])
    );
}

#[test]
fn empty_directory_adds_nothing() {
    let fixed = |text: &str| LaunchPath { root: PathRoot::Fixed(text.to_owned()), parts: Vec::new() };
    assert_eq!(fixed("").child("a").to_text(&dirs()), "a");
    assert_eq!(fixed("").child("/a").to_text(&dirs()), "/a");
    assert_eq!(fixed("").child("a").child("b").to_text(&dirs()), native(&["a", "b"]));
}

#[test]
fn directory_with_a_slash_at_its_end_gets_no_second_one() {
    let dirs = Directories { instances: "/instances/".to_owned(), meta: "/".to_owned() };
    assert_eq!(library_dir().to_text(&dirs), "/libraries");
    assert_eq!(
        LaunchPath::in_instances("pack").to_text(&dirs),
        "/instances/pack"
    );
    assert_eq!(
        minecraft_dir(&config()).to_text(&dirs),
        native(&["/instances/", "pack", ".minecraft"])
    );
}
