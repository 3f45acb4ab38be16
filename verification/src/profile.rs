//! What a mod loader's profile contributes to a launch.

use vstd::prelude::*;
use vstd::string::*;

use crate::models::{InstanceConfig, LoaderProfileJson, ModLoader, Platform};
use crate::paths::{
    law_where_the_files_are, library_dir, local_library_dir, local_library_dir_of,
    shared_library_dir, LaunchPath, PathView, RootView,
};
use crate::text::{copy_texts, opt_text, texts};

verus! {

/// The loader's version, as file and version names spell it.
pub open spec fn loader_version_of(config: InstanceConfig) -> Seq<char> {
    match opt_text(config.loader_version) {
        Some(version) => version,
        None => "unknown"@,
    }
}

/// The file name of the loader's profile, where the instance has a loader.
pub open spec fn profile_filename_of(config: InstanceConfig) -> Option<Seq<char>> {
    let game = config.game_version@;
    let loader = loader_version_of(config);
    match config.loader {
        ModLoader::Vanilla => None,
        ModLoader::Fabric => Some("fabric-"@ + game + "-"@ + loader + ".json"@),
        ModLoader::Quilt => Some("quilt-"@ + game + "-"@ + loader + ".json"@),
        ModLoader::Forge => Some("forge-"@ + game + "-"@ + loader + ".json"@),
        ModLoader::NeoForge => Some("neoforge-"@ + loader + ".json"@),
    }
}

/// The name of the version that the loader makes of the game.
pub open spec fn version_name_of(config: InstanceConfig) -> Seq<char> {
    match config.loader {
        ModLoader::Forge => config.game_version@ + "-forge-"@ + loader_version_of(config),
        ModLoader::NeoForge => "neoforge-"@ + loader_version_of(config),
        _ => config.game_version@,
    }
}

/// Whether a loader's installer puts libraries into the instance.
pub open spec fn installs_locally(loader: ModLoader) -> bool {
    loader == ModLoader::Forge || loader == ModLoader::NeoForge
}

/// The directory that a profile's arguments call the library directory: the
/// instance's own, where the installer put the libraries there.
pub open spec fn library_directory_of(config: InstanceConfig) -> PathView {
    if installs_locally(config.loader) {
        local_library_dir_of(config)
    } else {
        shared_library_dir()
    }
}

/// The separator of class path entries.
pub open spec fn classpath_separator_of(platform: Platform) -> Seq<char> {
    if platform.windows {
        ";"@
    } else {
        ":"@
    }
}

/// The game arguments of a profile: those of the modern format if it has any,
/// else those of the legacy format.
pub open spec fn profile_game_args_of(profile: LoaderProfileJson) -> Seq<Seq<char>> {
    match profile.arguments {
        Some(arguments) => if arguments.game@.len() > 0 {
            texts(arguments.game@)
        } else {
            texts(profile.game_arguments@)
        },
        None => texts(profile.game_arguments@),
    }
}

/// The JVM arguments of a profile, before placeholders are resolved: those of
/// the modern format if it has any, else those of the installer format.
pub open spec fn profile_jvm_args_of(profile: LoaderProfileJson) -> Seq<Seq<char>> {
    match profile.arguments {
        Some(arguments) => if arguments.jvm@.len() > 0 {
            texts(arguments.jvm@)
        } else {
            texts(profile.jvm_arguments@)
        },
        None => texts(profile.jvm_arguments@),
    }
}

/// The loader's version, as file and version names spell it.
fn loader_version(config: &InstanceConfig) -> (version: String)
    ensures
        version@ == loader_version_of(*config),
{
    match &config.loader_version {
        Some(version) => version.clone(),
        None => "unknown".to_owned(),
    }
}

/// The name of the profile of a loader that is tied to a game version.
fn tied_filename(prefix: &str, config: &InstanceConfig) -> (filename: String)
    ensures
        filename@ == prefix@ + config.game_version@ + "-"@ + loader_version_of(*config)
            + ".json"@,
{
    prefix.to_owned().concat(config.game_version.as_str()).concat("-").concat(
        loader_version(config).as_str(),
    ).concat(".json")
}

/// The file name of the loader's profile, where the instance has a loader.
pub fn profile_filename(config: &InstanceConfig) -> (filename: Option<String>)
    ensures
        opt_text(filename) == profile_filename_of(*config),
{
    match config.loader {
        ModLoader::Vanilla => None,
        ModLoader::Fabric => Some(tied_filename("fabric-", config)),
        ModLoader::Quilt => Some(tied_filename("quilt-", config)),
        ModLoader::Forge => Some(tied_filename("forge-", config)),
        ModLoader::NeoForge => Some(
            "neoforge-".to_owned().concat(loader_version(config).as_str()).concat(".json"),
        ),
    }
}

/// The name of the version that the loader makes of the game.
pub fn version_name(config: &InstanceConfig) -> (name: String)
    ensures
        name@ == version_name_of(*config),
{
    match config.loader {
        ModLoader::Forge => config.game_version.clone().concat("-forge-").concat(
            loader_version(config).as_str(),
        ),
        ModLoader::NeoForge => "neoforge-".to_owned().concat(loader_version(config).as_str()),
        _ => config.game_version.clone(),
    }
}

/// Whether a loader's installer puts libraries into the instance.
pub fn has_local_libraries(loader: ModLoader) -> (local: bool)
    ensures
        local == installs_locally(loader),
{
    loader == ModLoader::Forge || loader == ModLoader::NeoForge
}

/// The directory that a profile's arguments call the library directory.
pub fn library_directory(config: &InstanceConfig) -> (path: LaunchPath)
    ensures
        path@ == library_directory_of(*config),
{
    if has_local_libraries(config.loader) {
        local_library_dir(config)
    } else {
        library_dir()
    }
}

/// The separator of class path entries.
pub fn classpath_separator(platform: &Platform) -> (separator: String)
    ensures
        separator@ == classpath_separator_of(*platform),
{
    if platform.windows {
        ";".to_owned()
    } else {
        ":".to_owned()
    }
}

/// The game arguments of a profile.
pub fn profile_game_args(profile: &LoaderProfileJson) -> (args: Vec<String>)
    ensures
        texts(args@) == profile_game_args_of(*profile),
{
    match &profile.arguments {
        Some(arguments) => if !arguments.game.is_empty() {
            copy_texts(&arguments.game)
        } else {
            copy_texts(&profile.game_arguments)
        },
        None => copy_texts(&profile.game_arguments),
    }
}

/// The JVM arguments of a profile, before placeholders are resolved.
pub fn profile_jvm_args(profile: &LoaderProfileJson) -> (args: Vec<String>)
    ensures
        texts(args@) == profile_jvm_args_of(*profile),
{
    match &profile.arguments {
        Some(arguments) => if !arguments.jvm.is_empty() {
            copy_texts(&arguments.jvm)
        } else {
            copy_texts(&profile.jvm_arguments)
        },
        None => copy_texts(&profile.jvm_arguments),
    }
}

/// A profile is stored under the name of its loader, the game version where the
/// loader is tied to one, and the loader's version; a loader without a version
/// has the same name as one whose version is unknown.
pub proof fn law_profiles_are_stored_by_loader_and_version(
    config: InstanceConfig,
    version: Seq<char>,
)
    requires
        config.loader_version is Some ==> version == config.loader_version->0@,
        config.loader_version is None ==> version == "unknown"@,
    ensures
        config.loader == ModLoader::Vanilla <==> profile_filename_of(config) is None,
        config.loader == ModLoader::Fabric ==> profile_filename_of(config) == Some(
            "fabric-"@ + config.game_version@ + "-"@ + version + ".json"@,
        ),
        config.loader == ModLoader::Quilt ==> profile_filename_of(config) == Some(
            "quilt-"@ + config.game_version@ + "-"@ + version + ".json"@,
        ),
        config.loader == ModLoader::Forge ==> profile_filename_of(config) == Some(
            "forge-"@ + config.game_version@ + "-"@ + version + ".json"@,
        ),
        config.loader == ModLoader::NeoForge ==> profile_filename_of(config) == Some(
            "neoforge-"@ + version + ".json"@,
        ),
{
}

/// Forge makes its own version of the game version, NeoForge one of its own
/// version alone, and with every other loader the version is the game's.
pub proof fn law_version_names(config: InstanceConfig, version: Seq<char>)
    requires
        config.loader_version is Some ==> version == config.loader_version->0@,
        config.loader_version is None ==> version == "unknown"@,
    ensures
        config.loader == ModLoader::Forge ==> version_name_of(config) == config.game_version@
            + "-forge-"@ + version,
        config.loader == ModLoader::NeoForge ==> version_name_of(config) == "neoforge-"@ + version,
        config.loader != ModLoader::Forge && config.loader != ModLoader::NeoForge
            ==> version_name_of(config) == config.game_version@,
{
}

/// Forge and NeoForge have their libraries in the instance, every other loader
/// among the shared ones. Class path entries are parted by a semicolon on Windows
/// and by a colon elsewhere.
pub proof fn law_libraries_and_separator(config: InstanceConfig, platform: Platform)
    ensures
        config.loader == ModLoader::Forge || config.loader == ModLoader::NeoForge
            ==> installs_locally(config.loader) && library_directory_of(config) == (PathView {
            root: RootView::Instances,
            parts: seq![config.name@, ".minecraft"@, "libraries"@],
        }),
        config.loader != ModLoader::Forge && config.loader != ModLoader::NeoForge
            ==> !installs_locally(config.loader) && library_directory_of(config) == (PathView {
            root: RootView::Meta,
            parts: seq!["libraries"@],
        }),
        platform.windows ==> classpath_separator_of(platform) == ";"@,
        !platform.windows ==> classpath_separator_of(platform) == ":"@,
{
    law_where_the_files_are(config, Seq::empty());
}

/// The arguments of a profile are those of the modern format wherever it has any,
/// and those of the older format otherwise, for the game and for the virtual
/// machine independently, and never both.
pub proof fn law_modern_arguments_take_the_place_of_older_ones(profile: LoaderProfileJson)
    ensures
        profile.arguments is Some && profile.arguments->0.game@.len() > 0 ==> {
            &&& profile_game_args_of(profile).len() == profile.arguments->0.game@.len()
            &&& forall|i: int|
                0 <= i < profile.arguments->0.game@.len()
                    ==> #[trigger] profile_game_args_of(profile)[i] == profile.arguments->0.game@[i]@
        },
        profile.arguments is None || profile.arguments->0.game@.len() == 0 ==> {
            &&& profile_game_args_of(profile).len() == profile.game_arguments@.len()
            &&& forall|i: int|
                0 <= i < profile.game_arguments@.len()
                    ==> #[trigger] profile_game_args_of(profile)[i] == profile.game_arguments@[i]@
        },
        profile.arguments is Some && profile.arguments->0.jvm@.len() > 0 ==> {
            &&& profile_jvm_args_of(profile).len() == profile.arguments->0.jvm@.len()
            &&& forall|i: int|
                0 <= i < profile.arguments->0.jvm@.len()
                    ==> #[trigger] profile_jvm_args_of(profile)[i] == profile.arguments->0.jvm@[i]@
        },
        profile.arguments is None || profile.arguments->0.jvm@.len() == 0 ==> {
            &&& profile_jvm_args_of(profile).len() == profile.jvm_arguments@.len()
            &&& forall|i: int|
                0 <= i < profile.jvm_arguments@.len()
                    ==> #[trigger] profile_jvm_args_of(profile)[i] == profile.jvm_arguments@[i]@
        },
{
}

} // verus!
