//! The data that a launch is decided on: the instance's configuration, the
//! version metadata and the loader profile.

use vstd::prelude::*;

verus! {

/// The mod loader of an instance.
#[derive(Clone, Copy, Debug, PartialEq, Eq, Structural)]
pub enum ModLoader {
    Vanilla,
    Fabric,
    Quilt,
    Forge,
    NeoForge,
}

/// The part of an instance's configuration that a launch depends on.
#[derive(Debug)]
pub struct InstanceConfig {
    pub name: String,
    pub game_version: String,
    pub loader: ModLoader,
    pub loader_version: Option<String>,
    pub java_path: Option<String>,
    pub memory_max: Option<String>,
    pub memory_min: Option<String>,
    pub jvm_args: Vec<String>,
}

/// Subset of the version metadata that is relevant to launching.
#[derive(Debug)]
pub struct MetaJson {
    pub main_class: String,
    pub asset_index: MetaAssetIndex,
    pub libraries: Vec<MetaLibrary>,
}

/// The asset index that a version uses.
#[derive(Debug)]
pub struct MetaAssetIndex {
    pub id: String,
}

/// A library of a version, with the rules that say where it is used.
#[derive(Debug)]
pub struct MetaLibrary {
    pub downloads: Option<MetaLibraryDownloads>,
    pub rules: Option<Vec<MetaRule>>,
}

/// What can be downloaded of a library.
#[derive(Debug)]
pub struct MetaLibraryDownloads {
    pub artifact: Option<MetaArtifact>,
}

/// A library's archive, by its path below the library directory.
#[derive(Debug)]
pub struct MetaArtifact {
    pub path: String,
}

/// A rule that allows or disallows a library, on one operating system or on all.
#[derive(Debug)]
pub struct MetaRule {
    pub action: String,
    pub os: Option<MetaOsRule>,
}

/// The operating system that a rule speaks of.
#[derive(Debug)]
pub struct MetaOsRule {
    pub name: Option<String>,
}

/// The profile of a mod loader.
#[derive(Debug)]
pub struct LoaderProfileJson {
    pub main_class: String,
    pub libraries: Vec<LoaderLibrary>,
    /// Legacy flat format: `"gameArguments": [...]`
    pub game_arguments: Vec<String>,
    /// Forge installer format: `"jvmArguments": [...]`
    pub jvm_arguments: Vec<String>,
    /// Modern format: `"arguments": { "game": [...], "jvm": [...] }`
    pub arguments: Option<LoaderArguments>,
}

/// The arguments of a loader profile in the modern format.
#[derive(Debug)]
pub struct LoaderArguments {
    pub game: Vec<String>,
    pub jvm: Vec<String>,
}

/// A library of a loader profile, by its Maven coordinate.
#[derive(Debug)]
pub struct LoaderLibrary {
    pub name: String,
}

/// What a loader-specific patch contributes to the command line.
#[derive(Debug)]
pub struct LaunchPatch {
    pub jvm_args: Vec<String>,
    pub main_class: String,
    pub extra_args: Vec<String>,
}

/// The launcher-wide settings that a launch falls back on.
#[derive(Debug)]
pub struct LaunchSettings {
    pub java_path: Option<String>,
    pub memory_min: String,
    pub memory_max: String,
}

/// The platform that the launcher runs on.
#[derive(Debug)]
pub struct Platform {
    /// The operating system's name, as Rust spells it.
    pub os: String,
    pub windows: bool,
    pub linux: bool,
}

} // verus!
