//! The command line that starts the game.

use vstd::prelude::*;
use vstd::string::*;

use crate::accounts::GameAuth;
use crate::arguments::{
    add_launch_target, all_resolved, are_game_args, build_game_args, build_jvm_args, game_args_of,
    jvm_args_of, launch_target_of, law_jvm_args_layout, resolve_jvm_placeholders, resolved,
    version_at_least,
};
use crate::environment::{
    edit_views, environment_edits, environment_edits_of, EnvEdit, EnvSnapshot,
};
use crate::models::{
    InstanceConfig, LaunchPatch, LaunchSettings, LoaderProfileJson, MetaJson, ModLoader, Platform,
};
use crate::paths::{
    are_path_texts, is_path_text, joins_to, law_where_the_files_are, minecraft_dir,
    minecraft_dir_of, path_texts, path_views, reads_in, Directories, LaunchPath, PathStyle,
    PathView, RootView,
};
use crate::profile::{
    classpath_separator, classpath_separator_of, library_directory, library_directory_of,
    profile_game_args, profile_game_args_of, profile_jvm_args, profile_jvm_args_of, version_name,
    version_name_of,
};
use crate::rules::{library_entries, library_paths, metadata_os};
use crate::text::{copy_texts, join_texts, joined, texts};

verus! {

/// What is known when a launch begins.
#[derive(Debug)]
pub struct LaunchInput {
    pub config: InstanceConfig,
    pub dirs: Directories,
    pub platform: Platform,
}

/// What a launch has gathered for the command line so far.
#[derive(Debug)]
pub struct LaunchDraft {
    pub asset_index_id: String,
    pub main_class: String,
    pub classpath: Vec<LaunchPath>,
    pub game_args: Vec<String>,
    pub jvm_args: Vec<String>,
    pub patch_jvm_args: Vec<String>,
    pub extra_args: Vec<String>,
}

/// Model of [`LaunchDraft`].
#[verifier::ext_equal]
pub struct DraftView {
    pub asset_index_id: Seq<char>,
    pub main_class: Seq<char>,
    pub classpath: Seq<PathView>,
    pub game_args: Seq<Seq<char>>,
    pub jvm_args: Seq<Seq<char>>,
    pub patch_jvm_args: Seq<Seq<char>>,
    pub extra_args: Seq<Seq<char>>,
}

impl View for LaunchDraft {
    type V = DraftView;

    open spec fn view(&self) -> DraftView {
        DraftView {
            asset_index_id: self.asset_index_id@,
            main_class: self.main_class@,
            classpath: path_views(self.classpath@),
            game_args: texts(self.game_args@),
            jvm_args: texts(self.jvm_args@),
            patch_jvm_args: texts(self.patch_jvm_args@),
            extra_args: texts(self.extra_args@),
        }
    }
}

impl DraftView {
    /// The draft with more class path entries at the end.
    pub open spec fn with_entries(self, entries: Seq<PathView>) -> DraftView {
        DraftView { classpath: self.classpath + entries, ..self }
    }
}

/// What the game is started with, whoever plays it.
#[derive(Debug)]
pub struct LaunchPlan {
    pub asset_index_id: String,
    pub main_class: String,
    pub classpath: Vec<LaunchPath>,
    pub game_args: Vec<String>,
    pub jvm_args: Vec<String>,
    pub extra_args: Vec<String>,
}

/// Model of [`LaunchPlan`].
#[verifier::ext_equal]
pub struct PlanView {
    pub asset_index_id: Seq<char>,
    pub main_class: Seq<char>,
    pub classpath: Seq<PathView>,
    pub game_args: Seq<Seq<char>>,
    pub jvm_args: Seq<Seq<char>>,
    pub extra_args: Seq<Seq<char>>,
}

impl View for LaunchPlan {
    type V = PlanView;

    open spec fn view(&self) -> PlanView {
        PlanView {
            asset_index_id: self.asset_index_id@,
            main_class: self.main_class@,
            classpath: path_views(self.classpath@),
            game_args: texts(self.game_args@),
            jvm_args: texts(self.jvm_args@),
            extra_args: texts(self.extra_args@),
        }
    }
}

/// A process to start.
#[derive(Debug)]
pub struct CommandLine {
    pub program: String,
    /// The arguments of the Java virtual machine.
    pub jvm_args: Vec<String>,
    /// The entries of the class path.
    pub classpath: Vec<String>,
    pub classpath_separator: String,
    pub main_class: String,
    /// The arguments that a patch puts before those of the game.
    pub extra_args: Vec<String>,
    pub game_args: Vec<String>,
    pub current_dir: LaunchPath,
    pub environment: Vec<EnvEdit>,
}

/// What the version metadata alone contributes.
pub open spec fn meta_draft_of(meta: MetaJson, platform: Platform) -> DraftView {
    DraftView {
        asset_index_id: meta.asset_index.id@,
        main_class: meta.main_class@,
        classpath: library_entries(meta.libraries@, metadata_os(platform.os@)),
        game_args: Seq::empty(),
        jvm_args: Seq::empty(),
        patch_jvm_args: Seq::empty(),
        extra_args: Seq::empty(),
    }
}

/// A draft with what a loader profile contributes besides libraries, where the
/// library directory has the given text.
pub open spec fn with_profile(
    draft: DraftView,
    profile: LoaderProfileJson,
    config: InstanceConfig,
    platform: Platform,
    library_directory: Seq<char>,
) -> DraftView {
    DraftView {
        main_class: profile.main_class@,
        game_args: profile_game_args_of(profile),
        jvm_args: all_resolved(
            profile_jvm_args_of(profile),
            library_directory,
            classpath_separator_of(platform),
            version_name_of(config),
        ),
        ..draft
    }
}

/// Whether `after` is the draft `before` with what a loader profile contributes
/// besides libraries.
pub open spec fn profile_applied(
    before: DraftView,
    profile: LoaderProfileJson,
    input: LaunchInput,
    after: DraftView,
) -> bool {
    exists|directory: Seq<char>| #[trigger]
        is_path_text(library_directory_of(input.config), input.dirs, directory) && after
            == with_profile(before, profile, input.config, input.platform, directory)
}

/// A draft with what a patch contributes; the patch decides on the class path
/// even where it contributes nothing else.
pub open spec fn with_patch(
    draft: DraftView,
    classpath: Seq<PathView>,
    patch: Option<LaunchPatch>,
) -> DraftView {
    match patch {
        Some(patch) => DraftView {
            classpath,
            main_class: patch.main_class@,
            patch_jvm_args: texts(patch.jvm_args@),
            extra_args: texts(patch.extra_args@),
            ..draft
        },
        None => DraftView {
            classpath,
            patch_jvm_args: Seq::empty(),
            extra_args: Seq::empty(),
            ..draft
        },
    }
}

/// The plan that a draft leads to under the launcher-wide settings.
pub open spec fn plan_of(
    draft: DraftView,
    config: InstanceConfig,
    settings: LaunchSettings,
) -> PlanView {
    PlanView {
        asset_index_id: draft.asset_index_id,
        main_class: draft.main_class,
        classpath: draft.classpath,
        game_args: draft.game_args,
        jvm_args: jvm_args_of(config, settings, draft.jvm_args, draft.patch_jvm_args),
        extra_args: draft.extra_args,
    }
}

/// The arguments of the process, in order: those of the Java virtual machine,
/// the class path, the main class, those of the patch, those of the game.
pub open spec fn process_args_of(
    jvm_args: Seq<Seq<char>>,
    classpath: Seq<char>,
    main_class: Seq<char>,
    extra_args: Seq<Seq<char>>,
    game_args: Seq<Seq<char>>,
) -> Seq<Seq<char>> {
    jvm_args + seq!["-cp"@, classpath, main_class] + extra_args + game_args
}

/// All arguments of a command.
pub open spec fn command_args_of(command: CommandLine) -> Seq<Seq<char>> {
    process_args_of(
        texts(command.jvm_args@),
        joined(texts(command.classpath@), command.classpath_separator@),
        command.main_class@,
        texts(command.extra_args@),
        texts(command.game_args@),
    )
}

/// Whether `args` are the arguments of the game that a plan and an account lead
/// to, with the launch target in front where there is one.
pub open spec fn are_planned_game_args(
    input: LaunchInput,
    plan: PlanView,
    auth: GameAuth,
    args: Seq<Seq<char>>,
) -> bool {
    exists|game_dir: Seq<char>, game_args: Seq<Seq<char>>|
        {
            &&& #[trigger] is_path_text(minecraft_dir_of(input.config), input.dirs, game_dir)
            &&& #[trigger] are_game_args(
                input.config,
                game_dir,
                input.dirs.meta@,
                plan.asset_index_id,
                auth,
                plan.game_args,
                game_args,
            )
            &&& args == launch_target_of(input.config.loader, input.config.game_version@)
                + game_args
        }
}

/// Whether `command` starts the game as a plan, a Java program, an account and
/// the launcher's own environment lead to.
pub open spec fn is_command(
    input: LaunchInput,
    plan: PlanView,
    java: Seq<char>,
    auth: GameAuth,
    environment: EnvSnapshot,
    command: CommandLine,
) -> bool {
    &&& command.program@ == java
    &&& texts(command.jvm_args@) == plan.jvm_args
    &&& are_path_texts(plan.classpath, input.dirs, texts(command.classpath@))
    &&& command.classpath_separator@ == classpath_separator_of(input.platform)
    &&& command.main_class@ == plan.main_class
    &&& texts(command.extra_args@) == plan.extra_args
    &&& are_planned_game_args(input, plan, auth, texts(command.game_args@))
    &&& command.current_dir@ == minecraft_dir_of(input.config)
    &&& edit_views(command.environment@) == environment_edits_of(input.platform.linux, environment)
}

/// What the version metadata alone contributes.
pub fn meta_draft(meta: MetaJson, platform: &Platform) -> (draft: LaunchDraft)
    ensures
        draft@ == meta_draft_of(meta, *platform),
{
    let classpath = library_paths(&meta.libraries, platform.os.as_str());
    let draft = LaunchDraft {
        asset_index_id: meta.asset_index.id,
        main_class: meta.main_class,
        classpath,
        game_args: Vec::new(),
        jvm_args: Vec::new(),
        patch_jvm_args: Vec::new(),
        extra_args: Vec::new(),
    };
    assert(draft@ =~= meta_draft_of(meta, *platform));
    draft
}

/// Adds what a loader profile contributes besides libraries, where the library
/// directory has the given text.
pub fn add_profile_in(
    draft: LaunchDraft,
    profile: &LoaderProfileJson,
    config: &InstanceConfig,
    platform: &Platform,
    library_directory: &str,
) -> (after: LaunchDraft)
    ensures
        after@ == with_profile(draft@, *profile, *config, *platform, library_directory@),
{
    let jvm_args = resolve_jvm_placeholders(
        profile_jvm_args(profile),
        library_directory,
        classpath_separator(platform).as_str(),
        version_name(config).as_str(),
    );
    LaunchDraft {
        main_class: profile.main_class.clone(),
        game_args: profile_game_args(profile),
        jvm_args,
        ..draft
    }
}

/// Adds what a loader profile contributes besides libraries.
pub fn add_profile(draft: LaunchDraft, profile: &LoaderProfileJson, input: &LaunchInput) -> (after:
    LaunchDraft)
    ensures
        profile_applied(draft@, *profile, *input, after@),
{
    let directory = library_directory(&input.config).to_text(&input.dirs);
    assert(is_path_text(library_directory_of(input.config), input.dirs, directory@));
    add_profile_in(draft, profile, &input.config, &input.platform, directory.as_str())
}

/// Adds what a patch contributes.
pub fn add_patch(
    draft: LaunchDraft,
    classpath: Vec<LaunchPath>,
    patch: Option<LaunchPatch>,
) -> (after: LaunchDraft)
    ensures
        after@ == with_patch(draft@, path_views(classpath@), patch),
{
    let after = match patch {
        Some(patch) => LaunchDraft {
            classpath,
            main_class: patch.main_class,
            patch_jvm_args: patch.jvm_args,
            extra_args: patch.extra_args,
            ..draft
        },
        None => LaunchDraft {
            classpath,
            patch_jvm_args: Vec::new(),
            extra_args: Vec::new(),
            ..draft
        },
    };
    assert(after@ =~= with_patch(draft@, path_views(classpath@), patch));
    after
}

/// Makes a plan of a draft under the launcher-wide settings.
pub fn make_plan(draft: LaunchDraft, config: &InstanceConfig, settings: &LaunchSettings) -> (plan:
    LaunchPlan)
    ensures
        plan@ == plan_of(draft@, *config, *settings),
{
    LaunchPlan {
        asset_index_id: draft.asset_index_id,
        main_class: draft.main_class,
        classpath: draft.classpath,
        game_args: draft.game_args,
        jvm_args: build_jvm_args(config, settings, draft.jvm_args, draft.patch_jvm_args),
        extra_args: draft.extra_args,
    }
}

/// The arguments of the process, in order.
pub fn process_args(
    jvm_args: Vec<String>,
    classpath: String,
    main_class: String,
    extra_args: Vec<String>,
    game_args: Vec<String>,
) -> (args: Vec<String>)
    ensures
        texts(args@) == process_args_of(
            texts(jvm_args@),
            classpath@,
            main_class@,
            texts(extra_args@),
            texts(game_args@),
        ),
{
    let mut args = jvm_args;
    let mut extra = extra_args;
    let mut game = game_args;
    args.push("-cp".to_owned());
    args.push(classpath);
    args.push(main_class);
    args.append(&mut extra);
    args.append(&mut game);
    assert(texts(args@) =~= process_args_of(
        texts(jvm_args@),
        classpath@,
        main_class@,
        texts(extra_args@),
        texts(game_args@),
    ));
    args
}

impl CommandLine {
    /// All arguments, in order.
    pub fn args(&self) -> (args: Vec<String>)
        ensures
            texts(args@) == command_args_of(*self),
    {
        process_args(
            copy_texts(&self.jvm_args),
            join_texts(&self.classpath, self.classpath_separator.as_str()),
            self.main_class.clone(),
            copy_texts(&self.extra_args),
            copy_texts(&self.game_args),
        )
    }
}

/// The command that starts the game.
pub fn build_command(
    input: &LaunchInput,
    plan: LaunchPlan,
    java: String,
    auth: GameAuth,
    environment: &EnvSnapshot,
) -> (command: CommandLine)
    ensures
        is_command(*input, plan@, java@, auth, *environment, command),
{
    let classpath = path_texts(&plan.classpath, &input.dirs);
    let current_dir = minecraft_dir(&input.config);
    let game_dir = current_dir.to_text(&input.dirs);
    let game_args = build_game_args(
        &input.config,
        game_dir.as_str(),
        input.dirs.meta.as_str(),
        plan.asset_index_id.as_str(),
        auth,
        plan.game_args,
    );
    let ghost plain_game_args = texts(game_args@);
    let game_args = add_launch_target(&input.config, game_args);
    assert(is_path_text(minecraft_dir_of(input.config), input.dirs, game_dir@));
    assert(are_game_args(
        input.config,
        game_dir@,
        input.dirs.meta@,
        plan@.asset_index_id,
        auth,
        plan@.game_args,
        plain_game_args,
    ));
    CommandLine {
        program: java,
        jvm_args: plan.jvm_args,
        classpath,
        classpath_separator: classpath_separator(&input.platform),
        main_class: plan.main_class,
        extra_args: plan.extra_args,
        game_args,
        current_dir,
        environment: environment_edits(input.platform.linux, environment),
    }
}

/// The version metadata gives the main class, the asset index and the libraries
/// that are used on the platform, and nothing else.
pub proof fn law_metadata_contributes(meta: MetaJson, platform: Platform)
    ensures
        ({
            let draft = meta_draft_of(meta, platform);
            &&& draft.main_class == meta.main_class@
            &&& draft.asset_index_id == meta.asset_index.id@
            &&& platform.os@ == "macos"@ ==> draft.classpath == library_entries(
                meta.libraries@,
                "osx"@,
            )
            &&& platform.os@ != "macos"@ ==> draft.classpath == library_entries(
                meta.libraries@,
                platform.os@,
            )
            &&& draft.game_args.len() == 0
            &&& draft.jvm_args.len() == 0
            &&& draft.patch_jvm_args.len() == 0
            &&& draft.extra_args.len() == 0
        }),
{
}

/// A loader profile replaces the main class and brings its arguments for the game
/// as they are and for the virtual machine with their placeholders resolved. The
/// class path, the asset index and what a patch brings are not its business.
pub proof fn law_profile_contributes(
    before: DraftView,
    profile: LoaderProfileJson,
    input: LaunchInput,
    after: DraftView,
)
    requires
        profile_applied(before, profile, input, after),
    ensures
        after.main_class == profile.main_class@,
        after.game_args == profile_game_args_of(profile),
        after.jvm_args.len() == profile_jvm_args_of(profile).len(),
        exists|directory: Seq<char>|
            #![trigger is_path_text(library_directory_of(input.config), input.dirs, directory)]
            is_path_text(library_directory_of(input.config), input.dirs, directory) && forall|
                i: int,
            |
                0 <= i < after.jvm_args.len() ==> #[trigger] after.jvm_args[i] == resolved(
                    profile_jvm_args_of(profile)[i],
                    directory,
                    if input.platform.windows {
                        ";"@
                    } else {
                        ":"@
                    },
                    version_name_of(input.config),
                ),
        after.classpath == before.classpath,
        after.asset_index_id == before.asset_index_id,
        after.patch_jvm_args == before.patch_jvm_args,
        after.extra_args == before.extra_args,
{
}

/// A patch decides on the class path, and where there is one on the main class
/// and on what it adds for itself. It never touches the loader's arguments for
/// the game and for the virtual machine, nor the asset index; without a patch the
/// main class stays and nothing is added.
pub proof fn law_patch_leaves_the_loaders_arguments(
    draft: DraftView,
    classpath: Seq<PathView>,
    patch: Option<LaunchPatch>,
)
    ensures
        ({
            let after = with_patch(draft, classpath, patch);
            &&& after.classpath == classpath
            &&& after.game_args == draft.game_args
            &&& after.jvm_args == draft.jvm_args
            &&& after.asset_index_id == draft.asset_index_id
            &&& patch is None ==> after.main_class == draft.main_class && after.patch_jvm_args.len()
                == 0 && after.extra_args.len() == 0
            &&& patch is Some ==> {
                &&& after.main_class == patch->0.main_class@
                &&& after.patch_jvm_args.len() == patch->0.jvm_args@.len()
                &&& forall|i: int|
                    0 <= i < patch->0.jvm_args@.len() ==> after.patch_jvm_args[i] == (
                    #[trigger] patch->0.jvm_args@[i])@
                &&& after.extra_args.len() == patch->0.extra_args@.len()
                &&& forall|i: int|
                    0 <= i < patch->0.extra_args@.len() ==> after.extra_args[i] == (
                    #[trigger] patch->0.extra_args@[i])@
            }
        }),
{
}

/// A draft shows what it holds, item for item, and entries are added to it behind
/// those that it has, with everything else kept.
pub proof fn law_entries_are_added_at_the_end(draft: DraftView, entries: Seq<PathView>)
    ensures
        draft.with_entries(entries).classpath.len() == draft.classpath.len() + entries.len(),
        forall|i: int|
            0 <= i < draft.classpath.len() ==> #[trigger] draft.with_entries(entries).classpath[i]
                == draft.classpath[i],
        forall|i: int|
            0 <= i < entries.len() ==> draft.with_entries(entries).classpath[draft.classpath.len()
                + i] == #[trigger] entries[i],
        draft.with_entries(entries) == (DraftView {
            classpath: draft.with_entries(entries).classpath,
            ..draft
        }),
{
}

/// A plan keeps all of a draft but the arguments of the virtual machine, which
/// the settings, the patch and the user complete.
pub proof fn law_plan_keeps_the_draft(
    draft: DraftView,
    config: InstanceConfig,
    settings: LaunchSettings,
)
    ensures
        ({
            let plan = plan_of(draft, config, settings);
            let loader_end = 2 + draft.jvm_args.len();
            let patch_end = loader_end + draft.patch_jvm_args.len();
            &&& plan.asset_index_id == draft.asset_index_id
            &&& plan.main_class == draft.main_class
            &&& plan.classpath == draft.classpath
            &&& plan.game_args == draft.game_args
            &&& plan.extra_args == draft.extra_args
            &&& plan.jvm_args.len() == patch_end + config.jvm_args@.len()
            &&& plan.jvm_args.subrange(2, loader_end as int) == draft.jvm_args
            &&& plan.jvm_args.subrange(loader_end as int, patch_end as int) == draft.patch_jvm_args
            &&& config.memory_max is Some ==> plan.jvm_args[1] == "-Xmx"@ + config.memory_max->0@
            &&& config.memory_max is None ==> plan.jvm_args[1] == "-Xmx"@ + settings.memory_max@
            &&& config.memory_min is Some ==> plan.jvm_args[0] == "-Xms"@ + config.memory_min->0@
            &&& config.memory_min is None ==> plan.jvm_args[0] == "-Xms"@ + settings.memory_min@
            &&& forall|i: int|
                0 <= i < config.jvm_args@.len() ==> plan.jvm_args[patch_end + i] == (
                #[trigger] config.jvm_args@[i])@
        }),
{
    law_jvm_args_layout(config, settings, draft.jvm_args, draft.patch_jvm_args);
}

/// The virtual machine gets its own arguments first, then the class path behind
/// its option, then the main class; what comes after that goes to the game, the
/// patch's arguments before the others.
pub proof fn law_process_args_in_order(command: CommandLine)
    ensures
        ({
            let args = command_args_of(command);
            let n = command.jvm_args@.len() as int;
            let m = n + 3 + command.extra_args@.len();
            &&& args.len() == m + command.game_args@.len()
            &&& forall|i: int| 0 <= i < n ==> args[i] == (#[trigger] command.jvm_args@[i])@
            &&& args[n] == "-cp"@
            &&& args[n + 1] == joined(texts(command.classpath@), command.classpath_separator@)
            &&& args[n + 2] == command.main_class@
            &&& forall|i: int|
                0 <= i < command.extra_args@.len() ==> args[n + 3 + i] == (
                #[trigger] command.extra_args@[i])@
            &&& forall|i: int|
                0 <= i < command.game_args@.len() ==> args[m + i] == (
                #[trigger] command.game_args@[i])@
        }),
{
}

/// A command starts the Java program that was chosen, in the game directory, with
/// what its plan says and with the credentials, and leaves nothing of it out.
pub proof fn law_command_follows_its_plan(
    input: LaunchInput,
    plan: PlanView,
    java: Seq<char>,
    auth: GameAuth,
    environment: EnvSnapshot,
    command: CommandLine,
)
    requires
        is_command(input, plan, java, auth, environment, command),
    ensures
        command.program@ == java,
        texts(command.jvm_args@) == plan.jvm_args,
        command.main_class@ == plan.main_class,
        texts(command.extra_args@) == plan.extra_args,
        plan.game_args.is_suffix_of(texts(command.game_args@)),
        texts(command.game_args@).len() == plan.game_args.len() + 18 + if input.config.loader
            == ModLoader::Forge && version_at_least(input.config.game_version@, 1, 21) {
            2int
        } else {
            0int
        },
        command.classpath@.len() == plan.classpath.len(),
        forall|i: int|
            0 <= i < plan.classpath.len() ==> is_path_text(
                plan.classpath[i],
                input.dirs,
                (#[trigger] command.classpath@[i])@,
            ),
        input.platform.windows ==> command.classpath_separator@ == ";"@,
        !input.platform.windows ==> command.classpath_separator@ == ":"@,
        command.current_dir@ == (PathView {
            root: RootView::Instances,
            parts: seq![input.config.name@, ".minecraft"@],
        }),
        edit_views(command.environment@) == environment_edits_of(input.platform.linux, environment),
        ({
            let args = texts(command.game_args@);
            &&& exists|i: int|
                0 <= i < args.len() - 1 && #[trigger] args[i] == "--accessToken"@ && args[i + 1]
                    == auth.token@
            &&& exists|i: int|
                0 <= i < args.len() - 1 && #[trigger] args[i] == "--uuid"@ && args[i + 1]
                    == auth.uuid@
            &&& exists|i: int|
                0 <= i < args.len() - 1 && #[trigger] args[i] == "--username"@ && args[i + 1]
                    == auth.username@
            &&& exists|i: int|
                0 <= i < args.len() - 1 && #[trigger] args[i] == "--userType"@ && args[i + 1]
                    == auth.user_type@
            &&& exists|i: int|
                0 <= i < args.len() - 1 && #[trigger] args[i] == "--assetIndex"@ && args[i + 1]
                    == plan.asset_index_id
            &&& exists|i: int|
                0 <= i < args.len() - 1 && #[trigger] args[i] == "--version"@ && args[i + 1]
                    == input.config.game_version@
            &&& exists|i: int|
                0 <= i < args.len() - 1 && #[trigger] args[i] == "--userProperties"@ && args[i + 1]
                    == "{}"@
            &&& input.config.loader == ModLoader::Forge && version_at_least(
                input.config.game_version@,
                1,
                21,
            ) ==> args[0] == "--launchTarget"@ && args[1] == "forge_client"@
        }),
{
    let args = texts(command.game_args@);
    let target = launch_target_of(input.config.loader, input.config.game_version@);
    let (game_dir, game_args) = choose|game_dir: Seq<char>, game_args: Seq<Seq<char>>|
        {
            &&& #[trigger] is_path_text(minecraft_dir_of(input.config), input.dirs, game_dir)
            &&& #[trigger] are_game_args(
                input.config,
                game_dir,
                input.dirs.meta@,
                plan.asset_index_id,
                auth,
                plan.game_args,
                game_args,
            )
            &&& args == target + game_args
        };
    let n = target.len() as int;
    law_where_the_files_are(input.config, Seq::empty());
    assert(game_args.len() == plan.game_args.len() + 18);
    assert(plan.game_args =~= args.subrange(n + 18, args.len() as int));
    assert(args[n] == "--username"@ && args[n + 1] == auth.username@);
    assert(args[n + 2] == "--version"@ && args[n + 3] == input.config.game_version@);
    assert(args[n + 8] == "--assetIndex"@ && args[n + 9] == plan.asset_index_id);
    assert(args[n + 10] == "--uuid"@ && args[n + 11] == auth.uuid@);
    assert(args[n + 12] == "--accessToken"@ && args[n + 13] == auth.token@);
    assert(args[n + 14] == "--userProperties"@ && args[n + 15] == "{}"@);
    assert(args[n + 16] == "--userType"@ && args[n + 17] == auth.user_type@);
    assert forall|i: int| 0 <= i < plan.classpath.len() implies is_path_text(
        plan.classpath[i],
        input.dirs,
        (#[trigger] command.classpath@[i])@,
    ) by {
        assert(texts(command.classpath@)[i] == command.classpath@[i]@);
    }
}

/// The game directory that the game is told is the one that it is started in, and
/// the assets that it is told of are those below the metadata.
pub proof fn law_directories_that_the_game_is_told(
    input: LaunchInput,
    plan: PlanView,
    java: Seq<char>,
    auth: GameAuth,
    environment: EnvSnapshot,
    command: CommandLine,
)
    requires
        is_command(input, plan, java, auth, environment, command),
    ensures
        exists|i: int|
            0 <= i < command.game_args@.len() - 1 && (#[trigger] command.game_args@[i])@
                == "--gameDir"@ && is_path_text(
                command.current_dir@,
                input.dirs,
                command.game_args@[i + 1]@,
            ),
        exists|i: int|
            0 <= i < command.game_args@.len() - 1 && (#[trigger] command.game_args@[i])@
                == "--assetsDir"@ && is_path_text(
                PathView { root: RootView::Meta, parts: seq!["assets"@] },
                input.dirs,
                command.game_args@[i + 1]@,
            ),
{
    let args = texts(command.game_args@);
    let target = launch_target_of(input.config.loader, input.config.game_version@);
    let (game_dir, game_args) = choose|game_dir: Seq<char>, game_args: Seq<Seq<char>>|
        {
            &&& #[trigger] is_path_text(minecraft_dir_of(input.config), input.dirs, game_dir)
            &&& #[trigger] are_game_args(
                input.config,
                game_dir,
                input.dirs.meta@,
                plan.asset_index_id,
                auth,
                plan.game_args,
                game_args,
            )
            &&& args == target + game_args
        };
    let n = target.len() as int;
    assert(game_args.len() == plan.game_args.len() + 18);
    assert(args.len() == command.game_args@.len());
    assert(args[n + 4] == "--gameDir"@ && args[n + 5] == game_dir);
    assert(command.game_args@[n + 4]@ == args[n + 4]);
    assert(command.game_args@[n + 5]@ == args[n + 5]);
    let (style, assets_dir) = choose|style: PathStyle, assets_dir: Seq<char>| #[trigger]
        joins_to(style, input.dirs.meta@, "assets"@, assets_dir) && game_args == game_args_of(
            input.config,
            game_dir,
            assets_dir,
            plan.asset_index_id,
            auth,
            plan.game_args,
        );
    assert(args[n + 6] == "--assetsDir"@ && args[n + 7] == assets_dir);
    assert(command.game_args@[n + 6]@ == args[n + 6]);
    assert(command.game_args@[n + 7]@ == args[n + 7]);
    let parts = seq!["assets"@];
    assert(parts.drop_last().len() == 0);
    assert(reads_in(style, input.dirs.meta@, parts.drop_last(), input.dirs.meta@));
    assert(joins_to(style, input.dirs.meta@, parts.last(), assets_dir));
    assert(reads_in(style, input.dirs.meta@, parts, assets_dir));
}

} // verus!
