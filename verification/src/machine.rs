//! A launch as a machine: its phase says what has to be done next, and the
//! event that reports how that went takes it to the next phase.

use vstd::prelude::*;
use vstd::string::*;

use crate::accounts::{
    account_can_launch, game_auth, grant_stored, is_auth_of, is_news, is_stored, may_launch,
    offline_grant, store_grant, Account, AccountType, GameAuth, TokenGrant,
};
use crate::command::{
    add_patch, add_profile, build_command, is_command, make_plan, meta_draft, meta_draft_of,
    plan_of, profile_applied, with_patch, CommandLine, DraftView, LaunchDraft, LaunchInput,
    LaunchPlan,
};
use crate::environment::EnvSnapshot;
use crate::errors::LaunchError;
use crate::models::{
    InstanceConfig, LaunchPatch, LaunchSettings, LoaderLibrary, LoaderProfileJson, MetaJson,
    ModLoader,
};
use crate::paths::{
    is_path_text, library_dir, local_library_dir, local_library_dir_of, meta_file, meta_file_of,
    minecraft_dir, minecraft_dir_of, path_views, profile_file, profile_path, shared_library_dir,
    version_jar, version_jar_of, LaunchPath, PathView,
};
use crate::profile::{
    has_local_libraries, installs_locally, profile_filename, profile_filename_of,
};
use crate::text::{opt_text, texts};

verus! {

/// How far a launch has come.
#[derive(Debug)]
pub enum Phase {
    /// The version metadata is looked for.
    MetaCheck,
    /// The version metadata is read.
    MetaRead,
    /// The loader profile is looked for.
    ProfileCheck { draft: LaunchDraft, filename: String },
    /// The loader profile is read.
    ProfileRead { draft: LaunchDraft, filename: String },
    /// The loader's libraries are turned into paths.
    Coordinates { draft: LaunchDraft, libraries: Vec<LoaderLibrary> },
    /// A library of the loader is looked for in the instance.
    LocalProbe { draft: LaunchDraft, library: String, rest: Vec<String> },
    /// A library of the loader is looked for among the shared ones.
    SharedProbe { draft: LaunchDraft, library: String, rest: Vec<String> },
    /// The loader-specific patches are applied.
    Patching { draft: LaunchDraft },
    /// The launcher-wide settings are looked up.
    SettingsLoad { draft: LaunchDraft },
    /// A Java program is searched for.
    JavaDetection { plan: LaunchPlan },
    /// The account is looked up.
    AccountSelection { plan: LaunchPlan, java: String },
    /// The account's token is refreshed.
    TokenRefresh { plan: LaunchPlan, java: String, account: Account, accounts: Vec<Account> },
    /// What the refresh changed is saved.
    AccountSave { plan: LaunchPlan, java: String, auth: GameAuth, accounts: Vec<Account> },
    /// The launcher's own environment is read.
    EnvironmentRead { plan: LaunchPlan, java: String, auth: GameAuth },
    /// The game is started.
    Spawning { command: CommandLine },
    /// The game runs.
    Running,
    /// The game has ended, and that it was played is recorded.
    Exited { code: Option<i32> },
    /// The game has ended and everything is recorded.
    Finished { code: Option<i32> },
    /// The launch has failed.
    Failed { error: LaunchError },
}

/// How something that a launch asked for went.
#[derive(Debug)]
pub enum LaunchEvent {
    /// Whether the file that was looked for exists.
    Checked { found: bool },
    MetaLoaded { meta: MetaJson },
    ProfileLoaded { profile: LoaderProfileJson },
    ReadFailed { error: std::io::Error },
    ParseFailed { cause: serde_json::Error },
    /// The path of each library below a library directory; none for a
    /// coordinate that cannot be understood.
    CoordinatesResolved { paths: Vec<Option<String>> },
    /// The class path that the patches left, and what else they contribute.
    Patched { classpath: Vec<LaunchPath>, patch: Option<LaunchPatch> },
    SettingsLoaded { settings: LaunchSettings },
    JavaDetected { java: String },
    AccountsLoaded {
        active: Option<Account>,
        has_microsoft_account: bool,
        accounts: Vec<Account>,
    },
    TokenGranted { grant: TokenGrant },
    TokenRefused { reason: String },
    AccountsSaved,
    EnvironmentLoaded { environment: EnvSnapshot },
    Spawned,
    SpawnFailed { error: std::io::Error },
    ProcessExited { code: Option<i32> },
    Killed,
    PlayRecorded,
}

/// What a launch asks for next.
pub enum LaunchAction<'a> {
    CheckExists { path: LaunchPath },
    ReadMeta { path: LaunchPath },
    ReadProfile { path: LaunchPath },
    ResolveCoordinates { libraries: &'a Vec<LoaderLibrary> },
    ApplyPatches {
        minecraft_dir: LaunchPath,
        library_dir: LaunchPath,
        classpath: &'a Vec<LaunchPath>,
    },
    LoadSettings,
    DetectJava,
    LoadAccounts,
    RefreshToken { account: &'a Account },
    SaveAccounts { accounts: &'a Vec<Account> },
    ReadEnvironment,
    Spawn { command: &'a CommandLine },
    /// Wait until the game ends or is killed.
    Supervise,
    /// Record that the instance was played just now.
    RecordPlay,
    /// Nothing: the launch is over.
    Stop,
}

/// A state that a launch gives its instance.
#[derive(Clone, Copy, Debug, PartialEq, Eq, Structural)]
pub enum RunState {
    Starting,
    Running,
    Crashed(Option<i32>),
}

/// A launch.
#[derive(Debug)]
pub struct LaunchMachine {
    pub input: LaunchInput,
    pub phase: Phase,
}

/// Whether a phase is a failure to find the file at `path`.
pub open spec fn is_missing(input: LaunchInput, path: PathView, phase: Phase) -> bool {
    match phase {
        Phase::Failed { error: LaunchError::MetaNotFound(text) } => is_path_text(
            path,
            input.dirs,
            text@,
        ),
        _ => false,
    }
}

/// Whether a phase is a failure of authentication with this text.
pub open spec fn is_auth_failure(text: Seq<char>, phase: Phase) -> bool {
    match phase {
        Phase::Failed { error: LaunchError::Auth(reason) } => reason@ == text,
        _ => false,
    }
}

/// The Java program that is configured: the instance's, else the launcher's.
pub open spec fn configured_java(
    config: InstanceConfig,
    settings: LaunchSettings,
) -> Option<Seq<char>> {
    if config.java_path is Some {
        opt_text(config.java_path)
    } else {
        opt_text(settings.java_path)
    }
}

/// Whether a launch that knows the launcher-wide settings is in `phase`: it has
/// a Java program, or has to search for one.
pub open spec fn is_past_settings(
    input: LaunchInput,
    draft: DraftView,
    settings: LaunchSettings,
    phase: Phase,
) -> bool {
    let planned = plan_of(draft, input.config, settings);
    match configured_java(input.config, settings) {
        Some(chosen) => match phase {
            Phase::AccountSelection { plan, java } => plan@ == planned && java@ == chosen,
            _ => false,
        },
        None => match phase {
            Phase::JavaDetection { plan } => plan@ == planned,
            _ => false,
        },
    }
}

/// Whether a launch that has all libraries of this draft is in `phase`: the
/// game's own archive comes last, and only Forge is patched.
pub open spec fn is_past_libraries(input: LaunchInput, draft: DraftView, phase: Phase) -> bool {
    let whole = draft.with_entries(seq![version_jar_of(input.config)]);
    if input.config.loader == ModLoader::Forge {
        match phase {
            Phase::Patching { draft: d } => d@ == whole,
            _ => false,
        }
    } else {
        match phase {
            Phase::SettingsLoad { draft: d } => d@ == whole,
            _ => false,
        }
    }
}

/// Whether a launch that still has to look for these libraries is in `phase`.
pub open spec fn is_probing_rest(
    input: LaunchInput,
    draft: DraftView,
    libraries: Seq<Seq<char>>,
    phase: Phase,
) -> bool {
    if libraries.len() == 0 {
        is_past_libraries(input, draft, phase)
    } else {
        match phase {
            Phase::LocalProbe { draft: d, library, rest } => d@ == draft && library@
                == libraries[0] && texts(rest@) == libraries.skip(1),
            _ => false,
        }
    }
}

/// The paths of the libraries whose coordinates were understood.
pub open spec fn understood(paths: Seq<Option<String>>) -> Seq<Seq<char>> {
    paths.filter_map(|path: Option<String>| opt_text(path))
}

/// The libraries with these paths, among the shared ones.
pub open spec fn shared_entries(libraries: Seq<Seq<char>>) -> Seq<PathView> {
    libraries.map_values(|library: Seq<char>| shared_library_dir().child(library))
}

/// Whether a launch that knows the paths of the loader's libraries is in
/// `phase`: it looks for each where an installer may have put it, or takes them
/// all from the shared ones.
pub open spec fn is_past_coordinates(
    input: LaunchInput,
    draft: DraftView,
    libraries: Seq<Seq<char>>,
    phase: Phase,
) -> bool {
    if installs_locally(input.config.loader) {
        is_probing_rest(input, draft, libraries, phase)
    } else {
        is_past_libraries(input, draft.with_entries(shared_entries(libraries)), phase)
    }
}

/// Whether a launch that has read the metadata is in `phase`: it goes on with
/// the loader's profile, if there is a loader.
pub open spec fn is_past_meta(input: LaunchInput, meta: MetaJson, phase: Phase) -> bool {
    let drafted = meta_draft_of(meta, input.platform);
    match profile_filename_of(input.config) {
        Some(name) => match phase {
            Phase::ProfileCheck { draft, filename } => draft@ == drafted && filename@ == name,
            _ => false,
        },
        None => is_past_libraries(input, drafted, phase),
    }
}

/// Whether a launch that has read the loader profile is in `phase`.
pub open spec fn is_past_profile(
    input: LaunchInput,
    draft: DraftView,
    profile: LoaderProfileJson,
    phase: Phase,
) -> bool {
    match phase {
        Phase::Coordinates { draft: d, libraries } => libraries@ == profile.libraries@
            && profile_applied(draft, profile, input, d@),
        _ => false,
    }
}

/// What a refused launch is answered when no account is selected.
pub open spec fn no_account_text() -> Seq<char> {
    "No account selected"@
}

/// What a refused launch is answered when an offline account has no Microsoft
/// account beside it.
pub open spec fn offline_refused_text() -> Seq<char> {
    "Offline accounts require a Microsoft account that owns Minecraft"@
}

/// What a launch is answered whose token could not be refreshed.
pub open spec fn token_refused_text(reason: Seq<char>) -> Seq<char> {
    "Authentication failed: "@ + reason
}

/// Whether a launch that has credentials is in `phase`.
pub open spec fn is_past_auth(
    plan: LaunchPlan,
    java: String,
    account: Account,
    token: Seq<char>,
    phase: Phase,
) -> bool {
    match phase {
        Phase::EnvironmentRead { plan: p, java: j, auth } => p == plan && j == java && is_auth_of(
            auth,
            account,
            token,
        ),
        _ => false,
    }
}

/// Whether a launch that has looked up the accounts is in `phase`.
pub open spec fn is_past_accounts(
    plan: LaunchPlan,
    java: String,
    active: Option<Account>,
    has_microsoft_account: bool,
    accounts: Vec<Account>,
    phase: Phase,
) -> bool {
    match active {
        None => is_auth_failure(no_account_text(), phase),
        Some(account) => if !may_launch(has_microsoft_account, account) {
            is_auth_failure(offline_refused_text(), phase)
        } else {
            match account.account_type {
                AccountType::Microsoft => phase == (Phase::TokenRefresh {
                    plan,
                    java,
                    account,
                    accounts,
                }),
                AccountType::Offline => is_past_auth(plan, java, account, "0"@, phase),
            }
        },
    }
}

/// Whether a launch that was granted a token is in `phase`: what is new is
/// saved before the game starts.
pub open spec fn is_past_grant(
    plan: LaunchPlan,
    java: String,
    account: Account,
    accounts: Vec<Account>,
    grant: TokenGrant,
    phase: Phase,
) -> bool {
    if is_stored(accounts@, account.uuid@) && is_news(grant) {
        match phase {
            Phase::AccountSave { plan: p, java: j, auth, accounts: saved } => {
                &&& p == plan
                &&& j == java
                &&& is_auth_of(auth, account, grant.token@)
                &&& grant_stored(accounts@, account.uuid@, grant, saved@)
            },
            _ => false,
        }
    } else {
        is_past_auth(plan, java, account, grant.token@, phase)
    }
}

/// Whether an event reports how the thing went that a phase asks for.
pub open spec fn answers(event: LaunchEvent, phase: Phase) -> bool {
    match phase {
        Phase::MetaCheck => event is Checked,
        Phase::MetaRead => event is MetaLoaded || event is ReadFailed || event is ParseFailed,
        Phase::ProfileCheck { .. } => event is Checked,
        Phase::ProfileRead { .. } => event is ProfileLoaded || event is ReadFailed
            || event is ParseFailed,
        Phase::Coordinates { .. } => event is CoordinatesResolved,
        Phase::LocalProbe { .. } => event is Checked,
        Phase::SharedProbe { .. } => event is Checked,
        Phase::Patching { .. } => event is Patched,
        Phase::SettingsLoad { .. } => event is SettingsLoaded,
        Phase::JavaDetection { .. } => event is JavaDetected,
        Phase::AccountSelection { .. } => event is AccountsLoaded,
        Phase::TokenRefresh { .. } => event is TokenGranted || event is TokenRefused,
        Phase::AccountSave { .. } => event is AccountsSaved,
        Phase::EnvironmentRead { .. } => event is EnvironmentLoaded,
        Phase::Spawning { .. } => event is Spawned || event is SpawnFailed,
        Phase::Running => event is ProcessExited || event is Killed,
        Phase::Exited { .. } => event is PlayRecorded,
        Phase::Finished { .. } => false,
        Phase::Failed { .. } => false,
    }
}

/// Whether an event takes a launch from one phase to the other. An event that
/// reports nothing that was asked for leaves the launch as it is.
pub open spec fn leads_to(
    input: LaunchInput,
    before: Phase,
    event: LaunchEvent,
    after: Phase,
) -> bool {
    match (before, event) {
        (Phase::MetaCheck, LaunchEvent::Checked { found }) => if found {
            after is MetaRead
        } else {
            is_missing(input, meta_file_of(input.config), after)
        },
        (Phase::MetaRead, LaunchEvent::MetaLoaded { meta }) => is_past_meta(input, meta, after),
        (Phase::MetaRead, LaunchEvent::ReadFailed { error }) => after == (Phase::Failed {
            error: LaunchError::Io(error),
        }),
        (Phase::MetaRead, LaunchEvent::ParseFailed { cause }) => after == (Phase::Failed {
            error: LaunchError::Json(cause),
        }),
        (Phase::ProfileCheck { draft, filename }, LaunchEvent::Checked { found }) => if found {
            after == (Phase::ProfileRead { draft, filename })
        } else {
            is_missing(input, profile_file(filename@), after)
        },
        (Phase::ProfileRead { draft, .. }, LaunchEvent::ProfileLoaded { profile }) => {
            is_past_profile(input, draft@, profile, after)
        },
        (Phase::ProfileRead { .. }, LaunchEvent::ReadFailed { error }) => after == (
        Phase::Failed { error: LaunchError::Io(error) }),
        (Phase::ProfileRead { .. }, LaunchEvent::ParseFailed { cause }) => after == (
        Phase::Failed { error: LaunchError::Json(cause) }),
        (Phase::Coordinates { draft, .. }, LaunchEvent::CoordinatesResolved { paths }) => {
            is_past_coordinates(input, draft@, understood(paths@), after)
        },
        (Phase::LocalProbe { draft, library, rest }, LaunchEvent::Checked { found }) => if found {
            is_probing_rest(
                input,
                draft@.with_entries(seq![local_library_dir_of(input.config).child(library@)]),
                texts(rest@),
                after,
            )
        } else {
            after == (Phase::SharedProbe { draft, library, rest })
        },
        (Phase::SharedProbe { draft, library, rest }, LaunchEvent::Checked { found }) => {
            is_probing_rest(
                input,
                if found {
                    draft@.with_entries(seq![shared_library_dir().child(library@)])
                } else {
                    draft@
                },
                texts(rest@),
                after,
            )
        },
        (Phase::Patching { draft }, LaunchEvent::Patched { classpath, patch }) => match after {
            Phase::SettingsLoad { draft: d } => d@ == with_patch(
                draft@,
                path_views(classpath@),
                patch,
            ),
            _ => false,
        },
        (Phase::SettingsLoad { draft }, LaunchEvent::SettingsLoaded { settings }) => {
            is_past_settings(input, draft@, settings, after)
        },
        (Phase::JavaDetection { plan }, LaunchEvent::JavaDetected { java }) => after == (
        Phase::AccountSelection { plan, java }),
        (
            Phase::AccountSelection { plan, java },
            LaunchEvent::AccountsLoaded { active, has_microsoft_account, accounts },
        ) => is_past_accounts(plan, java, active, has_microsoft_account, accounts, after),
        (
            Phase::TokenRefresh { plan, java, account, accounts },
            LaunchEvent::TokenGranted { grant },
        ) => is_past_grant(plan, java, account, accounts, grant, after),
        (Phase::TokenRefresh { .. }, LaunchEvent::TokenRefused { reason }) => is_auth_failure(
            token_refused_text(reason@),
            after,
        ),
        (Phase::AccountSave { plan, java, auth, .. }, LaunchEvent::AccountsSaved) => after == (
        Phase::EnvironmentRead { plan, java, auth }),
        (
            Phase::EnvironmentRead { plan, java, auth },
            LaunchEvent::EnvironmentLoaded { environment },
        ) => match after {
            Phase::Spawning { command } => is_command(
                input,
                plan@,
                java@,
                auth,
                environment,
                command,
            ),
            _ => false,
        },
        (Phase::Spawning { .. }, LaunchEvent::Spawned) => after is Running,
        (Phase::Spawning { .. }, LaunchEvent::SpawnFailed { error }) => after == (Phase::Failed {
            error: LaunchError::Io(error),
        }),
        (Phase::Running, LaunchEvent::ProcessExited { code }) => after == (Phase::Exited { code }),
        (Phase::Running, LaunchEvent::Killed) => after == (Phase::Exited { code: None }),
        (Phase::Exited { code }, LaunchEvent::PlayRecorded) => after == (Phase::Finished { code }),
        _ => after == before,
    }
}

/// Whether `action` is what a launch in this phase asks for.
pub open spec fn is_asked(input: LaunchInput, phase: Phase, action: LaunchAction) -> bool {
    match (phase, action) {
        (Phase::MetaCheck, LaunchAction::CheckExists { path }) => path@ == meta_file_of(
            input.config,
        ),
        (Phase::MetaRead, LaunchAction::ReadMeta { path }) => path@ == meta_file_of(input.config),
        (Phase::ProfileCheck { filename, .. }, LaunchAction::CheckExists { path }) => path@
            == profile_file(filename@),
        (Phase::ProfileRead { filename, .. }, LaunchAction::ReadProfile { path }) => path@
            == profile_file(filename@),
        (
            Phase::Coordinates { libraries: wanted, .. },
            LaunchAction::ResolveCoordinates { libraries },
        ) => *libraries == wanted,
        (Phase::LocalProbe { library, .. }, LaunchAction::CheckExists { path }) => path@
            == local_library_dir_of(input.config).child(library@),
        (Phase::SharedProbe { library, .. }, LaunchAction::CheckExists { path }) => path@
            == shared_library_dir().child(library@),
        (
            Phase::Patching { draft },
            LaunchAction::ApplyPatches { minecraft_dir, library_dir, classpath },
        ) => {
            &&& minecraft_dir@ == minecraft_dir_of(input.config)
            &&& library_dir@ == shared_library_dir()
            &&& *classpath == draft.classpath
        },
        (Phase::SettingsLoad { .. }, LaunchAction::LoadSettings) => true,
        (Phase::JavaDetection { .. }, LaunchAction::DetectJava) => true,
        (Phase::AccountSelection { .. }, LaunchAction::LoadAccounts) => true,
        (Phase::TokenRefresh { account: selected, .. }, LaunchAction::RefreshToken { account }) => {
            *account == selected
        },
        (Phase::AccountSave { accounts: stored, .. }, LaunchAction::SaveAccounts { accounts }) => {
            *accounts == stored
        },
        (Phase::EnvironmentRead { .. }, LaunchAction::ReadEnvironment) => true,
        (Phase::Spawning { command: line }, LaunchAction::Spawn { command }) => *command == line,
        (Phase::Running, LaunchAction::Supervise) => true,
        (Phase::Exited { .. }, LaunchAction::RecordPlay) => true,
        (Phase::Finished { .. }, LaunchAction::Stop) => true,
        (Phase::Failed { .. }, LaunchAction::Stop) => true,
        _ => false,
    }
}

/// The state of an instance whose game has ended with this code.
pub open spec fn ended_state_of(code: Option<i32>) -> Option<RunState> {
    if code == Some(0i32) {
        None
    } else {
        Some(RunState::Crashed(code))
    }
}

/// The state that a launch has given its instance in a phase. It has given none
/// before the game is started, and takes back what it gave where the game fails
/// to start or ends well.
pub open spec fn run_state_of(phase: Phase) -> Option<RunState> {
    match phase {
        Phase::Spawning { .. } => Some(RunState::Starting),
        Phase::Running => Some(RunState::Running),
        Phase::Exited { code } => ended_state_of(code),
        Phase::Finished { code } => ended_state_of(code),
        _ => None,
    }
}

/// Whether a means to kill the game is at hand in a phase: from when the game
/// is started until it has ended and that is recorded.
pub open spec fn is_killable(phase: Phase) -> bool {
    phase is Spawning || phase is Running || phase is Exited
}

/// The failure to find the file at `path`.
fn missing(input: &LaunchInput, path: LaunchPath) -> (phase: Phase)
    ensures
        is_missing(*input, path@, phase),
{
    Phase::Failed { error: LaunchError::MetaNotFound(path.to_text(&input.dirs)) }
}

/// A failure of authentication.
fn auth_failure(text: String) -> (phase: Phase)
    ensures
        is_auth_failure(text@, phase),
{
    Phase::Failed { error: LaunchError::Auth(text) }
}

/// Goes on with the launcher-wide settings.
fn after_settings(input: &LaunchInput, draft: LaunchDraft, settings: LaunchSettings) -> (phase:
    Phase)
    ensures
        is_past_settings(*input, draft@, settings, phase),
{
    let plan = make_plan(draft, &input.config, &settings);
    match &input.config.java_path {
        Some(java) => Phase::AccountSelection { plan, java: java.clone() },
        None => match settings.java_path {
            Some(java) => Phase::AccountSelection { plan, java },
            None => Phase::JavaDetection { plan },
        },
    }
}

/// A draft with one more class path entry at the end.
fn add_entry(draft: LaunchDraft, entry: LaunchPath) -> (after: LaunchDraft)
    ensures
        after@ == draft@.with_entries(seq![entry@]),
{
    let mut classpath = draft.classpath;
    classpath.push(entry);
    let after = LaunchDraft { classpath, ..draft };
    assert(after@ =~= draft@.with_entries(seq![entry@]));
    after
}

/// Goes on with a draft that has all libraries.
fn finish_libraries(input: &LaunchInput, draft: LaunchDraft) -> (phase: Phase)
    ensures
        is_past_libraries(*input, draft@, phase),
{
    let draft = add_entry(draft, version_jar(&input.config));
    if input.config.loader == ModLoader::Forge {
        Phase::Patching { draft }
    } else {
        Phase::SettingsLoad { draft }
    }
}

/// Goes on with a draft and the libraries that still have to be looked for.
fn probe_rest(input: &LaunchInput, draft: LaunchDraft, libraries: Vec<String>) -> (phase: Phase)
    ensures
        is_probing_rest(*input, draft@, texts(libraries@), phase),
{
    let mut rest = libraries;
    if rest.is_empty() {
        finish_libraries(input, draft)
    } else {
        let library = rest.remove(0);
        assert(texts(rest@) =~= texts(libraries@).skip(1));
        Phase::LocalProbe { draft, library, rest }
    }
}

/// The paths of the libraries whose coordinates were understood.
fn keep_understood(paths: Vec<Option<String>>) -> (libraries: Vec<String>)
    ensures
        texts(libraries@) == understood(paths@),
{
    let mut libraries: Vec<String> = Vec::new();
    let ghost keep = |path: Option<String>| opt_text(path);
    let mut i: usize = 0;
    while i < paths.len()
        invariant
            i <= paths@.len(),
            keep == (|path: Option<String>| opt_text(path)),
            texts(libraries@) =~= paths@.take(i as int).filter_map(keep),
        decreases paths@.len() - i,
    {
        proof {
            paths@.lemma_filter_map_take_succ(keep, i as int);
        }
        let ghost before = libraries@;
        match &paths[i] {
            Some(path) => {
                libraries.push(path.clone());
                assert(texts(libraries@) =~= texts(before).push(path@));
            },
            None => {},
        }
        i += 1;
    }
    assert(paths@.take(paths@.len() as int) =~= paths@);
    libraries
}

/// A draft with libraries from the shared ones.
fn add_shared(draft: LaunchDraft, libraries: &Vec<String>) -> (after: LaunchDraft)
    ensures
        after@ == draft@.with_entries(shared_entries(texts(libraries@))),
{
    let dir = library_dir();
    let mut classpath = draft.classpath;
    let ghost start = path_views(classpath@);
    let ghost entries = shared_entries(texts(libraries@));
    let mut i: usize = 0;
    while i < libraries.len()
        invariant
            i <= libraries@.len(),
            dir@ == shared_library_dir(),
            entries == shared_entries(texts(libraries@)),
            path_views(classpath@) =~= start + entries.take(i as int),
        decreases libraries@.len() - i,
    {
        let ghost before = classpath@;
        let entry = dir.child(libraries[i].as_str());
        classpath.push(entry);
        assert(entry@ == entries[i as int]);
        assert(path_views(classpath@) =~= path_views(before).push(entry@));
        i += 1;
    }
    assert(entries.take(libraries@.len() as int) =~= entries);
    LaunchDraft { classpath, ..draft }
}

/// Goes on with the paths of the loader's libraries.
fn after_coordinates(input: &LaunchInput, draft: LaunchDraft, paths: Vec<Option<String>>) -> (phase:
    Phase)
    ensures
        is_past_coordinates(*input, draft@, understood(paths@), phase),
{
    let libraries = keep_understood(paths);
    if has_local_libraries(input.config.loader) {
        probe_rest(input, draft, libraries)
    } else {
        finish_libraries(input, add_shared(draft, &libraries))
    }
}

/// Goes on with the version metadata.
fn after_meta(input: &LaunchInput, meta: MetaJson) -> (phase: Phase)
    ensures
        is_past_meta(*input, meta, phase),
{
    let draft = meta_draft(meta, &input.platform);
    match profile_filename(&input.config) {
        Some(filename) => Phase::ProfileCheck { draft, filename },
        None => finish_libraries(input, draft),
    }
}

/// Goes on with the loader profile.
fn after_profile(input: &LaunchInput, draft: LaunchDraft, profile: LoaderProfileJson) -> (phase:
    Phase)
    ensures
        is_past_profile(*input, draft@, profile, phase),
{
    let draft = add_profile(draft, &profile, input);
    Phase::Coordinates { draft, libraries: profile.libraries }
}

/// Goes on with the accounts, if one that may launch is selected.
fn after_accounts(
    plan: LaunchPlan,
    java: String,
    active: Option<Account>,
    has_microsoft_account: bool,
    accounts: Vec<Account>,
) -> (phase: Phase)
    ensures
        is_past_accounts(plan, java, active, has_microsoft_account, accounts, phase),
{
    match active {
        None => auth_failure("No account selected".to_owned()),
        Some(account) => {
            if !account_can_launch(has_microsoft_account, &account) {
                auth_failure(
                    "Offline accounts require a Microsoft account that owns Minecraft".to_owned(),
                )
            } else {
                match account.account_type {
                    AccountType::Microsoft => Phase::TokenRefresh { plan, java, account, accounts },
                    AccountType::Offline => {
                        let grant = offline_grant();
                        let auth = game_auth(&account, &grant.token);
                        Phase::EnvironmentRead { plan, java, auth }
                    },
                }
            }
        },
    }
}

/// Goes on with a token.
fn after_grant(
    plan: LaunchPlan,
    java: String,
    account: Account,
    accounts: Vec<Account>,
    grant: TokenGrant,
) -> (phase: Phase)
    ensures
        is_past_grant(plan, java, account, accounts, grant, phase),
{
    let mut saved = accounts;
    let changed = store_grant(&mut saved, &account.uuid, &grant);
    let auth = game_auth(&account, &grant.token);
    if changed {
        Phase::AccountSave { plan, java, auth, accounts: saved }
    } else {
        Phase::EnvironmentRead { plan, java, auth }
    }
}

/// The state of an instance whose game has ended with this code.
fn ended_state(code: Option<i32>) -> (state: Option<RunState>)
    ensures
        state == ended_state_of(code),
{
    match code {
        Some(0) => None,
        other => Some(RunState::Crashed(other)),
    }
}

impl LaunchMachine {
    /// The launch of an instance, about to begin.
    pub fn start(input: LaunchInput) -> (machine: LaunchMachine)
        ensures
            machine == (LaunchMachine { input, phase: Phase::MetaCheck }),
    {
        LaunchMachine { input, phase: Phase::MetaCheck }
    }

    /// What the launch asks for next.
    pub fn action(&self) -> (action: LaunchAction<'_>)
        ensures
            is_asked(self.input, self.phase, action),
    {
        let config = &self.input.config;
        match &self.phase {
            Phase::MetaCheck => LaunchAction::CheckExists { path: meta_file(config) },
            Phase::MetaRead => LaunchAction::ReadMeta { path: meta_file(config) },
            Phase::ProfileCheck { filename, .. } => LaunchAction::CheckExists {
                path: profile_path(filename.as_str()),
            },
            Phase::ProfileRead { filename, .. } => LaunchAction::ReadProfile {
                path: profile_path(filename.as_str()),
            },
            Phase::Coordinates { libraries, .. } => LaunchAction::ResolveCoordinates { libraries },
            Phase::LocalProbe { library, .. } => LaunchAction::CheckExists {
                path: local_library_dir(config).child(library.as_str()),
            },
            Phase::SharedProbe { library, .. } => LaunchAction::CheckExists {
                path: library_dir().child(library.as_str()),
            },
            Phase::Patching { draft } => LaunchAction::ApplyPatches {
                minecraft_dir: minecraft_dir(config),
                library_dir: library_dir(),
                classpath: &draft.classpath,
            },
            Phase::SettingsLoad { .. } => LaunchAction::LoadSettings,
            Phase::JavaDetection { .. } => LaunchAction::DetectJava,
            Phase::AccountSelection { .. } => LaunchAction::LoadAccounts,
            Phase::TokenRefresh { account, .. } => LaunchAction::RefreshToken { account },
            Phase::AccountSave { accounts, .. } => LaunchAction::SaveAccounts { accounts },
            Phase::EnvironmentRead { .. } => LaunchAction::ReadEnvironment,
            Phase::Spawning { command } => LaunchAction::Spawn { command },
            Phase::Running => LaunchAction::Supervise,
            Phase::Exited { .. } => LaunchAction::RecordPlay,
            Phase::Finished { .. } => LaunchAction::Stop,
            Phase::Failed { .. } => LaunchAction::Stop,
        }
    }

    /// The state that this launch has given its instance.
    pub fn run_state(&self) -> (state: Option<RunState>)
        ensures
            state == run_state_of(self.phase),
    {
        match &self.phase {
            Phase::Spawning { .. } => Some(RunState::Starting),
            Phase::Running => Some(RunState::Running),
            Phase::Exited { code } => ended_state(*code),
            Phase::Finished { code } => ended_state(*code),
            _ => None,
        }
    }

    /// Whether a means to kill the game is at hand.
    pub fn can_be_killed(&self) -> (killable: bool)
        ensures
            killable == is_killable(self.phase),
    {
        match &self.phase {
            Phase::Spawning { .. } => true,
            Phase::Running => true,
            Phase::Exited { .. } => true,
            _ => false,
        }
    }

    /// Goes on with a launch after an event.
    pub fn advance(self, event: LaunchEvent) -> (after: LaunchMachine)
        ensures
            after.input == self.input,
            leads_to(self.input, self.phase, event, after.phase),
    {
        let input = self.input;
        let phase = match (self.phase, event) {
            (Phase::MetaCheck, LaunchEvent::Checked { found }) => {
                if found {
                    Phase::MetaRead
                } else {
                    missing(&input, meta_file(&input.config))
                }
            },
            (Phase::MetaRead, LaunchEvent::MetaLoaded { meta }) => after_meta(&input, meta),
            (Phase::MetaRead, LaunchEvent::ReadFailed { error }) => Phase::Failed {
                error: LaunchError::from(error),
            },
            (Phase::MetaRead, LaunchEvent::ParseFailed { cause }) => Phase::Failed {
                error: LaunchError::from(cause),
            },
            (Phase::ProfileCheck { draft, filename }, LaunchEvent::Checked { found }) => {
                if found {
                    Phase::ProfileRead { draft, filename }
                } else {
                    missing(&input, profile_path(filename.as_str()))
                }
            },
            (Phase::ProfileRead { draft, .. }, LaunchEvent::ProfileLoaded { profile }) => {
                after_profile(&input, draft, profile)
            },
            (Phase::ProfileRead { .. }, LaunchEvent::ReadFailed { error }) => Phase::Failed {
                error: LaunchError::from(error),
            },
            (Phase::ProfileRead { .. }, LaunchEvent::ParseFailed { cause }) => Phase::Failed {
                error: LaunchError::from(cause),
            },
            (Phase::Coordinates { draft, .. }, LaunchEvent::CoordinatesResolved { paths }) => {
                after_coordinates(&input, draft, paths)
            },
            (Phase::LocalProbe { draft, library, rest }, LaunchEvent::Checked { found }) => {
                if found {
                    let entry = local_library_dir(&input.config).child(library.as_str());
                    probe_rest(&input, add_entry(draft, entry), rest)
                } else {
                    Phase::SharedProbe { draft, library, rest }
                }
            },
            (Phase::SharedProbe { draft, library, rest }, LaunchEvent::Checked { found }) => {
                let draft = if found {
                    add_entry(draft, library_dir().child(library.as_str()))
                } else {
                    draft
                };
                probe_rest(&input, draft, rest)
            },
            (Phase::Patching { draft }, LaunchEvent::Patched { classpath, patch }) => {
                Phase::SettingsLoad { draft: add_patch(draft, classpath, patch) }
            },
            (Phase::SettingsLoad { draft }, LaunchEvent::SettingsLoaded { settings }) => {
                after_settings(&input, draft, settings)
            },
            (Phase::JavaDetection { plan }, LaunchEvent::JavaDetected { java }) => {
                Phase::AccountSelection { plan, java }
            },
            (
                Phase::AccountSelection { plan, java },
                LaunchEvent::AccountsLoaded { active, has_microsoft_account, accounts },
            ) => after_accounts(plan, java, active, has_microsoft_account, accounts),
            (
                Phase::TokenRefresh { plan, java, account, accounts },
                LaunchEvent::TokenGranted { grant },
            ) => after_grant(plan, java, account, accounts, grant),
            (Phase::TokenRefresh { .. }, LaunchEvent::TokenRefused { reason }) => {
                auth_failure("Authentication failed: ".to_owned().concat(reason.as_str()))
            },
            (Phase::AccountSave { plan, java, auth, .. }, LaunchEvent::AccountsSaved) => {
                Phase::EnvironmentRead { plan, java, auth }
            },
            (
                Phase::EnvironmentRead { plan, java, auth },
                LaunchEvent::EnvironmentLoaded { environment },
            ) => Phase::Spawning { command: build_command(&input, plan, java, auth, &environment) },
            (Phase::Spawning { .. }, LaunchEvent::Spawned) => Phase::Running,
            (Phase::Spawning { .. }, LaunchEvent::SpawnFailed { error }) => Phase::Failed {
                error: LaunchError::from(error),
            },
            (Phase::Running, LaunchEvent::ProcessExited { code }) => Phase::Exited { code },
            (Phase::Running, LaunchEvent::Killed) => Phase::Exited { code: None },
            (Phase::Exited { code }, LaunchEvent::PlayRecorded) => Phase::Finished { code },
            (phase, _) => phase,
        };
        LaunchMachine { input, phase }
    }
}

} // verus!
