//! What each answer leads to, in terms of the answer itself, and what each phase
//! asks for.

use vstd::prelude::*;

use crate::accounts::{grant_stored, is_auth_of, AccountType};
use crate::command::{
    is_command, meta_draft_of, plan_of, profile_applied, with_patch, DraftView, LaunchInput,
};
use crate::errors::LaunchError;
use crate::machine::{
    is_asked, is_killable, is_past_libraries, is_probing_rest, leads_to, run_state_of,
    shared_entries, understood, LaunchAction, LaunchEvent, Phase, RunState,
};
use crate::models::ModLoader;
use crate::paths::{
    is_path_text, law_where_the_files_are, local_library_dir_of, path_views, shared_library_dir,
    version_jar_of, PathView, RootView,
};
use crate::profile::profile_filename_of;
use crate::text::{opt_text, texts};

verus! {

/// A launch goes on with a file that is there. Where the metadata or the profile
/// is missing it fails, and names the path of the file that it looked for.
pub proof fn law_missing_files_end_a_launch(
    input: LaunchInput,
    before: Phase,
    found: bool,
    after: Phase,
)
    requires
        leads_to(input, before, LaunchEvent::Checked { found }, after),
    ensures
        before is MetaCheck && found ==> after is MetaRead,
        before is MetaCheck && !found ==> {
            &&& after is Failed
            &&& after->Failed_error is MetaNotFound
            &&& is_path_text(
                PathView {
                    root: RootView::Meta,
                    parts: seq!["versions"@, input.config.game_version@, "meta.json"@],
                },
                input.dirs,
                after->Failed_error->MetaNotFound_0@,
            )
        },
        before matches Phase::ProfileCheck { draft, filename } ==> {
            &&& found ==> after == (Phase::ProfileRead { draft, filename })
            &&& !found ==> {
                &&& after is Failed
                &&& after->Failed_error is MetaNotFound
                &&& is_path_text(
                    PathView { root: RootView::Meta, parts: seq!["loader-profiles"@, filename@] },
                    input.dirs,
                    after->Failed_error->MetaNotFound_0@,
                )
            }
        },
{
    if before is ProfileCheck {
        law_where_the_files_are(input.config, before->ProfileCheck_filename@);
    } else {
        law_where_the_files_are(input.config, Seq::empty());
    }
}

/// A launch that cannot read or understand a file fails with the very error that
/// came, and so does one whose game does not start.
pub proof fn law_errors_are_passed_on(
    input: LaunchInput,
    before: Phase,
    event: LaunchEvent,
    after: Phase,
)
    requires
        leads_to(input, before, event, after),
    ensures
        before is MetaRead || before is ProfileRead ==> {
            &&& event matches LaunchEvent::ReadFailed { error } ==> after == (Phase::Failed {
                error: LaunchError::Io(error),
            })
            &&& event matches LaunchEvent::ParseFailed { cause } ==> after == (Phase::Failed {
                error: LaunchError::Json(cause),
            })
        },
        before is Spawning ==> {
            &&& event matches LaunchEvent::SpawnFailed { error } ==> after == (Phase::Failed {
                error: LaunchError::Io(error),
            })
            &&& event is Spawned ==> after is Running
        },
{
}

/// Once the metadata is read, a launch without a loader has all its libraries,
/// and one with a loader goes on with the loader's profile.
pub proof fn law_metadata_leads_to_the_profile(
    input: LaunchInput,
    event: LaunchEvent,
    after: Phase,
)
    requires
        event is MetaLoaded,
        leads_to(input, Phase::MetaRead, event, after),
    ensures
        ({
            let draft = meta_draft_of(event->MetaLoaded_meta, input.platform);
            &&& input.config.loader == ModLoader::Vanilla ==> is_past_libraries(
                input,
                draft,
                after,
            )
            &&& input.config.loader != ModLoader::Vanilla ==> {
                &&& after is ProfileCheck
                &&& after->ProfileCheck_draft@ == draft
                &&& profile_filename_of(input.config) == Some(after->ProfileCheck_filename@)
            }
        }),
{
}

/// Once the profile is read, what it contributes is taken over, and exactly its
/// libraries are resolved.
pub proof fn law_profile_leads_to_its_libraries(
    input: LaunchInput,
    before: Phase,
    event: LaunchEvent,
    after: Phase,
)
    requires
        before is ProfileRead,
        event is ProfileLoaded,
        leads_to(input, before, event, after),
    ensures
        after is Coordinates,
        after->Coordinates_libraries@ == event->ProfileLoaded_profile.libraries@,
        profile_applied(
            before->ProfileRead_draft@,
            event->ProfileLoaded_profile,
            input,
            after->Coordinates_draft@,
        ),
{
}

/// Of the paths that libraries resolve to, those that could not be understood are
/// left out and all others are kept in order, each below the shared libraries
/// where it is taken from there.
pub proof fn law_understood_paths_are_kept(
    paths: Seq<Option<String>>,
    path: String,
    libraries: Seq<Seq<char>>,
)
    ensures
        understood(Seq::<Option<String>>::empty()).len() == 0,
        understood(paths.push(Some(path))) == understood(paths).push(path@),
        understood(paths.push(None)) == understood(paths),
        shared_entries(libraries).len() == libraries.len(),
        forall|i: int|
            0 <= i < libraries.len() ==> #[trigger] shared_entries(libraries)[i] == (PathView {
                root: RootView::Meta,
                parts: seq!["libraries"@, libraries[i]],
            }),
{
    let keep = |p: Option<String>| opt_text(p);
    let n = paths.len() as int;
    assert(Seq::<Option<String>>::empty().filter_map(keep) =~= Seq::<Seq<char>>::empty());
    paths.push(Some(path)).lemma_filter_map_take_succ(keep, n);
    assert(paths.push(Some(path)).take(n) =~= paths);
    assert(paths.push(Some(path)).take(n + 1) =~= paths.push(Some(path)));
    paths.push(None).lemma_filter_map_take_succ(keep, n);
    assert(paths.push(None).take(n) =~= paths);
    assert(paths.push(None).take(n + 1) =~= paths.push(None));
    assert forall|i: int| 0 <= i < libraries.len() implies #[trigger] shared_entries(libraries)[i]
        == (PathView { root: RootView::Meta, parts: seq!["libraries"@, libraries[i]] }) by {
        assert(shared_library_dir().child(libraries[i]).parts =~= seq![
            "libraries"@,
            libraries[i],
        ]);
    }
}

/// Only Forge and NeoForge look for each library; any other loader has them all
/// among the shared ones.
pub proof fn law_only_installers_search(
    input: LaunchInput,
    before: Phase,
    event: LaunchEvent,
    after: Phase,
)
    requires
        before is Coordinates,
        event is CoordinatesResolved,
        leads_to(input, before, event, after),
    ensures
        ({
            let draft = before->Coordinates_draft@;
            let libraries = understood(event->CoordinatesResolved_paths@);
            if input.config.loader == ModLoader::Forge || input.config.loader
                == ModLoader::NeoForge {
                is_probing_rest(input, draft, libraries, after)
            } else {
                is_past_libraries(
                    input,
                    DraftView { classpath: draft.classpath + shared_entries(libraries), ..draft },
                    after,
                )
            }
        }),
{
}

/// A library that is in the instance is taken from there. Only one that is not is
/// looked for among the shared ones, and is taken from there if it is there, and
/// left out if it is not. Either way the search goes on with the libraries that
/// are left.
pub proof fn law_libraries_are_taken_where_they_are_found(
    input: LaunchInput,
    before: Phase,
    found: bool,
    after: Phase,
)
    requires
        leads_to(input, before, LaunchEvent::Checked { found }, after),
    ensures
        before matches Phase::LocalProbe { draft, library, rest } ==> {
            &&& found ==> is_probing_rest(
                input,
                DraftView {
                    classpath: draft@.classpath.push(
                        PathView {
                            root: RootView::Instances,
                            parts: seq![
                                input.config.name@,
                                ".minecraft"@,
                                "libraries"@,
                                library@,
                            ],
                        },
                    ),
                    ..draft@
                },
                texts(rest@),
                after,
            )
            &&& !found ==> after == (Phase::SharedProbe { draft, library, rest })
        },
        before matches Phase::SharedProbe { draft, library, rest } ==> {
            &&& found ==> is_probing_rest(
                input,
                DraftView {
                    classpath: draft@.classpath.push(
                        PathView {
                            root: RootView::Meta,
                            parts: seq!["libraries"@, library@],
                        },
                    ),
                    ..draft@
                },
                texts(rest@),
                after,
            )
            &&& !found ==> is_probing_rest(input, draft@, texts(rest@), after)
        },
{
    match before {
        Phase::LocalProbe { draft, library, rest } => {
            let local = PathView {
                root: RootView::Instances,
                parts: seq![input.config.name@, ".minecraft"@, "libraries"@, library@],
            };
            let dir = local_library_dir_of(input.config);
            assert(dir.child(library@).parts =~= local.parts);
            assert(draft@.with_entries(seq![local]).classpath =~= draft@.classpath.push(local));
        },
        Phase::SharedProbe { draft, library, rest } => {
            let shared = PathView {
                root: RootView::Meta,
                parts: seq!["libraries"@, library@],
            };
            assert(shared_library_dir().child(library@).parts =~= shared.parts);
            assert(draft@.with_entries(seq![shared]).classpath =~= draft@.classpath.push(shared));
        },
        _ => {},
    }
}

/// The search goes through the libraries in order, beginning with the instance
/// for each; when none is left, the game's own archive follows, and then the
/// patches, for Forge alone. Nothing else of the draft changes.
pub proof fn law_search_goes_through_all_libraries(
    input: LaunchInput,
    draft: DraftView,
    libraries: Seq<Seq<char>>,
    after: Phase,
)
    ensures
        is_probing_rest(input, draft, libraries, after) && libraries.len() > 0 ==> {
            &&& after is LocalProbe
            &&& after->LocalProbe_draft@ == draft
            &&& after->LocalProbe_library@ == libraries[0]
            &&& texts(after->LocalProbe_rest@) == libraries.skip(1)
        },
        is_probing_rest(input, draft, libraries, after) && libraries.len() == 0
            ==> is_past_libraries(input, draft, after),
        is_past_libraries(input, draft, after) ==> ({
            let whole = DraftView {
                classpath: draft.classpath.push(
                    PathView {
                        root: RootView::Meta,
                        parts: seq![
                            "versions"@,
                            input.config.game_version@,
                            input.config.game_version@ + ".jar"@,
                        ],
                    },
                ),
                ..draft
            };
            if input.config.loader == ModLoader::Forge {
                after is Patching && after->Patching_draft@ == whole
            } else {
                after is SettingsLoad && after->SettingsLoad_draft@ == whole
            }
        }),
{
    law_where_the_files_are(input.config, Seq::empty());
    let jar = version_jar_of(input.config);
    assert(draft.with_entries(seq![jar]).classpath =~= draft.classpath.push(jar));
}

/// What the patches left is taken over as it came, and then the settings are
/// looked up.
pub proof fn law_patches_are_taken_over(
    input: LaunchInput,
    before: Phase,
    event: LaunchEvent,
    after: Phase,
)
    requires
        before is Patching,
        event is Patched,
        leads_to(input, before, event, after),
    ensures
        after is SettingsLoad,
        after->SettingsLoad_draft@ == with_patch(
            before->Patching_draft@,
            path_views(event->Patched_classpath@),
            event->Patched_patch,
        ),
        after->SettingsLoad_draft@.classpath.len() == event->Patched_classpath@.len(),
        forall|i: int|
            0 <= i < event->Patched_classpath@.len()
                ==> #[trigger] after->SettingsLoad_draft@.classpath[i]
                == event->Patched_classpath@[i]@,
{
}

/// The instance's own Java program comes before the launcher's, and only where
/// there is neither is one searched for, and then taken as it was found.
pub proof fn law_java_is_chosen_in_order(
    input: LaunchInput,
    before: Phase,
    event: LaunchEvent,
    after: Phase,
)
    requires
        leads_to(input, before, event, after),
    ensures
        before is SettingsLoad && event is SettingsLoaded ==> ({
            let settings = event->SettingsLoaded_settings;
            let planned = plan_of(before->SettingsLoad_draft@, input.config, settings);
            if input.config.java_path is Some {
                &&& after is AccountSelection
                &&& after->AccountSelection_plan@ == planned
                &&& after->AccountSelection_java@ == input.config.java_path->0@
            } else if settings.java_path is Some {
                &&& after is AccountSelection
                &&& after->AccountSelection_plan@ == planned
                &&& after->AccountSelection_java@ == settings.java_path->0@
            } else {
                &&& after is JavaDetection
                &&& after->JavaDetection_plan@ == planned
            }
        }),
        before is JavaDetection && event is JavaDetected ==> after == (Phase::AccountSelection {
            plan: before->JavaDetection_plan,
            java: event->JavaDetected_java,
        }),
{
}

/// Without an account, or with an offline account alone, a launch is refused and
/// the user is told why. An offline account plays with the token `0`; for a
/// Microsoft account a token is asked for. The plan and the Java program stay.
pub proof fn law_accounts_are_admitted(
    input: LaunchInput,
    before: Phase,
    event: LaunchEvent,
    after: Phase,
)
    requires
        before is AccountSelection,
        event is AccountsLoaded,
        leads_to(input, before, event, after),
    ensures
        ({
            let active = event->AccountsLoaded_active;
            let has_microsoft_account = event->AccountsLoaded_has_microsoft_account;
            &&& active is None ==> {
                &&& after is Failed
                &&& after->Failed_error is Auth
                &&& after->Failed_error->Auth_0@ == "No account selected"@
            }
            &&& active is Some && active->0.account_type == AccountType::Offline
                && !has_microsoft_account ==> {
                &&& after is Failed
                &&& after->Failed_error is Auth
                &&& after->Failed_error->Auth_0@
                    == "Offline accounts require a Microsoft account that owns Minecraft"@
            }
            &&& active is Some && active->0.account_type == AccountType::Offline
                && has_microsoft_account ==> {
                &&& after is EnvironmentRead
                &&& after->EnvironmentRead_plan == before->AccountSelection_plan
                &&& after->EnvironmentRead_java == before->AccountSelection_java
                &&& after->EnvironmentRead_auth.username@ == active->0.username@
                &&& after->EnvironmentRead_auth.uuid@ == active->0.uuid@
                &&& after->EnvironmentRead_auth.token@ == "0"@
                &&& after->EnvironmentRead_auth.user_type@ == "legacy"@
            }
            &&& active is Some && active->0.account_type == AccountType::Microsoft ==> after == (
            Phase::TokenRefresh {
                plan: before->AccountSelection_plan,
                java: before->AccountSelection_java,
                account: active->0,
                accounts: event->AccountsLoaded_accounts,
            })
        }),
{
}

/// A token that was granted is played with, under the account that it was asked
/// for. Where it brought something new for a stored account, that is saved first;
/// a refusal ends the launch with its reason.
pub proof fn law_granted_tokens_are_used(
    input: LaunchInput,
    before: Phase,
    event: LaunchEvent,
    after: Phase,
)
    requires
        before is TokenRefresh,
        leads_to(input, before, event, after),
    ensures
        event is TokenRefused ==> {
            &&& after is Failed
            &&& after->Failed_error is Auth
            &&& after->Failed_error->Auth_0@ == "Authentication failed: "@
                + event->TokenRefused_reason@
        },
        event is TokenGranted ==> ({
            let account = before->TokenRefresh_account;
            let accounts = before->TokenRefresh_accounts@;
            let grant = event->TokenGranted_grant;
            let stored = exists|i: int|
                0 <= i < accounts.len() && (#[trigger] accounts[i]).uuid@ == account.uuid@;
            if stored && (grant.refresh_token is Some || grant.expires_at is Some) {
                &&& after is AccountSave
                &&& after->AccountSave_plan == before->TokenRefresh_plan
                &&& after->AccountSave_java == before->TokenRefresh_java
                &&& is_auth_of(after->AccountSave_auth, account, grant.token@)
                &&& grant_stored(accounts, account.uuid@, grant, after->AccountSave_accounts@)
            } else {
                &&& after is EnvironmentRead
                &&& after->EnvironmentRead_plan == before->TokenRefresh_plan
                &&& after->EnvironmentRead_java == before->TokenRefresh_java
                &&& is_auth_of(after->EnvironmentRead_auth, account, grant.token@)
            }
        }),
{
}

/// After the accounts are saved the launch goes on with what it had, and once the
/// environment is read the game is started with all of it.
pub proof fn law_start_with_what_was_gathered(
    input: LaunchInput,
    before: Phase,
    event: LaunchEvent,
    after: Phase,
)
    requires
        leads_to(input, before, event, after),
    ensures
        before is AccountSave && event is AccountsSaved ==> after == (Phase::EnvironmentRead {
            plan: before->AccountSave_plan,
            java: before->AccountSave_java,
            auth: before->AccountSave_auth,
        }),
        before is EnvironmentRead && event is EnvironmentLoaded ==> after is Spawning && is_command(
            input,
            before->EnvironmentRead_plan@,
            before->EnvironmentRead_java@,
            before->EnvironmentRead_auth,
            event->EnvironmentLoaded_environment,
            after->Spawning_command,
        ),
{
}

/// The instance is shown as starting while the game is started and as running
/// while it runs. A game that ends with code 0 leaves no state behind; any other
/// code, and a kill, is a crash with that code, also after the play is recorded.
/// It can be killed from its start until its end is recorded, and not otherwise.
pub proof fn law_state_follows_the_game(
    input: LaunchInput,
    before: Phase,
    event: LaunchEvent,
    after: Phase,
)
    requires
        leads_to(input, before, event, after),
    ensures
        after is Spawning ==> run_state_of(after) == Some(RunState::Starting),
        after is Running ==> run_state_of(after) == Some(RunState::Running),
        before is Running && event is Killed ==> run_state_of(after) == Some(
            RunState::Crashed(None),
        ),
        before is Running && event is ProcessExited ==> {
            &&& after == (Phase::Exited { code: event->ProcessExited_code })
            &&& event->ProcessExited_code == Some(0i32) ==> run_state_of(after) is None
            &&& event->ProcessExited_code != Some(0i32) ==> run_state_of(after) == Some(
                RunState::Crashed(event->ProcessExited_code),
            )
        },
        before is Exited && event is PlayRecorded ==> {
            &&& after == (Phase::Finished { code: before->Exited_code })
            &&& run_state_of(after) == run_state_of(before)
        },
        is_killable(after) == (after is Spawning || after is Running || after is Exited),
        !(after is Spawning || after is Running || after is Exited || after is Finished)
            ==> run_state_of(after) is None,
{
}

/// A launch asks for the files by their own paths, for the libraries of the
/// profile, for patches of the game directory and the class path so far, for a
/// token of the selected account, and for the start of the very command it has.
pub proof fn law_what_each_phase_asks_for(input: LaunchInput, phase: Phase, action: LaunchAction)
    requires
        is_asked(input, phase, action),
    ensures
        phase is MetaCheck ==> action is CheckExists && action->CheckExists_path@ == (PathView {
            root: RootView::Meta,
            parts: seq!["versions"@, input.config.game_version@, "meta.json"@],
        }),
        phase is MetaRead ==> action is ReadMeta && action->ReadMeta_path@ == (PathView {
            root: RootView::Meta,
            parts: seq!["versions"@, input.config.game_version@, "meta.json"@],
        }),
        phase matches Phase::ProfileCheck { filename, .. } ==> action is CheckExists
            && action->CheckExists_path@ == (PathView {
            root: RootView::Meta,
            parts: seq!["loader-profiles"@, filename@],
        }),
        phase matches Phase::ProfileRead { filename, .. } ==> action is ReadProfile
            && action->ReadProfile_path@ == (PathView {
            root: RootView::Meta,
            parts: seq!["loader-profiles"@, filename@],
        }),
        phase matches Phase::Coordinates { libraries, .. } ==> action is ResolveCoordinates
            && *action->ResolveCoordinates_libraries == libraries,
        phase matches Phase::LocalProbe { library, .. } ==> action is CheckExists
            && action->CheckExists_path@ == (PathView {
            root: RootView::Instances,
            parts: seq![input.config.name@, ".minecraft"@, "libraries"@, library@],
        }),
        phase matches Phase::SharedProbe { library, .. } ==> action is CheckExists
            && action->CheckExists_path@ == (PathView {
            root: RootView::Meta,
            parts: seq!["libraries"@, library@],
        }),
        phase matches Phase::Patching { draft } ==> {
            &&& action is ApplyPatches
            &&& action->ApplyPatches_minecraft_dir@ == (PathView {
                root: RootView::Instances,
                parts: seq![input.config.name@, ".minecraft"@],
            })
            &&& action->ApplyPatches_library_dir@ == (PathView {
                root: RootView::Meta,
                parts: seq!["libraries"@],
            })
            &&& *action->ApplyPatches_classpath == draft.classpath
        },
        phase is SettingsLoad ==> action is LoadSettings,
        phase is JavaDetection ==> action is DetectJava,
        phase is AccountSelection ==> action is LoadAccounts,
        phase matches Phase::TokenRefresh { account, .. } ==> action is RefreshToken
            && *action->RefreshToken_account == account,
        phase matches Phase::AccountSave { accounts, .. } ==> action is SaveAccounts
            && *action->SaveAccounts_accounts == accounts,
        phase is EnvironmentRead ==> action is ReadEnvironment,
        phase matches Phase::Spawning { command } ==> action is Spawn && *action->Spawn_command
            == command,
        phase is Running ==> action is Supervise,
        phase is Exited ==> action is RecordPlay,
        phase is Finished || phase is Failed ==> action is Stop,
{
    match phase {
        Phase::ProfileCheck { filename, .. } => law_where_the_files_are(input.config, filename@),
        Phase::ProfileRead { filename, .. } => law_where_the_files_are(input.config, filename@),
        Phase::LocalProbe { library, .. } => {
            let dir = local_library_dir_of(input.config);
            assert(dir.child(library@).parts =~= seq![
                input.config.name@,
                ".minecraft"@,
                "libraries"@,
                library@,
            ]);
        },
        Phase::SharedProbe { library, .. } => {
            assert(shared_library_dir().child(library@).parts =~= seq!["libraries"@, library@]);
        },
        _ => law_where_the_files_are(input.config, Seq::empty()),
    }
}

} // verus!
