//! What holds of every launch.

use vstd::prelude::*;

use crate::accounts::{is_auth_of, may_launch, Account, AccountType, GameAuth};
use crate::command::{is_command, DraftView, LaunchInput, PlanView};
use crate::environment::EnvSnapshot;
use crate::machine::{
    answers, configured_java, is_killable, is_past_libraries, is_probing_rest, leads_to,
    run_state_of, LaunchEvent, LaunchMachine, Phase, RunState,
};
use crate::models::{InstanceConfig, ModLoader};
use crate::paths::{local_library_dir_of, shared_library_dir, version_jar_of, PathView};
use crate::profile::{installs_locally, profile_filename_of};
use crate::text::texts;

verus! {

/// Whether an event takes a launch from one state to the other.
pub open spec fn is_step(before: LaunchMachine, event: LaunchEvent, after: LaunchMachine) -> bool {
    after.input == before.input && leads_to(before.input, before.phase, event, after.phase)
}

/// Whether a launch went through `states`, from one to the next by `events`.
pub open spec fn is_course(states: Seq<LaunchMachine>, events: Seq<LaunchEvent>) -> bool {
    &&& states.len() == events.len() + 1
    &&& forall|i: int|
        0 <= i < events.len() ==> is_step(states[i], #[trigger] events[i], states[i + 1])
}

/// Whether a launch began at its beginning and went through `states`.
pub open spec fn is_run(states: Seq<LaunchMachine>, events: Seq<LaunchEvent>) -> bool {
    is_course(states, events) && states[0].phase is MetaCheck
}

/// Whether a phase comes after the choice of the account.
pub open spec fn is_past_choice(phase: Phase) -> bool {
    phase is TokenRefresh || phase is AccountSave || phase is EnvironmentRead || phase is Spawning
        || phase is Running || phase is Exited || phase is Finished
}

/// Whether an event selects an account that may launch.
pub open spec fn permits_launch(event: LaunchEvent) -> bool {
    match event {
        LaunchEvent::AccountsLoaded { active: Some(account), has_microsoft_account, .. } => {
            may_launch(has_microsoft_account, account)
        },
        _ => false,
    }
}

/// The events among those of a launch that answered what was asked for, in order.
pub open spec fn answered(states: Seq<LaunchMachine>, events: Seq<LaunchEvent>) -> Seq<LaunchEvent>
    decreases events.len(),
{
    if events.len() == 0 {
        Seq::empty()
    } else {
        let earlier = answered(states.drop_last(), events.drop_last());
        if answers(events.last(), states[events.len() - 1].phase) {
            earlier.push(events.last())
        } else {
            earlier
        }
    }
}

/// Whether an event came in a phase that asked for it.
pub open spec fn came_as_asked(
    event: LaunchEvent,
    state: LaunchMachine,
    reported: LaunchEvent,
) -> bool {
    event == reported && answers(event, state.phase)
}

/// Each of the answers of a launch is an event that came in a phase that asked
/// for it.
pub proof fn law_answers_came_as_asked(
    states: Seq<LaunchMachine>,
    events: Seq<LaunchEvent>,
    k: int,
)
    requires
        is_course(states, events),
        0 <= k < answered(states, events).len(),
    ensures
        exists|i: int|
            0 <= i < events.len() && came_as_asked(
                #[trigger] events[i],
                states[i],
                answered(states, events)[k],
            ),
    decreases events.len(),
{
    let last = events.len() - 1;
    let earlier = states.drop_last();
    let shorter = events.drop_last();
    let reported = answered(states, events)[k];
    if k < answered(earlier, shorter).len() {
        assert forall|i: int| 0 <= i < shorter.len() implies is_step(
            earlier[i],
            #[trigger] shorter[i],
            earlier[i + 1],
        ) by {
            assert(shorter[i] == events[i]);
        }
        law_answers_came_as_asked(earlier, shorter, k);
        let i = choose|i: int|
            0 <= i < shorter.len() && came_as_asked(#[trigger] shorter[i], earlier[i], reported);
        assert(came_as_asked(events[i], states[i], reported));
    } else {
        assert(came_as_asked(events[last], states[last], reported));
    }
}

/// No token is asked for and no game is started unless the accounts were asked
/// for and an account was selected that may launch: a Microsoft account, or an
/// offline account beside one.
pub proof fn law_no_launch_without_permission(
    states: Seq<LaunchMachine>,
    events: Seq<LaunchEvent>,
)
    requires
        is_run(states, events),
        is_past_choice(states.last().phase),
    ensures
        exists|i: int|
            0 <= i < answered(states, events).len() && permits_launch(
                #[trigger] answered(states, events)[i],
            ),
    decreases events.len(),
{
    if events.len() > 0 {
        let last = events.len() - 1;
        let before = states[last];
        let heard = answered(states, events);
        let earlier = answered(states.drop_last(), events.drop_last());
        assert(leads_to(before.input, before.phase, events[last], states.last().phase));
        if is_past_choice(before.phase) {
            lemma_shorter_run(states, events);
            law_no_launch_without_permission(states.drop_last(), events.drop_last());
            let i = choose|i: int|
                0 <= i < earlier.len() && permits_launch(#[trigger] earlier[i]);
            assert(permits_launch(heard[i]));
        } else {
            assert(heard == earlier.push(events[last]));
            assert(permits_launch(heard[heard.len() - 1]));
        }
    }
}

/// A run without its last step is a run.
pub(crate) proof fn lemma_shorter_run(states: Seq<LaunchMachine>, events: Seq<LaunchEvent>)
    requires
        is_run(states, events),
        events.len() > 0,
    ensures
        is_run(states.drop_last(), events.drop_last()),
        states.drop_last().last() == states[events.len() - 1],
        states.drop_last()[0] == states[0],
{
    let earlier = states.drop_last();
    let shorter = events.drop_last();
    assert forall|i: int| 0 <= i < shorter.len() implies is_step(
        earlier[i],
        #[trigger] shorter[i],
        earlier[i + 1],
    ) by {
        assert(shorter[i] == events[i]);
        assert(is_step(states[i], events[i], states[i + 1]));
    }
    assert(is_course(earlier, shorter));
}

/// Whether an event selects `account` and the account may launch.
pub open spec fn selects(event: LaunchEvent, account: Account) -> bool {
    match event {
        LaunchEvent::AccountsLoaded { active: Some(active), has_microsoft_account, .. } => active
            == account && may_launch(has_microsoft_account, account),
        _ => false,
    }
}

/// Whether an event grants this token.
pub open spec fn grants(event: LaunchEvent, token: Seq<char>) -> bool {
    match event {
        LaunchEvent::TokenGranted { grant } => grant.token@ == token,
        _ => false,
    }
}

/// Whether an account was selected that may launch.
pub open spec fn was_selected(account: Account, events: Seq<LaunchEvent>) -> bool {
    exists|i: int| 0 <= i < events.len() && selects(#[trigger] events[i], account)
}

/// Whether a token is one that an account may play with: for a Microsoft
/// account one that was granted, for an offline account always the same.
pub open spec fn is_token_for(
    account: Account,
    token: Seq<char>,
    events: Seq<LaunchEvent>,
) -> bool {
    match account.account_type {
        AccountType::Microsoft => exists|i: int|
            0 <= i < events.len() && grants(#[trigger] events[i], token),
        AccountType::Offline => token == "0"@,
    }
}

/// Whether credentials are those of an account that was selected and may
/// launch, with a token for it.
pub open spec fn is_authorized(auth: GameAuth, events: Seq<LaunchEvent>) -> bool {
    exists|account: Account| #[trigger]
        is_auth_of(auth, account, auth.token@) && was_selected(account, events) && is_token_for(
            account,
            auth.token@,
            events,
        )
}

/// Whether the events so far account for the credentials that a phase holds.
pub open spec fn is_accounted_for(
    input: LaunchInput,
    phase: Phase,
    events: Seq<LaunchEvent>,
) -> bool {
    match phase {
        Phase::TokenRefresh { account, .. } => was_selected(account, events)
            && account.account_type == AccountType::Microsoft,
        Phase::AccountSave { auth, .. } => is_authorized(auth, events),
        Phase::EnvironmentRead { auth, .. } => is_authorized(auth, events),
        Phase::Spawning { command } => exists|
            plan: PlanView,
            auth: GameAuth,
            environment: EnvSnapshot,
        | #[trigger]
            is_command(input, plan, command.program@, auth, environment, command) && is_authorized(
                auth,
                events,
            ),
        _ => true,
    }
}

/// What accounted for credentials still does after one more event.
pub(crate) proof fn lemma_still_authorized(
    auth: GameAuth,
    events: Seq<LaunchEvent>,
    event: LaunchEvent,
)
    requires
        is_authorized(auth, events),
    ensures
        is_authorized(auth, events.push(event)),
{
    let account = choose|account: Account| #[trigger]
        is_auth_of(auth, account, auth.token@) && was_selected(account, events) && is_token_for(
            account,
            auth.token@,
            events,
        );
    let longer = events.push(event);
    let i = choose|i: int| 0 <= i < events.len() && selects(#[trigger] events[i], account);
    assert(selects(longer[i], account));
    if account.account_type == AccountType::Microsoft {
        let j = choose|j: int| 0 <= j < events.len() && grants(#[trigger] events[j], auth.token@);
        assert(grants(longer[j], auth.token@));
    }
    assert(is_auth_of(auth, account, auth.token@));
}

/// One answer keeps the credentials accounted for.
proof fn lemma_accounted_step(
    input: LaunchInput,
    before: Phase,
    events: Seq<LaunchEvent>,
    event: LaunchEvent,
    after: Phase,
)
    requires
        is_accounted_for(input, before, events),
        answers(event, before),
        leads_to(input, before, event, after),
    ensures
        is_accounted_for(input, after, events.push(event)),
{
    let longer = events.push(event);
    assert(longer[events.len() as int] == event);
    match (before, event) {
        (
            Phase::AccountSelection { .. },
            LaunchEvent::AccountsLoaded { active: Some(account), has_microsoft_account, .. },
        ) => {
            if may_launch(has_microsoft_account, account) {
                assert(selects(longer[events.len() as int], account));
                if account.account_type == AccountType::Offline {
                    let auth = after->EnvironmentRead_auth;
                    assert(is_auth_of(auth, account, auth.token@));
                }
            }
        },
        (Phase::TokenRefresh { account, .. }, LaunchEvent::TokenGranted { grant }) => {
            let i = choose|i: int| 0 <= i < events.len() && selects(#[trigger] events[i], account);
            assert(selects(longer[i], account));
            assert(grants(longer[events.len() as int], grant.token@));
            let auth = if after is AccountSave {
                after->AccountSave_auth
            } else {
                after->EnvironmentRead_auth
            };
            assert(is_auth_of(auth, account, auth.token@));
        },
        (Phase::AccountSave { auth, .. }, _) => {
            lemma_still_authorized(auth, events, event);
        },
        (
            Phase::EnvironmentRead { plan, auth, .. },
            LaunchEvent::EnvironmentLoaded { environment },
        ) => {
            let command = after->Spawning_command;
            lemma_still_authorized(auth, events, event);
            assert(is_command(input, plan@, command.program@, auth, environment, command));
        },
        _ => {},
    }
}

/// The game is started as the account that was selected and may launch: with
/// its name and identifier, and with a token that was granted for a Microsoft
/// account, or with the token `0` for an offline one.
pub proof fn law_game_is_started_as_the_selected_account(
    states: Seq<LaunchMachine>,
    events: Seq<LaunchEvent>,
)
    requires
        is_run(states, events),
        states.last().phase is Spawning,
    ensures
        ({
            let command = states.last().phase->Spawning_command;
            exists|plan: PlanView, auth: GameAuth, environment: EnvSnapshot| #[trigger]
                is_command(
                    states.last().input,
                    plan,
                    command.program@,
                    auth,
                    environment,
                    command,
                ) && is_authorized(auth, answered(states, events))
        }),
{
    lemma_accounted_run(states, events);
}

/// In every phase of a run the credentials are accounted for.
pub(crate) proof fn lemma_accounted_run(states: Seq<LaunchMachine>, events: Seq<LaunchEvent>)
    requires
        is_run(states, events),
    ensures
        is_accounted_for(states.last().input, states.last().phase, answered(states, events)),
    decreases events.len(),
{
    if events.len() > 0 {
        let last = events.len() - 1;
        lemma_shorter_run(states, events);
        lemma_accounted_run(states.drop_last(), events.drop_last());
        assert(is_step(states[last], events[last], states[last + 1]));
        if answers(events[last], states[last].phase) {
            lemma_accounted_step(
                states[last].input,
                states[last].phase,
                answered(states.drop_last(), events.drop_last()),
                events[last],
                states.last().phase,
            );
        }
    }
}

/// Whether a class path ends as it has to: outside Forge, whose patches may
/// reorder it, the game's own archive comes last.
pub open spec fn is_closed_classpath(input: LaunchInput, classpath: Seq<PathView>) -> bool {
    input.config.loader != ModLoader::Forge ==> classpath.len() > 0 && classpath.last()
        == version_jar_of(input.config)
}

/// Whether the Java program is the instance's own, where it has one.
pub open spec fn is_allowed_java(input: LaunchInput, java: Seq<char>) -> bool {
    input.config.java_path is Some ==> java == input.config.java_path->0@
}

/// What holds of the phase of every launch.
pub open spec fn is_sound(input: LaunchInput, phase: Phase) -> bool {
    match phase {
        Phase::ProfileCheck { filename, .. } => profile_filename_of(input.config) == Some(
            filename@,
        ),
        Phase::ProfileRead { filename, .. } => profile_filename_of(input.config) == Some(filename@),
        Phase::LocalProbe { .. } => installs_locally(input.config.loader),
        Phase::SharedProbe { .. } => installs_locally(input.config.loader),
        Phase::Patching { draft } => {
            &&& input.config.loader == ModLoader::Forge
            &&& draft@.classpath.len() > 0
            &&& draft@.classpath.last() == version_jar_of(input.config)
        },
        Phase::SettingsLoad { draft } => is_closed_classpath(input, draft@.classpath),
        Phase::JavaDetection { plan } => input.config.java_path is None && is_closed_classpath(
            input,
            plan@.classpath,
        ),
        Phase::AccountSelection { plan, java } => is_allowed_java(input, java@)
            && is_closed_classpath(input, plan@.classpath),
        Phase::TokenRefresh { plan, java, account, .. } => {
            &&& is_allowed_java(input, java@)
            &&& is_closed_classpath(input, plan@.classpath)
            &&& account.account_type == AccountType::Microsoft
        },
        Phase::AccountSave { plan, java, .. } => is_allowed_java(input, java@)
            && is_closed_classpath(input, plan@.classpath),
        Phase::EnvironmentRead { plan, java, .. } => is_allowed_java(input, java@)
            && is_closed_classpath(input, plan@.classpath),
        Phase::Spawning { command } => is_allowed_java(input, command.program@),
        _ => true,
    }
}

/// Every step of a launch keeps what holds of it: the profile is the loader's,
/// only installers' loaders look into the instance, only Forge is patched, the
/// class path ends with the game's own archive, only a Microsoft account asks
/// for a token, and the instance's own Java program is never passed over.
pub proof fn law_every_step_is_sound(
    input: LaunchInput,
    before: Phase,
    event: LaunchEvent,
    after: Phase,
)
    requires
        is_sound(input, before),
        leads_to(input, before, event, after),
    ensures
        is_sound(input, after),
{
}

/// A launch is sound in every phase that it goes through.
pub proof fn law_every_launch_is_sound(states: Seq<LaunchMachine>, events: Seq<LaunchEvent>)
    requires
        is_run(states, events),
    ensures
        forall|i: int|
            0 <= i < states.len() ==> is_sound(states[0].input, (#[trigger] states[i]).phase)
                && states[i].input == states[0].input,
    decreases events.len(),
{
    if events.len() > 0 {
        let last = events.len() - 1;
        lemma_shorter_run(states, events);
        law_every_launch_is_sound(states.drop_last(), events.drop_last());
        assert(states.drop_last()[last] == states[last]);
        assert(is_sound(states[0].input, states[last].phase));
        assert(leads_to(states[last].input, states[last].phase, events[last], states.last().phase));
        law_every_step_is_sound(
            states[0].input,
            states[last].phase,
            events[last],
            states.last().phase,
        );
        assert forall|i: int| 0 <= i < states.len() implies is_sound(
            states[0].input,
            (#[trigger] states[i]).phase,
        ) && states[i].input == states[0].input by {
            if i < last + 1 {
                assert(states.drop_last()[i] == states[i]);
            }
        }
    }
}

/// Whether an event reports that this Java program was detected.
pub open spec fn is_detection_of(event: LaunchEvent, java: Seq<char>) -> bool {
    match event {
        LaunchEvent::JavaDetected { java: found } => found@ == java,
        _ => false,
    }
}

/// Whether this Java program was detected.
pub open spec fn was_detected(java: Seq<char>, events: Seq<LaunchEvent>) -> bool {
    exists|i: int| 0 <= i < events.len() && is_detection_of(#[trigger] events[i], java)
}

/// Whether an event reports the settings under which a launch takes this Java
/// program: the instance's own, else the launcher's, else one that was detected.
pub open spec fn settles_java(
    config: InstanceConfig,
    event: LaunchEvent,
    java: Seq<char>,
    events: Seq<LaunchEvent>,
) -> bool {
    match event {
        LaunchEvent::SettingsLoaded { settings } => if config.java_path is Some {
            java == config.java_path->0@
        } else if settings.java_path is Some {
            java == settings.java_path->0@
        } else {
            was_detected(java, events)
        },
        _ => false,
    }
}

/// Whether an event reports settings under which a Java program has to be
/// searched for.
pub open spec fn leaves_java_open(config: InstanceConfig, event: LaunchEvent) -> bool {
    match event {
        LaunchEvent::SettingsLoaded { settings } => configured_java(config, settings) is None,
        _ => false,
    }
}

/// The Java program that a phase has settled on.
spec fn java_in(phase: Phase) -> Option<Seq<char>> {
    match phase {
        Phase::AccountSelection { java, .. } => Some(java@),
        Phase::TokenRefresh { java, .. } => Some(java@),
        Phase::AccountSave { java, .. } => Some(java@),
        Phase::EnvironmentRead { java, .. } => Some(java@),
        Phase::Spawning { command } => Some(command.program@),
        _ => None,
    }
}

/// The game is started with the instance's own Java program, else with the one
/// of the settings that were looked up, else with one that was detected.
pub proof fn law_java_precedence(states: Seq<LaunchMachine>, events: Seq<LaunchEvent>)
    requires
        is_run(states, events),
        states.last().phase is Spawning,
    ensures
        exists|i: int|
            0 <= i < answered(states, events).len() && settles_java(
                states[0].input.config,
                #[trigger] answered(states, events)[i],
                states.last().phase->Spawning_command.program@,
                answered(states, events),
            ),
{
    lemma_java_is_settled(states, events);
}

/// A Java program that was settled on stays so after one more event.
pub(crate) proof fn lemma_still_settled(
    config: InstanceConfig,
    settled_by: LaunchEvent,
    java: Seq<char>,
    events: Seq<LaunchEvent>,
    event: LaunchEvent,
)
    requires
        settles_java(config, settled_by, java, events),
    ensures
        settles_java(config, settled_by, java, events.push(event)),
{
    if was_detected(java, events) {
        let i = choose|i: int| 0 <= i < events.len() && is_detection_of(#[trigger] events[i], java);
        assert(is_detection_of(events.push(event)[i], java));
    }
}

/// In every phase of a run the Java program is settled as it has to be.
proof fn lemma_java_is_settled(states: Seq<LaunchMachine>, events: Seq<LaunchEvent>)
    requires
        is_run(states, events),
    ensures
        states.last().input == states[0].input,
        java_in(states.last().phase) is Some ==> exists|i: int|
            0 <= i < answered(states, events).len() && settles_java(
                states[0].input.config,
                #[trigger] answered(states, events)[i],
                java_in(states.last().phase)->0,
                answered(states, events),
            ),
        states.last().phase is JavaDetection ==> exists|i: int|
            0 <= i < answered(states, events).len() && leaves_java_open(
                states[0].input.config,
                #[trigger] answered(states, events)[i],
            ),
    decreases events.len(),
{
    if events.len() > 0 {
        let last = events.len() - 1;
        let config = states[0].input.config;
        let earlier = answered(states.drop_last(), events.drop_last());
        let heard = answered(states, events);
        let before = states[last].phase;
        let after = states.last().phase;
        lemma_shorter_run(states, events);
        lemma_java_is_settled(states.drop_last(), events.drop_last());
        assert(is_step(states[last], events[last], states[last + 1]));
        if !answers(events[last], before) {
            assert(heard == earlier);
        } else if before is JavaDetection {
            let i = choose|i: int|
                0 <= i < earlier.len() && leaves_java_open(config, #[trigger] earlier[i]);
            assert(heard[i] == earlier[i]);
            assert(is_detection_of(heard[heard.len() - 1], java_in(after)->0));
            assert(settles_java(config, heard[i], java_in(after)->0, heard));
        } else if before is SettingsLoad {
            if java_in(after) is Some {
                assert(settles_java(config, heard[heard.len() - 1], java_in(after)->0, heard));
            } else {
                assert(leaves_java_open(config, heard[heard.len() - 1]));
            }
        } else if java_in(before) is Some && java_in(after) is Some {
            let java = java_in(before)->0;
            let i = choose|i: int|
                0 <= i < earlier.len() && settles_java(
                    config,
                    #[trigger] earlier[i],
                    java,
                    earlier,
                );
            lemma_still_settled(config, earlier[i], java, earlier, events[last]);
            assert(java_in(after) == Some(java));
            assert(settles_java(config, heard[i], java, heard));
        }
    }
}

/// How many stages are at most ahead of a phase.
pub open spec fn stages_ahead(phase: Phase) -> nat {
    match phase {
        Phase::MetaCheck => 16,
        Phase::MetaRead => 15,
        Phase::ProfileCheck { .. } => 14,
        Phase::ProfileRead { .. } => 13,
        Phase::Coordinates { .. } => 12,
        Phase::LocalProbe { .. } => 11,
        Phase::SharedProbe { .. } => 11,
        Phase::Patching { .. } => 10,
        Phase::SettingsLoad { .. } => 9,
        Phase::JavaDetection { .. } => 8,
        Phase::AccountSelection { .. } => 7,
        Phase::TokenRefresh { .. } => 6,
        Phase::AccountSave { .. } => 5,
        Phase::EnvironmentRead { .. } => 4,
        Phase::Spawning { .. } => 3,
        Phase::Running => 2,
        Phase::Exited { .. } => 1,
        Phase::Finished { .. } => 0,
        Phase::Failed { .. } => 0,
    }
}

/// How many files a phase still has to look for at most.
pub open spec fn probes_ahead(phase: Phase) -> nat {
    match phase {
        Phase::LocalProbe { rest, .. } => 2 * rest@.len() + 2,
        Phase::SharedProbe { rest, .. } => 2 * rest@.len() + 1,
        _ => 0,
    }
}

/// Every answer brings a launch nearer to its end, so that none goes on for
/// ever: there are fewer stages ahead, or as many and fewer files to look for.
pub proof fn law_every_answer_is_progress(
    input: LaunchInput,
    before: Phase,
    event: LaunchEvent,
    after: Phase,
)
    requires
        answers(event, before),
        leads_to(input, before, event, after),
    ensures
        stages_ahead(after) < stages_ahead(before) || (stages_ahead(after) == stages_ahead(before)
            && probes_ahead(after) < probes_ahead(before)),
{
    if after is LocalProbe {
        let rest = after->LocalProbe_rest@;
        assert(texts(rest).len() == rest.len());
        if before is LocalProbe {
            assert(texts(before->LocalProbe_rest@).len() == before->LocalProbe_rest@.len());
        } else if before is SharedProbe {
            assert(texts(before->SharedProbe_rest@).len() == before->SharedProbe_rest@.len());
        }
    }
}

/// An event that reports nothing that was asked for changes nothing. A launch
/// that has ended or failed asks for nothing, so it stays as it is.
pub proof fn law_unasked_events_change_nothing(
    input: LaunchInput,
    before: Phase,
    event: LaunchEvent,
    after: Phase,
)
    requires
        !answers(event, before),
        leads_to(input, before, event, after),
    ensures
        after == before,
{
}

/// A launch gives its instance the state of starting, then of running, and
/// afterwards of having crashed unless the game ended with code 0. A launch that
/// fails never leaves its instance as starting or running.
pub proof fn law_run_state_follows_the_process(
    input: LaunchInput,
    before: Phase,
    event: LaunchEvent,
    after: Phase,
)
    requires
        leads_to(input, before, event, after),
    ensures
        after is Failed ==> run_state_of(after) is None,
        after is Exited || after is Finished ==> run_state_of(after) is None || run_state_of(
            after,
        )->0 is Crashed,
        before is Exited ==> run_state_of(after) == run_state_of(before),
        run_state_of(before) is None && run_state_of(after) is Some ==> after is Spawning,
        before is Running && event is Killed ==> run_state_of(after) == Some(
            RunState::Crashed(None),
        ),
{
}

/// The means to kill the game is at hand as soon as the game is started, and is
/// given up only when it fails to start, or when it has ended and that it was
/// played is recorded. None is left behind by a launch that is over.
pub proof fn law_game_can_be_killed_while_it_runs(
    input: LaunchInput,
    before: Phase,
    event: LaunchEvent,
    after: Phase,
)
    requires
        leads_to(input, before, event, after),
    ensures
        after is Spawning || after is Running ==> is_killable(after),
        after is Failed || after is Finished ==> !is_killable(after),
        !is_killable(before) && is_killable(after) ==> after is Spawning,
        is_killable(before) && !is_killable(after) ==> (event is SpawnFailed && after is Failed)
            || (event is PlayRecorded && after is Finished),
{
}

/// Where a library is found: in the instance, else among the shared ones.
pub open spec fn found_entry(
    config: InstanceConfig,
    library: Seq<char>,
    on_disk: spec_fn(PathView) -> bool,
) -> Seq<PathView> {
    let local = local_library_dir_of(config).child(library);
    let shared = shared_library_dir().child(library);
    if on_disk(local) {
        seq![local]
    } else if on_disk(shared) {
        seq![shared]
    } else {
        Seq::empty()
    }
}

/// Where the libraries of a list are found, in order; those that are nowhere
/// are left out.
pub open spec fn found_entries(
    config: InstanceConfig,
    libraries: Seq<Seq<char>>,
    on_disk: spec_fn(PathView) -> bool,
) -> Seq<PathView>
    decreases libraries.len(),
{
    if libraries.len() == 0 {
        Seq::empty()
    } else {
        found_entry(config, libraries[0], on_disk) + found_entries(
            config,
            libraries.skip(1),
            on_disk,
        )
    }
}

/// The file that a phase looks for, where it looks for a library.
pub open spec fn probed_path(input: LaunchInput, phase: Phase) -> Option<PathView> {
    match phase {
        Phase::LocalProbe { library, .. } => Some(
            local_library_dir_of(input.config).child(library@),
        ),
        Phase::SharedProbe { library, .. } => Some(shared_library_dir().child(library@)),
        _ => None,
    }
}

/// The draft that looking for the remaining libraries leads to.
pub open spec fn foreseen(
    input: LaunchInput,
    phase: Phase,
    on_disk: spec_fn(PathView) -> bool,
) -> DraftView {
    match phase {
        Phase::LocalProbe { draft, library, rest } => draft@.with_entries(
            found_entry(input.config, library@, on_disk) + found_entries(
                input.config,
                texts(rest@),
                on_disk,
            ),
        ),
        Phase::SharedProbe { draft, library, rest } => draft@.with_entries(
            (if on_disk(shared_library_dir().child(library@)) {
                seq![shared_library_dir().child(library@)]
            } else {
                Seq::empty()
            }) + found_entries(input.config, texts(rest@), on_disk),
        ),
        _ => arbitrary(),
    }
}

/// One answer in the search for libraries leads to the same draft as before,
/// or ends the search with it.
pub(crate) proof fn lemma_probe_step(
    input: LaunchInput,
    before: Phase,
    after: Phase,
    on_disk: spec_fn(PathView) -> bool,
)
    requires
        probed_path(input, before) is Some,
        before is SharedProbe ==> !on_disk(
            local_library_dir_of(input.config).child(before->SharedProbe_library@),
        ),
        leads_to(
            input,
            before,
            LaunchEvent::Checked { found: on_disk(probed_path(input, before)->0) },
            after,
        ),
    ensures
        after is SharedProbe ==> !on_disk(
            local_library_dir_of(input.config).child(after->SharedProbe_library@),
        ),
        probed_path(input, after) is Some ==> foreseen(input, after, on_disk) == foreseen(
            input,
            before,
            on_disk,
        ),
        probed_path(input, after) is None ==> is_past_libraries(
            input,
            foreseen(input, before, on_disk),
            after,
        ),
{
    let (draft, library, rest) = match before {
        Phase::LocalProbe { draft, library, rest } => (draft@, library@, texts(rest@)),
        Phase::SharedProbe { draft, library, rest } => (draft@, library@, texts(rest@)),
        _ => arbitrary(),
    };
    let local = local_library_dir_of(input.config).child(library);
    let shared = shared_library_dir().child(library);
    let others = found_entries(input.config, rest, on_disk);
    if before is LocalProbe && !on_disk(local) {
        assert(foreseen(input, after, on_disk) =~= foreseen(input, before, on_disk));
    } else {
        let entry = if before is LocalProbe {
            seq![local]
        } else if on_disk(shared) {
            seq![shared]
        } else {
            Seq::empty()
        };
        let longer = draft.with_entries(entry);
        assert(longer =~= if entry.len() == 0 { draft } else { longer });
        assert(is_probing_rest(input, longer, rest, after));
        assert(foreseen(input, before, on_disk) =~= longer.with_entries(others));
        if rest.len() == 0 {
            assert(longer.with_entries(others) =~= longer);
        }
    }
}

/// A loader's libraries are taken from the instance first, so that a modpack
/// can ship its own, and from the shared ones otherwise; the game's own archive
/// follows. So it goes for every launch that looks for libraries, whatever files
/// there are.
pub proof fn law_local_libraries_take_priority(
    states: Seq<LaunchMachine>,
    events: Seq<LaunchEvent>,
    on_disk: spec_fn(PathView) -> bool,
)
    requires
        is_course(states, events),
        states[0].phase is LocalProbe,
        forall|i: int|
            0 <= i < events.len() ==> probed_path(states[i].input, (#[trigger] states[i]).phase)
                is Some,
        forall|i: int|
            0 <= i < events.len() ==> #[trigger] events[i] == (LaunchEvent::Checked {
                found: on_disk(probed_path(states[i].input, states[i].phase)->0),
            }),
        probed_path(states.last().input, states.last().phase) is None,
    ensures
        ({
            let input = states[0].input;
            let draft = states[0].phase->LocalProbe_draft@;
            let libraries = seq![states[0].phase->LocalProbe_library@] + texts(
                states[0].phase->LocalProbe_rest@,
            );
            is_past_libraries(
                input,
                draft.with_entries(found_entries(input.config, libraries, on_disk)),
                states.last().phase,
            )
        }),
{
    let input = states[0].input;
    let library = states[0].phase->LocalProbe_library@;
    let rest = texts(states[0].phase->LocalProbe_rest@);
    assert((seq![library] + rest).skip(1) =~= rest);
    lemma_search(states, events, on_disk, events.len() as int);
}

/// Up to its end the search for libraries has foreseen the same draft.
proof fn lemma_search(
    states: Seq<LaunchMachine>,
    events: Seq<LaunchEvent>,
    on_disk: spec_fn(PathView) -> bool,
    n: int,
)
    requires
        is_course(states, events),
        states[0].phase is LocalProbe,
        0 <= n <= events.len(),
        forall|i: int|
            0 <= i < events.len() ==> probed_path(states[i].input, (#[trigger] states[i]).phase)
                is Some,
        forall|i: int|
            0 <= i < events.len() ==> #[trigger] events[i] == (LaunchEvent::Checked {
                found: on_disk(probed_path(states[i].input, states[i].phase)->0),
            }),
    ensures
        states[n].input == states[0].input,
        states[n].phase is SharedProbe ==> !on_disk(
            local_library_dir_of(states[0].input.config).child(
                states[n].phase->SharedProbe_library@,
            ),
        ),
        probed_path(states[n].input, states[n].phase) is Some ==> foreseen(
            states[0].input,
            states[n].phase,
            on_disk,
        ) == foreseen(states[0].input, states[0].phase, on_disk),
        probed_path(states[n].input, states[n].phase) is None ==> is_past_libraries(
            states[0].input,
            foreseen(states[0].input, states[0].phase, on_disk),
            states[n].phase,
        ),
    decreases n,
{
    if n > 0 {
        lemma_search(states, events, on_disk, n - 1);
        assert(probed_path(states[n - 1].input, states[n - 1].phase) is Some);
        assert(leads_to(
            states[n - 1].input,
            states[n - 1].phase,
            events[n - 1],
            states[n - 1 + 1].phase,
        ));
        lemma_probe_step(states[0].input, states[n - 1].phase, states[n].phase, on_disk);
    }
}

} // verus!
