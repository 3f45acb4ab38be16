//! Where the command line of a launch comes from: the metadata, the profile,
//! the libraries, the patch, the settings, the account and the environment that
//! were read on the way.

use vstd::prelude::*;

use crate::accounts::GameAuth;
use crate::command::{
    is_command, meta_draft_of, plan_of, profile_applied, with_patch, CommandLine, DraftView,
    LaunchInput, PlanView,
};
use crate::environment::EnvSnapshot;
use crate::laws::{
    answered, foreseen, found_entries, is_accounted_for, is_authorized, is_detection_of, is_run,
    is_step, leaves_java_open, lemma_accounted_run, lemma_probe_step, lemma_shorter_run,
    lemma_still_authorized, lemma_still_settled, probed_path, settles_java,
};
use crate::machine::{
    answers, is_past_libraries, leads_to, shared_entries, understood, LaunchEvent, LaunchMachine,
    Phase,
};
use crate::models::{InstanceConfig, ModLoader};
use crate::paths::{local_library_dir_of, path_views, version_jar_of, PathView};
use crate::profile::{installs_locally, profile_filename_of};

verus! {

/// Whether an event reports the metadata that a draft was made of.
pub open spec fn is_meta_of(input: LaunchInput, event: LaunchEvent, draft: DraftView) -> bool {
    match event {
        LaunchEvent::MetaLoaded { meta } => draft == meta_draft_of(meta, input.platform),
        _ => false,
    }
}

/// Whether two events report the metadata and the profile that a draft was made
/// of.
pub open spec fn is_profile_of(
    input: LaunchInput,
    meta_event: LaunchEvent,
    profile_event: LaunchEvent,
    draft: DraftView,
) -> bool {
    match (meta_event, profile_event) {
        (
            LaunchEvent::MetaLoaded { meta },
            LaunchEvent::ProfileLoaded { profile },
        ) => profile_applied(meta_draft_of(meta, input.platform), profile, input, draft),
        _ => false,
    }
}

/// Whether a draft was made of metadata that was read.
pub open spec fn has_meta(input: LaunchInput, draft: DraftView, events: Seq<LaunchEvent>) -> bool {
    exists|i: int| 0 <= i < events.len() && is_meta_of(input, #[trigger] events[i], draft)
}

/// Whether a draft was made of the files that an instance is launched from: of
/// the metadata, and of the profile where there is a loader.
pub open spec fn is_base(input: LaunchInput, draft: DraftView, events: Seq<LaunchEvent>) -> bool {
    if input.config.loader == ModLoader::Vanilla {
        has_meta(input, draft, events)
    } else {
        exists|i: int, j: int|
            0 <= i < events.len() && 0 <= j < events.len() && is_profile_of(
                input,
                #[trigger] events[i],
                #[trigger] events[j],
                draft,
            )
    }
}

/// The class path entries of the libraries with these paths: where an installer
/// may have put them, each as it is found; otherwise all of the shared ones.
pub open spec fn loader_entries(
    config: InstanceConfig,
    libraries: Seq<Seq<char>>,
    on_disk: spec_fn(PathView) -> bool,
) -> Seq<PathView> {
    if installs_locally(config.loader) {
        found_entries(config, libraries, on_disk)
    } else {
        shared_entries(libraries)
    }
}

/// Whether an event reports paths of libraries that lead to these entries.
pub open spec fn is_resolution_of(
    input: LaunchInput,
    event: LaunchEvent,
    entries: Seq<PathView>,
    on_disk: spec_fn(PathView) -> bool,
) -> bool {
    match event {
        LaunchEvent::CoordinatesResolved { paths } => entries == loader_entries(
            input.config,
            understood(paths@),
            on_disk,
        ),
        _ => false,
    }
}

/// Whether these are the entries of the loader's libraries.
pub open spec fn are_loader_entries(
    input: LaunchInput,
    entries: Seq<PathView>,
    events: Seq<LaunchEvent>,
    on_disk: spec_fn(PathView) -> bool,
) -> bool {
    if input.config.loader == ModLoader::Vanilla {
        entries.len() == 0
    } else {
        exists|i: int|
            0 <= i < events.len() && is_resolution_of(input, #[trigger] events[i], entries, on_disk)
    }
}

/// Whether a draft has the files that were read and the loader's libraries
/// after those of the version.
pub open spec fn has_libraries(
    input: LaunchInput,
    draft: DraftView,
    events: Seq<LaunchEvent>,
    on_disk: spec_fn(PathView) -> bool,
) -> bool {
    exists|base: DraftView, entries: Seq<PathView>|
        is_base(input, base, events) && are_loader_entries(input, entries, events, on_disk)
            && draft == #[trigger] base.with_entries(entries)
}

/// Whether a draft has everything but a patch: the files that were read, the
/// loader's libraries after those of the version, and then the game's archive.
pub open spec fn is_complete(
    input: LaunchInput,
    draft: DraftView,
    events: Seq<LaunchEvent>,
    on_disk: spec_fn(PathView) -> bool,
) -> bool {
    exists|before: DraftView|
        has_libraries(input, before, events, on_disk) && draft == #[trigger] before.with_entries(
            seq![version_jar_of(input.config)],
        )
}

/// Whether an event reports the patch that leads from one draft to the other.
pub open spec fn is_patch_of(event: LaunchEvent, before: DraftView, after: DraftView) -> bool {
    match event {
        LaunchEvent::Patched { classpath, patch } => after == with_patch(
            before,
            path_views(classpath@),
            patch,
        ),
        _ => false,
    }
}

/// Whether a draft is one that the game is started with: a complete one, which
/// is patched for Forge and for no other loader.
pub open spec fn is_final(
    input: LaunchInput,
    draft: DraftView,
    events: Seq<LaunchEvent>,
    on_disk: spec_fn(PathView) -> bool,
) -> bool {
    if input.config.loader == ModLoader::Forge {
        exists|before: DraftView, i: int|
            0 <= i < events.len() && #[trigger] is_complete(input, before, events, on_disk)
                && is_patch_of(#[trigger] events[i], before, draft)
    } else {
        is_complete(input, draft, events, on_disk)
    }
}

/// Whether an event reports the settings that lead from a draft to a plan.
pub open spec fn is_planned_by(
    config: InstanceConfig,
    event: LaunchEvent,
    draft: DraftView,
    plan: PlanView,
) -> bool {
    match event {
        LaunchEvent::SettingsLoaded { settings } => plan == plan_of(draft, config, settings),
        _ => false,
    }
}

/// Whether a plan was made of a final draft under settings that leave the Java
/// program open.
pub open spec fn awaits_java(
    input: LaunchInput,
    plan: PlanView,
    events: Seq<LaunchEvent>,
    on_disk: spec_fn(PathView) -> bool,
) -> bool {
    exists|draft: DraftView, i: int|
        0 <= i < events.len() && #[trigger] is_final(input, draft, events, on_disk)
            && is_planned_by(input.config, #[trigger] events[i], draft, plan) && leaves_java_open(
            input.config,
            events[i],
        )
}

/// Whether a plan was made of a final draft, under the settings that led to this
/// Java program.
pub open spec fn is_settled(
    input: LaunchInput,
    plan: PlanView,
    java: Seq<char>,
    events: Seq<LaunchEvent>,
    on_disk: spec_fn(PathView) -> bool,
) -> bool {
    exists|draft: DraftView, i: int|
        0 <= i < events.len() && #[trigger] is_final(input, draft, events, on_disk)
            && is_planned_by(input.config, #[trigger] events[i], draft, plan) && settles_java(
            input.config,
            events[i],
            java,
            events,
        )
}

/// Whether an event reports this environment.
pub open spec fn reports_environment(event: LaunchEvent, environment: EnvSnapshot) -> bool {
    match event {
        LaunchEvent::EnvironmentLoaded { environment: read } => read == environment,
        _ => false,
    }
}

/// Whether this environment was read.
pub open spec fn was_read(environment: EnvSnapshot, events: Seq<LaunchEvent>) -> bool {
    exists|i: int| 0 <= i < events.len() && reports_environment(#[trigger] events[i], environment)
}

/// Whether a command is the one that a launch has to lead to: made of a plan
/// that comes from what was read, of the Java program that was settled on, of
/// credentials of the selected account, and of the environment.
pub open spec fn is_command_of(
    input: LaunchInput,
    command: CommandLine,
    events: Seq<LaunchEvent>,
    on_disk: spec_fn(PathView) -> bool,
) -> bool {
    exists|plan: PlanView, auth: GameAuth, environment: EnvSnapshot|
        {
            &&& #[trigger] is_command(
                input,
                plan,
                command.program@,
                auth,
                environment,
                command,
            )
            &&& is_settled(input, plan, command.program@, events, on_disk)
            &&& is_authorized(auth, events)
            &&& was_read(environment, events)
        }
}

/// Whether an event that answers where a library is looked for says how it is.
pub open spec fn is_true_answer(
    input: LaunchInput,
    phase: Phase,
    event: LaunchEvent,
    on_disk: spec_fn(PathView) -> bool,
) -> bool {
    match (probed_path(input, phase), event) {
        (Some(path), LaunchEvent::Checked { found }) => found == on_disk(path),
        _ => true,
    }
}

/// Whether the libraries that a launch looked for were found as they are on
/// disk.
pub open spec fn are_true_answers(
    states: Seq<LaunchMachine>,
    events: Seq<LaunchEvent>,
    on_disk: spec_fn(PathView) -> bool,
) -> bool {
    forall|i: int|
        0 <= i < events.len() ==> is_true_answer(
            states[i].input,
            states[i].phase,
            #[trigger] events[i],
            on_disk,
        )
}

/// Whether what a phase holds comes from what was read so far.
spec fn is_traced(
    input: LaunchInput,
    phase: Phase,
    events: Seq<LaunchEvent>,
    on_disk: spec_fn(PathView) -> bool,
) -> bool {
    match phase {
        Phase::ProfileCheck { draft, .. } => input.config.loader != ModLoader::Vanilla && has_meta(
            input,
            draft@,
            events,
        ),
        Phase::ProfileRead { draft, .. } => input.config.loader != ModLoader::Vanilla && has_meta(
            input,
            draft@,
            events,
        ),
        Phase::Coordinates { draft, .. } => input.config.loader != ModLoader::Vanilla && is_base(
            input,
            draft@,
            events,
        ),
        Phase::LocalProbe { .. } => has_libraries(
            input,
            foreseen(input, phase, on_disk),
            events,
            on_disk,
        ),
        Phase::SharedProbe { library, .. } => {
            &&& has_libraries(input, foreseen(input, phase, on_disk), events, on_disk)
            &&& !on_disk(local_library_dir_of(input.config).child(library@))
        },
        Phase::Patching { draft } => input.config.loader == ModLoader::Forge && is_complete(
            input,
            draft@,
            events,
            on_disk,
        ),
        Phase::SettingsLoad { draft } => is_final(input, draft@, events, on_disk),
        Phase::JavaDetection { plan } => awaits_java(input, plan@, events, on_disk),
        Phase::AccountSelection { plan, java } => is_settled(input, plan@, java@, events, on_disk),
        Phase::TokenRefresh { plan, java, .. } => is_settled(input, plan@, java@, events, on_disk),
        Phase::AccountSave { plan, java, .. } => is_settled(input, plan@, java@, events, on_disk),
        Phase::EnvironmentRead { plan, java, .. } => is_settled(
            input,
            plan@,
            java@,
            events,
            on_disk,
        ),
        Phase::Spawning { command } => is_command_of(input, command, events, on_disk),
        _ => true,
    }
}

/// The files that a draft was made of stay read.
proof fn lemma_longer_base(
    input: LaunchInput,
    draft: DraftView,
    events: Seq<LaunchEvent>,
    event: LaunchEvent,
)
    ensures
        has_meta(input, draft, events) ==> has_meta(input, draft, events.push(event)),
        is_base(input, draft, events) ==> is_base(input, draft, events.push(event)),
{
    let longer = events.push(event);
    if has_meta(input, draft, events) {
        let i = choose|i: int|
            0 <= i < events.len() && is_meta_of(input, #[trigger] events[i], draft);
        assert(is_meta_of(input, longer[i], draft));
    }
    if is_base(input, draft, events) && input.config.loader != ModLoader::Vanilla {
        let (i, j) = choose|i: int, j: int|
            0 <= i < events.len() && 0 <= j < events.len() && is_profile_of(
                input,
                #[trigger] events[i],
                #[trigger] events[j],
                draft,
            );
        assert(is_profile_of(input, longer[i], longer[j], draft));
    }
}

/// The libraries that a draft has stay resolved.
proof fn lemma_longer_libraries(
    input: LaunchInput,
    draft: DraftView,
    events: Seq<LaunchEvent>,
    event: LaunchEvent,
    on_disk: spec_fn(PathView) -> bool,
)
    requires
        has_libraries(input, draft, events, on_disk),
    ensures
        has_libraries(input, draft, events.push(event), on_disk),
{
    let longer = events.push(event);
    let (base, entries) = choose|base: DraftView, entries: Seq<PathView>|
        is_base(input, base, events) && are_loader_entries(input, entries, events, on_disk)
            && draft == #[trigger] base.with_entries(entries);
    lemma_longer_base(input, base, events, event);
    if input.config.loader != ModLoader::Vanilla {
        let i = choose|i: int|
            0 <= i < events.len() && is_resolution_of(input, #[trigger] events[i], entries, on_disk);
        assert(is_resolution_of(input, longer[i], entries, on_disk));
    }
    assert(draft == base.with_entries(entries));
}

/// A draft that is complete stays so.
proof fn lemma_longer_complete(
    input: LaunchInput,
    draft: DraftView,
    events: Seq<LaunchEvent>,
    event: LaunchEvent,
    on_disk: spec_fn(PathView) -> bool,
)
    requires
        is_complete(input, draft, events, on_disk),
    ensures
        is_complete(input, draft, events.push(event), on_disk),
{
    let jar = seq![version_jar_of(input.config)];
    let before = choose|before: DraftView|
        has_libraries(input, before, events, on_disk) && draft == #[trigger] before.with_entries(
            jar,
        );
    lemma_longer_libraries(input, before, events, event, on_disk);
    assert(draft == before.with_entries(jar));
}

/// A draft that is final stays so.
proof fn lemma_longer_final(
    input: LaunchInput,
    draft: DraftView,
    events: Seq<LaunchEvent>,
    event: LaunchEvent,
    on_disk: spec_fn(PathView) -> bool,
)
    requires
        is_final(input, draft, events, on_disk),
    ensures
        is_final(input, draft, events.push(event), on_disk),
{
    let longer = events.push(event);
    if input.config.loader == ModLoader::Forge {
        let (before, i) = choose|before: DraftView, i: int|
            0 <= i < events.len() && #[trigger] is_complete(input, before, events, on_disk)
                && is_patch_of(#[trigger] events[i], before, draft);
        lemma_longer_complete(input, before, events, event, on_disk);
        assert(is_patch_of(longer[i], before, draft));
    } else {
        lemma_longer_complete(input, draft, events, event, on_disk);
    }
}

/// A plan and a Java program that are settled stay so.
proof fn lemma_longer_settled(
    input: LaunchInput,
    plan: PlanView,
    java: Seq<char>,
    events: Seq<LaunchEvent>,
    event: LaunchEvent,
    on_disk: spec_fn(PathView) -> bool,
)
    requires
        is_settled(input, plan, java, events, on_disk),
    ensures
        is_settled(input, plan, java, events.push(event), on_disk),
{
    let longer = events.push(event);
    let (draft, i) = choose|draft: DraftView, i: int|
        0 <= i < events.len() && #[trigger] is_final(input, draft, events, on_disk)
            && is_planned_by(input.config, #[trigger] events[i], draft, plan) && settles_java(
            input.config,
            events[i],
            java,
            events,
        );
    lemma_longer_final(input, draft, events, event, on_disk);
    lemma_still_settled(input.config, events[i], java, events, event);
    assert(longer[i] == events[i]);
    assert(is_final(input, draft, longer, on_disk));
}

/// A plan that awaits a Java program is settled by its detection.
proof fn lemma_java_awaited(
    input: LaunchInput,
    plan: PlanView,
    java: String,
    events: Seq<LaunchEvent>,
    on_disk: spec_fn(PathView) -> bool,
)
    requires
        awaits_java(input, plan, events, on_disk),
    ensures
        is_settled(
            input,
            plan,
            java@,
            events.push(LaunchEvent::JavaDetected { java }),
            on_disk,
        ),
{
    let event = LaunchEvent::JavaDetected { java };
    let longer = events.push(event);
    let (draft, i) = choose|draft: DraftView, i: int|
        0 <= i < events.len() && #[trigger] is_final(input, draft, events, on_disk)
            && is_planned_by(input.config, #[trigger] events[i], draft, plan) && leaves_java_open(
            input.config,
            events[i],
        );
    lemma_longer_final(input, draft, events, event, on_disk);
    assert(longer[i] == events[i]);
    assert(is_final(input, draft, longer, on_disk));
    assert(is_detection_of(longer[events.len() as int], java@));
    assert(settles_java(input.config, longer[i], java@, longer));
}

/// A launch that has all libraries has a draft that comes from what was read.
proof fn lemma_past_libraries(
    input: LaunchInput,
    draft: DraftView,
    events: Seq<LaunchEvent>,
    phase: Phase,
    on_disk: spec_fn(PathView) -> bool,
)
    requires
        has_libraries(input, draft, events, on_disk),
        is_past_libraries(input, draft, phase),
    ensures
        is_traced(input, phase, events, on_disk),
{
    let whole = draft.with_entries(seq![version_jar_of(input.config)]);
    assert(is_complete(input, whole, events, on_disk));
}

/// The step to the libraries keeps what a launch holds traced.
proof fn lemma_resolved(
    input: LaunchInput,
    draft: DraftView,
    events: Seq<LaunchEvent>,
    event: LaunchEvent,
    before: Phase,
    after: Phase,
    on_disk: spec_fn(PathView) -> bool,
)
    requires
        before is Coordinates,
        before->Coordinates_draft@ == draft,
        input.config.loader != ModLoader::Vanilla,
        is_base(input, draft, events),
        event is CoordinatesResolved,
        leads_to(input, before, event, after),
    ensures
        is_traced(input, after, events.push(event), on_disk),
{
    let longer = events.push(event);
    let libraries = understood(event->CoordinatesResolved_paths@);
    let entries = loader_entries(input.config, libraries, on_disk);
    let whole = draft.with_entries(entries);
    lemma_longer_base(input, draft, events, event);
    assert(is_resolution_of(input, longer[events.len() as int], entries, on_disk));
    assert(has_libraries(input, whole, longer, on_disk));
    if installs_locally(input.config.loader) && libraries.len() > 0 {
        assert(foreseen(input, after, on_disk) =~= whole);
    } else {
        if installs_locally(input.config.loader) {
            assert(whole =~= draft);
        }
        lemma_past_libraries(input, whole, longer, after, on_disk);
    }
}

/// An answer in the search for libraries keeps what a launch holds traced.
proof fn lemma_searched(
    input: LaunchInput,
    before: Phase,
    events: Seq<LaunchEvent>,
    event: LaunchEvent,
    after: Phase,
    on_disk: spec_fn(PathView) -> bool,
)
    requires
        probed_path(input, before) is Some,
        is_traced(input, before, events, on_disk),
        event is Checked,
        is_true_answer(input, before, event, on_disk),
        leads_to(input, before, event, after),
    ensures
        is_traced(input, after, events.push(event), on_disk),
{
    let whole = foreseen(input, before, on_disk);
    let longer = events.push(event);
    lemma_longer_libraries(input, whole, events, event, on_disk);
    lemma_probe_step(input, before, after, on_disk);
    if probed_path(input, after) is None {
        lemma_past_libraries(input, whole, longer, after, on_disk);
    }
}

/// One answer keeps what a launch holds traced.
proof fn lemma_traced_step(
    input: LaunchInput,
    before: Phase,
    events: Seq<LaunchEvent>,
    event: LaunchEvent,
    after: Phase,
    on_disk: spec_fn(PathView) -> bool,
)
    requires
        is_traced(input, before, events, on_disk),
        is_accounted_for(input, before, events),
        answers(event, before),
        is_true_answer(input, before, event, on_disk),
        leads_to(input, before, event, after),
    ensures
        is_traced(input, after, events.push(event), on_disk),
{
    let longer = events.push(event);
    let last = events.len() as int;
    assert(longer[last] == event);
    match (before, event) {
        (Phase::MetaRead, LaunchEvent::MetaLoaded { meta }) => {
            let base = meta_draft_of(meta, input.platform);
            assert(is_meta_of(input, longer[last], base));
            if profile_filename_of(input.config) is None {
                assert(base.with_entries(Seq::empty()) =~= base);
                assert(has_libraries(input, base, longer, on_disk));
                lemma_past_libraries(input, base, longer, after, on_disk);
            }
        },
        (Phase::ProfileCheck { draft, .. }, _) => {
            lemma_longer_base(input, draft@, events, event);
        },
        (Phase::ProfileRead { draft, .. }, _) => {
            lemma_longer_base(input, draft@, events, event);
            if event is ProfileLoaded {
                let i = choose|i: int|
                    0 <= i < events.len() && is_meta_of(input, #[trigger] events[i], draft@);
                let d = after->Coordinates_draft@;
                assert(is_profile_of(input, longer[i], longer[last], d));
            }
        },
        (Phase::Coordinates { draft, .. }, _) => {
            lemma_resolved(input, draft@, events, event, before, after, on_disk);
        },
        (Phase::LocalProbe { .. }, _) => {
            lemma_searched(input, before, events, event, after, on_disk);
        },
        (Phase::SharedProbe { .. }, _) => {
            lemma_searched(input, before, events, event, after, on_disk);
        },
        (Phase::Patching { draft }, LaunchEvent::Patched { classpath, patch }) => {
            let patched = with_patch(draft@, path_views(classpath@), patch);
            lemma_longer_complete(input, draft@, events, event, on_disk);
            assert(is_patch_of(longer[last], draft@, patched));
            assert(is_final(input, patched, longer, on_disk));
        },
        (Phase::SettingsLoad { draft }, LaunchEvent::SettingsLoaded { settings }) => {
            let plan = plan_of(draft@, input.config, settings);
            lemma_longer_final(input, draft@, events, event, on_disk);
            assert(is_planned_by(input.config, longer[last], draft@, plan));
        },
        (Phase::JavaDetection { plan }, LaunchEvent::JavaDetected { java }) => {
            lemma_java_awaited(input, plan@, java, events, on_disk);
        },
        (Phase::AccountSelection { plan, java }, _) => {
            lemma_longer_settled(input, plan@, java@, events, event, on_disk);
        },
        (Phase::TokenRefresh { plan, java, .. }, _) => {
            lemma_longer_settled(input, plan@, java@, events, event, on_disk);
        },
        (Phase::AccountSave { plan, java, .. }, _) => {
            lemma_longer_settled(input, plan@, java@, events, event, on_disk);
        },
        (
            Phase::EnvironmentRead { plan, java, auth },
            LaunchEvent::EnvironmentLoaded { environment },
        ) => {
            let command = after->Spawning_command;
            lemma_longer_settled(input, plan@, java@, events, event, on_disk);
            lemma_still_authorized(auth, events, event);
            assert(reports_environment(longer[last], environment));
            assert(is_command(input, plan@, command.program@, auth, environment, command));
        },
        _ => {},
    }
}

/// In every phase of a run what the launch holds comes from what was read.
proof fn lemma_traced_run(
    states: Seq<LaunchMachine>,
    events: Seq<LaunchEvent>,
    on_disk: spec_fn(PathView) -> bool,
)
    requires
        is_run(states, events),
        are_true_answers(states, events, on_disk),
    ensures
        is_traced(
            states.last().input,
            states.last().phase,
            answered(states, events),
            on_disk,
        ),
    decreases events.len(),
{
    if events.len() > 0 {
        let last = events.len() - 1;
        let earlier = states.drop_last();
        let shorter = events.drop_last();
        lemma_shorter_run(states, events);
        assert forall|i: int| 0 <= i < shorter.len() implies is_true_answer(
            earlier[i].input,
            earlier[i].phase,
            #[trigger] shorter[i],
            on_disk,
        ) by {
            assert(shorter[i] == events[i]);
        }
        lemma_traced_run(earlier, shorter, on_disk);
        lemma_accounted_run(earlier, shorter);
        assert(is_step(states[last], events[last], states[last + 1]));
        if answers(events[last], states[last].phase) {
            lemma_traced_step(
                states[last].input,
                states[last].phase,
                answered(earlier, shorter),
                events[last],
                states.last().phase,
                on_disk,
            );
        }
    }
}

/// The game is started with what the launch asked for and was answered, and with
/// nothing else: the metadata and the profile of the loader, the loader's
/// libraries where they are on disk (the instance's own first), the game's own
/// archive, for Forge the patch, the settings, the Java program that is
/// configured or was detected, the credentials of the selected account, and the
/// environment.
pub proof fn law_command_comes_from_what_was_read(
    states: Seq<LaunchMachine>,
    events: Seq<LaunchEvent>,
    on_disk: spec_fn(PathView) -> bool,
)
    requires
        is_run(states, events),
        are_true_answers(states, events, on_disk),
        states.last().phase is Spawning,
    ensures
        is_command_of(
            states.last().input,
            states.last().phase->Spawning_command,
            answered(states, events),
            on_disk,
        ),
{
    lemma_traced_run(states, events, on_disk);
}

} // verus!
