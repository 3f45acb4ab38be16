//! What of the files and settings that were read reaches the game, through a
//! whole launch.

use vstd::prelude::*;

use crate::accounts::GameAuth;
use crate::command::{
    is_command, law_command_follows_its_plan, law_plan_keeps_the_draft, plan_of, DraftView,
    LaunchInput, PlanView,
};
use crate::environment::EnvSnapshot;
use crate::laws::{answered, is_run, is_step, lemma_shorter_run};
use crate::machine::{answers, leads_to, LaunchEvent, LaunchMachine, Phase};
use crate::models::ModLoader;
use crate::paths::{is_path_text, law_where_the_files_are, version_jar_of, PathView, RootView};
use crate::profile::profile_game_args_of;
use crate::text::texts;

verus! {

/// Whether an event reports metadata with this asset index.
pub open spec fn names_asset_index(event: LaunchEvent, id: Seq<char>) -> bool {
    match event {
        LaunchEvent::MetaLoaded { meta } => meta.asset_index.id@ == id,
        _ => false,
    }
}

/// Whether an event reports a profile with these arguments for the game.
pub open spec fn brings_game_args(event: LaunchEvent, args: Seq<Seq<char>>) -> bool {
    match event {
        LaunchEvent::ProfileLoaded { profile } => profile_game_args_of(profile) == args,
        _ => false,
    }
}

/// Whether an event reports the main class of a launch with this loader: the
/// metadata does without a loader, the profile with one, and a patch for Forge.
pub open spec fn names_main_class(
    loader: ModLoader,
    event: LaunchEvent,
    main_class: Seq<char>,
) -> bool {
    match event {
        LaunchEvent::MetaLoaded { meta } => loader == ModLoader::Vanilla && meta.main_class@
            == main_class,
        LaunchEvent::ProfileLoaded { profile } => loader != ModLoader::Vanilla
            && profile.main_class@ == main_class,
        LaunchEvent::Patched { patch: Some(patch), .. } => loader == ModLoader::Forge
            && patch.main_class@ == main_class,
        _ => false,
    }
}

/// Whether an asset index was read.
spec fn has_asset_index(id: Seq<char>, heard: Seq<LaunchEvent>) -> bool {
    exists|i: int| 0 <= i < heard.len() && names_asset_index(#[trigger] heard[i], id)
}

/// Whether these are the loader's arguments for the game.
spec fn has_game_args(
    loader: ModLoader,
    args: Seq<Seq<char>>,
    heard: Seq<LaunchEvent>,
) -> bool {
    if loader == ModLoader::Vanilla {
        args.len() == 0
    } else {
        exists|i: int| 0 <= i < heard.len() && brings_game_args(#[trigger] heard[i], args)
    }
}

/// Whether this is the main class that was read.
spec fn has_main_class(
    loader: ModLoader,
    main_class: Seq<char>,
    heard: Seq<LaunchEvent>,
) -> bool {
    exists|i: int|
        0 <= i < heard.len() && names_main_class(loader, #[trigger] heard[i], main_class)
}

/// Whether what was read of the loader is in a draft.
spec fn is_loaded(input: LaunchInput, draft: DraftView, heard: Seq<LaunchEvent>) -> bool {
    &&& has_asset_index(draft.asset_index_id, heard)
    &&& has_game_args(input.config.loader, draft.game_args, heard)
    &&& has_main_class(input.config.loader, draft.main_class, heard)
}

/// Whether a class path ends with the game's archive, where no patch may have
/// changed it.
spec fn ends_with_archive(input: LaunchInput, classpath: Seq<PathView>) -> bool {
    input.config.loader != ModLoader::Forge ==> classpath.len() > 0 && classpath.last()
        == version_jar_of(input.config)
}

/// Whether what was read and what the user set is in a plan.
spec fn is_prepared(input: LaunchInput, plan: PlanView, heard: Seq<LaunchEvent>) -> bool {
    &&& has_asset_index(plan.asset_index_id, heard)
    &&& has_game_args(input.config.loader, plan.game_args, heard)
    &&& has_main_class(input.config.loader, plan.main_class, heard)
    &&& texts(input.config.jvm_args@).is_suffix_of(plan.jvm_args)
    &&& ends_with_archive(input, plan.classpath)
}

/// Whether a phase holds what was read so far.
spec fn is_kept(input: LaunchInput, phase: Phase, heard: Seq<LaunchEvent>) -> bool {
    match phase {
        Phase::ProfileCheck { draft, .. } => input.config.loader != ModLoader::Vanilla
            && has_asset_index(draft@.asset_index_id, heard),
        Phase::ProfileRead { draft, .. } => input.config.loader != ModLoader::Vanilla
            && has_asset_index(draft@.asset_index_id, heard),
        Phase::Coordinates { draft, .. } => is_loaded(input, draft@, heard),
        Phase::LocalProbe { draft, .. } => is_loaded(input, draft@, heard),
        Phase::SharedProbe { draft, .. } => is_loaded(input, draft@, heard),
        Phase::Patching { draft } => is_loaded(input, draft@, heard) && input.config.loader
            == ModLoader::Forge,
        Phase::SettingsLoad { draft } => is_loaded(input, draft@, heard) && ends_with_archive(
            input,
            draft@.classpath,
        ),
        Phase::JavaDetection { plan } => is_prepared(input, plan@, heard),
        Phase::AccountSelection { plan, .. } => is_prepared(input, plan@, heard),
        Phase::TokenRefresh { plan, .. } => is_prepared(input, plan@, heard),
        Phase::AccountSave { plan, .. } => is_prepared(input, plan@, heard),
        Phase::EnvironmentRead { plan, .. } => is_prepared(input, plan@, heard),
        Phase::Spawning { command } => exists|
            plan: PlanView,
            auth: GameAuth,
            environment: EnvSnapshot,
        | #[trigger]
            is_command(input, plan, command.program@, auth, environment, command) && is_prepared(
                input,
                plan,
                heard,
            ),
        _ => true,
    }
}

/// What was read stays read.
proof fn lemma_longer(
    loader: ModLoader,
    id: Seq<char>,
    args: Seq<Seq<char>>,
    main_class: Seq<char>,
    heard: Seq<LaunchEvent>,
    event: LaunchEvent,
)
    ensures
        has_asset_index(id, heard) ==> has_asset_index(id, heard.push(event)),
        has_game_args(loader, args, heard) ==> has_game_args(loader, args, heard.push(event)),
        has_main_class(loader, main_class, heard) ==> has_main_class(
            loader,
            main_class,
            heard.push(event),
        ),
{
    let longer = heard.push(event);
    if has_asset_index(id, heard) {
        let i = choose|i: int| 0 <= i < heard.len() && names_asset_index(#[trigger] heard[i], id);
        assert(names_asset_index(longer[i], id));
    }
    if loader != ModLoader::Vanilla && has_game_args(loader, args, heard) {
        let i = choose|i: int| 0 <= i < heard.len() && brings_game_args(#[trigger] heard[i], args);
        assert(brings_game_args(longer[i], args));
    }
    if has_main_class(loader, main_class, heard) {
        let i = choose|i: int|
            0 <= i < heard.len() && names_main_class(loader, #[trigger] heard[i], main_class);
        assert(names_main_class(loader, longer[i], main_class));
    }
}

/// One answer keeps what was read.
proof fn lemma_kept_step(
    input: LaunchInput,
    before: Phase,
    heard: Seq<LaunchEvent>,
    event: LaunchEvent,
    after: Phase,
)
    requires
        is_kept(input, before, heard),
        answers(event, before),
        leads_to(input, before, event, after),
    ensures
        is_kept(input, after, heard.push(event)),
{
    let loader = input.config.loader;
    let longer = heard.push(event);
    let last = heard.len() as int;
    assert(longer[last] == event);
    match before {
        Phase::MetaRead => {
            if let LaunchEvent::MetaLoaded { meta } = event {
                assert(names_asset_index(longer[last], meta.asset_index.id@));
                if loader == ModLoader::Vanilla {
                    assert(names_main_class(loader, longer[last], meta.main_class@));
                }
            }
        },
        Phase::ProfileCheck { draft, .. } => {
            let d = draft@;
            lemma_longer(loader, d.asset_index_id, d.game_args, d.main_class, heard, event);
        },
        Phase::ProfileRead { draft, .. } => {
            let d = draft@;
            lemma_longer(loader, d.asset_index_id, d.game_args, d.main_class, heard, event);
            if let LaunchEvent::ProfileLoaded { profile } = event {
                assert(brings_game_args(longer[last], profile_game_args_of(profile)));
                assert(names_main_class(loader, longer[last], profile.main_class@));
            }
        },
        Phase::Coordinates { draft, .. } => {
            let d = draft@;
            lemma_longer(loader, d.asset_index_id, d.game_args, d.main_class, heard, event);
        },
        Phase::LocalProbe { draft, .. } => {
            let d = draft@;
            lemma_longer(loader, d.asset_index_id, d.game_args, d.main_class, heard, event);
        },
        Phase::SharedProbe { draft, .. } => {
            let d = draft@;
            lemma_longer(loader, d.asset_index_id, d.game_args, d.main_class, heard, event);
        },
        Phase::Patching { draft } => {
            let d = draft@;
            lemma_longer(loader, d.asset_index_id, d.game_args, d.main_class, heard, event);
            if let LaunchEvent::Patched { patch: Some(patch), .. } = event {
                assert(names_main_class(loader, longer[last], patch.main_class@));
            }
        },
        Phase::SettingsLoad { draft } => {
            let d = draft@;
            lemma_longer(loader, d.asset_index_id, d.game_args, d.main_class, heard, event);
            if let LaunchEvent::SettingsLoaded { settings } = event {
                let plan = plan_of(d, input.config, settings);
                let own = texts(input.config.jvm_args@);
                law_plan_keeps_the_draft(d, input.config, settings);
                assert(own =~= plan.jvm_args.subrange(
                    plan.jvm_args.len() - own.len(),
                    plan.jvm_args.len() as int,
                ));
            }
        },
        Phase::JavaDetection { plan } => {
            let p = plan@;
            lemma_longer(loader, p.asset_index_id, p.game_args, p.main_class, heard, event);
        },
        Phase::AccountSelection { plan, .. } => {
            let p = plan@;
            lemma_longer(loader, p.asset_index_id, p.game_args, p.main_class, heard, event);
        },
        Phase::TokenRefresh { plan, .. } => {
            let p = plan@;
            lemma_longer(loader, p.asset_index_id, p.game_args, p.main_class, heard, event);
        },
        Phase::AccountSave { plan, .. } => {
            let p = plan@;
            lemma_longer(loader, p.asset_index_id, p.game_args, p.main_class, heard, event);
        },
        Phase::EnvironmentRead { plan, java, auth } => {
            let p = plan@;
            lemma_longer(loader, p.asset_index_id, p.game_args, p.main_class, heard, event);
            if let LaunchEvent::EnvironmentLoaded { environment } = event {
                let command = after->Spawning_command;
                assert(is_command(input, p, command.program@, auth, environment, command));
            }
        },
        _ => {},
    }
}

/// In every phase of a run what was read is kept.
proof fn lemma_kept_run(states: Seq<LaunchMachine>, events: Seq<LaunchEvent>)
    requires
        is_run(states, events),
    ensures
        is_kept(states.last().input, states.last().phase, answered(states, events)),
    decreases events.len(),
{
    if events.len() > 0 {
        let last = events.len() - 1;
        lemma_shorter_run(states, events);
        lemma_kept_run(states.drop_last(), events.drop_last());
        assert(is_step(states[last], events[last], states[last + 1]));
        if answers(events[last], states[last].phase) {
            lemma_kept_step(
                states[last].input,
                states[last].phase,
                answered(states.drop_last(), events.drop_last()),
                events[last],
                states.last().phase,
            );
        }
    }
}

/// Whatever files there are and whatever was patched, the game is started with
/// the arguments of the profile that was read at the end of its own, with the
/// asset index of the metadata, with the main class that the loader, its patch or
/// the metadata names, and with the user's arguments for the virtual machine
/// behind all others. Unless patches decided on the class path, the game's own
/// archive is the last entry of it.
pub proof fn law_what_was_read_reaches_the_game(
    states: Seq<LaunchMachine>,
    events: Seq<LaunchEvent>,
)
    requires
        is_run(states, events),
        states.last().phase is Spawning,
    ensures
        ({
            let input = states.last().input;
            let command = states.last().phase->Spawning_command;
            let heard = answered(states, events);
            let game_args = texts(command.game_args@);
            &&& input.config.loader != ModLoader::Vanilla ==> exists|i: int|
                #![trigger heard[i]]
                0 <= i < heard.len() && heard[i] is ProfileLoaded && profile_game_args_of(
                    heard[i]->ProfileLoaded_profile,
                ).is_suffix_of(game_args)
            &&& exists|i: int, k: int|
                #![trigger heard[i], game_args[k]]
                0 <= i < heard.len() && heard[i] is MetaLoaded && 0 <= k < game_args.len() - 1
                    && game_args[k] == "--assetIndex"@ && game_args[k + 1]
                    == heard[i]->MetaLoaded_meta.asset_index.id@
            &&& exists|i: int|
                0 <= i < heard.len() && names_main_class(
                    input.config.loader,
                    #[trigger] heard[i],
                    command.main_class@,
                )
            &&& texts(input.config.jvm_args@).is_suffix_of(texts(command.jvm_args@))
            &&& input.config.loader != ModLoader::Forge ==> command.classpath@.len() > 0
                && is_path_text(
                PathView {
                    root: RootView::Meta,
                    parts: seq![
                        "versions"@,
                        input.config.game_version@,
                        input.config.game_version@ + ".jar"@,
                    ],
                },
                input.dirs,
                command.classpath@.last()@,
            )
        }),
{
    let input = states.last().input;
    let command = states.last().phase->Spawning_command;
    let heard = answered(states, events);
    let game_args = texts(command.game_args@);
    lemma_kept_run(states, events);
    let (plan, auth, environment) = choose|
        plan: PlanView,
        auth: GameAuth,
        environment: EnvSnapshot,
    | #[trigger]
        is_command(input, plan, command.program@, auth, environment, command) && is_prepared(
            input,
            plan,
            heard,
        );
    law_command_follows_its_plan(input, plan, command.program@, auth, environment, command);
    law_where_the_files_are(input.config, Seq::empty());
    if input.config.loader != ModLoader::Vanilla {
        let i = choose|i: int|
            0 <= i < heard.len() && brings_game_args(#[trigger] heard[i], plan.game_args);
        assert(heard[i] is ProfileLoaded);
    }
    let i = choose|i: int|
        0 <= i < heard.len() && names_asset_index(#[trigger] heard[i], plan.asset_index_id);
    let k = choose|k: int|
        0 <= k < game_args.len() - 1 && #[trigger] game_args[k] == "--assetIndex"@ && game_args[k
            + 1] == plan.asset_index_id;
    assert(heard[i] is MetaLoaded && game_args[k] == "--assetIndex"@);
    if input.config.loader != ModLoader::Forge {
        let n = plan.classpath.len() - 1;
        assert(is_path_text(plan.classpath[n], input.dirs, command.classpath@[n]@));
    }
}

} // verus!
