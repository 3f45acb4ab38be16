//! The environment that the game process gets.

use vstd::prelude::*;

use crate::text::{opt_text, same_text};

verus! {

/// The variables of the launcher's own environment that matter to the game.
#[derive(Debug)]
pub struct EnvSnapshot {
    pub ld_library_path: Option<String>,
    pub launcher_ld_library_path: Option<String>,
    pub ld_preload: Option<String>,
    pub launcher_ld_preload: Option<String>,
    pub xdg_session_type: Option<String>,
    pub wayland_display: Option<String>,
    pub display: Option<String>,
}

/// A change to the environment that the game process inherits.
#[derive(Debug)]
pub enum EnvEdit {
    Assign { name: String, value: String },
    Remove { name: String },
}

/// Model of [`EnvEdit`].
pub enum EnvEditView {
    Assign { name: Seq<char>, value: Seq<char> },
    Remove { name: Seq<char> },
}

impl View for EnvEdit {
    type V = EnvEditView;

    open spec fn view(&self) -> EnvEditView {
        match self {
            EnvEdit::Assign { name, value } => EnvEditView::Assign { name: name@, value: value@ },
            EnvEdit::Remove { name } => EnvEditView::Remove { name: name@ },
        }
    }
}

/// The models of the edits of a list.
pub open spec fn edit_views(edits: Seq<EnvEdit>) -> Seq<EnvEditView> {
    edits.map_values(|e: EnvEdit| e@)
}

/// What happens to a variable that the dynamic linker reads: it gets the value
/// that the user names for the game, and is removed where it is inherited and
/// the user names none.
pub open spec fn linker_edits(
    name: Seq<char>,
    inherited: Option<String>,
    replacement: Option<String>,
) -> Seq<EnvEditView> {
    match (inherited, replacement) {
        (_, Some(value)) => seq![EnvEditView::Assign { name, value: value@ }],
        (Some(_), None) => seq![EnvEditView::Remove { name }],
        (None, None) => Seq::empty(),
    }
}

/// Whether the session runs under Wayland.
pub open spec fn is_wayland(env: EnvSnapshot) -> bool {
    ||| env.xdg_session_type is Some && env.xdg_session_type->0@ == "wayland"@
    ||| env.wayland_display is Some
}

/// The edits that make the game use X11 under Wayland, where an X11 display is
/// at hand.
pub open spec fn display_edits(env: EnvSnapshot) -> Seq<EnvEditView> {
    if is_wayland(env) && env.display is Some {
        seq![
            EnvEditView::Assign { name: "GDK_BACKEND"@, value: "x11"@ },
            EnvEditView::Remove { name: "WAYLAND_DISPLAY"@ },
        ]
    } else {
        Seq::empty()
    }
}

/// All edits to the environment of the game process. Only Linux needs any.
pub open spec fn environment_edits_of(linux: bool, env: EnvSnapshot) -> Seq<EnvEditView> {
    if linux {
        linker_edits("LD_LIBRARY_PATH"@, env.ld_library_path, env.launcher_ld_library_path)
            + linker_edits("LD_PRELOAD"@, env.ld_preload, env.launcher_ld_preload) + display_edits(
            env,
        )
    } else {
        Seq::empty()
    }
}

/// Adds the edit to a variable that the dynamic linker reads.
fn push_linker_edit(
    edits: &mut Vec<EnvEdit>,
    name: &str,
    inherited: &Option<String>,
    replacement: &Option<String>,
)
    ensures
        edit_views(final(edits)@) == edit_views(old(edits)@) + linker_edits(
            name@,
            *inherited,
            *replacement,
        ),
{
    match replacement {
        Some(value) => {
            edits.push(EnvEdit::Assign { name: name.to_owned(), value: value.clone() });
        },
        None => {
            if inherited.is_some() {
                edits.push(EnvEdit::Remove { name: name.to_owned() });
            }
        },
    }
    assert(edit_views(edits@) =~= edit_views(old(edits)@) + linker_edits(
        name@,
        *inherited,
        *replacement,
    ));
}

/// All edits to the environment of the game process.
///
/// An inherited `LD_LIBRARY_PATH` or `LD_PRELOAD` was meant for the launcher and
/// is stripped. Users name values for the game to have by setting
/// `LAUNCHER_LD_LIBRARY_PATH` or `LAUNCHER_LD_PRELOAD`.
/// Under Wayland the X11 backend is forced where XWayland is available.
pub fn environment_edits(linux: bool, env: &EnvSnapshot) -> (edits: Vec<EnvEdit>)
    ensures
        edit_views(edits@) == environment_edits_of(linux, *env),
{
    let mut edits: Vec<EnvEdit> = Vec::new();
    assert(edit_views(edits@) =~= Seq::<EnvEditView>::empty());
    if linux {
        push_linker_edit(
            &mut edits,
            "LD_LIBRARY_PATH",
            &env.ld_library_path,
            &env.launcher_ld_library_path,
        );
        push_linker_edit(&mut edits, "LD_PRELOAD", &env.ld_preload, &env.launcher_ld_preload);
        let wayland_session = match &env.xdg_session_type {
            Some(session) => same_text(session.as_str(), "wayland"),
            None => false,
        };
        if (wayland_session || env.wayland_display.is_some()) && env.display.is_some() {
            edits.push(EnvEdit::Assign { name: "GDK_BACKEND".to_owned(), value: "x11".to_owned() });
            edits.push(EnvEdit::Remove { name: "WAYLAND_DISPLAY".to_owned() });
        }
        assert(edit_views(edits@) =~= environment_edits_of(linux, *env));
    }
    edits
}

/// The variables of a process after one edit.
pub open spec fn apply_edit(
    vars: Map<Seq<char>, Seq<char>>,
    edit: EnvEditView,
) -> Map<Seq<char>, Seq<char>> {
    match edit {
        EnvEditView::Assign { name, value } => vars.insert(name, value),
        EnvEditView::Remove { name } => vars.remove(name),
    }
}

/// The variables of a process after a list of edits.
pub open spec fn apply_edits(
    vars: Map<Seq<char>, Seq<char>>,
    edits: Seq<EnvEditView>,
) -> Map<Seq<char>, Seq<char>>
    decreases edits.len(),
{
    if edits.len() == 0 {
        vars
    } else {
        apply_edit(apply_edits(vars, edits.drop_last()), edits.last())
    }
}

/// What becomes of a variable that the dynamic linker reads, by what the game
/// would inherit and by what the user asks for.
pub open spec fn linker_value(
    inherited: Option<String>,
    replacement: Option<String>,
    vars: Map<Seq<char>, Seq<char>>,
    name: Seq<char>,
) -> Option<Seq<char>> {
    match (inherited, replacement) {
        (_, Some(value)) => Some(value@),
        (Some(_), None) => None,
        (None, None) => vars.get(name),
    }
}

/// On Linux the game has exactly the `LD_LIBRARY_PATH` and the `LD_PRELOAD` that
/// the user names for it, or none, and never one that the snapshot shows as
/// inherited. (A variable that is inherited though the snapshot does not show it
/// stays as it is, unless the user names a value.) Under Wayland with an X11
/// display the game is made to use X11, and no other variable changes.
pub proof fn law_environment_on_linux(env: EnvSnapshot, vars: Map<Seq<char>, Seq<char>>)
    ensures
        ({
            let after = apply_edits(vars, environment_edits_of(true, env));
            &&& after.get("LD_LIBRARY_PATH"@) == linker_value(
                env.ld_library_path,
                env.launcher_ld_library_path,
                vars,
                "LD_LIBRARY_PATH"@,
            )
            &&& after.get("LD_PRELOAD"@) == linker_value(
                env.ld_preload,
                env.launcher_ld_preload,
                vars,
                "LD_PRELOAD"@,
            )
            &&& env.ld_library_path is Some || !vars.contains_key("LD_LIBRARY_PATH"@)
                ==> after.get("LD_LIBRARY_PATH"@) == opt_text(env.launcher_ld_library_path)
            &&& env.ld_preload is Some || !vars.contains_key("LD_PRELOAD"@) ==> after.get(
                "LD_PRELOAD"@,
            ) == opt_text(env.launcher_ld_preload)
            &&& is_wayland(env) && env.display is Some ==> after.get("GDK_BACKEND"@) == Some(
                "x11"@,
            ) && after.get("WAYLAND_DISPLAY"@) is None
            &&& !(is_wayland(env) && env.display is Some) ==> after.get("GDK_BACKEND"@)
                == vars.get("GDK_BACKEND"@) && after.get("WAYLAND_DISPLAY"@) == vars.get(
                "WAYLAND_DISPLAY"@,
            )
            &&& forall|name: Seq<char>|
                name != "LD_LIBRARY_PATH"@ && name != "LD_PRELOAD"@ && name != "GDK_BACKEND"@
                    && name != "WAYLAND_DISPLAY"@ ==> #[trigger] after.get(name) == vars.get(name)
        }),
{
    reveal_strlit("LD_LIBRARY_PATH");
    reveal_strlit("LD_PRELOAD");
    reveal_strlit("GDK_BACKEND");
    reveal_strlit("WAYLAND_DISPLAY");
    let library_path = linker_edits(
        "LD_LIBRARY_PATH"@,
        env.ld_library_path,
        env.launcher_ld_library_path,
    );
    let preload = linker_edits("LD_PRELOAD"@, env.ld_preload, env.launcher_ld_preload);
    let display = display_edits(env);
    lemma_apply_edits_in_turn(vars, library_path + preload, display);
    lemma_apply_edits_in_turn(vars, library_path, preload);
    reveal_with_fuel(apply_edits, 3);
    assert("LD_LIBRARY_PATH"@.len() == 15 && "WAYLAND_DISPLAY"@.len() == 15);
    assert("LD_LIBRARY_PATH"@[0] == 'L' && "WAYLAND_DISPLAY"@[0] == 'W');
    assert("LD_PRELOAD"@.len() == 10 && "GDK_BACKEND"@.len() == 11);
}

/// Off Linux the game inherits the environment as it is.
pub proof fn law_environment_elsewhere(env: EnvSnapshot, vars: Map<Seq<char>, Seq<char>>)
    ensures
        apply_edits(vars, environment_edits_of(false, env)) == vars,
{
}

/// Two lists of edits one after another act like their concatenation.
proof fn lemma_apply_edits_in_turn(
    vars: Map<Seq<char>, Seq<char>>,
    first: Seq<EnvEditView>,
    second: Seq<EnvEditView>,
)
    ensures
        apply_edits(vars, first + second) == apply_edits(apply_edits(vars, first), second),
    decreases second.len(),
{
    if second.len() == 0 {
        assert(first + second =~= first);
    } else {
        assert((first + second).drop_last() =~= first + second.drop_last());
        lemma_apply_edits_in_turn(vars, first, second.drop_last());
    }
}

/// Under Wayland with an X11 display the game is made to use X11. The session
/// type and the Wayland display are each a sign of Wayland that is enough alone;
/// without either sign, or without an X11 display, both variables stay as they
/// are.
pub proof fn law_either_sign_of_wayland_is_enough(
    env: EnvSnapshot,
    vars: Map<Seq<char>, Seq<char>>,
)
    ensures
        ({
            let after = apply_edits(vars, environment_edits_of(true, env));
            let session = env.xdg_session_type is Some && env.xdg_session_type->0@ == "wayland"@;
            &&& env.display is Some && env.wayland_display is Some ==> after.get("GDK_BACKEND"@)
                == Some("x11"@) && !after.contains_key("WAYLAND_DISPLAY"@)
            &&& env.display is Some && session ==> after.get("GDK_BACKEND"@) == Some("x11"@)
                && !after.contains_key("WAYLAND_DISPLAY"@)
            &&& env.display is None || (env.wayland_display is None && !session) ==> after.get(
                "GDK_BACKEND"@,
            ) == vars.get("GDK_BACKEND"@) && after.get("WAYLAND_DISPLAY"@) == vars.get(
                "WAYLAND_DISPLAY"@,
            )
        }),
{
    law_environment_on_linux(env, vars);
}

/// A linker variable gets the value that the user names for it, and no other; it
/// is removed where it is inherited and the user names none, and is else let
/// alone. Which of the two variables it is makes no difference.
pub proof fn law_linker_variables_are_the_users(
    env: EnvSnapshot,
    vars: Map<Seq<char>, Seq<char>>,
)
    ensures
        ({
            let after = apply_edits(vars, environment_edits_of(true, env));
            &&& env.launcher_ld_library_path is Some ==> after.get("LD_LIBRARY_PATH"@) == Some(
                env.launcher_ld_library_path->0@,
            )
            &&& env.launcher_ld_library_path is None && env.ld_library_path is Some
                ==> !after.contains_key("LD_LIBRARY_PATH"@)
            &&& env.launcher_ld_library_path is None && env.ld_library_path is None ==> after.get(
                "LD_LIBRARY_PATH"@,
            ) == vars.get("LD_LIBRARY_PATH"@)
            &&& env.launcher_ld_preload is Some ==> after.get("LD_PRELOAD"@) == Some(
                env.launcher_ld_preload->0@,
            )
            &&& env.launcher_ld_preload is None && env.ld_preload is Some ==> !after.contains_key(
                "LD_PRELOAD"@,
            )
            &&& env.launcher_ld_preload is None && env.ld_preload is None ==> after.get(
                "LD_PRELOAD"@,
            ) == vars.get("LD_PRELOAD"@)
        }),
{
    law_environment_on_linux(env, vars);
}

/// Edits are applied one after the other: an assignment gives its variable the
/// value, a removal takes its variable away, and no other variable is touched.
pub proof fn law_edits_apply_in_order(
    vars: Map<Seq<char>, Seq<char>>,
    edits: Seq<EnvEditView>,
    name: Seq<char>,
    value: Seq<char>,
    other: Seq<char>,
)
    ensures
        apply_edits(vars, Seq::<EnvEditView>::empty()) == vars,
        ({
            let before = apply_edits(vars, edits);
            let assigned = apply_edits(vars, edits.push(EnvEditView::Assign { name, value }));
            let removed = apply_edits(vars, edits.push(EnvEditView::Remove { name }));
            &&& assigned.get(name) == Some(value)
            &&& !removed.contains_key(name)
            &&& other != name ==> assigned.get(other) == before.get(other) && removed.get(other)
                == before.get(other)
        }),
{
    assert(edits.push(EnvEditView::Assign { name, value }).drop_last() =~= edits);
    assert(edits.push(EnvEditView::Remove { name }).drop_last() =~= edits);
}

/// The edits of a list are those that its items stand for, one for one.
pub proof fn law_edits_stand_for_themselves(edits: Seq<EnvEdit>, i: int)
    requires
        0 <= i < edits.len(),
    ensures
        edit_views(edits).len() == edits.len(),
        edits[i] matches EnvEdit::Assign { name, value } ==> edit_views(edits)[i] == (
        EnvEditView::Assign { name: name@, value: value@ }),
        edits[i] matches EnvEdit::Remove { name } ==> edit_views(edits)[i] == (
        EnvEditView::Remove { name: name@ }),
{
}

} // verus!
