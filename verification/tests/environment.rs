use mc_launch::environment::{environment_edits, EnvEdit, EnvSnapshot};
use mc_launch::logs::log_line;

fn nothing() -> EnvSnapshot {
    EnvSnapshot {
        ld_library_path: None,
        launcher_ld_library_path: None,
        ld_preload: None,
        launcher_ld_preload: None,
        xdg_session_type: None,
        wayland_display: None,
        display: None,
    }
}

fn some(value: &str) -> Option<String> {
    Some(value.to_owned())
}

fn written(edits: Vec<EnvEdit>) -> Vec<String> {
    edits
        .into_iter()
        .map(|edit| match edit {
            EnvEdit::Assign { name, value } => format!("{name}={value}"),
            EnvEdit::Remove { name } => format!("-{name}"),
        })
        .collect()
}

#[test]
fn plain_environment_is_inherited() {
    assert!(environment_edits(true, &nothing()).is_empty());
}

#[test]
fn inherited_linker_paths_are_stripped() {
    let env = EnvSnapshot { ld_library_path: some("/x"), ld_preload: some("y.so"), ..nothing() };
    assert_eq!(written(environment_edits(true, &env)), vec!["-LD_LIBRARY_PATH", "-LD_PRELOAD"]);
}

#[test]
fn users_linker_paths_take_the_place_of_inherited_ones() {
    let env = EnvSnapshot {
        ld_library_path: some("/x"),
        launcher_ld_library_path: some("/mine"),
        ld_preload: some("y.so"),
        launcher_ld_preload: some("mine.so"),
        ..nothing()
    };
    assert_eq!(
        written(environment_edits(true, &env)),
        vec!["LD_LIBRARY_PATH=/mine", "LD_PRELOAD=mine.so"]
    );
}

#[test]
fn users_linker_paths_are_injected_where_none_are_inherited() {
    let env = EnvSnapshot {
        ld_library_path: some("/x"),
        launcher_ld_library_path: some("/mine"),
        launcher_ld_preload: some("mine.so"),
        ..nothing()
    };
    assert_eq!(
        written(environment_edits(true, &env)),
        vec!["LD_LIBRARY_PATH=/mine", "LD_PRELOAD=mine.so"]
    );
    let env = EnvSnapshot { launcher_ld_library_path: some("/mine"), ..nothing() };
    assert_eq!(written(environment_edits(true, &env)), vec!["LD_LIBRARY_PATH=/mine"]);
}

#[test]
fn wayland_with_an_x11_display_is_made_to_use_it() {
    let expected = vec!["GDK_BACKEND=x11", "-WAYLAND_DISPLAY"];
    let session =
        EnvSnapshot { xdg_session_type: some("wayland"), display: some(":0"), ..nothing() };
    assert_eq!(written(environment_edits(true, &session)), expected);
    let socket =
        EnvSnapshot { wayland_display: some("wayland-0"), display: some(":0"), ..nothing() };
    assert_eq!(written(environment_edits(true, &socket)), expected);
    let without_x11 = EnvSnapshot { display: None, ..socket };
    assert!(environment_edits(true, &without_x11).is_empty());
    let x11 = EnvSnapshot { xdg_session_type: some("x11"), display: some(":0"), ..nothing() };
    assert!(environment_edits(true, &x11).is_empty());
}

#[test]
fn environment_is_untouched_elsewhere() {
    let env = EnvSnapshot {
        ld_library_path: some("/x"),
        ld_preload: some("y.so"),
        wayland_display: some("wayland-0"),
        display: some(":0"),
        ..nothing()
    };
    assert!(environment_edits(false, &env).is_empty());
}

#[test]
fn errors_of_the_game_are_marked_in_the_log() {
    assert_eq!(log_line(false, "hello"), "hello");
    assert_eq!(log_line(true, "hello"), "[STDERR] hello");
}
