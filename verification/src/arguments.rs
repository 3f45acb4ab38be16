//! The arguments of the game process.

use vstd::prelude::*;
use vstd::string::*;

use crate::accounts::GameAuth;
use crate::models::{InstanceConfig, LaunchSettings, ModLoader};
use crate::paths::{join_parts, joins_to, law_one_part_is_joined, PathStyle};
use crate::text::{
    agree, cannot_form, law_replace_around, law_replace_at_occurrence, law_replace_leaves_none,
    law_replace_without_occurrence, law_split_at_separators, law_unlike_texts_cannot_form,
    number_in, occurs_in, opt_text, parse_number, replace_all, replace_text, split_on, split_text,
    texts,
};

verus! {

/// The arguments that the game itself is started with.
pub open spec fn game_args_of(
    config: InstanceConfig,
    game_dir: Seq<char>,
    assets_dir: Seq<char>,
    asset_index_id: Seq<char>,
    auth: GameAuth,
    loader_game_args: Seq<Seq<char>>,
) -> Seq<Seq<char>> {
    seq![
        "--username"@,
        auth.username@,
        "--version"@,
        config.game_version@,
        "--gameDir"@,
        game_dir,
        "--assetsDir"@,
        assets_dir,
        "--assetIndex"@,
        asset_index_id,
        "--uuid"@,
        auth.uuid@,
        "--accessToken"@,
        auth.token@,
        "--userProperties"@,
        "{}"@,
        "--userType"@,
        auth.user_type@,
    ] + loader_game_args
}

/// The arguments that the game itself is started with, where the text of the
/// asset directory is known.
pub fn game_args_with_assets(
    config: &InstanceConfig,
    game_dir: &str,
    assets_dir: &str,
    asset_index_id: &str,
    auth: GameAuth,
    loader_game_args: Vec<String>,
) -> (game_args: Vec<String>)
    ensures
        texts(game_args@) == game_args_of(
            *config,
            game_dir@,
            assets_dir@,
            asset_index_id@,
            auth,
            texts(loader_game_args@),
        ),
{
    let mut loader_args = loader_game_args;
    let mut game_args: Vec<String> = vec![
        "--username".to_owned(),
        auth.username,
        "--version".to_owned(),
        config.game_version.clone(),
        "--gameDir".to_owned(),
        game_dir.to_owned(),
        "--assetsDir".to_owned(),
        assets_dir.to_owned(),
        "--assetIndex".to_owned(),
        asset_index_id.to_owned(),
        "--uuid".to_owned(),
        auth.uuid,
        "--accessToken".to_owned(),
        auth.token,
        "--userProperties".to_owned(),
        "{}".to_owned(),
        "--userType".to_owned(),
        auth.user_type,
    ];
    game_args.append(&mut loader_args);
    assert(texts(game_args@) =~= game_args_of(
        *config,
        game_dir@,
        assets_dir@,
        asset_index_id@,
        auth,
        texts(loader_game_args@),
    ));
    game_args
}

/// The arguments that the game itself is started with. Directories are given
/// by their text; the assets are kept below the metadata directory.
pub fn build_game_args(
    config: &InstanceConfig,
    minecraft_dir: &str,
    meta_dir: &str,
    asset_index_id: &str,
    auth: GameAuth,
    loader_game_args: Vec<String>,
) -> (game_args: Vec<String>)
    ensures
        are_game_args(
            *config,
            minecraft_dir@,
            meta_dir@,
            asset_index_id@,
            auth,
            texts(loader_game_args@),
            texts(game_args@),
        ),
{
    let parts: Vec<String> = vec!["assets".to_owned()];
    let assets_dir = join_parts(meta_dir, &parts);
    proof {
        assert(texts(parts@) =~= seq!["assets"@]);
        law_one_part_is_joined(meta_dir@, "assets"@, assets_dir@);
    }
    game_args_with_assets(
        config,
        minecraft_dir,
        assets_dir.as_str(),
        asset_index_id,
        auth,
        loader_game_args,
    )
}

/// Whether `args` are the game's arguments, with the asset directory written
/// as the platform writes it.
pub open spec fn are_game_args(
    config: InstanceConfig,
    game_dir: Seq<char>,
    meta_dir: Seq<char>,
    asset_index_id: Seq<char>,
    auth: GameAuth,
    loader_game_args: Seq<Seq<char>>,
    args: Seq<Seq<char>>,
) -> bool {
    exists|style: PathStyle, assets_dir: Seq<char>| #[trigger]
        joins_to(style, meta_dir, "assets"@, assets_dir) && args == game_args_of(
            config,
            game_dir,
            assets_dir,
            asset_index_id,
            auth,
            loader_game_args,
        )
}

/// Whether every component of a version is a number.
pub open spec fn is_numeric_version(version: Seq<char>) -> bool {
    forall|i: int|
        0 <= i < split_on(version, '.').len() ==> number_in(#[trigger] split_on(version, '.')[i])
            is Some
}

/// Whether a version is a numeric one that is at least `major.minor`.
pub open spec fn version_at_least(version: Seq<char>, major: u32, minor: u32) -> bool {
    let parts = split_on(version, '.');
    &&& is_numeric_version(version)
    &&& parts.len() >= 2
    &&& ({
        let v_major = number_in(parts[0])->0;
        let v_minor = number_in(parts[1])->0;
        v_major > major || (v_major == major && v_minor >= minor)
    })
}

/// Whether the game version is at least the given major.minor.
///
/// Handles standard release versions like "1.20.1", "1.21", "1.21.4". A version
/// with a component that is not a number, as snapshots and pre-releases have,
/// is never at least a release.
pub fn is_game_version_at_least(version: &str, major: u32, minor: u32) -> (at_least: bool)
    ensures
        at_least == version_at_least(version@, major, minor),
{
    let pieces = split_text(version, '.');
    let ghost parts = split_on(version@, '.');
    let mut numbers: Vec<u32> = Vec::new();
    let mut i: usize = 0;
    while i < pieces.len()
        invariant
            i <= pieces@.len(),
            numbers@.len() == i,
            parts == split_on(version@, '.'),
            pieces@.len() == parts.len(),
            forall|j: int| 0 <= j < pieces@.len() ==> (#[trigger] pieces@[j])@ == parts[j],
            forall|j: int|
                0 <= j < i ==> number_in(#[trigger] parts[j]) == Some(numbers@[j]),
        decreases pieces@.len() - i,
    {
        match parse_number(&pieces[i]) {
            Some(number) => {
                numbers.push(number);
            },
            None => {
                assert(number_in(parts[i as int]) is None);
                return false;
            },
        }
        i += 1;
    }
    if numbers.len() < 2 {
        return false;
    }
    assert(number_in(parts[0]) == Some(numbers@[0]));
    assert(number_in(parts[1]) == Some(numbers@[1]));
    let v_major: u32 = numbers[0];
    let v_minor: u32 = numbers[1];
    v_major > major || (v_major == major && v_minor >= minor)
}

/// The placeholder for the library directory.
pub open spec fn library_placeholder() -> Seq<char> {
    "${library_directory}"@
}

/// The placeholder for the separator of class path entries.
pub open spec fn separator_placeholder() -> Seq<char> {
    "${classpath_separator}"@
}

/// The placeholder for the name of the version.
pub open spec fn version_placeholder() -> Seq<char> {
    "${version_name}"@
}

/// An argument with its placeholders replaced, one kind after another.
pub open spec fn resolved(
    arg: Seq<char>,
    library_directory: Seq<char>,
    classpath_separator: Seq<char>,
    version_name: Seq<char>,
) -> Seq<char> {
    replace_all(
        replace_all(
            replace_all(arg, library_placeholder(), library_directory),
            separator_placeholder(),
            classpath_separator,
        ),
        version_placeholder(),
        version_name,
    )
}

/// The arguments of a list with their placeholders replaced.
pub open spec fn all_resolved(
    args: Seq<Seq<char>>,
    library_directory: Seq<char>,
    classpath_separator: Seq<char>,
    version_name: Seq<char>,
) -> Seq<Seq<char>> {
    args.map_values(
        |arg: Seq<char>| resolved(arg, library_directory, classpath_separator, version_name),
    )
}

/// Resolves the placeholders that a Forge installer leaves in JVM arguments:
///   ${library_directory} → the directory of libraries
///   ${classpath_separator} → ':' or ';'
///   ${version_name}        → e.g. "1.20.1-forge-47.4.0"
pub fn resolve_jvm_placeholders(
    args: Vec<String>,
    library_directory: &str,
    classpath_separator: &str,
    version_name: &str,
) -> (resolved_args: Vec<String>)
    ensures
        texts(resolved_args@) == all_resolved(
            texts(args@),
            library_directory@,
            classpath_separator@,
            version_name@,
        ),
{
    let mut result: Vec<String> = Vec::new();
    let ghost expected = all_resolved(
        texts(args@),
        library_directory@,
        classpath_separator@,
        version_name@,
    );
    let mut i: usize = 0;
    while i < args.len()
        invariant
            i <= args@.len(),
            expected == all_resolved(
                texts(args@),
                library_directory@,
                classpath_separator@,
                version_name@,
            ),
            texts(result@) =~= expected.take(i as int),
        decreases args@.len() - i,
    {
        proof {
            reveal_strlit("${library_directory}");
            reveal_strlit("${classpath_separator}");
            reveal_strlit("${version_name}");
        }
        let first = replace_text(args[i].as_str(), "${library_directory}", library_directory);
        let second = replace_text(first.as_str(), "${classpath_separator}", classpath_separator);
        let third = replace_text(second.as_str(), "${version_name}", version_name);
        let ghost before = result@;
        result.push(third);
        assert(third@ == expected[i as int]);
        assert(texts(result@) =~= texts(before).push(third@));
        i += 1;
    }
    assert(expected.take(args@.len() as int) =~= expected);
    result
}

/// The arguments that make an explicit launch target known to Forge, which
/// needs one from game version 1.21 on.
pub open spec fn launch_target_of(loader: ModLoader, game_version: Seq<char>) -> Seq<Seq<char>> {
    if loader == ModLoader::Forge && version_at_least(game_version, 1, 21) {
        seq!["--launchTarget"@, "forge_client"@]
    } else {
        Seq::empty()
    }
}

/// Puts the launch target, where one is needed, before all other arguments, so
/// that the bootstrap finds it first.
pub fn add_launch_target(config: &InstanceConfig, game_args: Vec<String>) -> (args: Vec<String>)
    ensures
        texts(args@) == launch_target_of(config.loader, config.game_version@) + texts(game_args@),
{
    let mut args = game_args;
    if config.loader == ModLoader::Forge && is_game_version_at_least(
        config.game_version.as_str(),
        1,
        21,
    ) {
        args.insert(0, "forge_client".to_owned());
        args.insert(0, "--launchTarget".to_owned());
    }
    assert(texts(args@) =~= launch_target_of(config.loader, config.game_version@) + texts(
        game_args@,
    ));
    args
}

/// A setting of the instance, or the launcher's where the instance has none.
pub open spec fn setting_or(own: Option<String>, fallback: String) -> Seq<char> {
    match opt_text(own) {
        Some(value) => value,
        None => fallback@,
    }
}

/// The arguments of the Java virtual machine: the memory limits, then those of
/// the loader, of the patch and of the user.
pub open spec fn jvm_args_of(
    config: InstanceConfig,
    settings: LaunchSettings,
    loader_jvm_args: Seq<Seq<char>>,
    patch_jvm_args: Seq<Seq<char>>,
) -> Seq<Seq<char>> {
    seq![
        "-Xms"@ + setting_or(config.memory_min, settings.memory_min),
        "-Xmx"@ + setting_or(config.memory_max, settings.memory_max),
    ] + loader_jvm_args + patch_jvm_args + texts(config.jvm_args@)
}

/// A flag followed by a setting of the instance, or by the launcher's.
fn memory_flag(flag: &str, own: &Option<String>, fallback: &String) -> (arg: String)
    ensures
        arg@ == flag@ + setting_or(*own, *fallback),
{
    match own {
        Some(value) => flag.to_owned().concat(value.as_str()),
        None => flag.to_owned().concat(fallback.as_str()),
    }
}

/// The arguments of the Java virtual machine.
pub fn build_jvm_args(
    config: &InstanceConfig,
    settings: &LaunchSettings,
    loader_jvm_args: Vec<String>,
    patch_jvm_args: Vec<String>,
) -> (jvm_args: Vec<String>)
    ensures
        texts(jvm_args@) == jvm_args_of(
            *config,
            *settings,
            texts(loader_jvm_args@),
            texts(patch_jvm_args@),
        ),
{
    let mut loader_args = loader_jvm_args;
    let mut patch_args = patch_jvm_args;
    let mut own_args = config.jvm_args.clone();
    let mut jvm_args: Vec<String> = vec![
        memory_flag("-Xms", &config.memory_min, &settings.memory_min),
        memory_flag("-Xmx", &config.memory_max, &settings.memory_max),
    ];
    assert(texts(own_args@) =~= texts(config.jvm_args@));
    jvm_args.append(&mut loader_args);
    jvm_args.append(&mut patch_args);
    jvm_args.append(&mut own_args);
    assert(texts(jvm_args@) =~= jvm_args_of(
        *config,
        *settings,
        texts(loader_jvm_args@),
        texts(patch_jvm_args@),
    ));
    jvm_args
}

/// The game is told an empty set of user properties, and what the loader adds
/// comes last, whatever the instance and the account are.
pub proof fn law_game_args_layout(
    config: InstanceConfig,
    game_dir: Seq<char>,
    meta_dir: Seq<char>,
    asset_index_id: Seq<char>,
    auth: GameAuth,
    loader_game_args: Seq<Seq<char>>,
    args: Seq<Seq<char>>,
)
    requires
        are_game_args(
            config,
            game_dir,
            meta_dir,
            asset_index_id,
            auth,
            loader_game_args,
            args,
        ),
    ensures
        exists|i: int|
            0 <= i < args.len() - 1 && #[trigger] args[i] == "--userProperties"@ && args[i + 1]
                == "{}"@,
        loader_game_args.is_suffix_of(args),
{
    assert(args[14] == "--userProperties"@ && args[15] == "{}"@);
    assert(loader_game_args =~= args.subrange(18, args.len() as int));
}

/// A version that is not numeric is at least no release.
pub proof fn law_non_numeric_versions_are_never_at_least(
    version: Seq<char>,
    major: u32,
    minor: u32,
)
    requires
        !is_numeric_version(version),
    ensures
        !version_at_least(version, major, minor),
{
}

/// A version that is at least some release is at least every earlier one.
pub proof fn law_version_order(
    version: Seq<char>,
    major: u32,
    minor: u32,
    earlier_major: u32,
    earlier_minor: u32,
)
    requires
        version_at_least(version, major, minor),
        earlier_major < major || (earlier_major == major && earlier_minor <= minor),
    ensures
        version_at_least(version, earlier_major, earlier_minor),
{
}

/// An argument without placeholders is passed on as it is.
pub proof fn law_plain_arguments_are_kept(
    arg: Seq<char>,
    library_directory: Seq<char>,
    classpath_separator: Seq<char>,
    version_name: Seq<char>,
)
    requires
        !occurs_in(library_placeholder(), arg),
        !occurs_in(separator_placeholder(), arg),
        !occurs_in(version_placeholder(), arg),
    ensures
        resolved(arg, library_directory, classpath_separator, version_name) == arg,
{
    law_replace_without_occurrence(arg, library_placeholder(), library_directory);
    law_replace_without_occurrence(arg, separator_placeholder(), classpath_separator);
    law_replace_without_occurrence(arg, version_placeholder(), version_name);
}

/// No placeholder is left in an argument once it is resolved, unless one of the
/// values can itself form a placeholder with what stands around it.
pub proof fn law_no_placeholder_survives(
    arg: Seq<char>,
    library_directory: Seq<char>,
    classpath_separator: Seq<char>,
    version_name: Seq<char>,
)
    requires
        cannot_form(library_directory, library_placeholder()),
        cannot_form(classpath_separator, library_placeholder()),
        cannot_form(classpath_separator, separator_placeholder()),
        cannot_form(version_name, library_placeholder()),
        cannot_form(version_name, separator_placeholder()),
        cannot_form(version_name, version_placeholder()),
    ensures
        ({
            let result = resolved(arg, library_directory, classpath_separator, version_name);
            &&& !occurs_in(library_placeholder(), result)
            &&& !occurs_in(separator_placeholder(), result)
            &&& !occurs_in(version_placeholder(), result)
        }),
{
    reveal_strlit("${library_directory}");
    reveal_strlit("${classpath_separator}");
    reveal_strlit("${version_name}");
    let (lib, sep, ver) = (library_placeholder(), separator_placeholder(), version_placeholder());
    let first = replace_all(arg, lib, library_directory);
    let second = replace_all(first, sep, classpath_separator);
    law_replace_leaves_none(arg, lib, library_directory, lib);
    law_replace_leaves_none(first, sep, classpath_separator, lib);
    law_replace_leaves_none(first, sep, classpath_separator, sep);
    law_replace_leaves_none(second, ver, version_name, lib);
    law_replace_leaves_none(second, ver, version_name, sep);
    law_replace_leaves_none(second, ver, version_name, ver);
}

/// The separator of class path entries can form no placeholder.
pub proof fn law_separators_form_no_placeholder(separator: Seq<char>)
    requires
        separator == ":"@ || separator == ";"@,
    ensures
        cannot_form(separator, library_placeholder()),
        cannot_form(separator, separator_placeholder()),
{
    reveal_strlit(":");
    reveal_strlit(";");
    reveal_strlit("${library_directory}");
    reveal_strlit("${classpath_separator}");
    law_unlike_texts_cannot_form(separator, library_placeholder());
    law_unlike_texts_cannot_form(separator, separator_placeholder());
}

/// Only Forge from 1.21 on gets a launch target, and then before everything
/// else; otherwise the arguments are untouched.
pub proof fn law_launch_target_comes_first(config: InstanceConfig, game_args: Seq<Seq<char>>)
    ensures
        ({
            let args = launch_target_of(config.loader, config.game_version@) + game_args;
            if config.loader == ModLoader::Forge && version_at_least(config.game_version@, 1, 21) {
                args.len() == game_args.len() + 2 && args[0] == "--launchTarget"@ && args[1]
                    == "forge_client"@ && args.skip(2) == game_args
            } else {
                args == game_args
            }
        }),
{
    let args = launch_target_of(config.loader, config.game_version@) + game_args;
    if config.loader == ModLoader::Forge && version_at_least(config.game_version@, 1, 21) {
        assert(args.skip(2) =~= game_args);
    } else {
        assert(args =~= game_args);
    }
}

/// A placeholder can neither begin nor go on inside one of another kind.
proof fn lemma_placeholders_differ(p: Seq<char>, q: Seq<char>)
    requires
        p.len() > 2,
        q.len() > 2,
        p[0] == '$',
        q[0] == '$',
        p[2] != q[2],
        forall|i: int| 0 < i < p.len() ==> #[trigger] p[i] != '$',
        forall|i: int| 0 < i < q.len() ==> #[trigger] q[i] != '$',
    ensures
        cannot_form(p, q),
{
    assert forall|i: int| 0 <= i < p.len() implies !agree(#[trigger] p.skip(i), q) by {
        let rest = p.skip(i);
        assert(rest[0] == p[i]);
        if i == 0 {
            assert(rest[2] == p[2]);
        }
    }
    assert forall|j: int| 0 < j < q.len() implies !agree(p, #[trigger] q.skip(j)) by {
        assert(q.skip(j)[0] == q[j]);
    }
}

/// How the placeholders look.
proof fn lemma_placeholders()
    ensures
        "${library_directory}"@.len() == 20,
        "${classpath_separator}"@.len() == 22,
        "${version_name}"@.len() == 15,
        "${library_directory}"@[0] == '$',
        "${classpath_separator}"@[0] == '$',
        "${version_name}"@[0] == '$',
        "${library_directory}"@[2] == 'l',
        "${classpath_separator}"@[2] == 'c',
        "${version_name}"@[2] == 'v',
        forall|i: int|
            0 < i < "${library_directory}"@.len() ==> #[trigger] "${library_directory}"@[i] != '$',
        forall|i: int|
            0 < i < "${classpath_separator}"@.len() ==> #[trigger] "${classpath_separator}"@[i]
                != '$',
        forall|i: int|
            0 < i < "${version_name}"@.len() ==> #[trigger] "${version_name}"@[i] != '$',
{
    reveal_strlit("${library_directory}");
    reveal_strlit("${classpath_separator}");
    reveal_strlit("${version_name}");
}

/// Each placeholder becomes its own value wherever it stands, and what is before
/// and after it is resolved on its own. The library directory and the separator
/// must not be able to form a placeholder that is replaced after them.
pub proof fn law_each_placeholder_becomes_its_value(
    a: Seq<char>,
    b: Seq<char>,
    directory: Seq<char>,
    separator: Seq<char>,
    name: Seq<char>,
)
    ensures
        cannot_form(directory, "${classpath_separator}"@) && cannot_form(
            directory,
            "${version_name}"@,
        ) ==> resolved(a + "${library_directory}"@ + b, directory, separator, name) == resolved(
            a,
            directory,
            separator,
            name,
        ) + directory + resolved(b, directory, separator, name),
        cannot_form(separator, "${version_name}"@) ==> resolved(
            a + "${classpath_separator}"@ + b,
            directory,
            separator,
            name,
        ) == resolved(a, directory, separator, name) + separator + resolved(
            b,
            directory,
            separator,
            name,
        ),
        resolved(a + "${version_name}"@ + b, directory, separator, name) == resolved(
            a,
            directory,
            separator,
            name,
        ) + name + resolved(b, directory, separator, name),
{
    let (lib, sep, ver) = (
        "${library_directory}"@,
        "${classpath_separator}"@,
        "${version_name}"@,
    );
    lemma_placeholders();
    lemma_placeholders_differ(sep, lib);
    lemma_placeholders_differ(ver, lib);
    lemma_placeholders_differ(ver, sep);
    let (a1, b1) = (replace_all(a, lib, directory), replace_all(b, lib, directory));
    let (a2, b2) = (replace_all(a1, sep, separator), replace_all(b1, sep, separator));
    if cannot_form(directory, sep) && cannot_form(directory, ver) {
        law_replace_at_occurrence(a, lib, b, directory);
        law_replace_around(a1, directory, b1, sep, separator);
        law_replace_around(a2, directory, b2, ver, name);
    }
    if cannot_form(separator, ver) {
        law_replace_around(a, sep, b, lib, directory);
        law_replace_at_occurrence(a1, sep, b1, separator);
        law_replace_around(a2, separator, b2, ver, name);
    }
    law_replace_around(a, ver, b, lib, directory);
    law_replace_around(a1, ver, b1, sep, separator);
    law_replace_at_occurrence(a2, ver, b2, name);
}

/// A text without a dollar sign holds no placeholder.
proof fn lemma_no_dollar_no_placeholder(part: Seq<char>, s: Seq<char>)
    requires
        part.len() > 0,
        part[0] == '$',
        !s.contains('$'),
    ensures
        !occurs_in(part, s),
{
    if occurs_in(part, s) {
        let i = choose|i: int| 0 <= i <= s.len() && part.is_prefix_of(#[trigger] s.skip(i));
        assert(s.skip(i).take(part.len() as int)[0] == s[i]);
    }
}

/// Among text without a dollar sign each placeholder becomes exactly its value.
pub proof fn law_placeholder_among_plain_text(
    a: Seq<char>,
    b: Seq<char>,
    directory: Seq<char>,
    separator: Seq<char>,
    name: Seq<char>,
)
    requires
        !a.contains('$'),
        !b.contains('$'),
        !directory.contains('$'),
        !separator.contains('$'),
    ensures
        resolved(a + b, directory, separator, name) == a + b,
        resolved(a + "${library_directory}"@ + b, directory, separator, name) == a + directory + b,
        resolved(a + "${classpath_separator}"@ + b, directory, separator, name) == a + separator
            + b,
        resolved(a + "${version_name}"@ + b, directory, separator, name) == a + name + b,
{
    let (lib, sep, ver) = (
        "${library_directory}"@,
        "${classpath_separator}"@,
        "${version_name}"@,
    );
    lemma_placeholders();
    lemma_placeholders_differ(sep, lib);
    lemma_placeholders_differ(ver, lib);
    lemma_placeholders_differ(ver, sep);
    lemma_plain_is_kept(a, directory, separator, name);
    lemma_plain_is_kept(b, directory, separator, name);
    lemma_plain_is_kept(a + b, directory, separator, name);
    lemma_plain_is_kept(a + directory + b, directory, separator, name);
    lemma_plain_is_kept(a + separator + b, directory, separator, name);
    law_replace_at_occurrence(a, lib, b, directory);
    law_replace_around(a, sep, b, lib, directory);
    law_replace_at_occurrence(a, sep, b, separator);
    law_replace_around(a, ver, b, lib, directory);
    law_replace_around(a, ver, b, sep, separator);
    law_replace_at_occurrence(a, ver, b, name);
}

/// A text without a dollar sign stays as it is at every stage.
proof fn lemma_plain_is_kept(
    s: Seq<char>,
    directory: Seq<char>,
    separator: Seq<char>,
    name: Seq<char>,
)
    requires
        !s.contains('$'),
    ensures
        replace_all(s, "${library_directory}"@, directory) == s,
        replace_all(s, "${classpath_separator}"@, separator) == s,
        replace_all(s, "${version_name}"@, name) == s,
{
    lemma_placeholders();
    lemma_no_dollar_no_placeholder("${library_directory}"@, s);
    lemma_no_dollar_no_placeholder("${classpath_separator}"@, s);
    lemma_no_dollar_no_placeholder("${version_name}"@, s);
    law_replace_without_occurrence(s, "${library_directory}"@, directory);
    law_replace_without_occurrence(s, "${classpath_separator}"@, separator);
    law_replace_without_occurrence(s, "${version_name}"@, name);
}

/// Arguments are resolved one by one: none is lost, added or moved.
pub proof fn law_arguments_are_resolved_one_by_one(
    args: Seq<Seq<char>>,
    directory: Seq<char>,
    separator: Seq<char>,
    name: Seq<char>,
)
    ensures
        all_resolved(args, directory, separator, name).len() == args.len(),
        forall|i: int|
            0 <= i < args.len() ==> #[trigger] all_resolved(args, directory, separator, name)[i]
                == resolved(args[i], directory, separator, name),
{
}

/// The game is told, each under its own option, who plays, which version it is,
/// where its files and assets are and how the user is authenticated; the loader's
/// arguments follow and nothing else does.
pub proof fn law_game_options(
    config: InstanceConfig,
    game_dir: Seq<char>,
    assets_dir: Seq<char>,
    asset_index_id: Seq<char>,
    auth: GameAuth,
    loader_game_args: Seq<Seq<char>>,
)
    ensures
        ({
            let args = game_args_of(
                config,
                game_dir,
                assets_dir,
                asset_index_id,
                auth,
                loader_game_args,
            );
            let own = args.take(18);
            &&& args == own + loader_game_args
            &&& exists|i: int|
                0 <= i < 17 && #[trigger] own[i] == "--username"@ && own[i + 1] == auth.username@
            &&& exists|i: int|
                0 <= i < 17 && #[trigger] own[i] == "--version"@ && own[i + 1]
                    == config.game_version@
            &&& exists|i: int|
                0 <= i < 17 && #[trigger] own[i] == "--gameDir"@ && own[i + 1] == game_dir
            &&& exists|i: int|
                0 <= i < 17 && #[trigger] own[i] == "--assetsDir"@ && own[i + 1] == assets_dir
            &&& exists|i: int|
                0 <= i < 17 && #[trigger] own[i] == "--assetIndex"@ && own[i + 1] == asset_index_id
            &&& exists|i: int|
                0 <= i < 17 && #[trigger] own[i] == "--uuid"@ && own[i + 1] == auth.uuid@
            &&& exists|i: int|
                0 <= i < 17 && #[trigger] own[i] == "--accessToken"@ && own[i + 1] == auth.token@
            &&& exists|i: int|
                0 <= i < 17 && #[trigger] own[i] == "--userProperties"@ && own[i + 1] == "{}"@
            &&& exists|i: int|
                0 <= i < 17 && #[trigger] own[i] == "--userType"@ && own[i + 1] == auth.user_type@
            &&& forall|i: int|
                0 <= i < 9 ==> (#[trigger] own[2 * i]).len() > 2 && own[2 * i].take(2) == "--"@
        }),
{
    let args = game_args_of(config, game_dir, assets_dir, asset_index_id, auth, loader_game_args);
    let own = args.take(18);
    reveal_strlit("--");
    reveal_strlit("--username");
    reveal_strlit("--version");
    reveal_strlit("--gameDir");
    reveal_strlit("--assetsDir");
    reveal_strlit("--assetIndex");
    reveal_strlit("--uuid");
    reveal_strlit("--accessToken");
    reveal_strlit("--userProperties");
    reveal_strlit("--userType");
    assert(args =~= own + loader_game_args);
    assert(own[0] == "--username"@ && own[1] == auth.username@);
    assert(own[2] == "--version"@ && own[3] == config.game_version@);
    assert(own[4] == "--gameDir"@ && own[5] == game_dir);
    assert(own[6] == "--assetsDir"@ && own[7] == assets_dir);
    assert(own[8] == "--assetIndex"@ && own[9] == asset_index_id);
    assert(own[10] == "--uuid"@ && own[11] == auth.uuid@);
    assert(own[12] == "--accessToken"@ && own[13] == auth.token@);
    assert(own[14] == "--userProperties"@ && own[15] == "{}"@);
    assert(own[16] == "--userType"@ && own[17] == auth.user_type@);
    assert forall|i: int| 0 <= i < 9 implies (#[trigger] own[2 * i]).len() > 2 && own[2 * i].take(2)
        == "--"@ by {
        assert(own[2 * i].take(2) =~= "--"@);
    }
}

/// The asset directory that the game is told lies below the metadata directory,
/// on every platform.
pub proof fn law_assets_are_below_the_metadata(
    config: InstanceConfig,
    game_dir: Seq<char>,
    meta_dir: Seq<char>,
    asset_index_id: Seq<char>,
    auth: GameAuth,
    loader_game_args: Seq<Seq<char>>,
    args: Seq<Seq<char>>,
)
    requires
        are_game_args(
            config,
            game_dir,
            meta_dir,
            asset_index_id,
            auth,
            loader_game_args,
            args,
        ),
    ensures
        exists|assets_dir: Seq<char>|
            {
                &&& args == #[trigger] game_args_of(
                    config,
                    game_dir,
                    assets_dir,
                    asset_index_id,
                    auth,
                    loader_game_args,
                )
                &&& meta_dir.len() == 0 ==> assets_dir == "assets"@
                &&& meta_dir.len() > 2 && meta_dir[0] == '/' && meta_dir[1] != '/'
                    && meta_dir.last() != '/' && meta_dir.last() != '\\' ==> assets_dir
                    == meta_dir + "/assets"@ || assets_dir == meta_dir + "\\assets"@
            },
{
    reveal_strlit("assets");
    reveal_strlit("/assets");
    reveal_strlit("\\assets");
    let (style, assets_dir) = choose|style: PathStyle, assets_dir: Seq<char>| #[trigger]
        joins_to(style, meta_dir, "assets"@, assets_dir) && args == game_args_of(
            config,
            game_dir,
            assets_dir,
            asset_index_id,
            auth,
            loader_game_args,
        );
    assert(args == game_args_of(
        config,
        game_dir,
        assets_dir,
        asset_index_id,
        auth,
        loader_game_args,
    ));
    assert(meta_dir.push('/') + "assets"@ =~= meta_dir + "/assets"@);
    assert(meta_dir.push('\\') + "assets"@ =~= meta_dir + "\\assets"@);
}

/// A version is compared by its first two components as numbers; a third
/// component changes nothing as long as it is a number, and a version of one
/// component is at least no release.
pub proof fn law_version_by_its_components(
    first: Seq<char>,
    second: Seq<char>,
    version: Seq<char>,
    next: Seq<char>,
    major: u32,
    minor: u32,
)
    requires
        !first.contains('.'),
        !second.contains('.'),
        !next.contains('.'),
    ensures
        !version_at_least(first, major, minor),
        version_at_least(first.push('.') + second, major, minor) == match (
            number_in(first),
            number_in(second),
        ) {
            (Some(a), Some(b)) => a > major || (a == major && b >= minor),
            _ => false,
        },
        version.contains('.') ==> version_at_least(version.push('.') + next, major, minor) == (
        version_at_least(version, major, minor) && number_in(next) is Some),
{
    law_split_at_separators(first, second, '.');
    law_split_at_separators(first, first, '.');
    law_split_at_separators(version, next, '.');
    let two = first.push('.') + second;
    assert(split_on(two, '.') =~= seq![first, second]);
    assert(split_on(two, '.')[0] == first && split_on(two, '.')[1] == second);
    if number_in(first) is Some && number_in(second) is Some {
        assert(is_numeric_version(two));
    }
    if version.contains('.') {
        lemma_two_components(version);
        let parts = split_on(version, '.');
        let longer = split_on(version.push('.') + next, '.');
        let n = parts.len() as int;
        assert(longer == parts.push(next));
        assert(longer[n] == next);
        assert(longer[0] == parts[0] && longer[1] == parts[1]);
        if is_numeric_version(version.push('.') + next) {
            assert forall|i: int| 0 <= i < n implies number_in(#[trigger] parts[i]) is Some by {
                assert(longer[i] == parts[i]);
            }
        }
        if is_numeric_version(version) && number_in(next) is Some {
            assert forall|i: int| 0 <= i < longer.len() implies number_in(#[trigger] longer[i])
                is Some by {
                if i < n {
                    assert(longer[i] == parts[i]);
                }
            }
        }
    }
}

/// A version with a point has at least two components.
proof fn lemma_two_components(version: Seq<char>)
    requires
        version.contains('.'),
    ensures
        split_on(version, '.').len() >= 2,
    decreases version.len(),
{
    let shorter = version.drop_last();
    lemma_some_component(shorter);
    if version.last() != '.' {
        let i = choose|i: int| 0 <= i < version.len() && version[i] == '.';
        assert(shorter[i] == '.');
        lemma_two_components(shorter);
    }
}

/// A text has at least one component.
proof fn lemma_some_component(version: Seq<char>)
    ensures
        split_on(version, '.').len() >= 1,
    decreases version.len(),
{
    if version.len() > 0 {
        lemma_some_component(version.drop_last());
    }
}

/// The memory limits come first, the instance's own before the launcher's, then
/// the arguments of the loader, of the patch and last of the user, who thus has
/// the final say.
pub proof fn law_jvm_args_layout(
    config: InstanceConfig,
    settings: LaunchSettings,
    loader_jvm_args: Seq<Seq<char>>,
    patch_jvm_args: Seq<Seq<char>>,
)
    ensures
        ({
            let args = jvm_args_of(config, settings, loader_jvm_args, patch_jvm_args);
            let after_loader = 2 + loader_jvm_args.len();
            let after_patch = after_loader + patch_jvm_args.len();
            &&& args.len() == after_patch + config.jvm_args@.len()
            &&& config.memory_min is Some ==> args[0] == "-Xms"@ + config.memory_min->0@
            &&& config.memory_min is None ==> args[0] == "-Xms"@ + settings.memory_min@
            &&& config.memory_max is Some ==> args[1] == "-Xmx"@ + config.memory_max->0@
            &&& config.memory_max is None ==> args[1] == "-Xmx"@ + settings.memory_max@
            &&& args.subrange(2, after_loader as int) == loader_jvm_args
            &&& args.subrange(after_loader as int, after_patch as int) == patch_jvm_args
            &&& forall|i: int|
                0 <= i < config.jvm_args@.len() ==> args[after_patch + i] == (
                #[trigger] config.jvm_args@[i])@
        }),
{
    let args = jvm_args_of(config, settings, loader_jvm_args, patch_jvm_args);
    let after_loader = 2 + loader_jvm_args.len();
    let after_patch = after_loader + patch_jvm_args.len();
    assert(args.subrange(2, after_loader as int) =~= loader_jvm_args);
    assert(args.subrange(after_loader as int, after_patch as int) =~= patch_jvm_args);
}

/// The placeholders are replaced one kind after another: where the library
/// directory or the separator itself holds a placeholder of a later kind, that is
/// replaced too, as if the value had stood in the argument.
pub proof fn law_values_are_resolved_in_turn(
    a: Seq<char>,
    b: Seq<char>,
    directory: Seq<char>,
    separator: Seq<char>,
    name: Seq<char>,
)
    requires
        !occurs_in("${library_directory}"@, a),
        !occurs_in("${library_directory}"@, b),
    ensures
        !occurs_in("${library_directory}"@, a + directory + b) ==> resolved(
            a + "${library_directory}"@ + b,
            directory,
            separator,
            name,
        ) == resolved(a + directory + b, directory, separator, name),
        !occurs_in("${classpath_separator}"@, a) && !occurs_in("${classpath_separator}"@, b)
            && !occurs_in("${library_directory}"@, a + separator + b) && !occurs_in(
            "${classpath_separator}"@,
            a + separator + b,
        ) ==> resolved(a + "${classpath_separator}"@ + b, directory, separator, name) == resolved(
            a + separator + b,
            directory,
            separator,
            name,
        ),
{
    let lib = "${library_directory}"@;
    let sep = "${classpath_separator}"@;
    lemma_placeholders();
    lemma_placeholders_differ(sep, lib);
    law_replace_without_occurrence(a, lib, directory);
    law_replace_without_occurrence(b, lib, directory);
    law_replace_at_occurrence(a, lib, b, directory);
    law_replace_around(a, sep, b, lib, directory);
    law_replace_at_occurrence(a, sep, b, separator);
    if !occurs_in(lib, a + directory + b) {
        law_replace_without_occurrence(a + directory + b, lib, directory);
    }
    if !occurs_in(sep, a) && !occurs_in(sep, b) && !occurs_in(lib, a + separator + b) && !occurs_in(
        sep,
        a + separator + b,
    ) {
        law_replace_without_occurrence(a, sep, separator);
        law_replace_without_occurrence(b, sep, separator);
        law_replace_without_occurrence(a + separator + b, lib, directory);
        law_replace_without_occurrence(a + separator + b, sep, separator);
    }
}

} // verus!
