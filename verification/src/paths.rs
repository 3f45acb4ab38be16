//! Paths of files that a launch touches.
//!
//! A path is kept as the directory that it starts from and the parts joined
//! to it, so that what a launch refers to is the same on every platform. Only
//! its text, which command lines and messages need, depends on the platform.

use vstd::prelude::*;

use crate::models::InstanceConfig;
use crate::text::texts;

verus! {

/// The directory that a path starts from.
#[derive(Debug)]
pub enum PathRoot {
    /// The directory that holds all instances.
    Instances,
    /// The directory that holds metadata shared by all instances.
    Meta,
    /// A path that is given as text.
    Fixed(String),
}

/// A path: a starting directory and the parts joined to it in turn.
#[derive(Debug)]
pub struct LaunchPath {
    pub root: PathRoot,
    pub parts: Vec<String>,
}

/// The text of the directories that paths start from.
#[derive(Debug)]
pub struct Directories {
    pub instances: String,
    pub meta: String,
}

/// Model of [`PathRoot`].
pub enum RootView {
    Instances,
    Meta,
    Fixed(Seq<char>),
}

/// Model of [`LaunchPath`].
#[verifier::ext_equal]
pub struct PathView {
    pub root: RootView,
    pub parts: Seq<Seq<char>>,
}

impl View for PathRoot {
    type V = RootView;

    open spec fn view(&self) -> RootView {
        match self {
            PathRoot::Instances => RootView::Instances,
            PathRoot::Meta => RootView::Meta,
            PathRoot::Fixed(text) => RootView::Fixed(text@),
        }
    }
}

impl View for LaunchPath {
    type V = PathView;

    open spec fn view(&self) -> PathView {
        PathView { root: self.root@, parts: texts(self.parts@) }
    }
}

impl PathView {
    /// The path with one more part joined to it.
    pub open spec fn child(self, part: Seq<char>) -> PathView {
        PathView { parts: self.parts.push(part), ..self }
    }
}

/// The models of the paths of a list.
pub open spec fn path_views(list: Seq<LaunchPath>) -> Seq<PathView> {
    list.map_values(|p: LaunchPath| p@)
}

/// The directory of all instances.
pub open spec fn instances_root() -> PathView {
    PathView { root: RootView::Instances, parts: Seq::empty() }
}

/// The directory of shared metadata.
pub open spec fn meta_root() -> PathView {
    PathView { root: RootView::Meta, parts: Seq::empty() }
}

/// The game directory of an instance.
pub open spec fn minecraft_dir_of(config: InstanceConfig) -> PathView {
    instances_root().child(config.name@).child(".minecraft"@)
}

/// The libraries that an installer put into an instance.
pub open spec fn local_library_dir_of(config: InstanceConfig) -> PathView {
    minecraft_dir_of(config).child("libraries"@)
}

/// The libraries that all instances share.
pub open spec fn shared_library_dir() -> PathView {
    meta_root().child("libraries"@)
}

/// The metadata of the instance's game version.
pub open spec fn meta_file_of(config: InstanceConfig) -> PathView {
    meta_root().child("versions"@).child(config.game_version@).child("meta.json"@)
}

/// The archive of the instance's game version.
pub open spec fn version_jar_of(config: InstanceConfig) -> PathView {
    meta_root().child("versions"@).child(config.game_version@).child(
        config.game_version@ + ".jar"@,
    )
}

/// A loader profile, by its file name.
pub open spec fn profile_file(filename: Seq<char>) -> PathView {
    meta_root().child("loader-profiles"@).child(filename)
}

impl LaunchPath {
    /// The path that `part` names below this one.
    pub fn child(&self, part: &str) -> (path: LaunchPath)
        ensures
            path@ == self@.child(part@),
    {
        let root = match &self.root {
            PathRoot::Instances => PathRoot::Instances,
            PathRoot::Meta => PathRoot::Meta,
            PathRoot::Fixed(text) => PathRoot::Fixed(text.clone()),
        };
        let mut parts = self.parts.clone();
        parts.push(part.to_owned());
        let path = LaunchPath { root, parts };
        assert(path@.parts =~= self@.child(part@).parts);
        path
    }

    /// A path below the directory of all instances.
    pub fn in_instances(part: &str) -> (path: LaunchPath)
        ensures
            path@ == instances_root().child(part@),
    {
        let path = LaunchPath { root: PathRoot::Instances, parts: vec![part.to_owned()] };
        assert(path@.parts =~= instances_root().child(part@).parts);
        path
    }

    /// A path below the directory of shared metadata.
    pub fn in_meta(part: &str) -> (path: LaunchPath)
        ensures
            path@ == meta_root().child(part@),
    {
        let path = LaunchPath { root: PathRoot::Meta, parts: vec![part.to_owned()] };
        assert(path@.parts =~= meta_root().child(part@).parts);
        path
    }
}

/// The game directory of an instance.
pub fn minecraft_dir(config: &InstanceConfig) -> (path: LaunchPath)
    ensures
        path@ == minecraft_dir_of(*config),
{
    LaunchPath::in_instances(config.name.as_str()).child(".minecraft")
}

/// The libraries that an installer put into an instance.
pub fn local_library_dir(config: &InstanceConfig) -> (path: LaunchPath)
    ensures
        path@ == local_library_dir_of(*config),
{
    minecraft_dir(config).child("libraries")
}

/// The libraries that all instances share.
pub fn library_dir() -> (path: LaunchPath)
    ensures
        path@ == shared_library_dir(),
{
    LaunchPath::in_meta("libraries")
}

/// The metadata of the instance's game version.
pub fn meta_file(config: &InstanceConfig) -> (path: LaunchPath)
    ensures
        path@ == meta_file_of(*config),
{
    LaunchPath::in_meta("versions").child(config.game_version.as_str()).child("meta.json")
}

/// The archive of the instance's game version.
pub fn version_jar(config: &InstanceConfig) -> (path: LaunchPath)
    ensures
        path@ == version_jar_of(*config),
{
    let file = config.game_version.clone().concat(".jar");
    LaunchPath::in_meta("versions").child(config.game_version.as_str()).child(file.as_str())
}

/// A loader profile, by its file name.
pub fn profile_path(filename: &str) -> (path: LaunchPath)
    ensures
        path@ == profile_file(filename@),
{
    LaunchPath::in_meta("loader-profiles").child(filename)
}

/// Whether `c` separates the parts of a path on some platform.
pub open spec fn is_separator(c: char) -> bool {
    c == '/' || c == '\\'
}

/// Whether a text starts as one with a drive does: its first character is no
/// separator, its second a colon.
pub open spec fn has_drive(text: Seq<char>) -> bool {
    text.len() >= 2 && !is_separator(text[0]) && text[1] == ':'
}

/// Whether a text starts with a drive: a letter and a colon.
pub open spec fn starts_with_drive(text: Seq<char>) -> bool {
    has_drive(text) && ('a' <= text[0] <= 'z' || 'A' <= text[0] <= 'Z')
}

/// Whether a text starts with two separators, as a path to a network share does.
pub open spec fn starts_with_share(text: Seq<char>) -> bool {
    text.len() >= 2 && is_separator(text[0]) && is_separator(text[1])
}

/// Whether a text starts as a verbatim Windows path does.
pub open spec fn is_verbatim(text: Seq<char>) -> bool {
    text.len() >= 3 && text[0] == '\\' && text[1] == '\\' && text[2] == '?'
}

/// Whether `base` is more than a mere drive and not verbatim, so that Windows
/// joins a part to it as other platforms do.
pub open spec fn is_ordinary(base: Seq<char>) -> bool {
    !is_verbatim(base) && !(base.len() == 2 && has_drive(base))
}

/// Whether `part` is a relative path on every platform: it is not empty and
/// starts neither with a separator nor with a drive.
pub open spec fn is_relative(part: Seq<char>) -> bool {
    part.len() > 0 && !is_separator(part[0]) && !has_drive(part)
}

/// How a platform writes paths: with `/` alone, or as Windows does, where both
/// slashes separate and one of them is the main separator.
pub enum PathStyle {
    Unix,
    Windows { separator: char },
}

/// `base` with a relative part after it and a separator between them, unless
/// the base has one at its end.
pub open spec fn extended(
    base: Seq<char>,
    part: Seq<char>,
    separator: char,
    has_end: bool,
) -> Seq<char> {
    if has_end {
        base + part
    } else {
        base.push(separator) + part
    }
}

/// Whether `whole` is the text of a path with a part joined to it. An absolute
/// part replaces the base, a relative one comes after it. Left open are an empty
/// part and, on Windows, a relative part after a verbatim path or a mere drive
/// and a rooted part after a base with a drive or a share.
pub open spec fn joins_to(
    style: PathStyle,
    base: Seq<char>,
    part: Seq<char>,
    whole: Seq<char>,
) -> bool {
    &&& base.len() == 0 ==> whole == part
    &&& base.len() > 0 && part.len() > 0 ==> match style {
        PathStyle::Unix => whole == if part[0] == '/' {
            part
        } else {
            extended(base, part, '/', base.last() == '/')
        },
        PathStyle::Windows { separator } => {
            &&& is_separator(separator)
            &&& starts_with_drive(part) ==> whole == part
            &&& is_separator(part[0]) && !has_drive(base) && !starts_with_share(base) ==> whole
                == part
            &&& is_relative(part) && is_ordinary(base) ==> whole == extended(
                base,
                part,
                separator,
                is_separator(base.last()),
            )
        },
    }
}

/// Whether `text` can be the text of the path that starts at `base` and goes
/// through `parts`, as a platform of this style writes it.
pub open spec fn reads_in(
    style: PathStyle,
    base: Seq<char>,
    parts: Seq<Seq<char>>,
    text: Seq<char>,
) -> bool
    decreases parts.len(),
{
    if parts.len() == 0 {
        text == base
    } else {
        exists|before: Seq<char>|
            reads_in(style, base, parts.drop_last(), before) && #[trigger] joins_to(
                style,
                before,
                parts.last(),
                text,
            )
    }
}

/// Whether `text` can be the text of the path that starts at `base` and goes
/// through `parts`, written in one style throughout.
pub open spec fn reads_as(base: Seq<char>, parts: Seq<Seq<char>>, text: Seq<char>) -> bool {
    exists|style: PathStyle| #[trigger] reads_in(style, base, parts, text)
}

/// The text of the directory that a path starts from.
pub open spec fn root_text(root: RootView, dirs: Directories) -> Seq<char> {
    match root {
        RootView::Instances => dirs.instances@,
        RootView::Meta => dirs.meta@,
        RootView::Fixed(text) => text,
    }
}

/// Whether `text` can be the text of `path`.
pub open spec fn is_path_text(path: PathView, dirs: Directories, text: Seq<char>) -> bool {
    reads_as(root_text(path.root, dirs), path.parts, text)
}

/// The text of a `std::path::PathBuf` after `PathBuf::extend`, with the base and
/// the parts given as text.
///
/// The standard library pushes one part after the other, as `PathBuf::push` and
/// `Path::join` do: an absolute part replaces what is there, a relative one is
/// adjoined with the main separator of the platform unless there is a separator
/// already. The contract claims this for Unix and for Windows, without saying
/// which of them the platform is; what it leaves open is said at [`joins_to`].
#[verifier::external_body]
pub(crate) fn join_parts(base: &str, parts: &Vec<String>) -> (whole: String)
    ensures
        reads_as(base@, texts(parts@), whole@),
{
    let mut path = std::path::PathBuf::from(base);
    path.extend(parts);
    path.to_string_lossy().into_owned()
}

impl LaunchPath {
    /// The text of this path on the current platform.
    pub fn to_text(&self, dirs: &Directories) -> (text: String)
        ensures
            is_path_text(self@, *dirs, text@),
    {
        let base = match &self.root {
            PathRoot::Instances => &dirs.instances,
            PathRoot::Meta => &dirs.meta,
            PathRoot::Fixed(fixed) => fixed,
        };
        join_parts(base.as_str(), &self.parts)
    }
}

/// The texts of the paths of a list on the current platform.
pub fn path_texts(paths: &Vec<LaunchPath>, dirs: &Directories) -> (list: Vec<String>)
    ensures
        are_path_texts(path_views(paths@), *dirs, texts(list@)),
{
    let mut list: Vec<String> = Vec::new();
    let mut i: usize = 0;
    while i < paths.len()
        invariant
            i <= paths@.len(),
            list@.len() == i,
            forall|j: int|
                0 <= j < i ==> is_path_text(paths@[j]@, *dirs, #[trigger] texts(list@)[j]),
        decreases paths@.len() - i,
    {
        let text = paths[i].to_text(dirs);
        let ghost before = list@;
        list.push(text);
        assert forall|j: int| 0 <= j < i + 1 implies is_path_text(
            paths@[j]@,
            *dirs,
            #[trigger] texts(list@)[j],
        ) by {
            if j < i {
                assert(texts(list@)[j] == texts(before)[j]);
            }
        }
        i += 1;
    }
    list
}

/// Whether `list` holds, in order, a text of each of the paths.
pub open spec fn are_path_texts(
    paths: Seq<PathView>,
    dirs: Directories,
    list: Seq<Seq<char>>,
) -> bool {
    &&& list.len() == paths.len()
    &&& forall|i: int| 0 <= i < paths.len() ==> is_path_text(paths[i], dirs, #[trigger] list[i])
}

/// A path with one part reads as that part joined to the directory. So on every
/// platform an empty directory adds nothing, one with a slash at its end gets no
/// second separator, and another gets one.
pub proof fn law_one_part_is_joined(base: Seq<char>, part: Seq<char>, text: Seq<char>)
    requires
        reads_as(base, seq![part], text),
    ensures
        exists|style: PathStyle| #[trigger] joins_to(style, base, part, text),
        base.len() == 0 ==> text == part,
        base.len() > 0 && is_ordinary(base) && is_relative(part) ==> {
            &&& base.last() == '/' ==> text == base + part
            &&& !is_separator(base.last()) ==> text == base.push('/') + part || text == base.push(
                '\\',
            ) + part
        },
{
    let parts = seq![part];
    let style = choose|style: PathStyle| #[trigger] reads_in(style, base, parts, text);
    let before = choose|before: Seq<char>|
        reads_in(style, base, parts.drop_last(), before) && #[trigger] joins_to(
            style,
            before,
            parts.last(),
            text,
        );
    assert(before == base);
    assert(joins_to(style, base, part, text));
}

/// The text that starts with `base` and goes on with the parts, each after a
/// separator unless there is a slash already or nothing at all.
pub open spec fn spelled_out(base: Seq<char>, parts: Seq<Seq<char>>, separator: char) -> Seq<char>
    decreases parts.len(),
{
    if parts.len() == 0 {
        base
    } else {
        let before = spelled_out(base, parts.drop_last(), separator);
        extended(before, parts.last(), separator, before.len() == 0 || before.last() == '/')
    }
}

/// Whether every platform can tell where a text ends that more is joined to: it
/// does not end in a backslash, which separates on Windows alone.
pub open spec fn has_clear_end(text: Seq<char>) -> bool {
    text.len() > 0 ==> text.last() != '\\'
}

/// On every platform, the text of a path is the text of the directory that it
/// starts from, followed by the parts, with the same separator before each that
/// does not follow a slash. This goes for every directory but a verbatim path
/// and a mere drive, and for relative parts.
pub proof fn law_paths_are_spelled_out(path: PathView, dirs: Directories, text: Seq<char>)
    requires
        is_path_text(path, dirs, text),
        is_ordinary(root_text(path.root, dirs)),
        has_clear_end(root_text(path.root, dirs)),
        forall|i: int|
            0 <= i < path.parts.len() ==> is_relative(#[trigger] path.parts[i]) && has_clear_end(
                path.parts[i],
            ),
    ensures
        exists|separator: char| #[trigger]
            is_separator(separator) && text == spelled_out(
                root_text(path.root, dirs),
                path.parts,
                separator,
            ),
{
    let base = root_text(path.root, dirs);
    let style = choose|style: PathStyle| #[trigger] reads_in(style, base, path.parts, text);
    let separator = match style {
        PathStyle::Windows { separator } if is_separator(separator) => separator,
        _ => '/',
    };
    lemma_spelled_out(style, base, path.parts, text, separator);
    assert(is_separator(separator));
}

proof fn lemma_spelled_out(
    style: PathStyle,
    base: Seq<char>,
    parts: Seq<Seq<char>>,
    text: Seq<char>,
    separator: char,
)
    requires
        reads_in(style, base, parts, text),
        is_ordinary(base),
        has_clear_end(base),
        forall|i: int|
            0 <= i < parts.len() ==> is_relative(#[trigger] parts[i]) && has_clear_end(parts[i]),
        match style {
            PathStyle::Unix => separator == '/',
            PathStyle::Windows { separator: main } => is_separator(main) ==> separator == main,
        },
    ensures
        text == spelled_out(base, parts, separator),
        is_ordinary(text),
        has_clear_end(text),
    decreases parts.len(),
{
    if parts.len() > 0 {
        let part = parts.last();
        let before = choose|before: Seq<char>|
            reads_in(style, base, parts.drop_last(), before) && #[trigger] joins_to(
                style,
                before,
                part,
                text,
            );
        lemma_spelled_out(style, base, parts.drop_last(), before, separator);
        assert(is_relative(part) && has_clear_end(part));
        if before.len() == 0 {
            assert(before + part =~= part);
        }
        assert(text.last() == part.last());
    }
}

/// Where the files of an instance are: its game directory below all instances,
/// what its installer left inside that directory, and everything that instances
/// share below the metadata, sorted by game version or by profile.
pub proof fn law_where_the_files_are(config: InstanceConfig, filename: Seq<char>)
    ensures
        minecraft_dir_of(config) == (PathView {
            root: RootView::Instances,
            parts: seq![config.name@, ".minecraft"@],
        }),
        local_library_dir_of(config) == (PathView {
            root: RootView::Instances,
            parts: seq![config.name@, ".minecraft"@, "libraries"@],
        }),
        shared_library_dir() == (PathView { root: RootView::Meta, parts: seq!["libraries"@] }),
        meta_file_of(config) == (PathView {
            root: RootView::Meta,
            parts: seq!["versions"@, config.game_version@, "meta.json"@],
        }),
        version_jar_of(config) == (PathView {
            root: RootView::Meta,
            parts: seq!["versions"@, config.game_version@, config.game_version@ + ".jar"@],
        }),
        profile_file(filename) == (PathView {
            root: RootView::Meta,
            parts: seq!["loader-profiles"@, filename],
        }),
{
    assert(minecraft_dir_of(config).parts =~= seq![config.name@, ".minecraft"@]);
    assert(local_library_dir_of(config).parts =~= seq![
        config.name@,
        ".minecraft"@,
        "libraries"@,
    ]);
    assert(shared_library_dir().parts =~= seq!["libraries"@]);
    assert(meta_file_of(config).parts =~= seq!["versions"@, config.game_version@, "meta.json"@]);
    assert(version_jar_of(config).parts =~= seq![
        "versions"@,
        config.game_version@,
        config.game_version@ + ".jar"@,
    ]);
    assert(profile_file(filename).parts =~= seq!["loader-profiles"@, filename]);
}

/// A path starts from the directory that it names, and goes through its parts in
/// order; a child has one part more, at the end.
pub proof fn law_path_starts_from_its_root(path: LaunchPath, dirs: Directories, part: Seq<char>)
    ensures
        path.root is Instances ==> root_text(path@.root, dirs) == dirs.instances@,
        path.root is Meta ==> root_text(path@.root, dirs) == dirs.meta@,
        path.root matches PathRoot::Fixed(text) ==> root_text(path@.root, dirs) == text@,
        path@.parts.len() == path.parts@.len(),
        forall|i: int|
            0 <= i < path.parts@.len() ==> #[trigger] path@.parts[i] == path.parts@[i]@,
        path@.child(part).root == path@.root,
        path@.child(part).parts == path@.parts.push(part),
        path.parts@.len() == 0 ==> forall|text: Seq<char>|
            is_path_text(path@, dirs, text) ==> text == root_text(path@.root, dirs),
{
}

/// Each path of a list has its own text, in the same place.
pub proof fn law_each_path_has_its_text(
    paths: Seq<LaunchPath>,
    dirs: Directories,
    list: Seq<Seq<char>>,
    i: int,
)
    requires
        are_path_texts(path_views(paths), dirs, list),
        0 <= i < paths.len(),
    ensures
        list.len() == paths.len(),
        is_path_text(paths[i]@, dirs, list[i]),
{
    assert(path_views(paths)[i] == paths[i]@);
}

} // verus!
