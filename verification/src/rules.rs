//! Which libraries of a version belong on the class path of an operating
//! system.

use vstd::prelude::*;

use crate::models::{MetaLibrary, MetaRule};
use crate::paths::{
    library_dir, path_views, shared_library_dir, LaunchPath, PathView, RootView,
};
use crate::text::same_text;

verus! {

/// The name that version metadata has for an operating system.
pub open spec fn metadata_os(os: Seq<char>) -> Seq<char> {
    if os == "macos"@ {
        "osx"@
    } else {
        os
    }
}

impl MetaRule {
    /// Whether this rule speaks of the operating system `os`. A rule that
    /// names none speaks of all.
    pub open spec fn applies_to(self, os: Seq<char>) -> bool {
        match self.os {
            Some(os_rule) => match os_rule.name {
                Some(name) => name@ == os,
                None => true,
            },
            None => true,
        }
    }

    pub open spec fn allows(self) -> bool {
        self.action@ == "allow"@
    }

    pub open spec fn disallows(self) -> bool {
        self.action@ == "disallow"@
    }

    /// Whether this rule settles the question on `os`.
    pub open spec fn decides(self, os: Seq<char>) -> bool {
        self.applies_to(os) && (self.allows() || self.disallows())
    }
}

/// Whether the rule at `i` is the first that settles the question on `os`.
pub open spec fn is_first_decision(rules: Seq<MetaRule>, os: Seq<char>, i: int) -> bool {
    &&& 0 <= i < rules.len()
    &&& rules[i].decides(os)
    &&& forall|j: int| 0 <= j < i ==> !(#[trigger] rules[j]).decides(os)
}

/// Whether a library with these rules is used on `os`: the first rule that
/// settles the question is one that allows it, or no rule applies at all.
pub open spec fn rules_allow(rules: Seq<MetaRule>, os: Seq<char>) -> bool {
    ||| exists|i: int| #[trigger] is_first_decision(rules, os, i) && rules[i].allows()
    ||| forall|i: int| 0 <= i < rules.len() ==> !(#[trigger] rules[i]).applies_to(os)
}

/// Whether a library is used on the operating system that metadata calls `os`.
pub open spec fn library_allowed(lib: MetaLibrary, os: Seq<char>) -> bool {
    match lib.rules {
        Some(rules) => rules_allow(rules@, os),
        None => true,
    }
}

/// The path of a library's archive, where it is used on `os` and has one.
pub open spec fn library_entry(lib: MetaLibrary, os: Seq<char>) -> Option<PathView> {
    match lib.downloads {
        Some(downloads) => match downloads.artifact {
            Some(artifact) => if library_allowed(lib, os) {
                Some(shared_library_dir().child(artifact.path@))
            } else {
                None
            },
            None => None,
        },
        None => None,
    }
}

/// The archives of the libraries that are used on `os`, in order.
pub open spec fn library_entries(libraries: Seq<MetaLibrary>, os: Seq<char>) -> Seq<PathView> {
    libraries.filter_map(|lib: MetaLibrary| library_entry(lib, os))
}

/// The name that version metadata has for an operating system.
pub fn metadata_os_name(os: &str) -> (name: String)
    ensures
        name@ == metadata_os(os@),
{
    if same_text(os, "macos") {
        "osx".to_owned()
    } else {
        os.to_owned()
    }
}

impl MetaRule {
    /// Whether this rule speaks of the operating system `os`.
    fn matches_os(&self, os: &String) -> (matches: bool)
        ensures
            matches == self.applies_to(os@),
    {
        match &self.os {
            Some(os_rule) => match &os_rule.name {
                Some(name) => *name == *os,
                None => true,
            },
            None => true,
        }
    }
}

/// Whether a library is used on the operating system `os`.
///
/// Each rule can allow or disallow the library on one operating system. The
/// first rule for this one that does either decides; if there is none, the
/// library is used only if no rule speaks of this operating system.
pub fn lib_allowed(lib: &MetaLibrary, os: &str) -> (allowed: bool)
    ensures
        allowed == library_allowed(*lib, metadata_os(os@)),
{
    let rules = match &lib.rules {
        Some(rules) => rules,
        None => {
            return true;
        },
    };
    let current_os = metadata_os_name(os);
    let mut dominated = false;
    let mut i: usize = 0;
    while i < rules.len()
        invariant
            i <= rules@.len(),
            lib.rules == Some(*rules),
            current_os@ == metadata_os(os@),
            forall|j: int| 0 <= j < i ==> !(#[trigger] rules@[j]).decides(current_os@),
            dominated == exists|j: int| 0 <= j < i && (#[trigger] rules@[j]).applies_to(current_os@),
        decreases rules@.len() - i,
    {
        let rule = &rules[i];
        if rule.matches_os(&current_os) {
            if same_text(rule.action.as_str(), "disallow") {
                proof {
                    reveal_strlit("allow");
                    reveal_strlit("disallow");
                    assert forall|k: int| #[trigger] is_first_decision(
                        rules@,
                        current_os@,
                        k,
                    ) implies k == i by {
                        assert(rules@[i as int].decides(current_os@));
                    }
                    assert("allow"@.len() != "disallow"@.len());
                }
                return false;
            }
            if same_text(rule.action.as_str(), "allow") {
                assert(is_first_decision(rules@, current_os@, i as int));
                return true;
            }
            dominated = true;
            assert(rules@[i as int].applies_to(current_os@));
        }
        i += 1;
    }
    !dominated
}

/// The archives of the libraries of a version that are used on `os`.
pub fn library_paths(libraries: &Vec<MetaLibrary>, os: &str) -> (paths: Vec<LaunchPath>)
    ensures
        path_views(paths@) == library_entries(libraries@, metadata_os(os@)),
{
    let dir = library_dir();
    let mut paths: Vec<LaunchPath> = Vec::new();
    let ghost entry = |lib: MetaLibrary| library_entry(lib, metadata_os(os@));
    let mut i: usize = 0;
    while i < libraries.len()
        invariant
            i <= libraries@.len(),
            dir@ == shared_library_dir(),
            entry == (|lib: MetaLibrary| library_entry(lib, metadata_os(os@))),
            path_views(paths@) =~= libraries@.take(i as int).filter_map(entry),
        decreases libraries@.len() - i,
    {
        let lib = &libraries[i];
        proof {
            libraries@.lemma_filter_map_take_succ(entry, i as int);
        }
        if lib_allowed(lib, os) {
            match &lib.downloads {
                Some(downloads) => match &downloads.artifact {
                    Some(artifact) => {
                        paths.push(dir.child(artifact.path.as_str()));
                    },
                    None => {},
                },
                None => {},
            }
        }
        i += 1;
    }
    assert(libraries@.take(libraries@.len() as int) =~= libraries@);
    paths
}

/// A rule speaks of every operating system unless it names one, and then of that
/// one alone.
pub proof fn law_rule_speaks_of_the_system_it_names(rule: MetaRule, os: Seq<char>)
    ensures
        rule.os is None ==> rule.applies_to(os),
        rule.os is Some && rule.os->0.name is None ==> rule.applies_to(os),
        rule.os is Some && rule.os->0.name is Some ==> rule.applies_to(os) == (
        rule.os->0.name->0@ == os),
{
}

/// A rule that names another operating system never matters, wherever it stands.
pub proof fn law_other_systems_rules_never_matter(rules: Seq<MetaRule>, os: Seq<char>, i: int)
    requires
        0 <= i < rules.len(),
        rules[i].os is Some,
        rules[i].os->0.name is Some,
        rules[i].os->0.name->0@ != os,
    ensures
        rules_allow(rules, os) == rules_allow(rules.remove(i), os),
{
    let fewer = rules.remove(i);
    assert(!rules[i].applies_to(os));
    assert forall|k: int| #[trigger] is_first_decision(rules, os, k) implies k != i
        && is_first_decision(fewer, os, if k < i { k } else { k - 1 }) by {
        let kept = if k < i { k } else { k - 1 };
        assert(fewer[kept] == rules[k]);
        assert forall|j: int| 0 <= j < kept implies !(#[trigger] fewer[j]).decides(os) by {
            assert(fewer[j] == rules[if j < i { j } else { j + 1 }]);
        }
    }
    assert forall|k: int| #[trigger] is_first_decision(fewer, os, k) implies is_first_decision(
        rules,
        os,
        if k < i { k } else { k + 1 },
    ) by {
        let place = if k < i { k } else { k + 1 };
        assert(fewer[k] == rules[place]);
        assert forall|j: int| 0 <= j < place implies !(#[trigger] rules[j]).decides(os) by {
            if j < i {
                assert(fewer[j] == rules[j]);
            } else if j > i {
                assert(fewer[j - 1] == rules[j]);
            }
        }
    }
    if rules_allow(rules, os) && exists|k: int| #[trigger] is_first_decision(rules, os, k) {
        let k = choose|k: int| #[trigger] is_first_decision(rules, os, k) && rules[k].allows();
        if is_first_decision(rules, os, k) && rules[k].allows() {
            let kept = if k < i { k } else { k - 1 };
            assert(is_first_decision(fewer, os, kept) && fewer[kept].allows());
        }
    }
    if exists|k: int| #[trigger] is_first_decision(fewer, os, k) && fewer[k].allows() {
        let k = choose|k: int| #[trigger] is_first_decision(fewer, os, k) && fewer[k].allows();
        let place = if k < i { k } else { k + 1 };
        assert(is_first_decision(rules, os, place) && rules[place].allows());
    }
    if forall|j: int| 0 <= j < rules.len() ==> !(#[trigger] rules[j]).applies_to(os) {
        assert forall|j: int| 0 <= j < fewer.len() implies !(#[trigger] fewer[j]).applies_to(
            os,
        ) by {
            assert(fewer[j] == rules[if j < i { j } else { j + 1 }]);
        }
    }
    if forall|j: int| 0 <= j < fewer.len() ==> !(#[trigger] fewer[j]).applies_to(os) {
        assert forall|j: int| 0 <= j < rules.len() implies !(#[trigger] rules[j]).applies_to(
            os,
        ) by {
            if j < i {
                assert(fewer[j] == rules[j]);
            } else if j > i {
                assert(fewer[j - 1] == rules[j]);
            }
        }
    }
}

/// The first rule, if it speaks of this operating system and allows or disallows,
/// decides alone, whatever follows it. One that speaks of this system and does
/// neither leaves the question to the rules after it, and there one of them must
/// speak of this system too. Where no rule is left, the library is used.
pub proof fn law_first_rule_for_the_system_decides(
    rule: MetaRule,
    rest: Seq<MetaRule>,
    os: Seq<char>,
)
    requires
        rule.os is None || rule.os->0.name is None || rule.os->0.name->0@ == os,
    ensures
        rule.action@ == "allow"@ ==> rules_allow(seq![rule] + rest, os),
        rule.action@ == "disallow"@ ==> !rules_allow(seq![rule] + rest, os),
        rule.action@ != "allow"@ && rule.action@ != "disallow"@ ==> rules_allow(
            seq![rule] + rest,
            os,
        ) == (rules_allow(rest, os) && exists|j: int|
            0 <= j < rest.len() && (#[trigger] rest[j]).applies_to(os)),
        rules_allow(Seq::<MetaRule>::empty(), os),
{
    let rules = seq![rule] + rest;
    reveal_strlit("allow");
    reveal_strlit("disallow");
    assert("allow"@.len() != "disallow"@.len());
    assert(rules[0] == rule);
    assert(rule.applies_to(os));
    if rule.action@ == "allow"@ || rule.action@ == "disallow"@ {
        assert(is_first_decision(rules, os, 0));
        assert forall|k: int| #[trigger] is_first_decision(rules, os, k) implies k == 0 by {}
    } else {
        assert forall|k: int| #[trigger] is_first_decision(rules, os, k) implies is_first_decision(
            rest,
            os,
            k - 1,
        ) && rules[k] == rest[k - 1] by {
            assert forall|j: int| 0 <= j < k - 1 implies !(#[trigger] rest[j]).decides(os) by {
                assert(rules[j + 1] == rest[j]);
            }
        }
        assert forall|k: int| #[trigger] is_first_decision(rest, os, k) implies is_first_decision(
            rules,
            os,
            k + 1,
        ) && rules[k + 1] == rest[k] by {
            assert forall|j: int| 0 <= j < k + 1 implies !(#[trigger] rules[j]).decides(os) by {
                if j > 0 {
                    assert(rules[j] == rest[j - 1]);
                }
            }
        }
        if rules_allow(rules, os) {
            let k = choose|k: int| #[trigger] is_first_decision(rules, os, k) && rules[k].allows();
            assert(is_first_decision(rest, os, k - 1) && rest[k - 1].allows());
            assert(rest[k - 1].applies_to(os));
        }
        if rules_allow(rest, os) && exists|j: int|
            0 <= j < rest.len() && (#[trigger] rest[j]).applies_to(os) {
            let k = choose|k: int| #[trigger] is_first_decision(rest, os, k) && rest[k].allows();
            assert(is_first_decision(rules, os, k + 1) && rules[k + 1].allows());
        }
    }
}

/// A library without rules is used everywhere, another as its rules say; and only
/// macOS goes by another name in the rules.
pub proof fn law_library_goes_by_its_rules(lib: MetaLibrary, os: Seq<char>)
    ensures
        lib.rules is None ==> library_allowed(lib, os),
        lib.rules is Some ==> library_allowed(lib, os) == rules_allow(lib.rules->0@, os),
        metadata_os("macos"@) == "osx"@,
        os != "macos"@ ==> metadata_os(os) == os,
{
}

/// Each library is looked at on its own: one that is used and has an archive adds
/// that archive, below the shared libraries, in its place; any other adds nothing.
pub proof fn law_libraries_one_by_one(
    libraries: Seq<MetaLibrary>,
    lib: MetaLibrary,
    os: Seq<char>,
)
    ensures
        library_entries(Seq::<MetaLibrary>::empty(), os).len() == 0,
        library_entries(libraries.push(lib), os) == library_entries(libraries, os)
            + library_entries(seq![lib], os),
        lib.downloads is None || lib.downloads->0.artifact is None || !library_allowed(lib, os)
            ==> library_entries(seq![lib], os).len() == 0,
        lib.downloads is Some && lib.downloads->0.artifact is Some && library_allowed(lib, os)
            ==> library_entries(seq![lib], os) == seq![
            PathView {
                root: RootView::Meta,
                parts: seq!["libraries"@, lib.downloads->0.artifact->0.path@],
            },
        ],
{
    let entry = |l: MetaLibrary| library_entry(l, os);
    let longer = libraries.push(lib);
    let one = seq![lib];
    longer.lemma_filter_map_take_succ(entry, libraries.len() as int);
    assert(longer.take(libraries.len() as int) =~= libraries);
    assert(longer.take(libraries.len() as int + 1) =~= longer);
    one.lemma_filter_map_take_succ(entry, 0);
    assert(one.take(0) =~= Seq::<MetaLibrary>::empty());
    assert(one.take(1) =~= one);
    reveal_with_fuel(Seq::filter_map, 1);
    assert(Seq::<MetaLibrary>::empty().filter_map(entry) =~= Seq::<PathView>::empty());
    if entry(lib) is Some {
        let path = entry(lib)->0;
        assert(library_entries(one, os) =~= seq![path]);
        assert(library_entries(longer, os) =~= library_entries(libraries, os) + seq![path]);
        assert(path.parts =~= seq!["libraries"@, lib.downloads->0.artifact->0.path@]);
    } else {
        assert(library_entries(one, os) =~= Seq::<PathView>::empty());
        assert(library_entries(longer, os) =~= library_entries(libraries, os)
            + library_entries(one, os));
    }
}

} // verus!
