//! The Dart entry points of a worktree.

use crate::paths::{
    is_file_name, is_plain_dir, law_child_path, lemma_child_is_plain, name_of, parent_of, path_in,
    relative_path, PathStyle,
};
use crate::text::{
    begins, begins_with, ends, ends_with, law_begins_by_characters, law_ends_by_characters,
    same_text, texts,
};
use vstd::prelude::*;

verus! {

/// The file that makes a directory a Dart package.
pub const PUBSPEC_FILE: &'static str = "pubspec.yaml";

/// The directory of a package that holds its entry points.
pub const LIB_DIR: &'static str = "lib";

/// A directory, as far as it could be read.
#[derive(Debug)]
pub enum DirTree {
    Unreadable,
    Listed(DirListing),
}

/// What a directory holds.
#[derive(Debug)]
pub struct DirListing {
    /// Its entries, in the order in which they are listed.
    pub entries: Vec<DirEntry>,
    /// Whether it holds a `pubspec.yaml`, and so is a Dart package.
    pub has_pubspec: bool,
    /// What its `lib` directory holds, if there is one and it could be read.
    pub lib: Option<Vec<LibEntry>>,
}

/// An entry of a directory.
#[derive(Debug)]
pub struct DirEntry {
    /// Its name, if that is text.
    pub name: Option<String>,
    /// What it holds, if it is a directory.
    pub contents: Option<DirTree>,
}

/// An entry of a package's `lib` directory.
#[derive(Debug)]
pub struct LibEntry {
    /// Its name, if that is text.
    pub name: Option<String>,
    pub is_file: bool,
}

/// A worktree of the project: its root's path, and what it holds.
#[derive(Debug)]
pub struct Worktree {
    pub path: String,
    pub root: DirTree,
}

/// A directory of this name may hold packages. Hidden directories and build outputs are
/// passed over.
pub open spec fn may_hold_packages(name: Seq<char>) -> bool {
    !begins(name, "."@) && name != "build"@ && name != ".dart_tool"@
}

/// A file of this name in `lib` is an entry point: `main.dart`, `main_dev.dart` and so on.
pub open spec fn is_entry_point(name: Seq<char>) -> bool {
    begins(name, "main"@) && ends(name, ".dart"@)
}

/// The path of an entry point of the package at `package`.
pub open spec fn target_path(style: PathStyle, package: Seq<char>, file: Seq<char>) -> Seq<char> {
    path_in(style, path_in(style, package, LIB_DIR@), file)
}

/// `found` with `target` in it, once.
pub open spec fn with_target(found: Seq<Seq<char>>, target: Seq<char>) -> Seq<Seq<char>> {
    if found.contains(target) {
        found
    } else {
        found.push(target)
    }
}

/// The entry point is a file with a fitting name.
pub open spec fn is_target_entry(entry: LibEntry) -> bool {
    entry.is_file && entry.name is Some && is_entry_point(entry.name->0@)
}

/// `found` with the entry points among `entries`, of the package at `package`.
pub open spec fn with_lib(
    style: PathStyle,
    found: Seq<Seq<char>>,
    entries: Seq<LibEntry>,
    package: Seq<char>,
) -> Seq<Seq<char>>
    decreases entries.len(),
{
    if entries.len() == 0 {
        found
    } else {
        let before = with_lib(style, found, entries.drop_last(), package);
        let entry = entries.last();
        if is_target_entry(entry) {
            with_target(before, target_path(style, package, entry.name->0@))
        } else {
            before
        }
    }
}

/// The entry is a directory that may hold packages.
pub open spec fn is_searched(entry: DirEntry) -> bool {
    entry.contents is Some && entry.name is Some && may_hold_packages(entry.name->0@)
}

/// `found` with the targets in a directory: those below its entries first, then its own.
pub open spec fn with_tree(
    style: PathStyle,
    found: Seq<Seq<char>>,
    tree: DirTree,
    at: Seq<char>,
) -> Seq<Seq<char>>
    decreases tree,
{
    match tree {
        DirTree::Unreadable => found,
        DirTree::Listed(listing) => {
            let below = with_entries(style, found, listing.entries@, at);
            if listing.has_pubspec && listing.lib is Some {
                with_lib(style, below, listing.lib->0@, at)
            } else {
                below
            }
        },
    }
}

/// `found` with the targets below the entries of the directory at `at`.
pub open spec fn with_entries(
    style: PathStyle,
    found: Seq<Seq<char>>,
    entries: Seq<DirEntry>,
    at: Seq<char>,
) -> Seq<Seq<char>>
    decreases entries,
{
    if entries.len() == 0 {
        found
    } else {
        let before = with_entries(style, found, entries.drop_last(), at);
        let entry = entries.last();
        if is_searched(entry) {
            with_tree(style, before, entry.contents->0, path_in(style, at, entry.name->0@))
        } else {
            before
        }
    }
}

/// Whether a directory of this name may hold packages.
pub fn searches_in(name: &str) -> (r: bool)
    ensures
        r == may_hold_packages(name@),
{
    !begins_with(name, ".") && !same_text(name, "build") && !same_text(name, ".dart_tool")
}

/// Whether a file of this name in `lib` is an entry point.
pub fn names_entry_point(name: &str) -> (r: bool)
    ensures
        r == is_entry_point(name@),
{
    begins_with(name, "main") && ends_with(name, ".dart")
}

/// Whether a text is among the strings.
pub fn holds_text(v: &Vec<String>, text: &str) -> (r: bool)
    ensures
        r == texts(v@).contains(text@),
{
    let mut i: usize = 0;
    while i < v.len()
        invariant
            i <= v@.len(),
            forall|j: int| 0 <= j < i ==> v@[j]@ != text@,
        decreases v@.len() - i,
    {
        if same_text(v[i].as_str(), text) {
            assert(texts(v@)[i as int] == text@);
            return true;
        }
        i = i + 1;
    }
    false
}

/// Adds the entry points among `entries`, of the package at `package`.
fn find_entry_points(
    style: PathStyle,
    entries: &Vec<LibEntry>,
    package: &str,
    targets: &mut Vec<String>,
)
    ensures
        texts(final(targets)@) == with_lib(style, texts(old(targets)@), entries@, package@),
{
    let lib = relative_path(style, package, LIB_DIR);
    let mut i: usize = 0;
    while i < entries.len()
        invariant
            i <= entries@.len(),
            lib@ == path_in(style, package@, LIB_DIR@),
            texts(targets@) == with_lib(
                style,
                texts(old(targets)@),
                entries@.take(i as int),
                package@,
            ),
        decreases entries@.len() - i,
    {
        assert(entries@.take(i + 1).drop_last() =~= entries@.take(i as int));
        let entry = &entries[i];
        if entry.is_file {
            if let Some(name) = &entry.name {
                if names_entry_point(name.as_str()) {
                    let target = relative_path(style, lib.as_str(), name.as_str());
                    if !holds_text(targets, target.as_str()) {
                        let ghost before = targets@;
                        targets.push(target);
                        assert(texts(targets@) =~= texts(before).push(target@));
                    }
                }
            }
        }
        i = i + 1;
    }
    assert(entries@.take(entries@.len() as int) =~= entries@);
}

/// Adds the targets in the directory at `current`, which is a path relative to the
/// worktree's root, unless they are there already.
pub fn find_dart_targets(style: PathStyle, tree: &DirTree, current: &str, targets: &mut Vec<String>)
    ensures
        texts(final(targets)@) == with_tree(style, texts(old(targets)@), *tree, current@),
    decreases tree,
{
    match tree {
        DirTree::Unreadable => {},
        DirTree::Listed(listing) => {
            let mut i: usize = 0;
            while i < listing.entries.len()
                invariant
                    i <= listing.entries@.len(),
                    *tree == DirTree::Listed(*listing),
                    texts(targets@) == with_entries(
                        style,
                        texts(old(targets)@),
                        listing.entries@.take(i as int),
                        current@,
                    ),
                decreases listing.entries@.len() - i,
            {
                assert(listing.entries@.take(i + 1).drop_last() =~= listing.entries@.take(
                    i as int,
                ));
                let entry = &listing.entries[i];
                if let Some(contents) = &entry.contents {
                    if let Some(name) = &entry.name {
                        if searches_in(name.as_str()) {
                            let below = relative_path(style, current, name.as_str());
                            assert(decreases_to!(*tree => tree->Listed_0));
                            assert(decreases_to!(*listing => listing.entries));
                            assert(decreases_to!(listing.entries => listing.entries@));
                            assert(decreases_to!(listing.entries@ => listing.entries@[i as int]));
                            assert(decreases_to!(*entry => entry.contents));
                            assert(decreases_to!(entry.contents => entry.contents->0));
                            find_dart_targets(style, contents, below.as_str(), targets);
                        }
                    }
                }
                i = i + 1;
            }
            assert(listing.entries@.take(listing.entries@.len() as int) =~= listing.entries@);
            if listing.has_pubspec {
                if let Some(lib) = &listing.lib {
                    find_entry_points(style, lib, current, targets);
                }
            }
        },
    }
}

/// The targets of all worktrees, in the order in which they are found.
pub open spec fn with_worktrees(style: PathStyle, worktrees: Seq<Worktree>) -> Seq<Seq<char>>
    decreases worktrees.len(),
{
    if worktrees.len() == 0 {
        Seq::empty()
    } else {
        with_tree(
            style,
            with_worktrees(style, worktrees.drop_last()),
            worktrees.last().root,
            Seq::empty(),
        )
    }
}

/// The targets of all worktrees, and the path of the first worktree's root.
pub fn scan_worktrees(
    style: PathStyle,
    worktrees: &Vec<Worktree>,
) -> (r: (Option<String>, Vec<String>))
    ensures
        worktrees@.len() == 0 ==> r.0 is None,
        worktrees@.len() > 0 ==> r.0 == Some(worktrees@[0].path),
        texts(r.1@) == with_worktrees(style, worktrees@),
{
    let mut targets: Vec<String> = Vec::new();
    let mut i: usize = 0;
    assert(texts(targets@) =~= Seq::<Seq<char>>::empty());
    while i < worktrees.len()
        invariant
            i <= worktrees@.len(),
            texts(targets@) == with_worktrees(style, worktrees@.take(i as int)),
        decreases worktrees@.len() - i,
    {
        assert(worktrees@.take(i + 1).drop_last() =~= worktrees@.take(i as int));
        proof {
            reveal_strlit("");
        }
        assert(""@ =~= Seq::<char>::empty());
        find_dart_targets(style, &worktrees[i].root, "", &mut targets);
        i = i + 1;
    }
    assert(worktrees@.take(worktrees@.len() as int) =~= worktrees@);
    if worktrees.len() == 0 {
        (None, targets)
    } else {
        (Some(worktrees[0].path.clone()), targets)
    }
}

/// `target` is an entry point of the package at `package`, whose `lib` holds `entries`.
pub open spec fn lib_holds(
    style: PathStyle,
    entries: Seq<LibEntry>,
    package: Seq<char>,
    target: Seq<char>,
) -> bool {
    exists|i: int|
        0 <= i < entries.len() && is_target_entry(#[trigger] entries[i]) && target == target_path(
            style,
            package,
            entries[i].name->0@,
        )
}

/// `target` is an entry point of a package in the directory at `at`, or below it.
pub open spec fn tree_holds(
    style: PathStyle,
    tree: DirTree,
    at: Seq<char>,
    target: Seq<char>,
) -> bool
    decreases tree,
{
    match tree {
        DirTree::Unreadable => false,
        DirTree::Listed(listing) => {
            ||| entries_hold(style, listing.entries@, at, target)
            ||| listing.has_pubspec && listing.lib is Some && lib_holds(
                style,
                listing.lib->0@,
                at,
                target,
            )
        },
    }
}

/// `target` is an entry point of a package below one of the entries of the directory at
/// `at`.
pub open spec fn entries_hold(
    style: PathStyle,
    entries: Seq<DirEntry>,
    at: Seq<char>,
    target: Seq<char>,
) -> bool
    decreases entries,
{
    exists|i: int|
        0 <= i < entries.len() && is_searched(#[trigger] entries[i]) && tree_holds(
            style,
            entries[i].contents->0,
            path_in(style, at, entries[i].name->0@),
            target,
        )
}

proof fn lemma_lib_finds(
    style: PathStyle,
    found: Seq<Seq<char>>,
    entries: Seq<LibEntry>,
    package: Seq<char>,
    target: Seq<char>,
)
    ensures
        with_lib(style, found, entries, package).contains(target) <==> found.contains(target)
            || lib_holds(
            style,
            entries,
            package,
            target,
        ),
    decreases entries.len(),
{
    if entries.len() > 0 {
        let rest = entries.drop_last();
        let before = with_lib(style, found, rest, package);
        lemma_lib_finds(style, found, rest, package, target);
        if lib_holds(style, entries, package, target) {
            let i = choose|i: int|
                0 <= i < entries.len() && is_target_entry(#[trigger] entries[i]) && target
                    == target_path(style, package, entries[i].name->0@);
            if i < rest.len() {
                assert(rest[i] == entries[i]);
                assert(lib_holds(style, rest, package, target));
            }
        }
        if lib_holds(style, rest, package, target) {
            let i = choose|i: int|
                0 <= i < rest.len() && is_target_entry(#[trigger] rest[i]) && target == target_path(
                    style,
                    package,
                    rest[i].name->0@,
                );
            assert(entries[i] == rest[i]);
            assert(lib_holds(style, entries, package, target));
        }
        let entry = entries.last();
        assert(entry == entries[entries.len() - 1]);
        if is_target_entry(entry) {
            let t = target_path(style, package, entry.name->0@);
            lemma_with_target(before, t, target);
        }
    }
}

proof fn lemma_with_target(found: Seq<Seq<char>>, t: Seq<char>, target: Seq<char>)
    ensures
        with_target(found, t).contains(target) <==> found.contains(target) || t == target,
        found.no_duplicates() ==> with_target(found, t).no_duplicates(),
        found.is_prefix_of(with_target(found, t)),
{
    let r = with_target(found, t);
    if found.contains(target) && !found.contains(t) {
        let i = choose|i: int| 0 <= i < found.len() && found[i] == target;
        assert(r[i] == target);
    }
    if !found.contains(t) {
        assert(r[found.len() as int] == t);
        assert(found =~= r.subrange(0, found.len() as int));
    } else {
        assert(found =~= r.subrange(0, found.len() as int));
    }
}

/// The search finds exactly the entry points of the packages that may be searched, beside
/// what was found before.
pub proof fn law_search_finds_all_targets(
    style: PathStyle,
    found: Seq<Seq<char>>,
    tree: DirTree,
    at: Seq<char>,
    target: Seq<char>,
)
    ensures
        with_tree(style, found, tree, at).contains(target) <==> found.contains(target)
            || tree_holds(
            style,
            tree,
            at,
            target,
        ),
    decreases tree,
{
    match tree {
        DirTree::Unreadable => {},
        DirTree::Listed(listing) => {
            assert(decreases_to!(tree => tree->Listed_0));
            assert(decreases_to!(listing => listing.entries));
            assert(decreases_to!(listing.entries => listing.entries@));
            lemma_entries_find(style, found, listing.entries@, at, target);
            let below = with_entries(style, found, listing.entries@, at);
            if listing.has_pubspec && listing.lib is Some {
                lemma_lib_finds(style, below, listing.lib->0@, at, target);
            }
        },
    }
}

proof fn lemma_entries_find(
    style: PathStyle,
    found: Seq<Seq<char>>,
    entries: Seq<DirEntry>,
    at: Seq<char>,
    target: Seq<char>,
)
    ensures
        with_entries(style, found, entries, at).contains(target) <==> found.contains(target)
            || entries_hold(style, entries, at, target),
    decreases entries,
{
    if entries.len() > 0 {
        let rest = entries.drop_last();
        let before = with_entries(style, found, rest, at);
        lemma_entries_find(style, found, rest, at, target);
        if entries_hold(style, entries, at, target) {
            let i = choose|i: int|
                0 <= i < entries.len() && is_searched(#[trigger] entries[i]) && tree_holds(
                    style,
                    entries[i].contents->0,
                    path_in(style, at, entries[i].name->0@),
                    target,
                );
            if i < rest.len() {
                assert(rest[i] == entries[i]);
                assert(entries_hold(style, rest, at, target));
            }
        }
        if entries_hold(style, rest, at, target) {
            let i = choose|i: int|
                0 <= i < rest.len() && is_searched(#[trigger] rest[i]) && tree_holds(
                    style,
                    rest[i].contents->0,
                    path_in(style, at, rest[i].name->0@),
                    target,
                );
            assert(entries[i] == rest[i]);
            assert(entries_hold(style, entries, at, target));
        }
        let entry = entries[entries.len() - 1];
        assert(entry == entries.last());
        if is_searched(entry) {
            assert(decreases_to!(entries => entries[entries.len() - 1]));
            assert(decreases_to!(entry => entry.contents));
            assert(decreases_to!(entry.contents => entry.contents->0));
            law_search_finds_all_targets(
                style,
                before,
                entry.contents->0,
                path_in(style, at, entry.name->0@),
                target,
            );
        }
    }
}

proof fn lemma_prefix_chain(a: Seq<Seq<char>>, b: Seq<Seq<char>>, c: Seq<Seq<char>>)
    requires
        a.is_prefix_of(b),
        b.is_prefix_of(c),
    ensures
        a.is_prefix_of(c),
{
    assert(a =~= c.subrange(0, a.len() as int)) by {
        assert forall|i: int| 0 <= i < a.len() implies a[i] == c[i] by {
            assert(a[i] == b.subrange(0, a.len() as int)[i]);
            assert(b[i] == c.subrange(0, b.len() as int)[i]);
        }
    }
}

proof fn lemma_prefix_of_itself(a: Seq<Seq<char>>)
    ensures
        a.is_prefix_of(a),
{
    assert(a =~= a.subrange(0, a.len() as int));
}

proof fn lemma_lib_keeps(
    style: PathStyle,
    found: Seq<Seq<char>>,
    entries: Seq<LibEntry>,
    package: Seq<char>,
)
    ensures
        found.is_prefix_of(with_lib(style, found, entries, package)),
        found.no_duplicates() ==> with_lib(style, found, entries, package).no_duplicates(),
    decreases entries.len(),
{
    if entries.len() == 0 {
        lemma_prefix_of_itself(found);
    } else {
        let before = with_lib(style, found, entries.drop_last(), package);
        lemma_lib_keeps(style, found, entries.drop_last(), package);
        let entry = entries.last();
        if is_target_entry(entry) {
            let t = target_path(style, package, entry.name->0@);
            lemma_with_target(before, t, t);
            lemma_prefix_chain(found, before, with_target(before, t));
        }
    }
}

/// The search keeps what was found before, in its place, and finds nothing twice.
pub proof fn law_search_keeps_found_targets(
    style: PathStyle,
    found: Seq<Seq<char>>,
    tree: DirTree,
    at: Seq<char>,
)
    ensures
        found.is_prefix_of(with_tree(style, found, tree, at)),
        found.no_duplicates() ==> with_tree(style, found, tree, at).no_duplicates(),
    decreases tree,
{
    match tree {
        DirTree::Unreadable => {
            lemma_prefix_of_itself(found);
        },
        DirTree::Listed(listing) => {
            assert(decreases_to!(tree => tree->Listed_0));
            assert(decreases_to!(listing => listing.entries));
            assert(decreases_to!(listing.entries => listing.entries@));
            lemma_entries_keep(style, found, listing.entries@, at);
            let below = with_entries(style, found, listing.entries@, at);
            if listing.has_pubspec && listing.lib is Some {
                lemma_lib_keeps(style, below, listing.lib->0@, at);
                lemma_prefix_chain(found, below, with_lib(style, below, listing.lib->0@, at));
            }
        },
    }
}

proof fn lemma_entries_keep(
    style: PathStyle,
    found: Seq<Seq<char>>,
    entries: Seq<DirEntry>,
    at: Seq<char>,
)
    ensures
        found.is_prefix_of(with_entries(style, found, entries, at)),
        found.no_duplicates() ==> with_entries(style, found, entries, at).no_duplicates(),
    decreases entries,
{
    if entries.len() == 0 {
        lemma_prefix_of_itself(found);
    } else {
        let before = with_entries(style, found, entries.drop_last(), at);
        lemma_entries_keep(style, found, entries.drop_last(), at);
        let entry = entries[entries.len() - 1];
        assert(entry == entries.last());
        if is_searched(entry) {
            assert(decreases_to!(entries => entries[entries.len() - 1]));
            assert(decreases_to!(entry => entry.contents));
            assert(decreases_to!(entry.contents => entry.contents->0));
            let inner = path_in(style, at, entry.name->0@);
            law_search_keeps_found_targets(style, before, entry.contents->0, inner);
            lemma_prefix_chain(found, before, with_tree(style, before, entry.contents->0, inner));
        }
    }
}

proof fn lemma_lib_adds_nothing(
    style: PathStyle,
    found: Seq<Seq<char>>,
    entries: Seq<LibEntry>,
    package: Seq<char>,
)
    requires
        forall|target: Seq<char>| #[trigger]
            lib_holds(style, entries, package, target) ==> found.contains(target),
    ensures
        with_lib(style, found, entries, package) == found,
    decreases entries.len(),
{
    if entries.len() > 0 {
        let rest = entries.drop_last();
        assert forall|target: Seq<char>| #[trigger]
            lib_holds(style, rest, package, target) implies found.contains(target) by {
            let i = choose|i: int|
                0 <= i < rest.len() && is_target_entry(#[trigger] rest[i]) && target == target_path(
                    style,
                    package,
                    rest[i].name->0@,
                );
            assert(entries[i] == rest[i]);
            assert(lib_holds(style, entries, package, target));
        }
        lemma_lib_adds_nothing(style, found, rest, package);
        let entry = entries[entries.len() - 1];
        if is_target_entry(entry) {
            assert(lib_holds(
                style,
                entries,
                package,
                target_path(style, package, entry.name->0@),
            ));
        }
    }
}

proof fn lemma_entries_add_nothing(
    style: PathStyle,
    found: Seq<Seq<char>>,
    entries: Seq<DirEntry>,
    at: Seq<char>,
)
    requires
        forall|target: Seq<char>| #[trigger]
            entries_hold(style, entries, at, target) ==> found.contains(target),
    ensures
        with_entries(style, found, entries, at) == found,
    decreases entries,
{
    if entries.len() > 0 {
        let rest = entries.drop_last();
        assert forall|target: Seq<char>| #[trigger]
            entries_hold(style, rest, at, target) implies found.contains(target) by {
            let i = choose|i: int|
                0 <= i < rest.len() && is_searched(#[trigger] rest[i]) && tree_holds(
                    style,
                    rest[i].contents->0,
                    path_in(style, at, rest[i].name->0@),
                    target,
                );
            assert(entries[i] == rest[i]);
            assert(entries_hold(style, entries, at, target));
        }
        lemma_entries_add_nothing(style, found, rest, at);
        let entry = entries[entries.len() - 1];
        assert(entry == entries.last());
        if is_searched(entry) {
            let inner = path_in(style, at, entry.name->0@);
            assert forall|target: Seq<char>| #[trigger]
                tree_holds(style, entry.contents->0, inner, target) implies found.contains(
                target,
            ) by {
                assert(entries_hold(style, entries, at, target));
            }
            assert(decreases_to!(entries => entries[entries.len() - 1]));
            assert(decreases_to!(entry => entry.contents));
            assert(decreases_to!(entry.contents => entry.contents->0));
            lemma_tree_adds_nothing(style, found, entry.contents->0, inner);
        }
    }
}

proof fn lemma_tree_adds_nothing(
    style: PathStyle,
    found: Seq<Seq<char>>,
    tree: DirTree,
    at: Seq<char>,
)
    requires
        forall|target: Seq<char>| #[trigger]
            tree_holds(style, tree, at, target) ==> found.contains(target),
    ensures
        with_tree(style, found, tree, at) == found,
    decreases tree,
{
    if let DirTree::Listed(listing) = tree {
        assert forall|target: Seq<char>| #[trigger]
            entries_hold(style, listing.entries@, at, target) implies found.contains(target) by {
            assert(tree_holds(style, tree, at, target));
        }
        assert(decreases_to!(tree => tree->Listed_0));
        assert(decreases_to!(listing => listing.entries));
        assert(decreases_to!(listing.entries => listing.entries@));
        lemma_entries_add_nothing(style, found, listing.entries@, at);
        if listing.has_pubspec && listing.lib is Some {
            assert forall|target: Seq<char>| #[trigger]
                lib_holds(style, listing.lib->0@, at, target) implies found.contains(target) by {
                assert(tree_holds(style, tree, at, target));
            }
            lemma_lib_adds_nothing(style, found, listing.lib->0@, at);
        }
    }
}

/// Searching an unchanged directory a second time finds nothing more.
pub proof fn law_second_search_finds_nothing(
    style: PathStyle,
    found: Seq<Seq<char>>,
    tree: DirTree,
    at: Seq<char>,
)
    ensures
        with_tree(style, with_tree(style, found, tree, at), tree, at) == with_tree(
            style,
            found,
            tree,
            at,
        ),
{
    let once = with_tree(style, found, tree, at);
    assert forall|target: Seq<char>| #[trigger]
        tree_holds(style, tree, at, target) implies once.contains(target) by {
        law_search_finds_all_targets(style, found, tree, at, target);
    }
    lemma_tree_adds_nothing(style, once, tree, at);
}

/// Every name in a `lib` directory is one that a file can have.
pub open spec fn lib_is_named(style: PathStyle, entries: Seq<LibEntry>) -> bool {
    forall|i: int|
        0 <= i < entries.len() && (#[trigger] entries[i]).name is Some ==> is_file_name(
            style,
            entries[i].name->0@,
        )
}

/// Every name in a directory, and below it, is one that a file can have.
pub open spec fn tree_is_named(style: PathStyle, tree: DirTree) -> bool
    decreases tree,
{
    match tree {
        DirTree::Unreadable => true,
        DirTree::Listed(listing) => {
            &&& entries_are_named(style, listing.entries@)
            &&& listing.lib is Some ==> lib_is_named(style, listing.lib->0@)
        },
    }
}

/// Every name among the entries, and below them, is one that a file can have.
pub open spec fn entries_are_named(style: PathStyle, entries: Seq<DirEntry>) -> bool
    decreases entries,
{
    forall|i: int|
        0 <= i < entries.len() ==> ((#[trigger] entries[i]).name is Some ==> is_file_name(
            style,
            entries[i].name->0@,
        )) && (entries[i].contents is Some ==> tree_is_named(style, entries[i].contents->0))
}

/// A `lib` directory holds the entry point `file`.
pub open spec fn lib_has(entries: Seq<LibEntry>, file: Seq<char>) -> bool {
    exists|i: int|
        0 <= i < entries.len() && is_target_entry(#[trigger] entries[i]) && entries[i].name->0@
            == file
}

/// The directory at `package` is a package with the entry point `file`: it holds a pubspec, and
/// its `lib` directory holds the file. It is the directory at `at`, or below it.
pub open spec fn package_in(
    style: PathStyle,
    tree: DirTree,
    at: Seq<char>,
    package: Seq<char>,
    file: Seq<char>,
) -> bool
    decreases tree,
{
    match tree {
        DirTree::Unreadable => false,
        DirTree::Listed(listing) => {
            ||| package_below(style, listing.entries@, at, package, file)
            ||| package == at && listing.has_pubspec && listing.lib is Some && lib_has(
                listing.lib->0@,
                file,
            )
        },
    }
}

/// The directory at `package` is a package with the entry point `file`, below one of the entries
/// of the directory at `at`.
pub open spec fn package_below(
    style: PathStyle,
    entries: Seq<DirEntry>,
    at: Seq<char>,
    package: Seq<char>,
    file: Seq<char>,
) -> bool
    decreases entries,
{
    exists|i: int|
        0 <= i < entries.len() && is_searched(#[trigger] entries[i]) && package_in(
            style,
            entries[i].contents->0,
            path_in(style, at, entries[i].name->0@),
            package,
            file,
        )
}

/// `target` is the path of the entry point `file` of the package at `package`.
pub open spec fn is_target_of(
    style: PathStyle,
    target: Seq<char>,
    package: Seq<char>,
    file: Seq<char>,
) -> bool {
    &&& is_plain_dir(style, package)
    &&& is_file_name(style, file)
    &&& is_entry_point(file)
    &&& target == target_path(style, package, file)
}

/// Everything that is found in a worktree is the path of an entry point of a package that the
/// worktree holds.
pub proof fn law_found_targets_are_targets(
    style: PathStyle,
    tree: DirTree,
    at: Seq<char>,
    target: Seq<char>,
)
    requires
        tree_is_named(style, tree),
        is_plain_dir(style, at),
        tree_holds(style, tree, at, target),
    ensures
        exists|package: Seq<char>, file: Seq<char>|
            is_target_of(style, target, package, file) && #[trigger] package_in(
                style,
                tree,
                at,
                package,
                file,
            ),
    decreases tree,
{
    if let DirTree::Listed(listing) = tree {
        let entries = listing.entries@;
        if entries_hold(style, entries, at, target) {
            let i = choose|i: int|
                0 <= i < entries.len() && is_searched(#[trigger] entries[i]) && tree_holds(
                    style,
                    entries[i].contents->0,
                    path_in(style, at, entries[i].name->0@),
                    target,
                );
            let entry = entries[i];
            let name = entry.name->0@;
            reveal_strlit(".");
            if name[0] == '.' {
                assert(name.subrange(0, 1) =~= "."@);
                assert(begins(name, "."@));
            }
            lemma_child_is_plain(style, at, name);
            assert(decreases_to!(tree => tree->Listed_0));
            assert(decreases_to!(listing => listing.entries));
            assert(decreases_to!(listing.entries => listing.entries@));
            assert(decreases_to!(entries => entries[i]));
            assert(decreases_to!(entry => entry.contents));
            assert(decreases_to!(entry.contents => entry.contents->0));
            law_found_targets_are_targets(
                style,
                entry.contents->0,
                path_in(style, at, name),
                target,
            );
            let (package, file) = choose|package: Seq<char>, file: Seq<char>|
                is_target_of(style, target, package, file) && #[trigger] package_in(
                    style,
                    entry.contents->0,
                    path_in(style, at, name),
                    package,
                    file,
                );
            assert(package_below(style, entries, at, package, file));
            assert(package_in(style, tree, at, package, file));
        } else {
            let lib = listing.lib->0@;
            let i = choose|i: int|
                0 <= i < lib.len() && is_target_entry(#[trigger] lib[i]) && target == target_path(
                    style,
                    at,
                    lib[i].name->0@,
                );
            assert(lib_has(lib, lib[i].name->0@));
            assert(is_target_of(style, target, at, lib[i].name->0@));
            assert(package_in(style, tree, at, at, lib[i].name->0@));
        }
    }
}

/// The parts of a target's path: its file, the directory that holds it, and the package.
pub proof fn law_target_path_parts(style: PathStyle, package: Seq<char>, file: Seq<char>)
    requires
        is_plain_dir(style, package),
        is_file_name(style, file),
        is_entry_point(file),
    ensures
        name_of(style, target_path(style, package, file)) == Some(file),
        parent_of(style, target_path(style, package, file)) == Some(
            path_in(style, package, LIB_DIR@),
        ),
        parent_of(style, path_in(style, package, LIB_DIR@)) == Some(package),
{
    reveal_strlit("lib");
    reveal_strlit("main");
    assert(file.subrange(0, 4)[0] == 'm');
    assert(file[0] == 'm');
    assert(is_file_name(style, LIB_DIR@));
    law_child_path(style, package, LIB_DIR@);
    lemma_child_is_plain(style, package, LIB_DIR@);
    law_child_path(style, path_in(style, package, LIB_DIR@), file);
}

/// `target` is an entry point of a package in one of the worktrees.
pub open spec fn worktrees_hold(
    style: PathStyle,
    worktrees: Seq<Worktree>,
    target: Seq<char>,
) -> bool {
    exists|i: int|
        0 <= i < worktrees.len() && tree_holds(
            style,
            (#[trigger] worktrees[i]).root,
            Seq::empty(),
            target,
        )
}

/// A scan of the worktrees finds each entry point that one of them holds, once, and
/// nothing else.
pub proof fn law_scan_finds_all_targets_once(
    style: PathStyle,
    worktrees: Seq<Worktree>,
    target: Seq<char>,
)
    ensures
        with_worktrees(style, worktrees).no_duplicates(),
        with_worktrees(style, worktrees).contains(target) <==> worktrees_hold(
            style,
            worktrees,
            target,
        ),
    decreases worktrees.len(),
{
    if worktrees.len() > 0 {
        let rest = worktrees.drop_last();
        let last = worktrees[worktrees.len() - 1];
        law_scan_finds_all_targets_once(style, rest, target);
        law_search_finds_all_targets(
            style,
            with_worktrees(style, rest),
            last.root,
            Seq::empty(),
            target,
        );
        law_search_keeps_found_targets(style, with_worktrees(style, rest), last.root, Seq::empty());
        if worktrees_hold(style, rest, target) {
            let i = choose|i: int|
                0 <= i < rest.len() && tree_holds(
                    style,
                    (#[trigger] rest[i]).root,
                    Seq::empty(),
                    target,
                );
            assert(worktrees[i] == rest[i]);
        }
        if worktrees_hold(style, worktrees, target) {
            let i = choose|i: int|
                0 <= i < worktrees.len() && tree_holds(
                    style,
                    (#[trigger] worktrees[i]).root,
                    Seq::empty(),
                    target,
                );
            if i < rest.len() {
                assert(rest[i] == worktrees[i]);
                assert(worktrees_hold(style, rest, target));
            }
        }
    }
}

/// A directory is passed over exactly where its name begins with a dot, or is `build`.
pub proof fn law_directories_are_passed_over_by_name(name: Seq<char>)
    ensures
        !may_hold_packages(name) <==> name.len() > 0 && name[0] == '.' || name == "build"@,
{
    reveal_strlit(".");
    reveal_strlit(".dart_tool");
    law_begins_by_characters(name, "."@);
    if name == ".dart_tool"@ {
        assert(name[0] == '.');
    }
    if name.len() > 0 && name[0] == '.' {
        assert("."@[0] == '.');
        assert(begins(name, "."@));
    }
    if begins(name, "."@) {
        assert(name[0] == "."@[0]);
    }
}

/// Every name of `main`, anything, and `.dart` is an entry point's.
pub proof fn law_main_files_are_entry_points(middle: Seq<char>)
    ensures
        is_entry_point("main"@ + middle + ".dart"@),
{
    let name = "main"@ + middle + ".dart"@;
    reveal_strlit("main");
    reveal_strlit(".dart");
    let n = name.len() as int;
    assert(name.subrange(0, 4) =~= "main"@);
    assert(name.subrange(n - 5, n) =~= ".dart"@);
}

/// Only names of `main`, anything, and `.dart` are entry points'.
pub proof fn law_only_main_files_are_entry_points(name: Seq<char>)
    requires
        is_entry_point(name),
    ensures
        exists|middle: Seq<char>| name == #[trigger] ("main"@ + middle + ".dart"@),
{
    reveal_strlit("main");
    reveal_strlit(".dart");
    law_begins_by_characters(name, "main"@);
    law_ends_by_characters(name, ".dart"@);
    let n = name.len() as int;
    assert(name[0] == "main"@[0] && name[1] == "main"@[1] && name[2] == "main"@[2] && name[3]
        == "main"@[3]);
    assert(name[n - 5 + 0] == ".dart"@[0] && name[n - 5 + 1] == ".dart"@[1] && name[n - 5 + 2]
        == ".dart"@[2] && name[n - 5 + 3] == ".dart"@[3] && name[n - 5 + 4] == ".dart"@[4]);
    assert(n >= 9);
    let middle = name.subrange(4, n - 5);
    assert(name =~= "main"@ + middle + ".dart"@);
}

/// The path of an entry point: below its package's path, in `lib`.
pub proof fn law_target_is_in_lib(package: Seq<char>, file: Seq<char>)
    ensures
        target_path(PathStyle::Posix, Seq::empty(), file) == "lib/"@ + file,
        target_path(PathStyle::Windows, Seq::empty(), file) == "lib\\"@ + file,
        package.len() > 0 ==> target_path(PathStyle::Posix, package, file) == package + "/lib/"@
            + file,
        package.len() > 0 ==> target_path(PathStyle::Windows, package, file) == package
            + "\\lib\\"@ + file,
{
    reveal_strlit("lib");
    reveal_strlit("lib/");
    reveal_strlit("lib\\");
    reveal_strlit("/lib/");
    reveal_strlit("\\lib\\");
    assert(target_path(PathStyle::Posix, Seq::empty(), file) =~= "lib/"@ + file);
    assert(target_path(PathStyle::Windows, Seq::empty(), file) =~= "lib\\"@ + file);
    if package.len() > 0 {
        assert(target_path(PathStyle::Posix, package, file) =~= package + "/lib/"@ + file);
        assert(target_path(PathStyle::Windows, package, file) =~= package + "\\lib\\"@ + file);
    }
}

/// Every entry point of a package is found: every file in the `lib` directory beside a pubspec
/// whose name is `main`, anything, and `.dart`.
pub proof fn law_entry_points_are_found(
    style: PathStyle,
    found: Seq<Seq<char>>,
    listing: DirListing,
    at: Seq<char>,
    j: int,
    middle: Seq<char>,
)
    requires
        listing.has_pubspec,
        listing.lib is Some,
        0 <= j < listing.lib->0@.len(),
        listing.lib->0@[j].is_file,
        listing.lib->0@[j].name matches Some(name) && name@ == "main"@ + middle + ".dart"@,
    ensures
        with_tree(style, found, DirTree::Listed(listing), at).contains(
            target_path(style, at, "main"@ + middle + ".dart"@),
        ),
{
    let file = "main"@ + middle + ".dart"@;
    let tree = DirTree::Listed(listing);
    law_main_files_are_entry_points(middle);
    assert(is_target_entry(listing.lib->0@[j]));
    assert(lib_holds(style, listing.lib->0@, at, target_path(style, at, file)));
    law_search_finds_all_targets(style, found, tree, at, target_path(style, at, file));
}

/// Every directory whose name does not begin with a dot and is not `build` is searched: what a
/// search of it finds, a search of the directory above it finds too.
pub proof fn law_directories_are_searched(
    style: PathStyle,
    found: Seq<Seq<char>>,
    listing: DirListing,
    at: Seq<char>,
    i: int,
    name: String,
    below: DirTree,
    target: Seq<char>,
)
    requires
        0 <= i < listing.entries@.len(),
        listing.entries@[i].name == Some(name),
        listing.entries@[i].contents == Some(below),
        name@.len() > 0 ==> name@[0] != '.',
        name@ != "build"@,
        with_tree(style, Seq::empty(), below, path_in(style, at, name@)).contains(target),
    ensures
        with_tree(style, found, DirTree::Listed(listing), at).contains(target),
{
    let tree = DirTree::Listed(listing);
    let none = Seq::<Seq<char>>::empty();
    law_directories_are_passed_over_by_name(name@);
    law_search_finds_all_targets(style, none, below, path_in(style, at, name@), target);
    assert(!none.contains(target));
    assert(is_searched(listing.entries@[i]));
    assert(entries_hold(style, listing.entries@, at, target));
    law_search_finds_all_targets(style, found, tree, at, target);
}

/// Nothing else is found: what a search of a directory finds was found before, or a search of
/// one of the directories in it finds it, or it is an entry point in the `lib` directory beside
/// a pubspec.
pub proof fn law_nothing_else_is_found(
    style: PathStyle,
    found: Seq<Seq<char>>,
    listing: DirListing,
    at: Seq<char>,
    target: Seq<char>,
)
    requires
        with_tree(style, found, DirTree::Listed(listing), at).contains(target),
        !found.contains(target),
    ensures
        (exists|i: int|
            {
                let entry = #[trigger] listing.entries@[i];
                &&& 0 <= i < listing.entries@.len()
                &&& entry.name is Some && entry.contents is Some
                &&& !(entry.name->0@.len() > 0 && entry.name->0@[0] == '.')
                &&& entry.name->0@ != "build"@
                &&& with_tree(
                    style,
                    Seq::empty(),
                    entry.contents->0,
                    path_in(style, at, entry.name->0@),
                ).contains(target)
            }) || listing.has_pubspec && listing.lib is Some && (exists|j: int, middle: Seq<char>|
            {
                let entry = listing.lib->0@[j];
                let file = #[trigger] ("main"@ + middle + ".dart"@);
                &&& 0 <= j < listing.lib->0@.len()
                &&& entry.is_file && entry.name is Some && entry.name->0@ == file
                &&& #[trigger] target_path(style, at, listing.lib->0@[j].name->0@) == target
            }),
{
    let tree = DirTree::Listed(listing);
    let none = Seq::<Seq<char>>::empty();
    law_search_finds_all_targets(style, found, tree, at, target);
    if entries_hold(style, listing.entries@, at, target) {
        let entries = listing.entries@;
        let i = choose|i: int|
            0 <= i < entries.len() && is_searched(#[trigger] entries[i]) && tree_holds(
                style,
                entries[i].contents->0,
                path_in(style, at, entries[i].name->0@),
                target,
            );
        let entry = entries[i];
        law_directories_are_passed_over_by_name(entry.name->0@);
        law_search_finds_all_targets(
            style,
            none,
            entry.contents->0,
            path_in(style, at, entry.name->0@),
            target,
        );
    } else {
        let lib = listing.lib->0@;
        let j = choose|j: int|
            0 <= j < lib.len() && is_target_entry(#[trigger] lib[j]) && target == target_path(
                style,
                at,
                lib[j].name->0@,
            );
        law_only_main_files_are_entry_points(lib[j].name->0@);
        let middle = choose|middle: Seq<char>|
            lib[j].name->0@ == #[trigger] ("main"@ + middle + ".dart"@);
        assert(target_path(style, at, listing.lib->0@[j].name->0@) == target);
        assert(lib[j].name->0@ == "main"@ + middle + ".dart"@);
    }
}

/// A directory that cannot be read holds nothing.
pub proof fn law_unreadable_directory_holds_nothing(
    style: PathStyle,
    found: Seq<Seq<char>>,
    at: Seq<char>,
)
    ensures
        with_tree(style, found, DirTree::Unreadable, at) == found,
{
}

/// What lies below a directory is found before its own entry points, and what lies below one of
/// its entries before what lies below the next.
pub proof fn law_search_goes_down_first(
    style: PathStyle,
    found: Seq<Seq<char>>,
    listing: DirListing,
    at: Seq<char>,
    k: int,
)
    requires
        0 <= k <= listing.entries@.len(),
    ensures
        with_entries(style, found, listing.entries@.take(k), at).is_prefix_of(
            with_tree(style, found, DirTree::Listed(listing), at),
        ),
        with_entries(style, found, Seq::empty(), at) == found,
    decreases listing.entries@.len() - k,
{
    let entries = listing.entries@;
    let so_far = with_entries(style, found, entries.take(k), at);
    if k == entries.len() {
        assert(entries.take(k) =~= entries);
        if listing.has_pubspec && listing.lib is Some {
            lemma_lib_keeps(style, so_far, listing.lib->0@, at);
        } else {
            lemma_prefix_of_itself(so_far);
        }
    } else {
        law_search_goes_down_first(style, found, listing, at, k + 1);
        let next = with_entries(style, found, entries.take(k + 1), at);
        assert(entries.take(k + 1).drop_last() =~= entries.take(k));
        let entry = entries[k];
        assert(entries.take(k + 1).last() == entry);
        if is_searched(entry) {
            law_search_keeps_found_targets(
                style,
                so_far,
                entry.contents->0,
                path_in(style, at, entry.name->0@),
            );
        } else {
            lemma_prefix_of_itself(so_far);
        }
        lemma_prefix_chain(
            so_far,
            next,
            with_tree(style, found, DirTree::Listed(listing), at),
        );
    }
}

/// A scan finds what searches of the worktrees find, each from its root.
pub proof fn law_scan_searches_all_worktrees(
    style: PathStyle,
    worktrees: Seq<Worktree>,
    target: Seq<char>,
)
    ensures
        with_worktrees(style, worktrees).contains(target) <==> exists|i: int|
            0 <= i < worktrees.len() && with_tree(
                style,
                Seq::empty(),
                (#[trigger] worktrees[i]).root,
                Seq::empty(),
            ).contains(target),
{
    law_scan_finds_all_targets_once(style, worktrees, target);
    let none = Seq::<Seq<char>>::empty();
    assert forall|i: int| 0 <= i < worktrees.len() implies (with_tree(
        style,
        none,
        (#[trigger] worktrees[i]).root,
        Seq::empty(),
    ).contains(target) <==> tree_holds(style, worktrees[i].root, Seq::empty(), target)) by {
        law_search_finds_all_targets(style, none, worktrees[i].root, Seq::empty(), target);
    }
}

/// The entry points of a package are found in the order in which its `lib` directory lists them.
pub proof fn law_entry_points_are_found_in_order(
    style: PathStyle,
    found: Seq<Seq<char>>,
    entries: Seq<LibEntry>,
    package: Seq<char>,
    k: int,
)
    requires
        0 <= k <= entries.len(),
    ensures
        with_lib(style, found, entries.take(k), package).is_prefix_of(
            with_lib(style, found, entries, package),
        ),
    decreases entries.len() - k,
{
    let so_far = with_lib(style, found, entries.take(k), package);
    if k == entries.len() {
        assert(entries.take(k) =~= entries);
        lemma_prefix_of_itself(so_far);
    } else {
        law_entry_points_are_found_in_order(style, found, entries, package, k + 1);
        let next = with_lib(style, found, entries.take(k + 1), package);
        assert(entries.take(k + 1).drop_last() =~= entries.take(k));
        assert(entries.take(k + 1).last() == entries[k]);
        if is_target_entry(entries[k]) {
            let t = target_path(style, package, entries[k].name->0@);
            lemma_with_target(so_far, t, t);
        } else {
            lemma_prefix_of_itself(so_far);
        }
        lemma_prefix_chain(so_far, next, with_lib(style, found, entries, package));
    }
}

} // verus!
