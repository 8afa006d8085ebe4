//! Notebooks: the folders under the notes root that are shown as
//! notebooks, and the order they are shown in.
//!
//! Reading a directory is left to the caller, who hands over its entries in
//! the order in which they were read.

use crate::order::{
    lemma_precedes_irreflexive, lemma_precedes_transitive, precedes, stands_before,
};
use crate::rank::{in_order, is_order, lemma_ranked_in_order, ranked, sort_ranked, Ranked};
use crate::text::starts_with_char;
use vstd::prelude::*;

verus! {

/// A notebook. `children` holds the notebooks inside it.
#[derive(Debug, PartialEq, Eq)]
pub struct Notebook {
    pub id: String,
    pub name: String,
    pub path: String,
    pub children: Vec<Notebook>,
}

/// An entry of a directory.
#[derive(Clone, Debug, PartialEq, Eq)]
pub struct FolderEntry {
    pub name: String,
    pub path: String,
    /// Whether the entry is known to be a directory.
    pub is_dir: bool,
}

pub ghost struct FolderEntryView {
    pub name: Seq<char>,
    pub path: Seq<char>,
    pub is_dir: bool,
}

impl View for FolderEntry {
    type V = FolderEntryView;

    open spec fn view(&self) -> FolderEntryView {
        FolderEntryView { name: self.name@, path: self.path@, is_dir: self.is_dir }
    }
}

impl DeepView for FolderEntry {
    type V = FolderEntryView;

    open spec fn deep_view(&self) -> FolderEntryView {
        self@
    }
}

/// How many entries of a directory are looked at for the notebooks inside
/// a notebook.
pub const MAX_NOTEBOOKS: usize = 50;

/// How many entries of the notes root are looked at.
pub const MAX_ENTRIES_TO_SCAN: usize = 200;

/// The names of folders that are never notebooks.
pub open spec fn ignored_name(name: Seq<char>) -> bool {
    ||| name == "."@
    ||| name == ".."@
    ||| name == ".git"@
    ||| name == ".svn"@
    ||| name == ".hg"@
    ||| name == "node_modules"@
    ||| name == "target"@
    ||| name == "build"@
    ||| name == "dist"@
    ||| name == ".Trash"@
    ||| name == ".Spotlight-V100"@
    ||| name == ".fseventsd"@
    ||| name == "Library"@
    ||| name == "Applications"@
    ||| name == ".cache"@
    ||| name == ".npm"@
    ||| name == ".cargo"@
    ||| name == ".rustup"@
    ||| name == ".local"@
    ||| name == ".config"@
    ||| name == "__pycache__"@
    ||| name == ".venv"@
    ||| name == "venv"@
    ||| name == ".tox"@
    ||| name == ".pytest_cache"@
    ||| name == ".DS_Store"@
    ||| name == "Thumbs.db"@
}

/// Whether a folder called `name` is passed over: its name begins with a
/// dot or is one of the ignored names.
pub open spec fn passed_over(name: Seq<char>) -> bool {
    (name.len() > 0 && name[0] == '.') || ignored_name(name)
}

/// Whether the entry is shown as a notebook.
pub open spec fn shown(entry: FolderEntryView) -> bool {
    entry.is_dir && !passed_over(entry.name)
}

fn is_ignored_name(name: &str) -> (r: bool)
    ensures
        r == ignored_name(name@),
{
    name.eq(".")
    || name.eq("..")
    || name.eq(".git")
    || name.eq(".svn")
    || name.eq(".hg")
    || name.eq("node_modules")
    || name.eq("target")
    || name.eq("build")
    || name.eq("dist")
    || name.eq(".Trash")
    || name.eq(".Spotlight-V100")
    || name.eq(".fseventsd")
    || name.eq("Library")
    || name.eq("Applications")
    || name.eq(".cache")
    || name.eq(".npm")
    || name.eq(".cargo")
    || name.eq(".rustup")
    || name.eq(".local")
    || name.eq(".config")
    || name.eq("__pycache__")
    || name.eq(".venv")
    || name.eq("venv")
    || name.eq(".tox")
    || name.eq(".pytest_cache")
    || name.eq(".DS_Store")
    || name.eq("Thumbs.db")
}

/// Says whether a folder called `name` is passed over.
pub fn is_passed_over(name: &str) -> (r: bool)
    ensures
        r == passed_over(name@),
{
    starts_with_char(name, '.') || is_ignored_name(name)
}

/// The lowercase form of `s`, as `str::to_lowercase` gives it. The mapping
/// is that of the Unicode standard and is not defined here.
pub uninterp spec fn lowercase(s: Seq<char>) -> Seq<char>;

/// Calls `str::to_lowercase`. Trusted: the result depends on the
/// characters of `s` alone.
#[verifier::external_body]
pub(crate) fn to_lowercase(s: &str) -> (lower: String)
    ensures
        lower@ == lowercase(s@),
{
    s.to_lowercase()
}

impl Ranked for Notebook {
    /// Notebooks are listed by name, in the order of strings, without
    /// regard to case.
    open spec fn before(&self, other: &Self) -> bool {
        precedes(lowercase(self.name@), lowercase(other.name@))
    }

    fn is_before(&self, other: &Self) -> (r: bool) {
        let a = to_lowercase(self.name.as_str());
        let b = to_lowercase(other.name.as_str());
        stands_before(a.as_str(), b.as_str())
    }
}

/// Notebooks that are put in order are listed by name: none stands behind
/// a notebook whose lowercase name comes after its own.
pub proof fn lemma_listed_by_name(found: Seq<Notebook>)
    ensures
        forall|i: int, j: int|
            #![trigger ranked(found)[i], ranked(found)[j]]
            0 <= i < j < ranked(found).len() ==> !precedes(
                lowercase(ranked(found)[j].name@),
                lowercase(ranked(found)[i].name@),
            ),
{
    assert(is_order::<Notebook>()) by {
        assert forall|a: Notebook| !(#[trigger] a.before(&a)) by {
            lemma_precedes_irreflexive(lowercase(a.name@));
        }
        assert forall|a: Notebook, b: Notebook, c: Notebook|
            #[trigger] a.before(&b) && #[trigger] b.before(&c) implies a.before(&c) by {
            lemma_precedes_transitive(
                lowercase(a.name@),
                lowercase(b.name@),
                lowercase(c.name@),
            );
        }
    }
    lemma_ranked_in_order(found);
    assert(in_order(ranked(found)));
}

/// Whether `notebook` is the notebook shown for `entry`: it is named like
/// the entry, identified by the entry's path, and holds one nameless
/// notebook that stands for what it may contain.
pub open spec fn notebook_for(notebook: Notebook, entry: FolderEntryView) -> bool {
    &&& notebook.id@ == entry.path
    &&& notebook.name@ == entry.name
    &&& notebook.path@ == entry.path
    &&& notebook.children@.len() == 1
    &&& notebook.children@[0].id@.len() == 0
    &&& notebook.children@[0].name@.len() == 0
    &&& notebook.children@[0].path@.len() == 0
    &&& notebook.children@[0].children@.len() == 0
}

/// Whether `notebooks` holds, in this order, the notebooks for `entries`.
pub open spec fn notebooks_for(notebooks: Seq<Notebook>, entries: Seq<FolderEntryView>) -> bool {
    notebooks.len() == entries.len() && forall|i: int|
        0 <= i < notebooks.len() ==> notebook_for(#[trigger] notebooks[i], entries[i])
}

/// The entries among the first `limit` of `entries` that are shown.
pub open spec fn selected(entries: Seq<FolderEntryView>, limit: int) -> Seq<FolderEntryView> {
    let considered = if entries.len() <= limit {
        entries
    } else {
        entries.take(limit)
    };
    considered.filter(|e: FolderEntryView| shown(e))
}

/// `list` cut down to its first `limit` elements.
pub open spec fn at_most<T>(list: Seq<T>, limit: int) -> Seq<T> {
    if list.len() <= limit {
        list
    } else {
        list.take(limit)
    }
}

fn notebook(entry: &FolderEntry) -> (notebook: Notebook)
    ensures
        notebook_for(notebook, entry@),
{
    let mut children: Vec<Notebook> = Vec::new();
    children.push(
        Notebook { id: String::new(), name: String::new(), path: String::new(), children: Vec::new() },
    );
    Notebook { id: entry.path.clone(), name: entry.name.clone(), path: entry.path.clone(), children }
}

fn pick(entries: &Vec<FolderEntry>, limit: usize) -> (picked: Vec<Notebook>)
    ensures
        notebooks_for(picked@, selected(entries.deep_view(), limit as int)),
{
    let ghost all = entries.deep_view();
    let ghost keep = |e: FolderEntryView| shown(e);
    let n = if entries.len() <= limit {
        entries.len()
    } else {
        limit
    };
    let ghost considered = at_most(all, limit as int);
    let mut picked: Vec<Notebook> = Vec::new();
    let mut i: usize = 0;
    assert(considered.take(0) =~= Seq::empty());
    assert(Seq::<FolderEntryView>::empty().filter(keep) =~= Seq::empty()) by {
        reveal(Seq::filter);
    }
    while i < n
        invariant
            i <= n,
            n <= entries.len(),
            n == considered.len(),
            all == entries.deep_view(),
            considered == at_most(all, limit as int),
            keep == |e: FolderEntryView| shown(e),
            notebooks_for(picked@, considered.take(i as int).filter(keep)),
        decreases n - i,
    {
        let entry = &entries[i];
        proof {
            let before = considered.take(i as int);
            assert(considered[i as int] == all[i as int]);
            assert(considered.take(i + 1) =~= before.push(considered[i as int]));
            before.lemma_filter_push(considered[i as int], keep);
        }
        if entry.is_dir && !is_passed_over(entry.name.as_str()) {
            picked.push(notebook(entry));
        }
        i += 1;
    }
    assert(considered.take(n as int) =~= considered);
    picked
}

/// The notebooks inside a notebook, from the entries of its directory.
/// Only the first fifty entries are looked at.
pub fn list_notebooks_simple(entries: &Vec<FolderEntry>) -> (notebooks: Vec<Notebook>)
    ensures
        exists|found: Seq<Notebook>|
            notebooks_for(found, selected(entries.deep_view(), MAX_NOTEBOOKS as int))
                && notebooks@ == #[trigger] ranked(found),
{
    let found = pick(entries, MAX_NOTEBOOKS);
    let ghost witness = found@;
    let notebooks = sort_ranked(found);
    assert(notebooks@ == ranked(witness));
    notebooks
}

/// The notebooks of the notes root, from the entries of its directory. The
/// first two hundred entries are looked at, and the first fifty notebooks
/// among them are listed.
pub fn list_notebooks_async(entries: &Vec<FolderEntry>) -> (notebooks: Vec<Notebook>)
    ensures
        exists|found: Seq<Notebook>|
            notebooks_for(
                found,
                at_most(
                    selected(entries.deep_view(), MAX_ENTRIES_TO_SCAN as int),
                    MAX_NOTEBOOKS as int,
                ),
            ) && notebooks@ == #[trigger] ranked(found),
{
    let mut found = pick(entries, MAX_ENTRIES_TO_SCAN);
    found.truncate(MAX_NOTEBOOKS);
    let ghost witness = found@;
    let notebooks = sort_ranked(found);
    assert(notebooks@ == ranked(witness));
    notebooks
}

} // verus!
