//! The settings of the application: appearance, favourites, and the tags
//! of the notes.

use crate::order::{increasing, insert_increasing};
use crate::table::Table;
use vstd::prelude::*;

verus! {

/// How a notebook is shown.
#[derive(Clone, Debug, PartialEq, Eq)]
pub struct NotebookStyle {
    pub icon: String,
    pub color: String,
}

/// The settings. `tags` holds the tags of each note that has any, by the
/// note's path; `notebook_styles` holds the style of each notebook that
/// has its own, by the notebook's path.
#[derive(Clone, Debug, PartialEq, Eq)]
pub struct AppSettings {
    pub font_family: String,
    pub font_size: u32,
    pub sidebar_width: u32,
    pub notes_width: u32,
    pub favorites: Vec<String>,
    pub tags: Table<Vec<String>>,
    pub notebook_styles: Table<NotebookStyle>,
    pub pinned_folders: Vec<String>,
    pub auto_save: bool,
}

/// Whether notes are saved without being asked to, where the settings do
/// not say.
pub fn default_auto_save() -> (r: bool)
    ensures
        r,
{
    true
}

impl Default for AppSettings {
    fn default() -> (settings: AppSettings)
        ensures
            settings.font_family@ == "'SF Mono', 'Fira Code', 'Consolas', monospace"@,
            settings.font_size == 14,
            settings.sidebar_width == 200,
            settings.notes_width == 200,
            settings.favorites@.len() == 0,
            settings.tags@ == Map::<Seq<char>, Vec<String>>::empty(),
            settings.notebook_styles@ == Map::<Seq<char>, NotebookStyle>::empty(),
            settings.pinned_folders@.len() == 0,
            settings.auto_save,
    {
        AppSettings {
            font_family: "'SF Mono', 'Fira Code', 'Consolas', monospace".to_owned(),
            font_size: 14,
            sidebar_width: 200,
            notes_width: 200,
            favorites: Vec::new(),
            tags: Table::new(),
            notebook_styles: Table::new(),
            pinned_folders: Vec::new(),
            auto_save: default_auto_save(),
        }
    }
}

/// Looks `s` up in `list`.
pub fn contains_string(list: &Vec<String>, s: &str) -> (found: bool)
    ensures
        found == list.deep_view().contains(s@),
{
    let mut i: usize = 0;
    while i < list.len()
        invariant
            i <= list.len(),
            forall|k: int| 0 <= k < i ==> list.deep_view()[k] != s@,
        decreases list.len() - i,
    {
        if list[i].as_str().eq(s) {
            assert(list.deep_view()[i as int] == s@);
            return true;
        }
        i += 1;
    }
    false
}

/// A copy of `list`.
pub fn copy_strings(list: &Vec<String>) -> (copy: Vec<String>)
    ensures
        copy.deep_view() == list.deep_view(),
{
    let mut copy: Vec<String> = Vec::new();
    let mut i: usize = 0;
    while i < list.len()
        invariant
            i <= list.len(),
            copy.deep_view() == list.deep_view().take(i as int),
        decreases list.len() - i,
    {
        let ghost before = copy.deep_view();
        copy.push(list[i].clone());
        assert(copy.deep_view() =~= before.push(list.deep_view()[i as int]));
        assert(list.deep_view().take(i + 1) =~= list.deep_view().take(i as int).push(
            list.deep_view()[i as int],
        ));
        i += 1;
    }
    assert(list.deep_view().take(list.len() as int) =~= list.deep_view());
    copy
}

/// `list` without every occurrence of `s`.
pub fn without_string(list: &Vec<String>, s: &str) -> (rest: Vec<String>)
    ensures
        rest.deep_view() == list.deep_view().filter(|x: Seq<char>| x != s@),
{
    let ghost all = list.deep_view();
    let ghost keep = |x: Seq<char>| x != s@;
    let mut rest: Vec<String> = Vec::new();
    let mut i: usize = 0;
    assert(all.take(0) =~= Seq::empty());
    assert(Seq::<Seq<char>>::empty().filter(keep) =~= Seq::empty()) by {
        reveal(Seq::filter);
    }
    while i < list.len()
        invariant
            i <= list.len(),
            all == list.deep_view(),
            keep == |x: Seq<char>| x != s@,
            rest.deep_view() == all.take(i as int).filter(keep),
        decreases list.len() - i,
    {
        proof {
            let before = all.take(i as int);
            assert(all.take(i + 1) =~= before.push(all[i as int]));
            before.lemma_filter_push(all[i as int], keep);
        }
        if !list[i].as_str().eq(s) {
            let ghost old_rest = rest.deep_view();
            rest.push(list[i].clone());
            assert(rest.deep_view() =~= old_rest.push(all[i as int]));
        }
        i += 1;
    }
    assert(all.take(list.len() as int) =~= all);
    rest
}

/// The favourites after `note_path` was toggled: without the note if it
/// was among them, with the note at the end if it was not.
pub open spec fn toggled(favorites: Seq<Seq<char>>, note_path: Seq<char>) -> Seq<Seq<char>> {
    if favorites.contains(note_path) {
        favorites.filter(|x: Seq<char>| x != note_path)
    } else {
        favorites.push(note_path)
    }
}

/// Makes the note a favourite, or ends its being one.
pub fn toggle_favorite(settings: &mut AppSettings, note_path: String)
    ensures
        final(settings).favorites.deep_view() == toggled(
            old(settings).favorites.deep_view(),
            note_path@,
        ),
        final(settings).font_family == old(settings).font_family,
        final(settings).font_size == old(settings).font_size,
        final(settings).sidebar_width == old(settings).sidebar_width,
        final(settings).notes_width == old(settings).notes_width,
        final(settings).tags == old(settings).tags,
        final(settings).notebook_styles == old(settings).notebook_styles,
        final(settings).pinned_folders == old(settings).pinned_folders,
        final(settings).auto_save == old(settings).auto_save,
{
    if contains_string(&settings.favorites, note_path.as_str()) {
        settings.favorites = without_string(&settings.favorites, note_path.as_str());
    } else {
        let ghost before = settings.favorites.deep_view();
        settings.favorites.push(note_path);
        assert(settings.favorites.deep_view() =~= before.push(note_path@));
    }
}

/// The favourites.
pub fn get_favorites(settings: &AppSettings) -> (favorites: Vec<String>)
    ensures
        favorites.deep_view() == settings.favorites.deep_view(),
{
    copy_strings(&settings.favorites)
}

/// Gives the note the tags `tags`. A note that is left without tags has no
/// entry in the table.
pub fn set_note_tags(settings: &mut AppSettings, note_path: String, tags: Vec<String>)
    ensures
        tags@.len() == 0 ==> final(settings).tags@ == old(settings).tags@.remove(note_path@),
        tags@.len() > 0 ==> final(settings).tags@ == old(settings).tags@.insert(note_path@, tags),
        final(settings).font_family == old(settings).font_family,
        final(settings).font_size == old(settings).font_size,
        final(settings).sidebar_width == old(settings).sidebar_width,
        final(settings).notes_width == old(settings).notes_width,
        final(settings).favorites == old(settings).favorites,
        final(settings).notebook_styles == old(settings).notebook_styles,
        final(settings).pinned_folders == old(settings).pinned_folders,
        final(settings).auto_save == old(settings).auto_save,
{
    if tags.len() == 0 {
        let _ = settings.tags.remove(note_path.as_str());
    } else {
        settings.tags.insert(note_path, tags);
    }
}

/// The tags of a note by the tag table `tags`: none if the note has no
/// entry.
pub open spec fn note_tags(tags: Map<Seq<char>, Vec<String>>, note_path: Seq<char>) -> Seq<
    Seq<char>,
> {
    if tags.contains_key(note_path) {
        tags[note_path].deep_view()
    } else {
        Seq::empty()
    }
}

/// The tags of the note.
pub fn get_note_tags(settings: &AppSettings, note_path: &str) -> (tags: Vec<String>)
    ensures
        tags.deep_view() == note_tags(settings.tags@, note_path@),
{
    match settings.tags.get(note_path) {
        Some(tags) => copy_strings(tags),
        None => {
            let tags: Vec<String> = Vec::new();
            assert(tags.deep_view() =~= Seq::empty());
            tags
        },
    }
}

/// Whether `tag` is among the tags of one of the first `n` entries.
pub open spec fn tag_in_use(values: Seq<Vec<String>>, n: int, tag: Seq<char>) -> bool {
    exists|i: int| 0 <= i < n && (#[trigger] values[i]).deep_view().contains(tag)
}

/// Every tag that some note has, once each, in increasing order.
pub fn get_all_tags(settings: &AppSettings) -> (all: Vec<String>)
    ensures
        increasing(all.deep_view()),
        forall|t: Seq<char>|
            all.deep_view().contains(t) <==> tag_in_use(
                settings.tags.values(),
                settings.tags.values().len() as int,
                t,
            ),
{
    let mut all: Vec<String> = Vec::new();
    let ghost values = settings.tags.values();
    let n = settings.tags.len();
    let mut i: usize = 0;
    assert(all.deep_view() =~= Seq::empty());
    while i < n
        invariant
            i <= n,
            settings.tags.wf(),
            n == settings.tags.keys().len(),
            values == settings.tags.values(),
            n == values.len(),
            increasing(all.deep_view()),
            forall|t: Seq<char>| all.deep_view().contains(t) <==> tag_in_use(values, i as int, t),
        decreases n - i,
    {
        let tags = settings.tags.value_at(i);
        let ghost at_entry = all.deep_view();
        let mut j: usize = 0;
        while j < tags.len()
            invariant
                j <= tags.len(),
                i < n,
                n == values.len(),
                *tags == values[i as int],
                increasing(all.deep_view()),
                forall|t: Seq<char>| at_entry.contains(t) <==> tag_in_use(values, i as int, t),
                forall|t: Seq<char>|
                    all.deep_view().contains(t) <==> (at_entry.contains(t) || tags.deep_view().take(
                        j as int,
                    ).contains(t)),
            decreases tags.len() - j,
        {
            let ghost before = all.deep_view();
            insert_increasing(&mut all, tags[j].as_str());
            proof {
                let seen = tags.deep_view().take(j as int);
                let next = tags.deep_view().take(j + 1);
                assert(next =~= seen.push(tags.deep_view()[j as int]));
                assert forall|t: Seq<char>| all.deep_view().contains(t) <==> (at_entry.contains(t)
                    || next.contains(t)) by {
                    assert(before.contains(t) <==> (at_entry.contains(t) || seen.contains(t)));
                    assert(all.deep_view().contains(t) <==> (before.contains(t) || t
                        == tags.deep_view()[j as int]));
                    if next.contains(t) {
                        let k = choose|k: int| 0 <= k < next.len() && next[k] == t;
                        if k < j {
                            assert(seen[k] == t);
                        }
                    }
                    if seen.contains(t) {
                        let k = choose|k: int| 0 <= k < seen.len() && seen[k] == t;
                        assert(next[k] == t);
                    }
                    if t == tags.deep_view()[j as int] {
                        assert(next[j as int] == t);
                    }
                }
            }
            j += 1;
        }
        proof {
            assert(tags.deep_view().take(tags.len() as int) =~= tags.deep_view());
            assert forall|t: Seq<char>| all.deep_view().contains(t) <==> tag_in_use(
                values,
                i + 1,
                t,
            ) by {
                if tag_in_use(values, i + 1, t) {
                    let k = choose|k: int|
                        0 <= k < i + 1 && (#[trigger] values[k]).deep_view().contains(t);
                    if k < i {
                        assert(tag_in_use(values, i as int, t));
                    }
                }
                if tag_in_use(values, i as int, t) {
                    let k = choose|k: int|
                        0 <= k < i && (#[trigger] values[k]).deep_view().contains(t);
                    assert(values[k].deep_view().contains(t));
                }
                if tags.deep_view().contains(t) {
                    assert(values[i as int].deep_view().contains(t));
                }
            }
        }
        i += 1;
    }
    all
}

/// The paths of the notes that have the tag `tag`, in the order of the
/// tag table.
pub fn get_notes_by_tag(settings: &AppSettings, tag: &str) -> (notes: Vec<String>)
    ensures
        forall|p: Seq<char>|
            notes.deep_view().contains(p) <==> settings.tags@.contains_key(p) && settings.tags@[p].deep_view().contains(
                tag@,
            ),
        notes.deep_view().no_duplicates(),
{
    let mut notes: Vec<String> = Vec::new();
    let ghost keys = settings.tags.keys();
    let ghost values = settings.tags.values();
    let ghost mut origin: Seq<int> = Seq::empty();
    let n = settings.tags.len();
    let mut i: usize = 0;
    while i < n
        invariant
            i <= n,
            settings.tags.wf(),
            n == keys.len(),
            keys == settings.tags.keys(),
            values == settings.tags.values(),
            origin.len() == notes.len(),
            forall|k: int|
                0 <= k < origin.len() ==> 0 <= #[trigger] origin[k] < i && notes.deep_view()[k]
                    == keys[origin[k]] && values[origin[k]].deep_view().contains(tag@),
            forall|k: int, m: int| 0 <= k < m < origin.len() ==> origin[k] < origin[m],
            forall|e: int|
                0 <= e < i && (#[trigger] values[e]).deep_view().contains(tag@)
                    ==> notes.deep_view().contains(keys[e]),
        decreases n - i,
    {
        if contains_string(settings.tags.value_at(i), tag) {
            let ghost before = notes.deep_view();
            notes.push(settings.tags.key_at(i).clone());
            proof {
                origin = origin.push(i as int);
                let after = notes.deep_view();
                assert(after =~= before.push(keys[i as int]));
                assert forall|e: int|
                    0 <= e < i + 1 && (#[trigger] values[e]).deep_view().contains(
                        tag@,
                    ) implies after.contains(keys[e]) by {
                    if e < i {
                        let k = choose|k: int| 0 <= k < before.len() && before[k] == keys[e];
                        assert(after[k] == keys[e]);
                    } else {
                        assert(after[after.len() - 1] == keys[e]);
                    }
                }
            }
        }
        i += 1;
    }
    proof {
        let out = notes.deep_view();
        assert forall|p: Seq<char>| out.contains(p) <==> settings.tags@.contains_key(p)
            && settings.tags@[p].deep_view().contains(tag@) by {
            if out.contains(p) {
                let k = choose|k: int| 0 <= k < out.len() && out[k] == p;
                let e = origin[k];
                assert(keys[e] == p);
                assert(keys.contains(p));
                let e2 = keys.index_of(p);
                assert(keys[e2] == p);
                assert(e2 == e);
            }
            if settings.tags@.contains_key(p) && settings.tags@[p].deep_view().contains(tag@) {
                let e = keys.index_of(p);
                assert(keys[e] == p);
                assert(values[e].deep_view().contains(tag@));
            }
        }
        assert forall|a: int, b: int| 0 <= a < out.len() && 0 <= b < out.len() && a != b implies out[a]
            != out[b] by {
            assert(origin[a] != origin[b]) by {
                if a < b {
                    assert(origin[a] < origin[b]);
                } else {
                    assert(origin[b] < origin[a]);
                }
            }
        }
    }
    notes
}

} // verus!
