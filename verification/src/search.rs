//! Searching the notes for a phrase, without regard to case.
//!
//! Walking the notes and reading them is left to the caller, who hands
//! over the text files that could be read. A note is a hit if the phrase
//! occurs in its content or in its file name.

use crate::notebooks::{lowercase, to_lowercase};
use crate::paths::{split_name, stem};
use crate::rank::{in_order, is_order, lemma_ranked_in_order, ranked, sort_ranked, Ranked};
use crate::text::{replace_char, replaced};
use vstd::prelude::*;

verus! {

/// A note in which the phrase was found.
#[derive(Clone, Debug, PartialEq, Eq)]
pub struct SearchResult {
    pub note_id: String,
    pub note_title: String,
    pub notebook_path: String,
    pub notebook_name: String,
    pub snippet: String,
    pub match_count: usize,
}

impl Ranked for SearchResult {
    /// Hits are listed by the number of matches, the most first.
    open spec fn before(&self, other: &Self) -> bool {
        self.match_count > other.match_count
    }

    fn is_before(&self, other: &Self) -> (r: bool) {
        self.match_count > other.match_count
    }
}

/// Hits that are put in order are listed with the most matches first.
pub proof fn lemma_most_matches_first(found: Seq<SearchResult>)
    ensures
        forall|i: int, j: int|
            #![trigger ranked(found)[i], ranked(found)[j]]
            0 <= i < j < ranked(found).len() ==> ranked(found)[i].match_count >= ranked(
                found,
            )[j].match_count,
{
    assert(is_order::<SearchResult>());
    lemma_ranked_in_order(found);
    assert(in_order(ranked(found)));
}

/// Whether `needle` stands in `text` at position `i`.
pub open spec fn occurs_at(text: Seq<char>, needle: Seq<char>, i: int) -> bool {
    0 <= i && i + needle.len() <= text.len() && text.subrange(i, i + needle.len()) == needle
}

/// Whether `i` is the first position at which `needle` stands in `text`.
pub open spec fn first_at(text: Seq<char>, needle: Seq<char>, i: int) -> bool {
    occurs_at(text, needle, i) && forall|k: int| 0 <= k < i ==> !occurs_at(text, needle, k)
}

/// Whether `needle` stands nowhere in `text`.
pub open spec fn absent(text: Seq<char>, needle: Seq<char>) -> bool {
    forall|k: int| !occurs_at(text, needle, k)
}

/// The first position at which `needle` stands in `text`.
pub open spec fn first_occurrence(text: Seq<char>, needle: Seq<char>) -> Option<int> {
    if exists|i: int| first_at(text, needle, i) {
        Some(choose|i: int| first_at(text, needle, i))
    } else {
        None
    }
}

/// How often `needle` stands in `text`, counted from the left; an
/// occurrence that begins inside another one is not counted. Nothing
/// stands nowhere: an empty `needle` is counted as absent.
pub open spec fn occurrences(text: Seq<char>, needle: Seq<char>) -> nat
    decreases text.len(),
{
    if needle.len() == 0 {
        0
    } else {
        match first_occurrence(text, needle) {
            Some(i) => if 0 <= i && i + needle.len() <= text.len() {
                1 + occurrences(text.skip(i + needle.len()), needle)
            } else {
                0
            },
            None => 0,
        }
    }
}

/// The characters of `s`.
pub fn chars_of(s: &str) -> (chars: Vec<char>)
    ensures
        chars@ == s@,
{
    let mut chars: Vec<char> = Vec::new();
    for c in it: s.chars()
        invariant
            it.seq() == s@,
            chars@ == s@.take(it.index() as int),
    {
        proof {
            assert(s@.take(it.index() + 1) =~= s@.take(it.index() as int).push(c));
        }
        chars.push(c);
    }
    assert(s@.take(s@.len() as int) =~= s@);
    chars
}

/// Whether `needle` stands in `text` at position `i`.
fn matches_at(text: &Vec<char>, needle: &Vec<char>, i: usize) -> (r: bool)
    requires
        i + needle.len() <= text.len(),
    ensures
        r == occurs_at(text@, needle@, i as int),
{
    let mut k: usize = 0;
    while k < needle.len()
        invariant
            k <= needle.len(),
            i + needle.len() <= text.len(),
            forall|j: int| 0 <= j < k ==> text@[i + j] == needle@[j],
        decreases needle.len() - k,
    {
        if text[i + k] != needle[k] {
            assert(text@.subrange(i as int, i + needle.len())[k as int] != needle@[k as int]);
            return false;
        }
        k += 1;
    }
    assert(text@.subrange(i as int, i + needle.len()) =~= needle@);
    true
}

/// Finds the first position from `from` on at which `needle` stands in
/// `text`.
fn find_from(text: &Vec<char>, needle: &Vec<char>, from: usize) -> (found: Option<usize>)
    requires
        from <= text.len(),
    ensures
        found matches Some(i) ==> from <= i && occurs_at(text@, needle@, i as int) && forall|
            k: int,
        |
            from <= k < i ==> !occurs_at(text@, needle@, k),
        found is None ==> forall|k: int| from <= k ==> !occurs_at(text@, needle@, k),
{
    if needle.len() > text.len() {
        return None;
    }
    let last = text.len() - needle.len();
    let mut i: usize = from;
    while i <= last
        invariant
            from <= i,
            last == text.len() - needle.len(),
            needle.len() <= text.len(),
            forall|k: int| from <= k < i ==> !occurs_at(text@, needle@, k),
        decreases last + 1 - i,
    {
        if matches_at(text, needle, i) {
            return Some(i);
        }
        if i == last {
            return None;
        }
        i += 1;
    }
    None
}

/// What the first occurrence is, once it is known where `needle` first
/// stands in `text`, or that it stands nowhere.
proof fn lemma_first_occurrence(text: Seq<char>, needle: Seq<char>, found: Option<int>)
    requires
        found matches Some(i) ==> first_at(text, needle, i),
        found is None ==> absent(text, needle),
    ensures
        first_occurrence(text, needle) == found,
{
    match found {
        Some(i) => {
            let j = choose|j: int| first_at(text, needle, j);
            if j < i {
                assert(!occurs_at(text, needle, j));
            } else if i < j {
                assert(!occurs_at(text, needle, i));
            }
        },
        None => {
            if exists|i: int| first_at(text, needle, i) {
                let j = choose|j: int| first_at(text, needle, j);
                assert(!occurs_at(text, needle, j));
            }
        },
    }
}

/// Finds the first position at which `needle` stands in `text`.
pub fn find(text: &Vec<char>, needle: &Vec<char>) -> (found: Option<usize>)
    ensures
        found is Some <==> first_occurrence(text@, needle@) is Some,
        found matches Some(i) ==> first_occurrence(text@, needle@) == Some(i as int) && i
            + needle.len() <= text.len(),
{
    let found = find_from(text, needle, 0);
    proof {
        match found {
            Some(i) => {
                lemma_first_occurrence(text@, needle@, Some(i as int));
            },
            None => {
                assert forall|k: int| !occurs_at(text@, needle@, k) by {
                    if k >= 0 {
                        assert(!occurs_at(text@, needle@, k));
                    }
                }
                lemma_first_occurrence(text@, needle@, None);
            },
        }
    }
    found
}

/// Occurrences in what is left of `text` behind position `from` are
/// occurrences in `text`, shifted by `from`.
proof fn lemma_occurs_in_rest(text: Seq<char>, needle: Seq<char>, from: int, k: int)
    requires
        0 <= from <= text.len(),
        0 <= k,
    ensures
        occurs_at(text.skip(from), needle, k) == occurs_at(text, needle, from + k),
{
    if k + needle.len() <= text.len() - from {
        assert(text.skip(from).subrange(k, k + needle.len()) =~= text.subrange(
            from + k,
            from + k + needle.len(),
        ));
    }
}

/// Counts how often `needle` stands in `text`.
pub fn count(text: &Vec<char>, needle: &Vec<char>) -> (n: usize)
    ensures
        n == occurrences(text@, needle@),
{
    if needle.len() == 0 {
        return 0;
    }
    let mut n: usize = 0;
    let mut from: usize = 0;
    assert(text@.skip(0) =~= text@);
    loop
        invariant
            from <= text.len(),
            n <= from,
            needle.len() > 0,
            occurrences(text@, needle@) == n + occurrences(text@.skip(from as int), needle@),
        ensures
            n == occurrences(text@, needle@),
        decreases text.len() - from,
    {
        let ghost rest = text@.skip(from as int);
        match find_from(text, needle, from) {
            Some(i) => {
                proof {
                    assert forall|k: int| 0 <= k < i - from implies !occurs_at(
                        rest,
                        needle@,
                        k,
                    ) by {
                        lemma_occurs_in_rest(text@, needle@, from as int, k);
                    }
                    lemma_occurs_in_rest(text@, needle@, from as int, i - from);
                    lemma_first_occurrence(rest, needle@, Some(i - from));
                    assert(rest.skip(i - from + needle.len()) =~= text@.skip(i + needle.len()));
                }
                n += 1;
                from = i + needle.len();
            },
            None => {
                proof {
                    assert forall|k: int| !occurs_at(rest, needle@, k) by {
                        if k >= 0 {
                            lemma_occurs_in_rest(text@, needle@, from as int, k);
                        }
                    }
                    lemma_first_occurrence(rest, needle@, None);
                }
                break ;
            },
        }
    }
    n
}

/// A note that the search looks at.
#[derive(Clone, Debug, PartialEq, Eq)]
pub struct SearchedNote {
    pub file_name: String,
    /// The folder the note lies in.
    pub notebook_path: String,
    /// The name of that folder.
    pub notebook_name: String,
    pub content: String,
}

pub ghost struct SearchedNoteView {
    pub file_name: Seq<char>,
    pub notebook_path: Seq<char>,
    pub notebook_name: Seq<char>,
    pub content: Seq<char>,
}

impl View for SearchedNote {
    type V = SearchedNoteView;

    open spec fn view(&self) -> SearchedNoteView {
        SearchedNoteView {
            file_name: self.file_name@,
            notebook_path: self.notebook_path@,
            notebook_name: self.notebook_name@,
            content: self.content@,
        }
    }
}

impl DeepView for SearchedNote {
    type V = SearchedNoteView;

    open spec fn deep_view(&self) -> SearchedNoteView {
        self@
    }
}

/// Whether `c` is white space: one of the characters to which the Unicode
/// standard gives the property White_Space.
pub open spec fn white_space(c: char) -> bool {
    let n = c as int;
    ||| 0x09 <= n <= 0x0d
    ||| n == 0x20
    ||| n == 0x85
    ||| n == 0xa0
    ||| n == 0x1680
    ||| 0x2000 <= n <= 0x200a
    ||| n == 0x2028
    ||| n == 0x2029
    ||| n == 0x202f
    ||| n == 0x205f
    ||| n == 0x3000
}

/// Says whether `c` is white space.
pub fn is_white_space(c: char) -> (r: bool)
    ensures
        r == white_space(c),
{
    let n = c as u32;
    (0x09 <= n && n <= 0x0d) || n == 0x20 || n == 0x85 || n == 0xa0 || n == 0x1680 || (0x2000 <= n
        && n <= 0x200a) || n == 0x2028 || n == 0x2029 || n == 0x202f || n == 0x205f || n == 0x3000
}

/// Whether `s` holds nothing but white space.
pub open spec fn blank(s: Seq<char>) -> bool {
    forall|i: int| 0 <= i < s.len() ==> white_space(#[trigger] s[i])
}

/// Says whether `s` holds nothing but white space.
pub fn is_blank(s: &str) -> (r: bool)
    ensures
        r == blank(s@),
{
    for c in it: s.chars()
        invariant
            it.seq() == s@,
            forall|k: int| 0 <= k < it.index() ==> white_space(#[trigger] s@[k]),
    {
        if !is_white_space(c) {
            assert(!white_space(s@[it.index() as int]));
            return false;
        }
    }
    true
}

/// How many characters are shown on either side of the phrase.
pub const SNIPPET_MARGIN: usize = 50;

/// How many characters of a note are shown if the phrase is found in its
/// name only.
pub const SNIPPET_LEN: usize = 100;

/// The smaller of two numbers.
pub open spec fn least(a: int, b: int) -> int {
    if a <= b {
        a
    } else {
        b
    }
}

/// Where the snippet begins, for a phrase found at `position`.
pub open spec fn snippet_start(position: int, content_len: int) -> int {
    least(
        if position >= SNIPPET_MARGIN {
            position - SNIPPET_MARGIN
        } else {
            0
        },
        content_len,
    )
}

/// Where the snippet ends, for a phrase of `phrase_len` characters found
/// at `position`.
pub open spec fn snippet_end(position: int, phrase_len: int, content_len: int) -> int {
    least(position + phrase_len + SNIPPET_MARGIN, content_len)
}

/// What is shown of a note with the content `content`, for a phrase of
/// `phrase_len` characters, where `content_lower` and `phrase_lower` are
/// the content and the phrase in lowercase. If the phrase occurs in the
/// content, it is the content around the first occurrence, with three dots
/// at each end where content was left out, and with each line break turned
/// into a space. The position is that of the phrase in the lowercase
/// content. If the phrase does not occur in the content, it is the
/// beginning of the content.
pub open spec fn snippet_from(
    content: Seq<char>,
    content_lower: Seq<char>,
    phrase_lower: Seq<char>,
    phrase_len: int,
) -> Seq<char> {
    match first_occurrence(content_lower, phrase_lower) {
        Some(position) => {
            let start = snippet_start(position, content.len() as int);
            let end = snippet_end(position, phrase_len, content.len() as int);
            let front = if start > 0 {
                "..."@
            } else {
                Seq::empty()
            };
            let back = if end < content.len() {
                "..."@
            } else {
                Seq::empty()
            };
            replaced(front + content.subrange(start, end) + back, '\n', ' ')
        },
        None => content.take(least(SNIPPET_LEN as int, content.len() as int)),
    }
}

/// What is shown of a note with the content `content` that is a hit for
/// `phrase`.
pub open spec fn snippet_of(content: Seq<char>, phrase: Seq<char>) -> Seq<char> {
    snippet_from(content, lowercase(content), lowercase(phrase), phrase.len() as int)
}

/// How often a phrase is found in a note, where `content_lower`,
/// `name_lower` and `phrase_lower` are the note's content, its file name
/// and the phrase in lowercase: once for each occurrence in the content,
/// and once more if it occurs in the file name.
pub open spec fn matches_from(
    content_lower: Seq<char>,
    name_lower: Seq<char>,
    phrase_lower: Seq<char>,
) -> nat {
    let in_content = occurrences(content_lower, phrase_lower);
    let in_name: nat = if first_occurrence(name_lower, phrase_lower) is Some {
        1
    } else {
        0
    };
    least((in_content + in_name) as int, usize::MAX as int) as nat
}

/// How often `phrase` is found in `note`.
pub open spec fn matches_in(note: SearchedNoteView, phrase: Seq<char>) -> nat {
    matches_from(lowercase(note.content), lowercase(note.file_name), lowercase(phrase))
}

/// Whether `result` reports the note `note` with the snippet `snippet` and
/// `count` matches.
pub open spec fn reports_with(
    result: SearchResult,
    note: SearchedNoteView,
    snippet: Seq<char>,
    count: nat,
) -> bool {
    &&& result.note_id@ == note.file_name
    &&& result.note_title@ == stem(note.file_name)
    &&& result.notebook_path@ == note.notebook_path
    &&& result.notebook_name@ == note.notebook_name
    &&& result.snippet@ == snippet
    &&& result.match_count == count
}

/// Whether `result` reports the note `note` as a hit for `phrase`.
pub open spec fn reports(result: SearchResult, note: SearchedNoteView, phrase: Seq<char>) -> bool {
    reports_with(result, note, snippet_of(note.content, phrase), matches_in(note, phrase))
}

/// Whether `results` reports, in this order, the notes `notes`.
pub open spec fn report(
    results: Seq<SearchResult>,
    notes: Seq<SearchedNoteView>,
    phrase: Seq<char>,
) -> bool {
    results.len() == notes.len() && forall|i: int|
        0 <= i < results.len() ==> reports(#[trigger] results[i], notes[i], phrase)
}

/// The notes among `notes` in which the phrase is found.
pub open spec fn hits(notes: Seq<SearchedNoteView>, phrase: Seq<char>) -> Seq<SearchedNoteView> {
    notes.filter(|n: SearchedNoteView| matches_in(n, phrase) > 0)
}

/// The characters of `chars` from `start` up to `end`, as a string.
fn string_of(chars: &Vec<char>, start: usize, end: usize) -> (s: String)
    requires
        start <= end <= chars.len(),
    ensures
        s@ == chars@.subrange(start as int, end as int),
{
    let mut s = String::new();
    let mut i: usize = start;
    while i < end
        invariant
            start <= i <= end <= chars.len(),
            s@ == chars@.subrange(start as int, i as int),
        decreases end - i,
    {
        s.push(chars[i]);
        assert(chars@.subrange(start as int, i + 1) =~= chars@.subrange(start as int, i as int).push(
            chars@[i as int],
        ));
        i += 1;
    }
    s
}

/// Cuts the snippet for a note. `content_lower` and `phrase_lower` are
/// the content and the phrase in lowercase; `phrase_len` is the length of
/// the phrase as it was typed.
pub fn snippet(
    content: &Vec<char>,
    content_lower: &Vec<char>,
    phrase_lower: &Vec<char>,
    phrase_len: usize,
) -> (s: String)
    ensures
        s@ == snippet_from(content@, content_lower@, phrase_lower@, phrase_len as int),
{
    let len = content.len();
    match find(content_lower, phrase_lower) {
        Some(position) => {
            let from = if position >= SNIPPET_MARGIN {
                position - SNIPPET_MARGIN
            } else {
                0
            };
            let start = if from <= len {
                from
            } else {
                len
            };
            let reach = position.saturating_add(phrase_len).saturating_add(SNIPPET_MARGIN);
            let end = if reach <= len {
                reach
            } else {
                len
            };
            let mut text = String::new();
            if start > 0 {
                text.append("...");
            }
            let ghost front = text@;
            text.append(string_of(content, start, end).as_str());
            if end < len {
                text.append("...");
            }
            proof {
                assert(front =~= if start > 0 {
                    "..."@
                } else {
                    Seq::empty()
                });
            }
            replace_char(text.as_str(), '\n', ' ')
        },
        None => {
            let end = if SNIPPET_LEN <= len {
                SNIPPET_LEN
            } else {
                len
            };
            let s = string_of(content, 0, end);
            assert(content@.subrange(0, end as int) =~= content@.take(end as int));
            s
        },
    }
}

/// Counts how often a phrase is found in a note. `content_lower`,
/// `name_lower` and `phrase_lower` are the note's content, its file name
/// and the phrase in lowercase.
pub fn count_matches(content_lower: &Vec<char>, name_lower: &Vec<char>, phrase_lower: &Vec<char>) -> (n:
    usize)
    ensures
        n == matches_from(content_lower@, name_lower@, phrase_lower@),
{
    let in_content = count(content_lower, phrase_lower);
    let in_name: usize = if find(name_lower, phrase_lower).is_some() {
        1
    } else {
        0
    };
    in_content.saturating_add(in_name)
}

/// Looks for a phrase in `note` and gives the report if the note is a
/// hit. `content_lower`, `name_lower` and `phrase_lower` are the note's
/// content, its file name and the phrase in lowercase; `phrase_len` is the
/// length of the phrase as it was typed.
pub fn search_note(
    note: &SearchedNote,
    content_lower: &Vec<char>,
    name_lower: &Vec<char>,
    phrase_lower: &Vec<char>,
    phrase_len: usize,
) -> (result: Option<SearchResult>)
    ensures
        result is Some <==> matches_from(content_lower@, name_lower@, phrase_lower@) > 0,
        result matches Some(r) ==> reports_with(
            r,
            note@,
            snippet_from(note.content@, content_lower@, phrase_lower@, phrase_len as int),
            matches_from(content_lower@, name_lower@, phrase_lower@),
        ),
{
    let total = count_matches(content_lower, name_lower, phrase_lower);
    if total == 0 {
        return None;
    }
    let content = chars_of(note.content.as_str());
    let (title, _) = split_name(note.file_name.as_str());
    Some(
        SearchResult {
            note_id: note.file_name.clone(),
            note_title: title,
            notebook_path: note.notebook_path.clone(),
            notebook_name: note.notebook_name.clone(),
            snippet: snippet(&content, content_lower, phrase_lower, phrase_len),
            match_count: total,
        },
    )
}

/// Searches `notes` for `query`. A blank query finds nothing. The hits
/// are listed by the number of matches, the most first; hits with the
/// same number keep the order of `notes`.
pub fn search_notes(notes: &Vec<SearchedNote>, query: &str) -> (results: Vec<SearchResult>)
    ensures
        blank(query@) || lowercase(query@).len() == 0 ==> results@.len() == 0,
        !blank(query@) && lowercase(query@).len() > 0 ==> exists|found: Seq<SearchResult>|
            report(found, hits(notes.deep_view(), query@), query@) && results@ == #[trigger] ranked(
                found,
            ),
{
    if is_blank(query) {
        return Vec::new();
    }
    let phrase_lower = chars_of(to_lowercase(query).as_str());
    if phrase_lower.len() == 0 {
        return Vec::new();
    }
    let phrase_len = query.unicode_len();
    let ghost all = notes.deep_view();
    let ghost keep = |n: SearchedNoteView| matches_in(n, query@) > 0;
    let mut found: Vec<SearchResult> = Vec::new();
    let mut i: usize = 0;
    assert(all.take(0) =~= Seq::empty());
    assert(Seq::<SearchedNoteView>::empty().filter(keep) =~= Seq::empty()) by {
        reveal(Seq::filter);
    }
    while i < notes.len()
        invariant
            i <= notes.len(),
            all == notes.deep_view(),
            keep == |n: SearchedNoteView| matches_in(n, query@) > 0,
            phrase_lower@ == lowercase(query@),
            phrase_lower@.len() > 0,
            phrase_len == query@.len(),
            report(found@, all.take(i as int).filter(keep), query@),
        decreases notes.len() - i,
    {
        proof {
            let before = all.take(i as int);
            assert(all.take(i + 1) =~= before.push(all[i as int]));
            before.lemma_filter_push(all[i as int], keep);
        }
        let content_lower = chars_of(to_lowercase(notes[i].content.as_str()).as_str());
        let name_lower = chars_of(to_lowercase(notes[i].file_name.as_str()).as_str());
        match search_note(&notes[i], &content_lower, &name_lower, &phrase_lower, phrase_len) {
            Some(result) => {
                found.push(result);
            },
            None => {},
        }
        i += 1;
    }
    assert(all.take(notes.len() as int) =~= all);
    let ghost witness = found@;
    let results = sort_ranked(found);
    assert(results@ == ranked(witness));
    results
}

} // verus!
