use azimuth::search::{
    chars_of, count, count_matches, find, is_blank, is_white_space, search_note, search_notes,
    snippet, SearchResult, SearchedNote,
};

fn note(name: &str, content: &str) -> SearchedNote {
    SearchedNote {
        file_name: name.to_string(),
        notebook_path: "/notes/work".to_string(),
        notebook_name: "work".to_string(),
        content: content.to_string(),
    }
}

fn chars(s: &str) -> Vec<char> {
    s.chars().collect()
}

#[test]
fn occurrences_are_counted_without_overlap() {
    assert_eq!(count(&chars("aaaa"), &chars("aa")), 2);
    assert_eq!(count(&chars("aaa"), &chars("aa")), 1);
    assert_eq!(count(&chars("abcabcab"), &chars("abc")), 2);
    assert_eq!(count(&chars("abc"), &chars("abcd")), 0);
    assert_eq!(count(&chars(""), &chars("a")), 0);
    assert_eq!(count(&chars("abc"), &chars("")), 0);
    assert_eq!(count(&chars("a"), &chars("a")), 1);
    assert_eq!(count(&chars("banana"), &chars("ana")), 1);
    assert_eq!("banana".matches("ana").count(), 1);
    assert_eq!("aaaa".matches("aa").count(), 2);
}

#[test]
fn the_first_occurrence_is_found() {
    assert_eq!(find(&chars("hello world"), &chars("o")), Some(4));
    assert_eq!(find(&chars("hello world"), &chars("world")), Some(6));
    assert_eq!(find(&chars("hello"), &chars("hello")), Some(0));
    assert_eq!(find(&chars("hello"), &chars("xyz")), None);
    assert_eq!(find(&chars("hi"), &chars("hello")), None);
    assert_eq!(find(&chars("hello"), &chars("")), Some(0));
    assert_eq!(find(&chars(""), &chars("")), Some(0));
    assert_eq!(chars_of("h\u{e9}llo"), chars("h\u{e9}llo"));
}

#[test]
fn a_blank_query_finds_nothing() {
    let notes = vec![note("a.md", "anything at all")];
    assert!(search_notes(&notes, "").is_empty());
    assert!(search_notes(&notes, "   ").is_empty());
    assert!(search_notes(&notes, "\t\n").is_empty());
}

#[test]
fn hits_report_the_note_and_count_matches() {
    let notes = vec![note("Plan.md", "The plan: plan ahead. PLAN again.")];
    let results = search_notes(&notes, "plan");
    assert_eq!(
        results,
        vec![SearchResult {
            note_id: "Plan.md".to_string(),
            note_title: "Plan".to_string(),
            notebook_path: "/notes/work".to_string(),
            notebook_name: "work".to_string(),
            snippet: "The plan: plan ahead. PLAN again.".to_string(),
            match_count: 4,
        }]
    );
}

#[test]
fn a_match_in_the_name_alone_counts_once() {
    let content: String = "x".repeat(150);
    let notes = vec![note("budget.txt", &content), note("other.txt", "nothing here")];
    let results = search_notes(&notes, "BUDGET");
    assert_eq!(results.len(), 1);
    assert_eq!(results[0].note_id, "budget.txt");
    assert_eq!(results[0].match_count, 1);
    assert_eq!(results[0].snippet, "x".repeat(100));
}

#[test]
fn the_snippet_is_cut_around_the_first_match() {
    let content = format!("{}needle{}", "a".repeat(60), "b".repeat(70));
    let results = search_notes(&vec![note("n.md", &content)], "needle");
    assert_eq!(results.len(), 1);
    assert_eq!(
        results[0].snippet,
        format!("...{}needle{}...", "a".repeat(50), "b".repeat(50))
    );
    assert_eq!(results[0].match_count, 1);
}

#[test]
fn the_snippet_has_no_dots_where_nothing_was_cut() {
    let content = format!("{}needle{}", "a".repeat(50), "b".repeat(50));
    let results = search_notes(&vec![note("n.md", &content)], "needle");
    assert_eq!(results[0].snippet, content);
    let content = format!("{}needle{}", "a".repeat(51), "b".repeat(50));
    let results = search_notes(&vec![note("n.md", &content)], "needle");
    assert_eq!(results[0].snippet, format!("...{}needle{}", "a".repeat(50), "b".repeat(50)));
}

#[test]
fn line_breaks_in_the_snippet_become_spaces() {
    let results = search_notes(&vec![note("n.md", "first\nsecond needle\nthird")], "needle");
    assert_eq!(results[0].snippet, "first second needle third");
}

#[test]
fn hits_are_listed_by_match_count_and_keep_their_order_on_ties() {
    let notes = vec![
        note("one.md", "cat"),
        note("three.md", "cat cat cat"),
        note("none.md", "dog"),
        note("also-one.md", "a cat"),
        note("two.md", "cat, cat"),
        note("also-three.md", "catcatcat"),
    ];
    let results = search_notes(&notes, "cat");
    let ids: Vec<&str> = results.iter().map(|r| r.note_id.as_str()).collect();
    assert_eq!(ids, vec!["three.md", "also-three.md", "two.md", "one.md", "also-one.md"]);
    let counts: Vec<usize> = results.iter().map(|r| r.match_count).collect();
    assert_eq!(counts, vec![3, 3, 2, 1, 1]);
}

#[test]
fn searching_nothing_finds_nothing() {
    assert!(search_notes(&Vec::new(), "cat").is_empty());
    assert!(search_notes(&vec![note("a.md", "dog")], "cat").is_empty());
}

#[test]
fn white_space_is_what_the_standard_says() {
    let mut c = '\0';
    loop {
        assert_eq!(is_white_space(c), c.is_whitespace(), "{:?}", c);
        if c == char::MAX {
            break;
        }
        c = char::from_u32(c as u32 + 1).unwrap_or('\u{e000}');
    }
}

#[test]
fn blank_means_nothing_but_white_space() {
    for s in ["", " ", "\t\r\n", "\u{a0}\u{2003}\u{3000}", " \u{85} "] {
        assert!(is_blank(s), "{:?}", s);
    }
    for s in ["a", " a ", "\u{200b}", "\u{feff}", "\u{180e}", " . "] {
        assert!(!is_blank(s), "{:?}", s);
    }
    for s in ["", " \u{2028} ", "\u{1680}x", "x\u{205f}", "\u{202f}\u{2029}"] {
        assert_eq!(is_blank(s), s.trim().is_empty(), "{:?}", s);
    }
}

#[test]
fn matches_are_counted_in_the_lowered_text() {
    assert_eq!(count_matches(&chars("a cat, a cat"), &chars("cat.md"), &chars("cat")), 3);
    assert_eq!(count_matches(&chars("a cat"), &chars("dog.md"), &chars("cat")), 1);
    assert_eq!(count_matches(&chars("a dog"), &chars("cat.md"), &chars("cat")), 1);
    assert_eq!(count_matches(&chars("a dog"), &chars("dog.md"), &chars("cat")), 0);
    // the text is taken as it is handed over: nothing is lowered here
    assert_eq!(count_matches(&chars("A CAT"), &chars("CAT.md"), &chars("cat")), 0);
}

#[test]
fn the_snippet_is_cut_from_the_content_at_the_place_found_in_the_lowered_text() {
    let content = chars("Find the NEEDLE here");
    let lower = chars("find the needle here");
    assert_eq!(snippet(&content, &lower, &chars("needle"), 6), "Find the NEEDLE here");
    // not found in the content: the beginning of the content
    assert_eq!(snippet(&content, &lower, &chars("absent"), 6), "Find the NEEDLE here");
    let long = chars(&"x".repeat(130));
    assert_eq!(snippet(&long, &long, &chars("absent"), 6), "x".repeat(100));
    let around = chars(&format!("{}needle{}", "a".repeat(70), "b".repeat(70)));
    assert_eq!(
        snippet(&around, &around, &chars("needle"), 6),
        format!("...{}needle{}...", "a".repeat(50), "b".repeat(50))
    );
    // the length of the phrase as typed decides where the snippet ends
    assert_eq!(
        snippet(&around, &around, &chars("needle"), 0),
        format!("...{}needle{}...", "a".repeat(50), "b".repeat(44))
    );
}

#[test]
fn a_note_is_reported_if_the_lowered_texts_match() {
    let n = note("Plan.md", "The Plan");
    assert_eq!(
        search_note(&n, &chars("the plan"), &chars("plan.md"), &chars("plan"), 4),
        Some(SearchResult {
            note_id: "Plan.md".to_string(),
            note_title: "Plan".to_string(),
            notebook_path: "/notes/work".to_string(),
            notebook_name: "work".to_string(),
            snippet: "The Plan".to_string(),
            match_count: 2,
        })
    );
    assert_eq!(search_note(&n, &chars("the plan"), &chars("plan.md"), &chars("dog"), 3), None);
}
