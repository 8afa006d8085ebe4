use azimuth::notes::{
    asset_url, attachments_folder, content_for, is_text_file, list_notes, rename_refusal, Note,
    NoteFile,
};

fn file(name: &str, text: Option<&str>) -> NoteFile {
    NoteFile {
        file_name: name.to_string(),
        path: format!("/notes/my book/{}", name),
        text: text.map(|t| t.to_string()),
        created_at: "c".to_string(),
        updated_at: "u".to_string(),
    }
}

fn content(name: &str, text: Option<&str>) -> String {
    let notes = list_notes("/notes/my book", &vec![file(name, text)]);
    assert_eq!(notes.len(), 1);
    notes[0].content.clone()
}

#[test]
fn asset_urls_escape_spaces() {
    assert_eq!(asset_url("/a/b.png"), "asset://localhost//a/b.png");
    assert_eq!(asset_url("/my notes/a b.png"), "asset://localhost//my%20notes/a%20b.png");
    assert_eq!(asset_url(""), "asset://localhost/");
    assert_eq!(asset_url("  "), "asset://localhost/%20%20");
}

#[test]
fn a_text_note_shows_its_content() {
    let notes = list_notes("/notes/my book", &vec![file("Plan.MD", Some("# Plan"))]);
    assert_eq!(
        notes,
        vec![Note {
            id: "Plan.MD".to_string(),
            title: "Plan".to_string(),
            content: "# Plan".to_string(),
            folder: "/notes/my book".to_string(),
            created_at: "c".to_string(),
            updated_at: "u".to_string(),
        }]
    );
}

#[test]
fn a_file_without_extension_is_text() {
    assert!(is_text_file("README"));
    assert!(is_text_file("notes.md"));
    assert!(is_text_file("NOTES.TXT"));
    assert!(is_text_file(".gitignore"));
    assert!(!is_text_file("photo.png"));
    assert!(!is_text_file("movie.mp4"));
    assert!(!is_text_file("archive.zip"));
    assert_eq!(content("README", Some("hello")), "hello");
}

#[test]
fn an_unreadable_text_file_is_linked() {
    assert_eq!(
        content("broken.txt", None),
        "[\u{f0}\u{178}\u{201c}\u{17d} broken.txt](asset://localhost//notes/my%20book/broken.txt)"
    );
}

#[test]
fn an_image_is_embedded() {
    assert_eq!(
        content("cat.PNG", None),
        "![cat.PNG](asset://localhost//notes/my%20book/cat.PNG)"
    );
}

#[test]
fn an_svg_file_counts_as_text() {
    assert_eq!(content("logo.svg", Some("<svg/>")), "<svg/>");
}

#[test]
fn a_video_is_embedded_with_its_type() {
    assert_eq!(
        content("clip.mov", None),
        "<video controls width=\"100%\" style=\"max-height: 80vh;\">\n  <source src=\"asset://localhost//notes/my%20book/clip.mov\" type=\"video/quicktime\">\n  Your browser does not support the video tag.\n</video>"
    );
}

#[test]
fn a_sound_is_embedded_with_its_type() {
    assert_eq!(
        content("song.m4a", None),
        "<audio controls style=\"width: 100%;\">\n  <source src=\"asset://localhost//notes/my%20book/song.m4a\" type=\"audio/aac\">\n  Your browser does not support the audio tag.\n</audio>"
    );
}

#[test]
fn a_pdf_is_shown_in_a_frame() {
    assert_eq!(
        content("paper.pdf", None),
        "<iframe src=\"asset://localhost//notes/my%20book/paper.pdf\" width=\"100%\" height=\"800px\" style=\"border: none;\"></iframe>"
    );
}

#[test]
fn any_other_file_is_linked() {
    assert_eq!(
        content("data.zip", None),
        "[\u{f0}\u{178}\u{201c}\u{17d} data.zip](asset://localhost//notes/my%20book/data.zip)"
    );
}

#[test]
fn notes_keep_the_order_of_the_files() {
    let notes = list_notes("nb", &vec![file("b.md", Some("b")), file("a.md", Some("a"))]);
    let ids: Vec<&str> = notes.iter().map(|n| n.id.as_str()).collect();
    assert_eq!(ids, vec!["b.md", "a.md"]);
    assert!(list_notes("nb", &Vec::new()).is_empty());
}

#[test]
fn attachments_lie_in_the_folder_named_like_the_note() {
    assert_eq!(attachments_folder("plan.md"), "plan");
    assert_eq!(attachments_folder("archive.tar.gz"), "archive.tar");
    assert_eq!(attachments_folder("README"), "README");
    assert_eq!(attachments_folder(".hidden"), ".hidden");
    assert_eq!(attachments_folder("sub/plan.md"), "plan");
    assert_eq!(attachments_folder(""), "");
    assert_eq!(attachments_folder(".."), "..");
}

#[test]
fn renaming_needs_the_note_and_a_free_name() {
    assert_eq!(
        rename_refusal("old.md", "new.md", false, false),
        Some("File does not exist: old.md".to_string())
    );
    assert_eq!(
        rename_refusal("old.md", "new.md", false, true),
        Some("File does not exist: old.md".to_string())
    );
    assert_eq!(
        rename_refusal("old.md", "new.md", true, true),
        Some("A file with that name already exists: new.md".to_string())
    );
    assert_eq!(rename_refusal("old.md", "new.md", true, false), None);
}

#[test]
fn the_kind_decides_what_is_shown() {
    let f = file("anything", Some("the text"));
    assert_eq!(content_for(&f, "md"), "the text");
    assert_eq!(content_for(&f, ""), "the text");
    assert_eq!(content_for(&f, "png"), "![anything](asset://localhost//notes/my%20book/anything)");
    assert_eq!(
        content_for(&f, "pdf"),
        "<iframe src=\"asset://localhost//notes/my%20book/anything\" width=\"100%\" height=\"800px\" style=\"border: none;\"></iframe>"
    );
    // the kind is taken as it is handed over: nothing is lowered here
    assert_eq!(
        content_for(&f, "PNG"),
        "[\u{f0}\u{178}\u{201c}\u{17d} anything](asset://localhost//notes/my%20book/anything)"
    );
}
