use azimuth::settings::{
    default_auto_save, get_all_tags, get_favorites, get_note_tags, get_notes_by_tag,
    set_note_tags, toggle_favorite, AppSettings, NotebookStyle,
};
use azimuth::table::Table;

fn strings(items: &[&str]) -> Vec<String> {
    items.iter().map(|s| s.to_string()).collect()
}

#[test]
fn default_settings_are_as_documented() {
    let settings = AppSettings::default();
    assert_eq!(settings.font_family, "'SF Mono', 'Fira Code', 'Consolas', monospace");
    assert_eq!(settings.font_size, 14);
    assert_eq!(settings.sidebar_width, 200);
    assert_eq!(settings.notes_width, 200);
    assert!(settings.favorites.is_empty());
    assert_eq!(settings.tags.len(), 0);
    assert_eq!(settings.notebook_styles.len(), 0);
    assert!(settings.pinned_folders.is_empty());
    assert!(settings.auto_save);
    assert!(default_auto_save());
}

#[test]
fn toggling_adds_and_removes_a_favourite() {
    let mut settings = AppSettings::default();
    toggle_favorite(&mut settings, "a.md".to_string());
    toggle_favorite(&mut settings, "b.md".to_string());
    assert_eq!(get_favorites(&settings), strings(&["a.md", "b.md"]));
    toggle_favorite(&mut settings, "a.md".to_string());
    assert_eq!(get_favorites(&settings), strings(&["b.md"]));
    toggle_favorite(&mut settings, "a.md".to_string());
    assert_eq!(get_favorites(&settings), strings(&["b.md", "a.md"]));
}

#[test]
fn toggling_removes_every_occurrence() {
    let mut settings = AppSettings::default();
    settings.favorites = strings(&["a.md", "b.md", "a.md", "c.md"]);
    toggle_favorite(&mut settings, "a.md".to_string());
    assert_eq!(settings.favorites, strings(&["b.md", "c.md"]));
}

#[test]
fn toggling_leaves_the_other_settings_alone() {
    let mut settings = AppSettings::default();
    settings.font_size = 18;
    settings.pinned_folders = strings(&["work"]);
    set_note_tags(&mut settings, "n.md".to_string(), strings(&["x"]));
    let before = settings.clone();
    toggle_favorite(&mut settings, "a.md".to_string());
    assert_eq!(settings.font_size, before.font_size);
    assert_eq!(settings.pinned_folders, before.pinned_folders);
    assert_eq!(settings.tags, before.tags);
    assert_eq!(settings.notebook_styles, before.notebook_styles);
    assert_eq!(settings.auto_save, before.auto_save);
}

#[test]
fn tags_are_set_replaced_and_removed() {
    let mut settings = AppSettings::default();
    assert_eq!(get_note_tags(&settings, "a.md"), Vec::<String>::new());
    set_note_tags(&mut settings, "a.md".to_string(), strings(&["work", "urgent"]));
    set_note_tags(&mut settings, "b.md".to_string(), strings(&["home"]));
    assert_eq!(get_note_tags(&settings, "a.md"), strings(&["work", "urgent"]));
    assert_eq!(get_note_tags(&settings, "b.md"), strings(&["home"]));
    set_note_tags(&mut settings, "a.md".to_string(), strings(&["later"]));
    assert_eq!(get_note_tags(&settings, "a.md"), strings(&["later"]));
    assert_eq!(settings.tags.len(), 2);
    set_note_tags(&mut settings, "a.md".to_string(), Vec::new());
    assert_eq!(get_note_tags(&settings, "a.md"), Vec::<String>::new());
    assert_eq!(settings.tags.len(), 1);
    set_note_tags(&mut settings, "never-tagged.md".to_string(), Vec::new());
    assert_eq!(settings.tags.len(), 1);
}

#[test]
fn all_tags_are_sorted_and_listed_once() {
    let mut settings = AppSettings::default();
    assert_eq!(get_all_tags(&settings), Vec::<String>::new());
    set_note_tags(&mut settings, "a.md".to_string(), strings(&["work", "urgent", "Work"]));
    set_note_tags(&mut settings, "b.md".to_string(), strings(&["home", "work", "a", "ab", ""]));
    set_note_tags(&mut settings, "c.md".to_string(), strings(&["\u{e9}t\u{e9}", "zebra"]));
    assert_eq!(
        get_all_tags(&settings),
        strings(&["", "Work", "a", "ab", "home", "urgent", "work", "zebra", "\u{e9}t\u{e9}"])
    );
    let mut expected: Vec<String> =
        strings(&["work", "urgent", "Work", "home", "work", "a", "ab", "", "\u{e9}t\u{e9}", "zebra"]);
    expected.sort();
    expected.dedup();
    assert_eq!(get_all_tags(&settings), expected);
}

#[test]
fn notes_are_found_by_tag() {
    let mut settings = AppSettings::default();
    set_note_tags(&mut settings, "a.md".to_string(), strings(&["work", "urgent"]));
    set_note_tags(&mut settings, "b.md".to_string(), strings(&["home"]));
    set_note_tags(&mut settings, "c.md".to_string(), strings(&["work"]));
    assert_eq!(get_notes_by_tag(&settings, "work"), strings(&["a.md", "c.md"]));
    assert_eq!(get_notes_by_tag(&settings, "home"), strings(&["b.md"]));
    assert_eq!(get_notes_by_tag(&settings, "none"), Vec::<String>::new());
    assert_eq!(get_notes_by_tag(&settings, "wor"), Vec::<String>::new());
}

#[test]
fn table_inserts_replaces_and_removes() {
    let mut table: Table<NotebookStyle> = Table::new();
    let red = NotebookStyle { icon: "book".to_string(), color: "red".to_string() };
    let blue = NotebookStyle { icon: "star".to_string(), color: "blue".to_string() };
    assert_eq!(table.len(), 0);
    assert_eq!(table.get("work"), None);
    table.insert("work".to_string(), red.clone());
    table.insert("home".to_string(), blue.clone());
    assert_eq!(table.len(), 2);
    assert_eq!(table.get("work"), Some(&red));
    assert_eq!(table.position("home"), Some(1));
    table.insert("work".to_string(), blue.clone());
    assert_eq!(table.len(), 2);
    assert_eq!(table.get("work"), Some(&blue));
    assert_eq!(table.key_at(0), "work");
    assert_eq!(table.value_at(1), &blue);
    assert_eq!(table.remove("work"), Some(blue.clone()));
    assert_eq!(table.remove("work"), None);
    assert_eq!(table.len(), 1);
    assert_eq!(table.key_at(0), "home");
    assert_eq!(table.get("work"), None);
}
