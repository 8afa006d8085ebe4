use azimuth::notebooks::{
    is_passed_over, list_notebooks_async, list_notebooks_simple, FolderEntry, Notebook,
};

fn dir(name: &str) -> FolderEntry {
    FolderEntry { name: name.to_string(), path: format!("/root/{}", name), is_dir: true }
}

fn plain(name: &str) -> FolderEntry {
    FolderEntry { name: name.to_string(), path: format!("/root/{}", name), is_dir: false }
}

fn names(notebooks: &[Notebook]) -> Vec<&str> {
    notebooks.iter().map(|n| n.name.as_str()).collect()
}

#[test]
fn hidden_and_ignored_folders_are_passed_over() {
    for name in [".git", ".anything", ".", "..", "node_modules", "target", "build", "dist",
        "Library", "Applications", "__pycache__", "venv", "Thumbs.db", ".DS_Store"] {
        assert!(is_passed_over(name), "{}", name);
    }
    for name in ["notes", "Target", "builds", "my.notes", "", "library"] {
        assert!(!is_passed_over(name), "{}", name);
    }
}

#[test]
fn notebooks_are_the_visible_folders_sorted_without_regard_to_case() {
    let entries = vec![
        dir("work"),
        plain("readme.md"),
        dir(".git"),
        dir("Archive"),
        dir("node_modules"),
        dir("beta"),
        dir("Alpha"),
    ];
    let notebooks = list_notebooks_simple(&entries);
    assert_eq!(names(&notebooks), vec!["Alpha", "Archive", "beta", "work"]);
}

#[test]
fn a_notebook_carries_its_path_and_a_placeholder_child() {
    let notebooks = list_notebooks_simple(&vec![dir("work")]);
    assert_eq!(
        notebooks,
        vec![Notebook {
            id: "/root/work".to_string(),
            name: "work".to_string(),
            path: "/root/work".to_string(),
            children: vec![Notebook {
                id: String::new(),
                name: String::new(),
                path: String::new(),
                children: Vec::new(),
            }],
        }]
    );
}

#[test]
fn names_that_differ_in_case_only_keep_their_order() {
    let entries = vec![dir("b"), dir("a"), dir("B"), dir("A")];
    assert_eq!(names(&list_notebooks_simple(&entries)), vec!["a", "A", "b", "B"]);
    let entries = vec![dir("B"), dir("A"), dir("b"), dir("a")];
    assert_eq!(names(&list_notebooks_simple(&entries)), vec!["A", "a", "B", "b"]);
}

#[test]
fn only_the_first_fifty_entries_are_looked_at() {
    let mut entries: Vec<FolderEntry> = (0..49).map(|i| plain(&format!("file{:02}", i))).collect();
    entries.push(dir("fiftieth"));
    entries.push(dir("fifty-first"));
    assert_eq!(names(&list_notebooks_simple(&entries)), vec!["fiftieth"]);
}

#[test]
fn the_root_lists_the_first_fifty_notebooks_of_two_hundred_entries() {
    let mut entries: Vec<FolderEntry> = (0..150).map(|i| plain(&format!("file{:03}", i))).collect();
    entries.extend((0..60).map(|i| dir(&format!("nb{:03}", i))));
    let notebooks = list_notebooks_async(&entries);
    // entries 150..199 are the first fifty folders; the rest is never looked at
    assert_eq!(notebooks.len(), 50);
    assert_eq!(notebooks[0].name, "nb000");
    assert_eq!(notebooks[49].name, "nb049");

    let many: Vec<FolderEntry> = (0..120).rev().map(|i| dir(&format!("nb{:03}", i))).collect();
    let notebooks = list_notebooks_async(&many);
    assert_eq!(notebooks.len(), 50);
    assert_eq!(notebooks[0].name, "nb070");
    assert_eq!(notebooks[49].name, "nb119");
}

#[test]
fn an_empty_directory_has_no_notebooks() {
    assert!(list_notebooks_simple(&Vec::new()).is_empty());
    assert!(list_notebooks_async(&Vec::new()).is_empty());
}
