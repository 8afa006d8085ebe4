//! Notes: the files of a notebook and what is shown for each.
//!
//! Reading the directory and the files is left to the caller. A file that
//! is read as text is shown with its content; any other file is shown by
//! markup that embeds it or links to it.

use crate::media::{
    audio_extension, audio_mime, get_audio_mime, get_video_mime, image_extension,
    is_audio_extension, is_image_extension, is_text_extension, is_video_extension,
    text_extension, video_extension, video_mime,
};
use crate::notebooks::{lowercase, to_lowercase};
use crate::paths::{extension, file_name, names_file, split_name, stem, last_component};
use crate::text::joined;
use vstd::prelude::*;

verus! {

/// A note as it is shown.
#[derive(Clone, Debug, PartialEq, Eq)]
pub struct Note {
    pub id: String,
    pub title: String,
    pub content: String,
    pub folder: String,
    pub created_at: String,
    pub updated_at: String,
}

pub ghost struct NoteView {
    pub id: Seq<char>,
    pub title: Seq<char>,
    pub content: Seq<char>,
    pub folder: Seq<char>,
    pub created_at: Seq<char>,
    pub updated_at: Seq<char>,
}

impl View for Note {
    type V = NoteView;

    open spec fn view(&self) -> NoteView {
        NoteView {
            id: self.id@,
            title: self.title@,
            content: self.content@,
            folder: self.folder@,
            created_at: self.created_at@,
            updated_at: self.updated_at@,
        }
    }
}

impl DeepView for Note {
    type V = NoteView;

    open spec fn deep_view(&self) -> NoteView {
        self@
    }
}

/// A file of a notebook.
#[derive(Clone, Debug, PartialEq, Eq)]
pub struct NoteFile {
    pub file_name: String,
    /// The full path of the file.
    pub path: String,
    /// The content, if the file was read as text.
    pub text: Option<String>,
    pub created_at: String,
    pub updated_at: String,
}

pub ghost struct NoteFileView {
    pub file_name: Seq<char>,
    pub path: Seq<char>,
    pub text: Option<Seq<char>>,
    pub created_at: Seq<char>,
    pub updated_at: Seq<char>,
}

impl View for NoteFile {
    type V = NoteFileView;

    open spec fn view(&self) -> NoteFileView {
        NoteFileView {
            file_name: self.file_name@,
            path: self.path@,
            text: match self.text {
                Some(t) => Some(t@),
                None => None,
            },
            created_at: self.created_at@,
            updated_at: self.updated_at@,
        }
    }
}

impl DeepView for NoteFile {
    type V = NoteFileView;

    open spec fn deep_view(&self) -> NoteFileView {
        self@
    }
}

/// The kind of a file called `file_name`: its extension in lowercase.
pub open spec fn kind_of(file_name: Seq<char>) -> Seq<char> {
    lowercase(extension(file_name))
}

/// Whether a file called `file_name` is read as text.
pub open spec fn text_file(file_name: Seq<char>) -> bool {
    text_extension(kind_of(file_name))
}

/// Says whether a file is read as text, so that only such files need to
/// be read.
pub fn is_text_file(file_name: &str) -> (r: bool)
    ensures
        r == text_file(file_name@),
{
    let (_, ext) = split_name(file_name);
    let kind = to_lowercase(ext.as_str());
    is_text_extension(kind.as_str())
}

/// `s` with each space written as `%20`.
pub open spec fn spaces_escaped(s: Seq<char>) -> Seq<char>
    decreases s.len(),
{
    if s.len() == 0 {
        Seq::empty()
    } else if s.last() == ' ' {
        spaces_escaped(s.drop_last()) + "%20"@
    } else {
        spaces_escaped(s.drop_last()).push(s.last())
    }
}

/// The address under which the file at `path` is shown.
pub open spec fn asset_url_of(path: Seq<char>) -> Seq<char> {
    "asset://localhost/"@ + spaces_escaped(path)
}

/// The address under which the file at `path` is shown.
pub fn asset_url(path: &str) -> (url: String)
    ensures
        url@ == asset_url_of(path@),
{
    let mut url = "asset://localhost/".to_owned();
    let ghost head = url@;
    assert(path@.take(0) =~= Seq::empty());
    assert(url@ =~= head + spaces_escaped(path@.take(0)));
    for c in it: path.chars()
        invariant
            it.seq() == path@,
            head == "asset://localhost/"@,
            url@ == head + spaces_escaped(path@.take(it.index() as int)),
    {
        let ghost seen = path@.take(it.index() as int);
        let ghost next = path@.take(it.index() + 1);
        assert(next.last() == c);
        assert(next.drop_last() =~= seen);
        let ghost before = url@;
        if c == ' ' {
            url.append("%20");
            assert(url@ =~= head + spaces_escaped(next));
        } else {
            url.push(c);
            assert(url@ =~= head + spaces_escaped(next));
        }
    }
    assert(path@.take(path@.len() as int) =~= path@);
    url
}

/// The mark in front of the name of a linked file.
pub open spec fn attachment_mark() -> Seq<char> {
    "\u{f0}\u{178}\u{201c}\u{17d}"@
}

/// A link to the file called `name` at `url`.
pub open spec fn link_of(name: Seq<char>, url: Seq<char>) -> Seq<char> {
    "["@ + attachment_mark() + " "@ + name + "]("@ + url + ")"@
}

/// The markup that embeds the image called `name` at `url`.
pub open spec fn image_of(name: Seq<char>, url: Seq<char>) -> Seq<char> {
    "!["@ + name + "]("@ + url + ")"@
}

/// The markup that embeds the video of kind `kind` at `url`.
pub open spec fn video_of(url: Seq<char>, kind: Seq<char>) -> Seq<char> {
    "<video controls width=\"100%\" style=\"max-height: 80vh;\">\n  <source src=\""@ + url
        + "\" type=\"video/"@ + video_mime(kind)
        + "\">\n  Your browser does not support the video tag.\n</video>"@
}

/// The markup that embeds the sound of kind `kind` at `url`.
pub open spec fn audio_of(url: Seq<char>, kind: Seq<char>) -> Seq<char> {
    "<audio controls style=\"width: 100%;\">\n  <source src=\""@ + url + "\" type=\"audio/"@
        + audio_mime(kind) + "\">\n  Your browser does not support the audio tag.\n</audio>"@
}

/// The markup that shows the PDF document at `url`.
pub open spec fn pdf_of(url: Seq<char>) -> Seq<char> {
    "<iframe src=\""@ + url
        + "\" width=\"100%\" height=\"800px\" style=\"border: none;\"></iframe>"@
}

/// What is shown for a file of the kind `kind`. A text file is shown with
/// its content, or as a link if it could not be read; an image, a video, a
/// sound and a PDF document are embedded; any other file is linked.
pub open spec fn content_from(file: NoteFileView, kind: Seq<char>) -> Seq<char> {
    let url = asset_url_of(file.path);
    if text_extension(kind) {
        match file.text {
            Some(text) => text,
            None => link_of(file.file_name, url),
        }
    } else if image_extension(kind) {
        image_of(file.file_name, url)
    } else if video_extension(kind) {
        video_of(url, kind)
    } else if audio_extension(kind) {
        audio_of(url, kind)
    } else if kind == "pdf"@ {
        pdf_of(url)
    } else {
        link_of(file.file_name, url)
    }
}

/// What is shown for a file: what is shown for a file of its kind.
pub open spec fn content_of(file: NoteFileView) -> Seq<char> {
    content_from(file, kind_of(file.file_name))
}

/// The note shown for `file` in the notebook `folder`.
pub open spec fn note_of(folder: Seq<char>, file: NoteFileView) -> NoteView {
    NoteView {
        id: file.file_name,
        title: stem(file.file_name),
        content: content_of(file),
        folder,
        created_at: file.created_at,
        updated_at: file.updated_at,
    }
}

fn link(name: &str, url: &str) -> (text: String)
    ensures
        text@ == link_of(name@, url@),
{
    let mut text = "[".to_owned();
    text.append("\u{f0}\u{178}\u{201c}\u{17d}");
    text.append(" ");
    text.append(name);
    text.append("](");
    text.append(url);
    text.append(")");
    text
}

/// Writes what is shown for `file`, taking it to be of the kind `kind`.
pub fn content_for(file: &NoteFile, kind: &str) -> (text: String)
    ensures
        text@ == content_from(file@, kind@),
{
    let url = asset_url(file.path.as_str());
    let name = file.file_name.as_str();
    if is_text_extension(kind) {
        match &file.text {
            Some(text) => text.clone(),
            None => link(name, url.as_str()),
        }
    } else if is_image_extension(kind) {
        let mut text = "![".to_owned();
        text.append(name);
        text.append("](");
        text.append(url.as_str());
        text.append(")");
        text
    } else if is_video_extension(kind) {
        let mut text = "<video controls width=\"100%\" style=\"max-height: 80vh;\">\n  <source src=\"".to_owned();
        text.append(url.as_str());
        text.append("\" type=\"video/");
        text.append(get_video_mime(kind));
        text.append("\">\n  Your browser does not support the video tag.\n</video>");
        text
    } else if is_audio_extension(kind) {
        let mut text = "<audio controls style=\"width: 100%;\">\n  <source src=\"".to_owned();
        text.append(url.as_str());
        text.append("\" type=\"audio/");
        text.append(get_audio_mime(kind));
        text.append("\">\n  Your browser does not support the audio tag.\n</audio>");
        text
    } else if kind.eq("pdf") {
        let mut text = "<iframe src=\"".to_owned();
        text.append(url.as_str());
        text.append("\" width=\"100%\" height=\"800px\" style=\"border: none;\"></iframe>");
        text
    } else {
        link(name, url.as_str())
    }
}

/// The notes of the notebook `notebook_path`, one for each of its files,
/// in the order of the files.
pub fn list_notes(notebook_path: &str, files: &Vec<NoteFile>) -> (notes: Vec<Note>)
    ensures
        notes.deep_view() == files.deep_view().map_values(
            |f: NoteFileView| note_of(notebook_path@, f),
        ),
{
    let mut notes: Vec<Note> = Vec::new();
    let mut i: usize = 0;
    while i < files.len()
        invariant
            i <= files.len(),
            notes.len() == i,
            forall|k: int|
                0 <= k < i ==> notes.deep_view()[k] == note_of(
                    notebook_path@,
                    files.deep_view()[k],
                ),
        decreases files.len() - i,
    {
        let file = &files[i];
        let (title, ext) = split_name(file.file_name.as_str());
        let kind = to_lowercase(ext.as_str());
        let ghost before = notes.deep_view();
        let note = Note {
            id: file.file_name.clone(),
            title,
            content: content_for(file, kind.as_str()),
            folder: notebook_path.to_owned(),
            created_at: file.created_at.clone(),
            updated_at: file.updated_at.clone(),
        };
        assert(note@ == note_of(notebook_path@, files.deep_view()[i as int]));
        notes.push(note);
        assert(notes.deep_view() =~= before.push(note_of(notebook_path@, files.deep_view()[i as int])));
        i += 1;
    }
    assert(notes.deep_view() =~= files.deep_view().map_values(
        |f: NoteFileView| note_of(notebook_path@, f),
    ));
    notes
}

/// The name of the folder that holds what is attached to the note
/// `note_id`: the stem of the note's file name, or `note_id` itself if it
/// names no file.
pub open spec fn attachments_folder_of(note_id: Seq<char>) -> Seq<char> {
    if names_file(note_id) {
        stem(file_name(note_id))
    } else {
        note_id
    }
}

/// The name of the folder that holds what is attached to the note.
pub fn attachments_folder(note_id: &str) -> (folder: String)
    ensures
        folder@ == attachments_folder_of(note_id@),
{
    match last_component(note_id) {
        Some(name) => {
            let (front, _) = split_name(name.as_str());
            front
        },
        None => note_id.to_owned(),
    }
}

/// Why a note cannot be renamed, if it cannot: the note has to exist, and
/// no file may stand under the new name.
pub open spec fn rename_refusal_of(
    old_id: Seq<char>,
    new_id: Seq<char>,
    old_exists: bool,
    new_exists: bool,
) -> Option<Seq<char>> {
    if !old_exists {
        Some("File does not exist: "@ + old_id)
    } else if new_exists {
        Some("A file with that name already exists: "@ + new_id)
    } else {
        None
    }
}

/// Decides whether the note is renamed.
pub fn rename_refusal(old_id: &str, new_id: &str, old_exists: bool, new_exists: bool) -> (refusal:
    Option<String>)
    ensures
        refusal is Some <==> rename_refusal_of(old_id@, new_id@, old_exists, new_exists) is Some,
        refusal is Some ==> refusal->0@ == rename_refusal_of(
            old_id@,
            new_id@,
            old_exists,
            new_exists,
        )->0,
{
    if !old_exists {
        Some(joined("File does not exist: ", old_id))
    } else if new_exists {
        Some(joined("A file with that name already exists: ", new_id))
    } else {
        None
    }
}

} // verus!
