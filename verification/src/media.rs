//! File kinds by extension: which files are shown as text, image, video or
//! audio, and the media type named when one is embedded.

use vstd::prelude::*;

verus! {

/// Extensions of files shown as images.
pub open spec fn image_extension(ext: Seq<char>) -> bool {
    ||| ext == "png"@
    ||| ext == "jpg"@
    ||| ext == "jpeg"@
    ||| ext == "gif"@
    ||| ext == "webp"@
    ||| ext == "svg"@
    ||| ext == "bmp"@
    ||| ext == "ico"@
    ||| ext == "tiff"@
    ||| ext == "tif"@
}

/// Extensions of files shown with a video player.
pub open spec fn video_extension(ext: Seq<char>) -> bool {
    ||| ext == "mp4"@
    ||| ext == "webm"@
    ||| ext == "mov"@
    ||| ext == "avi"@
    ||| ext == "mkv"@
    ||| ext == "m4v"@
    ||| ext == "ogv"@
    ||| ext == "3gp"@
    ||| ext == "wmv"@
}

/// Extensions of files shown with an audio player.
pub open spec fn audio_extension(ext: Seq<char>) -> bool {
    ||| ext == "mp3"@
    ||| ext == "wav"@
    ||| ext == "ogg"@
    ||| ext == "flac"@
    ||| ext == "aac"@
    ||| ext == "m4a"@
    ||| ext == "wma"@
    ||| ext == "opus"@
}

/// Extensions of files whose content is read as text. A file without an
/// extension counts as text.
pub open spec fn text_extension(ext: Seq<char>) -> bool {
    ||| ext == "md"@
    ||| ext == "markdown"@
    ||| ext == "mdown"@
    ||| ext == "mkd"@
    ||| ext == "txt"@
    ||| ext == "text"@
    ||| ext == "log"@
    ||| ext == "json"@
    ||| ext == "yaml"@
    ||| ext == "yml"@
    ||| ext == "toml"@
    ||| ext == "ini"@
    ||| ext == "cfg"@
    ||| ext == "conf"@
    ||| ext == "config"@
    ||| ext == "rs"@
    ||| ext == "py"@
    ||| ext == "js"@
    ||| ext == "ts"@
    ||| ext == "jsx"@
    ||| ext == "tsx"@
    ||| ext == "java"@
    ||| ext == "c"@
    ||| ext == "cpp"@
    ||| ext == "h"@
    ||| ext == "hpp"@
    ||| ext == "go"@
    ||| ext == "rb"@
    ||| ext == "php"@
    ||| ext == "swift"@
    ||| ext == "kt"@
    ||| ext == "scala"@
    ||| ext == "cs"@
    ||| ext == "fs"@
    ||| ext == "vb"@
    ||| ext == "lua"@
    ||| ext == "pl"@
    ||| ext == "pm"@
    ||| ext == "r"@
    ||| ext == "m"@
    ||| ext == "mm"@
    ||| ext == "sql"@
    ||| ext == "sh"@
    ||| ext == "bash"@
    ||| ext == "zsh"@
    ||| ext == "fish"@
    ||| ext == "ps1"@
    ||| ext == "psm1"@
    ||| ext == "bat"@
    ||| ext == "cmd"@
    ||| ext == "html"@
    ||| ext == "htm"@
    ||| ext == "css"@
    ||| ext == "scss"@
    ||| ext == "sass"@
    ||| ext == "less"@
    ||| ext == "xml"@
    ||| ext == "xsl"@
    ||| ext == "xslt"@
    ||| ext == "svg"@
    ||| ext == "vue"@
    ||| ext == "svelte"@
    ||| ext == "csv"@
    ||| ext == "tsv"@
    ||| ext == "pem"@
    ||| ext == "crt"@
    ||| ext == "cer"@
    ||| ext == "key"@
    ||| ext == "pub"@
    ||| ext == "rst"@
    ||| ext == "adoc"@
    ||| ext == "asciidoc"@
    ||| ext == "org"@
    ||| ext == "tex"@
    ||| ext == "latex"@
    ||| ext == "env"@
    ||| ext == "gitignore"@
    ||| ext == "dockerignore"@
    ||| ext == "editorconfig"@
    ||| ext == "prettierrc"@
    ||| ext == "eslintrc"@
    ||| ext == "babelrc"@
    ||| ext == "nvmrc"@
    ||| ext == "npmrc"@
    ||| ext == "yarnrc"@
    ||| ext == "makefile"@
    ||| ext == "cmake"@
    ||| ext == "gradle"@
    ||| ext == "properties"@
    ||| ext == ""@
}

/// The subtype written after `video/` for a file with extension `ext`;
/// `mp4` for an extension that is not listed.
pub open spec fn video_mime(ext: Seq<char>) -> Seq<char> {
    if ext == "mp4"@ || ext == "m4v"@ {
        "mp4"@
    } else if ext == "webm"@ {
        "webm"@
    } else if ext == "mov"@ {
        "quicktime"@
    } else if ext == "avi"@ {
        "x-msvideo"@
    } else if ext == "mkv"@ {
        "x-matroska"@
    } else if ext == "ogv"@ {
        "ogg"@
    } else if ext == "3gp"@ {
        "3gpp"@
    } else if ext == "wmv"@ {
        "x-ms-wmv"@
    } else {
        "mp4"@
    }
}

/// The subtype written after `audio/` for a file with extension `ext`;
/// `mpeg` for an extension that is not listed.
pub open spec fn audio_mime(ext: Seq<char>) -> Seq<char> {
    if ext == "mp3"@ {
        "mpeg"@
    } else if ext == "wav"@ {
        "wav"@
    } else if ext == "ogg"@ || ext == "opus"@ {
        "ogg"@
    } else if ext == "flac"@ {
        "flac"@
    } else if ext == "aac"@ || ext == "m4a"@ {
        "aac"@
    } else if ext == "wma"@ {
        "x-ms-wma"@
    } else if ext == "webm"@ {
        "webm"@
    } else {
        "mpeg"@
    }
}

/// Whether a file with the extension `ext` is shown as an image.
pub fn is_image_extension(ext: &str) -> (r: bool)
    ensures
        r == image_extension(ext@),
{
    ext.eq("png")
    || ext.eq("jpg")
    || ext.eq("jpeg")
    || ext.eq("gif")
    || ext.eq("webp")
    || ext.eq("svg")
    || ext.eq("bmp")
    || ext.eq("ico")
    || ext.eq("tiff")
    || ext.eq("tif")
}

/// Whether a file with the extension `ext` is shown with a video player.
pub fn is_video_extension(ext: &str) -> (r: bool)
    ensures
        r == video_extension(ext@),
{
    ext.eq("mp4")
    || ext.eq("webm")
    || ext.eq("mov")
    || ext.eq("avi")
    || ext.eq("mkv")
    || ext.eq("m4v")
    || ext.eq("ogv")
    || ext.eq("3gp")
    || ext.eq("wmv")
}

/// Whether a file with the extension `ext` is shown with an audio player.
pub fn is_audio_extension(ext: &str) -> (r: bool)
    ensures
        r == audio_extension(ext@),
{
    ext.eq("mp3")
    || ext.eq("wav")
    || ext.eq("ogg")
    || ext.eq("flac")
    || ext.eq("aac")
    || ext.eq("m4a")
    || ext.eq("wma")
    || ext.eq("opus")
}

/// The subtype written after `video/` for the extension `ext`.
pub fn get_video_mime(ext: &str) -> (mime: &str)
    ensures
        mime@ == video_mime(ext@),
{
    if ext.eq("mp4") || ext.eq("m4v") {
        "mp4"
    } else if ext.eq("webm") {
        "webm"
    } else if ext.eq("mov") {
        "quicktime"
    } else if ext.eq("avi") {
        "x-msvideo"
    } else if ext.eq("mkv") {
        "x-matroska"
    } else if ext.eq("ogv") {
        "ogg"
    } else if ext.eq("3gp") {
        "3gpp"
    } else if ext.eq("wmv") {
        "x-ms-wmv"
    } else {
        "mp4"
    }
}

/// The subtype written after `audio/` for the extension `ext`.
pub fn get_audio_mime(ext: &str) -> (mime: &str)
    ensures
        mime@ == audio_mime(ext@),
{
    if ext.eq("mp3") {
        "mpeg"
    } else if ext.eq("wav") {
        "wav"
    } else if ext.eq("ogg") || ext.eq("opus") {
        "ogg"
    } else if ext.eq("flac") {
        "flac"
    } else if ext.eq("aac") || ext.eq("m4a") {
        "aac"
    } else if ext.eq("wma") {
        "x-ms-wma"
    } else if ext.eq("webm") {
        "webm"
    } else {
        "mpeg"
    }
}

/// Whether a file with the extension `ext` is read as text.
pub fn is_text_extension(ext: &str) -> (r: bool)
    ensures
        r == text_extension(ext@),
{
    ext.eq("md")
    || ext.eq("markdown")
    || ext.eq("mdown")
    || ext.eq("mkd")
    || ext.eq("txt")
    || ext.eq("text")
    || ext.eq("log")
    || ext.eq("json")
    || ext.eq("yaml")
    || ext.eq("yml")
    || ext.eq("toml")
    || ext.eq("ini")
    || ext.eq("cfg")
    || ext.eq("conf")
    || ext.eq("config")
    || ext.eq("rs")
    || ext.eq("py")
    || ext.eq("js")
    || ext.eq("ts")
    || ext.eq("jsx")
    || ext.eq("tsx")
    || ext.eq("java")
    || ext.eq("c")
    || ext.eq("cpp")
    || ext.eq("h")
    || ext.eq("hpp")
    || ext.eq("go")
    || ext.eq("rb")
    || ext.eq("php")
    || ext.eq("swift")
    || ext.eq("kt")
    || ext.eq("scala")
    || ext.eq("cs")
    || ext.eq("fs")
    || ext.eq("vb")
    || ext.eq("lua")
    || ext.eq("pl")
    || ext.eq("pm")
    || ext.eq("r")
    || ext.eq("m")
    || ext.eq("mm")
    || ext.eq("sql")
    || ext.eq("sh")
    || ext.eq("bash")
    || ext.eq("zsh")
    || ext.eq("fish")
    || ext.eq("ps1")
    || ext.eq("psm1")
    || ext.eq("bat")
    || ext.eq("cmd")
    || ext.eq("html")
    || ext.eq("htm")
    || ext.eq("css")
    || ext.eq("scss")
    || ext.eq("sass")
    || ext.eq("less")
    || ext.eq("xml")
    || ext.eq("xsl")
    || ext.eq("xslt")
    || ext.eq("svg")
    || ext.eq("vue")
    || ext.eq("svelte")
    || ext.eq("csv")
    || ext.eq("tsv")
    || ext.eq("pem")
    || ext.eq("crt")
    || ext.eq("cer")
    || ext.eq("key")
    || ext.eq("pub")
    || ext.eq("rst")
    || ext.eq("adoc")
    || ext.eq("asciidoc")
    || ext.eq("org")
    || ext.eq("tex")
    || ext.eq("latex")
    || ext.eq("env")
    || ext.eq("gitignore")
    || ext.eq("dockerignore")
    || ext.eq("editorconfig")
    || ext.eq("prettierrc")
    || ext.eq("eslintrc")
    || ext.eq("babelrc")
    || ext.eq("nvmrc")
    || ext.eq("npmrc")
    || ext.eq("yarnrc")
    || ext.eq("makefile")
    || ext.eq("cmake")
    || ext.eq("gradle")
    || ext.eq("properties")
    || ext.eq("")
}

} // verus!
