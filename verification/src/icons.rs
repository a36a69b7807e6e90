//! The icon (a Nerd Font glyph and a colour) shown before each name, by
//! kind: folders, and files by their extension.
use vstd::prelude::*;
use crate::paths::{path_extension, path_extension_of};
use crate::text::{lowercase, to_lowercase};

verus! {

/// The colours of the palette the interface draws with.
#[derive(Clone, Copy, PartialEq, Eq, Structural, Debug)]
pub enum Color {
    Black,
    DarkGray,
    Gray,
    White,
    Red,
    Green,
    Yellow,
    Blue,
    Magenta,
    Cyan,
}

/// The folder glyph.
pub open spec fn folder_glyph() -> Seq<char> {
    "\u{f07b} "@
}

/// The icon of a file whose lower-cased extension is `e`.
pub open spec fn ext_icon(e: Seq<char>) -> (Seq<char>, Color) {
    if e == "rs"@ {
        ("\u{e7a8} "@, Color::Red)
    } else if e == "py"@ || e == "pyw"@ {
        ("\u{e73c} "@, Color::Yellow)
    } else if e == "js"@ || e == "mjs"@ || e == "cjs"@ {
        ("\u{e74e} "@, Color::Yellow)
    } else if e == "ts"@ || e == "mts"@ {
        ("\u{e628} "@, Color::Cyan)
    } else if e == "jsx"@ {
        ("\u{e7ba} "@, Color::Cyan)
    } else if e == "tsx"@ {
        ("\u{e7ba} "@, Color::Cyan)
    } else if e == "lua"@ {
        ("\u{e620} "@, Color::Blue)
    } else if e == "go"@ {
        ("\u{e627} "@, Color::Cyan)
    } else if e == "c"@ || e == "h"@ {
        ("\u{e61e} "@, Color::Blue)
    } else if e == "cpp"@ || e == "cc"@ || e == "hpp"@ {
        ("\u{e61d} "@, Color::Blue)
    } else if e == "cs"@ {
        ("\u{e648} "@, Color::Magenta)
    } else if e == "java"@ {
        ("\u{e738} "@, Color::Red)
    } else if e == "rb"@ {
        ("\u{e739} "@, Color::Red)
    } else if e == "php"@ {
        ("\u{e73d} "@, Color::Magenta)
    } else if e == "swift"@ {
        ("\u{e755} "@, Color::Red)
    } else if e == "kt"@ || e == "kts"@ {
        ("\u{e634} "@, Color::Magenta)
    } else if e == "html"@ || e == "htm"@ {
        ("\u{e736} "@, Color::Red)
    } else if e == "css"@ {
        ("\u{e749} "@, Color::Blue)
    } else if e == "scss"@ || e == "sass"@ {
        ("\u{e603} "@, Color::Magenta)
    } else if e == "md"@ || e == "markdown"@ {
        ("\u{e609} "@, Color::White)
    } else if e == "json"@ {
        ("\u{e60b} "@, Color::Yellow)
    } else if e == "toml"@ {
        ("\u{e60b} "@, Color::Gray)
    } else if e == "yaml"@ || e == "yml"@ {
        ("\u{e60b} "@, Color::Red)
    } else if e == "xml"@ {
        ("\u{e60b} "@, Color::Red)
    } else if e == "sh"@ || e == "bash"@ || e == "zsh"@ || e == "fish"@ {
        ("\u{e795} "@, Color::Green)
    } else if e == "sql"@ {
        ("\u{e706} "@, Color::Cyan)
    } else if e == "dockerfile"@ {
        ("\u{e650} "@, Color::Cyan)
    } else if e == "txt"@ {
        ("\u{f15c} "@, Color::Gray)
    } else if e == "pdf"@ {
        ("\u{f1c1} "@, Color::Red)
    } else if e == "png"@ || e == "jpg"@ || e == "jpeg"@ || e == "gif"@ || e == "svg"@ || e == "webp"@ {
        ("\u{f1c5} "@, Color::Magenta)
    } else if e == "zip"@ || e == "tar"@ || e == "gz"@ || e == "rar"@ {
        ("\u{f1c6} "@, Color::Yellow)
    } else {
        ("\u{f15b} "@, Color::Gray)
    }
}

/// The icon of `name`: a folder (dim for `..`), or by the lower-cased
/// extension of a file, a plain file when it has none.
pub open spec fn icon_of(name: Seq<char>, is_dir: bool) -> (Seq<char>, Color) {
    if is_dir {
        if name == ".."@ {
            (folder_glyph(), Color::DarkGray)
        } else {
            (folder_glyph(), Color::Yellow)
        }
    } else {
        match path_extension_of(name) {
            Some(e) => ext_icon(lowercase(e)),
            None => ("\u{f15b} "@, Color::Gray),
        }
    }
}

/// The icon of a file whose lower-cased extension is `e`.
pub fn icon_for_ext(e: String) -> (r: (&'static str, Color))
    ensures
        (r.0@, r.1) == ext_icon(e@),
{
    if e == String::from_str("rs") {
        ("\u{e7a8} ", Color::Red)
    } else if e == String::from_str("py") || e == String::from_str("pyw") {
        ("\u{e73c} ", Color::Yellow)
    } else if e == String::from_str("js") || e == String::from_str("mjs") || e == String::from_str("cjs") {
        ("\u{e74e} ", Color::Yellow)
    } else if e == String::from_str("ts") || e == String::from_str("mts") {
        ("\u{e628} ", Color::Cyan)
    } else if e == String::from_str("jsx") {
        ("\u{e7ba} ", Color::Cyan)
    } else if e == String::from_str("tsx") {
        ("\u{e7ba} ", Color::Cyan)
    } else if e == String::from_str("lua") {
        ("\u{e620} ", Color::Blue)
    } else if e == String::from_str("go") {
        ("\u{e627} ", Color::Cyan)
    } else if e == String::from_str("c") || e == String::from_str("h") {
        ("\u{e61e} ", Color::Blue)
    } else if e == String::from_str("cpp") || e == String::from_str("cc") || e == String::from_str("hpp") {
        ("\u{e61d} ", Color::Blue)
    } else if e == String::from_str("cs") {
        ("\u{e648} ", Color::Magenta)
    } else if e == String::from_str("java") {
        ("\u{e738} ", Color::Red)
    } else if e == String::from_str("rb") {
        ("\u{e739} ", Color::Red)
    } else if e == String::from_str("php") {
        ("\u{e73d} ", Color::Magenta)
    } else if e == String::from_str("swift") {
        ("\u{e755} ", Color::Red)
    } else if e == String::from_str("kt") || e == String::from_str("kts") {
        ("\u{e634} ", Color::Magenta)
    } else if e == String::from_str("html") || e == String::from_str("htm") {
        ("\u{e736} ", Color::Red)
    } else if e == String::from_str("css") {
        ("\u{e749} ", Color::Blue)
    } else if e == String::from_str("scss") || e == String::from_str("sass") {
        ("\u{e603} ", Color::Magenta)
    } else if e == String::from_str("md") || e == String::from_str("markdown") {
        ("\u{e609} ", Color::White)
    } else if e == String::from_str("json") {
        ("\u{e60b} ", Color::Yellow)
    } else if e == String::from_str("toml") {
        ("\u{e60b} ", Color::Gray)
    } else if e == String::from_str("yaml") || e == String::from_str("yml") {
        ("\u{e60b} ", Color::Red)
    } else if e == String::from_str("xml") {
        ("\u{e60b} ", Color::Red)
    } else if e == String::from_str("sh") || e == String::from_str("bash") || e == String::from_str("zsh") || e == String::from_str("fish") {
        ("\u{e795} ", Color::Green)
    } else if e == String::from_str("sql") {
        ("\u{e706} ", Color::Cyan)
    } else if e == String::from_str("dockerfile") {
        ("\u{e650} ", Color::Cyan)
    } else if e == String::from_str("txt") {
        ("\u{f15c} ", Color::Gray)
    } else if e == String::from_str("pdf") {
        ("\u{f1c1} ", Color::Red)
    } else if e == String::from_str("png") || e == String::from_str("jpg") || e == String::from_str("jpeg") || e == String::from_str("gif") || e == String::from_str("svg") || e == String::from_str("webp") {
        ("\u{f1c5} ", Color::Magenta)
    } else if e == String::from_str("zip") || e == String::from_str("tar") || e == String::from_str("gz") || e == String::from_str("rar") {
        ("\u{f1c6} ", Color::Yellow)
    } else {
        ("\u{f15b} ", Color::Gray)
    }
}

/// The icon shown before `name`: a folder (dim for `..`), or by the
/// extension of a file, compared without case.
pub fn icon_for(name: &str, is_dir: bool) -> (r: (&'static str, Color))
    ensures
        (r.0@, r.1) == icon_of(name@, is_dir),
{
    if is_dir {
        if String::from_str(name) == String::from_str("..") {
            return ("\u{f07b} ", Color::DarkGray);
        }
        return ("\u{f07b} ", Color::Yellow);
    }
    match path_extension(name) {
        Some(e) => icon_for_ext(to_lowercase(e.as_str())),
        None => ("\u{f15b} ", Color::Gray),
    }
}

} // verus!
