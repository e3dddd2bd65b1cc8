//! The editor's keyboard shortcuts: Alt with a letter, without Cmd or
//! Ctrl. A key is recognised by its physical code, by its character in
//! either case, or by the character macOS types for Option with it.

use vstd::prelude::*;
use crate::text::{lowercase, same_text, to_lowercase};

verus! {

/// Which shortcut keys a key press is.
#[derive(Clone, Copy, Debug, PartialEq, Eq, Structural)]
pub struct ShortcutKeys {
    /// Alt is held, and neither Cmd nor Ctrl.
    pub modifier: bool,
    pub l: bool,
    pub h: bool,
    pub m: bool,
    pub e: bool,
    pub c: bool,
    pub i: bool,
    pub plus: bool,
    pub minus: bool,
    /// A shortcut the app takes over, so the browser's default is blocked.
    pub app_key: bool,
}

/// Whether a key press is the letter with code `code`, lower-case
/// character `lower`, or Option character `option_char` (compared lower-
/// cased).
pub open spec fn letter(key: Seq<char>, code: Seq<char>, letter_code: Seq<char>, lower: Seq<char>, option_char: Seq<char>) -> bool {
    code == letter_code || lowercase(key) == lower || lowercase(key) == option_char
}

/// The shortcut keys of a key press.
pub open spec fn shortcut_keys(key: Seq<char>, code: Seq<char>, alt: bool, meta: bool, ctrl: bool) -> ShortcutKeys {
    let modifier = alt && !meta && !ctrl;
    let l = letter(key, code, "KeyL"@, "l"@, "\u{ac}"@);
    let h = letter(key, code, "KeyH"@, "h"@, "\u{2d9}"@);
    let m = letter(key, code, "KeyM"@, "m"@, "\u{b5}"@);
    let e = letter(key, code, "KeyE"@, "e"@, "\u{b4}"@);
    let c = code == "KeyC"@ || lowercase(key) == "c"@ || key == "\u{a9}"@;
    let i = letter(key, code, "KeyI"@, "i"@, "\u{2c6}"@);
    let plus = code == "Equal"@ || key == "="@ || key == "+"@ || key == "\u{2260}"@;
    let minus = code == "Minus"@ || key == "-"@ || key == "\u{2013}"@;
    let other = code == "KeyN"@ || code == "KeyS"@ || code == "KeyO"@ || code == "KeyF"@ || code == "KeyW"@
        || code == "BracketLeft"@ || code == "BracketRight"@ || code == "Comma"@ || code == "KeyT"@
        || code == "KeyE"@ || code == "KeyI"@;
    ShortcutKeys {
        modifier,
        l,
        h,
        m,
        e,
        c,
        i,
        plus,
        minus,
        app_key: modifier && (l || h || m || plus || minus || other),
    }
}

/// Recognises the shortcut keys of a key press (`key` and `code` as the
/// browser names them).
pub fn read_shortcut_keys(key: &str, code: &str, alt: bool, meta: bool, ctrl: bool) -> (r: ShortcutKeys)
    ensures
        r == shortcut_keys(key@, code@, alt, meta, ctrl),
{
    let modifier = alt && !meta && !ctrl;
    let lower = to_lowercase(key);
    let lo = lower.as_str();
    let l = same_text(code, "KeyL") || same_text(lo, "l") || same_text(lo, "\u{ac}");
    let h = same_text(code, "KeyH") || same_text(lo, "h") || same_text(lo, "\u{2d9}");
    let m = same_text(code, "KeyM") || same_text(lo, "m") || same_text(lo, "\u{b5}");
    let e = same_text(code, "KeyE") || same_text(lo, "e") || same_text(lo, "\u{b4}");
    let c = same_text(code, "KeyC") || same_text(lo, "c") || same_text(key, "\u{a9}");
    let i = same_text(code, "KeyI") || same_text(lo, "i") || same_text(lo, "\u{2c6}");
    let plus = same_text(code, "Equal") || same_text(key, "=") || same_text(key, "+") || same_text(key, "\u{2260}");
    let minus = same_text(code, "Minus") || same_text(key, "-") || same_text(key, "\u{2013}");
    let other = same_text(code, "KeyN") || same_text(code, "KeyS") || same_text(code, "KeyO") || same_text(code, "KeyF")
        || same_text(code, "KeyW") || same_text(code, "BracketLeft") || same_text(code, "BracketRight")
        || same_text(code, "Comma") || same_text(code, "KeyT") || same_text(code, "KeyE") || same_text(code, "KeyI");
    ShortcutKeys {
        modifier,
        l,
        h,
        m,
        e,
        c,
        i,
        plus,
        minus,
        app_key: modifier && (l || h || m || plus || minus || other),
    }
}

/// A command the editor sends to the app.
#[derive(Clone, Copy, Debug, PartialEq, Eq, Structural)]
pub enum EditorCommand {
    Save,
    NewSheet,
    NewLocalSheet,
    Open,
    Import,
    Preview,
    Help,
    Change,
    /// A name the app does not know: ignored.
    Unknown,
}

/// The command the editor's message names.
pub open spec fn command_named(name: Seq<char>) -> EditorCommand {
    if name == "save"@ { EditorCommand::Save }
    else if name == "new_sheet"@ { EditorCommand::NewSheet }
    else if name == "new_local_sheet"@ { EditorCommand::NewLocalSheet }
    else if name == "open"@ { EditorCommand::Open }
    else if name == "import"@ { EditorCommand::Import }
    else if name == "preview"@ { EditorCommand::Preview }
    else if name == "help"@ { EditorCommand::Help }
    else if name == "change"@ { EditorCommand::Change }
    else { EditorCommand::Unknown }
}

/// Reads the command the editor sent (see `command_named`).
pub fn read_editor_command(name: &str) -> (r: EditorCommand)
    ensures
        r == command_named(name@),
{
    if same_text(name, "save") { EditorCommand::Save }
    else if same_text(name, "new_sheet") { EditorCommand::NewSheet }
    else if same_text(name, "new_local_sheet") { EditorCommand::NewLocalSheet }
    else if same_text(name, "open") { EditorCommand::Open }
    else if same_text(name, "import") { EditorCommand::Import }
    else if same_text(name, "preview") { EditorCommand::Preview }
    else if same_text(name, "help") { EditorCommand::Help }
    else if same_text(name, "change") { EditorCommand::Change }
    else { EditorCommand::Unknown }
}

} // verus!
