//! Where a key press in the main window goes: the Alt shortcuts, the keys
//! of the full-screen preview, and what is left for open dialogs or the
//! editor. The decision depends only on the key and on what the window
//! shows; the window then carries it out.

use vstd::prelude::*;
use crate::preview::ScrollMove;
use crate::shortcuts::{letter, read_shortcut_keys, shortcut_keys};
use crate::text::{lowercase, same_text, to_lowercase};

verus! {

/// What the window shows when a key is pressed.
#[derive(Clone, Copy, Debug, PartialEq, Eq, Structural)]
pub struct KeyContext {
    /// A loading screen or its fade-out is showing.
    pub busy: bool,
    /// A dialog or another overlay is open.
    pub overlay: bool,
    /// The active sheet is shown as a full-screen preview.
    pub preview: bool,
    /// A terminal tab is active.
    pub terminal: bool,
    /// The split view is open.
    pub split_open: bool,
    /// The split view shows a sheet beside a terminal.
    pub split_pane_sheet: bool,
    /// The sheet beside a terminal is being edited.
    pub split_edit: bool,
    pub settings_open: bool,
    pub file_open: bool,
    pub help_open: bool,
    /// Nobody is signed in.
    pub guest: bool,
    /// The desktop app (terminals exist only there).
    pub desktop: bool,
    /// A sheet is active (or was, under a terminal).
    pub has_active_sheet: bool,
}

/// Where a key press goes.
#[derive(Clone, Copy, Debug, PartialEq, Eq, Structural)]
pub enum KeyRoute {
    /// The key is swallowed.
    Blocked,
    /// The key is taken, and nothing happens.
    Consumed,
    /// The split view beside the terminal closes.
    CloseTerminalSplit,
    /// The dialog to pick the sheet shown beside the terminal opens.
    OpenTabSelect,
    /// The full-screen preview is turned on or off.
    SetFullPreview(bool),
    /// The sheet beside the terminal switches between preview and editing.
    ToggleSplitEdit,
    /// The sheet's split view closes.
    CloseSplit,
    /// The sheet's split view opens.
    OpenSplit,
    /// The next tab to the left (`true`) or right becomes active.
    CycleTabs(bool),
    /// The full-screen preview closes.
    ClosePreview,
    /// The preview's font size steps.
    PreviewFontStep(i32),
    /// The preview scrolls.
    PreviewScroll(ScrollMove),
    /// A terminal tab opens.
    NewTerminal,
    ToggleSettings,
    ToggleFileDialog,
    ToggleHelp,
    ShowSheetInfo,
    /// The character-code panel opens for the character at the cursor (of
    /// the editor beside the terminal when `true`).
    ShowCharCode(bool),
    /// The terminal's font size steps.
    TerminalFontStep(i32),
    /// The editor's font size steps.
    EditorFontStep(i32),
    Import,
    Find,
    SaveSheet,
    NewLocalSheet,
    NewSheet,
    /// The dialog asking whether to close the terminal or the sheet opens.
    AskWhichToClose,
    /// The active sheet's tab closes.
    CloseActiveSheet,
    /// The key goes to the open dialog.
    Overlay,
    /// The key is not the window's: the editor or the terminal gets it.
    Default,
}

/// How the full-screen preview scrolls for a key.
pub open spec fn preview_scroll(key: Seq<char>) -> Option<ScrollMove> {
    if key == "PageUp"@ {
        Some(ScrollMove::HalfPageUp)
    } else if key == "PageDown"@ || key == " "@ {
        Some(ScrollMove::HalfPageDown)
    } else if key == "ArrowUp"@ {
        Some(ScrollMove::LineUp)
    } else if key == "ArrowDown"@ {
        Some(ScrollMove::LineDown)
    } else if key == "Home"@ {
        Some(ScrollMove::Top)
    } else if key == "End"@ {
        Some(ScrollMove::Bottom)
    } else {
        None
    }
}

/// The Alt shortcuts the full-screen preview lets through.
pub open spec fn passes_preview(key: Seq<char>, code: Seq<char>, alt: bool, meta: bool, ctrl: bool) -> bool {
    let k = shortcut_keys(key, code, alt, meta, ctrl);
    k.l || k.h || k.m || code == "BracketLeft"@ || code == "BracketRight"@ || code == "KeyW"@
        || code == "Comma"@ || code == "KeyN"@ || code == "KeyT"@
}

/// The keys of the full-screen preview: Escape closes it, Alt with `=` or
/// `-` steps its font size, other Alt keys are swallowed, the page, arrow,
/// Home, End and Space keys scroll it, and everything else is swallowed.
pub open spec fn preview_route(key: Seq<char>, code: Seq<char>, alt: bool, meta: bool, ctrl: bool) -> KeyRoute {
    let k = shortcut_keys(key, code, alt, meta, ctrl);
    let font = k.modifier && (k.plus || k.minus);
    if key == "Escape"@ {
        KeyRoute::ClosePreview
    } else if font {
        KeyRoute::PreviewFontStep(if k.plus { 1i32 } else { -1i32 })
    } else if k.modifier {
        KeyRoute::Blocked
    } else {
        match preview_scroll(key) {
            Some(m) => KeyRoute::PreviewScroll(m),
            None => KeyRoute::Blocked,
        }
    }
}

/// The shortcuts checked after the preview's keys, in order.
pub open spec fn later_route(key: Seq<char>, code: Seq<char>, alt: bool, meta: bool, ctrl: bool, shift: bool, ctx: KeyContext) -> KeyRoute {
    let k = shortcut_keys(key, code, alt, meta, ctrl);
    let md = k.modifier;
    let font = md && (k.plus || k.minus);
    let step: i32 = if k.plus { 1i32 } else { -1i32 };
    let split_edit_active = ctx.terminal && ctx.split_edit;
    let o = letter(key, code, "KeyO"@, "o"@, "\u{f8}"@);
    let f = letter(key, code, "KeyF"@, "f"@, "\u{192}"@);
    let s = letter(key, code, "KeyS"@, "s"@, "\u{df}"@);
    let n = letter(key, code, "KeyN"@, "n"@, "\u{2dc}"@);
    let w = code == "KeyW"@;
    if md && code == "KeyT"@ && !ctx.overlay && ctx.desktop {
        KeyRoute::NewTerminal
    } else if md && (code == "Comma"@ || key == ","@) && (!ctx.overlay || ctx.settings_open) {
        KeyRoute::ToggleSettings
    } else if md && k.m && (!ctx.overlay || ctx.file_open) && !ctx.guest {
        KeyRoute::ToggleFileDialog
    } else if md && k.h && (!ctx.overlay || ctx.help_open) {
        KeyRoute::ToggleHelp
    } else if md && k.i && !ctx.overlay && (!ctx.terminal || (ctx.split_open && ctx.split_pane_sheet)) {
        KeyRoute::ShowSheetInfo
    } else if md && k.c && !ctx.overlay && (!ctx.terminal || split_edit_active) {
        KeyRoute::ShowCharCode(split_edit_active)
    } else if font && !ctx.overlay && ctx.terminal {
        KeyRoute::TerminalFontStep(step)
    } else if md && !ctx.overlay && (font || o || f || s || n || w) {
        if font {
            KeyRoute::EditorFontStep(step)
        } else if o {
            KeyRoute::Import
        } else if f {
            KeyRoute::Find
        } else if s {
            KeyRoute::SaveSheet
        } else if n && shift {
            KeyRoute::NewLocalSheet
        } else if n {
            KeyRoute::NewSheet
        } else if ctx.split_open && ctx.terminal {
            KeyRoute::AskWhichToClose
        } else if ctx.terminal || !ctx.has_active_sheet {
            KeyRoute::Consumed
        } else {
            KeyRoute::CloseActiveSheet
        }
    } else if ctx.overlay {
        KeyRoute::Overlay
    } else {
        KeyRoute::Default
    }
}

/// Where a key press goes (`key` and `code` as the browser names them).
/// While busy every key is swallowed. Alt+L toggles the full preview of a
/// sheet, and beside a terminal closes the split or asks for the sheet to
/// show; Alt+E opens or closes a sheet's split view, and switches the
/// editing of the sheet beside a terminal; Alt+[ and Alt+] cycle the tabs.
/// With the full preview of a sheet showing and no dialog, the preview's
/// keys come next (see `preview_route`), except for the Alt shortcuts it
/// lets through; then the other shortcuts (see `later_route`).
pub open spec fn key_route(key: Seq<char>, code: Seq<char>, alt: bool, meta: bool, ctrl: bool, shift: bool, ctx: KeyContext) -> KeyRoute {
    let k = shortcut_keys(key, code, alt, meta, ctrl);
    let md = k.modifier;
    let font = md && (k.plus || k.minus);
    let terminal_ctx = ctx.terminal || (ctx.split_open && ctx.split_pane_sheet);
    if ctx.busy {
        KeyRoute::Blocked
    } else if md && k.l && !ctx.overlay {
        if terminal_ctx {
            if ctx.split_open {
                KeyRoute::CloseTerminalSplit
            } else if ctx.has_active_sheet {
                KeyRoute::OpenTabSelect
            } else {
                KeyRoute::Consumed
            }
        } else {
            KeyRoute::SetFullPreview(!ctx.preview)
        }
    } else if md && k.e && !ctx.overlay && (!ctx.preview || (ctx.terminal && ctx.split_open)) {
        if ctx.terminal {
            if ctx.split_open { KeyRoute::ToggleSplitEdit } else { KeyRoute::Consumed }
        } else if ctx.split_open {
            KeyRoute::CloseSplit
        } else if ctx.has_active_sheet {
            KeyRoute::OpenSplit
        } else {
            KeyRoute::Consumed
        }
    } else if md && (code == "BracketLeft"@ || code == "BracketRight"@) && !ctx.overlay {
        KeyRoute::CycleTabs(code == "BracketLeft"@)
    } else if ctx.preview && !ctx.overlay && !ctx.terminal
        && !(key != "Escape"@ && !font && md && passes_preview(key, code, alt, meta, ctrl)) {
        preview_route(key, code, alt, meta, ctrl)
    } else {
        later_route(key, code, alt, meta, ctrl, shift, ctx)
    }
}

fn scroll_of(key: &str) -> (r: Option<ScrollMove>)
    ensures
        r == preview_scroll(key@),
{
    if same_text(key, "PageUp") {
        Some(ScrollMove::HalfPageUp)
    } else if same_text(key, "PageDown") || same_text(key, " ") {
        Some(ScrollMove::HalfPageDown)
    } else if same_text(key, "ArrowUp") {
        Some(ScrollMove::LineUp)
    } else if same_text(key, "ArrowDown") {
        Some(ScrollMove::LineDown)
    } else if same_text(key, "Home") {
        Some(ScrollMove::Top)
    } else if same_text(key, "End") {
        Some(ScrollMove::Bottom)
    } else {
        None
    }
}

fn letter_key(lower: &str, code: &str, letter_code: &str, lower_letter: &str, option_char: &str) -> (r: bool)
    ensures
        r == (code@ == letter_code@ || lower@ == lower_letter@ || lower@ == option_char@),
{
    same_text(code, letter_code) || same_text(lower, lower_letter) || same_text(lower, option_char)
}

/// Decides where a key press goes (see `key_route`).
pub fn route_key(key: &str, code: &str, alt: bool, meta: bool, ctrl: bool, shift: bool, ctx: KeyContext) -> (r: KeyRoute)
    ensures
        r == key_route(key@, code@, alt, meta, ctrl, shift, ctx),
{
    let k = read_shortcut_keys(key, code, alt, meta, ctrl);
    let md = k.modifier;
    let font = md && (k.plus || k.minus);
    let step: i32 = if k.plus { 1 } else { -1 };
    let terminal_ctx = ctx.terminal || (ctx.split_open && ctx.split_pane_sheet);
    let bracket_left = same_text(code, "BracketLeft");
    let bracket_right = same_text(code, "BracketRight");
    if ctx.busy {
        return KeyRoute::Blocked;
    }
    if md && k.l && !ctx.overlay {
        return if terminal_ctx {
            if ctx.split_open {
                KeyRoute::CloseTerminalSplit
            } else if ctx.has_active_sheet {
                KeyRoute::OpenTabSelect
            } else {
                KeyRoute::Consumed
            }
        } else {
            KeyRoute::SetFullPreview(!ctx.preview)
        };
    }
    if md && k.e && !ctx.overlay && (!ctx.preview || (ctx.terminal && ctx.split_open)) {
        return if ctx.terminal {
            if ctx.split_open { KeyRoute::ToggleSplitEdit } else { KeyRoute::Consumed }
        } else if ctx.split_open {
            KeyRoute::CloseSplit
        } else if ctx.has_active_sheet {
            KeyRoute::OpenSplit
        } else {
            KeyRoute::Consumed
        };
    }
    if md && (bracket_left || bracket_right) && !ctx.overlay {
        return KeyRoute::CycleTabs(bracket_left);
    }
    let escape = same_text(key, "Escape");
    let passes = k.l || k.h || k.m || bracket_left || bracket_right || same_text(code, "KeyW")
        || same_text(code, "Comma") || same_text(code, "KeyN") || same_text(code, "KeyT");
    if ctx.preview && !ctx.overlay && !ctx.terminal && !(!escape && !font && md && passes) {
        return if escape {
            KeyRoute::ClosePreview
        } else if font {
            KeyRoute::PreviewFontStep(step)
        } else if md {
            KeyRoute::Blocked
        } else {
            match scroll_of(key) {
                Some(m) => KeyRoute::PreviewScroll(m),
                None => KeyRoute::Blocked,
            }
        };
    }
    let lower = to_lowercase(key);
    let lo = lower.as_str();
    let split_edit_active = ctx.terminal && ctx.split_edit;
    let o = letter_key(lo, code, "KeyO", "o", "\u{f8}");
    let f = letter_key(lo, code, "KeyF", "f", "\u{192}");
    let s = letter_key(lo, code, "KeyS", "s", "\u{df}");
    let n = letter_key(lo, code, "KeyN", "n", "\u{2dc}");
    let w = same_text(code, "KeyW");
    if md && same_text(code, "KeyT") && !ctx.overlay && ctx.desktop {
        KeyRoute::NewTerminal
    } else if md && (same_text(code, "Comma") || same_text(key, ",")) && (!ctx.overlay || ctx.settings_open) {
        KeyRoute::ToggleSettings
    } else if md && k.m && (!ctx.overlay || ctx.file_open) && !ctx.guest {
        KeyRoute::ToggleFileDialog
    } else if md && k.h && (!ctx.overlay || ctx.help_open) {
        KeyRoute::ToggleHelp
    } else if md && k.i && !ctx.overlay && (!ctx.terminal || (ctx.split_open && ctx.split_pane_sheet)) {
        KeyRoute::ShowSheetInfo
    } else if md && k.c && !ctx.overlay && (!ctx.terminal || split_edit_active) {
        KeyRoute::ShowCharCode(split_edit_active)
    } else if font && !ctx.overlay && ctx.terminal {
        KeyRoute::TerminalFontStep(step)
    } else if md && !ctx.overlay && (font || o || f || s || n || w) {
        if font {
            KeyRoute::EditorFontStep(step)
        } else if o {
            KeyRoute::Import
        } else if f {
            KeyRoute::Find
        } else if s {
            KeyRoute::SaveSheet
        } else if n && shift {
            KeyRoute::NewLocalSheet
        } else if n {
            KeyRoute::NewSheet
        } else if ctx.split_open && ctx.terminal {
            KeyRoute::AskWhichToClose
        } else if ctx.terminal || !ctx.has_active_sheet {
            KeyRoute::Consumed
        } else {
            KeyRoute::CloseActiveSheet
        }
    } else if ctx.overlay {
        KeyRoute::Overlay
    } else {
        KeyRoute::Default
    }
}

/// While a dialog is open, a key either goes to it or toggles that same
/// dialog (settings, file dialog or help); no other shortcut acts, and a
/// busy window swallows every key.
pub proof fn lemma_dialog_keeps_the_keyboard(key: Seq<char>, code: Seq<char>, alt: bool, meta: bool, ctrl: bool, shift: bool, ctx: KeyContext)
    requires
        ctx.overlay,
    ensures
        ({
            let r = key_route(key, code, alt, meta, ctrl, shift, ctx);
            ||| r == KeyRoute::Blocked && ctx.busy
            ||| r == KeyRoute::Overlay
            ||| r == KeyRoute::ToggleSettings && ctx.settings_open
            ||| r == KeyRoute::ToggleFileDialog && ctx.file_open
            ||| r == KeyRoute::ToggleHelp && ctx.help_open
        }),
{
}

/// Without Alt (or with Cmd or Ctrl held), no shortcut acts: the key goes
/// to the preview's own keys, an open dialog, or the editor.
pub proof fn lemma_plain_keys_are_not_shortcuts(key: Seq<char>, code: Seq<char>, alt: bool, meta: bool, ctrl: bool, shift: bool, ctx: KeyContext)
    requires
        !(alt && !meta && !ctrl),
        !ctx.busy,
    ensures
        ({
            let r = key_route(key, code, alt, meta, ctrl, shift, ctx);
            ||| r == KeyRoute::Overlay
            ||| r == KeyRoute::Default
            ||| r == KeyRoute::ClosePreview
            ||| r == KeyRoute::Blocked
            ||| r is PreviewScroll
        }),
{
}

/// In the full-screen preview of a sheet, with no dialog, no terminal and
/// nothing loading, the plain navigation keys (Alt not held alone) scroll
/// it: ArrowUp and ArrowDown a line up and down, PageUp and PageDown (and
/// Space) half a page, Home and End to the top and the bottom; what the
/// key's code is does not matter.
pub proof fn lemma_preview_navigation_keys(code: Seq<char>, alt: bool, meta: bool, ctrl: bool, shift: bool, ctx: KeyContext)
    requires
        ctx.preview,
        !ctx.overlay,
        !ctx.terminal,
        !ctx.busy,
        !(alt && !meta && !ctrl),
    ensures
        key_route("ArrowUp"@, code, alt, meta, ctrl, shift, ctx) == KeyRoute::PreviewScroll(ScrollMove::LineUp),
        key_route("ArrowDown"@, code, alt, meta, ctrl, shift, ctx) == KeyRoute::PreviewScroll(ScrollMove::LineDown),
        key_route("PageUp"@, code, alt, meta, ctrl, shift, ctx) == KeyRoute::PreviewScroll(ScrollMove::HalfPageUp),
        key_route("PageDown"@, code, alt, meta, ctrl, shift, ctx) == KeyRoute::PreviewScroll(ScrollMove::HalfPageDown),
        key_route(" "@, code, alt, meta, ctrl, shift, ctx) == KeyRoute::PreviewScroll(ScrollMove::HalfPageDown),
        key_route("Home"@, code, alt, meta, ctrl, shift, ctx) == KeyRoute::PreviewScroll(ScrollMove::Top),
        key_route("End"@, code, alt, meta, ctrl, shift, ctx) == KeyRoute::PreviewScroll(ScrollMove::Bottom),
        key_route("Escape"@, code, alt, meta, ctrl, shift, ctx) == KeyRoute::ClosePreview,
{
    reveal_strlit("ArrowUp");
    reveal_strlit("ArrowDown");
    reveal_strlit("PageUp");
    reveal_strlit("PageDown");
    reveal_strlit(" ");
    reveal_strlit("Home");
    reveal_strlit("End");
    reveal_strlit("Escape");
    assert("PageUp"@[0] != "Escape"@[0]);
    assert("ArrowUp"@.len() != "Escape"@.len());
    assert("ArrowDown"@.len() != "Escape"@.len());
    assert("PageDown"@.len() != "Escape"@.len());
    assert("Home"@.len() != "Escape"@.len());
    assert("End"@.len() != "Escape"@.len());
    assert(" "@.len() != "Escape"@.len());
    assert("ArrowUp"@.len() != "PageUp"@.len());
    assert("ArrowUp"@.len() != "PageDown"@.len());
    assert("ArrowUp"@.len() != " "@.len());
    assert("ArrowDown"@.len() != "PageUp"@.len());
    assert("ArrowDown"@.len() != "PageDown"@.len());
    assert("ArrowDown"@.len() != " "@.len());
    assert("ArrowDown"@.len() != "ArrowUp"@.len());
    assert("Home"@.len() != "PageUp"@.len());
    assert("Home"@.len() != "PageDown"@.len());
    assert("Home"@.len() != " "@.len());
    assert("Home"@.len() != "ArrowUp"@.len());
    assert("Home"@.len() != "ArrowDown"@.len());
    assert("End"@.len() != "PageUp"@.len());
    assert("End"@.len() != "PageDown"@.len());
    assert("End"@.len() != " "@.len());
    assert("End"@.len() != "ArrowUp"@.len());
    assert("End"@.len() != "ArrowDown"@.len());
    assert("End"@.len() != "Home"@.len());
    assert("PageDown"@.len() != "PageUp"@.len());
    assert(" "@.len() != "PageUp"@.len());
}

/// The Alt shortcuts of the split view and the tabs, with no dialog open
/// and nothing loading (Alt held alone; `key` lower-cases to none of the
/// letters L and E or their macOS Option characters, unless stated):
/// Alt+L turns a sheet's full preview on or off, and beside a terminal
/// closes the split; Alt+E opens and closes a sheet's split view (not over
/// the full preview) and switches the editing of the sheet beside a
/// terminal; Alt+[ and Alt+] move to the tab on the left and on the right.
pub proof fn lemma_alt_view_shortcuts(key: Seq<char>, code: Seq<char>, shift: bool, ctx: KeyContext)
    requires
        !ctx.busy,
        !ctx.overlay,
    ensures
        code == "KeyL"@ && !ctx.terminal && !(ctx.split_open && ctx.split_pane_sheet)
            ==> key_route(key, code, true, false, false, shift, ctx) == KeyRoute::SetFullPreview(!ctx.preview),
        code == "KeyL"@ && ctx.split_open && (ctx.terminal || ctx.split_pane_sheet)
            ==> key_route(key, code, true, false, false, shift, ctx) == KeyRoute::CloseTerminalSplit,
        code == "KeyE"@ && lowercase(key) != "l"@ && lowercase(key) != "\u{ac}"@ ==> {
            let r = key_route(key, code, true, false, false, shift, ctx);
            &&& !ctx.terminal && !ctx.preview && ctx.split_open ==> r == KeyRoute::CloseSplit
            &&& !ctx.terminal && !ctx.preview && !ctx.split_open && ctx.has_active_sheet ==> r == KeyRoute::OpenSplit
            &&& ctx.terminal && ctx.split_open ==> r == KeyRoute::ToggleSplitEdit
        },
        (code == "BracketLeft"@ || code == "BracketRight"@) && lowercase(key) != "l"@ && lowercase(key) != "\u{ac}"@
            && lowercase(key) != "e"@ && lowercase(key) != "\u{b4}"@
            ==> key_route(key, code, true, false, false, shift, ctx) == KeyRoute::CycleTabs(code == "BracketLeft"@),
{
    reveal_strlit("KeyL");
    reveal_strlit("KeyE");
    reveal_strlit("BracketLeft");
    reveal_strlit("BracketRight");
    assert("KeyL"@[3] != "KeyE"@[3]);
    assert("BracketLeft"@.len() != "KeyL"@.len());
    assert("BracketLeft"@.len() != "KeyE"@.len());
    assert("BracketRight"@.len() != "KeyL"@.len());
    assert("BracketRight"@.len() != "KeyE"@.len());
    assert("BracketRight"@.len() != "BracketLeft"@.len());
}

} // verus!
