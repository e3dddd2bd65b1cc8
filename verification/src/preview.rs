//! The preview of a sheet: whether it is rendered as Markdown or shown as
//! highlighted code, the markup around highlighted code, and how the
//! preview window answers the keyboard.

use vstd::prelude::*;
use vstd::utf8::encode_utf8;
use crate::text::{is_blank, is_blank_text, lowercase, same_text, starts_with_text, to_lowercase};

verus! {

/// Markdown sheets are rendered; everything else is shown as code.
pub open spec fn is_markdown(ext: Seq<char>) -> bool {
    ext == "md"@ || ext == "markdown"@
}

/// Whether a sheet with this extension is rendered as Markdown.
pub fn is_markdown_ext(ext: &str) -> (r: bool)
    ensures
        r == is_markdown(ext@),
{
    same_text(ext, "md") || same_text(ext, "markdown")
}

/// The markup the preview window puts round highlighted code.
pub open spec fn code_block(lang: Seq<char>, code_html: Seq<char>) -> Seq<char> {
    "<pre class=\"hljs whitespace-pre-wrap break-all\"><code class=\"hljs language-"@ + lang + "\">"@ + code_html + "</code></pre>"@
}

/// Wraps highlighted code for the preview window.
pub fn code_block_html(lang: &str, code_html: &str) -> (r: String)
    ensures
        r@ == code_block(lang@, code_html@),
{
    let mut s = "<pre class=\"hljs whitespace-pre-wrap break-all\"><code class=\"hljs language-".to_owned();
    s.append(lang);
    s.append("\">");
    s.append(code_html);
    s.append("</code></pre>");
    s
}

/// The markup the preview beside the editor puts round highlighted code.
pub open spec fn inline_code_block(lang: Seq<char>, code_html: Seq<char>) -> Seq<char> {
    "<pre><code class=\"hljs language-"@ + lang + "\">"@ + code_html + "</code></pre>"@
}

/// Wraps highlighted code for the preview beside the editor.
pub fn inline_code_block_html(lang: &str, code_html: &str) -> (r: String)
    ensures
        r@ == inline_code_block(lang@, code_html@),
{
    let mut s = "<pre><code class=\"hljs language-".to_owned();
    s.append(lang);
    s.append("\">");
    s.append(code_html);
    s.append("</code></pre>");
    s
}

/// How the preview window scrolls.
#[derive(Clone, Copy, Debug, PartialEq, Eq, Structural)]
pub enum ScrollMove {
    HalfPageUp,
    HalfPageDown,
    LineUp,
    LineDown,
    Top,
    Bottom,
}

/// What the preview window does with a key.
#[derive(Clone, Copy, Debug, PartialEq, Eq, Structural)]
pub enum PreviewKey {
    /// A dialog above the preview has the keyboard: the key is left alone.
    Ignore,
    /// The preview closes.
    Close,
    /// The key is swallowed.
    Swallow,
    /// The font size steps up or down.
    FontStep(i32),
    /// The content scrolls.
    Scroll(ScrollMove),
    /// The key goes no further, and does its default.
    Stop,
}

/// The preview window's answer to a key (`key` and `code` as the browser
/// names them): Escape, and Space where it is asked to, close it; so does
/// Alt with L (Alt with H in the help); Tab is swallowed; Alt with `=` or
/// `-` steps the font size (not in the help); the page, arrow, Home, End
/// and Space keys scroll; other single-byte keys and function keys are
/// swallowed.
pub open spec fn preview_key(key: Seq<char>, code: Seq<char>, alt: bool, help: bool, close_on_space: bool, dialog_open: bool) -> PreviewKey {
    let is_space = key == " "@;
    let is_l = code == "KeyL"@ || lowercase(key) == "l"@ || key == "\u{ac}"@;
    let is_h = code == "KeyH"@ || lowercase(key) == "h"@ || key == "\u{2d9}"@;
    let target = if help { is_h } else if close_on_space { false } else { is_l };
    if dialog_open {
        PreviewKey::Ignore
    } else if (is_space && close_on_space) || key == "Escape"@ {
        PreviewKey::Close
    } else if alt && target {
        PreviewKey::Close
    } else if key == "Tab"@ {
        PreviewKey::Swallow
    } else if alt && !help && (code == "Equal"@ || key == "="@ || key == "+"@ || key == "\u{2260}"@) {
        PreviewKey::FontStep(1i32)
    } else if alt && !help && (code == "Minus"@ || key == "-"@ || key == "\u{2013}"@) {
        PreviewKey::FontStep(-1i32)
    } else if key == "PageUp"@ || key == "RollUp"@ {
        PreviewKey::Scroll(ScrollMove::HalfPageUp)
    } else if key == "PageDown"@ || key == "RollDown"@ || is_space {
        PreviewKey::Scroll(ScrollMove::HalfPageDown)
    } else if key == "ArrowUp"@ {
        PreviewKey::Scroll(ScrollMove::LineUp)
    } else if key == "ArrowDown"@ {
        PreviewKey::Scroll(ScrollMove::LineDown)
    } else if key == "Home"@ {
        PreviewKey::Scroll(ScrollMove::Top)
    } else if key == "End"@ {
        PreviewKey::Scroll(ScrollMove::Bottom)
    } else if encode_utf8(key).len() == 1 || "F"@.is_prefix_of(key) {
        PreviewKey::Swallow
    } else {
        PreviewKey::Stop
    }
}

/// The preview window's plain keys (no dialog above it, Alt not held):
/// Escape closes it; Space closes it where asked to, else scrolls half a
/// page down; the arrow keys scroll a line, the page keys half a page, and
/// Home and End to the top and the bottom, whatever the key's code is.
pub proof fn lemma_preview_window_keys(code: Seq<char>, help: bool, close_on_space: bool)
    ensures
        preview_key("Escape"@, code, false, help, close_on_space, false) == PreviewKey::Close,
        preview_key(" "@, code, false, help, close_on_space, false)
            == (if close_on_space { PreviewKey::Close } else { PreviewKey::Scroll(ScrollMove::HalfPageDown) }),
        preview_key("ArrowUp"@, code, false, help, close_on_space, false) == PreviewKey::Scroll(ScrollMove::LineUp),
        preview_key("ArrowDown"@, code, false, help, close_on_space, false) == PreviewKey::Scroll(ScrollMove::LineDown),
        preview_key("PageUp"@, code, false, help, close_on_space, false) == PreviewKey::Scroll(ScrollMove::HalfPageUp),
        preview_key("PageDown"@, code, false, help, close_on_space, false) == PreviewKey::Scroll(ScrollMove::HalfPageDown),
        preview_key("Home"@, code, false, help, close_on_space, false) == PreviewKey::Scroll(ScrollMove::Top),
        preview_key("End"@, code, false, help, close_on_space, false) == PreviewKey::Scroll(ScrollMove::Bottom),
{
    reveal_strlit("Escape");
    reveal_strlit(" ");
    reveal_strlit("ArrowUp");
    reveal_strlit("ArrowDown");
    reveal_strlit("PageUp");
    reveal_strlit("PageDown");
    reveal_strlit("Home");
    reveal_strlit("End");
    reveal_strlit("Tab");
    reveal_strlit("RollUp");
    reveal_strlit("RollDown");
    assert("PageUp"@[0] != "Escape"@[0]);
    assert("PageUp"@[0] != "RollUp"@[0]);
    assert("PageDown"@[0] != "RollDown"@[0]);
    assert("Escape"@.len() != " "@.len());
    assert("ArrowUp"@.len() != " "@.len());
    assert("ArrowUp"@.len() != "Escape"@.len());
    assert("ArrowUp"@.len() != "Tab"@.len());
    assert("ArrowUp"@.len() != "PageUp"@.len());
    assert("ArrowUp"@.len() != "RollUp"@.len());
    assert("ArrowUp"@.len() != "PageDown"@.len());
    assert("ArrowUp"@.len() != "RollDown"@.len());
    assert("ArrowDown"@.len() != " "@.len());
    assert("ArrowDown"@.len() != "Escape"@.len());
    assert("ArrowDown"@.len() != "Tab"@.len());
    assert("ArrowDown"@.len() != "PageUp"@.len());
    assert("ArrowDown"@.len() != "RollUp"@.len());
    assert("ArrowDown"@.len() != "PageDown"@.len());
    assert("ArrowDown"@.len() != "RollDown"@.len());
    assert("ArrowDown"@.len() != "ArrowUp"@.len());
    assert("PageUp"@.len() != " "@.len());
    assert("PageUp"@.len() != "Tab"@.len());
    assert("PageDown"@.len() != " "@.len());
    assert("PageDown"@.len() != "Escape"@.len());
    assert("PageDown"@.len() != "Tab"@.len());
    assert("PageDown"@.len() != "PageUp"@.len());
    assert("PageDown"@.len() != "RollUp"@.len());
    assert("Home"@.len() != " "@.len());
    assert("Home"@.len() != "Escape"@.len());
    assert("Home"@.len() != "Tab"@.len());
    assert("Home"@.len() != "PageUp"@.len());
    assert("Home"@.len() != "RollUp"@.len());
    assert("Home"@.len() != "PageDown"@.len());
    assert("Home"@.len() != "RollDown"@.len());
    assert("Home"@.len() != "ArrowUp"@.len());
    assert("Home"@.len() != "ArrowDown"@.len());
    assert("End"@.len() != " "@.len());
    assert("End"@.len() != "Escape"@.len());
    assert("End"@[0] != "Tab"@[0]);
    assert("End"@.len() != "PageUp"@.len());
    assert("End"@.len() != "RollUp"@.len());
    assert("End"@.len() != "PageDown"@.len());
    assert("End"@.len() != "RollDown"@.len());
    assert("End"@.len() != "ArrowUp"@.len());
    assert("End"@.len() != "ArrowDown"@.len());
    assert("End"@.len() != "Home"@.len());
}

/// Decides what the preview window does with a key.
pub fn preview_key_action(key: &str, code: &str, alt: bool, help: bool, close_on_space: bool, dialog_open: bool) -> (r: PreviewKey)
    ensures
        r == preview_key(key@, code@, alt, help, close_on_space, dialog_open),
{
    if dialog_open {
        return PreviewKey::Ignore;
    }
    let is_space = same_text(key, " ");
    if (is_space && close_on_space) || same_text(key, "Escape") {
        return PreviewKey::Close;
    }
    let lower = to_lowercase(key);
    let target = if help {
        same_text(code, "KeyH") || same_text(lower.as_str(), "h") || same_text(key, "\u{2d9}")
    } else if close_on_space {
        false
    } else {
        same_text(code, "KeyL") || same_text(lower.as_str(), "l") || same_text(key, "\u{ac}")
    };
    if alt && target {
        return PreviewKey::Close;
    }
    if same_text(key, "Tab") {
        return PreviewKey::Swallow;
    }
    if alt && !help {
        if same_text(code, "Equal") || same_text(key, "=") || same_text(key, "+") || same_text(key, "\u{2260}") {
            return PreviewKey::FontStep(1);
        }
        if same_text(code, "Minus") || same_text(key, "-") || same_text(key, "\u{2013}") {
            return PreviewKey::FontStep(-1);
        }
    }
    if same_text(key, "PageUp") || same_text(key, "RollUp") {
        return PreviewKey::Scroll(ScrollMove::HalfPageUp);
    }
    if same_text(key, "PageDown") || same_text(key, "RollDown") || is_space {
        return PreviewKey::Scroll(ScrollMove::HalfPageDown);
    }
    if same_text(key, "ArrowUp") {
        return PreviewKey::Scroll(ScrollMove::LineUp);
    }
    if same_text(key, "ArrowDown") {
        return PreviewKey::Scroll(ScrollMove::LineDown);
    }
    if same_text(key, "Home") {
        return PreviewKey::Scroll(ScrollMove::Top);
    }
    if same_text(key, "End") {
        return PreviewKey::Scroll(ScrollMove::Bottom);
    }
    proof { crate::text::lemma_one_utf8_byte(key@); }
    let single_byte = key.unicode_len() == 1 && (key.get_char(0) as u32) < 0x80;
    if single_byte || starts_with_text(key, "F") {
        return PreviewKey::Swallow;
    }
    PreviewKey::Stop
}

/// Where a scroll move takes the content: half the visible height up or
/// down, forty pixels up or down, to the top, or to the bottom.
pub open spec fn scroll_target(m: ScrollMove, current: int, client_height: int, scroll_height: int) -> int {
    match m {
        ScrollMove::HalfPageUp => current - client_height / 2,
        ScrollMove::HalfPageDown => current + client_height / 2,
        ScrollMove::LineUp => current - 40,
        ScrollMove::LineDown => current + 40,
        ScrollMove::Top => 0,
        ScrollMove::Bottom => scroll_height,
    }
}

/// Computes where a scroll move takes the content.
pub fn scroll_to(m: ScrollMove, current: i32, client_height: i32, scroll_height: i32) -> (r: i32)
    requires
        client_height >= 0,
        i32::MIN <= scroll_target(m, current as int, client_height as int, scroll_height as int) <= i32::MAX,
    ensures
        r as int == scroll_target(m, current as int, client_height as int, scroll_height as int),
{
    match m {
        ScrollMove::HalfPageUp => current - client_height / 2,
        ScrollMove::HalfPageDown => current + client_height / 2,
        ScrollMove::LineUp => current - 40,
        ScrollMove::LineDown => current + 40,
        ScrollMove::Top => 0,
        ScrollMove::Bottom => scroll_height,
    }
}

/// Whether the preview is shown after the editor asks to toggle it: a
/// shown preview is hidden; a hidden one is shown unless the editor holds
/// only blank text.
pub open spec fn toggled_preview(showing: bool, editor: Seq<char>) -> bool {
    if showing { false } else { !is_blank(editor) }
}

/// Toggles the preview at the editor's request (see `toggled_preview`).
pub fn toggle_preview(showing: bool, editor: &str) -> (r: bool)
    ensures
        r == toggled_preview(showing, editor@),
{
    if showing { false } else { !is_blank_text(editor) }
}

/// What the file dialog's preview window does with a key.
#[derive(Clone, Copy, Debug, PartialEq, Eq, Structural)]
pub enum ModalKey {
    Close,
    Scroll(ScrollMove),
    Ignore,
}

/// The file dialog's preview window: Escape and Space close it; the arrow
/// keys scroll forty pixels, the page keys half its height, Home and End
/// to the top and the bottom; other keys are left alone.
pub open spec fn modal_key(key: Seq<char>) -> ModalKey {
    if key == "Escape"@ || key == " "@ { ModalKey::Close }
    else if key == "ArrowUp"@ { ModalKey::Scroll(ScrollMove::LineUp) }
    else if key == "ArrowDown"@ { ModalKey::Scroll(ScrollMove::LineDown) }
    else if key == "PageUp"@ { ModalKey::Scroll(ScrollMove::HalfPageUp) }
    else if key == "PageDown"@ { ModalKey::Scroll(ScrollMove::HalfPageDown) }
    else if key == "Home"@ { ModalKey::Scroll(ScrollMove::Top) }
    else if key == "End"@ { ModalKey::Scroll(ScrollMove::Bottom) }
    else { ModalKey::Ignore }
}

/// The file dialog's preview window closes on Escape and Space, and its
/// arrow, page, Home and End keys scroll it the way each key points.
pub proof fn lemma_modal_keys()
    ensures
        modal_key("Escape"@) == ModalKey::Close,
        modal_key(" "@) == ModalKey::Close,
        modal_key("ArrowUp"@) == ModalKey::Scroll(ScrollMove::LineUp),
        modal_key("ArrowDown"@) == ModalKey::Scroll(ScrollMove::LineDown),
        modal_key("PageUp"@) == ModalKey::Scroll(ScrollMove::HalfPageUp),
        modal_key("PageDown"@) == ModalKey::Scroll(ScrollMove::HalfPageDown),
        modal_key("Home"@) == ModalKey::Scroll(ScrollMove::Top),
        modal_key("End"@) == ModalKey::Scroll(ScrollMove::Bottom),
{
    reveal_strlit("Escape");
    reveal_strlit(" ");
    reveal_strlit("ArrowUp");
    reveal_strlit("ArrowDown");
    reveal_strlit("PageUp");
    reveal_strlit("PageDown");
    reveal_strlit("Home");
    reveal_strlit("End");
    assert("PageUp"@[0] != "Escape"@[0]);
    assert("ArrowUp"@.len() != "Escape"@.len());
    assert("ArrowUp"@.len() != " "@.len());
    assert("ArrowDown"@.len() != "Escape"@.len());
    assert("ArrowDown"@.len() != " "@.len());
    assert("ArrowDown"@.len() != "ArrowUp"@.len());
    assert("PageUp"@.len() != " "@.len());
    assert("PageUp"@.len() != "ArrowUp"@.len());
    assert("PageUp"@.len() != "ArrowDown"@.len());
    assert("PageDown"@.len() != "Escape"@.len());
    assert("PageDown"@.len() != " "@.len());
    assert("PageDown"@.len() != "ArrowUp"@.len());
    assert("PageDown"@.len() != "ArrowDown"@.len());
    assert("PageDown"@.len() != "PageUp"@.len());
    assert("Home"@.len() != "Escape"@.len());
    assert("Home"@.len() != " "@.len());
    assert("Home"@.len() != "ArrowUp"@.len());
    assert("Home"@.len() != "ArrowDown"@.len());
    assert("Home"@.len() != "PageUp"@.len());
    assert("Home"@.len() != "PageDown"@.len());
    assert("End"@.len() != "Escape"@.len());
    assert("End"@.len() != " "@.len());
    assert("End"@.len() != "ArrowUp"@.len());
    assert("End"@.len() != "ArrowDown"@.len());
    assert("End"@.len() != "PageUp"@.len());
    assert("End"@.len() != "PageDown"@.len());
    assert("End"@.len() != "Home"@.len());
}

/// Decides what the file dialog's preview window does with a key.
pub fn modal_key_action(key: &str) -> (r: ModalKey)
    ensures
        r == modal_key(key@),
{
    if same_text(key, "Escape") || same_text(key, " ") { ModalKey::Close }
    else if same_text(key, "ArrowUp") { ModalKey::Scroll(ScrollMove::LineUp) }
    else if same_text(key, "ArrowDown") { ModalKey::Scroll(ScrollMove::LineDown) }
    else if same_text(key, "PageUp") { ModalKey::Scroll(ScrollMove::HalfPageUp) }
    else if same_text(key, "PageDown") { ModalKey::Scroll(ScrollMove::HalfPageDown) }
    else if same_text(key, "Home") { ModalKey::Scroll(ScrollMove::Top) }
    else if same_text(key, "End") { ModalKey::Scroll(ScrollMove::Bottom) }
    else { ModalKey::Ignore }
}

} // verus!
