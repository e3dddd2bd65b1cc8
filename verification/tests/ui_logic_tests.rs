use leaf::dialogs::{
    confirm_dialog_key, conflict_dialog_event, conflict_dialog_key, ConflictEvent, empty_sheet_key, escape_key, EscapeAction, OpenOverlays, input_dialog_key, option_dialog_choice,
    option_dialog_key, split_close_key, ConfirmFocus, ConflictFocus, DialogAnswer, DialogKey, EmptySheetAnswer,
    EmptySheetFocus, InputFocus, OptionFocus, SplitCloseAnswer,
};
use leaf::preview::{
    code_block_html, inline_code_block_html, is_markdown_ext, preview_key_action, scroll_to, toggle_preview, modal_key_action, ModalKey, PreviewKey,
    ScrollMove,
};
use leaf::shortcuts::{read_editor_command, read_shortcut_keys, EditorCommand};

#[test]
fn option_dialog_keys() {
    assert_eq!(option_dialog_key(OptionFocus::Choice(0), DialogKey::Down, 3), (OptionFocus::Choice(1), DialogAnswer::Open));
    assert_eq!(option_dialog_key(OptionFocus::Choice(2), DialogKey::Down, 3), (OptionFocus::Accept, DialogAnswer::Open));
    assert_eq!(option_dialog_key(OptionFocus::Accept, DialogKey::Up, 3), (OptionFocus::Choice(2), DialogAnswer::Open));
    assert_eq!(option_dialog_key(OptionFocus::Choice(0), DialogKey::Up, 3), (OptionFocus::Choice(0), DialogAnswer::Open));
    assert_eq!(option_dialog_key(OptionFocus::Accept, DialogKey::Tab, 3), (OptionFocus::Cancel, DialogAnswer::Open));
    assert_eq!(option_dialog_key(OptionFocus::Choice(1), DialogKey::Right, 3), (OptionFocus::Accept, DialogAnswer::Open));
    assert_eq!(option_dialog_key(OptionFocus::Choice(1), DialogKey::Enter, 3).1, DialogAnswer::Confirm(1));
    assert_eq!(option_dialog_key(OptionFocus::Accept, DialogKey::Enter, 3).1, DialogAnswer::Confirm(0));
    assert_eq!(option_dialog_key(OptionFocus::Cancel, DialogKey::Enter, 3).1, DialogAnswer::Cancel);
    assert_eq!(option_dialog_key(OptionFocus::Choice(1), DialogKey::Escape, 3).1, DialogAnswer::Cancel);
    assert_eq!(option_dialog_choice(OptionFocus::Cancel), None);
    assert_eq!(option_dialog_choice(OptionFocus::Accept), Some(0));
}

#[test]
fn input_dialog_keys() {
    assert_eq!(input_dialog_key(InputFocus::Input, DialogKey::Tab, "").0, InputFocus::Accept);
    assert_eq!(input_dialog_key(InputFocus::Cancel, DialogKey::Tab, "").0, InputFocus::Input);
    assert_eq!(input_dialog_key(InputFocus::Input, DialogKey::Left, "").0, InputFocus::Input);
    assert_eq!(input_dialog_key(InputFocus::Accept, DialogKey::Left, "").0, InputFocus::Cancel);
    assert_eq!(input_dialog_key(InputFocus::Input, DialogKey::Enter, "name").1, DialogAnswer::Confirm(0));
    assert_eq!(input_dialog_key(InputFocus::Input, DialogKey::Enter, "   ").1, DialogAnswer::Open);
    assert_eq!(input_dialog_key(InputFocus::Cancel, DialogKey::Enter, "name").1, DialogAnswer::Cancel);
}

#[test]
fn confirm_and_split_dialogs() {
    assert_eq!(confirm_dialog_key(ConfirmFocus::Accept, DialogKey::Left), (ConfirmFocus::Cancel, DialogAnswer::Open));
    assert_eq!(confirm_dialog_key(ConfirmFocus::Accept, DialogKey::Enter).1, DialogAnswer::Confirm(0));
    assert_eq!(confirm_dialog_key(ConfirmFocus::Cancel, DialogKey::Enter).1, DialogAnswer::Cancel);
    assert_eq!(split_close_key(0, DialogKey::Right), (1, SplitCloseAnswer::Open));
    assert_eq!(split_close_key(1, DialogKey::Left), (0, SplitCloseAnswer::Open));
    assert_eq!(split_close_key(0, DialogKey::Enter).1, SplitCloseAnswer::CloseTerminal);
    assert_eq!(split_close_key(1, DialogKey::Enter).1, SplitCloseAnswer::ClosePreview);
    assert_eq!(split_close_key(1, DialogKey::Escape).1, SplitCloseAnswer::Dismiss);
}

#[test]
fn name_conflict_dialog_keys() {
    assert_eq!(conflict_dialog_key(ConflictFocus::Overwrite, 0, DialogKey::Down), (ConflictFocus::Guid, 1, DialogAnswer::Open));
    assert_eq!(conflict_dialog_key(ConflictFocus::Guid, 1, DialogKey::Down), (ConflictFocus::Specify, 2, DialogAnswer::Open));
    assert_eq!(conflict_dialog_key(ConflictFocus::Specify, 2, DialogKey::Down), (ConflictFocus::Accept, 2, DialogAnswer::Open));
    assert_eq!(conflict_dialog_key(ConflictFocus::Cancel, 0, DialogKey::Up), (ConflictFocus::Specify, 2, DialogAnswer::Open));
    assert_eq!(conflict_dialog_key(ConflictFocus::Specify, 2, DialogKey::Tab).0, ConflictFocus::Input);
    assert_eq!(conflict_dialog_key(ConflictFocus::Guid, 1, DialogKey::Tab).0, ConflictFocus::Accept);
    assert_eq!(conflict_dialog_key(ConflictFocus::Accept, 1, DialogKey::Enter).2, DialogAnswer::Confirm(1));
    assert_eq!(conflict_dialog_key(ConflictFocus::Cancel, 1, DialogKey::Enter).2, DialogAnswer::Cancel);
}

#[test]
fn empty_sheet_dialog_keys() {
    assert_eq!(empty_sheet_key(EmptySheetFocus::Cancel, DialogKey::Right).0, EmptySheetFocus::Save);
    assert_eq!(empty_sheet_key(EmptySheetFocus::Cancel, DialogKey::Left).0, EmptySheetFocus::Delete);
    assert_eq!(empty_sheet_key(EmptySheetFocus::Delete, DialogKey::Tab).0, EmptySheetFocus::Cancel);
    assert_eq!(empty_sheet_key(EmptySheetFocus::Save, DialogKey::Enter).1, EmptySheetAnswer::Save);
    assert_eq!(empty_sheet_key(EmptySheetFocus::Delete, DialogKey::Enter).1, EmptySheetAnswer::Delete);
    assert_eq!(empty_sheet_key(EmptySheetFocus::Save, DialogKey::Escape).1, EmptySheetAnswer::Cancel);
    for f in [EmptySheetFocus::Cancel, EmptySheetFocus::Save, EmptySheetFocus::Delete] {
        let right = empty_sheet_key(f, DialogKey::Right).0;
        assert_eq!(empty_sheet_key(right, DialogKey::Left).0, f);
    }
}

#[test]
fn preview_keys() {
    assert_eq!(preview_key_action("Escape", "Escape", false, false, false, false), PreviewKey::Close);
    assert_eq!(preview_key_action(" ", "Space", false, false, true, false), PreviewKey::Close);
    assert_eq!(preview_key_action(" ", "Space", false, false, false, false), PreviewKey::Scroll(ScrollMove::HalfPageDown));
    assert_eq!(preview_key_action("l", "KeyL", true, false, false, false), PreviewKey::Close);
    assert_eq!(preview_key_action("\u{ac}", "KeyL", true, false, false, false), PreviewKey::Close);
    assert_eq!(preview_key_action("h", "KeyH", true, true, false, false), PreviewKey::Close);
    assert_eq!(preview_key_action("l", "KeyL", true, true, false, false), PreviewKey::Swallow);
    assert_eq!(preview_key_action("Tab", "Tab", false, false, false, false), PreviewKey::Swallow);
    assert_eq!(preview_key_action("=", "Equal", true, false, false, false), PreviewKey::FontStep(1));
    assert_eq!(preview_key_action("-", "Minus", true, false, false, false), PreviewKey::FontStep(-1));
    assert_eq!(preview_key_action("PageUp", "PageUp", false, false, false, false), PreviewKey::Scroll(ScrollMove::HalfPageUp));
    assert_eq!(preview_key_action("Home", "Home", false, false, false, false), PreviewKey::Scroll(ScrollMove::Top));
    assert_eq!(preview_key_action("End", "End", false, false, false, false), PreviewKey::Scroll(ScrollMove::Bottom));
    assert_eq!(preview_key_action("ArrowDown", "ArrowDown", false, false, false, false), PreviewKey::Scroll(ScrollMove::LineDown));
    assert_eq!(preview_key_action("F5", "F5", false, false, false, false), PreviewKey::Swallow);
    assert_eq!(preview_key_action("a", "KeyA", false, false, false, false), PreviewKey::Swallow);
    assert_eq!(preview_key_action("é", "KeyE", false, false, false, false), PreviewKey::Stop);
    assert_eq!(preview_key_action("Shift", "ShiftLeft", false, false, false, false), PreviewKey::Stop);
    assert_eq!(preview_key_action("Escape", "Escape", false, false, false, true), PreviewKey::Ignore);
}

#[test]
fn preview_scrolling_and_markup() {
    assert_eq!(scroll_to(ScrollMove::HalfPageUp, 100, 50, 1000), 75);
    assert_eq!(scroll_to(ScrollMove::HalfPageDown, 100, 51, 1000), 125);
    assert_eq!(scroll_to(ScrollMove::LineUp, 100, 50, 1000), 60);
    assert_eq!(scroll_to(ScrollMove::LineDown, 100, 50, 1000), 140);
    assert_eq!(scroll_to(ScrollMove::Top, 100, 50, 1000), 0);
    assert_eq!(scroll_to(ScrollMove::Bottom, 100, 50, 1000), 1000);
    assert!(is_markdown_ext("md"));
    assert!(is_markdown_ext("markdown"));
    assert!(!is_markdown_ext("MD"));
    assert_eq!(
        code_block_html("rs", "x"),
        "<pre class=\"hljs whitespace-pre-wrap break-all\"><code class=\"hljs language-rs\">x</code></pre>"
    );
    assert_eq!(inline_code_block_html("js", "y"), "<pre><code class=\"hljs language-js\">y</code></pre>");
}

#[test]
fn shortcut_recognition() {
    let k = read_shortcut_keys("l", "KeyL", true, false, false);
    assert!(k.modifier && k.l && k.app_key && !k.h);
    let k = read_shortcut_keys("\u{ac}", "Unidentified", true, false, false);
    assert!(k.l && k.app_key);
    let k = read_shortcut_keys("n", "KeyN", true, false, false);
    assert!(k.app_key && !k.l);
    let k = read_shortcut_keys("l", "KeyL", true, true, false);
    assert!(!k.modifier && !k.app_key && k.l);
    let k = read_shortcut_keys("+", "Equal", true, false, false);
    assert!(k.plus && k.app_key);
    let k = read_shortcut_keys("x", "KeyX", true, false, false);
    assert!(!k.app_key);
    let k = read_shortcut_keys("\u{a9}", "KeyG", false, false, false);
    assert!(k.c && !k.modifier);
}

#[test]
fn preview_toggle_needs_text() {
    assert!(!toggle_preview(false, "  \n\t "));
    assert!(toggle_preview(false, "# Title"));
    assert!(!toggle_preview(true, "# Title"));
    assert!(!toggle_preview(true, ""));
}

#[test]
fn editor_commands() {
    assert_eq!(read_editor_command("save"), EditorCommand::Save);
    assert_eq!(read_editor_command("new_sheet"), EditorCommand::NewSheet);
    assert_eq!(read_editor_command("new_local_sheet"), EditorCommand::NewLocalSheet);
    assert_eq!(read_editor_command("open"), EditorCommand::Open);
    assert_eq!(read_editor_command("import"), EditorCommand::Import);
    assert_eq!(read_editor_command("preview"), EditorCommand::Preview);
    assert_eq!(read_editor_command("help"), EditorCommand::Help);
    assert_eq!(read_editor_command("change"), EditorCommand::Change);
    assert_eq!(read_editor_command("Save"), EditorCommand::Unknown);
}

fn no_overlays() -> OpenOverlays {
    OpenOverlays {
        file_dialog: false,
        creating_category: false,
        category_dropdown: false,
        logout_confirm: false,
        name_conflicts: false,
        pending_delete: false,
        sync_conflicts: false,
        fallbacks: false,
        settings: false,
        help: false,
        split_close: false,
    }
}

#[test]
fn escape_closes_the_first_overlay() {
    assert_eq!(escape_key(no_overlays(), false), EscapeAction::Nothing);
    let both = OpenOverlays { help: true, pending_delete: true, ..no_overlays() };
    assert_eq!(escape_key(both, false), EscapeAction::CancelDelete);
    assert_eq!(escape_key(OpenOverlays { help: true, ..no_overlays() }, false), EscapeAction::CloseHelp);
    assert_eq!(escape_key(OpenOverlays { help: true, ..no_overlays() }, true), EscapeAction::LeaveToInput);
    assert_eq!(escape_key(OpenOverlays { settings: true, ..no_overlays() }, true), EscapeAction::CloseSettings);
    assert_eq!(escape_key(OpenOverlays { file_dialog: true, help: true, ..no_overlays() }, false), EscapeAction::LeaveToFileDialog);
    assert_eq!(escape_key(OpenOverlays { split_close: true, ..no_overlays() }, false), EscapeAction::CloseSplitClose);
}

#[test]
fn file_dialog_preview_keys() {
    assert_eq!(modal_key_action("Escape"), ModalKey::Close);
    assert_eq!(modal_key_action(" "), ModalKey::Close);
    assert_eq!(modal_key_action("ArrowDown"), ModalKey::Scroll(ScrollMove::LineDown));
    assert_eq!(modal_key_action("PageUp"), ModalKey::Scroll(ScrollMove::HalfPageUp));
    assert_eq!(modal_key_action("End"), ModalKey::Scroll(ScrollMove::Bottom));
    assert_eq!(modal_key_action("a"), ModalKey::Ignore);
}

#[test]
fn name_conflict_dialog_typing_and_clicks() {
    assert_eq!(conflict_dialog_event(ConflictFocus::Overwrite, 0, ConflictEvent::Typed), (ConflictFocus::Input, 2, DialogAnswer::Open));
    assert_eq!(conflict_dialog_event(ConflictFocus::Accept, 2, ConflictEvent::PickGuid), (ConflictFocus::Guid, 1, DialogAnswer::Open));
    assert_eq!(conflict_dialog_event(ConflictFocus::Guid, 1, ConflictEvent::PickOverwrite), (ConflictFocus::Overwrite, 0, DialogAnswer::Open));
    assert_eq!(conflict_dialog_event(ConflictFocus::Guid, 1, ConflictEvent::PickSpecify), (ConflictFocus::Specify, 2, DialogAnswer::Open));
    assert_eq!(conflict_dialog_event(ConflictFocus::Input, 2, ConflictEvent::ClickAccept).2, DialogAnswer::Confirm(2));
    assert_eq!(conflict_dialog_event(ConflictFocus::Input, 2, ConflictEvent::ClickCancel).2, DialogAnswer::Cancel);
    assert_eq!(
        conflict_dialog_event(ConflictFocus::Guid, 1, ConflictEvent::Key(DialogKey::Down)),
        (ConflictFocus::Specify, 2, DialogAnswer::Open)
    );
}
