use leaf::keymap::{route_key, KeyContext, KeyRoute};
use leaf::preview::ScrollMove;

fn idle() -> KeyContext {
    KeyContext {
        busy: false,
        overlay: false,
        preview: false,
        terminal: false,
        split_open: false,
        split_pane_sheet: false,
        split_edit: false,
        settings_open: false,
        file_open: false,
        help_open: false,
        guest: false,
        desktop: true,
        has_active_sheet: true,
    }
}

fn alt(key: &str, code: &str, ctx: KeyContext) -> KeyRoute {
    route_key(key, code, true, false, false, false, ctx)
}

#[test]
fn busy_window_swallows_keys() {
    let ctx = KeyContext { busy: true, ..idle() };
    assert_eq!(alt("l", "KeyL", ctx), KeyRoute::Blocked);
    assert_eq!(route_key("a", "KeyA", false, false, false, false, ctx), KeyRoute::Blocked);
}

#[test]
fn alt_l_toggles_preview_or_terminal_split() {
    assert_eq!(alt("l", "KeyL", idle()), KeyRoute::SetFullPreview(true));
    assert_eq!(alt("¬", "", KeyContext { preview: true, ..idle() }), KeyRoute::SetFullPreview(false));
    let term = KeyContext { terminal: true, ..idle() };
    assert_eq!(alt("l", "KeyL", term), KeyRoute::OpenTabSelect);
    assert_eq!(alt("l", "KeyL", KeyContext { split_open: true, ..term }), KeyRoute::CloseTerminalSplit);
    assert_eq!(alt("l", "KeyL", KeyContext { has_active_sheet: false, ..term }), KeyRoute::Consumed);
    // Cmd held: not a shortcut.
    assert_eq!(route_key("l", "KeyL", true, true, false, false, idle()), KeyRoute::Default);
}

#[test]
fn alt_e_split_view() {
    assert_eq!(alt("e", "KeyE", idle()), KeyRoute::OpenSplit);
    assert_eq!(alt("e", "KeyE", KeyContext { split_open: true, ..idle() }), KeyRoute::CloseSplit);
    let term = KeyContext { terminal: true, split_open: true, ..idle() };
    assert_eq!(alt("e", "KeyE", term), KeyRoute::ToggleSplitEdit);
    assert_eq!(alt("e", "KeyE", KeyContext { split_open: false, ..term }), KeyRoute::Consumed);
}

#[test]
fn alt_brackets_cycle_tabs() {
    assert_eq!(alt("[", "BracketLeft", idle()), KeyRoute::CycleTabs(true));
    assert_eq!(alt("]", "BracketRight", idle()), KeyRoute::CycleTabs(false));
}

#[test]
fn full_preview_keys() {
    let ctx = KeyContext { preview: true, ..idle() };
    let plain = |k: &str| route_key(k, "", false, false, false, false, ctx);
    assert_eq!(plain("Escape"), KeyRoute::ClosePreview);
    assert_eq!(plain("PageUp"), KeyRoute::PreviewScroll(ScrollMove::HalfPageUp));
    assert_eq!(plain(" "), KeyRoute::PreviewScroll(ScrollMove::HalfPageDown));
    assert_eq!(plain("End"), KeyRoute::PreviewScroll(ScrollMove::Bottom));
    assert_eq!(plain("x"), KeyRoute::Blocked);
    assert_eq!(alt("=", "Equal", ctx), KeyRoute::PreviewFontStep(1));
    assert_eq!(alt("-", "Minus", ctx), KeyRoute::PreviewFontStep(-1));
    assert_eq!(alt("s", "KeyS", ctx), KeyRoute::Blocked);
    // Let through: Alt+H opens the help, Alt+N makes a new sheet.
    assert_eq!(alt("h", "KeyH", ctx), KeyRoute::ToggleHelp);
    assert_eq!(alt("n", "KeyN", ctx), KeyRoute::NewSheet);
    // Alt+E does nothing over the full preview.
    assert_eq!(alt("e", "KeyE", ctx), KeyRoute::Blocked);
}

#[test]
fn dialog_toggles_and_other_shortcuts() {
    assert_eq!(alt(",", "Comma", idle()), KeyRoute::ToggleSettings);
    assert_eq!(alt("m", "KeyM", idle()), KeyRoute::ToggleFileDialog);
    assert_eq!(alt("m", "KeyM", KeyContext { guest: true, ..idle() }), KeyRoute::Default);
    assert_eq!(alt("h", "KeyH", idle()), KeyRoute::ToggleHelp);
    assert_eq!(alt("i", "KeyI", idle()), KeyRoute::ShowSheetInfo);
    assert_eq!(alt("c", "KeyC", idle()), KeyRoute::ShowCharCode(false));
    assert_eq!(alt("t", "KeyT", idle()), KeyRoute::NewTerminal);
    assert_eq!(alt("t", "KeyT", KeyContext { desktop: false, ..idle() }), KeyRoute::Default);
    assert_eq!(alt("o", "KeyO", idle()), KeyRoute::Import);
    assert_eq!(alt("f", "KeyF", idle()), KeyRoute::Find);
    assert_eq!(alt("ß", "", idle()), KeyRoute::SaveSheet);
    assert_eq!(route_key("N", "KeyN", true, false, false, true, idle()), KeyRoute::NewLocalSheet);
    assert_eq!(alt("+", "Equal", idle()), KeyRoute::EditorFontStep(1));
    assert_eq!(alt("w", "KeyW", idle()), KeyRoute::CloseActiveSheet);
}

#[test]
fn terminal_shortcuts() {
    let term = KeyContext { terminal: true, ..idle() };
    assert_eq!(alt("-", "Minus", term), KeyRoute::TerminalFontStep(-1));
    assert_eq!(alt("w", "KeyW", term), KeyRoute::Consumed);
    assert_eq!(alt("w", "KeyW", KeyContext { split_open: true, ..term }), KeyRoute::AskWhichToClose);
    assert_eq!(alt("i", "KeyI", term), KeyRoute::Default);
    assert_eq!(alt("i", "KeyI", KeyContext { split_open: true, split_pane_sheet: true, ..term }), KeyRoute::ShowSheetInfo);
    assert_eq!(alt("c", "KeyC", KeyContext { split_edit: true, ..term }), KeyRoute::ShowCharCode(true));
}

#[test]
fn open_dialog_keeps_the_keyboard() {
    let ctx = KeyContext { overlay: true, help_open: true, ..idle() };
    assert_eq!(alt("h", "KeyH", ctx), KeyRoute::ToggleHelp);
    assert_eq!(alt("l", "KeyL", ctx), KeyRoute::Overlay);
    assert_eq!(alt(",", "Comma", ctx), KeyRoute::Overlay);
    assert_eq!(route_key("Escape", "Escape", false, false, false, false, ctx), KeyRoute::Overlay);
    let settings = KeyContext { overlay: true, settings_open: true, ..idle() };
    assert_eq!(alt(",", "Comma", settings), KeyRoute::ToggleSettings);
}
