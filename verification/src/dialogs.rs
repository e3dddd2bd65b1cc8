//! How the keyboard moves through the editor's dialogs: the option dialog,
//! the text-input dialog, the confirmation dialog, the name-conflict dialog
//! and the empty-sheet dialog. Each key moves the focus and may answer the
//! dialog. Also which overlay Escape closes.

use vstd::prelude::*;
use crate::text::is_blank;

verus! {

/// One choice of the option dialog.
pub struct DialogOption {
    pub id: usize,
    pub label: String,
}

/// The keys the dialogs react to; any other key is `Other`.
#[derive(Clone, Copy, Debug, PartialEq, Eq, Structural)]
pub enum DialogKey {
    Up,
    Down,
    Left,
    Right,
    Tab,
    Enter,
    Escape,
    Other,
}

/// How a key answers a dialog.
#[derive(Clone, Copy, Debug, PartialEq, Eq, Structural)]
pub enum DialogAnswer {
    /// The dialog stays open.
    Open,
    /// The dialog is confirmed with this choice.
    Confirm(usize),
    /// The dialog is cancelled.
    Cancel,
}

/// Where the option dialog's focus is.
#[derive(Clone, Copy, Debug, PartialEq, Eq, Structural)]
pub enum OptionFocus {
    Choice(usize),
    Accept,
    Cancel,
}

/// The option dialog: up and down move through the choices (down from the
/// last reaches OK, up from the buttons the last choice); left, right and
/// Tab move between the buttons; Enter confirms the focused choice (OK
/// confirms the first) unless Cancel has the focus; Escape cancels.
pub open spec fn option_dialog_step(f: OptionFocus, key: DialogKey, n: nat) -> (OptionFocus, DialogAnswer) {
    match key {
        DialogKey::Up => match f {
            OptionFocus::Choice(i) => if i > 0 { (OptionFocus::Choice((i - 1) as usize), DialogAnswer::Open) } else { (f, DialogAnswer::Open) },
            _ => (OptionFocus::Choice((n - 1) as usize), DialogAnswer::Open),
        },
        DialogKey::Down => match f {
            OptionFocus::Choice(i) => if i + 1 < n { (OptionFocus::Choice((i + 1) as usize), DialogAnswer::Open) } else { (OptionFocus::Accept, DialogAnswer::Open) },
            _ => (f, DialogAnswer::Open),
        },
        DialogKey::Left | DialogKey::Right | DialogKey::Tab => match f {
            OptionFocus::Accept => (OptionFocus::Cancel, DialogAnswer::Open),
            _ => (OptionFocus::Accept, DialogAnswer::Open),
        },
        DialogKey::Enter => match f {
            OptionFocus::Cancel => (f, DialogAnswer::Cancel),
            OptionFocus::Choice(i) => (f, DialogAnswer::Confirm(i)),
            OptionFocus::Accept => (f, DialogAnswer::Confirm(0)),
        },
        DialogKey::Escape => (f, DialogAnswer::Cancel),
        DialogKey::Other => (f, DialogAnswer::Open),
    }
}

/// Handles a key in the option dialog with `n` choices.
pub fn option_dialog_key(f: OptionFocus, key: DialogKey, n: usize) -> (r: (OptionFocus, DialogAnswer))
    requires
        key == DialogKey::Up && !(f is Choice) ==> n > 0,
        f matches OptionFocus::Choice(i) ==> i < usize::MAX,
    ensures
        r == option_dialog_step(f, key, n as nat),
{
    match key {
        DialogKey::Up => match f {
            OptionFocus::Choice(i) => if i > 0 { (OptionFocus::Choice(i - 1), DialogAnswer::Open) } else { (f, DialogAnswer::Open) },
            _ => (OptionFocus::Choice(n - 1), DialogAnswer::Open),
        },
        DialogKey::Down => match f {
            OptionFocus::Choice(i) => if i + 1 < n { (OptionFocus::Choice(i + 1), DialogAnswer::Open) } else { (OptionFocus::Accept, DialogAnswer::Open) },
            _ => (f, DialogAnswer::Open),
        },
        DialogKey::Left | DialogKey::Right | DialogKey::Tab => match f {
            OptionFocus::Accept => (OptionFocus::Cancel, DialogAnswer::Open),
            _ => (OptionFocus::Accept, DialogAnswer::Open),
        },
        DialogKey::Enter => match f {
            OptionFocus::Cancel => (f, DialogAnswer::Cancel),
            OptionFocus::Choice(i) => (f, DialogAnswer::Confirm(i)),
            OptionFocus::Accept => (f, DialogAnswer::Confirm(0)),
        },
        DialogKey::Escape => (f, DialogAnswer::Cancel),
        DialogKey::Other => (f, DialogAnswer::Open),
    }
}

/// The choice the option dialog's OK button confirms: the focused choice,
/// the first when OK itself has the focus, none from Cancel.
pub fn option_dialog_choice(f: OptionFocus) -> (r: Option<usize>)
    ensures
        r == (match f {
            OptionFocus::Choice(i) => Some(i),
            OptionFocus::Accept => Some(0usize),
            OptionFocus::Cancel => None,
        }),
{
    match f {
        OptionFocus::Choice(i) => Some(i),
        OptionFocus::Accept => Some(0),
        OptionFocus::Cancel => None,
    }
}

/// The keyboard never leaves the option dialog's choices: a focused choice
/// stays among the `n` choices, and a confirmed one is among them or the
/// first.
pub proof fn lemma_option_focus_in_range(f: OptionFocus, key: DialogKey, n: nat)
    requires
        n > 0,
        f matches OptionFocus::Choice(i) ==> i < n,
    ensures
        option_dialog_step(f, key, n).0 matches OptionFocus::Choice(i) ==> i < n,
        option_dialog_step(f, key, n).1 matches DialogAnswer::Confirm(i) ==> i < n,
{
}

/// Where the text-input dialog's focus is.
#[derive(Clone, Copy, Debug, PartialEq, Eq, Structural)]
pub enum InputFocus {
    Input,
    Accept,
    Cancel,
}

/// The text-input dialog: Tab goes round the field, OK and Cancel; right
/// and left go to OK and Cancel when the field is not focused; Enter
/// cancels from Cancel and otherwise submits, but only a text that is not
/// blank; Escape cancels.
pub open spec fn input_dialog_step(f: InputFocus, key: DialogKey, text: Seq<char>) -> (InputFocus, DialogAnswer) {
    match key {
        DialogKey::Tab => (match f {
            InputFocus::Input => InputFocus::Accept,
            InputFocus::Accept => InputFocus::Cancel,
            InputFocus::Cancel => InputFocus::Input,
        }, DialogAnswer::Open),
        DialogKey::Right => (if f == InputFocus::Input { f } else { InputFocus::Accept }, DialogAnswer::Open),
        DialogKey::Left => (if f == InputFocus::Input { f } else { InputFocus::Cancel }, DialogAnswer::Open),
        DialogKey::Enter => if f == InputFocus::Cancel {
            (f, DialogAnswer::Cancel)
        } else if !is_blank(text) {
            (f, DialogAnswer::Confirm(0))
        } else {
            (f, DialogAnswer::Open)
        },
        DialogKey::Escape => (f, DialogAnswer::Cancel),
        _ => (f, DialogAnswer::Open),
    }
}

/// Handles a key in the text-input dialog holding `text`; a confirmation
/// submits the text.
pub fn input_dialog_key(f: InputFocus, key: DialogKey, text: &str) -> (r: (InputFocus, DialogAnswer))
    ensures
        r == input_dialog_step(f, key, text@),
{
    match key {
        DialogKey::Tab => (match f {
            InputFocus::Input => InputFocus::Accept,
            InputFocus::Accept => InputFocus::Cancel,
            InputFocus::Cancel => InputFocus::Input,
        }, DialogAnswer::Open),
        DialogKey::Right => (if f == InputFocus::Input { f } else { InputFocus::Accept }, DialogAnswer::Open),
        DialogKey::Left => (if f == InputFocus::Input { f } else { InputFocus::Cancel }, DialogAnswer::Open),
        DialogKey::Enter => if f == InputFocus::Cancel {
            (f, DialogAnswer::Cancel)
        } else if !crate::text::is_blank_text(text) {
            (f, DialogAnswer::Confirm(0))
        } else {
            (f, DialogAnswer::Open)
        },
        DialogKey::Escape => (f, DialogAnswer::Cancel),
        _ => (f, DialogAnswer::Open),
    }
}

/// Where the confirmation dialog's focus is.
#[derive(Clone, Copy, Debug, PartialEq, Eq, Structural)]
pub enum ConfirmFocus {
    Accept,
    Cancel,
}

/// The confirmation dialog: Tab, left and right swap the buttons; Enter
/// answers with the focused one; Escape cancels.
pub open spec fn confirm_dialog_step(f: ConfirmFocus, key: DialogKey) -> (ConfirmFocus, DialogAnswer) {
    match key {
        DialogKey::Tab | DialogKey::Left | DialogKey::Right => (if f == ConfirmFocus::Accept { ConfirmFocus::Cancel } else { ConfirmFocus::Accept }, DialogAnswer::Open),
        DialogKey::Enter => (f, if f == ConfirmFocus::Accept { DialogAnswer::Confirm(0) } else { DialogAnswer::Cancel }),
        DialogKey::Escape => (f, DialogAnswer::Cancel),
        _ => (f, DialogAnswer::Open),
    }
}

/// Handles a key in the confirmation dialog.
pub fn confirm_dialog_key(f: ConfirmFocus, key: DialogKey) -> (r: (ConfirmFocus, DialogAnswer))
    ensures
        r == confirm_dialog_step(f, key),
{
    match key {
        DialogKey::Tab | DialogKey::Left | DialogKey::Right => (if f == ConfirmFocus::Accept { ConfirmFocus::Cancel } else { ConfirmFocus::Accept }, DialogAnswer::Open),
        DialogKey::Enter => (f, if f == ConfirmFocus::Accept { DialogAnswer::Confirm(0) } else { DialogAnswer::Cancel }),
        DialogKey::Escape => (f, DialogAnswer::Cancel),
        _ => (f, DialogAnswer::Open),
    }
}

/// Where the name-conflict dialog's focus is: one of its three choices
/// (use the existing file, save under a new id, give a name), the name
/// field, or a button.
#[derive(Clone, Copy, Debug, PartialEq, Eq, Structural)]
pub enum ConflictFocus {
    Overwrite,
    Guid,
    Specify,
    Input,
    Accept,
    Cancel,
}

/// The name-conflict dialog, whose state is the focus and the selected
/// choice (0, 1 or 2): up and down move through the choices, selecting
/// them, and on to the buttons; left, right and Tab swap the buttons, go
/// between the third choice and its name field, and from the first two
/// choices to OK; Enter answers with the selected choice unless Cancel has
/// the focus; Escape cancels.
pub open spec fn conflict_dialog_step(f: ConflictFocus, selected: usize, key: DialogKey) -> (ConflictFocus, usize, DialogAnswer) {
    match key {
        DialogKey::Up => match f {
            ConflictFocus::Guid => (ConflictFocus::Overwrite, 0usize, DialogAnswer::Open),
            ConflictFocus::Specify | ConflictFocus::Input => (ConflictFocus::Guid, 1usize, DialogAnswer::Open),
            ConflictFocus::Accept | ConflictFocus::Cancel => (ConflictFocus::Specify, 2usize, DialogAnswer::Open),
            ConflictFocus::Overwrite => (f, selected, DialogAnswer::Open),
        },
        DialogKey::Down => match f {
            ConflictFocus::Overwrite => (ConflictFocus::Guid, 1usize, DialogAnswer::Open),
            ConflictFocus::Guid => (ConflictFocus::Specify, 2usize, DialogAnswer::Open),
            ConflictFocus::Specify | ConflictFocus::Input => (ConflictFocus::Accept, selected, DialogAnswer::Open),
            _ => (f, selected, DialogAnswer::Open),
        },
        DialogKey::Left | DialogKey::Right | DialogKey::Tab => (match f {
            ConflictFocus::Accept => ConflictFocus::Cancel,
            ConflictFocus::Cancel => ConflictFocus::Accept,
            ConflictFocus::Specify => ConflictFocus::Input,
            ConflictFocus::Input => ConflictFocus::Specify,
            _ => ConflictFocus::Accept,
        }, selected, DialogAnswer::Open),
        DialogKey::Enter => (f, selected, if f == ConflictFocus::Cancel { DialogAnswer::Cancel } else { DialogAnswer::Confirm(selected) }),
        DialogKey::Escape => (f, selected, DialogAnswer::Cancel),
        DialogKey::Other => (f, selected, DialogAnswer::Open),
    }
}

/// Handles a key in the name-conflict dialog.
pub fn conflict_dialog_key(f: ConflictFocus, selected: usize, key: DialogKey) -> (r: (ConflictFocus, usize, DialogAnswer))
    ensures
        r == conflict_dialog_step(f, selected, key),
{
    match key {
        DialogKey::Up => match f {
            ConflictFocus::Guid => (ConflictFocus::Overwrite, 0, DialogAnswer::Open),
            ConflictFocus::Specify | ConflictFocus::Input => (ConflictFocus::Guid, 1, DialogAnswer::Open),
            ConflictFocus::Accept | ConflictFocus::Cancel => (ConflictFocus::Specify, 2, DialogAnswer::Open),
            ConflictFocus::Overwrite => (f, selected, DialogAnswer::Open),
        },
        DialogKey::Down => match f {
            ConflictFocus::Overwrite => (ConflictFocus::Guid, 1, DialogAnswer::Open),
            ConflictFocus::Guid => (ConflictFocus::Specify, 2, DialogAnswer::Open),
            ConflictFocus::Specify | ConflictFocus::Input => (ConflictFocus::Accept, selected, DialogAnswer::Open),
            _ => (f, selected, DialogAnswer::Open),
        },
        DialogKey::Left | DialogKey::Right | DialogKey::Tab => (match f {
            ConflictFocus::Accept => ConflictFocus::Cancel,
            ConflictFocus::Cancel => ConflictFocus::Accept,
            ConflictFocus::Specify => ConflictFocus::Input,
            ConflictFocus::Input => ConflictFocus::Specify,
            _ => ConflictFocus::Accept,
        }, selected, DialogAnswer::Open),
        DialogKey::Enter => (f, selected, if f == ConflictFocus::Cancel { DialogAnswer::Cancel } else { DialogAnswer::Confirm(selected) }),
        DialogKey::Escape => (f, selected, DialogAnswer::Cancel),
        DialogKey::Other => (f, selected, DialogAnswer::Open),
    }
}

/// The keyboard only ever selects one of the three choices of the
/// name-conflict dialog.
pub proof fn lemma_conflict_choice_in_range(f: ConflictFocus, selected: usize, key: DialogKey)
    requires
        selected < 3,
    ensures
        conflict_dialog_step(f, selected, key).1 < 3,
        conflict_dialog_step(f, selected, key).2 matches DialogAnswer::Confirm(c) ==> c < 3,
{
}

/// How the dialogs answer: Escape cancels each of them whatever has the
/// focus, and so does Enter on Cancel; Enter on OK of the confirmation
/// dialog confirms; Enter anywhere but Cancel in the name-conflict dialog
/// answers with the selected choice; the text-input dialog does not submit
/// a blank text; in the option dialog Down then Up comes back to the same
/// choice.
pub proof fn lemma_dialog_answers(fo: OptionFocus, n: nat, fi: InputFocus, text: Seq<char>, fc: ConfirmFocus,
    fk: ConflictFocus, selected: usize, i: usize)
    requires
        n <= usize::MAX,
    ensures
        option_dialog_step(fo, DialogKey::Escape, n).1 == DialogAnswer::Cancel,
        input_dialog_step(fi, DialogKey::Escape, text).1 == DialogAnswer::Cancel,
        confirm_dialog_step(fc, DialogKey::Escape).1 == DialogAnswer::Cancel,
        conflict_dialog_step(fk, selected, DialogKey::Escape).2 == DialogAnswer::Cancel,
        option_dialog_step(OptionFocus::Cancel, DialogKey::Enter, n).1 == DialogAnswer::Cancel,
        input_dialog_step(InputFocus::Cancel, DialogKey::Enter, text).1 == DialogAnswer::Cancel,
        confirm_dialog_step(ConfirmFocus::Cancel, DialogKey::Enter).1 == DialogAnswer::Cancel,
        conflict_dialog_step(ConflictFocus::Cancel, selected, DialogKey::Enter).2 == DialogAnswer::Cancel,
        confirm_dialog_step(ConfirmFocus::Accept, DialogKey::Enter).1 == DialogAnswer::Confirm(0),
        fk != ConflictFocus::Cancel ==> conflict_dialog_step(fk, selected, DialogKey::Enter).2 == DialogAnswer::Confirm(selected),
        is_blank(text) ==> input_dialog_step(fi, DialogKey::Enter, text).1 != DialogAnswer::Confirm(0),
        (i as int) + 1 < n ==> option_dialog_step(option_dialog_step(OptionFocus::Choice(i), DialogKey::Down, n).0,
            DialogKey::Up, n).0 == OptionFocus::Choice(i),
{
}

/// What the user does in the name-conflict dialog.
#[derive(Clone, Copy, Debug, PartialEq, Eq, Structural)]
pub enum ConflictEvent {
    /// A key press.
    Key(DialogKey),
    /// Typing in the name field (the typed name itself is kept by the
    /// window).
    Typed,
    /// A click on the first choice (use the existing file).
    PickOverwrite,
    /// A click on the second choice (save under a new id).
    PickGuid,
    /// A click on the third choice (give a name).
    PickSpecify,
    /// A click on OK.
    ClickAccept,
    /// A click on Cancel.
    ClickCancel,
}

/// The name-conflict dialog on any event: keys as `conflict_dialog_step`
/// says; typing in the name field focuses it and selects the third choice;
/// a click on a choice focuses and selects it; a click on OK answers with
/// the selected choice, one on Cancel cancels.
pub open spec fn conflict_dialog_on(f: ConflictFocus, selected: usize, ev: ConflictEvent) -> (ConflictFocus, usize, DialogAnswer) {
    match ev {
        ConflictEvent::Key(k) => conflict_dialog_step(f, selected, k),
        ConflictEvent::Typed => (ConflictFocus::Input, 2usize, DialogAnswer::Open),
        ConflictEvent::PickOverwrite => (ConflictFocus::Overwrite, 0usize, DialogAnswer::Open),
        ConflictEvent::PickGuid => (ConflictFocus::Guid, 1usize, DialogAnswer::Open),
        ConflictEvent::PickSpecify => (ConflictFocus::Specify, 2usize, DialogAnswer::Open),
        ConflictEvent::ClickAccept => (f, selected, DialogAnswer::Confirm(selected)),
        ConflictEvent::ClickCancel => (f, selected, DialogAnswer::Cancel),
    }
}

/// Handles an event of the name-conflict dialog (see `conflict_dialog_on`).
pub fn conflict_dialog_event(f: ConflictFocus, selected: usize, ev: ConflictEvent) -> (r: (ConflictFocus, usize, DialogAnswer))
    ensures
        r == conflict_dialog_on(f, selected, ev),
{
    match ev {
        ConflictEvent::Key(k) => conflict_dialog_key(f, selected, k),
        ConflictEvent::Typed => (ConflictFocus::Input, 2, DialogAnswer::Open),
        ConflictEvent::PickOverwrite => (ConflictFocus::Overwrite, 0, DialogAnswer::Open),
        ConflictEvent::PickGuid => (ConflictFocus::Guid, 1, DialogAnswer::Open),
        ConflictEvent::PickSpecify => (ConflictFocus::Specify, 2, DialogAnswer::Open),
        ConflictEvent::ClickAccept => (f, selected, DialogAnswer::Confirm(selected)),
        ConflictEvent::ClickCancel => (f, selected, DialogAnswer::Cancel),
    }
}

/// Whatever the user does, the name-conflict dialog only ever selects, and
/// answers with, one of its three choices; typing a name always selects
/// the third.
pub proof fn lemma_conflict_events_in_range(f: ConflictFocus, selected: usize, ev: ConflictEvent)
    requires
        selected < 3,
    ensures
        conflict_dialog_on(f, selected, ev).1 < 3,
        conflict_dialog_on(f, selected, ev).2 matches DialogAnswer::Confirm(c) ==> c < 3,
        ev == ConflictEvent::Typed ==> conflict_dialog_on(f, selected, ev).1 == 2,
{
}

/// Where the empty-sheet dialog's focus is; its buttons stand in this
/// order.
#[derive(Clone, Copy, Debug, PartialEq, Eq, Structural)]
pub enum EmptySheetFocus {
    Cancel,
    Save,
    Delete,
}

/// What the empty-sheet dialog answers.
#[derive(Clone, Copy, Debug, PartialEq, Eq, Structural)]
pub enum EmptySheetAnswer {
    Open,
    Cancel,
    Save,
    Delete,
}

/// The next button to the right, round the end.
pub open spec fn empty_sheet_next(f: EmptySheetFocus) -> EmptySheetFocus {
    match f {
        EmptySheetFocus::Cancel => EmptySheetFocus::Save,
        EmptySheetFocus::Save => EmptySheetFocus::Delete,
        EmptySheetFocus::Delete => EmptySheetFocus::Cancel,
    }
}

/// The next button to the left, round the end.
pub open spec fn empty_sheet_prev(f: EmptySheetFocus) -> EmptySheetFocus {
    match f {
        EmptySheetFocus::Cancel => EmptySheetFocus::Delete,
        EmptySheetFocus::Save => EmptySheetFocus::Cancel,
        EmptySheetFocus::Delete => EmptySheetFocus::Save,
    }
}

/// The empty-sheet dialog: left goes round its buttons leftwards, right and
/// Tab rightwards; Enter answers with the focused button; Escape cancels.
pub open spec fn empty_sheet_step(f: EmptySheetFocus, key: DialogKey) -> (EmptySheetFocus, EmptySheetAnswer) {
    match key {
        DialogKey::Left => (empty_sheet_prev(f), EmptySheetAnswer::Open),
        DialogKey::Right | DialogKey::Tab => (empty_sheet_next(f), EmptySheetAnswer::Open),
        DialogKey::Enter => (f, match f {
            EmptySheetFocus::Cancel => EmptySheetAnswer::Cancel,
            EmptySheetFocus::Save => EmptySheetAnswer::Save,
            EmptySheetFocus::Delete => EmptySheetAnswer::Delete,
        }),
        DialogKey::Escape => (f, EmptySheetAnswer::Cancel),
        _ => (f, EmptySheetAnswer::Open),
    }
}

/// Handles a key in the empty-sheet dialog.
pub fn empty_sheet_key(f: EmptySheetFocus, key: DialogKey) -> (r: (EmptySheetFocus, EmptySheetAnswer))
    ensures
        r == empty_sheet_step(f, key),
{
    let next = match f {
        EmptySheetFocus::Cancel => EmptySheetFocus::Save,
        EmptySheetFocus::Save => EmptySheetFocus::Delete,
        EmptySheetFocus::Delete => EmptySheetFocus::Cancel,
    };
    let prev = match f {
        EmptySheetFocus::Cancel => EmptySheetFocus::Delete,
        EmptySheetFocus::Save => EmptySheetFocus::Cancel,
        EmptySheetFocus::Delete => EmptySheetFocus::Save,
    };
    match key {
        DialogKey::Left => (prev, EmptySheetAnswer::Open),
        DialogKey::Right | DialogKey::Tab => (next, EmptySheetAnswer::Open),
        DialogKey::Enter => (f, match f {
            EmptySheetFocus::Cancel => EmptySheetAnswer::Cancel,
            EmptySheetFocus::Save => EmptySheetAnswer::Save,
            EmptySheetFocus::Delete => EmptySheetAnswer::Delete,
        }),
        DialogKey::Escape => (f, EmptySheetAnswer::Cancel),
        _ => (f, EmptySheetAnswer::Open),
    }
}

/// In the two-button and three-button dialogs the moves undo each other:
/// left after right (or right after left) comes back to the same button,
/// and in the confirmation dialog two swaps do.
pub proof fn lemma_button_moves_undo(f: EmptySheetFocus, c: ConfirmFocus)
    ensures
        empty_sheet_step(empty_sheet_step(f, DialogKey::Right).0, DialogKey::Left).0 == f,
        empty_sheet_step(empty_sheet_step(f, DialogKey::Left).0, DialogKey::Right).0 == f,
        confirm_dialog_step(confirm_dialog_step(c, DialogKey::Tab).0, DialogKey::Tab).0 == c,
{
}


/// What the dialog asking which side of a split to close answers.
#[derive(Clone, Copy, Debug, PartialEq, Eq, Structural)]
pub enum SplitCloseAnswer {
    Open,
    /// Close the terminal (choice 0).
    CloseTerminal,
    /// Close the preview (choice 1).
    ClosePreview,
    /// Close the dialog only.
    Dismiss,
}

/// The split-close dialog: left and right swap the two choices, Enter
/// takes the selected one, Escape dismisses the dialog.
pub open spec fn split_close_step(selected: usize, key: DialogKey) -> (usize, SplitCloseAnswer) {
    match key {
        DialogKey::Left | DialogKey::Right => (if selected == 0 { 1usize } else { 0usize }, SplitCloseAnswer::Open),
        DialogKey::Enter => (selected, if selected == 0 { SplitCloseAnswer::CloseTerminal } else { SplitCloseAnswer::ClosePreview }),
        DialogKey::Escape => (selected, SplitCloseAnswer::Dismiss),
        _ => (selected, SplitCloseAnswer::Open),
    }
}

/// Handles a key in the split-close dialog.
pub fn split_close_key(selected: usize, key: DialogKey) -> (r: (usize, SplitCloseAnswer))
    ensures
        r == split_close_step(selected, key),
{
    match key {
        DialogKey::Left | DialogKey::Right => (if selected == 0 { 1 } else { 0 }, SplitCloseAnswer::Open),
        DialogKey::Enter => (selected, if selected == 0 { SplitCloseAnswer::CloseTerminal } else { SplitCloseAnswer::ClosePreview }),
        DialogKey::Escape => (selected, SplitCloseAnswer::Dismiss),
        _ => (selected, SplitCloseAnswer::Open),
    }
}

/// The overlays of the main window that Escape can close.
#[derive(Clone, Copy, Debug, PartialEq, Eq, Structural)]
pub struct OpenOverlays {
    /// The file dialog, or one of its own sub-dialogs.
    pub file_dialog: bool,
    pub creating_category: bool,
    pub category_dropdown: bool,
    pub logout_confirm: bool,
    pub name_conflicts: bool,
    pub pending_delete: bool,
    pub sync_conflicts: bool,
    pub fallbacks: bool,
    pub settings: bool,
    pub help: bool,
    pub split_close: bool,
}

/// What Escape does while an overlay is open.
#[derive(Clone, Copy, Debug, PartialEq, Eq, Structural)]
pub enum EscapeAction {
    /// The file dialog handles Escape itself (it closes with its animation).
    LeaveToFileDialog,
    /// A text field has the focus: Escape is left to it.
    LeaveToInput,
    CloseCreatingCategory,
    CloseCategoryDropdown,
    CloseLogoutConfirm,
    DropNameConflicts,
    CancelDelete,
    DropSyncConflicts,
    DropFallbacks,
    CloseSettings,
    CloseHelp,
    CloseSplitClose,
    /// Nothing to close: only the focus returns.
    Nothing,
}

/// What Escape closes: the file dialog is left to close itself; a focused
/// text field keeps Escape unless the settings are open; otherwise the
/// first open overlay in this order closes: category creation, category
/// menu, logout confirmation, name conflicts, pending delete, sync
/// conflicts, fallbacks, settings, help, split-close question.
pub open spec fn escape_action(o: OpenOverlays, input_focused: bool) -> EscapeAction {
    if o.file_dialog { EscapeAction::LeaveToFileDialog }
    else if input_focused && !o.settings { EscapeAction::LeaveToInput }
    else if o.creating_category { EscapeAction::CloseCreatingCategory }
    else if o.category_dropdown { EscapeAction::CloseCategoryDropdown }
    else if o.logout_confirm { EscapeAction::CloseLogoutConfirm }
    else if o.name_conflicts { EscapeAction::DropNameConflicts }
    else if o.pending_delete { EscapeAction::CancelDelete }
    else if o.sync_conflicts { EscapeAction::DropSyncConflicts }
    else if o.fallbacks { EscapeAction::DropFallbacks }
    else if o.settings { EscapeAction::CloseSettings }
    else if o.help { EscapeAction::CloseHelp }
    else if o.split_close { EscapeAction::CloseSplitClose }
    else { EscapeAction::Nothing }
}

/// Decides what Escape does (see `escape_action`).
pub fn escape_key(o: OpenOverlays, input_focused: bool) -> (r: EscapeAction)
    ensures
        r == escape_action(o, input_focused),
{
    if o.file_dialog { EscapeAction::LeaveToFileDialog }
    else if input_focused && !o.settings { EscapeAction::LeaveToInput }
    else if o.creating_category { EscapeAction::CloseCreatingCategory }
    else if o.category_dropdown { EscapeAction::CloseCategoryDropdown }
    else if o.logout_confirm { EscapeAction::CloseLogoutConfirm }
    else if o.name_conflicts { EscapeAction::DropNameConflicts }
    else if o.pending_delete { EscapeAction::CancelDelete }
    else if o.sync_conflicts { EscapeAction::DropSyncConflicts }
    else if o.fallbacks { EscapeAction::DropFallbacks }
    else if o.settings { EscapeAction::CloseSettings }
    else if o.help { EscapeAction::CloseHelp }
    else if o.split_close { EscapeAction::CloseSplitClose }
    else { EscapeAction::Nothing }
}

/// Escape closes only an overlay that is open, and, when the file dialog
/// is closed and no text field keeps Escape, it closes one whenever one is
/// open. The category creation closes before any other overlay, and the
/// split-close question only when nothing else is open.
pub proof fn lemma_escape_closes_an_open_overlay(o: OpenOverlays, input_focused: bool)
    ensures
        ({
            let a = escape_action(o, input_focused);
            &&& a == EscapeAction::LeaveToFileDialog ==> o.file_dialog
            &&& a == EscapeAction::CloseCreatingCategory ==> o.creating_category
            &&& a == EscapeAction::CloseCategoryDropdown ==> o.category_dropdown
            &&& a == EscapeAction::CloseLogoutConfirm ==> o.logout_confirm
            &&& a == EscapeAction::DropNameConflicts ==> o.name_conflicts
            &&& a == EscapeAction::CancelDelete ==> o.pending_delete
            &&& a == EscapeAction::DropSyncConflicts ==> o.sync_conflicts
            &&& a == EscapeAction::DropFallbacks ==> o.fallbacks
            &&& a == EscapeAction::CloseSettings ==> o.settings
            &&& a == EscapeAction::CloseHelp ==> o.help
            &&& a == EscapeAction::CloseSplitClose ==> o.split_close
            &&& !o.file_dialog && o.creating_category && !(input_focused && !o.settings)
                ==> a == EscapeAction::CloseCreatingCategory
            &&& !o.file_dialog && !(input_focused && !o.settings)
                && (o.creating_category || o.category_dropdown || o.logout_confirm || o.name_conflicts
                    || o.pending_delete || o.sync_conflicts || o.fallbacks || o.settings || o.help || o.split_close)
                ==> a != EscapeAction::Nothing
            &&& a == EscapeAction::CloseSplitClose ==> !(o.creating_category || o.category_dropdown || o.logout_confirm
                || o.name_conflicts || o.pending_delete || o.sync_conflicts || o.fallbacks || o.settings || o.help)
        }),
{
}

} // verus!
