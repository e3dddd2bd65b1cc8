//! A sheet (one open document) and the decisions the editor takes on it:
//! its tab title, its gutter status, whether and what to save, and how it
//! is brought in line with its copy on Google Drive.

use vstd::prelude::*;
use vstd::utf8::encode_utf8;
use crate::text::{before_last, find_last, lemma_last_index_of, last_segment, last_segment_of, lowercase, to_lowercase, first_nonblank_line, first_nonblank_line_of, is_blank, is_blank_text, same_text, starts_with_text};

verus! {

/// One open sheet. Times are milliseconds since the epoch.
pub struct Sheet {
    pub id: String,
    pub guid: Option<String>,
    pub category: String,
    pub title: String,
    pub content: String,
    pub is_modified: bool,
    pub drive_id: Option<String>,
    pub temp_content: Option<String>,
    pub temp_timestamp: Option<u64>,
    pub last_sync_timestamp: Option<u64>,
    pub tab_color: String,
    pub total_size: u64,
    pub loaded_bytes: u64,
    pub needs_bom: bool,
    pub is_preview: bool,
    pub is_split: bool,
    pub editor_state: Option<String>,
    pub created_at: Option<u64>,
    pub local_path: Option<String>,
}

/// The category of sheets that live in local files rather than on Drive.
pub open spec fn local_category() -> Seq<char> {
    "__LOCAL__"@
}

/// The title a fresh sheet gets.
pub open spec fn untitled_title() -> Seq<char> {
    "Untitled.txt"@
}

pub open spec fn is_local(s: Sheet) -> bool {
    s.category@ == local_category()
}

/// Neither on Drive nor given an id for saving yet.
pub open spec fn never_saved(s: Sheet) -> bool {
    s.drive_id is None && s.guid is None
}

/// Whether the sheet belongs to local files.
pub fn is_local_sheet(s: &Sheet) -> (r: bool)
    ensures
        r == is_local(*s),
{
    same_text(s.category.as_str(), "__LOCAL__")
}

/// What the gutter beside the editor shows for the active sheet.
#[derive(Clone, Copy, Debug, PartialEq, Eq, Structural)]
pub enum GutterStatus {
    /// Not saved where it belongs.
    Unsaved,
    /// A local file.
    Local,
    /// Nothing to show.
    Clean,
}

impl GutterStatus {
    /// The name the editor's gutter takes.
    pub fn name(self) -> (r: &'static str)
        ensures
            r@ == (match self {
                GutterStatus::Unsaved => "unsaved"@,
                GutterStatus::Local => "local"@,
                GutterStatus::Clean => "none"@,
            }),
    {
        match self {
            GutterStatus::Unsaved => "unsaved",
            GutterStatus::Local => "local",
            GutterStatus::Clean => "none",
        }
    }
}

/// The status shown when the editor switches to a sheet after a tab closed:
/// a never-saved sheet is local or unsaved by its category, a saved one is
/// unsaved while modified.
pub open spec fn switch_status(s: Sheet) -> GutterStatus {
    if never_saved(s) {
        if is_local(s) { GutterStatus::Local } else { GutterStatus::Unsaved }
    } else if s.is_modified {
        GutterStatus::Unsaved
    } else {
        GutterStatus::Clean
    }
}

/// The status shown when a sheet is loaded into the editor: local files are
/// local; a sheet without category is unsaved while it keeps its fresh
/// title and local otherwise; other sheets are unsaved until saved once.
pub open spec fn load_status(s: Sheet) -> GutterStatus {
    if is_local(s) {
        GutterStatus::Local
    } else if s.category@.len() == 0 {
        if untitled_title().is_prefix_of(s.title@) { GutterStatus::Unsaved } else { GutterStatus::Local }
    } else if never_saved(s) {
        GutterStatus::Unsaved
    } else {
        GutterStatus::Clean
    }
}

/// What the gutter and the tab show of a sheet: a local file (category
/// `__LOCAL__`) is marked local and its tab shows its file name; a sheet
/// with a Drive copy or an id is unsaved exactly while modified when
/// switched to, and clean when loaded if it has a category; a sheet outside
/// the local files with neither is unsaved when switched to and its tab
/// shows `---`.
pub proof fn lemma_sheet_marks(s: Sheet, shown: Seq<char>)
    ensures
        s.category@ == "__LOCAL__"@ ==> load_status(s) == GutterStatus::Local && tab_title(s, shown) == s.title@,
        s.category@ == "__LOCAL__"@ && s.drive_id is None && s.guid is None ==> switch_status(s) == GutterStatus::Local,
        (s.drive_id is Some || s.guid is Some) ==> (switch_status(s) == GutterStatus::Unsaved <==> s.is_modified),
        (s.drive_id is Some || s.guid is Some) && s.is_modified ==> switch_status(s) == GutterStatus::Unsaved,
        (s.drive_id is Some || s.guid is Some) && !s.is_modified ==> switch_status(s) == GutterStatus::Clean,
        (s.drive_id is Some || s.guid is Some) && s.category@.len() > 0 && s.category@ != "__LOCAL__"@
            ==> load_status(s) == GutterStatus::Clean,
        s.drive_id is None && s.guid is None && s.category@ != "__LOCAL__"@
            ==> switch_status(s) == GutterStatus::Unsaved && tab_title(s, shown) == "---"@,
{
}

/// Gutter status after switching to `s` when a tab closed.
pub fn gutter_status_on_switch(s: &Sheet) -> (r: GutterStatus)
    ensures
        r == switch_status(*s),
{
    if s.drive_id.is_none() && s.guid.is_none() {
        if is_local_sheet(s) { GutterStatus::Local } else { GutterStatus::Unsaved }
    } else if s.is_modified {
        GutterStatus::Unsaved
    } else {
        GutterStatus::Clean
    }
}

/// Gutter status when `s` is loaded into the editor.
pub fn gutter_status_on_load(s: &Sheet) -> (r: GutterStatus)
    ensures
        r == load_status(*s),
{
    if is_local_sheet(s) {
        GutterStatus::Local
    } else if s.category.as_str().unicode_len() == 0 {
        if starts_with_text(s.title.as_str(), "Untitled.txt") { GutterStatus::Unsaved } else { GutterStatus::Local }
    } else if s.drive_id.is_none() && s.guid.is_none() {
        GutterStatus::Unsaved
    } else {
        GutterStatus::Clean
    }
}

/// The title on a sheet's tab, given the text it shows (the editor's text
/// for the active sheet): a local file shows its file name; a sheet never
/// saved, or one with no text, shows `---`; others their first non-blank
/// line, trimmed.
pub open spec fn tab_title(s: Sheet, shown: Seq<char>) -> Seq<char> {
    if is_local(s) {
        s.title@
    } else if first_nonblank_line(shown).len() == 0 || never_saved(s) {
        "---"@
    } else {
        first_nonblank_line(shown)
    }
}

/// Computes a tab's title.
pub fn tab_title_of(s: &Sheet, shown: &str) -> (r: String)
    ensures
        r@ == tab_title(*s, shown@),
{
    if is_local_sheet(s) {
        return s.title.clone();
    }
    let first = first_nonblank_line_of(shown);
    if first.as_str().unicode_len() == 0 || (s.drive_id.is_none() && s.guid.is_none()) {
        "---".to_owned()
    } else {
        first
    }
}

/// Whether leaving a sheet whose editor holds `current` calls for a save:
/// the text is not blank and differs from the stored one or is marked
/// modified.
pub open spec fn needs_save(s: Sheet, current: Seq<char>) -> bool {
    !is_blank(current) && (s.is_modified || s.content@ != current)
}

/// Decides whether a save is needed before leaving the sheet.
pub fn needs_save_before_leaving(s: &Sheet, current: &str) -> (r: bool)
    ensures
        r == needs_save(*s, current@),
{
    !is_blank_text(current) && (s.is_modified || !same_text(s.content.as_str(), current))
}

/// What the user chose to happen when a saved sheet is emptied.
#[derive(Clone, Copy, Debug, PartialEq, Eq, Structural)]
pub enum EmptySaveBehavior {
    Nothing,
    Confirm,
    Delete,
}

/// What a save of the active sheet comes to.
pub enum SavePlan {
    /// Leave the sheet as it is.
    Skip,
    /// Ask whether to delete the emptied sheet.
    ConfirmEmpty,
    /// Delete the emptied sheet.
    DeleteEmpty,
    /// An automatic save with nothing new: nothing to do.
    Unchanged,
    /// Store this text.
    Store(String),
}

/// The text a save takes: the editor's, unless it is blank while the stored
/// text is not (the editor was not drawn yet), then the stored one.
pub open spec fn text_to_save(s: Sheet, editor: Seq<char>) -> Seq<char> {
    if is_blank(editor) && !is_blank(s.content@) { s.content@ } else { editor }
}

/// Plans the save of the active sheet whose editor holds `editor`: an
/// emptied sheet that was saved once goes by the user's choice; an
/// automatic save of unchanged text does nothing; else the text is stored.
pub fn plan_save(s: &Sheet, editor: &str, manual: bool, on_empty: EmptySaveBehavior) -> (r: SavePlan)
    ensures
        ({
            let t = text_to_save(*s, editor@);
            if is_blank(t) && !never_saved(*s) {
                match on_empty {
                    EmptySaveBehavior::Nothing => r is Skip,
                    EmptySaveBehavior::Confirm => r is ConfirmEmpty,
                    EmptySaveBehavior::Delete => r is DeleteEmpty,
                }
            } else if !manual && !s.is_modified && s.content@ == t {
                r is Unchanged
            } else {
                r matches SavePlan::Store(x) && x@ == t
            }
        }),
{
    let editor_blank = is_blank_text(editor);
    let t: String = if editor_blank && !is_blank_text(s.content.as_str()) {
        s.content.clone()
    } else {
        editor.to_owned()
    };
    if is_blank_text(t.as_str()) && (s.drive_id.is_some() || s.guid.is_some()) {
        match on_empty {
            EmptySaveBehavior::Nothing => SavePlan::Skip,
            EmptySaveBehavior::Confirm => SavePlan::ConfirmEmpty,
            EmptySaveBehavior::Delete => SavePlan::DeleteEmpty,
        }
    } else if !manual && !s.is_modified && same_text(s.content.as_str(), t.as_str()) {
        SavePlan::Unchanged
    } else {
        SavePlan::Store(t)
    }
}


/// The extensions the editor's footer offers; a sheet saved under another
/// one is saved as `txt`.
pub open spec fn is_supported_extension(e: Seq<char>) -> bool {
    e == "txt"@
        || e == "md"@
        || e == "js"@
        || e == "ts"@
        || e == "rs"@
        || e == "c"@
        || e == "cpp"@
        || e == "h"@
        || e == "m"@
        || e == "cs"@
        || e == "java"@
        || e == "php"@
        || e == "rb"@
        || e == "pl"@
        || e == "py"@
        || e == "sh"@
        || e == "coffee"@
        || e == "toml"@
        || e == "json"@
        || e == "xml"@
        || e == "html"@
        || e == "css"@
        || e == "sql"@
        || e == "yaml"@
}

/// Whether `e` is one of the extensions the footer offers.
pub fn supported_extension(e: &str) -> (r: bool)
    ensures
        r == is_supported_extension(e@),
{
    same_text(e, "txt")
        || same_text(e, "md")
        || same_text(e, "js")
        || same_text(e, "ts")
        || same_text(e, "rs")
        || same_text(e, "c")
        || same_text(e, "cpp")
        || same_text(e, "h")
        || same_text(e, "m")
        || same_text(e, "cs")
        || same_text(e, "java")
        || same_text(e, "php")
        || same_text(e, "rb")
        || same_text(e, "pl")
        || same_text(e, "py")
        || same_text(e, "sh")
        || same_text(e, "coffee")
        || same_text(e, "toml")
        || same_text(e, "json")
        || same_text(e, "xml")
        || same_text(e, "html")
        || same_text(e, "css")
        || same_text(e, "sql")
        || same_text(e, "yaml")
}

/// The extension a sheet is saved under: its title's, lower-cased, when
/// supported; `txt` otherwise.
pub open spec fn save_extension(title: Seq<char>) -> Seq<char> {
    let e = lowercase(last_segment(title, '.'));
    if is_supported_extension(e) { e } else { "txt"@ }
}

/// Computes the extension a sheet is saved under.
pub fn save_extension_of(title: &str) -> (r: String)
    ensures
        r@ == save_extension(title@),
{
    let seg = last_segment_of(title, '.');
    let e = to_lowercase(seg.as_str());
    if supported_extension(e.as_str()) { e } else { "txt".to_owned() }
}

/// The file name the footer shows for the active sheet.
pub enum FooterName {
    /// The sheet's title.
    Title(String),
    /// A fresh local sheet: no file name chosen yet.
    NotSpecified,
    /// A fresh sheet outside the local files: `----`.
    Dashes,
}

/// Whether the footer shows `s` as a fresh sheet: never saved, and either a
/// local sheet titled exactly `Untitled.txt` (`Some(true)`) or another
/// sheet whose title starts with `Untitled` (`Some(false)`).
pub open spec fn fresh_in_footer(s: Sheet) -> Option<bool> {
    if never_saved(s) && is_local(s) && s.title@ == untitled_title() {
        Some(true)
    } else if never_saved(s) && !is_local(s) && "Untitled"@.is_prefix_of(s.title@) {
        Some(false)
    } else {
        None
    }
}

/// What the footer shows for the active sheet: its file name and its
/// extension (the save extension; `txt` for a fresh sheet).
pub fn footer_file(s: &Sheet) -> (r: (FooterName, String))
    ensures
        match fresh_in_footer(*s) {
            Some(true) => r.0 is NotSpecified && r.1@ == "txt"@,
            Some(false) => r.0 is Dashes && r.1@ == "txt"@,
            None => (r.0 matches FooterName::Title(t) && t@ == s.title@) && r.1@ == save_extension(s.title@),
        },
{
    let never = s.drive_id.is_none() && s.guid.is_none();
    let local = is_local_sheet(s);
    if never && local && same_text(s.title.as_str(), "Untitled.txt") {
        (FooterName::NotSpecified, "txt".to_owned())
    } else if never && !local && starts_with_text(s.title.as_str(), "Untitled") {
        (FooterName::Dashes, "txt".to_owned())
    } else {
        (FooterName::Title(s.title.clone()), save_extension_of(s.title.as_str()))
    }
}

/// A sheet in a Drive category that was never saved gets an id before its
/// first save, and its title becomes that id with the save extension.
pub open spec fn needs_guid(s: Sheet) -> bool {
    never_saved(s) && s.category@.len() > 0 && !is_local(s)
}

/// Gives the sheet its id for saving when it needs one (see `needs_guid`);
/// any other sheet is returned as it was.
pub fn assign_guid(s: Sheet, guid: String) -> (r: Sheet)
    ensures
        needs_guid(s) ==> r == (Sheet { guid: Some(guid), title: r.title, ..s })
            && r.title@ == guid@ + "."@ + save_extension(s.title@),
        !needs_guid(s) ==> r == s,
{
    if s.drive_id.is_none() && s.guid.is_none() && s.category.as_str().unicode_len() > 0 && !is_local_sheet(&s) {
        let ext = save_extension_of(s.title.as_str());
        let mut title = guid.clone();
        title.append(".");
        title.append(ext.as_str());
        Sheet { guid: Some(guid), title, ..s }
    } else {
        s
    }
}


/// Records a store of `text` at time `now`: the sheet holds the text, is no
/// longer modified, and keeps the text and time as its latest local copy.
pub fn record_store(s: Sheet, text: String, now: u64) -> (r: Sheet)
    ensures
        r == (Sheet {
            content: text,
            is_modified: false,
            temp_content: Some(text),
            temp_timestamp: Some(now),
            ..s
        }),
{
    let copy = text.clone();
    Sheet { content: text, is_modified: false, temp_content: Some(copy), temp_timestamp: Some(now), ..s }
}

/// Whether a modified sheet is also saved to Drive (or to its local file)
/// when the user moves away from it: a sheet in a Drive category, one
/// without category whose title is not the fresh `Untitled.txt` one, or a
/// local file while local auto-save is on.
pub open spec fn saves_on_leave(s: Sheet, local_autosave: bool) -> bool {
    let local = s.category@ == local_category();
    ||| !local && s.category@.len() > 0
    ||| !local && s.category@.len() == 0 && !untitled_title().is_prefix_of(s.title@)
    ||| local && local_autosave
}

/// The sheet after the user moves away from it with `editor` in the
/// editor: it keeps the editor state and split view; a changed text is
/// taken, and marks a sheet that has a Drive copy or an id modified; a
/// modified sheet keeps its text as its latest local copy, timed `now`.
pub open spec fn left_sheet(s: Sheet, editor: String, state: String, split: bool, now: u64) -> Sheet {
    let changed = s.content@ != editor@;
    let content = if changed { editor } else { s.content };
    let modified = s.is_modified || (changed && (s.drive_id is Some || s.guid is Some));
    Sheet {
        editor_state: Some(state),
        is_split: split,
        content,
        is_modified: modified,
        temp_content: if modified { Some(content) } else { s.temp_content },
        temp_timestamp: if modified { Some(now) } else { s.temp_timestamp },
        ..s
    }
}

/// Records that the user moved away from the sheet (see `left_sheet`) and
/// says whether it is to be saved to Drive or its file now: when it is
/// modified and `saves_on_leave` holds.
pub fn leave_sheet(s: Sheet, editor: String, state: String, split: bool, now: u64, local_autosave: bool) -> (r: (Sheet, bool))
    ensures
        r.0 == left_sheet(s, editor, state, split, now),
        r.1 == (r.0.is_modified && saves_on_leave(r.0, local_autosave)),
{
    let changed = !same_text(s.content.as_str(), editor.as_str());
    let has_copy = s.drive_id.is_some() || s.guid.is_some();
    let modified = s.is_modified || (changed && has_copy);
    let content = if changed { editor } else { s.content };
    let temp_content = if modified { Some(content.clone()) } else { s.temp_content };
    let temp_timestamp = if modified { Some(now) } else { s.temp_timestamp };
    let r = Sheet {
        editor_state: Some(state),
        is_split: split,
        content,
        is_modified: modified,
        temp_content,
        temp_timestamp,
        ..s
    };
    let local = same_text(r.category.as_str(), "__LOCAL__");
    let no_category = r.category.unicode_len() == 0;
    let to_drive = (!local && !no_category)
        || (!local && no_category && !starts_with_text(r.title.as_str(), "Untitled.txt"))
        || (local && local_autosave);
    let save = modified && to_drive;
    (r, save)
}

/// Leaving a sheet keeps nothing unsaved behind: a sheet modified after it
/// is left has its text as its latest local copy; one whose editor held its
/// unchanged text, and was not modified, only keeps its editor state and
/// split view, and is not saved.
pub proof fn lemma_leave_keeps_local_copy(s: Sheet, editor: String, state: String, split: bool, now: u64, local_autosave: bool)
    ensures
        left_sheet(s, editor, state, split, now).is_modified ==> left_sheet(s, editor, state, split, now).temp_content
            == Some(left_sheet(s, editor, state, split, now).content),
        (editor@ == s.content@ && !s.is_modified) ==> left_sheet(s, editor, state, split, now)
            == (Sheet { editor_state: Some(state), is_split: split, ..s }),
{
}

/// A sheet after an edit left `editor` in the editor at time `now`: the
/// text is taken, the sheet is modified, and the text is its latest local
/// copy.
pub open spec fn edited(s: Sheet, editor: String, now: u64) -> Sheet {
    Sheet { content: editor, is_modified: true, temp_content: Some(editor), temp_timestamp: Some(now), ..s }
}

/// What an edit of the active sheet comes to.
pub struct EditResult {
    /// The sheet after the edit.
    pub sheet: Sheet,
    /// The text changed, so the sheet is stored locally.
    pub changed: bool,
    /// A save to Drive (or to the local file) is to follow after a pause.
    pub schedule_save: bool,
}

/// Applies an edit of the active sheet `s` whose editor now holds
/// `editor`. Right after a sheet is loaded (`first_edit_done` false) an
/// empty editor over a sheet with text is the editor not being drawn yet:
/// the edit is ignored (`None`). Otherwise a changed text is taken (see
/// `edited`), and a save is scheduled when it changed and the sheet is one
/// that `saves_on_leave`.
pub fn apply_edit(s: Sheet, editor: String, first_edit_done: bool, now: u64, local_autosave: bool) -> (r: Option<EditResult>)
    ensures
        r is None <==> (!first_edit_done && editor@.len() == 0 && s.content@.len() > 0),
        r matches Some(e) ==> {
            &&& e.changed == (s.content@ != editor@)
            &&& e.sheet == (if e.changed { edited(s, editor, now) } else { s })
            &&& e.schedule_save == (e.changed && saves_on_leave(s, local_autosave))
        },
{
    if !first_edit_done && editor.unicode_len() == 0 && s.content.unicode_len() > 0 {
        return None;
    }
    let changed = !same_text(s.content.as_str(), editor.as_str());
    let local = same_text(s.category.as_str(), "__LOCAL__");
    let no_category = s.category.unicode_len() == 0;
    let to_drive = (!local && !no_category)
        || (!local && no_category && !starts_with_text(s.title.as_str(), "Untitled.txt"))
        || (local && local_autosave);
    let sheet = if changed {
        let copy = editor.clone();
        Sheet { content: editor, is_modified: true, temp_content: Some(copy), temp_timestamp: Some(now), ..s }
    } else {
        s
    };
    Some(EditResult { sheet, changed, schedule_save: changed && to_drive })
}

/// Records that `content` was written to the local file `file_name`
/// (at `path`, when the platform tells it): the sheet becomes a local file
/// with that name, unmodified, sized by the text's UTF-8 length.
pub fn record_local_file_save(s: Sheet, file_name: String, path: Option<String>, content: String) -> (r: Sheet)
    requires
        encode_utf8(content@).len() <= usize::MAX,
    ensures
        r.category@ == local_category(),
        r.title == file_name,
        r.local_path == (if path is Some { path } else { s.local_path }),
        !r.is_modified,
        r.content == content,
        r.total_size as int == encode_utf8(content@).len(),
        r.loaded_bytes == r.total_size,
        r == (Sheet {
            category: r.category,
            title: r.title,
            local_path: r.local_path,
            is_modified: false,
            content: r.content,
            total_size: r.total_size,
            loaded_bytes: r.loaded_bytes,
            ..s
        }),
{
    let size = content.as_str().len() as u64;
    let local_path = if path.is_some() { path } else { s.local_path };
    Sheet {
        category: "__LOCAL__".to_owned(),
        title: file_name,
        local_path,
        is_modified: false,
        content,
        total_size: size,
        loaded_bytes: size,
        ..s
    }
}

/// The Drive folder a sheet is saved into: the catch-all folder for a sheet
/// without category or in `OTHERS`, its category's folder otherwise.
pub fn target_folder(category: &str, others_folder: &str) -> (r: String)
    ensures
        r@ == (if category@.len() == 0 || category@ == "OTHERS"@ { others_folder@ } else { category@ }),
{
    if category.unicode_len() == 0 || same_text(category, "OTHERS") {
        others_folder.to_owned()
    } else {
        category.to_owned()
    }
}

/// What a check against the Drive copy leads to.
#[derive(Clone, Copy, Debug, PartialEq, Eq, Structural)]
pub enum SyncAction {
    /// Drive has a newer copy: load it without asking.
    LoadFromDrive,
    /// The local copy is newer or modified: upload it silently.
    Upload,
    /// Both agree.
    Nothing,
}

/// The time of the local copy: the latest local store, else the last sync,
/// else 0.
pub open spec fn local_time(s: Sheet) -> u64 {
    match s.temp_timestamp {
        Some(t) => t,
        None => match s.last_sync_timestamp {
            Some(t) => t,
            None => 0,
        },
    }
}

pub open spec fn last_sync(s: Sheet) -> u64 {
    match s.last_sync_timestamp {
        Some(t) => t,
        None => 0,
    }
}

/// Drive's copy, modified at `drive_time`, wins when it is more than a
/// second newer than the last sync; else the local copy is uploaded when it
/// is modified or more than a second newer than Drive's.
pub open spec fn sync_action(s: Sheet, drive_time: u64) -> SyncAction {
    if drive_time > last_sync(s) + 1000 {
        SyncAction::LoadFromDrive
    } else if s.is_modified || local_time(s) > drive_time + 1000 {
        SyncAction::Upload
    } else {
        SyncAction::Nothing
    }
}

/// How the active sheet is brought in line with Drive, in terms of its
/// times: whenever Drive's copy is more than a second newer than the last
/// sync, it is loaded, whatever the sheet holds; otherwise the local copy
/// is uploaded exactly when it is modified or its latest local store (else
/// its last sync) is more than a second newer than Drive's copy.
pub proof fn lemma_sync_decision(s: Sheet, drive_time: u64)
    ensures
        ({
            let synced: int = match s.last_sync_timestamp { Some(t) => t as int, None => 0 };
            let local: int = match s.temp_timestamp {
                Some(t) => t as int,
                None => synced,
            };
            &&& drive_time > synced + 1000 ==> sync_action(s, drive_time) == SyncAction::LoadFromDrive
            &&& drive_time <= synced + 1000 && (s.is_modified || local > drive_time + 1000)
                ==> sync_action(s, drive_time) == SyncAction::Upload
            &&& drive_time <= synced + 1000 && !s.is_modified && local <= drive_time + 1000
                ==> sync_action(s, drive_time) == SyncAction::Nothing
        }),
{
}

/// Decides how the active sheet is brought in line with Drive, given the
/// time Drive last modified its copy.
pub fn decide_sync(s: &Sheet, drive_time: u64) -> (r: SyncAction)
    ensures
        r == sync_action(*s, drive_time),
{
    let last: u64 = match s.last_sync_timestamp {
        Some(t) => t,
        None => 0,
    };
    let local: u64 = match s.temp_timestamp {
        Some(t) => t,
        None => last,
    };
    if (drive_time as u128) > (last as u128) + 1000 {
        SyncAction::LoadFromDrive
    } else if s.is_modified || (local as u128) > (drive_time as u128) + 1000 {
        SyncAction::Upload
    } else {
        SyncAction::Nothing
    }
}

/// Whether the active sheet is checked against Drive at all: only sheets
/// with a Drive copy are.
pub fn has_drive_copy(s: &Sheet) -> (r: bool)
    ensures
        r == (s.drive_id is Some),
{
    s.drive_id.is_some()
}

/// Takes Drive's copy, modified at `drive_time`: the sheet holds its text,
/// drops its local copy, is synced at `drive_time`, is unmodified and sized
/// by the text's UTF-8 length.
pub fn apply_drive_content(s: Sheet, content: String, drive_time: u64) -> (r: Sheet)
    requires
        encode_utf8(content@).len() <= usize::MAX,
    ensures
        r.total_size as int == encode_utf8(content@).len(),
        r == (Sheet {
            content: content,
            temp_content: None,
            temp_timestamp: None,
            last_sync_timestamp: Some(drive_time),
            is_modified: false,
            loaded_bytes: r.total_size,
            total_size: r.total_size,
            ..s
        }),
{
    let size = content.as_str().len() as u64;
    Sheet {
        content,
        temp_content: None,
        temp_timestamp: None,
        last_sync_timestamp: Some(drive_time),
        is_modified: false,
        loaded_bytes: size,
        total_size: size,
        ..s
    }
}

/// The sheet that replaces the last one when it is closed: empty, untitled,
/// in the given category, with a BOM on save, created at `now`, whose id is
/// `id` (the time, spelled in decimal).
pub fn new_untitled_sheet(id: String, category: String, tab_color: String, now: u64) -> (r: Sheet)
    ensures
        r.id == id,
        r.guid is None,
        r.category == category,
        r.title@ == untitled_title(),
        r.content@.len() == 0,
        !r.is_modified,
        r.drive_id is None,
        r.temp_content is None,
        r.temp_timestamp is None,
        r.last_sync_timestamp is None,
        r.tab_color == tab_color,
        r.total_size == 0,
        r.loaded_bytes == 0,
        r.needs_bom,
        !r.is_preview,
        !r.is_split,
        r.editor_state is None,
        r.created_at == Some(now),
        r.local_path is None,
{
    Sheet {
        id,
        guid: None,
        category,
        title: "Untitled.txt".to_owned(),
        content: String::new(),
        is_modified: false,
        drive_id: None,
        temp_content: None,
        temp_timestamp: None,
        last_sync_timestamp: None,
        tab_color,
        total_size: 0,
        loaded_bytes: 0,
        needs_bom: true,
        is_preview: false,
        is_split: false,
        editor_state: None,
        created_at: Some(now),
        local_path: None,
    }
}


/// The title after a change of extension: everything before the last dot
/// (the whole title when it has none), a dot, and the new extension.
pub open spec fn retitled(title: Seq<char>, ext: Seq<char>) -> Seq<char> {
    let base = match before_last(title, '.') {
        Some(b) => b,
        None => title,
    };
    base + "."@ + ext
}

/// Builds the title with the new extension.
pub fn rename_with_extension(title: &str, ext: &str) -> (r: String)
    ensures
        r@ == retitled(title@, ext@),
{
    proof { lemma_last_index_of(title@, '.'); }
    let mut r = match find_last(title, '.') {
        Some(k) => title.substring_char(0, k).to_owned(),
        None => title.to_owned(),
    };
    r.append(".");
    r.append(ext);
    r
}

/// The new title when the active sheet's extension changes: only a sheet
/// on Drive is renamed, and only when the title really changes.
pub fn extension_change(s: &Sheet, ext: &str) -> (r: Option<String>)
    ensures
        match r {
            Some(t) => s.drive_id is Some && t@ == retitled(s.title@, ext@) && t@ != s.title@,
            None => s.drive_id is None || retitled(s.title@, ext@) == s.title@,
        },
{
    if s.drive_id.is_none() {
        return None;
    }
    let t = rename_with_extension(s.title.as_str(), ext);
    if same_text(t.as_str(), s.title.as_str()) { None } else { Some(t) }
}

/// What moving the active sheet to another category comes to.
pub enum CategoryChange {
    /// It is already there.
    Unchanged,
    /// A local or uncategorized sheet goes to Drive: it gets an id, a title
    /// made of the id and its save extension, a BOM, and is saved.
    ToDrive,
    /// It becomes a local file and is saved.
    ToLocal,
    /// Its Drive file moves from one folder to the other.
    MoveOnDrive { file_id: String, from: String, to: String },
    /// Only its category changes.
    Relabel,
}

/// The category a sheet counts as being in: the catch-all's folder when it
/// is labelled `OTHERS` and that folder is known.
pub open spec fn effective_category(category: Seq<char>, others_folder: Option<Seq<char>>) -> Seq<char> {
    if category == "OTHERS"@ && others_folder is Some { others_folder->0 } else { category }
}

/// Plans the move of sheet `s` to the category `new_cat`.
pub fn plan_category_change(s: &Sheet, new_cat: &str, others_folder: Option<&str>) -> (r: CategoryChange)
    ensures
        ({
            let old = effective_category(s.category@, match others_folder {
                Some(f) => Some(f@),
                None => None,
            });
            if old == new_cat@ {
                r is Unchanged
            } else if (old == local_category() || old.len() == 0) && new_cat@.len() > 0 && new_cat@ != local_category() {
                r is ToDrive
            } else if new_cat@ == local_category() {
                r is ToLocal
            } else if s.drive_id is Some {
                r matches CategoryChange::MoveOnDrive { file_id, from, to }
                    && Some(file_id) == s.drive_id && from@ == old && to@ == new_cat@
            } else {
                r is Relabel
            }
        }),
{
    let old: String = match others_folder {
        Some(f) => if same_text(s.category.as_str(), "OTHERS") { f.to_owned() } else { s.category.clone() },
        None => s.category.clone(),
    };
    if same_text(old.as_str(), new_cat) {
        return CategoryChange::Unchanged;
    }
    let old_local = same_text(old.as_str(), "__LOCAL__");
    let new_local = same_text(new_cat, "__LOCAL__");
    if (old_local || old.as_str().unicode_len() == 0) && new_cat.unicode_len() > 0 && !new_local {
        return CategoryChange::ToDrive;
    }
    if new_local {
        return CategoryChange::ToLocal;
    }
    match &s.drive_id {
        Some(fid) => CategoryChange::MoveOnDrive { file_id: fid.clone(), from: old, to: new_cat.to_owned() },
        None => CategoryChange::Relabel,
    }
}

/// A sheet moved from local files to a Drive category: it gets the id
/// `guid`, a title made of the id and its save extension, a BOM on save,
/// and the new category.
pub fn move_to_drive(s: Sheet, guid: String, new_cat: String) -> (r: Sheet)
    ensures
        r.title@ == guid@ + "."@ + save_extension(s.title@),
        r == (Sheet { guid: Some(guid), title: r.title, needs_bom: true, category: new_cat, ..s }),
{
    let ext = save_extension_of(s.title.as_str());
    let mut title = guid.clone();
    title.append(".");
    title.append(ext.as_str());
    Sheet { guid: Some(guid), title, needs_bom: true, category: new_cat, ..s }
}


/// How the user settled a name clash on Drive: take the existing file
/// (choice 0), save under a fresh id (choice 1), or give a name (choice 2);
/// a blank name falls back to a fresh id.
pub open spec fn settled_name_clash(s: Sheet, choice: usize, name: String, existing_file: String, fresh_id: String) -> Sheet {
    if choice == 0 {
        Sheet { drive_id: Some(existing_file), ..s }
    } else if choice == 1 {
        Sheet { guid: Some(fresh_id), ..s }
    } else if choice == 2 {
        if !is_blank(name@) {
            Sheet { title: name, guid: None, ..s }
        } else {
            Sheet { guid: Some(fresh_id), ..s }
        }
    } else {
        s
    }
}

/// Applies the user's answer to a name clash on Drive.
pub fn settle_name_clash(s: Sheet, choice: usize, name: String, existing_file: String, fresh_id: String) -> (r: Sheet)
    ensures
        r == settled_name_clash(s, choice, name, existing_file, fresh_id),
{
    if choice == 0 {
        Sheet { drive_id: Some(existing_file), ..s }
    } else if choice == 1 {
        Sheet { guid: Some(fresh_id), ..s }
    } else if choice == 2 {
        if !is_blank_text(name.as_str()) {
            Sheet { title: name, guid: None, ..s }
        } else {
            Sheet { guid: Some(fresh_id), ..s }
        }
    } else {
        s
    }
}

/// The sync time kept after an upload: the time Drive's upload answer
/// gave, replaced by the time a fresh look at the file gives when that is
/// not earlier; the old sync time when neither is known.
pub open spec fn sync_time_after_upload(previous: Option<u64>, answered: Option<u64>, looked_up: Option<u64>) -> Option<u64> {
    let t = match answered {
        Some(a) => Some(a),
        None => previous,
    };
    match looked_up {
        Some(g) => if g >= (match t { Some(x) => x, None => 0 }) { Some(g) } else { t },
        None => t,
    }
}

/// Picks the sync time kept after an upload.
pub fn choose_sync_time(previous: Option<u64>, answered: Option<u64>, looked_up: Option<u64>) -> (r: Option<u64>)
    ensures
        r == sync_time_after_upload(previous, answered, looked_up),
{
    let t = match answered {
        Some(a) => Some(a),
        None => previous,
    };
    match looked_up {
        Some(g) => {
            let base = match t { Some(x) => x, None => 0 };
            if g >= base { Some(g) } else { t }
        },
        None => t,
    }
}

/// Records a finished upload of `uploaded` (the sheet as it was sent) on
/// the sheet as it is now: its Drive file, its size (the sent text's UTF-8
/// length), no local copy, the new sync time; it stays modified only if
/// its text changed meanwhile.
pub fn record_upload(now: Sheet, uploaded: &Sheet, drive_id: Option<String>, sync_time: Option<u64>) -> (r: Sheet)
    requires
        encode_utf8(uploaded.content@).len() <= usize::MAX,
    ensures
        r.total_size as int == encode_utf8(uploaded.content@).len(),
        r == (Sheet {
            drive_id: drive_id,
            total_size: r.total_size,
            loaded_bytes: r.total_size,
            is_modified: if now.content@ == uploaded.content@ { false } else { now.is_modified },
            temp_content: None,
            temp_timestamp: None,
            last_sync_timestamp: sync_time,
            ..now
        }),
{
    let size = uploaded.content.as_str().len() as u64;
    let unchanged = same_text(now.content.as_str(), uploaded.content.as_str());
    let is_modified = if unchanged { false } else { now.is_modified };
    Sheet {
        drive_id,
        total_size: size,
        loaded_bytes: size,
        is_modified,
        temp_content: None,
        temp_timestamp: None,
        last_sync_timestamp: sync_time,
        ..now
    }
}

/// Before an upload, a sheet synced before is in conflict when Drive's copy
/// changed more than a second after that sync.
pub open spec fn upload_conflict(s: Sheet, drive_time: u64) -> bool {
    match s.last_sync_timestamp {
        Some(t) => drive_time > t + 1000,
        None => false,
    }
}

/// Checks for a conflict before an upload.
pub fn conflicts_before_upload(s: &Sheet, drive_time: u64) -> (r: bool)
    ensures
        r == upload_conflict(*s, drive_time),
{
    match s.last_sync_timestamp {
        Some(t) => (drive_time as u128) > (t as u128) + 1000,
        None => false,
    }
}

/// A sheet whose Drive file was deleted from the dialog: it keeps its text
/// under a fresh id, titled with that id and its save extension, and is
/// marked modified.
pub fn detach_from_drive(s: Sheet, fresh_id: String) -> (r: Sheet)
    ensures
        r.title@ == fresh_id@ + "."@ + save_extension(s.title@),
        r == (Sheet { drive_id: None, guid: Some(fresh_id), title: r.title, is_modified: true, ..s }),
{
    let ext = save_extension_of(s.title.as_str());
    let mut title = fresh_id.clone();
    title.append(".");
    title.append(ext.as_str());
    Sheet { drive_id: None, guid: Some(fresh_id), title, is_modified: true, ..s }
}

/// Every occurrence of `pat` in `s` removed, scanning from the left
/// (`s.replace(pat, "")`).
pub open spec fn remove_all(s: Seq<char>, pat: Seq<char>) -> Seq<char>
    decreases s.len(),
{
    if pat.len() == 0 || s.len() < pat.len() {
        s
    } else if s.take(pat.len() as int) == pat {
        remove_all(s.skip(pat.len() as int), pat)
    } else {
        seq![s[0]] + remove_all(s.drop_first(), pat)
    }
}

/// The id a sheet opened from Drive keeps: its title without `.txt` when
/// it ends so (every `.txt` in it removed, as `replace` does), else the
/// title.
pub open spec fn id_from_title(title: Seq<char>) -> Seq<char> {
    if ".txt"@.is_suffix_of(title) { remove_all(title, ".txt"@) } else { title }
}

fn remove_all_from(s: &str, pat: &str) -> (r: String)
    requires
        pat@.len() > 0,
    ensures
        r@ == remove_all(s@, pat@),
{
    let n = s.unicode_len();
    let m = pat.unicode_len();
    let mut out = String::new();
    let mut i: usize = 0;
    assert(s@.skip(0) =~= s@);
    while i < n
        invariant
            n == s@.len(),
            m == pat@.len(),
            m > 0,
            i <= n,
            out@ + remove_all(s@.skip(i as int), pat@) == remove_all(s@, pat@),
        decreases n - i,
    {
        let ghost rest = s@.skip(i as int);
        if n - i >= m && same_text(s.substring_char(i, i + m), pat) {
            assert(rest.take(m as int) =~= s@.subrange(i as int, i + m));
            assert(rest.skip(m as int) =~= s@.skip(i + m));
            i = i + m;
        } else {
            if n - i >= m {
                assert(rest.take(m as int) =~= s@.subrange(i as int, i + m));
            }
            let c = s.get_char(i);
            let ghost before = out@;
            crate::text::push_char(&mut out, c);
            assert(rest.drop_first() =~= s@.skip(i + 1));
            assert(rest[0] == c);
            assert(out@ + remove_all(s@.skip(i + 1), pat@) =~= before + (seq![c] + remove_all(rest.drop_first(), pat@)));
            i = i + 1;
        }
    }
    assert(s@.skip(n as int) =~= Seq::<char>::empty());
    assert(out@ + remove_all(s@.skip(n as int), pat@) =~= out@);
    out
}

/// Computes the id a sheet opened from Drive keeps.
pub fn id_from_drive_title(title: &str) -> (r: String)
    ensures
        r@ == id_from_title(title@),
{
    let n = title.unicode_len();
    let ends = n >= 4 && same_text(title.substring_char(n - 4, n), ".txt");
    proof {
        reveal_strlit(".txt");
        if n >= 4 {
            assert(".txt"@.is_suffix_of(title@) == (title@.subrange(n - 4, n as int) == ".txt"@));
        }
    }
    if ends {
        remove_all_from(title, ".txt")
    } else {
        title.to_owned()
    }
}


/// Once Drive's copy is taken, checking again against the same Drive time
/// finds nothing to do.
pub proof fn lemma_synced_after_taking_drive_copy(s: Sheet, content: String, drive_time: u64, size: u64)
    ensures
        sync_action(Sheet {
            content: content,
            temp_content: None,
            temp_timestamp: None,
            last_sync_timestamp: Some(drive_time),
            is_modified: false,
            loaded_bytes: size,
            total_size: size,
            ..s
        }, drive_time) == SyncAction::Nothing,
{
}

/// A sheet that got its id keeps it: giving it an id again changes
/// nothing.
pub proof fn lemma_guid_assigned_once(s: Sheet, guid: String, title: String)
    ensures
        !needs_guid(Sheet { guid: Some(guid), title: title, ..s }),
{
}

} // verus!
