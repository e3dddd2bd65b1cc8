//! Sheets as the local database keeps them, and how the open sheets and
//! the active tab come back at start-up.

use vstd::prelude::*;
use crate::sheet::{Sheet, local_category};
use crate::text::same_text;
use crate::tabs::{index_in, lemma_index_in, sheet_ids, find_sheet_index};

verus! {

/// A sheet as the local database stores it: the sheet without what lives
/// only in memory (split view, editor state, local path).
pub struct JSSheet {
    pub id: String,
    pub guid: Option<String>,
    pub category: String,
    pub title: String,
    pub content: String,
    pub is_modified: bool,
    pub drive_id: Option<String>,
    pub temp_content: Option<String>,
    pub temp_timestamp: Option<u64>,
    pub last_sync_timestamp: Option<u64>,
    pub tab_color: String,
    pub total_size: u64,
    pub loaded_bytes: u64,
    pub needs_bom: bool,
    pub is_preview: bool,
    pub created_at: Option<u64>,
}

fn copy_text(t: &Option<String>) -> (r: Option<String>)
    ensures
        r == *t,
{
    match t {
        Some(s) => Some(s.clone()),
        None => None,
    }
}

impl Sheet {
    /// The stored form of the sheet.
    pub fn to_js(&self) -> (r: JSSheet)
        ensures
            r == stored(*self),
    {
        JSSheet {
            id: self.id.clone(),
            guid: copy_text(&self.guid),
            category: self.category.clone(),
            title: self.title.clone(),
            content: self.content.clone(),
            is_modified: self.is_modified,
            drive_id: copy_text(&self.drive_id),
            temp_content: copy_text(&self.temp_content),
            temp_timestamp: self.temp_timestamp,
            last_sync_timestamp: self.last_sync_timestamp,
            tab_color: self.tab_color.clone(),
            total_size: self.total_size,
            loaded_bytes: self.loaded_bytes,
            needs_bom: self.needs_bom,
            is_preview: self.is_preview,
            created_at: self.created_at,
        }
    }
}

/// The stored form of a sheet (what `Sheet::to_js` builds).
pub open spec fn stored(s: Sheet) -> JSSheet {
    JSSheet {
        id: s.id,
        guid: s.guid,
        category: s.category,
        title: s.title,
        content: s.content,
        is_modified: s.is_modified,
        drive_id: s.drive_id,
        temp_content: s.temp_content,
        temp_timestamp: s.temp_timestamp,
        last_sync_timestamp: s.last_sync_timestamp,
        tab_color: s.tab_color,
        total_size: s.total_size,
        loaded_bytes: s.loaded_bytes,
        needs_bom: s.needs_bom,
        is_preview: s.is_preview,
        created_at: s.created_at,
    }
}

/// `r` is the stored sheet `s` brought back at start-up: its latest local
/// copy becomes its text, and it is modified exactly when that copy has a
/// time; in guest mode it is a local file with no Drive copy; an empty tab
/// colour is replaced by `fresh_color`; the split view, editor state and
/// local path start empty.
pub open spec fn restored_from(r: Sheet, s: JSSheet, guest: bool, fresh_color: String) -> bool {
    &&& r.id == s.id
    &&& r.guid == s.guid
    &&& (if guest { r.category@ == local_category() } else { r.category == s.category })
    &&& r.title == s.title
    &&& r.content == (match s.temp_content {
        Some(t) => t,
        None => s.content,
    })
    &&& r.is_modified == (s.temp_timestamp is Some)
    &&& r.drive_id == (if guest { None } else { s.drive_id })
    &&& r.temp_content == s.temp_content
    &&& r.temp_timestamp == s.temp_timestamp
    &&& r.last_sync_timestamp == s.last_sync_timestamp
    &&& r.tab_color == (if s.tab_color@.len() == 0 { fresh_color } else { s.tab_color })
    &&& r.total_size == s.total_size
    &&& r.loaded_bytes == s.loaded_bytes
    &&& r.needs_bom == s.needs_bom
    &&& r.is_preview == s.is_preview
    &&& !r.is_split
    &&& r.editor_state is None
    &&& r.created_at == s.created_at
    &&& r.local_path is None
}

/// Brings a stored sheet back at start-up (see `restored_from`). The
/// colour for a sheet stored without one is chosen by the caller.
pub fn restore_sheet(s: JSSheet, guest: bool, fresh_color: String) -> (r: Sheet)
    ensures
        restored_from(r, s, guest, fresh_color),
{
    let content = match &s.temp_content {
        Some(t) => t.clone(),
        None => s.content,
    };
    let category = if guest { "__LOCAL__".to_owned() } else { s.category };
    let drive_id = if guest { None } else { s.drive_id };
    let tab_color = if s.tab_color.unicode_len() == 0 { fresh_color } else { s.tab_color };
    proof { reveal_strlit("__LOCAL__"); }
    Sheet {
        id: s.id,
        guid: s.guid,
        category,
        title: s.title,
        content,
        is_modified: s.temp_timestamp.is_some(),
        drive_id,
        temp_content: s.temp_content,
        temp_timestamp: s.temp_timestamp,
        last_sync_timestamp: s.last_sync_timestamp,
        tab_color,
        total_size: s.total_size,
        loaded_bytes: s.loaded_bytes,
        needs_bom: s.needs_bom,
        is_preview: s.is_preview,
        is_split: false,
        editor_state: None,
        created_at: s.created_at,
        local_path: None,
    }
}

/// Storing a signed-in sheet and bringing it back gives the same sheet,
/// but for what lives only in memory (split view, editor state, local
/// path), when the sheet has a tab colour, its text is its latest local
/// copy (if it has one), and it is modified exactly when that copy has a
/// time.
pub proof fn lemma_restore_after_store(s: Sheet, r: Sheet, fresh_color: String)
    requires
        restored_from(r, stored(s), false, fresh_color),
        s.tab_color@.len() > 0,
        s.temp_content is None || s.temp_content == Some(s.content),
        s.is_modified == (s.temp_timestamp is Some),
    ensures
        r == (Sheet { is_split: false, editor_state: None, local_path: None, ..s }),
{
}

/// The tab that is active after the stored sheets `v` come back: the saved
/// one while it is among them, else the last of them.
pub open spec fn restored_active(v: Seq<Sheet>, saved: Option<Seq<char>>) -> Option<Seq<char>> {
    match saved {
        Some(id) if index_in(sheet_ids(v), id) is Some => Some(id),
        _ => if v.len() == 0 { None } else { Some(v.last().id@) },
    }
}

/// Chooses the active tab after start-up (see `restored_active`).
pub fn restored_active_tab(v: &Vec<Sheet>, saved: Option<String>) -> (r: Option<String>)
    ensures
        match r {
            Some(t) => restored_active(v@, match saved { Some(x) => Some(x@), None => None }) == Some(t@),
            None => restored_active(v@, match saved { Some(x) => Some(x@), None => None }) is None,
        },
{
    if let Some(id) = saved {
        if let Some(k) = find_sheet_index(v, id.as_str()) {
            proof {
                lemma_index_in(sheet_ids(v@), id@);
                assert(sheet_ids(v@)[k as int] == v@[k as int].id@);
            }
            return Some(v[k].id.clone());
        }
    }
    if v.len() == 0 {
        None
    } else {
        Some(v[v.len() - 1].id.clone())
    }
}

/// Whether the app starts in guest mode: the stored flag says `true`, or
/// the web page opened at `/` with nobody signed in (never in the desktop
/// app).
pub open spec fn guest_start(stored_flag: Option<Seq<char>>, path: Seq<char>, signed_in: bool, desktop: bool) -> bool {
    stored_flag == Some("true"@) || (path == "/"@ && !signed_in && !desktop)
}

/// Decides whether the app starts in guest mode (see `guest_start`).
pub fn starts_as_guest(stored_flag: Option<&str>, path: &str, signed_in: bool, desktop: bool) -> (r: bool)
    ensures
        r == guest_start(match stored_flag { Some(t) => Some(t@), None => None }, path@, signed_in, desktop),
{
    let flag = match stored_flag {
        Some(t) => same_text(t, "true"),
        None => false,
    };
    flag || (same_text(path, "/") && !signed_in && !desktop)
}

} // verus!
