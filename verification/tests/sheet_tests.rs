use leaf::sheet::{
    apply_drive_content, assign_guid, choose_sync_time, conflicts_before_upload, decide_sync, detach_from_drive,
    extension_change, footer_file, gutter_status_on_load, FooterName, gutter_status_on_switch, has_drive_copy, id_from_drive_title,
    apply_edit, is_local_sheet, leave_sheet, move_to_drive, needs_save_before_leaving, new_untitled_sheet, plan_category_change, plan_save,
    record_local_file_save, record_store, record_upload, rename_with_extension, save_extension_of, settle_name_clash,
    supported_extension, tab_title_of, target_folder, CategoryChange, EmptySaveBehavior, GutterStatus, SavePlan, Sheet,
    SyncAction,
};

fn sheet(id: &str, category: &str, title: &str, content: &str) -> Sheet {
    Sheet {
        id: id.to_string(),
        guid: None,
        category: category.to_string(),
        title: title.to_string(),
        content: content.to_string(),
        is_modified: false,
        drive_id: None,
        temp_content: None,
        temp_timestamp: None,
        last_sync_timestamp: None,
        tab_color: "hsl(1, 50%, 50%)".to_string(),
        total_size: 0,
        loaded_bytes: 0,
        needs_bom: false,
        is_preview: false,
        is_split: false,
        editor_state: None,
        created_at: None,
        local_path: None,
    }
}

#[test]
fn gutter_status_after_tab_switch() {
    assert_eq!(gutter_status_on_switch(&sheet("1", "__LOCAL__", "a.txt", "")), GutterStatus::Local);
    assert_eq!(gutter_status_on_switch(&sheet("1", "cat", "a.txt", "")), GutterStatus::Unsaved);
    let mut s = sheet("1", "cat", "a.txt", "");
    s.drive_id = Some("d".to_string());
    assert_eq!(gutter_status_on_switch(&s), GutterStatus::Clean);
    s.is_modified = true;
    assert_eq!(gutter_status_on_switch(&s), GutterStatus::Unsaved);
    assert_eq!(GutterStatus::Clean.name(), "none");
    assert_eq!(GutterStatus::Unsaved.name(), "unsaved");
    assert_eq!(GutterStatus::Local.name(), "local");
}

#[test]
fn gutter_status_on_loading() {
    assert_eq!(gutter_status_on_load(&sheet("1", "__LOCAL__", "x", "")), GutterStatus::Local);
    assert_eq!(gutter_status_on_load(&sheet("1", "", "Untitled.txt", "")), GutterStatus::Unsaved);
    assert_eq!(gutter_status_on_load(&sheet("1", "", "Untitled.txt copy", "")), GutterStatus::Unsaved);
    assert_eq!(gutter_status_on_load(&sheet("1", "", "notes.md", "")), GutterStatus::Local);
    assert_eq!(gutter_status_on_load(&sheet("1", "c", "notes.md", "")), GutterStatus::Unsaved);
    let mut s = sheet("1", "c", "notes.md", "");
    s.guid = Some("g".to_string());
    assert_eq!(gutter_status_on_load(&s), GutterStatus::Clean);
}

#[test]
fn tab_titles() {
    let local = sheet("1", "__LOCAL__", "todo.txt", "first");
    assert_eq!(tab_title_of(&local, "\n  hello  \nworld"), "todo.txt");
    let unsaved = sheet("2", "c", "x.txt", "");
    assert_eq!(tab_title_of(&unsaved, "hello"), "---");
    let mut saved = sheet("3", "c", "x.txt", "");
    saved.drive_id = Some("d".to_string());
    assert_eq!(tab_title_of(&saved, "\n  hello  \nworld"), "hello");
    assert_eq!(tab_title_of(&saved, "  \n \t"), "---");
}

#[test]
fn save_needed_before_leaving() {
    let mut s = sheet("1", "c", "a", "text");
    assert!(!needs_save_before_leaving(&s, "text"));
    assert!(needs_save_before_leaving(&s, "text2"));
    assert!(!needs_save_before_leaving(&s, "   "));
    s.is_modified = true;
    assert!(needs_save_before_leaving(&s, "text"));
}

#[test]
fn save_plans() {
    let mut s = sheet("1", "c", "a", "stored");
    assert!(matches!(plan_save(&s, "new", false, EmptySaveBehavior::Confirm), SavePlan::Store(ref t) if t == "new"));
    assert!(matches!(plan_save(&s, "stored", false, EmptySaveBehavior::Confirm), SavePlan::Unchanged));
    assert!(matches!(plan_save(&s, "stored", true, EmptySaveBehavior::Confirm), SavePlan::Store(ref t) if t == "stored"));
    assert!(matches!(plan_save(&s, "  ", false, EmptySaveBehavior::Confirm), SavePlan::Unchanged));
    s.drive_id = Some("d".to_string());
    s.content = String::new();
    assert!(matches!(plan_save(&s, " ", true, EmptySaveBehavior::Confirm), SavePlan::ConfirmEmpty));
    assert!(matches!(plan_save(&s, " ", true, EmptySaveBehavior::Delete), SavePlan::DeleteEmpty));
    assert!(matches!(plan_save(&s, " ", true, EmptySaveBehavior::Nothing), SavePlan::Skip));
}

#[test]
fn extensions_for_saving() {
    assert!(supported_extension("rs"));
    assert!(supported_extension("yaml"));
    assert!(!supported_extension("yml"));
    assert_eq!(save_extension_of("Notes.MD"), "md");
    assert_eq!(save_extension_of("photo.png"), "txt");
    assert_eq!(save_extension_of("Makefile"), "txt");
    assert_eq!(save_extension_of("a.b.PY"), "py");
}

#[test]
fn guid_assigned_before_first_drive_save() {
    let s = sheet("1", "cat", "Draft.MD", "x");
    let r = assign_guid(s, "g-1".to_string());
    assert_eq!(r.guid.as_deref(), Some("g-1"));
    assert_eq!(r.title, "g-1.md");
    let local = sheet("1", "__LOCAL__", "Draft.MD", "x");
    let r = assign_guid(local, "g-2".to_string());
    assert_eq!(r.guid, None);
    assert_eq!(r.title, "Draft.MD");
    let nocat = sheet("1", "", "Draft.MD", "x");
    assert_eq!(assign_guid(nocat, "g".to_string()).title, "Draft.MD");
}

#[test]
fn store_and_local_save_records() {
    let s = record_store(sheet("1", "c", "a", "old"), "new".to_string(), 99);
    assert_eq!(s.content, "new");
    assert_eq!(s.temp_content.as_deref(), Some("new"));
    assert_eq!(s.temp_timestamp, Some(99));
    assert!(!s.is_modified);
    let mut base = sheet("1", "c", "a", "old");
    base.local_path = Some("/old".to_string());
    let r = record_local_file_save(base, "b.txt".to_string(), None, "héllo".to_string());
    assert_eq!(r.category, "__LOCAL__");
    assert_eq!(r.title, "b.txt");
    assert_eq!(r.local_path.as_deref(), Some("/old"));
    assert_eq!(r.total_size, 6);
    assert_eq!(r.loaded_bytes, 6);
    assert!(is_local_sheet(&r));
}

#[test]
fn target_folders() {
    assert_eq!(target_folder("", "others-id"), "others-id");
    assert_eq!(target_folder("OTHERS", "others-id"), "others-id");
    assert_eq!(target_folder("cat-7", "others-id"), "cat-7");
}

#[test]
fn sync_decisions() {
    let mut s = sheet("1", "c", "a", "x");
    s.drive_id = Some("d".to_string());
    s.last_sync_timestamp = Some(10_000);
    assert_eq!(decide_sync(&s, 11_001), SyncAction::LoadFromDrive);
    assert_eq!(decide_sync(&s, 11_000), SyncAction::Nothing);
    s.temp_timestamp = Some(20_000);
    assert_eq!(decide_sync(&s, 11_000), SyncAction::Upload);
    s.temp_timestamp = None;
    s.is_modified = true;
    assert_eq!(decide_sync(&s, 10_500), SyncAction::Upload);
    assert!(has_drive_copy(&s));
    s.last_sync_timestamp = None;
    s.is_modified = false;
    assert_eq!(decide_sync(&s, 0), SyncAction::Nothing);
    assert_eq!(decide_sync(&s, 1_001), SyncAction::LoadFromDrive);
}

#[test]
fn drive_content_taken() {
    let mut s = sheet("1", "c", "a", "mine");
    s.temp_content = Some("mine".to_string());
    s.temp_timestamp = Some(5);
    s.is_modified = true;
    let r = apply_drive_content(s, "あいう".to_string(), 777);
    assert_eq!(r.content, "あいう");
    assert_eq!(r.total_size, 9);
    assert_eq!(r.loaded_bytes, 9);
    assert_eq!(r.last_sync_timestamp, Some(777));
    assert_eq!(r.temp_content, None);
    assert!(!r.is_modified);
}

#[test]
fn fresh_sheet() {
    let s = new_untitled_sheet("1700000000000".to_string(), "cat".to_string(), "hsl(1, 2%, 3%)".to_string(), 1_700_000_000_000);
    assert_eq!(s.title, "Untitled.txt");
    assert!(s.needs_bom);
    assert_eq!(s.content, "");
    assert_eq!(s.created_at, Some(1_700_000_000_000));
    assert_eq!(s.category, "cat");
}

#[test]
fn renaming_extension() {
    assert_eq!(rename_with_extension("a.b.txt", "md"), "a.b.md");
    assert_eq!(rename_with_extension("plain", "rs"), "plain.rs");
    assert_eq!(rename_with_extension("dot.", "js"), "dot.js");
    let mut s = sheet("1", "c", "note.txt", "");
    assert_eq!(extension_change(&s, "md"), None);
    s.drive_id = Some("d".to_string());
    assert_eq!(extension_change(&s, "md").as_deref(), Some("note.md"));
    assert_eq!(extension_change(&s, "txt"), None);
}

#[test]
fn category_change_plans() {
    let local = sheet("1", "__LOCAL__", "a.txt", "");
    assert!(matches!(plan_category_change(&local, "cat", Some("oth")), CategoryChange::ToDrive));
    assert!(matches!(plan_category_change(&local, "__LOCAL__", None), CategoryChange::Unchanged));
    let others = sheet("1", "OTHERS", "a.txt", "");
    assert!(matches!(plan_category_change(&others, "oth", Some("oth")), CategoryChange::Unchanged));
    let mut on_drive = sheet("1", "c1", "a.txt", "");
    on_drive.drive_id = Some("file".to_string());
    match plan_category_change(&on_drive, "c2", None) {
        CategoryChange::MoveOnDrive { file_id, from, to } => {
            assert_eq!((file_id.as_str(), from.as_str(), to.as_str()), ("file", "c1", "c2"));
        }
        _ => panic!("expected a move"),
    }
    assert!(matches!(plan_category_change(&on_drive, "__LOCAL__", None), CategoryChange::ToLocal));
    let plain = sheet("1", "c1", "a.txt", "");
    assert!(matches!(plan_category_change(&plain, "c2", None), CategoryChange::Relabel));
    let moved = move_to_drive(local, "g".to_string(), "cat".to_string());
    assert_eq!((moved.title.as_str(), moved.category.as_str(), moved.needs_bom), ("g.txt", "cat", true));
}

#[test]
fn name_clash_answers() {
    let s = sheet("1", "c", "a.txt", "");
    let r = settle_name_clash(s, 0, String::new(), "existing".to_string(), "fresh".to_string());
    assert_eq!(r.drive_id.as_deref(), Some("existing"));
    let s = sheet("1", "c", "a.txt", "");
    let r = settle_name_clash(s, 1, String::new(), "existing".to_string(), "fresh".to_string());
    assert_eq!(r.guid.as_deref(), Some("fresh"));
    let mut s = sheet("1", "c", "a.txt", "");
    s.guid = Some("old".to_string());
    let r = settle_name_clash(s, 2, "b.txt".to_string(), "existing".to_string(), "fresh".to_string());
    assert_eq!((r.title.as_str(), r.guid.clone()), ("b.txt", None));
    let s = sheet("1", "c", "a.txt", "");
    let r = settle_name_clash(s, 2, "  ".to_string(), "existing".to_string(), "fresh".to_string());
    assert_eq!((r.title.as_str(), r.guid.as_deref()), ("a.txt", Some("fresh")));
}

#[test]
fn upload_bookkeeping() {
    assert_eq!(choose_sync_time(Some(1), Some(5), Some(7)), Some(7));
    assert_eq!(choose_sync_time(Some(1), Some(5), Some(3)), Some(5));
    assert_eq!(choose_sync_time(Some(1), None, None), Some(1));
    assert_eq!(choose_sync_time(None, None, Some(0)), Some(0));
    let sent = sheet("1", "c", "a", "abc");
    let mut now = sheet("1", "c", "a", "abc");
    now.is_modified = true;
    now.temp_content = Some("abc".to_string());
    let r = record_upload(now, &sent, Some("d".to_string()), Some(9));
    assert!(!r.is_modified);
    assert_eq!((r.total_size, r.last_sync_timestamp, r.temp_content.clone()), (3, Some(9), None));
    let mut edited = sheet("1", "c", "a", "abcd");
    edited.is_modified = true;
    assert!(record_upload(edited, &sent, None, None).is_modified);
    let mut synced = sheet("1", "c", "a", "");
    assert!(!conflicts_before_upload(&synced, 5000));
    synced.last_sync_timestamp = Some(1000);
    assert!(!conflicts_before_upload(&synced, 2000));
    assert!(conflicts_before_upload(&synced, 2001));
}

#[test]
fn drive_file_deleted() {
    let mut s = sheet("1", "c", "Old.RS", "x");
    s.drive_id = Some("d".to_string());
    let r = detach_from_drive(s, "fresh".to_string());
    assert_eq!((r.drive_id.clone(), r.title.as_str(), r.is_modified), (None, "fresh.rs", true));
}

#[test]
fn ids_from_drive_titles() {
    assert_eq!(id_from_drive_title("abc.txt"), "abc");
    assert_eq!(id_from_drive_title("a.txt.b.txt"), "a.b");
    assert_eq!(id_from_drive_title("notes.md"), "notes.md");
    for t in ["x.txt", ".txt", "a.txtb.txt", "txt"] {
        let expected = if t.ends_with(".txt") { t.replace(".txt", "") } else { t.to_string() };
        assert_eq!(id_from_drive_title(t), expected);
    }
}

#[test]
fn nothing_to_sync_after_taking_drive_copy() {
    let mut s = sheet("1", "c", "a", "mine");
    s.drive_id = Some("d".to_string());
    s.is_modified = true;
    s.temp_timestamp = Some(99_999);
    let r = apply_drive_content(s, "theirs".to_string(), 50_000);
    assert_eq!(decide_sync(&r, 50_000), SyncAction::Nothing);
}

#[test]
fn guid_given_only_once() {
    let s = sheet("1", "cat", "a.txt", "x");
    let once = assign_guid(s, "g1".to_string());
    let title = once.title.clone();
    let twice = assign_guid(once, "g2".to_string());
    assert_eq!(twice.guid.as_deref(), Some("g1"));
    assert_eq!(twice.title, title);
}

#[test]
fn leaving_a_drive_sheet_with_new_text() {
    let mut s = sheet("1", "cat", "a.txt", "old");
    s.drive_id = Some("d".to_string());
    let (r, save) = leave_sheet(s, "new".to_string(), "{}".to_string(), true, 99, false);
    assert_eq!(r.content, "new");
    assert!(r.is_modified);
    assert_eq!(r.temp_content.as_deref(), Some("new"));
    assert_eq!(r.temp_timestamp, Some(99));
    assert_eq!(r.editor_state.as_deref(), Some("{}"));
    assert!(r.is_split);
    assert!(save);
}

#[test]
fn leaving_an_unchanged_sheet_saves_nothing() {
    let s = sheet("1", "cat", "a.txt", "same");
    let (r, save) = leave_sheet(s, "same".to_string(), "st".to_string(), false, 5, true);
    assert!(!r.is_modified);
    assert_eq!(r.temp_content, None);
    assert_eq!(r.temp_timestamp, None);
    assert!(!save);
}

#[test]
fn leaving_a_new_untitled_sheet_stays_local() {
    // Never saved: the new text is taken but the sheet is not marked modified.
    let s = sheet("1", "", "Untitled.txt", "");
    let (r, save) = leave_sheet(s, "draft".to_string(), "st".to_string(), false, 5, false);
    assert_eq!(r.content, "draft");
    assert!(!r.is_modified);
    assert!(!save);
    // A modified untitled sheet without category is not sent to Drive either.
    let mut s = sheet("2", "", "Untitled.txt", "a");
    s.is_modified = true;
    let (r, save) = leave_sheet(s, "b".to_string(), "st".to_string(), false, 6, false);
    assert!(r.is_modified);
    assert!(!save);
    // A modified local file is saved only with local auto-save on.
    let mut s = sheet("3", "__LOCAL__", "x.txt", "a");
    s.is_modified = true;
    assert!(!leave_sheet(s, "b".to_string(), "st".to_string(), false, 6, false).1);
    let mut s = sheet("3", "__LOCAL__", "x.txt", "a");
    s.is_modified = true;
    assert!(leave_sheet(s, "b".to_string(), "st".to_string(), false, 6, true).1);
}

#[test]
fn edits_of_the_active_sheet() {
    // Right after loading, an empty editor over a sheet with text is ignored.
    assert!(apply_edit(sheet("1", "cat", "a.txt", "text"), String::new(), false, 7, false).is_none());
    // Once editing started, emptying the sheet is an edit like any other.
    let e = apply_edit(sheet("1", "cat", "a.txt", "text"), String::new(), true, 7, false).unwrap();
    assert!(e.changed);
    assert_eq!(e.sheet.content, "");
    assert!(e.sheet.is_modified);
    assert_eq!(e.sheet.temp_content.as_deref(), Some(""));
    assert_eq!(e.sheet.temp_timestamp, Some(7));
    assert!(e.schedule_save);
    // The same text changes nothing and schedules nothing.
    let e = apply_edit(sheet("1", "cat", "a.txt", "text"), "text".to_string(), false, 7, false).unwrap();
    assert!(!e.changed);
    assert!(!e.sheet.is_modified);
    assert!(!e.schedule_save);
    // A fresh untitled sheet without category is stored locally but not sent to Drive.
    let e = apply_edit(sheet("2", "", "Untitled.txt", ""), "hi".to_string(), false, 8, false).unwrap();
    assert!(e.changed);
    assert!(!e.schedule_save);
}

#[test]
fn footer_file_names() {
    let (n, e) = footer_file(&sheet("1", "__LOCAL__", "Untitled.txt", ""));
    assert!(matches!(n, FooterName::NotSpecified));
    assert_eq!(e, "txt");
    let (n, e) = footer_file(&sheet("1", "cat", "Untitled 1.md", ""));
    assert!(matches!(n, FooterName::Dashes));
    assert_eq!(e, "txt");
    let (n, e) = footer_file(&sheet("1", "__LOCAL__", "Notes.MD", ""));
    assert!(matches!(n, FooterName::Title(ref t) if t == "Notes.MD"));
    assert_eq!(e, "md");
    let mut s = sheet("1", "cat", "Untitled.txt", "");
    s.drive_id = Some("d".to_string());
    let (n, e) = footer_file(&s);
    assert!(matches!(n, FooterName::Title(ref t) if t == "Untitled.txt"));
    assert_eq!(e, "txt");
    let (_, e) = footer_file(&sheet("1", "__LOCAL__", "data.bin", ""));
    assert_eq!(e, "txt");
}
