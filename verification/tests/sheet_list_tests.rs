use leaf::file_dialog::Category;
use leaf::sheet::Sheet;
use leaf::sheet_list::{
    after_drop, category_label, open_drive_file, category_menu_enabled, drop_gone_sheets, enqueue_conflict, find_by_drive_id, find_local_file, menu_categories,
    move_category_sheets, place_sheet, sheet_to_check, slot_for_opened, AfterDrop, CategoryLabel, ConflictData, OpenSlot,
};

fn sheet(id: &str, category: &str, title: &str, content: &str, drive: Option<&str>) -> Sheet {
    Sheet {
        id: id.to_string(),
        guid: None,
        category: category.to_string(),
        title: title.to_string(),
        content: content.to_string(),
        is_modified: false,
        drive_id: drive.map(|d| d.to_string()),
        temp_content: None,
        temp_timestamp: None,
        last_sync_timestamp: None,
        tab_color: String::new(),
        total_size: 0,
        loaded_bytes: 0,
        needs_bom: false,
        is_preview: false,
        is_split: false,
        editor_state: None,
        created_at: None,
        local_path: None,
    }
}

fn conflict(id: &str) -> ConflictData {
    ConflictData {
        sheet_id: id.to_string(),
        title: String::new(),
        drive_id: String::new(),
        local_content: String::new(),
        drive_time: 0,
        time_str: String::new(),
        is_missing_on_drive: false,
    }
}

#[test]
fn finding_open_sheets() {
    let v = vec![sheet("1", "c", "a", "", Some("d1")), sheet("2", "__LOCAL__", "notes.txt", "", None)];
    assert_eq!(find_by_drive_id(&v, "d1"), Some(0));
    assert_eq!(find_by_drive_id(&v, "d9"), None);
    assert_eq!(find_local_file(&v, "notes.txt"), Some(1));
    assert_eq!(find_local_file(&v, "a"), None);
}

#[test]
fn slots_for_opened_sheets() {
    let blank = vec![sheet("1", "", "Untitled.txt", "", None)];
    assert_eq!(slot_for_opened(&blank, Some("d")), OpenSlot::Replace(0));
    assert_eq!(slot_for_opened(&blank, None), OpenSlot::Replace(0));
    let two = vec![sheet("1", "c", "a", "x", None), sheet("2", "c", "b", "", Some("d"))];
    assert_eq!(slot_for_opened(&two, Some("d")), OpenSlot::Replace(1));
    assert_eq!(slot_for_opened(&two, Some("e")), OpenSlot::Append);
    assert_eq!(slot_for_opened(&two, None), OpenSlot::Append);
    let mut v = two;
    place_sheet(&mut v, OpenSlot::Append, sheet("3", "c", "c", "", None));
    assert_eq!(v.len(), 3);
    place_sheet(&mut v, OpenSlot::Replace(0), sheet("9", "c", "z", "", None));
    assert_eq!(v[0].id, "9");
}

#[test]
fn deleted_category_moves_sheets() {
    let mut v = vec![sheet("1", "gone", "a", "", None), sheet("2", "keep", "b", "", None), sheet("3", "gone", "c", "", None)];
    assert!(move_category_sheets(&mut v, "gone", &"others".to_string()));
    let cats: Vec<&str> = v.iter().map(|s| s.category.as_str()).collect();
    assert_eq!(cats, vec!["others", "keep", "others"]);
    assert!(!move_category_sheets(&mut v, "gone", &"others".to_string()));
}

#[test]
fn conflicts_queue_once_per_sheet() {
    let mut q = Vec::new();
    enqueue_conflict(&mut q, conflict("a"));
    enqueue_conflict(&mut q, conflict("b"));
    enqueue_conflict(&mut q, conflict("a"));
    let ids: Vec<&str> = q.iter().map(|c| c.sheet_id.as_str()).collect();
    assert_eq!(ids, vec!["a", "b"]);
}

#[test]
fn category_menu() {
    let cats = vec![
        Category { id: "1".to_string(), name: "Work".to_string() },
        Category { id: "2".to_string(), name: "OTHERS".to_string() },
        Category { id: "3".to_string(), name: "Diary".to_string() },
    ];
    let names: Vec<String> = menu_categories(cats.iter().map(|c| Category { id: c.id.clone(), name: c.name.clone() }).collect())
        .iter()
        .map(|c| c.name.clone())
        .collect();
    assert_eq!(names, vec!["OTHERS", "Work", "Diary"]);
    assert!(category_menu_enabled(2, "x"));
    assert!(category_menu_enabled(1, ""));
    assert!(category_menu_enabled(1, "__LOCAL__"));
    assert!(!category_menu_enabled(1, "x"));
    assert!(matches!(category_label("", true, &cats), CategoryLabel::NoCategory));
    assert!(matches!(category_label("", false, &cats), CategoryLabel::LocalFile));
    assert!(matches!(category_label("__LOCAL__", false, &cats), CategoryLabel::LocalFile));
    assert!(matches!(category_label("2", false, &cats), CategoryLabel::Others));
    assert!(matches!(category_label("9", false, &cats), CategoryLabel::Others));
    assert!(matches!(category_label("3", false, &cats), CategoryLabel::Named(ref n) if n == "Diary"));
}

#[test]
fn conflict_check_target() {
    let v = vec![sheet("1", "c", "a", "", Some("d1")), sheet("2", "__LOCAL__", "b", "", None)];
    assert_eq!(sheet_to_check(&v, Some("1")), Some(0));
    assert_eq!(sheet_to_check(&v, Some("2")), None);
    assert_eq!(sheet_to_check(&v, Some("9")), None);
    assert_eq!(sheet_to_check(&v, None), None);
}

fn sheet_ids(v: &[Sheet]) -> Vec<String> {
    v.iter().map(|s| s.id.clone()).collect()
}

#[test]
fn dropping_sheets_whose_drive_file_is_gone() {
    let mut v = vec![
        sheet("a", "c", "a.txt", "", Some("d1")),
        sheet("b", "c", "b.txt", "", Some("d2")),
        sheet("c", "c", "c.txt", "", None),
        sheet("d", "c", "d.txt", "", Some("d4")),
    ];
    assert!(drop_gone_sheets(&mut v, &vec![false, true, false, true]));
    assert_eq!(sheet_ids(&v), vec!["a", "c"]);
    assert!(!drop_gone_sheets(&mut v, &vec![false, false]));
    assert_eq!(sheet_ids(&v), vec!["a", "c"]);
}

#[test]
fn dropping_by_id_removes_the_first_with_that_id() {
    // Two sheets share an id; the second is flagged, and the first with the id goes.
    let mut v = vec![sheet("x", "c", "one", "", Some("d1")), sheet("x", "c", "two", "", Some("d2"))];
    assert!(drop_gone_sheets(&mut v, &vec![false, true]));
    assert_eq!(v.len(), 1);
    assert_eq!(v[0].title, "two");
}

#[test]
fn what_becomes_active_after_a_drop() {
    let v = vec![sheet("a", "c", "a.txt", "", None), sheet("b", "c", "b.txt", "", None)];
    assert!(matches!(after_drop(&v, true), AfterDrop::Activate(id) if id == "b"));
    assert!(matches!(after_drop(&v, false), AfterDrop::Keep));
    assert!(matches!(after_drop(&Vec::new(), true), AfterDrop::OpenFresh));
}

fn open_d9(v: &mut Vec<Sheet>) -> usize {
    open_drive_file(
        v,
        "d9".to_string(),
        "abc.txt".to_string(),
        "cat".to_string(),
        "héllo".to_string(),
        true,
        Some(77),
        "fresh".to_string(),
        "hsl(5, 5%, 5%)".to_string(),
    )
}

#[test]
fn opening_a_drive_file_appends_a_sheet() {
    let mut v = vec![sheet("a", "c", "a.txt", "x", Some("d1"))];
    let k = open_d9(&mut v);
    assert_eq!(k, 1);
    assert_eq!(v.len(), 2);
    let s = &v[1];
    assert_eq!(s.id, "fresh");
    assert_eq!(s.tab_color, "hsl(5, 5%, 5%)");
    assert_eq!(s.guid.as_deref(), Some("abc"));
    assert_eq!(s.title, "abc.txt");
    assert_eq!(s.category, "cat");
    assert_eq!(s.content, "héllo");
    assert_eq!(s.total_size, 6);
    assert_eq!(s.loaded_bytes, 6);
    assert!(!s.is_modified);
    assert!(s.needs_bom);
    assert_eq!(s.drive_id.as_deref(), Some("d9"));
    assert_eq!(s.last_sync_timestamp, Some(77));
    assert_eq!(v[0].id, "a");
}

#[test]
fn opening_a_drive_file_already_open_replaces_its_tab() {
    let mut first = sheet("t1", "c", "old.txt", "old", Some("d9"));
    first.tab_color = "kept".to_string();
    let mut v = vec![sheet("a", "c", "a.txt", "x", Some("d1")), first];
    let k = open_d9(&mut v);
    assert_eq!(k, 1);
    assert_eq!(v.len(), 2);
    assert_eq!(v[1].id, "t1");
    assert_eq!(v[1].tab_color, "kept");
    assert_eq!(v[1].content, "héllo");
    assert_eq!(v.iter().filter(|s| s.drive_id.as_deref() == Some("d9")).count(), 1);
}

#[test]
fn opening_a_drive_file_takes_the_place_of_a_blank_sheet() {
    let mut blank = sheet("b", "", "Untitled.txt", "", None);
    blank.tab_color = "blank-colour".to_string();
    let mut v = vec![blank];
    let k = open_d9(&mut v);
    assert_eq!(k, 0);
    assert_eq!(v.len(), 1);
    assert_eq!(v[0].id, "b");
    assert_eq!(v[0].tab_color, "blank-colour");
    assert_eq!(v[0].drive_id.as_deref(), Some("d9"));
}
