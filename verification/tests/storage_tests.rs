use leaf::sheet::Sheet;
use leaf::storage::{restore_sheet, restored_active_tab, starts_as_guest};

fn sheet(id: &str, category: &str, content: &str) -> Sheet {
    Sheet {
        id: id.to_string(),
        guid: Some("g-1".to_string()),
        category: category.to_string(),
        title: "notes.md".to_string(),
        content: content.to_string(),
        is_modified: false,
        drive_id: Some("drive-7".to_string()),
        temp_content: None,
        temp_timestamp: None,
        last_sync_timestamp: Some(1_700_000_000_000),
        tab_color: "hsl(10, 60%, 70%)".to_string(),
        total_size: 5,
        loaded_bytes: 5,
        needs_bom: true,
        is_preview: true,
        is_split: true,
        editor_state: Some("{\"cursor\":3}".to_string()),
        created_at: Some(1_600_000_000_000),
        local_path: Some("/tmp/notes.md".to_string()),
    }
}

#[test]
fn stored_form_keeps_persistent_fields() {
    let s = sheet("1", "work", "hello");
    let j = s.to_js();
    assert_eq!(j.id, "1");
    assert_eq!(j.guid.as_deref(), Some("g-1"));
    assert_eq!(j.category, "work");
    assert_eq!(j.title, "notes.md");
    assert_eq!(j.content, "hello");
    assert_eq!(j.drive_id.as_deref(), Some("drive-7"));
    assert_eq!(j.last_sync_timestamp, Some(1_700_000_000_000));
    assert_eq!(j.tab_color, "hsl(10, 60%, 70%)");
    assert_eq!(j.total_size, 5);
    assert!(j.needs_bom);
    assert!(j.is_preview);
    assert_eq!(j.created_at, Some(1_600_000_000_000));
}

#[test]
fn store_then_restore_gives_the_sheet_back() {
    let s = sheet("1", "work", "hello");
    let r = restore_sheet(s.to_js(), false, "hsl(0, 0%, 0%)".to_string());
    assert_eq!(r.id, s.id);
    assert_eq!(r.guid, s.guid);
    assert_eq!(r.category, s.category);
    assert_eq!(r.title, s.title);
    assert_eq!(r.content, s.content);
    assert_eq!(r.is_modified, s.is_modified);
    assert_eq!(r.drive_id, s.drive_id);
    assert_eq!(r.tab_color, s.tab_color);
    assert_eq!(r.created_at, s.created_at);
    assert!(!r.is_split);
    assert_eq!(r.editor_state, None);
    assert_eq!(r.local_path, None);
}

#[test]
fn restore_prefers_local_copy_and_marks_modified() {
    let mut j = sheet("2", "work", "old text").to_js();
    j.temp_content = Some("new text".to_string());
    j.temp_timestamp = Some(42);
    let r = restore_sheet(j, false, "c".to_string());
    assert_eq!(r.content, "new text");
    assert!(r.is_modified);
    assert_eq!(r.temp_content.as_deref(), Some("new text"));
    assert_eq!(r.temp_timestamp, Some(42));
}

#[test]
fn restore_in_guest_mode_makes_a_local_sheet() {
    let j = sheet("3", "work", "x").to_js();
    let r = restore_sheet(j, true, "c".to_string());
    assert_eq!(r.category, "__LOCAL__");
    assert_eq!(r.drive_id, None);
    assert_eq!(r.guid.as_deref(), Some("g-1"));
}

#[test]
fn restore_gives_a_colour_to_a_sheet_without_one() {
    let mut j = sheet("4", "work", "x").to_js();
    j.tab_color = String::new();
    let r = restore_sheet(j, false, "hsl(200, 65%, 80%)".to_string());
    assert_eq!(r.tab_color, "hsl(200, 65%, 80%)");
}

#[test]
fn active_tab_after_start_up() {
    let v = vec![sheet("a", "", ""), sheet("b", "", ""), sheet("c", "", "")];
    assert_eq!(restored_active_tab(&v, Some("b".to_string())).as_deref(), Some("b"));
    assert_eq!(restored_active_tab(&v, Some("zz".to_string())).as_deref(), Some("c"));
    assert_eq!(restored_active_tab(&v, None).as_deref(), Some("c"));
    assert_eq!(restored_active_tab(&Vec::new(), Some("a".to_string())), None);
}

#[test]
fn guest_mode_at_start_up() {
    assert!(starts_as_guest(Some("true"), "/editor", true, true));
    assert!(!starts_as_guest(Some("false"), "/editor", false, false));
    assert!(starts_as_guest(None, "/", false, false));
    assert!(!starts_as_guest(None, "/", true, false));
    assert!(!starts_as_guest(None, "/", false, true));
    assert!(!starts_as_guest(None, "/login", false, false));
}
