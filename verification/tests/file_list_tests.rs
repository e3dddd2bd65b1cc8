use leaf::file_list::{
    file_preview_from_listing, initial_file_selection, position_of_id, prefetch_range, resort_keeping_selection, sort_file_list, FileAction, FilePreview, FileState,
    SortKey,
};

fn preview(id: &str, name: &str, modified: i64, created: i64) -> FilePreview {
    FilePreview {
        id: id.to_string(),
        name: name.to_string(),
        content: String::new(),
        total_size: 0,
        loaded_bytes: 0,
        is_markdown: false,
        lang: "txt".to_string(),
        is_loaded: false,
        modified_time: modified,
        created_time: created,
    }
}

fn ids(list: &[FilePreview]) -> Vec<String> {
    list.iter().map(|f| f.id.clone()).collect()
}

#[test]
fn sort_by_modified_newest_first() {
    let mut list = vec![preview("a", "a", 10, 3), preview("b", "b", 30, 2), preview("c", "c", 20, 1)];
    sort_file_list(&mut list, SortKey::Modified, true);
    assert_eq!(ids(&list), vec!["b", "c", "a"]);
}

#[test]
fn sort_by_created_oldest_first() {
    let mut list = vec![preview("a", "a", 10, 3), preview("b", "b", 30, 2), preview("c", "c", 20, 1)];
    sort_file_list(&mut list, SortKey::Created, false);
    assert_eq!(ids(&list), vec!["c", "b", "a"]);
}

#[test]
fn equal_times_sorted_by_lowercase_name() {
    let mut list = vec![preview("1", "beta.txt", 5, 0), preview("2", "Alpha.txt", 5, 0), preview("3", "alpha.md", 5, 0)];
    sort_file_list(&mut list, SortKey::Modified, false);
    assert_eq!(ids(&list), vec!["3", "2", "1"]);
    sort_file_list(&mut list, SortKey::Modified, true);
    assert_eq!(ids(&list), vec!["1", "2", "3"]);
}

#[test]
fn sort_keeps_equal_sheets_in_order() {
    let mut list = vec![preview("x", "Same", 1, 0), preview("y", "same", 1, 0), preview("z", "SAME", 1, 0)];
    sort_file_list(&mut list, SortKey::Modified, true);
    assert_eq!(ids(&list), vec!["x", "y", "z"]);
}

#[test]
fn sort_matches_std_stable_sort() {
    let base = vec![
        preview("1", "b", 3, 9), preview("2", "A", 1, 9), preview("3", "a", 3, 8),
        preview("4", "C", 2, 7), preview("5", "b", 3, 9), preview("6", "", 0, 0),
    ];
    for key in [SortKey::Modified, SortKey::Created] {
        for desc in [false, true] {
            let mut mine = base.iter().map(|f| preview(&f.id, &f.name, f.modified_time, f.created_time)).collect::<Vec<_>>();
            sort_file_list(&mut mine, key, desc);
            let mut expected = base.iter().map(|f| preview(&f.id, &f.name, f.modified_time, f.created_time)).collect::<Vec<_>>();
            expected.sort_by(|a, b| {
                let (va, vb) = match key {
                    SortKey::Modified => (a.modified_time, b.modified_time),
                    SortKey::Created => (a.created_time, b.created_time),
                };
                let ord = va.cmp(&vb).then_with(|| a.name.to_lowercase().cmp(&b.name.to_lowercase()));
                if desc { ord.reverse() } else { ord }
            });
            assert_eq!(ids(&mine), ids(&expected));
        }
    }
}

#[test]
fn reducer_set_update_remove_clear() {
    let state = FileState { list: vec![] };
    let state = state.reduce(FileAction::SetList(vec![preview("a", "a", 1, 1), preview("b", "b", 2, 2), preview("a", "a2", 3, 3)]));
    assert_eq!(ids(&state.list), vec!["a", "b", "a"]);
    let state = state.reduce(FileAction::UpdateContent("a".to_string(), "hello".to_string(), 5));
    assert_eq!(state.list[0].content, "hello");
    assert_eq!(state.list[0].loaded_bytes, 5);
    assert!(state.list[0].is_loaded);
    assert_eq!(state.list[2].content, "");
    assert!(!state.list[2].is_loaded);
    let state = state.reduce(FileAction::UpdateContent("zzz".to_string(), "x".to_string(), 1));
    assert_eq!(ids(&state.list), vec!["a", "b", "a"]);
    let state = state.reduce(FileAction::Remove("a".to_string()));
    assert_eq!(ids(&state.list), vec!["b"]);
    let state = state.reduce(FileAction::Clear);
    assert!(state.list.is_empty());
}

#[test]
fn empty_content_still_counts_as_loaded() {
    let state = FileState { list: vec![preview("a", "a", 1, 1)] };
    let state = state.reduce(FileAction::UpdateContent("a".to_string(), String::new(), 0));
    assert!(state.list[0].is_loaded);
}

#[test]
fn listing_entry_reads_extension_and_size() {
    let f = file_preview_from_listing("id1".to_string(), "Note.MD".to_string(), Some("123".to_string()), 5, 6);
    assert_eq!(f.lang, "md");
    assert!(f.is_markdown);
    assert_eq!(f.total_size, 123);
    assert_eq!(f.loaded_bytes, 0);
    assert!(!f.is_loaded);
    assert_eq!(f.content, "");
    assert_eq!((f.modified_time, f.created_time), (5, 6));
    let g = file_preview_from_listing("id2".to_string(), "readme.markdown".to_string(), None, 0, 0);
    assert!(g.is_markdown);
    assert_eq!(g.total_size, 0);
    let h = file_preview_from_listing("id3".to_string(), "noext".to_string(), Some("12kb".to_string()), 0, 0);
    assert_eq!(h.lang, "noext");
    assert!(!h.is_markdown);
    assert_eq!(h.total_size, 0);
    let k = file_preview_from_listing("id4".to_string(), "a.tar.GZ".to_string(), Some("7".to_string()), 0, 0);
    assert_eq!(k.lang, "gz");
}

#[test]
fn selection_after_listing() {
    let list = vec![preview("a", "a", 1, 1), preview("b", "b", 2, 2)];
    assert_eq!(initial_file_selection(&list, Some("b")), Some(1));
    assert_eq!(initial_file_selection(&list, Some("zz")), None);
    assert_eq!(initial_file_selection(&list, None), Some(0));
    assert_eq!(initial_file_selection(&Vec::new(), None), None);
    assert_eq!(position_of_id(&list, "a"), Some(0));
    assert_eq!(position_of_id(&list, "c"), None);
}

#[test]
fn resort_keeps_the_selected_file() {
    let mut list = vec![preview("a", "a", 10, 3), preview("b", "b", 30, 2), preview("c", "c", 20, 1)];
    // "c" is selected at index 2; newest first by modified time puts it at index 1.
    let sel = resort_keeping_selection(&mut list, Some(2), SortKey::Modified, true);
    assert_eq!(ids(&list), vec!["b", "c", "a"]);
    assert_eq!(sel, Some(1));
    // Oldest first by created time: c(1), b(2), a(3); "c" moves to index 0.
    let sel = resort_keeping_selection(&mut list, sel, SortKey::Created, false);
    assert_eq!(ids(&list), vec!["c", "b", "a"]);
    assert_eq!(sel, Some(0));
}

#[test]
fn resort_leaves_an_invalid_selection_alone() {
    let mut list = vec![preview("a", "a", 10, 3), preview("b", "b", 30, 2)];
    assert_eq!(resort_keeping_selection(&mut list, None, SortKey::Modified, true), None);
    assert_eq!(resort_keeping_selection(&mut list, Some(7), SortKey::Modified, false), Some(7));
    assert_eq!(ids(&list), vec!["a", "b"]);
}

#[test]
fn prefetch_ranges() {
    assert_eq!(prefetch_range(20_000, 10_240).as_deref(), Some("0-10239"));
    assert_eq!(prefetch_range(10_240, 10_240), None);
    assert_eq!(prefetch_range(1_025, 1_024).as_deref(), Some("0-1023"));
    assert_eq!(prefetch_range(0, 1_024), None);
}

#[test]
fn sort_keeps_ties_in_input_order() {
    // Same time and the same lower-cased name: they keep their order.
    let mut list = vec![preview("x", "Note", 5, 0), preview("y", "a", 9, 0), preview("z", "note", 5, 0)];
    sort_file_list(&mut list, SortKey::Modified, false);
    assert_eq!(ids(&list), vec!["x", "z", "y"]);
    let mut list = vec![preview("z", "note", 5, 0), preview("y", "a", 9, 0), preview("x", "Note", 5, 0)];
    sort_file_list(&mut list, SortKey::Modified, true);
    assert_eq!(ids(&list), vec!["y", "z", "x"]);
}
