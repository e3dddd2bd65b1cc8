use leaf::file_dialog::{
    alt_category_step, choose_opening_category, pick_sort_key, SortState, descending_text, find_category_index, navigate_key, read_descending,
    read_sort_key, read_view_mode, sort_categories, sort_key_text, view_mode_text, Category, FocusedArea, NavEffect,
    NavKey, NavState, ViewMode,
};
use leaf::file_list::SortKey;

fn cat(id: &str, name: &str) -> Category {
    Category { id: id.to_string(), name: name.to_string() }
}

#[test]
fn display_choices_read_from_storage() {
    assert_eq!(read_view_mode(Some("list")), ViewMode::List);
    assert_eq!(read_view_mode(Some("grid")), ViewMode::Grid);
    assert_eq!(read_view_mode(Some("LIST")), ViewMode::Grid);
    assert_eq!(read_view_mode(None), ViewMode::Grid);
    assert_eq!(read_sort_key(Some("created")), SortKey::Created);
    assert_eq!(read_sort_key(Some("modified")), SortKey::Modified);
    assert_eq!(read_sort_key(None), SortKey::Modified);
    assert!(read_descending(None));
    assert!(read_descending(Some("1")));
    assert!(!read_descending(Some("0")));
    assert!(read_descending(Some("false")));
}

#[test]
fn display_choices_round_trip() {
    for m in [ViewMode::Grid, ViewMode::List] {
        assert_eq!(read_view_mode(Some(view_mode_text(m))), m);
    }
    for k in [SortKey::Modified, SortKey::Created] {
        assert_eq!(read_sort_key(Some(sort_key_text(k))), k);
    }
    for d in [true, false] {
        assert_eq!(read_descending(Some(descending_text(d))), d);
    }
    assert_eq!(view_mode_text(ViewMode::Grid), "grid");
    assert_eq!(sort_key_text(SortKey::Created), "created");
    assert_eq!(descending_text(true), "1");
}

#[test]
fn categories_sorted_with_others_first() {
    let mut cats = vec![cat("3", "Work"), cat("1", "OTHERS"), cat("2", "Diary"), cat("4", "Apple")];
    sort_categories(&mut cats);
    let names: Vec<String> = cats.iter().map(|c| c.name.clone()).collect();
    assert_eq!(names, vec!["OTHERS", "Apple", "Diary", "Work"]);
}

#[test]
fn opening_category_rules() {
    let cats = vec![cat("o", "OTHERS"), cat("a", "A"), cat("b", "B")];
    assert_eq!(choose_opening_category(&cats, "b", false, ""), (2, false));
    assert_eq!(choose_opening_category(&cats, "gone", true, "a"), (1, true));
    assert_eq!(choose_opening_category(&cats, "gone", true, "__LOCAL__"), (0, false));
    assert_eq!(choose_opening_category(&cats, "gone", false, "a"), (0, true));
    let no_others = vec![cat("a", "A"), cat("b", "B")];
    assert_eq!(choose_opening_category(&no_others, "", true, ""), (0, false));
    assert_eq!(find_category_index(&cats, "a"), Some(1));
    assert_eq!(find_category_index(&cats, "x"), None);
}

fn st(focus: FocusedArea, category: usize, file: Option<usize>) -> NavState {
    NavState { focus, category, file }
}

#[test]
fn grid_moves_by_rows() {
    let s = st(FocusedArea::Files, 0, Some(4));
    assert_eq!(navigate_key(s, NavKey::Up, true, 10, 1, 3).0.file, Some(1));
    assert_eq!(navigate_key(st(FocusedArea::Files, 0, Some(1)), NavKey::Up, true, 10, 1, 3).0.file, Some(1));
    assert_eq!(navigate_key(s, NavKey::Down, true, 10, 1, 3).0.file, Some(7));
    assert_eq!(navigate_key(st(FocusedArea::Files, 0, Some(8)), NavKey::Down, true, 10, 1, 3).0.file, Some(9));
    assert_eq!(navigate_key(st(FocusedArea::Files, 0, Some(9)), NavKey::Down, true, 10, 1, 3).0.file, Some(9));
    assert_eq!(navigate_key(st(FocusedArea::Files, 0, Some(7)), NavKey::Down, true, 9, 1, 3).0.file, Some(7));
    assert_eq!(navigate_key(st(FocusedArea::Files, 0, Some(0)), NavKey::Left, true, 9, 1, 3).0.file, Some(0));
    assert_eq!(navigate_key(st(FocusedArea::Files, 0, Some(8)), NavKey::Right, true, 9, 1, 3).0.file, Some(8));
    assert_eq!(navigate_key(st(FocusedArea::Files, 0, None), NavKey::Right, true, 9, 1, 3).0.file, Some(1));
}

#[test]
fn narrow_layout_moves_categories_and_sheets() {
    let (s, e) = navigate_key(st(FocusedArea::Categories, 1, None), NavKey::Down, false, 5, 3, 1);
    assert_eq!((s.category, e), (2, NavEffect::LoadCategory(2)));
    let (s, e) = navigate_key(st(FocusedArea::Categories, 2, None), NavKey::Down, false, 5, 3, 1);
    assert_eq!((s.category, e), (2, NavEffect::Nothing));
    let (s, e) = navigate_key(st(FocusedArea::Categories, 1, None), NavKey::Up, false, 5, 3, 1);
    assert_eq!((s.category, e), (0, NavEffect::LoadCategory(0)));
    assert_eq!(navigate_key(st(FocusedArea::Files, 0, None), NavKey::Down, false, 5, 3, 1).0.file, Some(0));
    assert_eq!(navigate_key(st(FocusedArea::Files, 0, Some(4)), NavKey::Down, false, 5, 3, 1).0.file, Some(4));
    assert_eq!(navigate_key(st(FocusedArea::Files, 0, None), NavKey::Up, false, 5, 3, 1).0.file, Some(0));
    assert_eq!(navigate_key(st(FocusedArea::Files, 0, Some(2)), NavKey::Up, false, 5, 3, 1).0.file, Some(1));
}

#[test]
fn tab_enter_escape() {
    let (s, e) = navigate_key(st(FocusedArea::Categories, 0, None), NavKey::Tab, false, 2, 1, 1);
    assert_eq!((s.focus, s.file, e), (FocusedArea::Files, Some(0), NavEffect::Nothing));
    let (s, _) = navigate_key(s, NavKey::Tab, false, 2, 1, 1);
    assert_eq!(s.focus, FocusedArea::Categories);
    let (_, e) = navigate_key(st(FocusedArea::Files, 0, Some(1)), NavKey::Enter, false, 2, 1, 1);
    assert_eq!(e, NavEffect::OpenSelected);
    let (s, e) = navigate_key(st(FocusedArea::Files, 0, Some(1)), NavKey::Escape, false, 2, 1, 1);
    assert_eq!((s.focus, e), (FocusedArea::Categories, NavEffect::Nothing));
    let (_, e) = navigate_key(st(FocusedArea::Categories, 0, None), NavKey::Escape, false, 2, 1, 1);
    assert_eq!(e, NavEffect::Close);
    let (s, _) = navigate_key(st(FocusedArea::Categories, 0, None), NavKey::Enter, false, 0, 1, 1);
    assert_eq!((s.focus, s.file), (FocusedArea::Files, None));
}

#[test]
fn selection_stays_in_list() {
    for n in 0..6usize {
        for cols in 1..4usize {
            for key in [NavKey::Up, NavKey::Down, NavKey::Left, NavKey::Right, NavKey::Tab, NavKey::Enter, NavKey::Escape] {
                for wide in [false, true] {
                    let starts: Vec<Option<usize>> = std::iter::once(None).chain((0..n).map(Some)).collect();
                    for f in starts {
                        let (s, _) = navigate_key(st(FocusedArea::Files, 0, f), key, wide, n, 2, cols);
                        if let Some(i) = s.file { assert!(i < n); }
                    }
                }
            }
        }
    }
}

#[test]
fn alt_arrows_switch_category() {
    assert_eq!(alt_category_step(0, true, 3), None);
    assert_eq!(alt_category_step(1, true, 3), Some(0));
    assert_eq!(alt_category_step(1, false, 3), Some(2));
    assert_eq!(alt_category_step(2, false, 3), None);
}

#[test]
fn picking_sort_keys() {
    let st = SortState { key: SortKey::Modified, modified_desc: true, created_desc: false };
    let flipped = pick_sort_key(st, SortKey::Modified);
    assert_eq!(flipped, SortState { key: SortKey::Modified, modified_desc: false, created_desc: false });
    assert_eq!(pick_sort_key(flipped, SortKey::Modified), st);
    let other = pick_sort_key(st, SortKey::Created);
    assert_eq!(other, SortState { key: SortKey::Created, modified_desc: true, created_desc: false });
    assert_eq!(pick_sort_key(other, SortKey::Created), SortState { key: SortKey::Created, modified_desc: true, created_desc: true });
}
