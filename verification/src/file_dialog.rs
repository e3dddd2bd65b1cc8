//! The file dialog's own state: how its display choices are stored, the
//! order of its categories, which category it opens on, and how the
//! keyboard moves between categories and sheets.

use vstd::prelude::*;
use crate::file_list::SortKey;
use crate::text::{lemma_lex_order_antisym, lemma_lex_order_trans, lex_order, compare_text, same_text};

verus! {

/// How the dialog lays out its sheets.
#[derive(Clone, Copy, Debug, PartialEq, Eq, Structural)]
pub enum ViewMode {
    Grid,
    List,
}

/// The stored view mode: `list` is the list, anything else the grid.
pub open spec fn stored_view_mode(v: Option<Seq<char>>) -> ViewMode {
    if v == Some("list"@) { ViewMode::List } else { ViewMode::Grid }
}

/// Reads the stored view mode.
pub fn read_view_mode(v: Option<&str>) -> (r: ViewMode)
    ensures
        r == stored_view_mode(match v {
            Some(t) => Some(t@),
            None => None,
        }),
{
    match v {
        Some(t) => if same_text(t, "list") { ViewMode::List } else { ViewMode::Grid },
        None => ViewMode::Grid,
    }
}

/// The text the view mode is stored as.
pub open spec fn view_mode_name(m: ViewMode) -> Seq<char> {
    match m {
        ViewMode::Grid => "grid"@,
        ViewMode::List => "list"@,
    }
}

/// The text the view mode is stored as.
pub fn view_mode_text(m: ViewMode) -> (r: &'static str)
    ensures
        r@ == view_mode_name(m),
{
    match m {
        ViewMode::Grid => "grid",
        ViewMode::List => "list",
    }
}

/// The stored sort key: `created` sorts by creation, anything else by
/// modification.
pub open spec fn stored_sort_key(v: Option<Seq<char>>) -> SortKey {
    if v == Some("created"@) { SortKey::Created } else { SortKey::Modified }
}

/// Reads the stored sort key.
pub fn read_sort_key(v: Option<&str>) -> (r: SortKey)
    ensures
        r == stored_sort_key(match v {
            Some(t) => Some(t@),
            None => None,
        }),
{
    match v {
        Some(t) => if same_text(t, "created") { SortKey::Created } else { SortKey::Modified },
        None => SortKey::Modified,
    }
}

/// The text the sort key is stored as.
pub open spec fn sort_key_name(k: SortKey) -> Seq<char> {
    match k {
        SortKey::Modified => "modified"@,
        SortKey::Created => "created"@,
    }
}

/// The text the sort key is stored as.
pub fn sort_key_text(k: SortKey) -> (r: &'static str)
    ensures
        r@ == sort_key_name(k),
{
    match k {
        SortKey::Modified => "modified",
        SortKey::Created => "created",
    }
}

/// A stored direction is descending unless it is the text `0` (newest
/// first by default).
pub open spec fn stored_descending(v: Option<Seq<char>>) -> bool {
    v != Some("0"@)
}

/// Reads a stored sort direction.
pub fn read_descending(v: Option<&str>) -> (r: bool)
    ensures
        r == stored_descending(match v {
            Some(t) => Some(t@),
            None => None,
        }),
{
    match v {
        Some(t) => !same_text(t, "0"),
        None => true,
    }
}

/// The text a sort direction is stored as.
pub open spec fn descending_name(desc: bool) -> Seq<char> {
    if desc { "1"@ } else { "0"@ }
}

/// The text a sort direction is stored as.
pub fn descending_text(desc: bool) -> (r: &'static str)
    ensures
        r@ == descending_name(desc),
{
    if desc { "1" } else { "0" }
}

/// Each display choice reads back as it was stored.
pub proof fn lemma_display_choices_round_trip(m: ViewMode, k: SortKey, desc: bool)
    ensures
        stored_view_mode(Some(view_mode_name(m))) == m,
        stored_sort_key(Some(sort_key_name(k))) == k,
        stored_descending(Some(descending_name(desc))) == desc,
{
    reveal_strlit("grid");
    reveal_strlit("list");
    reveal_strlit("modified");
    reveal_strlit("created");
    reveal_strlit("1");
    reveal_strlit("0");
    assert("grid"@[0] != "list"@[0]);
    assert("modified"@.len() != "created"@.len());
    assert("1"@[0] != "0"@[0]);
}

/// The dialog's sort state: the active key and the direction kept for
/// each key.
#[derive(Clone, Copy, Debug, PartialEq, Eq, Structural)]
pub struct SortState {
    pub key: SortKey,
    pub modified_desc: bool,
    pub created_desc: bool,
}

/// The direction the list is sorted in under `st`.
pub open spec fn active_descending(st: SortState) -> bool {
    match st.key {
        SortKey::Modified => st.modified_desc,
        SortKey::Created => st.created_desc,
    }
}

/// The sort state after the user picks `key`: picking the active key
/// flips its direction; picking the other one makes it active with the
/// direction it had.
pub open spec fn picked(st: SortState, key: SortKey) -> SortState {
    let again = st.key == key;
    match key {
        SortKey::Modified => SortState {
            key,
            modified_desc: if again { !st.modified_desc } else { st.modified_desc },
            ..st
        },
        SortKey::Created => SortState {
            key,
            created_desc: if again { !st.created_desc } else { st.created_desc },
            ..st
        },
    }
}

/// Applies the user's pick of a sort key (see `picked`).
pub fn pick_sort_key(st: SortState, key: SortKey) -> (r: SortState)
    ensures
        r == picked(st, key),
{
    let again = match (st.key, key) {
        (SortKey::Modified, SortKey::Modified) => true,
        (SortKey::Created, SortKey::Created) => true,
        _ => false,
    };
    match key {
        SortKey::Modified => SortState {
            key,
            modified_desc: if again { !st.modified_desc } else { st.modified_desc },
            created_desc: st.created_desc,
        },
        SortKey::Created => SortState {
            key,
            modified_desc: st.modified_desc,
            created_desc: if again { !st.created_desc } else { st.created_desc },
        },
    }
}

/// Picking the active key twice gives the state back; picking another key
/// keeps the direction both keys had.
pub proof fn lemma_pick_twice_restores(st: SortState, key: SortKey)
    ensures
        st.key == key ==> picked(picked(st, key), key) == st,
        st.key != key ==> active_descending(picked(st, key)) == (match key {
            SortKey::Modified => st.modified_desc,
            SortKey::Created => st.created_desc,
        }),
{
}

/// A category of sheets.
pub struct Category {
    pub id: String,
    pub name: String,
}

/// The catch-all category.
pub open spec fn is_others(c: Category) -> bool {
    c.name@ == "OTHERS"@
}

/// Whether category `a` is listed before `b`: the catch-all first, the
/// others by name.
pub open spec fn category_before(a: Category, b: Category) -> bool {
    if is_others(a) {
        !is_others(b)
    } else if is_others(b) {
        false
    } else {
        lex_order(a.name@, b.name@) < 0
    }
}

/// Places `x` after every category of `s` that does not go after it.
pub open spec fn insert_category(s: Seq<Category>, x: Category) -> Seq<Category>
    decreases s.len(),
{
    if s.len() == 0 {
        seq![x]
    } else if category_before(x, s.last()) {
        insert_category(s.drop_last(), x).push(s.last())
    } else {
        s.push(x)
    }
}

/// The categories in the order the dialog lists them (a stable sort).
pub open spec fn sorted_categories(s: Seq<Category>) -> Seq<Category>
    decreases s.len(),
{
    if s.len() == 0 {
        s
    } else {
        insert_category(sorted_categories(s.drop_last()), s.last())
    }
}

/// Whether no category of `r` is listed before one that comes earlier.
pub open spec fn categories_in_order(r: Seq<Category>) -> bool {
    forall|i: int, j: int| 0 <= i < j < r.len() ==> !category_before(#[trigger] r[j], #[trigger] r[i])
}

fn is_others_category(c: &Category) -> (r: bool)
    ensures
        r == is_others(*c),
{
    same_text(c.name.as_str(), "OTHERS")
}

fn goes_before_category(a: &Category, b: &Category) -> (r: bool)
    ensures
        r == category_before(*a, *b),
{
    let oa = is_others_category(a);
    let ob = is_others_category(b);
    if oa {
        !ob
    } else if ob {
        false
    } else {
        compare_text(a.name.as_str(), b.name.as_str()) < 0
    }
}

proof fn lemma_insert_category_at(s: Seq<Category>, x: Category, p: int)
    requires
        0 <= p <= s.len(),
        forall|k: int| p <= k < s.len() ==> category_before(x, #[trigger] s[k]),
        p == 0 || !category_before(x, s[p - 1]),
    ensures
        insert_category(s, x) == s.take(p).push(x) + s.skip(p),
    decreases s.len(),
{
    if p == s.len() {
        assert(insert_category(s, x) =~= s.take(p).push(x) + s.skip(p));
    } else {
        let t = s.drop_last();
        assert(category_before(x, s[s.len() - 1]));
        assert forall|k: int| p <= k < t.len() implies category_before(x, #[trigger] t[k]) by {
            assert(t[k] == s[k]);
        }
        lemma_insert_category_at(t, x, p);
        assert(insert_category(s, x) =~= s.take(p).push(x) + s.skip(p));
    }
}

/// Sorts the categories: the catch-all first, the others by name.
pub fn sort_categories(list: &mut Vec<Category>)
    ensures
        final(list)@ == sorted_categories(old(list)@),
{
    let ghost orig = list@;
    let total = list.len();
    let mut out: Vec<Category> = Vec::new();
    let mut i: usize = 0;
    assert(orig.take(0) =~= Seq::<Category>::empty());
    assert(orig.skip(0) =~= orig);
    while list.len() > 0
        invariant
            i <= orig.len(),
            orig.len() == total,
            list@ == orig.skip(i as int),
            out@ == sorted_categories(orig.take(i as int)),
        decreases list.len(),
    {
        let x = list.remove(0);
        assert(x == orig[i as int]);
        let mut p = out.len();
        while p > 0 && goes_before_category(&x, &out[p - 1])
            invariant
                p <= out.len(),
                forall|k: int| p <= k < out.len() ==> category_before(x, #[trigger] out@[k]),
            decreases p,
        {
            p = p - 1;
        }
        proof {
            lemma_insert_category_at(out@, x, p as int);
            assert(orig.take(i + 1).drop_last() =~= orig.take(i as int));
            assert(orig.take(i + 1).last() == x);
        }
        let ghost before_insert = out@;
        out.insert(p, x);
        assert(out@ =~= before_insert.take(p as int).push(x) + before_insert.skip(p as int));
        i = i + 1;
        assert(list@ =~= orig.skip(i as int));
    }
    assert(orig.take(i as int) =~= orig);
    *list = out;
}

proof fn lemma_category_order(x: Category, y: Category, z: Category)
    ensures
        category_before(x, y) ==> !category_before(y, x),
        !category_before(x, y) && !category_before(y, z) ==> !category_before(x, z),
{
    lemma_lex_order_antisym(x.name@, y.name@);
    lemma_lex_order_antisym(y.name@, z.name@);
    lemma_lex_order_antisym(x.name@, z.name@);
    if !is_others(x) && !is_others(y) && !is_others(z) {
        if !category_before(x, y) && !category_before(y, z) && category_before(x, z) {
            if lex_order(y.name@, x.name@) < 0 && lex_order(z.name@, y.name@) < 0 {
                lemma_lex_order_trans(z.name@, y.name@, x.name@);
            }
        }
    }
}

proof fn lemma_insert_category(s: Seq<Category>, x: Category)
    ensures
        insert_category(s, x).to_multiset() =~= s.to_multiset().insert(x),
        insert_category(s, x).len() == s.len() + 1,
        categories_in_order(s) ==> categories_in_order(insert_category(s, x)),
    decreases s.len(),
{
    broadcast use vstd::seq_lib::to_multiset_build, vstd::seq_lib::to_multiset_contains;
    let r = insert_category(s, x);
    if s.len() == 0 {
        assert(seq![x] =~= Seq::<Category>::empty().push(x));
        assert(Seq::<Category>::empty().to_multiset() =~= vstd::multiset::Multiset::<Category>::empty());
    } else {
        let t = s.drop_last();
        let last = s.last();
        assert(s =~= t.push(last));
        if category_before(x, last) {
            lemma_insert_category(t, x);
            let r1 = insert_category(t, x);
            assert(r == r1.push(last));
            if categories_in_order(s) {
                assert(categories_in_order(t)) by {
                    assert forall|i: int, j: int| 0 <= i < j < t.len() implies !category_before(#[trigger] t[j], #[trigger] t[i]) by {
                        assert(t[j] == s[j] && t[i] == s[i]);
                    }
                }
                assert forall|i: int, j: int| 0 <= i < j < r.len() implies !category_before(#[trigger] r[j], #[trigger] r[i]) by {
                    if j < r1.len() {
                        assert(r[j] == r1[j] && r[i] == r1[i]);
                    } else {
                        let e = r1[i];
                        assert(r[i] == e);
                        assert(r1.contains(e));
                        assert(r1.to_multiset().count(e) > 0);
                        if e == x {
                            lemma_category_order(x, last, x);
                        } else {
                            assert(t.to_multiset().count(e) > 0);
                            assert(t.contains(e));
                            let k = choose|k: int| 0 <= k < t.len() && t[k] == e;
                            assert(s[k] == e);
                            assert(!category_before(s[s.len() - 1], s[k]));
                        }
                    }
                }
            }
        } else {
            assert(r == s.push(x));
            if categories_in_order(s) {
                assert forall|i: int, j: int| 0 <= i < j < r.len() implies !category_before(#[trigger] r[j], #[trigger] r[i]) by {
                    if j < s.len() {
                        assert(r[j] == s[j] && r[i] == s[i]);
                    } else {
                        assert(r[j] == x && r[i] == s[i]);
                        if i < s.len() - 1 {
                            assert(!category_before(s[s.len() - 1], s[i]));
                            lemma_category_order(x, last, s[i]);
                        }
                    }
                }
            }
        }
    }
}

/// Sorting the categories keeps exactly the categories there were and
/// lists the catch-all first and the others by name.
pub proof fn lemma_sorted_categories(s: Seq<Category>)
    ensures
        sorted_categories(s).to_multiset() =~= s.to_multiset(),
        sorted_categories(s).len() == s.len(),
        categories_in_order(sorted_categories(s)),
    decreases s.len(),
{
    broadcast use vstd::seq_lib::to_multiset_build;
    if s.len() > 0 {
        let t = s.drop_last();
        lemma_sorted_categories(t);
        lemma_insert_category(sorted_categories(t), s.last());
        assert(s =~= t.push(s.last()));
    }
}


/// Position of the first category with the given id.
pub open spec fn category_with_id(s: Seq<Category>, id: Seq<char>) -> Option<int>
    decreases s.len(),
{
    if s.len() == 0 {
        None
    } else if s[0].id@ == id {
        Some(0)
    } else {
        match category_with_id(s.drop_first(), id) {
            Some(k) => Some(k + 1),
            None => None,
        }
    }
}

/// Position of the first catch-all category.
pub open spec fn others_position(s: Seq<Category>) -> Option<int>
    decreases s.len(),
{
    if s.len() == 0 {
        None
    } else if is_others(s[0]) {
        Some(0)
    } else {
        match others_position(s.drop_first()) {
            Some(k) => Some(k + 1),
            None => None,
        }
    }
}

proof fn lemma_category_with_id(s: Seq<Category>, id: Seq<char>)
    ensures
        match category_with_id(s, id) {
            Some(k) => 0 <= k < s.len() && s[k].id@ == id && forall|j: int| 0 <= j < k ==> (#[trigger] s[j]).id@ != id,
            None => forall|j: int| 0 <= j < s.len() ==> (#[trigger] s[j]).id@ != id,
        },
    decreases s.len(),
{
    if s.len() > 0 {
        let t = s.drop_first();
        lemma_category_with_id(t, id);
        assert forall|j: int| 0 < j < s.len() implies s[j] == t[j - 1] by {}
    }
}

proof fn lemma_others_position(s: Seq<Category>)
    ensures
        match others_position(s) {
            Some(k) => 0 <= k < s.len() && is_others(s[k]) && forall|j: int| 0 <= j < k ==> !is_others(#[trigger] s[j]),
            None => forall|j: int| 0 <= j < s.len() ==> !is_others(#[trigger] s[j]),
        },
    decreases s.len(),
{
    if s.len() > 0 {
        let t = s.drop_first();
        lemma_others_position(t);
        assert forall|j: int| 0 < j < s.len() implies s[j] == t[j - 1] by {}
    }
}

/// Finds the first category with the given id.
pub fn find_category_index(s: &Vec<Category>, id: &str) -> (r: Option<usize>)
    ensures
        match r {
            Some(k) => category_with_id(s@, id@) == Some(k as int) && k < s@.len(),
            None => category_with_id(s@, id@) is None,
        },
{
    proof { lemma_category_with_id(s@, id@); }
    let mut i: usize = 0;
    while i < s.len()
        invariant
            i <= s@.len(),
            forall|j: int| 0 <= j < i ==> (#[trigger] s@[j]).id@ != id@,
        decreases s@.len() - i,
    {
        if same_text(s[i].id.as_str(), id) {
            proof { lemma_category_with_id(s@, id@); }
            return Some(i);
        }
        i = i + 1;
    }
    proof { lemma_category_with_id(s@, id@); }
    None
}

fn find_others(s: &Vec<Category>) -> (r: Option<usize>)
    ensures
        match r {
            Some(k) => others_position(s@) == Some(k as int),
            None => others_position(s@) is None,
        },
{
    proof { lemma_others_position(s@); }
    let mut i: usize = 0;
    while i < s.len()
        invariant
            i <= s@.len(),
            forall|j: int| 0 <= j < i ==> !is_others(#[trigger] s@[j]),
        decreases s@.len() - i,
    {
        if is_others_category(&s[i]) {
            proof { lemma_others_position(s@); }
            return Some(i);
        }
        i = i + 1;
    }
    proof { lemma_others_position(s@); }
    None
}

/// Which category the dialog shows when it opens or its list changes, and
/// whether the keyboard then starts on the sheets: the category shown
/// before, when still there; else, while a Drive sheet is open in the
/// editor, that sheet's category (starting on the sheets); else the
/// catch-all, or the first category (starting on the sheets unless a
/// Drive sheet is open).
pub open spec fn opening_category(cats: Seq<Category>, current: Seq<char>, drive_sheet_open: bool, active_category: Seq<char>) -> (int, bool) {
    match category_with_id(cats, current) {
        Some(k) => (k, false),
        None => {
            let from_active = if drive_sheet_open && active_category.len() > 0 && active_category != "__LOCAL__"@ {
                category_with_id(cats, active_category)
            } else {
                None
            };
            match from_active {
                Some(k) => (k, true),
                None => (match others_position(cats) {
                    Some(k) => k,
                    None => 0,
                }, !drive_sheet_open),
            }
        },
    }
}

/// Picks the category the dialog opens on (see `opening_category`); the
/// flag says whether the keyboard starts on the sheets.
pub fn choose_opening_category(cats: &Vec<Category>, current: &str, drive_sheet_open: bool, active_category: &str) -> (r: (usize, bool))
    requires
        cats@.len() > 0,
    ensures
        (r.0 as int, r.1) == opening_category(cats@, current@, drive_sheet_open, active_category@),
        r.0 < cats@.len(),
{
    proof {
        lemma_category_with_id(cats@, current@);
        lemma_category_with_id(cats@, active_category@);
        lemma_others_position(cats@);
    }
    match find_category_index(cats, current) {
        Some(k) => (k, false),
        None => {
            if drive_sheet_open && active_category.unicode_len() > 0 && !same_text(active_category, "__LOCAL__") {
                match find_category_index(cats, active_category) {
                    Some(k) => return (k, true),
                    None => {},
                }
            }
            let k = match find_others(cats) {
                Some(k) => k,
                None => 0,
            };
            (k, !drive_sheet_open)
        },
    }
}

/// Where the keyboard works in the dialog.
#[derive(Clone, Copy, Debug, PartialEq, Eq, Structural)]
pub enum FocusedArea {
    Categories,
    Files,
}

/// The keys the dialog reacts to.
#[derive(Clone, Copy, Debug, PartialEq, Eq, Structural)]
pub enum NavKey {
    Up,
    Down,
    Left,
    Right,
    Tab,
    Enter,
    Escape,
}

/// The dialog's selection: where the keyboard is, the selected category,
/// and the selected sheet if any.
#[derive(Clone, Copy, Debug, PartialEq, Eq, Structural)]
pub struct NavState {
    pub focus: FocusedArea,
    pub category: usize,
    pub file: Option<usize>,
}

/// What a key asks of the dialog besides moving the selection.
#[derive(Clone, Copy, Debug, PartialEq, Eq, Structural)]
pub enum NavEffect {
    Nothing,
    /// Show the sheets of this category.
    LoadCategory(usize),
    /// Open the selected sheet.
    OpenSelected,
    /// Close the dialog.
    Close,
}

/// The sheet selected when the keyboard enters the sheets: the first one
/// when none is selected and there are sheets.
pub open spec fn enter_files(st: NavState, n_files: nat) -> NavState {
    NavState {
        focus: FocusedArea::Files,
        file: if st.file is None && n_files > 0 { Some(0usize) } else { st.file },
        ..st
    }
}

/// How a key moves the selection. In the wide layout the sheets form a
/// grid of `cols` columns: up and down move by a row (down to the last
/// sheet when the next row is shorter), left and right by one. In the
/// narrow layout up and down move through the categories or the sheets,
/// wherever the keyboard is. Tab switches between categories and sheets;
/// Enter enters the sheets or opens the selected one; Escape leaves the
/// sheets or closes the dialog.
pub open spec fn navigate(st: NavState, key: NavKey, wide: bool, n_files: nat, n_cats: nat, cols: nat) -> (NavState, NavEffect) {
    let cur = match st.file { Some(f) => f as int, None => 0 };
    match key {
        NavKey::Tab => if st.focus == FocusedArea::Categories {
            (enter_files(st, n_files), NavEffect::Nothing)
        } else {
            (NavState { focus: FocusedArea::Categories, ..st }, NavEffect::Nothing)
        },
        NavKey::Up => if wide {
            if n_files > 0 {
                (NavState { file: Some((if cur >= cols { cur - cols } else { cur }) as usize), ..st }, NavEffect::Nothing)
            } else {
                (st, NavEffect::Nothing)
            }
        } else if st.focus == FocusedArea::Categories {
            if st.category > 0 {
                (NavState { category: (st.category - 1) as usize, ..st }, NavEffect::LoadCategory((st.category - 1) as usize))
            } else {
                (st, NavEffect::Nothing)
            }
        } else if cur > 0 {
            (NavState { file: Some((cur - 1) as usize), ..st }, NavEffect::Nothing)
        } else if st.file is None && n_files > 0 {
            (NavState { file: Some(0usize), ..st }, NavEffect::Nothing)
        } else {
            (st, NavEffect::Nothing)
        },
        NavKey::Down => if wide {
            if n_files > 0 {
                let below = cur + cols;
                let new = if below < n_files {
                    below
                } else if cur / (cols as int) < (n_files - 1) / (cols as int) {
                    n_files - 1
                } else {
                    cur
                };
                (NavState { file: Some(new as usize), ..st }, NavEffect::Nothing)
            } else {
                (st, NavEffect::Nothing)
            }
        } else if st.focus == FocusedArea::Categories {
            if st.category + 1 < n_cats {
                (NavState { category: (st.category + 1) as usize, ..st }, NavEffect::LoadCategory((st.category + 1) as usize))
            } else {
                (st, NavEffect::Nothing)
            }
        } else if st.file is None && n_files > 0 {
            (NavState { file: Some(0usize), ..st }, NavEffect::Nothing)
        } else if cur + 1 < n_files {
            (NavState { file: Some((cur + 1) as usize), ..st }, NavEffect::Nothing)
        } else {
            (st, NavEffect::Nothing)
        },
        NavKey::Left => if wide && n_files > 0 {
            (NavState { file: Some((if cur > 0 { cur - 1 } else { 0 }) as usize), ..st }, NavEffect::Nothing)
        } else {
            (st, NavEffect::Nothing)
        },
        NavKey::Right => if wide && n_files > 0 && cur + 1 < n_files {
            (NavState { file: Some((cur + 1) as usize), ..st }, NavEffect::Nothing)
        } else {
            (st, NavEffect::Nothing)
        },
        NavKey::Enter => if st.focus == FocusedArea::Categories {
            (enter_files(st, n_files), NavEffect::Nothing)
        } else {
            (st, NavEffect::OpenSelected)
        },
        NavKey::Escape => if st.focus == FocusedArea::Files {
            (NavState { focus: FocusedArea::Categories, ..st }, NavEffect::Nothing)
        } else {
            (st, NavEffect::Close)
        },
    }
}

/// In the grid layout with sheets listed, Left selects the sheet before the
/// selected one (the first stays selected) and Right the sheet after it
/// (the last stays selected); neither changes the focus or the category
/// or has another effect, and Right then Left comes back to where it was.
pub proof fn lemma_grid_left_right(st: NavState, i: usize, n_files: nat, n_cats: nat, cols: nat)
    requires
        st.file == Some(i),
        i < n_files <= usize::MAX,
    ensures
        navigate(st, NavKey::Left, true, n_files, n_cats, cols)
            == (NavState { file: Some(if i > 0 { (i - 1) as usize } else { 0usize }), ..st }, NavEffect::Nothing),
        navigate(st, NavKey::Right, true, n_files, n_cats, cols)
            == (NavState { file: Some(if i + 1 < n_files { (i + 1) as usize } else { i }), ..st }, NavEffect::Nothing),
        i + 1 < n_files ==> navigate(navigate(st, NavKey::Right, true, n_files, n_cats, cols).0, NavKey::Left, true,
            n_files, n_cats, cols).0 == st,
{
}

/// In the list layout, with a sheet selected, Down selects the next sheet
/// (if there is one) and Up the previous one (if there is one); Down then
/// Up comes back to where it was. In the grid layout Down moves a row down
/// and Up a row up (`cols` sheets), and Down then Up comes back as well.
pub proof fn lemma_up_down(st: NavState, i: usize, n_files: nat, n_cats: nat, cols: nat)
    requires
        st.focus == FocusedArea::Files,
        st.file == Some(i),
        i < n_files <= usize::MAX,
        cols >= 1,
    ensures
        i + 1 < n_files ==> navigate(st, NavKey::Down, false, n_files, n_cats, cols)
            == (NavState { file: Some((i + 1) as usize), ..st }, NavEffect::Nothing),
        i > 0 ==> navigate(st, NavKey::Up, false, n_files, n_cats, cols)
            == (NavState { file: Some((i - 1) as usize), ..st }, NavEffect::Nothing),
        i + 1 < n_files ==> navigate(navigate(st, NavKey::Down, false, n_files, n_cats, cols).0, NavKey::Up, false,
            n_files, n_cats, cols).0 == st,
        i + cols < n_files ==> navigate(st, NavKey::Down, true, n_files, n_cats, cols)
            == (NavState { file: Some((i + cols) as usize), ..st }, NavEffect::Nothing),
        i >= cols ==> navigate(st, NavKey::Up, true, n_files, n_cats, cols)
            == (NavState { file: Some((i - cols) as usize), ..st }, NavEffect::Nothing),
        i + cols < n_files ==> navigate(navigate(st, NavKey::Down, true, n_files, n_cats, cols).0, NavKey::Up, true,
            n_files, n_cats, cols).0 == st,
{
}

/// Handles one key (see `navigate`).
pub fn navigate_key(st: NavState, key: NavKey, wide: bool, n_files: usize, n_cats: usize, cols: usize) -> (r: (NavState, NavEffect))
    requires
        cols >= 1,
        st.file matches Some(f) ==> f + cols <= usize::MAX,
        key == NavKey::Up && !wide && st.focus == FocusedArea::Categories ==> st.category <= n_cats,
    ensures
        r == navigate(st, key, wide, n_files as nat, n_cats as nat, cols as nat),
{
    let cur: usize = match st.file { Some(f) => f, None => 0 };
    match key {
        NavKey::Tab => if st.focus == FocusedArea::Categories {
            let file = if st.file.is_none() && n_files > 0 { Some(0) } else { st.file };
            (NavState { focus: FocusedArea::Files, file, ..st }, NavEffect::Nothing)
        } else {
            (NavState { focus: FocusedArea::Categories, ..st }, NavEffect::Nothing)
        },
        NavKey::Up => if wide {
            if n_files > 0 {
                let new = if cur >= cols { cur - cols } else { cur };
                (NavState { file: Some(new), ..st }, NavEffect::Nothing)
            } else {
                (st, NavEffect::Nothing)
            }
        } else if st.focus == FocusedArea::Categories {
            if st.category > 0 {
                (NavState { category: st.category - 1, ..st }, NavEffect::LoadCategory(st.category - 1))
            } else {
                (st, NavEffect::Nothing)
            }
        } else if cur > 0 {
            (NavState { file: Some(cur - 1), ..st }, NavEffect::Nothing)
        } else if st.file.is_none() && n_files > 0 {
            (NavState { file: Some(0), ..st }, NavEffect::Nothing)
        } else {
            (st, NavEffect::Nothing)
        },
        NavKey::Down => if wide {
            if n_files > 0 {
                let below = cur + cols;
                let new = if below < n_files {
                    below
                } else if cur / cols < (n_files - 1) / cols {
                    n_files - 1
                } else {
                    cur
                };
                (NavState { file: Some(new), ..st }, NavEffect::Nothing)
            } else {
                (st, NavEffect::Nothing)
            }
        } else if st.focus == FocusedArea::Categories {
            if st.category < n_cats && st.category + 1 < n_cats {
                (NavState { category: st.category + 1, ..st }, NavEffect::LoadCategory(st.category + 1))
            } else {
                (st, NavEffect::Nothing)
            }
        } else if st.file.is_none() && n_files > 0 {
            (NavState { file: Some(0), ..st }, NavEffect::Nothing)
        } else if cur < n_files && cur + 1 < n_files {
            (NavState { file: Some(cur + 1), ..st }, NavEffect::Nothing)
        } else {
            (st, NavEffect::Nothing)
        },
        NavKey::Left => if wide && n_files > 0 {
            (NavState { file: Some(if cur > 0 { cur - 1 } else { 0 }), ..st }, NavEffect::Nothing)
        } else {
            (st, NavEffect::Nothing)
        },
        NavKey::Right => if wide && n_files > 0 && cur < n_files && cur + 1 < n_files {
            (NavState { file: Some(cur + 1), ..st }, NavEffect::Nothing)
        } else {
            (st, NavEffect::Nothing)
        },
        NavKey::Enter => if st.focus == FocusedArea::Categories {
            let file = if st.file.is_none() && n_files > 0 { Some(0) } else { st.file };
            (NavState { focus: FocusedArea::Files, file, ..st }, NavEffect::Nothing)
        } else {
            (st, NavEffect::OpenSelected)
        },
        NavKey::Escape => if st.focus == FocusedArea::Files {
            (NavState { focus: FocusedArea::Categories, ..st }, NavEffect::Nothing)
        } else {
            (st, NavEffect::Close)
        },
    }
}

/// Whether the selection points into the lists it selects from.
pub open spec fn selection_in_range(st: NavState, n_files: nat, n_cats: nat) -> bool {
    (st.file matches Some(f) ==> f < n_files) && (st.category < n_cats || st.category == 0)
}

/// No key moves the selection off the lists: a selection that points into
/// the categories and sheets still does after any key.
pub proof fn lemma_navigation_stays_in_range(st: NavState, key: NavKey, wide: bool, n_files: nat, n_cats: nat, cols: nat)
    requires
        cols >= 1,
        selection_in_range(st, n_files, n_cats),
    ensures
        selection_in_range(navigate(st, key, wide, n_files, n_cats, cols).0, n_files, n_cats),
        navigate(st, key, wide, n_files, n_cats, cols).1 matches NavEffect::LoadCategory(c) ==> c < n_cats,
{
    let cur = match st.file { Some(f) => f as int, None => 0 };
    if key == NavKey::Down && wide && n_files > 0 {
        assert(cur < n_files);
    }
}

/// The category Alt with the up or down arrow switches to, if any: the
/// previous or the next one.
pub fn alt_category_step(current: usize, up: bool, n_cats: usize) -> (r: Option<usize>)
    ensures
        r == (if up {
            if current > 0 { Some((current - 1) as usize) } else { None }
        } else if current + 1 < n_cats {
            Some((current + 1) as usize)
        } else {
            None
        }),
{
    if up {
        if current > 0 { Some(current - 1) } else { None }
    } else if current < n_cats && current + 1 < n_cats {
        Some(current + 1)
    } else {
        None
    }
}

} // verus!
