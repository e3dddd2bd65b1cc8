//! The list of open sheets as a whole: where a sheet opened from Drive or
//! from a local file goes, what happens to sheets when their category is
//! deleted, the queue of sync conflicts waiting for the user, and the
//! category menu of the button bar.

use vstd::prelude::*;
use crate::file_dialog::{Category, is_others};
use crate::sheet::Sheet;
use crate::tabs::{index_in, lemma_index_in, sheet_ids};
use crate::text::same_text;

verus! {

/// The first open sheet whose Drive file is `drive_id`.
pub open spec fn with_drive_file(v: Seq<Sheet>, drive_id: Seq<char>) -> Option<int>
    decreases v.len(),
{
    if v.len() == 0 {
        None
    } else if v[0].drive_id matches Some(d) && d@ == drive_id {
        Some(0)
    } else {
        match with_drive_file(v.drop_first(), drive_id) {
            Some(k) => Some(k + 1),
            None => None,
        }
    }
}

proof fn lemma_with_drive_file(v: Seq<Sheet>, drive_id: Seq<char>)
    ensures
        match with_drive_file(v, drive_id) {
            Some(k) => 0 <= k < v.len() && (v[k].drive_id matches Some(d) && d@ == drive_id)
                && forall|j: int| 0 <= j < k ==> !((#[trigger] v[j]).drive_id matches Some(d) && d@ == drive_id),
            None => forall|j: int| 0 <= j < v.len() ==> !((#[trigger] v[j]).drive_id matches Some(d) && d@ == drive_id),
        },
    decreases v.len(),
{
    if v.len() > 0 {
        let t = v.drop_first();
        lemma_with_drive_file(t, drive_id);
        assert forall|j: int| 0 < j < v.len() implies v[j] == t[j - 1] by {}
    }
}

/// Finds the open sheet whose Drive file is `drive_id`.
pub fn find_by_drive_id(v: &Vec<Sheet>, drive_id: &str) -> (r: Option<usize>)
    ensures
        match r {
            Some(k) => with_drive_file(v@, drive_id@) == Some(k as int),
            None => with_drive_file(v@, drive_id@) is None,
        },
{
    proof { lemma_with_drive_file(v@, drive_id@); }
    let mut i: usize = 0;
    while i < v.len()
        invariant
            i <= v@.len(),
            forall|j: int| 0 <= j < i ==> !((#[trigger] v@[j]).drive_id matches Some(d) && d@ == drive_id@),
        decreases v@.len() - i,
    {
        let hit = match &v[i].drive_id {
            Some(d) => same_text(d.as_str(), drive_id),
            None => false,
        };
        if hit {
            proof { lemma_with_drive_file(v@, drive_id@); }
            return Some(i);
        }
        i = i + 1;
    }
    proof { lemma_with_drive_file(v@, drive_id@); }
    None
}

/// The first open local file named `name`.
pub open spec fn local_file_named(v: Seq<Sheet>, name: Seq<char>) -> Option<int>
    decreases v.len(),
{
    if v.len() == 0 {
        None
    } else if v[0].category@ == "__LOCAL__"@ && v[0].title@ == name {
        Some(0)
    } else {
        match local_file_named(v.drop_first(), name) {
            Some(k) => Some(k + 1),
            None => None,
        }
    }
}

proof fn lemma_local_file_named(v: Seq<Sheet>, name: Seq<char>)
    ensures
        match local_file_named(v, name) {
            Some(k) => 0 <= k < v.len() && v[k].category@ == "__LOCAL__"@ && v[k].title@ == name
                && forall|j: int| 0 <= j < k ==> !((#[trigger] v[j]).category@ == "__LOCAL__"@ && v[j].title@ == name),
            None => forall|j: int| 0 <= j < v.len() ==> !((#[trigger] v[j]).category@ == "__LOCAL__"@ && v[j].title@ == name),
        },
    decreases v.len(),
{
    if v.len() > 0 {
        let t = v.drop_first();
        lemma_local_file_named(t, name);
        assert forall|j: int| 0 < j < v.len() implies v[j] == t[j - 1] by {}
    }
}

/// Finds the open local file named `name` (an import of a file already
/// open just switches to it).
pub fn find_local_file(v: &Vec<Sheet>, name: &str) -> (r: Option<usize>)
    ensures
        match r {
            Some(k) => local_file_named(v@, name@) == Some(k as int),
            None => local_file_named(v@, name@) is None,
        },
{
    proof { lemma_local_file_named(v@, name@); }
    let mut i: usize = 0;
    while i < v.len()
        invariant
            i <= v@.len(),
            forall|j: int| 0 <= j < i ==> !((#[trigger] v@[j]).category@ == "__LOCAL__"@ && v@[j].title@ == name@),
        decreases v@.len() - i,
    {
        if same_text(v[i].category.as_str(), "__LOCAL__") && same_text(v[i].title.as_str(), name) {
            proof { lemma_local_file_named(v@, name@); }
            return Some(i);
        }
        i = i + 1;
    }
    proof { lemma_local_file_named(v@, name@); }
    None
}

/// Whether the open sheets are just one untouched sheet: not on Drive and
/// empty. A sheet opened then takes its place.
pub open spec fn only_blank_sheet(v: Seq<Sheet>) -> bool {
    v.len() == 1 && v[0].drive_id is None && v[0].content@.len() == 0
}

/// Where an opened sheet goes among the open ones.
#[derive(Clone, Copy, Debug, PartialEq, Eq, Structural)]
pub enum OpenSlot {
    /// It replaces the sheet at this position (a file opened from Drive
    /// keeps that sheet's id and tab colour, see `open_drive_file`).
    Replace(usize),
    /// It is added at the end.
    Append,
}

/// Where a sheet opened from Drive (`drive_id`) or from a local file
/// (`None`) goes: in place of a lone untouched sheet; for Drive, in place
/// of the sheet already holding that file; else at the end.
pub open spec fn open_slot(v: Seq<Sheet>, drive_id: Option<Seq<char>>) -> OpenSlot {
    if only_blank_sheet(v) {
        OpenSlot::Replace(0)
    } else {
        match drive_id {
            Some(d) => match with_drive_file(v, d) {
                Some(k) => OpenSlot::Replace(k as usize),
                None => OpenSlot::Append,
            },
            None => OpenSlot::Append,
        }
    }
}

/// Decides where an opened sheet goes.
pub fn slot_for_opened(v: &Vec<Sheet>, drive_id: Option<&str>) -> (r: OpenSlot)
    ensures
        r == open_slot(v@, match drive_id {
            Some(d) => Some(d@),
            None => None,
        }),
        r matches OpenSlot::Replace(k) ==> k < v@.len(),
{
    if v.len() == 1 && v[0].drive_id.is_none() && v[0].content.as_str().unicode_len() == 0 {
        return OpenSlot::Replace(0);
    }
    match drive_id {
        Some(d) => {
            proof { lemma_with_drive_file(v@, d@); }
            match find_by_drive_id(v, d) {
                Some(k) => OpenSlot::Replace(k),
                None => OpenSlot::Append,
            }
        },
        None => OpenSlot::Append,
    }
}

/// An opened Drive file takes the place of an open sheet only when that
/// sheet holds the same file, or is the only open sheet and is empty with
/// no Drive file; a sheet with text and no Drive file is never replaced.
/// When no sheet holds the file and the open sheets are not one such empty
/// sheet, the file is added at the end. A local file goes in place of such
/// an empty sheet, and otherwise at the end.
pub proof fn lemma_open_replaces_only_same_or_blank(v: Seq<Sheet>, d: Seq<char>)
    requires
        v.len() < usize::MAX,
    ensures
        open_slot(v, Some(d)) matches OpenSlot::Replace(k) ==> 0 <= k < v.len() && (holds_file(v[k as int], d)
            || (v.len() == 1 && v[k as int].drive_id is None && v[k as int].content@.len() == 0)),
        (forall|j: int| 0 <= j < v.len() ==> !holds_file(#[trigger] v[j], d))
            && !(v.len() == 1 && v[0].drive_id is None && v[0].content@.len() == 0)
            ==> open_slot(v, Some(d)) == OpenSlot::Append,
        open_slot(v, None) == (if v.len() == 1 && v[0].drive_id is None && v[0].content@.len() == 0 {
            OpenSlot::Replace(0)
        } else {
            OpenSlot::Append
        }),
{
    lemma_with_drive_file(v, d);
}

/// Puts an opened sheet where `slot` says.
pub fn place_sheet(v: &mut Vec<Sheet>, slot: OpenSlot, s: Sheet)
    requires
        old(v)@.len() < usize::MAX,
        slot matches OpenSlot::Replace(k) ==> k < old(v)@.len(),
    ensures
        final(v)@ == (match slot {
            OpenSlot::Replace(k) => old(v)@.update(k as int, s),
            OpenSlot::Append => old(v)@.push(s),
        }),
{
    match slot {
        OpenSlot::Replace(k) => {
            v.set(k, s);
        },
        OpenSlot::Append => {
            v.push(s);
        },
    }
}

/// Whether the sheet holds the Drive file `d`.
pub open spec fn holds_file(s: Sheet, d: Seq<char>) -> bool {
    s.drive_id matches Some(x) && x@ == d
}

/// `r` is the sheet opened from the Drive file `drive_id` (titled `title`,
/// in `category`, whose download decoded to `content`, with a byte order
/// mark when `has_bom`, last changed on Drive at `sync_time`) among the
/// open sheets `v`: it keeps the id and tab colour of the sheet it
/// replaces (see `open_slot`), else takes `fresh_id` and `fresh_color`;
/// its id for Drive comes from its title (see `id_from_title`); it is
/// unmodified, sized by the text's UTF-8 length, with no local copy, split
/// view, editor state, creation time or local path.
pub open spec fn opened_from_drive(r: Sheet, v: Seq<Sheet>, drive_id: String, title: String, category: String,
    content: String, has_bom: bool, sync_time: Option<u64>, fresh_id: String, fresh_color: String) -> bool
{
    &&& match open_slot(v, Some(drive_id@)) {
        OpenSlot::Replace(k) => r.id == v[k as int].id && r.tab_color == v[k as int].tab_color,
        OpenSlot::Append => r.id == fresh_id && r.tab_color == fresh_color,
    }
    &&& r.guid matches Some(g) && g@ == crate::sheet::id_from_title(title@)
    &&& r.category == category
    &&& r.title == title
    &&& r.content == content
    &&& !r.is_modified
    &&& r.drive_id == Some(drive_id)
    &&& r.temp_content is None
    &&& r.temp_timestamp is None
    &&& r.last_sync_timestamp == sync_time
    &&& r.total_size as int == vstd::utf8::encode_utf8(content@).len()
    &&& r.loaded_bytes == r.total_size
    &&& r.needs_bom == has_bom
    &&& !r.is_preview
    &&& !r.is_split
    &&& r.editor_state is None
    &&& r.created_at is None
    &&& r.local_path is None
}

/// `w` is `v` with a sheet put at `k` as `slot` says, the others unchanged.
pub open spec fn placed_at(v: Seq<Sheet>, w: Seq<Sheet>, k: int, slot: OpenSlot) -> bool {
    match slot {
        OpenSlot::Replace(j) => k == j && 0 <= k < v.len() && w == v.update(k, w[k]),
        OpenSlot::Append => k == v.len() && w == v.push(w[k]),
    }
}

/// Opens the Drive file `drive_id` among the open sheets: builds its sheet
/// (see `opened_from_drive`) and puts it where `open_slot` says. Returns
/// where it stands; that sheet becomes active.
pub fn open_drive_file(v: &mut Vec<Sheet>, drive_id: String, title: String, category: String, content: String,
    has_bom: bool, sync_time: Option<u64>, fresh_id: String, fresh_color: String) -> (k: usize)
    requires
        old(v)@.len() < usize::MAX,
        vstd::utf8::encode_utf8(content@).len() <= usize::MAX,
    ensures
        placed_at(old(v)@, final(v)@, k as int, open_slot(old(v)@, Some(drive_id@))),
        opened_from_drive(final(v)@[k as int], old(v)@, drive_id, title, category, content, has_bom, sync_time,
            fresh_id, fresh_color),
{
    let slot = slot_for_opened(v, Some(drive_id.as_str()));
    let (id, tab_color) = match slot {
        OpenSlot::Replace(j) => (v[j].id.clone(), v[j].tab_color.clone()),
        OpenSlot::Append => (fresh_id, fresh_color),
    };
    let guid = crate::sheet::id_from_drive_title(title.as_str());
    let size = content.as_str().len() as u64;
    let s = Sheet {
        id,
        guid: Some(guid),
        category,
        title,
        content,
        is_modified: false,
        drive_id: Some(drive_id),
        temp_content: None,
        temp_timestamp: None,
        last_sync_timestamp: sync_time,
        tab_color,
        total_size: size,
        loaded_bytes: size,
        needs_bom: has_bom,
        is_preview: false,
        is_split: false,
        editor_state: None,
        created_at: None,
        local_path: None,
    };
    let ghost before = v@;
    let k = match slot {
        OpenSlot::Replace(j) => j,
        OpenSlot::Append => v.len(),
    };
    place_sheet(v, slot, s);
    proof {
        assert(v@[k as int] == s);
        assert(v@ =~= match slot {
            OpenSlot::Replace(j) => before.update(j as int, v@[k as int]),
            OpenSlot::Append => before.push(v@[k as int]),
        });
    }
    k
}

/// Opening a Drive file leaves exactly one open sheet holding it, the
/// opened one, when at most one held it before; every other sheet stays
/// as it was.
pub proof fn lemma_one_sheet_per_drive_file(v: Seq<Sheet>, w: Seq<Sheet>, k: int, d: Seq<char>)
    requires
        v.len() < usize::MAX,
        forall|i: int, j: int| 0 <= i < v.len() && 0 <= j < v.len() && holds_file(v[i], d) && holds_file(v[j], d) ==> i == j,
        placed_at(v, w, k, open_slot(v, Some(d))),
        holds_file(w[k], d),
    ensures
        forall|j: int| 0 <= j < w.len() ==> (holds_file(#[trigger] w[j], d) <==> j == k),
        forall|j: int| 0 <= j < v.len() && j != k ==> #[trigger] w[j] == v[j],
{
    lemma_with_drive_file(v, d);
    assert forall|j: int| 0 <= j < w.len() implies (holds_file(#[trigger] w[j], d) <==> j == k) by {
        if j != k {
            assert(w[j] == v[j]);
            if only_blank_sheet(v) {
            } else {
                match with_drive_file(v, d) {
                    Some(m) => {
                        assert(holds_file(v[m], d));
                        if holds_file(v[j], d) {
                            assert(j == m);
                        }
                    },
                    None => {
                        assert(!holds_file(v[j], d));
                    },
                }
            }
        }
    }
}

/// The sheets after the category `from` was deleted: those in it now
/// belong to `to`, the others are unchanged.
pub open spec fn moved_category(v: Seq<Sheet>, from: Seq<char>, to: String) -> Seq<Sheet> {
    Seq::new(v.len(), |i: int| if v[i].category@ == from { Sheet { category: to, ..v[i] } } else { v[i] })
}

/// Moves the sheets of a deleted category to the catch-all folder; says
/// whether any moved.
pub fn move_category_sheets(v: &mut Vec<Sheet>, from: &str, to: &String) -> (changed: bool)
    ensures
        final(v)@ == moved_category(old(v)@, from@, *to),
        changed == exists|i: int| 0 <= i < old(v)@.len() && (#[trigger] old(v)@[i]).category@ == from@,
{
    let ghost orig = v@;
    let mut changed = false;
    let mut i: usize = 0;
    while i < v.len()
        invariant
            v@.len() == orig.len(),
            i <= v@.len(),
            forall|j: int| 0 <= j < i ==> #[trigger] v@[j] == moved_category(orig, from@, *to)[j],
            forall|j: int| i <= j < v@.len() ==> #[trigger] v@[j] == orig[j],
            changed ==> exists|j: int| 0 <= j < i && (#[trigger] orig[j]).category@ == from@,
            !changed ==> forall|j: int| 0 <= j < i ==> (#[trigger] orig[j]).category@ != from@,
        decreases v@.len() - i,
    {
        if same_text(v[i].category.as_str(), from) {
            let ghost before = v@;
            let mut s = v.remove(i);
            s.category = to.clone();
            v.insert(i, s);
            assert(v@ =~= before.update(i as int, moved_category(orig, from@, *to)[i as int]));
            changed = true;
        }
        i = i + 1;
    }
    assert(v@ =~= moved_category(orig, from@, *to));
    changed
}

/// Once a category is deleted no open sheet belongs to it any more (when
/// the sheets move to a different category).
pub proof fn lemma_deleted_category_empty(v: Seq<Sheet>, from: Seq<char>, to: String)
    requires
        to@ != from,
    ensures
        forall|i: int| 0 <= i < v.len() ==> (#[trigger] moved_category(v, from, to)[i]).category@ != from,
        moved_category(v, from, to).len() == v.len(),
{
}

/// A sync conflict waiting for the user.
pub struct ConflictData {
    pub sheet_id: String,
    pub title: String,
    pub drive_id: String,
    pub local_content: String,
    pub drive_time: u64,
    pub time_str: String,
    pub is_missing_on_drive: bool,
}

/// The sheet ids of a conflict queue.
pub open spec fn conflict_ids(q: Seq<ConflictData>) -> Seq<Seq<char>> {
    q.map_values(|c: ConflictData| c.sheet_id@)
}

/// Adds a conflict to the queue unless one for the same sheet waits
/// already.
pub fn enqueue_conflict(q: &mut Vec<ConflictData>, c: ConflictData)
    requires
        old(q)@.len() < usize::MAX,
    ensures
        conflict_ids(old(q)@).contains(c.sheet_id@) ==> final(q)@ == old(q)@,
        !conflict_ids(old(q)@).contains(c.sheet_id@) ==> final(q)@ == old(q)@.push(c),
{
    let ghost ids = conflict_ids(q@);
    let mut i: usize = 0;
    while i < q.len()
        invariant
            i <= q@.len(),
            ids == conflict_ids(q@),
            forall|j: int| 0 <= j < i ==> ids[j] != c.sheet_id@,
        decreases q@.len() - i,
    {
        assert(ids[i as int] == q@[i as int].sheet_id@);
        if same_text(q[i].sheet_id.as_str(), c.sheet_id.as_str()) {
            return;
        }
        i = i + 1;
    }
    proof {
        if ids.contains(c.sheet_id@) {
            let j = choose|j: int| 0 <= j < ids.len() && ids[j] == c.sheet_id@;
        }
    }
    q.push(c);
}

/// No sheet waits twice in the conflict queue: adding keeps the ids
/// distinct.
pub proof fn lemma_conflict_queue_distinct(q: Seq<ConflictData>, c: ConflictData, after: Seq<ConflictData>)
    requires
        conflict_ids(q).no_duplicates(),
        conflict_ids(q).contains(c.sheet_id@) ==> after == q,
        !conflict_ids(q).contains(c.sheet_id@) ==> after == q.push(c),
    ensures
        conflict_ids(after).no_duplicates(),
{
    if !conflict_ids(q).contains(c.sheet_id@) {
        assert(conflict_ids(after) =~= conflict_ids(q).push(c.sheet_id@));
        assert forall|i: int, j: int| 0 <= i < j < conflict_ids(after).len() implies conflict_ids(after)[i] != conflict_ids(after)[j] by {
            if j == q.len() {
                assert(conflict_ids(q)[i] == conflict_ids(after)[i]);
            }
        }
    }
}

/// The category menu of the button bar lists the catch-all first and the
/// other categories in their order (a stable partition).
pub open spec fn others_first(v: Seq<Category>) -> Seq<Category> {
    v.filter(|c: Category| is_others(c)) + v.filter(|c: Category| !is_others(c))
}

/// Builds the button bar's category menu order.
pub fn menu_categories(v: Vec<Category>) -> (r: Vec<Category>)
    ensures
        r@ == others_first(v@),
{
    let ghost orig = v@;
    let mut rest = v;
    let mut firsts: Vec<Category> = Vec::new();
    let mut lasts: Vec<Category> = Vec::new();
    let ghost mut i: int = 0;
    assert(orig.take(0) =~= Seq::<Category>::empty());
    assert(orig.skip(0) =~= orig);
    while rest.len() > 0
        invariant
            0 <= i <= orig.len(),
            rest@ == orig.skip(i),
            firsts@ == orig.take(i).filter(|c: Category| is_others(c)),
            lasts@ == orig.take(i).filter(|c: Category| !is_others(c)),
        decreases rest.len(),
    {
        let c = rest.remove(0);
        assert(c == orig[i]);
        proof {
            reveal(Seq::filter);
            assert(orig.take(i + 1).drop_last() =~= orig.take(i));
            assert(orig.take(i + 1).last() == c);
        }
        if same_text(c.name.as_str(), "OTHERS") {
            firsts.push(c);
        } else {
            lasts.push(c);
        }
        proof {
            i = i + 1;
        }
        assert(rest@ =~= orig.skip(i));
    }
    assert(orig.take(i) =~= orig);
    firsts.append(&mut lasts);
    firsts
}

/// Whether the category button opens its menu: with more than one
/// category, or for a sheet without category or a local file.
pub fn category_menu_enabled(n_categories: usize, current: &str) -> (r: bool)
    ensures
        r == (n_categories > 1 || current@.len() == 0 || current@ == "__LOCAL__"@),
{
    n_categories > 1 || current.unicode_len() == 0 || same_text(current, "__LOCAL__")
}

/// What the category button shows.
pub enum CategoryLabel {
    /// A new sheet without category.
    NoCategory,
    /// A local file.
    LocalFile,
    /// The catch-all (also for a category no longer known).
    Others,
    /// A named category.
    Named(String),
}

/// The first category with the given id.
pub open spec fn category_by_id(v: Seq<Category>, id: Seq<char>) -> Option<int> {
    crate::file_dialog::category_with_id(v, id)
}

/// Decides what the category button shows for the active sheet's category.
pub fn category_label(current: &str, is_new_sheet: bool, cats: &Vec<Category>) -> (r: CategoryLabel)
    ensures
        current@.len() == 0 ==> (if is_new_sheet { r is NoCategory } else { r is LocalFile }),
        current@.len() > 0 && current@ == "__LOCAL__"@ ==> r is LocalFile,
        current@.len() > 0 && current@ != "__LOCAL__"@ ==> match category_by_id(cats@, current@) {
            Some(k) => if is_others(cats@[k]) { r is Others } else { r matches CategoryLabel::Named(n) && n@ == cats@[k].name@ },
            None => r is Others,
        },
{
    if current.unicode_len() == 0 {
        return if is_new_sheet { CategoryLabel::NoCategory } else { CategoryLabel::LocalFile };
    }
    if same_text(current, "__LOCAL__") {
        return CategoryLabel::LocalFile;
    }
    match crate::file_dialog::find_category_index(cats, current) {
        Some(k) => {
            if same_text(cats[k].name.as_str(), "OTHERS") {
                CategoryLabel::Others
            } else {
                CategoryLabel::Named(cats[k].name.clone())
            }
        },
        None => CategoryLabel::Others,
    }
}


/// The sheet a conflict check looks at: the active sheet, when it is open
/// and has a Drive copy; none otherwise (a local sheet needs no check).
pub fn sheet_to_check(v: &Vec<Sheet>, active: Option<&str>) -> (r: Option<usize>)
    ensures
        match active {
            Some(a) => match index_in(sheet_ids(v@), a@) {
                Some(k) => if v@[k].drive_id is Some { r == Some(k as usize) } else { r is None },
                None => r is None,
            },
            None => r is None,
        },
        r matches Some(k) ==> k < v@.len(),
{
    match active {
        Some(a) => {
            proof { lemma_index_in(sheet_ids(v@), a@); }
            match crate::tabs::find_sheet_index(v, a) {
                Some(k) => if v[k].drive_id.is_some() { Some(k) } else { None },
                None => None,
            }
        },
        None => None,
    }
}

/// The ids of the sheets of `v` flagged in `gone`, in order.
pub open spec fn flagged_ids(v: Seq<Sheet>, gone: Seq<bool>) -> Seq<Seq<char>>
    decreases v.len(),
{
    if v.len() == 0 || gone.len() == 0 {
        Seq::empty()
    } else {
        let rest = flagged_ids(v.drop_first(), gone.drop_first());
        if gone[0] { seq![v[0].id@].add(rest) } else { rest }
    }
}

/// `v` without the first sheet whose id is `id` (unchanged when none has it).
pub open spec fn without_first(v: Seq<Sheet>, id: Seq<char>) -> Seq<Sheet> {
    match index_in(sheet_ids(v), id) {
        Some(k) => v.remove(k),
        None => v,
    }
}

/// `v` after the first sheet with each id of `ids` is removed, one id
/// after the other.
pub open spec fn without_each(v: Seq<Sheet>, ids: Seq<Seq<char>>) -> Seq<Sheet>
    decreases ids.len(),
{
    if ids.len() == 0 {
        v
    } else {
        without_each(without_first(v, ids[0]), ids.drop_first())
    }
}

/// The sheets of `v` not flagged in `gone`, in order.
pub open spec fn kept(v: Seq<Sheet>, gone: Seq<bool>) -> Seq<Sheet>
    decreases v.len(),
{
    if v.len() == 0 || gone.len() == 0 {
        v
    } else {
        let rest = kept(v.drop_first(), gone.drop_first());
        if gone[0] { rest } else { seq![v[0]].add(rest) }
    }
}

proof fn lemma_flagged_are_ids(v: Seq<Sheet>, gone: Seq<bool>)
    ensures
        forall|j: int| 0 <= j < flagged_ids(v, gone).len() ==> sheet_ids(v).contains(#[trigger] flagged_ids(v, gone)[j]),
    decreases v.len(),
{
    if v.len() > 0 && gone.len() > 0 {
        let t = v.drop_first();
        lemma_flagged_are_ids(t, gone.drop_first());
        let rest = flagged_ids(t, gone.drop_first());
        assert forall|j: int| 0 <= j < flagged_ids(v, gone).len() implies sheet_ids(v).contains(#[trigger] flagged_ids(v, gone)[j]) by {
            if gone[0] {
                if j == 0 {
                    assert(sheet_ids(v)[0] == v[0].id@);
                } else {
                    assert(flagged_ids(v, gone)[j] == rest[j - 1]);
                    let m = choose|m: int| 0 <= m < sheet_ids(t).len() && sheet_ids(t)[m] == rest[j - 1];
                    assert(sheet_ids(v)[m + 1] == sheet_ids(t)[m]);
                }
            } else {
                let m = choose|m: int| 0 <= m < sheet_ids(t).len() && sheet_ids(t)[m] == rest[j];
                assert(sheet_ids(v)[m + 1] == sheet_ids(t)[m]);
            }
        }
    }
}

fn remove_first_with_id(v: &mut Vec<Sheet>, id: &str) -> (found: bool)
    ensures
        final(v)@ == without_first(old(v)@, id@),
        found == (index_in(sheet_ids(old(v)@), id@) is Some),
{
    proof { lemma_index_in(sheet_ids(v@), id@); }
    let mut i: usize = 0;
    while i < v.len()
        invariant
            i <= v@.len(),
            v@ == old(v)@,
            forall|j: int| 0 <= j < i ==> sheet_ids(v@)[j] != id@,
        decreases v@.len() - i,
    {
        if same_text(v[i].id.as_str(), id) {
            proof {
                lemma_index_in(sheet_ids(v@), id@);
                if index_in(sheet_ids(v@), id@) != Some(i as int) {
                    assert(sheet_ids(v@)[i as int] == id@);
                }
            }
            v.remove(i);
            return true;
        }
        i = i + 1;
    }
    proof {
        assert(!sheet_ids(v@).contains(id@)) by {
            if sheet_ids(v@).contains(id@) {
                let j = choose|j: int| 0 <= j < sheet_ids(v@).len() && sheet_ids(v@)[j] == id@;
                assert(sheet_ids(v@)[j] != id@);
            }
        }
    }
    false
}

/// Drops the sheets whose Drive file is gone (`gone[i]` for `v[i]`, as the
/// Drive lookups answered): the ids of the flagged sheets are collected,
/// then the first sheet with each of them is removed. Says whether any was
/// dropped.
pub fn drop_gone_sheets(v: &mut Vec<Sheet>, gone: &Vec<bool>) -> (dropped: bool)
    requires
        gone@.len() == old(v)@.len(),
    ensures
        final(v)@ == without_each(old(v)@, flagged_ids(old(v)@, gone@)),
        dropped == (flagged_ids(old(v)@, gone@).len() > 0),
{
    let ghost orig = v@;
    let mut q: Vec<String> = Vec::new();
    let mut i: usize = v.len();
    proof {
        assert(orig.skip(orig.len() as int) =~= Seq::<Sheet>::empty());
        assert(gone@.skip(orig.len() as int) =~= Seq::<bool>::empty());
    }
    while i > 0
        invariant
            i <= orig.len(),
            v@ == orig,
            gone@.len() == orig.len(),
            q@.map_values(|x: String| x@) == flagged_ids(orig.skip(i as int), gone@.skip(i as int)),
        decreases i,
    {
        i = i - 1;
        proof {
            assert(orig.skip(i as int).drop_first() =~= orig.skip(i + 1));
            assert(gone@.skip(i as int).drop_first() =~= gone@.skip(i + 1));
        }
        if gone[i] {
            let ghost before = q@;
            q.insert(0, v[i].id.clone());
            proof {
                assert(q@.map_values(|x: String| x@) =~= seq![orig[i as int].id@].add(before.map_values(|x: String| x@)));
            }
        }
    }
    proof {
        assert(orig.skip(0) =~= orig);
        assert(gone@.skip(0) =~= gone@);
    }
    let ghost ids = q@.map_values(|x: String| x@);
    proof {
        assert(ids.skip(0) =~= ids);
        lemma_flagged_are_ids(orig, gone@);
        lemma_index_in(sheet_ids(orig), ids[0]);
    }
    let mut dropped = false;
    let mut k: usize = 0;
    let ghost first_found = false;
    while k < q.len()
        invariant
            k <= q@.len(),
            ids == q@.map_values(|x: String| x@),
            without_each(orig, ids) == without_each(v@, ids.skip(k as int)),
            k == 0 ==> v@ == orig && !dropped,
            k > 0 ==> dropped,
            ids.len() > 0 ==> index_in(sheet_ids(orig), ids[0]) is Some,
        decreases q@.len() - k,
    {
        let ghost before = v@;
        let found = remove_first_with_id(v, q[k].as_str());
        proof {
            assert(ids.skip(k as int)[0] == ids[k as int]);
            assert(ids.skip(k as int).drop_first() =~= ids.skip(k + 1));
        }
        if found {
            dropped = true;
        } else if k == 0 {
            proof { assert(false); }
        }
        k = k + 1;
    }
    proof {
        assert(ids.skip(q@.len() as int) =~= Seq::<Seq<char>>::empty());
    }
    dropped
}

proof fn lemma_without_first_past(x: Sheet, t: Seq<Sheet>, id: Seq<char>)
    requires
        x.id@ != id,
    ensures
        without_first(seq![x].add(t), id) == seq![x].add(without_first(t, id)),
{
    let v = seq![x].add(t);
    assert(sheet_ids(v).drop_first() =~= sheet_ids(t));
    assert(sheet_ids(v)[0] == x.id@);
    match index_in(sheet_ids(t), id) {
        Some(k) => {
            lemma_index_in(sheet_ids(t), id);
            assert(v.remove(k + 1) =~= seq![x].add(t.remove(k)));
        },
        None => {},
    }
}

proof fn lemma_without_each_past(x: Sheet, t: Seq<Sheet>, q: Seq<Seq<char>>)
    requires
        forall|j: int| 0 <= j < q.len() ==> q[j] != x.id@,
    ensures
        without_each(seq![x].add(t), q) == seq![x].add(without_each(t, q)),
    decreases q.len(),
{
    if q.len() > 0 {
        lemma_without_first_past(x, t, q[0]);
        lemma_without_each_past(x, without_first(t, q[0]), q.drop_first());
    }
}

/// With distinct ids, dropping the flagged sheets keeps exactly the others,
/// in their order.
pub proof fn lemma_drop_keeps_the_rest(v: Seq<Sheet>, gone: Seq<bool>)
    requires
        gone.len() == v.len(),
        sheet_ids(v).no_duplicates(),
    ensures
        without_each(v, flagged_ids(v, gone)) == kept(v, gone),
    decreases v.len(),
{
    if v.len() > 0 {
        let x = v[0];
        let t = v.drop_first();
        let g = gone.drop_first();
        assert(v =~= seq![x].add(t));
        assert(sheet_ids(t) =~= sheet_ids(v).drop_first());
        lemma_drop_keeps_the_rest(t, g);
        let rest = flagged_ids(t, g);
        if gone[0] {
            assert(sheet_ids(v)[0] == x.id@);
            assert(flagged_ids(v, gone)[0] == x.id@);
            assert(flagged_ids(v, gone).drop_first() =~= rest);
            assert(without_first(v, x.id@) =~= t);
        } else {
            lemma_flagged_are_ids(t, g);
            assert forall|j: int| 0 <= j < rest.len() implies rest[j] != x.id@ by {
                assert(sheet_ids(t).contains(rest[j]));
                let m = choose|m: int| 0 <= m < sheet_ids(t).len() && sheet_ids(t)[m] == rest[j];
                assert(sheet_ids(v)[m + 1] == rest[j]);
                assert(sheet_ids(v)[0] == x.id@);
            }
            lemma_without_each_past(x, t, rest);
        }
    }
}

/// What becomes active once sheets were dropped from the list.
pub enum AfterDrop {
    /// The list is empty: a fresh sheet is opened and made active.
    OpenFresh,
    /// The last sheet of the list becomes active.
    Activate(String),
    /// Nothing was dropped: the active sheet stays.
    Keep,
}

/// Decides what becomes active after sheets were dropped (`dropped` says
/// whether any was): a fresh sheet for an empty list, else the last sheet
/// when some were dropped, else no change.
pub fn after_drop(v: &Vec<Sheet>, dropped: bool) -> (r: AfterDrop)
    ensures
        v@.len() == 0 ==> r is OpenFresh,
        v@.len() > 0 && dropped ==> (r matches AfterDrop::Activate(id) && id@ == v@.last().id@),
        v@.len() > 0 && !dropped ==> r is Keep,
{
    if v.len() == 0 {
        AfterDrop::OpenFresh
    } else if dropped {
        AfterDrop::Activate(v[v.len() - 1].id.clone())
    } else {
        AfterDrop::Keep
    }
}

} // verus!
