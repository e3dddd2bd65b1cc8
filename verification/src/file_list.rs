//! The sheet list of the file dialog: how it is sorted, how the dialog's
//! list state changes, and how the keyboard moves the selection.

use vstd::prelude::*;
use crate::text::{decimal, u64_to_decimal, compare_text, last_segment, last_segment_of, parse_u64, parse_u64_spec, same_text, lemma_lex_order_antisym, lemma_lex_order_trans, lex_order, lowercase, to_lowercase};

verus! {

broadcast use {vstd::seq_lib::to_multiset_build, vstd::seq_lib::to_multiset_insert};

/// One sheet as the file dialog lists it. The two times are milliseconds
/// since the epoch; they order the list.
pub struct FilePreview {
    pub id: String,
    pub name: String,
    pub content: String,
    pub total_size: u64,
    pub loaded_bytes: u64,
    pub is_markdown: bool,
    pub lang: String,
    pub is_loaded: bool,
    pub modified_time: i64,
    pub created_time: i64,
}

/// Which time orders the list.
#[derive(Clone, Copy, Debug, PartialEq, Eq, Structural)]
pub enum SortKey {
    Modified,
    Created,
}

pub open spec fn sort_time(f: FilePreview, key: SortKey) -> i64 {
    match key {
        SortKey::Modified => f.modified_time,
        SortKey::Created => f.created_time,
    }
}

/// Ascending comparison of two sheets: by the chosen time, then by the
/// lower-cased name.
pub open spec fn file_order(a: FilePreview, b: FilePreview, key: SortKey) -> int {
    let ta = sort_time(a, key);
    let tb = sort_time(b, key);
    if ta < tb {
        -1
    } else if ta > tb {
        1
    } else {
        lex_order(lowercase(a.name@), lowercase(b.name@))
    }
}

/// Whether `a` goes strictly before `b`; `desc` reverses the order.
pub open spec fn sorts_before(a: FilePreview, b: FilePreview, key: SortKey, desc: bool) -> bool {
    if desc {
        file_order(a, b, key) > 0
    } else {
        file_order(a, b, key) < 0
    }
}

/// Places `x` into `s` after every element that does not go after it.
pub open spec fn insert_sorted(s: Seq<FilePreview>, x: FilePreview, key: SortKey, desc: bool) -> Seq<FilePreview>
    decreases s.len(),
{
    if s.len() == 0 {
        seq![x]
    } else if sorts_before(x, s.last(), key, desc) {
        insert_sorted(s.drop_last(), x, key, desc).push(s.last())
    } else {
        s.push(x)
    }
}

/// The list in the order the dialog shows it: a stable sort, so sheets that
/// compare equal keep their relative order.
pub open spec fn sorted_files(s: Seq<FilePreview>, key: SortKey, desc: bool) -> Seq<FilePreview>
    decreases s.len(),
{
    if s.len() == 0 {
        s
    } else {
        insert_sorted(sorted_files(s.drop_last(), key, desc), s.last(), key, desc)
    }
}

proof fn lemma_insert_sorted_at(s: Seq<FilePreview>, x: FilePreview, key: SortKey, desc: bool, p: int)
    requires
        0 <= p <= s.len(),
        forall|k: int| p <= k < s.len() ==> sorts_before(x, #[trigger] s[k], key, desc),
        p == 0 || !sorts_before(x, s[p - 1], key, desc),
    ensures
        insert_sorted(s, x, key, desc) == s.take(p).push(x) + s.skip(p),
    decreases s.len(),
{
    if p == s.len() {
        assert(s.skip(p) =~= Seq::<FilePreview>::empty());
        assert(s.take(p) =~= s);
        if s.len() == 0 {
            assert(insert_sorted(s, x, key, desc) =~= s.take(p).push(x) + s.skip(p));
        } else {
            assert(insert_sorted(s, x, key, desc) =~= s.take(p).push(x) + s.skip(p));
        }
    } else {
        let t = s.drop_last();
        assert(sorts_before(x, s[s.len() - 1], key, desc));
        assert forall|k: int| p <= k < t.len() implies sorts_before(x, #[trigger] t[k], key, desc) by {
            assert(t[k] == s[k]);
        }
        lemma_insert_sorted_at(t, x, key, desc, p);
        assert(t.take(p) =~= s.take(p));
        assert(insert_sorted(s, x, key, desc) =~= s.take(p).push(x) + s.skip(p));
    }
}

/// Whether no sheet of `r` goes strictly before one that comes earlier.
pub open spec fn in_order(r: Seq<FilePreview>, key: SortKey, desc: bool) -> bool {
    forall|i: int, j: int| 0 <= i < j < r.len() ==> !sorts_before(#[trigger] r[j], #[trigger] r[i], key, desc)
}

proof fn lemma_file_order_antisym(a: FilePreview, b: FilePreview, key: SortKey)
    ensures
        file_order(a, b, key) == -file_order(b, a, key),
{
    lemma_lex_order_antisym(lowercase(a.name@), lowercase(b.name@));
}

proof fn lemma_file_order_le_trans(a: FilePreview, b: FilePreview, c: FilePreview, key: SortKey)
    requires
        file_order(a, b, key) <= 0,
        file_order(b, c, key) <= 0,
    ensures
        file_order(a, c, key) <= 0,
{
    let (la, lb, lc) = (lowercase(a.name@), lowercase(b.name@), lowercase(c.name@));
    lemma_lex_order_antisym(la, lb);
    lemma_lex_order_antisym(lb, lc);
    lemma_lex_order_antisym(la, lc);
    if sort_time(a, key) == sort_time(b, key) && sort_time(b, key) == sort_time(c, key) {
        if lex_order(la, lb) < 0 && lex_order(lb, lc) < 0 {
            lemma_lex_order_trans(la, lb, lc);
        }
    }
}

/// `before` is a strict weak order: asymmetric, and "not before" is transitive.
proof fn lemma_sorts_before_order(x: FilePreview, y: FilePreview, z: FilePreview, key: SortKey, desc: bool)
    ensures
        sorts_before(x, y, key, desc) ==> !sorts_before(y, x, key, desc),
        !sorts_before(x, y, key, desc) && !sorts_before(y, z, key, desc) ==> !sorts_before(x, z, key, desc),
{
    lemma_file_order_antisym(x, y, key);
    lemma_file_order_antisym(y, z, key);
    lemma_file_order_antisym(x, z, key);
    if !sorts_before(x, y, key, desc) && !sorts_before(y, z, key, desc) {
        if desc {
            lemma_file_order_le_trans(x, y, z, key);
        } else {
            lemma_file_order_le_trans(z, y, x, key);
        }
    }
}

proof fn lemma_filter_push(s: Seq<FilePreview>, x: FilePreview, p: spec_fn(FilePreview) -> bool)
    ensures
        s.push(x).filter(p) == (if p(x) { s.filter(p).push(x) } else { s.filter(p) }),
{
    reveal(Seq::filter);
    assert(s.push(x).drop_last() =~= s);
}

/// Sheets that compare equal with one sheet compare equal with each other.
proof fn lemma_equal_rank(x: FilePreview, y: FilePreview, e: FilePreview, key: SortKey)
    requires
        file_order(x, e, key) == 0,
        file_order(y, e, key) == 0,
    ensures
        file_order(x, y, key) == 0,
{
    lemma_file_order_antisym(x, e, key);
    lemma_file_order_antisym(y, e, key);
    lemma_file_order_antisym(x, y, key);
    lemma_file_order_le_trans(x, e, y, key);
    lemma_file_order_le_trans(y, e, x, key);
}

proof fn lemma_insert_sorted_ties(r: Seq<FilePreview>, x: FilePreview, key: SortKey, desc: bool, e: FilePreview)
    ensures
        insert_sorted(r, x, key, desc).filter(|y: FilePreview| file_order(y, e, key) == 0)
            == (if file_order(x, e, key) == 0 {
                r.filter(|y: FilePreview| file_order(y, e, key) == 0).push(x)
            } else {
                r.filter(|y: FilePreview| file_order(y, e, key) == 0)
            }),
    decreases r.len(),
{
    let p = |y: FilePreview| file_order(y, e, key) == 0;
    if r.len() == 0 {
        lemma_filter_push(r, x, p);
        assert(seq![x] =~= r.push(x));
    } else {
        let t = r.drop_last();
        let last = r.last();
        assert(r =~= t.push(last));
        lemma_filter_push(t, last, p);
        if sorts_before(x, last, key, desc) {
            lemma_insert_sorted_ties(t, x, key, desc, e);
            lemma_filter_push(insert_sorted(t, x, key, desc), last, p);
            if file_order(x, e, key) == 0 && file_order(last, e, key) == 0 {
                lemma_equal_rank(x, last, e, key);
            }
        } else {
            lemma_filter_push(r, x, p);
        }
    }
}

/// The sort is stable: the sheets that compare equal with any one sheet
/// (same time, same lower-cased name) come out in the order they went in.
pub proof fn lemma_sort_is_stable(s: Seq<FilePreview>, key: SortKey, desc: bool, e: FilePreview)
    ensures
        sorted_files(s, key, desc).filter(|y: FilePreview| file_order(y, e, key) == 0)
            == s.filter(|y: FilePreview| file_order(y, e, key) == 0),
    decreases s.len(),
{
    if s.len() > 0 {
        let t = s.drop_last();
        lemma_sort_is_stable(t, key, desc, e);
        lemma_insert_sorted_ties(sorted_files(t, key, desc), s.last(), key, desc, e);
        assert(s =~= t.push(s.last()));
        lemma_filter_push(t, s.last(), |y: FilePreview| file_order(y, e, key) == 0);
    }
}

proof fn lemma_insert_sorted(s: Seq<FilePreview>, x: FilePreview, key: SortKey, desc: bool)
    ensures
        insert_sorted(s, x, key, desc).to_multiset() =~= s.to_multiset().insert(x),
        insert_sorted(s, x, key, desc).len() == s.len() + 1,
        in_order(s, key, desc) ==> in_order(insert_sorted(s, x, key, desc), key, desc),
    decreases s.len(),
{
    broadcast use vstd::seq_lib::to_multiset_contains;
    let r = insert_sorted(s, x, key, desc);
    if s.len() == 0 {
        assert(seq![x] =~= Seq::<FilePreview>::empty().push(x));
        assert(Seq::<FilePreview>::empty().to_multiset() =~= vstd::multiset::Multiset::<FilePreview>::empty());
    } else {
        let t = s.drop_last();
        let last = s.last();
        assert(s =~= t.push(last));
        if sorts_before(x, last, key, desc) {
            lemma_insert_sorted(t, x, key, desc);
            let r1 = insert_sorted(t, x, key, desc);
            assert(r == r1.push(last));
            if in_order(s, key, desc) {
                assert(in_order(t, key, desc)) by {
                    assert forall|i: int, j: int| 0 <= i < j < t.len() implies !sorts_before(#[trigger] t[j], #[trigger] t[i], key, desc) by {
                        assert(t[j] == s[j] && t[i] == s[i]);
                    }
                }
                assert forall|i: int, j: int| 0 <= i < j < r.len() implies !sorts_before(#[trigger] r[j], #[trigger] r[i], key, desc) by {
                    if j < r1.len() {
                        assert(r[j] == r1[j] && r[i] == r1[i]);
                    } else {
                        let e = r1[i];
                        assert(r[i] == e);
                        assert(r1.contains(e));
                        assert(r1.to_multiset().count(e) > 0);
                        if e == x {
                            lemma_sorts_before_order(x, last, x, key, desc);
                        } else {
                            assert(t.to_multiset().count(e) > 0);
                            assert(t.contains(e));
                            let k = choose|k: int| 0 <= k < t.len() && t[k] == e;
                            assert(s[k] == e);
                            assert(!sorts_before(s[s.len() - 1], s[k], key, desc));
                        }
                    }
                }
            }
        } else {
            assert(r == s.push(x));
            if in_order(s, key, desc) {
                assert forall|i: int, j: int| 0 <= i < j < r.len() implies !sorts_before(#[trigger] r[j], #[trigger] r[i], key, desc) by {
                    if j < s.len() {
                        assert(r[j] == s[j] && r[i] == s[i]);
                    } else {
                        assert(r[j] == x && r[i] == s[i]);
                        if i < s.len() - 1 {
                            assert(!sorts_before(s[s.len() - 1], s[i], key, desc));
                            lemma_sorts_before_order(x, last, s[i], key, desc);
                        }
                    }
                }
            }
        }
    }
}

/// Sorting the dialog's list keeps exactly the sheets it had, and leaves no
/// sheet after one that it goes before.
pub proof fn lemma_sorted_files(s: Seq<FilePreview>, key: SortKey, desc: bool)
    ensures
        sorted_files(s, key, desc).to_multiset() =~= s.to_multiset(),
        sorted_files(s, key, desc).len() == s.len(),
        in_order(sorted_files(s, key, desc), key, desc),
    decreases s.len(),
{
    if s.len() == 0 {
    } else {
        let t = s.drop_last();
        lemma_sorted_files(t, key, desc);
        lemma_insert_sorted(sorted_files(t, key, desc), s.last(), key, desc);
        assert(s =~= t.push(s.last()));
    }
}

fn sort_time_of(f: &FilePreview, key: SortKey) -> (t: i64)
    ensures
        t == sort_time(*f, key),
{
    match key {
        SortKey::Modified => f.modified_time,
        SortKey::Created => f.created_time,
    }
}

fn goes_before(a: &FilePreview, b: &FilePreview, key: SortKey, desc: bool) -> (r: bool)
    ensures
        r == sorts_before(*a, *b, key, desc),
{
    let ta = sort_time_of(a, key);
    let tb = sort_time_of(b, key);
    let o: i8 = if ta < tb {
        -1
    } else if ta > tb {
        1
    } else {
        let la = to_lowercase(a.name.as_str());
        let lb = to_lowercase(b.name.as_str());
        compare_text(la.as_str(), lb.as_str())
    };
    if desc {
        o > 0
    } else {
        o < 0
    }
}

/// Sorts the dialog's list by the chosen time (`desc`: newest first), with
/// the lower-cased name breaking ties; equal sheets keep their order.
pub fn sort_file_list(list: &mut Vec<FilePreview>, key: SortKey, desc: bool)
    ensures
        final(list)@ == sorted_files(old(list)@, key, desc),
{
    let ghost orig = list@;
    let total = list.len();
    let mut out: Vec<FilePreview> = Vec::new();
    let mut i: usize = 0;
    assert(orig.take(0) =~= Seq::<FilePreview>::empty());
    assert(orig.skip(0) =~= orig);
    while list.len() > 0
        invariant
            i <= orig.len(),
            orig.len() == total,
            list@ == orig.skip(i as int),
            out@ == sorted_files(orig.take(i as int), key, desc),
        decreases list.len(),
    {
        let x = list.remove(0);
        assert(x == orig[i as int]);
        let mut p = out.len();
        while p > 0 && goes_before(&x, &out[p - 1], key, desc)
            invariant
                p <= out.len(),
                forall|k: int| p <= k < out.len() ==> sorts_before(x, #[trigger] out@[k], key, desc),
            decreases p,
        {
            p = p - 1;
        }
        proof {
            lemma_insert_sorted_at(out@, x, key, desc, p as int);
            assert(orig.take(i + 1).drop_last() =~= orig.take(i as int));
            assert(orig.take(i + 1).last() == x);
        }
        let ghost before_insert = out@;
        out.insert(p, x);
        assert(out@ =~= before_insert.take(p as int).push(x) + before_insert.skip(p as int));
        i = i + 1;
        assert(list@ =~= orig.skip(i as int));
    }
    assert(orig.take(i as int) =~= orig);
    *list = out;
}


/// What the dialog's list reducer is asked to do.
pub enum FileAction {
    /// Replace the whole list.
    SetList(Vec<FilePreview>),
    /// The sheet with this id got its content (id, content, loaded bytes).
    UpdateContent(String, String, u64),
    /// Drop every sheet with this id.
    Remove(String),
    /// Empty the list.
    Clear,
}

/// The dialog's list of sheets.
pub struct FileState {
    pub list: Vec<FilePreview>,
}

/// Index of the first sheet with the given id.
pub open spec fn first_with_id(s: Seq<FilePreview>, id: Seq<char>) -> Option<int>
    decreases s.len(),
{
    if s.len() == 0 {
        None
    } else if s[0].id@ == id {
        Some(0)
    } else {
        match first_with_id(s.drop_first(), id) {
            Some(k) => Some(k + 1),
            None => None,
        }
    }
}

proof fn lemma_first_with_id(s: Seq<FilePreview>, id: Seq<char>)
    ensures
        match first_with_id(s, id) {
            Some(k) => 0 <= k < s.len() && s[k].id@ == id
                && forall|j: int| 0 <= j < k ==> (#[trigger] s[j]).id@ != id,
            None => forall|j: int| 0 <= j < s.len() ==> (#[trigger] s[j]).id@ != id,
        },
    decreases s.len(),
{
    if s.len() > 0 {
        let t = s.drop_first();
        lemma_first_with_id(t, id);
        if s[0].id@ != id {
            match first_with_id(t, id) {
                Some(k) => {
                    assert(s[k + 1] == t[k]);
                    assert forall|j: int| 0 <= j < k + 1 implies (#[trigger] s[j]).id@ != id by {
                        if j > 0 {
                            assert(s[j] == t[j - 1]);
                        }
                    }
                },
                None => {
                    assert forall|j: int| 0 <= j < s.len() implies (#[trigger] s[j]).id@ != id by {
                        if j > 0 {
                            assert(s[j] == t[j - 1]);
                        }
                    }
                },
            }
        }
    }
}

/// The list without the sheets whose id is `id`, the others in their order.
pub open spec fn without_id(s: Seq<FilePreview>, id: Seq<char>) -> Seq<FilePreview>
    decreases s.len(),
{
    if s.len() == 0 {
        s
    } else if s.last().id@ == id {
        without_id(s.drop_last(), id)
    } else {
        without_id(s.drop_last(), id).push(s.last())
    }
}

/// A sheet once its content has arrived.
pub open spec fn with_content(f: FilePreview, content: String, loaded_bytes: u64) -> FilePreview {
    FilePreview {
        id: f.id,
        name: f.name,
        content: content,
        total_size: f.total_size,
        loaded_bytes: loaded_bytes,
        is_markdown: f.is_markdown,
        lang: f.lang,
        is_loaded: true,
        modified_time: f.modified_time,
        created_time: f.created_time,
    }
}

/// The list after the reducer has handled `action`.
pub open spec fn reduced(s: Seq<FilePreview>, action: FileAction) -> Seq<FilePreview> {
    match action {
        FileAction::SetList(list) => list@,
        FileAction::UpdateContent(id, content, loaded_bytes) => match first_with_id(s, id@) {
            Some(k) => s.update(k, with_content(s[k], content, loaded_bytes)),
            None => s,
        },
        FileAction::Remove(id) => without_id(s, id@),
        FileAction::Clear => Seq::<FilePreview>::empty(),
    }
}

/// Index of the first sheet whose id is `id`.
pub fn position_of_id(list: &Vec<FilePreview>, id: &str) -> (r: Option<usize>)
    ensures
        match r {
            Some(k) => first_with_id(list@, id@) == Some(k as int),
            None => first_with_id(list@, id@) is None,
        },
{
    proof { lemma_first_with_id(list@, id@); }
    let mut i: usize = 0;
    while i < list.len()
        invariant
            i <= list.len(),
            forall|j: int| 0 <= j < i ==> (#[trigger] list@[j]).id@ != id@,
        decreases list.len() - i,
    {
        if same_text(list[i].id.as_str(), id) {
            proof { lemma_first_with_id(list@, id@); }
            return Some(i);
        }
        i = i + 1;
    }
    proof { lemma_first_with_id(list@, id@); }
    None
}

fn remove_id(list: Vec<FilePreview>, id: &str) -> (r: Vec<FilePreview>)
    ensures
        r@ == without_id(list@, id@),
{
    let ghost orig = list@;
    let mut rest = list;
    let mut out: Vec<FilePreview> = Vec::new();
    let ghost mut i: int = 0;
    assert(orig.take(0) =~= Seq::<FilePreview>::empty());
    assert(orig.skip(0) =~= orig);
    while rest.len() > 0
        invariant
            0 <= i <= orig.len(),
            rest@ == orig.skip(i),
            out@ == without_id(orig.take(i), id@),
        decreases rest.len(),
    {
        let x = rest.remove(0);
        assert(x == orig[i]);
        assert(orig.take(i + 1).drop_last() =~= orig.take(i));
        assert(orig.take(i + 1).last() == x);
        if !same_text(x.id.as_str(), id) {
            out.push(x);
        }
        proof {
            i = i + 1;
        }
        assert(rest@ =~= orig.skip(i));
    }
    assert(orig.take(i) =~= orig);
    out
}

impl FileState {
    /// Applies one action to the list, as the dialog's reducer does.
    pub fn reduce(self, action: FileAction) -> (r: FileState)
        ensures
            r.list@ == reduced(self.list@, action),
    {
        match action {
            FileAction::SetList(list) => FileState { list },
            FileAction::UpdateContent(id, content, loaded_bytes) => {
                let mut list = self.list;
                proof { lemma_first_with_id(list@, id@); }
                match position_of_id(&list, id.as_str()) {
                    Some(k) => {
                        let ghost before = list@;
                        let mut f = list.remove(k);
                        f.content = content;
                        f.loaded_bytes = loaded_bytes;
                        f.is_loaded = true;
                        list.insert(k, f);
                        assert(list@ =~= before.update(k as int, with_content(before[k as int], content, loaded_bytes)));
                    },
                    None => {},
                }
                FileState { list }
            },
            FileAction::Remove(id) => FileState { list: remove_id(self.list, id.as_str()) },
            FileAction::Clear => FileState { list: Vec::new() },
        }
    }
}


/// The extension the dialog reads off a sheet's name: the text after its
/// last dot, lower-cased.
pub open spec fn extension_of(name: Seq<char>) -> Seq<char> {
    lowercase(last_segment(name, '.'))
}

/// The size a listing reports, when it reports one that reads as a number.
pub open spec fn size_from_listing(size: Option<String>) -> u64 {
    match size {
        Some(t) => match parse_u64_spec(t@) {
            Some(v) => v,
            None => 0,
        },
        None => 0,
    }
}

/// The dialog's entry for a sheet just listed: nothing loaded yet, the size
/// read from the listing (0 when absent or unreadable), the language taken
/// from the extension, Markdown when that is `md` or `markdown`.
pub fn file_preview_from_listing(id: String, name: String, size: Option<String>, modified_time: i64, created_time: i64) -> (r: FilePreview)
    ensures
        r.id == id,
        r.name == name,
        r.content@ == Seq::<char>::empty(),
        r.total_size == size_from_listing(size),
        r.loaded_bytes == 0,
        r.lang@ == extension_of(name@),
        r.is_markdown == (extension_of(name@) == "md"@ || extension_of(name@) == "markdown"@),
        !r.is_loaded,
        r.modified_time == modified_time,
        r.created_time == created_time,
{
    let total_size = match &size {
        Some(t) => match parse_u64(t.as_str()) {
            Some(v) => v,
            None => 0,
        },
        None => 0,
    };
    let seg = last_segment_of(name.as_str(), '.');
    let ext = to_lowercase(seg.as_str());
    let is_markdown = same_text(ext.as_str(), "md") || same_text(ext.as_str(), "markdown");
    FilePreview {
        id,
        name,
        content: String::new(),
        total_size,
        loaded_bytes: 0,
        is_markdown,
        lang: ext,
        is_loaded: false,
        modified_time,
        created_time,
    }
}

/// Which sheet is selected once a category's list is shown: the sheet that
/// is open in the editor when one is (none if it is not listed), else the
/// first sheet of a non-empty list.
pub fn initial_file_selection(list: &Vec<FilePreview>, open_sheet_id: Option<&str>) -> (r: Option<usize>)
    ensures
        match open_sheet_id {
            Some(target) => match first_with_id(list@, target@) {
                Some(k) => r == Some(k as usize),
                None => r is None,
            },
            None => r == (if list@.len() > 0 { Some(0usize) } else { None }),
        },
        r matches Some(k) ==> k < list@.len(),
{
    proof {
        if let Some(target) = open_sheet_id {
            lemma_first_with_id(list@, target@);
        }
    }
    match open_sheet_id {
        Some(target) => position_of_id(list, target),
        None => if list.len() > 0 { Some(0) } else { None },
    }
}


/// Removing a sheet from the dialog's list keeps exactly the sheets with
/// another id, in their order.
pub proof fn lemma_remove_keeps_others(s: Seq<FilePreview>, id: Seq<char>)
    ensures
        without_id(s, id) == s.filter(|f: FilePreview| f.id@ != id),
    decreases s.len(),
{
    reveal(Seq::filter);
    if s.len() > 0 {
        lemma_remove_keeps_others(s.drop_last(), id);
    }
}

/// A content update reaches only the first sheet with that id; the others
/// stay as they were.
pub proof fn lemma_update_touches_one(s: Seq<FilePreview>, id: String, content: String, loaded: u64, j: int)
    requires
        0 <= j < s.len(),
        first_with_id(s, id@) != Some(j),
    ensures
        reduced(s, FileAction::UpdateContent(id, content, loaded))[j] == s[j],
        reduced(s, FileAction::UpdateContent(id, content, loaded)).len() == s.len(),
{
    lemma_first_with_id(s, id@);
}

/// The selection after the list is re-sorted: the new place of the file
/// that was selected; the old index when nothing valid was selected or the
/// file is gone.
pub open spec fn selection_after_sort(old: Seq<FilePreview>, new: Seq<FilePreview>, selected: Option<usize>) -> Option<usize> {
    match selected {
        Some(i) if (i as int) < old.len() => match first_with_id(new, old[i as int].id@) {
            Some(p) => Some(p as usize),
            None => selected,
        },
        _ => selected,
    }
}

/// Sorts the dialog's list by `key` in the direction `desc` and returns
/// where the selection goes, so that it stays on the same file.
pub fn resort_keeping_selection(list: &mut Vec<FilePreview>, selected: Option<usize>, key: SortKey, desc: bool) -> (r: Option<usize>)
    ensures
        final(list)@ == sorted_files(old(list)@, key, desc),
        r == selection_after_sort(old(list)@, final(list)@, selected),
{
    let ghost before = list@;
    let sel_id: Option<String> = match selected {
        Some(i) => if i < list.len() { Some(list[i].id.clone()) } else { None },
        None => None,
    };
    sort_file_list(list, key, desc);
    match sel_id {
        Some(id) => {
            let pos = position_of_id(list, id.as_str());
            proof { lemma_first_with_id(list@, id@); }
            match pos {
                Some(p) => Some(p),
                None => selected,
            }
        },
        None => selected,
    }
}

/// Re-sorting keeps the selection on the file that was selected: a valid
/// selection comes back valid, on a file with the same id.
pub proof fn lemma_resort_keeps_selected_file(s: Seq<FilePreview>, i: usize, key: SortKey, desc: bool)
    requires
        (i as int) < s.len(),
        s.len() <= usize::MAX,
    ensures
        match selection_after_sort(s, sorted_files(s, key, desc), Some(i)) {
            Some(p) => (p as int) < s.len() && sorted_files(s, key, desc)[p as int].id@ == s[i as int].id@,
            None => false,
        },
{
    let t = sorted_files(s, key, desc);
    lemma_sorted_files(s, key, desc);
    assert(s.to_multiset().count(s[i as int]) > 0) by {
        s.to_multiset_ensures();
    }
    assert(t.contains(s[i as int])) by {
        t.to_multiset_ensures();
    }
    let k = choose|k: int| 0 <= k < t.len() && t[k] == s[i as int];
    lemma_first_with_id(t, s[i as int].id@);
    assert(t[k].id@ == s[i as int].id@);
}

/// The byte range asked for when the first `limit` bytes of a sheet of
/// `total` bytes are fetched ahead: `0-` and the last byte's offset when
/// the sheet is longer; the whole sheet (no range) otherwise.
pub open spec fn prefetch_range_spec(total: u64, limit: u64) -> Option<Seq<char>> {
    if total > limit { Some("0-"@ + decimal((limit - 1) as nat)) } else { None }
}

/// Builds the range header for fetching a sheet's first `limit` bytes.
pub fn prefetch_range(total: u64, limit: u64) -> (r: Option<String>)
    requires
        limit > 0,
    ensures
        match r {
            Some(t) => prefetch_range_spec(total, limit) == Some(t@),
            None => prefetch_range_spec(total, limit) is None,
        },
{
    if total > limit {
        let mut t = "0-".to_owned();
        let last = u64_to_decimal(limit - 1);
        t.append(last.as_str());
        Some(t)
    } else {
        None
    }
}

} // verus!
