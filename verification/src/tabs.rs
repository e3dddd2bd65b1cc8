//! The tab bar: sheets and terminals share one order of tabs. Which tab
//! becomes active when one closes or a terminal exits, how the keyboard
//! cycles through tabs, and how the order follows the open sheets and
//! terminals.

use vstd::prelude::*;
use crate::sheet::{GutterStatus, Sheet, gutter_status_on_switch, switch_status};
use crate::splits::{SplitState, TerminalSplits};
use crate::text::{same_text, starts_with_text};

verus! {

/// The ids of a list of tabs, as character sequences.
pub open spec fn ids(v: Seq<String>) -> Seq<Seq<char>> {
    v.map_values(|s: String| s@)
}

/// Terminal tabs have ids that start with `__TERM__`.
pub open spec fn is_terminal(id: Seq<char>) -> bool {
    "__TERM__"@.is_prefix_of(id)
}

/// Whether `id` names a terminal tab.
pub fn is_terminal_id(id: &str) -> (r: bool)
    ensures
        r == is_terminal(id@),
{
    starts_with_text(id, "__TERM__")
}

/// A tab can be selected unless it is a sheet locked in a terminal's split.
pub open spec fn selectable(id: Seq<char>, splits: TerminalSplits) -> bool {
    is_terminal(id) || !splits.locks_sheet(id)
}

/// Whether the tab `id` can be selected.
pub fn tab_selectable(id: &str, splits: &TerminalSplits) -> (r: bool)
    ensures
        r == selectable(id@, *splits),
{
    is_terminal_id(id) || !splits.locks(id)
}

/// Position of the first occurrence of `id` in `s`.
pub open spec fn index_in(s: Seq<Seq<char>>, id: Seq<char>) -> Option<int>
    decreases s.len(),
{
    if s.len() == 0 {
        None
    } else if s[0] == id {
        Some(0)
    } else {
        match index_in(s.drop_first(), id) {
            Some(k) => Some(k + 1),
            None => None,
        }
    }
}

pub proof fn lemma_index_in(s: Seq<Seq<char>>, id: Seq<char>)
    ensures
        match index_in(s, id) {
            Some(k) => 0 <= k < s.len() && s[k] == id && forall|j: int| 0 <= j < k ==> s[j] != id,
            None => !s.contains(id),
        },
    decreases s.len(),
{
    if s.len() > 0 {
        let t = s.drop_first();
        lemma_index_in(t, id);
        if s[0] != id {
            match index_in(t, id) {
                Some(k) => {
                    assert(s[k + 1] == t[k]);
                    assert forall|j: int| 0 <= j < k + 1 implies s[j] != id by {
                        if j > 0 {
                            assert(s[j] == t[j - 1]);
                        }
                    }
                },
                None => {
                    if s.contains(id) {
                        let j = choose|j: int| 0 <= j < s.len() && s[j] == id;
                        assert(t[j - 1] == s[j]);
                    }
                },
            }
        }
    }
}

/// Position of the first tab with id `id`.
pub fn position_in(v: &Vec<String>, id: &str) -> (r: Option<usize>)
    ensures
        match r {
            Some(k) => index_in(ids(v@), id@) == Some(k as int),
            None => index_in(ids(v@), id@) is None,
        },
{
    proof { lemma_index_in(ids(v@), id@); }
    let mut i: usize = 0;
    while i < v.len()
        invariant
            i <= v@.len(),
            forall|j: int| 0 <= j < i ==> ids(v@)[j] != id@,
        decreases v@.len() - i,
    {
        assert(ids(v@)[i as int] == v@[i as int]@);
        if same_text(v[i].as_str(), id) {
            proof { lemma_index_in(ids(v@), id@); }
            return Some(i);
        }
        i = i + 1;
    }
    proof { lemma_index_in(ids(v@), id@); }
    None
}

/// The nearest selectable tab left of position `idx`, scanning leftwards
/// from `idx - 1`.
pub open spec fn selectable_left(s: Seq<Seq<char>>, idx: int, splits: TerminalSplits) -> Option<int>
    decreases idx,
{
    if idx <= 0 {
        None
    } else if selectable(s[idx - 1], splits) {
        Some(idx - 1)
    } else {
        selectable_left(s, idx - 1, splits)
    }
}

/// The nearest selectable tab right of position `idx`, up to position `end`.
pub open spec fn selectable_right(s: Seq<Seq<char>>, idx: int, splits: TerminalSplits) -> Option<int>
    decreases s.len() - idx,
{
    if idx + 1 >= s.len() {
        None
    } else if selectable(s[idx + 1], splits) {
        Some(idx + 1)
    } else {
        selectable_right(s, idx + 1, splits)
    }
}

/// The tab that becomes active when the active sheet `closed` is closed:
/// in the tab order, the nearest selectable tab to its left, else to its
/// right; failing that, the remaining sheet just before the closed one's
/// old position `pos` (or the first), if selectable.
pub open spec fn next_after_close(order: Seq<Seq<char>>, closed: Seq<char>, remaining: Seq<Seq<char>>, pos: int, splits: TerminalSplits) -> Option<Seq<char>> {
    let found = match index_in(order, closed) {
        Some(idx) => match selectable_left(order, idx, splits) {
            Some(j) => Some(j),
            None => selectable_right(order, idx, splits),
        },
        None => None,
    };
    match found {
        Some(j) => Some(order[j]),
        None => {
            let k = if pos > 0 { pos - 1 } else { 0 };
            if k < remaining.len() && selectable(remaining[k], splits) {
                Some(remaining[k])
            } else {
                None
            }
        },
    }
}

/// The ids of a list of sheets.
pub open spec fn sheet_ids(v: Seq<Sheet>) -> Seq<Seq<char>> {
    v.map_values(|s: Sheet| s.id@)
}

fn scan_left(order: &Vec<String>, idx: usize, splits: &TerminalSplits) -> (r: Option<usize>)
    requires
        idx <= order@.len(),
    ensures
        match r {
            Some(j) => selectable_left(ids(order@), idx as int, *splits) == Some(j as int),
            None => selectable_left(ids(order@), idx as int, *splits) is None,
        },
{
    let ghost s = ids(order@);
    let mut i = idx;
    while i > 0
        invariant
            i <= idx <= order@.len(),
            s == ids(order@),
            selectable_left(s, idx as int, *splits) == selectable_left(s, i as int, *splits),
        decreases i,
    {
        assert(s[i - 1] == order@[i - 1]@);
        if tab_selectable(order[i - 1].as_str(), splits) {
            return Some(i - 1);
        }
        i = i - 1;
    }
    None
}

fn scan_right(order: &Vec<String>, idx: usize, splits: &TerminalSplits) -> (r: Option<usize>)
    requires
        idx < order@.len(),
    ensures
        match r {
            Some(j) => selectable_right(ids(order@), idx as int, *splits) == Some(j as int),
            None => selectable_right(ids(order@), idx as int, *splits) is None,
        },
{
    let ghost s = ids(order@);
    let mut j = idx;
    let n = order.len();
    while j + 1 < n
        invariant
            n == order@.len(),
            idx <= j < order@.len(),
            s == ids(order@),
            selectable_right(s, idx as int, *splits) == selectable_right(s, j as int, *splits),
        decreases order@.len() - j,
    {
        assert(s[j + 1] == order@[j + 1]@);
        if tab_selectable(order[j + 1].as_str(), splits) {
            return Some(j + 1);
        }
        j = j + 1;
    }
    None
}

/// Picks the tab that becomes active after the active sheet `closed` was
/// closed from position `pos` of the sheet list.
pub fn next_tab_after_close(order: &Vec<String>, closed: &str, remaining: &Vec<Sheet>, pos: usize, splits: &TerminalSplits) -> (r: Option<String>)
    ensures
        match r {
            Some(t) => next_after_close(ids(order@), closed@, sheet_ids(remaining@), pos as int, *splits) == Some(t@),
            None => next_after_close(ids(order@), closed@, sheet_ids(remaining@), pos as int, *splits) is None,
        },
{
    proof { lemma_index_in(ids(order@), closed@); }
    let found: Option<usize> = match position_in(order, closed) {
        Some(idx) => match scan_left(order, idx, splits) {
            Some(j) => Some(j),
            None => scan_right(order, idx, splits),
        },
        None => None,
    };
    match found {
        Some(j) => {
            proof {
                lemma_selectable_left_range(ids(order@), index_in(ids(order@), closed@)->0, *splits);
                lemma_selectable_right_range(ids(order@), index_in(ids(order@), closed@)->0, *splits);
            }
            Some(order[j].clone())
        },
        None => {
            let k = if pos > 0 { pos - 1 } else { 0 };
            if k < remaining.len() && tab_selectable(remaining[k].id.as_str(), splits) {
                Some(remaining[k].id.clone())
            } else {
                None
            }
        },
    }
}

proof fn lemma_selectable_left_range(s: Seq<Seq<char>>, idx: int, splits: TerminalSplits)
    ensures
        selectable_left(s, idx, splits) matches Some(j) ==> 0 <= j < idx && (idx <= s.len() ==> selectable(s[j], splits)),
    decreases idx,
{
    if idx > 0 && !selectable(s[idx - 1], splits) {
        lemma_selectable_left_range(s, idx - 1, splits);
    }
}

proof fn lemma_selectable_right_range(s: Seq<Seq<char>>, idx: int, splits: TerminalSplits)
    ensures
        selectable_right(s, idx, splits) matches Some(j) ==> idx < j < s.len() && selectable(s[j], splits),
    decreases s.len() - idx,
{
    if idx + 1 < s.len() && !selectable(s[idx + 1], splits) {
        lemma_selectable_right_range(s, idx + 1, splits);
    }
}


/// Removes the sheet `id` from the open sheets; returns the rest and the
/// position it had, or the list unchanged and `None` when it was not open.
pub fn close_sheet(sheets: Vec<Sheet>, id: &str) -> (r: (Vec<Sheet>, Option<usize>))
    ensures
        match index_in(sheet_ids(sheets@), id@) {
            Some(k) => (r.1 matches Some(j) && j as int == k) && r.0@ == sheets@.remove(k),
            None => r.1 is None && r.0@ == sheets@,
        },
{
    let mut rest = sheets;
    match find_sheet_index(&rest, id) {
        Some(k) => {
            let _ = rest.remove(k);
            (rest, Some(k))
        },
        None => (rest, None),
    }
}

/// Whether closing `closed` takes the active tab away: never while a
/// terminal is active (the terminal keeps the focus), else when it is the
/// active sheet.
pub fn closes_active_tab(on_terminal: bool, active_sheet: Option<&str>, closed: &str) -> (r: bool)
    ensures
        r == (!on_terminal && (active_sheet matches Some(a) && a@ == closed@)),
{
    if on_terminal {
        false
    } else {
        match active_sheet {
            Some(a) => same_text(a, closed),
            None => false,
        }
    }
}

/// What the editor shows once a tab was picked to become active.
pub enum Activation {
    /// A terminal, with the split view it remembered.
    Terminal { id: String, split: SplitState },
    /// A sheet: its split flag and, when it is open, its gutter status.
    Sheet { id: String, is_split: bool, status: Option<GutterStatus> },
}

/// The first open sheet with the given id.
pub open spec fn find_sheet(v: Seq<Sheet>, id: Seq<char>) -> Option<Sheet> {
    match index_in(sheet_ids(v), id) {
        Some(k) => Some(v[k]),
        None => None,
    }
}

/// Finds the open sheet with id `id`.
pub fn find_sheet_index(v: &Vec<Sheet>, id: &str) -> (r: Option<usize>)
    ensures
        match r {
            Some(k) => index_in(sheet_ids(v@), id@) == Some(k as int) && k < v@.len(),
            None => index_in(sheet_ids(v@), id@) is None,
        },
{
    proof { lemma_index_in(sheet_ids(v@), id@); }
    let mut i: usize = 0;
    while i < v.len()
        invariant
            i <= v@.len(),
            forall|j: int| 0 <= j < i ==> sheet_ids(v@)[j] != id@,
        decreases v@.len() - i,
    {
        assert(sheet_ids(v@)[i as int] == v@[i as int].id@);
        if same_text(v[i].id.as_str(), id) {
            proof { lemma_index_in(sheet_ids(v@), id@); }
            return Some(i);
        }
        i = i + 1;
    }
    proof { lemma_index_in(sheet_ids(v@), id@); }
    None
}

/// How the tab `next` is activated: a terminal gets back its remembered
/// split; a sheet shows its own split flag (off when it is not open) and
/// its gutter status.
pub fn activate_tab(next: String, sheets: &Vec<Sheet>, splits: &TerminalSplits) -> (r: Activation)
    ensures
        is_terminal(next@) ==> r == (Activation::Terminal { id: next, split: splits.split_of(next@) }),
        !is_terminal(next@) ==> r == (Activation::Sheet {
            id: next,
            is_split: match find_sheet(sheets@, next@) {
                Some(s) => s.is_split,
                None => false,
            },
            status: match find_sheet(sheets@, next@) {
                Some(s) => Some(switch_status(s)),
                None => None,
            },
        }),
{
    if is_terminal_id(next.as_str()) {
        let split = splits.get(next.as_str());
        Activation::Terminal { id: next, split }
    } else {
        match find_sheet_index(sheets, next.as_str()) {
            Some(k) => {
                let is_split = sheets[k].is_split;
                let status = gutter_status_on_switch(&sheets[k]);
                Activation::Sheet { id: next, is_split, status: Some(status) }
            },
            None => Activation::Sheet { id: next, is_split: false, status: None },
        }
    }
}

/// The tab a terminal's exit leaves active, when it was the active one:
/// its left neighbour in the tab order, else its right one.
pub open spec fn exit_neighbour(order: Seq<Seq<char>>, id: Seq<char>) -> Option<Seq<char>> {
    match index_in(order, id) {
        Some(i) => if i > 0 {
            Some(order[i - 1])
        } else if i + 1 < order.len() {
            Some(order[i + 1])
        } else {
            None
        },
        None => None,
    }
}

/// Picks the tab that becomes active when the active terminal `id` exits.
pub fn terminal_exit_neighbour(order: &Vec<String>, id: &str) -> (r: Option<String>)
    ensures
        match r {
            Some(t) => exit_neighbour(ids(order@), id@) == Some(t@),
            None => exit_neighbour(ids(order@), id@) is None,
        },
{
    proof { lemma_index_in(ids(order@), id@); }
    match position_in(order, id) {
        Some(i) => if i > 0 {
            Some(order[i - 1].clone())
        } else if i + 1 < order.len() {
            Some(order[i + 1].clone())
        } else {
            None
        },
        None => None,
    }
}

/// The position one step from `cur` in a ring of `len` tabs, `k` steps on.
pub open spec fn ring_step(cur: int, k: int, len: int, left: bool) -> int {
    if left { (cur - k) % len } else { (cur + k) % len }
}

/// The first selectable tab met stepping `k`, `k + 1`, ... up to `len`
/// steps from `cur` around the ring; `cur` itself when none is.
pub open spec fn cycle_from(order: Seq<Seq<char>>, cur: int, left: bool, splits: TerminalSplits, k: int) -> int
    decreases order.len() + 1 - k,
{
    if k > order.len() || k < 1 {
        cur
    } else if selectable(order[ring_step(cur, k, order.len() as int, left)], splits) {
        ring_step(cur, k, order.len() as int, left)
    } else {
        cycle_from(order, cur, left, splits, k + 1)
    }
}

/// The tab the keyboard moves to from the current tab (the active terminal,
/// else the active sheet): the next selectable tab to the left or right,
/// round the ends of the bar. `None` when there is nothing to move to: one
/// tab or none, the current tab not in the order, or no other tab to take.
pub open spec fn cycle_target(order: Seq<Seq<char>>, current: Seq<char>, left: bool, splits: TerminalSplits) -> Option<int> {
    if order.len() <= 1 {
        None
    } else {
        match index_in(order, current) {
            Some(cur) => {
                let t = cycle_from(order, cur, left, splits, 1);
                if order[t] == current { None } else { Some(t) }
            },
            None => None,
        }
    }
}

proof fn lemma_cycle_from_range(order: Seq<Seq<char>>, cur: int, left: bool, splits: TerminalSplits, k: int)
    requires
        0 <= cur < order.len(),
    ensures
        0 <= cycle_from(order, cur, left, splits, k) < order.len(),
    decreases order.len() + 1 - k,
{
    if 1 <= k <= order.len() && !selectable(order[ring_step(cur, k, order.len() as int, left)], splits) {
        lemma_cycle_from_range(order, cur, left, splits, k + 1);
    }
}

/// Finds the tab the keyboard moves to (see `cycle_target`).
pub fn cycle_tab(order: &Vec<String>, current: &str, left: bool, splits: &TerminalSplits) -> (r: Option<usize>)
    ensures
        match r {
            Some(t) => cycle_target(ids(order@), current@, left, *splits) == Some(t as int) && t < order@.len(),
            None => cycle_target(ids(order@), current@, left, *splits) is None,
        },
{
    let len = order.len();
    if len <= 1 {
        return None;
    }
    let ghost s = ids(order@);
    proof { lemma_index_in(s, current@); }
    let cur = match position_in(order, current) {
        Some(c) => c,
        None => return None,
    };
    let mut done: usize = 0;
    let mut idx = cur;
    assert(s.len() == len);
    assert(cur as int == (cur as int - 0) % (len as int) && cur as int == (cur as int + 0) % (len as int)) by (nonlinear_arith)
        requires
            0 <= cur < len,
    {
    }
    while done < len
        invariant
            len == order@.len(),
            s == ids(order@),
            s.len() == len,
            len > 1,
            cur < len,
            index_in(s, current@) == Some(cur as int),
            done <= len,
            idx < len,
            idx as int == ring_step(cur as int, done as int, len as int, left),
            cycle_from(s, cur as int, left, *splits, 1) == cycle_from(s, cur as int, left, *splits, done + 1),
        decreases len - done,
    {
        let next = if left {
            if idx == 0 { len - 1 } else { idx - 1 }
        } else {
            if idx == len - 1 { 0 } else { idx + 1 }
        };
        proof {
            let l = len as int;
            let c = cur as int;
            let kk = done + 1;
            if left {
                assert(next as int == (c - kk) % l) by (nonlinear_arith)
                    requires
                        idx as int == (c - (kk - 1)) % l,
                        next as int == (if idx == 0 { l - 1 } else { idx - 1 }),
                        l > 1,
                        0 <= idx < l,
                {
                }
            } else {
                assert(next as int == (c + kk) % l) by (nonlinear_arith)
                    requires
                        idx as int == (c + (kk - 1)) % l,
                        next as int == (if idx == l - 1 { 0 } else { idx + 1 }),
                        l > 1,
                        0 <= idx < l,
                {
                }
            }
            assert(s[next as int] == order@[next as int]@);
        }
        if tab_selectable(order[next].as_str(), splits) {
            assert(cycle_from(s, cur as int, left, *splits, done + 1) == next as int);
            if same_text(order[next].as_str(), current) {
                return None;
            }
            return Some(next);
        }
        idx = next;
        done = done + 1;
    }
    assert(cycle_from(s, cur as int, left, *splits, done + 1) == cur as int);
    assert(s[cur as int] == current@);
    None
}


/// Whether `id` is among the ids of `v`.
pub fn contains_id(v: &Vec<String>, id: &str) -> (r: bool)
    ensures
        r == ids(v@).contains(id@),
{
    proof { lemma_index_in(ids(v@), id@); }
    position_in(v, id).is_some()
}

/// The tabs of `order` that are still open, in their order.
pub open spec fn keep_open(order: Seq<Seq<char>>, open: Seq<Seq<char>>) -> Seq<Seq<char>>
    decreases order.len(),
{
    if order.len() == 0 {
        order
    } else if open.contains(order.last()) {
        keep_open(order.drop_last(), open).push(order.last())
    } else {
        keep_open(order.drop_last(), open)
    }
}

/// `order` followed by each id of `new_ids` it does not hold yet, in turn.
pub open spec fn append_missing(order: Seq<Seq<char>>, new_ids: Seq<Seq<char>>) -> Seq<Seq<char>>
    decreases new_ids.len(),
{
    if new_ids.len() == 0 {
        order
    } else {
        let o = append_missing(order, new_ids.drop_last());
        if o.contains(new_ids.last()) { o } else { o.push(new_ids.last()) }
    }
}

/// The tab order brought in line with the open sheets and terminals: tabs
/// no longer open leave, newly opened ones (sheets first, then terminals)
/// join at the end.
pub open spec fn synced_order(order: Seq<Seq<char>>, sheets: Seq<Seq<char>>, terminals: Seq<Seq<char>>) -> Seq<Seq<char>> {
    append_missing(keep_open(order, sheets + terminals), sheets + terminals)
}

fn copy_ids(v: &Vec<String>, out: &mut Vec<String>)
    ensures
        ids(final(out)@) == ids(old(out)@) + ids(v@),
{
    let ghost start = ids(out@);
    let mut i: usize = 0;
    while i < v.len()
        invariant
            i <= v@.len(),
            ids(out@) == start + ids(v@).take(i as int),
        decreases v@.len() - i,
    {
        let ghost before = out@;
        out.push(v[i].clone());
        proof {
            assert(ids(out@) =~= ids(before).push(v@[i as int]@));
            assert(ids(v@).take(i + 1) =~= ids(v@).take(i as int).push(v@[i as int]@));
        }
        i = i + 1;
    }
    assert(ids(v@).take(v@.len() as int) =~= ids(v@));
}

/// Brings the tab order in line with the open sheets and terminals.
pub fn sync_tab_order(order: &Vec<String>, sheets: &Vec<String>, terminals: &Vec<String>) -> (r: Vec<String>)
    ensures
        ids(r@) == synced_order(ids(order@), ids(sheets@), ids(terminals@)),
{
    let mut open: Vec<String> = Vec::new();
    copy_ids(sheets, &mut open);
    copy_ids(terminals, &mut open);
    assert(ids(open@) =~= ids(sheets@) + ids(terminals@));
    let ghost all = ids(open@);
    let ghost o = ids(order@);
    let mut kept: Vec<String> = Vec::new();
    let mut i: usize = 0;
    assert(o.take(0) =~= Seq::<Seq<char>>::empty());
    while i < order.len()
        invariant
            i <= order@.len(),
            o == ids(order@),
            all == ids(open@),
            ids(kept@) == keep_open(o.take(i as int), all),
        decreases order@.len() - i,
    {
        assert(o.take(i + 1).drop_last() =~= o.take(i as int));
        assert(o.take(i + 1).last() == order@[i as int]@);
        if contains_id(&open, order[i].as_str()) {
            let ghost before = kept@;
            kept.push(order[i].clone());
            assert(ids(kept@) =~= ids(before).push(order@[i as int]@));
        }
        i = i + 1;
    }
    assert(o.take(order@.len() as int) =~= o);
    let mut j: usize = 0;
    let ghost base = ids(kept@);
    assert(all.take(0) =~= Seq::<Seq<char>>::empty());
    while j < open.len()
        invariant
            j <= open@.len(),
            all == ids(open@),
            ids(kept@) == append_missing(base, all.take(j as int)),
        decreases open@.len() - j,
    {
        assert(all.take(j + 1).drop_last() =~= all.take(j as int));
        assert(all.take(j + 1).last() == open@[j as int]@);
        if !contains_id(&kept, open[j].as_str()) {
            let ghost before = kept@;
            kept.push(open[j].clone());
            assert(ids(kept@) =~= ids(before).push(open@[j as int]@));
        }
        j = j + 1;
    }
    assert(all.take(open@.len() as int) =~= all);
    kept
}

proof fn lemma_keep_open(order: Seq<Seq<char>>, open: Seq<Seq<char>>, x: Seq<char>)
    ensures
        keep_open(order, open).contains(x) <==> (order.contains(x) && open.contains(x)),
    decreases order.len(),
{
    if order.len() > 0 {
        let t = order.drop_last();
        lemma_keep_open(t, open, x);
        assert(order =~= t.push(order.last()));
        if order.contains(x) && x != order.last() {
            let j = choose|j: int| 0 <= j < order.len() && order[j] == x;
            assert(t[j] == x);
        }
        if t.contains(x) {
            let j = choose|j: int| 0 <= j < t.len() && t[j] == x;
            assert(order[j] == x);
        }
        let r = keep_open(t, open);
        if open.contains(order.last()) {
            if r.push(order.last()).contains(x) && x != order.last() {
                let j = choose|j: int| 0 <= j < r.len() + 1 && r.push(order.last())[j] == x;
                assert(r[j] == x);
            }
            if r.contains(x) {
                let j = choose|j: int| 0 <= j < r.len() && r[j] == x;
                assert(r.push(order.last())[j] == x);
            }
            assert(r.push(order.last())[r.len() as int] == order.last());
        }
    }
}

proof fn lemma_append_missing(order: Seq<Seq<char>>, new_ids: Seq<Seq<char>>, x: Seq<char>)
    ensures
        append_missing(order, new_ids).contains(x) <==> (order.contains(x) || new_ids.contains(x)),
    decreases new_ids.len(),
{
    if new_ids.len() > 0 {
        let t = new_ids.drop_last();
        lemma_append_missing(order, t, x);
        let o = append_missing(order, t);
        if new_ids.contains(x) && x != new_ids.last() {
            let j = choose|j: int| 0 <= j < new_ids.len() && new_ids[j] == x;
            assert(t[j] == x);
        }
        if t.contains(x) {
            let j = choose|j: int| 0 <= j < t.len() && t[j] == x;
            assert(new_ids[j] == x);
        }
        assert(new_ids[new_ids.len() - 1] == new_ids.last());
        if !o.contains(new_ids.last()) {
            if o.push(new_ids.last()).contains(x) && x != new_ids.last() {
                let j = choose|j: int| 0 <= j < o.len() + 1 && o.push(new_ids.last())[j] == x;
                assert(o[j] == x);
            }
            if o.contains(x) {
                let j = choose|j: int| 0 <= j < o.len() && o[j] == x;
                assert(o.push(new_ids.last())[j] == x);
            }
            assert(o.push(new_ids.last())[o.len() as int] == new_ids.last());
        }
    }
}

/// After syncing, the tab order holds exactly the open sheets and
/// terminals.
pub proof fn lemma_synced_order_holds_open_tabs(order: Seq<Seq<char>>, sheets: Seq<Seq<char>>, terminals: Seq<Seq<char>>, x: Seq<char>)
    ensures
        synced_order(order, sheets, terminals).contains(x) <==> (sheets.contains(x) || terminals.contains(x)),
{
    let all = sheets + terminals;
    lemma_keep_open(order, all, x);
    lemma_append_missing(keep_open(order, all), all, x);
    if sheets.contains(x) {
        let j = choose|j: int| 0 <= j < sheets.len() && sheets[j] == x;
        assert(all[j] == x);
    }
    if terminals.contains(x) {
        let j = choose|j: int| 0 <= j < terminals.len() && terminals[j] == x;
        assert(all[sheets.len() + j] == x);
    }
    if all.contains(x) {
        let j = choose|j: int| 0 <= j < all.len() && all[j] == x;
        if j < sheets.len() {
            assert(sheets[j] == x);
        } else {
            assert(terminals[j - sheets.len()] == x);
        }
    }
}


/// The tab order after dragging the tab `from` onto the tab `to`: `from`
/// leaves its place and takes the position `to` had; nothing changes when
/// either is missing or they are the same tab.
pub open spec fn reordered(order: Seq<Seq<char>>, from: Seq<char>, to: Seq<char>) -> Seq<Seq<char>> {
    match (index_in(order, from), index_in(order, to)) {
        (Some(fi), Some(ti)) => if fi != ti { order.remove(fi).insert(ti, order[fi]) } else { order },
        _ => order,
    }
}

/// Moves the tab `from` to where the tab `to` is.
pub fn reorder_tabs(order: &mut Vec<String>, from: &str, to: &str)
    ensures
        ids(final(order)@) == reordered(ids(old(order)@), from@, to@),
{
    proof {
        lemma_index_in(ids(order@), from@);
        lemma_index_in(ids(order@), to@);
    }
    let fi = position_in(order, from);
    let ti = position_in(order, to);
    match (fi, ti) {
        (Some(fi), Some(ti)) => {
            if fi != ti {
                let ghost before = order@;
                let item = order.remove(fi);
                order.insert(ti, item);
                assert(ids(order@) =~= ids(before).remove(fi as int).insert(ti as int, ids(before)[fi as int]));
            }
        },
        _ => {},
    }
}

/// Dragging a tab keeps exactly the tabs there were, each as often.
pub proof fn lemma_reordered_keeps_tabs(order: Seq<Seq<char>>, from: Seq<char>, to: Seq<char>)
    ensures
        reordered(order, from, to).to_multiset() == order.to_multiset(),
        reordered(order, from, to).len() == order.len(),
{
    broadcast use vstd::seq_lib::group_to_multiset_ensures;
    lemma_index_in(order, from);
    lemma_index_in(order, to);
    match (index_in(order, from), index_in(order, to)) {
        (Some(fi), Some(ti)) => {
            if fi != ti {
                let r = order.remove(fi);
                assert(r.to_multiset() == order.to_multiset().remove(order[fi]));
                assert(r.insert(ti, order[fi]).to_multiset() == r.to_multiset().insert(order[fi]));
                assert(order.to_multiset().count(order[fi]) > 0) by {
                    assert(order.contains(order[fi]));
                }
                assert(order.to_multiset().remove(order[fi]).insert(order[fi]) =~= order.to_multiset());
            }
        },
        _ => {},
    }
}

/// Where a new terminal's tab goes: while a sheet is active (no terminal
/// is), just left of that sheet's tab; else, or when that tab is not in
/// the order, at the end.
pub open spec fn with_terminal_tab(order: Seq<Seq<char>>, tid: Seq<char>, active_sheet: Option<Seq<char>>, terminal_active: bool) -> Seq<Seq<char>> {
    if !terminal_active && active_sheet is Some {
        match index_in(order, active_sheet->0) {
            Some(p) => order.insert(p, tid),
            None => order.push(tid),
        }
    } else {
        order.push(tid)
    }
}

/// Adds a new terminal's tab to the order.
pub fn add_terminal_tab(order: &mut Vec<String>, tid: String, active_sheet: Option<&str>, terminal_active: bool)
    ensures
        ids(final(order)@) == with_terminal_tab(ids(old(order)@), tid@, match active_sheet {
            Some(a) => Some(a@),
            None => None,
        }, terminal_active),
{
    let ghost before = order@;
    let ghost t = tid@;
    if !terminal_active {
        match active_sheet {
            Some(aid) => {
                proof { lemma_index_in(ids(order@), aid@); }
                match position_in(order, aid) {
                    Some(p) => {
                        order.insert(p, tid);
                        assert(ids(order@) =~= ids(before).insert(p as int, t));
                    },
                    None => {
                        order.push(tid);
                        assert(ids(order@) =~= ids(before).push(t));
                    },
                }
            },
            None => {
                order.push(tid);
                assert(ids(order@) =~= ids(before).push(t));
            },
        }
    } else {
        order.push(tid);
        assert(ids(order@) =~= ids(before).push(t));
    }
}


/// What closing a sheet's tab asks first.
#[derive(Clone, Copy, Debug, PartialEq, Eq, Structural)]
pub enum CloseRequest {
    /// Offline with unsaved changes: warn that they are not synced.
    AskUnsynced,
    /// Unsaved changes: ask whether to save.
    AskUnsaved,
    /// Close at once.
    Close,
}

/// Decides what closing the tab of sheet `closed` asks first: a modified
/// sheet asks (about syncing when offline, else about saving); any other
/// tab, and a sheet that is not open, closes at once.
pub fn close_request(sheets: &Vec<Sheet>, closed: &str, online: bool) -> (r: CloseRequest)
    ensures
        r == (match find_sheet(sheets@, closed@) {
            Some(s) => if s.is_modified && !online {
                CloseRequest::AskUnsynced
            } else if s.is_modified {
                CloseRequest::AskUnsaved
            } else {
                CloseRequest::Close
            },
            None => CloseRequest::Close,
        }),
{
    match find_sheet_index(sheets, closed) {
        Some(k) => {
            if sheets[k].is_modified && !online {
                CloseRequest::AskUnsynced
            } else if sheets[k].is_modified {
                CloseRequest::AskUnsaved
            } else {
                CloseRequest::Close
            }
        },
        None => CloseRequest::Close,
    }
}


/// Where a sheet stands in the tab order: the position of its first tab,
/// or after every tab when it has none.
pub open spec fn tab_rank(order: Seq<Seq<char>>, s: Sheet) -> int {
    match index_in(order, s.id@) {
        Some(p) => p,
        None => order.len() as int,
    }
}

/// Places `x` after every sheet of `v` that does not rank after it.
pub open spec fn insert_by_rank(v: Seq<Sheet>, x: Sheet, order: Seq<Seq<char>>) -> Seq<Sheet>
    decreases v.len(),
{
    if v.len() == 0 {
        seq![x]
    } else if tab_rank(order, x) < tab_rank(order, v.last()) {
        insert_by_rank(v.drop_last(), x, order).push(v.last())
    } else {
        v.push(x)
    }
}

/// The open sheets in the order of their tabs (a stable sort by rank), as
/// they are rearranged when a tab is dropped.
pub open spec fn in_tab_order(v: Seq<Sheet>, order: Seq<Seq<char>>) -> Seq<Sheet>
    decreases v.len(),
{
    if v.len() == 0 {
        v
    } else {
        insert_by_rank(in_tab_order(v.drop_last(), order), v.last(), order)
    }
}

proof fn lemma_insert_by_rank_at(v: Seq<Sheet>, x: Sheet, order: Seq<Seq<char>>, p: int)
    requires
        0 <= p <= v.len(),
        forall|k: int| p <= k < v.len() ==> tab_rank(order, x) < tab_rank(order, #[trigger] v[k]),
        p == 0 || tab_rank(order, x) >= tab_rank(order, v[p - 1]),
    ensures
        insert_by_rank(v, x, order) == v.take(p).push(x) + v.skip(p),
    decreases v.len(),
{
    if p == v.len() {
        assert(insert_by_rank(v, x, order) =~= v.take(p).push(x) + v.skip(p));
    } else {
        let t = v.drop_last();
        assert(tab_rank(order, x) < tab_rank(order, v[v.len() - 1]));
        assert forall|k: int| p <= k < t.len() implies tab_rank(order, x) < tab_rank(order, #[trigger] t[k]) by {
            assert(t[k] == v[k]);
        }
        lemma_insert_by_rank_at(t, x, order, p);
        assert(insert_by_rank(v, x, order) =~= v.take(p).push(x) + v.skip(p));
    }
}

fn rank_of(order: &Vec<String>, s: &Sheet) -> (r: usize)
    ensures
        r as int == tab_rank(ids(order@), *s),
{
    proof { lemma_index_in(ids(order@), s.id@); }
    match position_in(order, s.id.as_str()) {
        Some(p) => p,
        None => order.len(),
    }
}

/// Rearranges the open sheets in the order of their tabs; sheets without
/// a tab go last; sheets that rank alike keep their order.
pub fn sort_sheets_by_tabs(sheets: &mut Vec<Sheet>, order: &Vec<String>)
    ensures
        final(sheets)@ == in_tab_order(old(sheets)@, ids(order@)),
{
    let ghost orig = sheets@;
    let ghost o = ids(order@);
    let total = sheets.len();
    let mut out: Vec<Sheet> = Vec::new();
    let mut i: usize = 0;
    assert(orig.take(0) =~= Seq::<Sheet>::empty());
    assert(orig.skip(0) =~= orig);
    while sheets.len() > 0
        invariant
            i <= orig.len(),
            orig.len() == total,
            o == ids(order@),
            sheets@ == orig.skip(i as int),
            out@ == in_tab_order(orig.take(i as int), o),
        decreases sheets.len(),
    {
        let x = sheets.remove(0);
        assert(x == orig[i as int]);
        let rx = rank_of(order, &x);
        let mut p = out.len();
        while p > 0 && rx < rank_of(order, &out[p - 1])
            invariant
                p <= out.len(),
                o == ids(order@),
                rx as int == tab_rank(o, x),
                forall|k: int| p <= k < out.len() ==> tab_rank(o, x) < tab_rank(o, #[trigger] out@[k]),
            decreases p,
        {
            p = p - 1;
        }
        proof {
            lemma_insert_by_rank_at(out@, x, o, p as int);
            assert(orig.take(i + 1).drop_last() =~= orig.take(i as int));
            assert(orig.take(i + 1).last() == x);
        }
        let ghost before_insert = out@;
        out.insert(p, x);
        assert(out@ =~= before_insert.take(p as int).push(x) + before_insert.skip(p as int));
        i = i + 1;
        assert(sheets@ =~= orig.skip(i as int));
    }
    assert(orig.take(i as int) =~= orig);
    *sheets = out;
}

proof fn lemma_insert_by_rank(v: Seq<Sheet>, x: Sheet, order: Seq<Seq<char>>)
    ensures
        insert_by_rank(v, x, order).to_multiset() =~= v.to_multiset().insert(x),
        (forall|i: int, j: int| 0 <= i < j < v.len() ==> tab_rank(order, #[trigger] v[i]) <= tab_rank(order, #[trigger] v[j]))
            ==> (forall|i: int, j: int| 0 <= i < j < v.len() + 1 ==> tab_rank(order, #[trigger] insert_by_rank(v, x, order)[i]) <= tab_rank(order, #[trigger] insert_by_rank(v, x, order)[j])),
        insert_by_rank(v, x, order).len() == v.len() + 1,
    decreases v.len(),
{
    broadcast use vstd::seq_lib::to_multiset_build, vstd::seq_lib::to_multiset_contains;
    let r = insert_by_rank(v, x, order);
    if v.len() == 0 {
        assert(seq![x] =~= Seq::<Sheet>::empty().push(x));
        assert(Seq::<Sheet>::empty().to_multiset() =~= vstd::multiset::Multiset::<Sheet>::empty());
    } else {
        let t = v.drop_last();
        let last = v.last();
        assert(v =~= t.push(last));
        if tab_rank(order, x) < tab_rank(order, last) {
            lemma_insert_by_rank(t, x, order);
            let r1 = insert_by_rank(t, x, order);
            assert(r == r1.push(last));
            if forall|i: int, j: int| 0 <= i < j < v.len() ==> tab_rank(order, #[trigger] v[i]) <= tab_rank(order, #[trigger] v[j]) {
                assert forall|i: int, j: int| 0 <= i < j < t.len() implies tab_rank(order, #[trigger] t[i]) <= tab_rank(order, #[trigger] t[j]) by {
                    assert(t[i] == v[i] && t[j] == v[j]);
                }
                assert forall|i: int| 0 <= i < r1.len() implies tab_rank(order, #[trigger] r1[i]) <= tab_rank(order, last) by {
                    let e = r1[i];
                    assert(r1.contains(e));
                    assert(r1.to_multiset().count(e) > 0);
                    if e != x {
                        assert(t.to_multiset().count(e) > 0);
                        assert(t.contains(e));
                        let k = choose|k: int| 0 <= k < t.len() && t[k] == e;
                        assert(v[k] == e);
                        assert(tab_rank(order, v[k]) <= tab_rank(order, v[v.len() - 1]));
                    }
                }
                assert forall|i: int, j: int| 0 <= i < j < v.len() + 1 implies tab_rank(order, #[trigger] r[i]) <= tab_rank(order, #[trigger] r[j]) by {
                    if j < r1.len() {
                        assert(r[i] == r1[i] && r[j] == r1[j]);
                    } else {
                        assert(r[i] == r1[i]);
                    }
                }
            }
        } else {
            assert(r == v.push(x));
            if forall|i: int, j: int| 0 <= i < j < v.len() ==> tab_rank(order, #[trigger] v[i]) <= tab_rank(order, #[trigger] v[j]) {
                assert forall|i: int, j: int| 0 <= i < j < v.len() + 1 implies tab_rank(order, #[trigger] r[i]) <= tab_rank(order, #[trigger] r[j]) by {
                    if j < v.len() {
                        assert(r[i] == v[i] && r[j] == v[j]);
                    } else {
                        assert(r[i] == v[i]);
                        if i < v.len() - 1 {
                            assert(tab_rank(order, v[i]) <= tab_rank(order, v[v.len() - 1]));
                        }
                    }
                }
            }
        }
    }
}

/// Rearranging the sheets by their tabs keeps exactly the open sheets and
/// leaves them in the order of their tabs.
pub proof fn lemma_in_tab_order(v: Seq<Sheet>, order: Seq<Seq<char>>)
    ensures
        in_tab_order(v, order).to_multiset() =~= v.to_multiset(),
        in_tab_order(v, order).len() == v.len(),
        forall|i: int, j: int| 0 <= i < j < v.len() ==> tab_rank(order, #[trigger] in_tab_order(v, order)[i]) <= tab_rank(order, #[trigger] in_tab_order(v, order)[j]),
    decreases v.len(),
{
    broadcast use vstd::seq_lib::to_multiset_build;
    if v.len() > 0 {
        let t = v.drop_last();
        lemma_in_tab_order(t, order);
        lemma_insert_by_rank(in_tab_order(t, order), v.last(), order);
        assert(v =~= t.push(v.last()));
    }
}


/// The tab made active after a sheet closes is never a sheet locked in a
/// terminal's split.
pub proof fn lemma_next_after_close_selectable(order: Seq<Seq<char>>, closed: Seq<char>, remaining: Seq<Seq<char>>, pos: int, splits: TerminalSplits)
    ensures
        next_after_close(order, closed, remaining, pos, splits) matches Some(t) ==> selectable(t, splits),
{
    lemma_index_in(order, closed);
    if let Some(idx) = index_in(order, closed) {
        lemma_selectable_left_range(order, idx, splits);
        lemma_selectable_right_range(order, idx, splits);
    }
}

proof fn lemma_selectable_left_nearest(s: Seq<Seq<char>>, idx: int, splits: TerminalSplits, j: int)
    requires
        0 <= j < idx <= s.len(),
        selectable(s[j], splits),
    ensures
        selectable_left(s, idx, splits) matches Some(m) && j <= m < idx && selectable(s[m], splits)
            && forall|k: int| m < k < idx ==> !selectable(#[trigger] s[k], splits),
    decreases idx,
{
    if !selectable(s[idx - 1], splits) {
        lemma_selectable_left_nearest(s, idx - 1, splits, j);
    }
}

proof fn lemma_selectable_right_nearest(s: Seq<Seq<char>>, idx: int, splits: TerminalSplits, j: int)
    requires
        0 <= idx < j < s.len(),
        selectable(s[j], splits),
    ensures
        selectable_right(s, idx, splits) matches Some(m) && idx < m <= j && selectable(s[m], splits)
            && forall|k: int| idx < k < m ==> !selectable(#[trigger] s[k], splits),
    decreases s.len() - idx,
{
    if !selectable(s[idx + 1], splits) {
        lemma_selectable_right_nearest(s, idx + 1, splits, j);
    }
}

/// When the active sheet is closed and some tab left of it in the tab
/// order can be selected, the tab that becomes active is the nearest such
/// tab to its left: every tab between the two is a locked sheet.
pub proof fn lemma_close_activates_nearest_left(order: Seq<Seq<char>>, closed: Seq<char>, remaining: Seq<Seq<char>>,
    pos: int, splits: TerminalSplits, idx: int, j: int)
    requires
        index_in(order, closed) == Some(idx),
        0 <= j < idx,
        selectable(order[j], splits),
    ensures
        next_after_close(order, closed, remaining, pos, splits) matches Some(t) && exists|m: int|
            j <= m < idx && t == #[trigger] order[m] && selectable(order[m], splits)
                && forall|k: int| m < k < idx ==> !selectable(#[trigger] order[k], splits),
{
    lemma_index_in(order, closed);
    lemma_selectable_left_nearest(order, idx, splits, j);
    let m = selectable_left(order, idx, splits)->0;
    assert(order[m] == order[m]);
}

/// When no tab left of the closed active sheet can be selected but one to
/// its right can, the nearest such tab to its right becomes active.
pub proof fn lemma_close_activates_nearest_right(order: Seq<Seq<char>>, closed: Seq<char>, remaining: Seq<Seq<char>>,
    pos: int, splits: TerminalSplits, idx: int, j: int)
    requires
        index_in(order, closed) == Some(idx),
        forall|k: int| 0 <= k < idx ==> !selectable(#[trigger] order[k], splits),
        idx < j < order.len(),
        selectable(order[j], splits),
    ensures
        next_after_close(order, closed, remaining, pos, splits) matches Some(t) && exists|m: int|
            idx < m <= j && t == #[trigger] order[m] && selectable(order[m], splits)
                && forall|k: int| idx < k < m ==> !selectable(#[trigger] order[k], splits),
{
    lemma_index_in(order, closed);
    lemma_selectable_left_range(order, idx, splits);
    lemma_selectable_right_nearest(order, idx, splits, j);
    let m = selectable_right(order, idx, splits)->0;
    assert(order[m] == order[m]);
}

proof fn lemma_cycle_from_selectable(order: Seq<Seq<char>>, cur: int, left: bool, splits: TerminalSplits, k: int)
    ensures
        cycle_from(order, cur, left, splits, k) == cur
            || selectable(order[cycle_from(order, cur, left, splits, k)], splits),
    decreases order.len() + 1 - k,
{
    if 1 <= k <= order.len() && !selectable(order[ring_step(cur, k, order.len() as int, left)], splits) {
        lemma_cycle_from_selectable(order, cur, left, splits, k + 1);
    }
}

/// Moving through the tabs by keyboard always lands on another tab that
/// can be selected.
pub proof fn lemma_cycle_target_selectable(order: Seq<Seq<char>>, current: Seq<char>, left: bool, splits: TerminalSplits)
    ensures
        cycle_target(order, current, left, splits) matches Some(t)
            ==> 0 <= t < order.len() && order[t] != current && selectable(order[t], splits),
{
    lemma_index_in(order, current);
    if order.len() > 1 {
        if let Some(cur) = index_in(order, current) {
            lemma_cycle_from_range(order, cur, left, splits, 1);
            lemma_cycle_from_selectable(order, cur, left, splits, 1);
        }
    }
}

/// Moving by keyboard goes to the neighbouring tab (round the ends of the
/// bar) whenever that tab can be selected and is not the current one.
pub proof fn lemma_cycle_to_neighbour(order: Seq<Seq<char>>, current: Seq<char>, left: bool, splits: TerminalSplits, cur: int)
    requires
        order.len() > 1,
        index_in(order, current) == Some(cur),
        ({
            let n = if left { if cur == 0 { order.len() - 1 } else { cur - 1 } } else { if cur + 1 == order.len() { 0 } else { cur + 1 } };
            selectable(order[n], splits) && order[n] != current
        }),
    ensures
        cycle_target(order, current, left, splits) == Some(
            if left { if cur == 0 { order.len() - 1 } else { cur - 1 } } else { if cur + 1 == order.len() { 0 } else { cur + 1 } }),
{
    lemma_index_in(order, current);
    let len = order.len() as int;
    let n = if left { if cur == 0 { len - 1 } else { cur - 1 } } else { if cur + 1 == len { 0 } else { cur + 1 } };
    assert(ring_step(cur, 1, len, left) == n) by {
        if left {
            if cur == 0 {
                assert((0int - 1) % len == len - 1) by (nonlinear_arith) requires len > 1;
            } else {
                assert((cur - 1) % len == cur - 1) by (nonlinear_arith) requires 0 < cur < len;
            }
        } else {
            if cur + 1 == len {
                assert((cur + 1) % len == 0) by (nonlinear_arith) requires cur + 1 == len, len > 1;
            } else {
                assert((cur + 1) % len == cur + 1) by (nonlinear_arith) requires 0 <= cur, cur + 1 < len;
            }
        }
    }
}

proof fn lemma_keep_open_distinct(order: Seq<Seq<char>>, open: Seq<Seq<char>>)
    requires
        order.no_duplicates(),
    ensures
        keep_open(order, open).no_duplicates(),
    decreases order.len(),
{
    if order.len() > 0 {
        let t = order.drop_last();
        assert(t.no_duplicates()) by {
            assert forall|i: int, j: int| 0 <= i < t.len() && 0 <= j < t.len() && i != j implies t[i] != t[j] by {
                assert(t[i] == order[i] && t[j] == order[j]);
            }
        }
        lemma_keep_open_distinct(t, open);
        let r = keep_open(t, open);
        if open.contains(order.last()) {
            lemma_keep_open(t, open, order.last());
            if t.contains(order.last()) {
                let j = choose|j: int| 0 <= j < t.len() && t[j] == order.last();
                assert(order[j] == order[order.len() - 1]);
            }
            assert forall|i: int, j: int| 0 <= i < r.len() + 1 && 0 <= j < r.len() + 1 && i != j implies r.push(order.last())[i] != r.push(order.last())[j] by {
                if i == r.len() {
                    assert(r.push(order.last())[j] == r[j]);
                    assert(r.contains(r[j]));
                } else if j == r.len() {
                    assert(r.push(order.last())[i] == r[i]);
                    assert(r.contains(r[i]));
                }
            }
        }
    }
}

proof fn lemma_append_missing_distinct(order: Seq<Seq<char>>, new_ids: Seq<Seq<char>>)
    requires
        order.no_duplicates(),
    ensures
        append_missing(order, new_ids).no_duplicates(),
    decreases new_ids.len(),
{
    if new_ids.len() > 0 {
        lemma_append_missing_distinct(order, new_ids.drop_last());
        let o = append_missing(order, new_ids.drop_last());
        if !o.contains(new_ids.last()) {
            assert forall|i: int, j: int| 0 <= i < o.len() + 1 && 0 <= j < o.len() + 1 && i != j implies o.push(new_ids.last())[i] != o.push(new_ids.last())[j] by {
                if i == o.len() {
                    assert(o.push(new_ids.last())[j] == o[j]);
                } else if j == o.len() {
                    assert(o.push(new_ids.last())[i] == o[i]);
                }
            }
        }
    }
}

/// Syncing the tab order never shows a tab twice when it did not before.
pub proof fn lemma_synced_order_distinct(order: Seq<Seq<char>>, sheets: Seq<Seq<char>>, terminals: Seq<Seq<char>>)
    requires
        order.no_duplicates(),
    ensures
        synced_order(order, sheets, terminals).no_duplicates(),
{
    lemma_keep_open_distinct(order, sheets + terminals);
    lemma_append_missing_distinct(keep_open(order, sheets + terminals), sheets + terminals);
}


/// What closing a sheet's tab leads to.
pub enum CloseOutcome {
    /// No open sheet has that id: nothing changes.
    NotOpen,
    /// It was the last sheet: a fresh untitled sheet takes its place.
    Emptied,
    /// Another tab was active (or a terminal had the focus): it stays.
    KeptActive,
    /// It was the active sheet: this tab becomes active, if any can.
    Activate(Option<Activation>),
}

/// Plans the closing of the sheet `closed`: it leaves the open sheets;
/// when it was the active one (and no terminal had the focus), the tab to
/// activate is picked as `next_after_close` says and activated as
/// `activate_tab` says.
pub fn plan_close_tab(sheets: Vec<Sheet>, closed: &str, active_sheet: Option<&str>, on_terminal: bool, order: &Vec<String>, splits: &TerminalSplits) -> (r: (Vec<Sheet>, CloseOutcome))
    ensures
        match index_in(sheet_ids(sheets@), closed@) {
            None => r.0@ == sheets@ && r.1 is NotOpen,
            Some(k) => r.0@ == sheets@.remove(k) && {
                let rest = sheets@.remove(k);
                if rest.len() == 0 {
                    r.1 is Emptied
                } else if on_terminal || !(active_sheet matches Some(a) && a@ == closed@) {
                    r.1 is KeptActive
                } else {
                    match next_after_close(ids(order@), closed@, sheet_ids(rest), k, *splits) {
                        None => r.1 matches CloseOutcome::Activate(None),
                        Some(t) => r.1 matches CloseOutcome::Activate(Some(act)) && (if is_terminal(t) {
                            act matches Activation::Terminal { id, split } && id@ == t && split == splits.split_of(t)
                        } else {
                            act matches Activation::Sheet { id, is_split, status } && id@ == t
                                && is_split == (match find_sheet(rest, t) { Some(s) => s.is_split, None => false })
                                && status == (match find_sheet(rest, t) { Some(s) => Some(switch_status(s)), None => None })
                        }),
                    }
                }
            },
        },
{
    let (rest, pos) = close_sheet(sheets, closed);
    match pos {
        None => (rest, CloseOutcome::NotOpen),
        Some(k) => {
            if rest.len() == 0 {
                return (rest, CloseOutcome::Emptied);
            }
            if !closes_active_tab(on_terminal, active_sheet, closed) {
                return (rest, CloseOutcome::KeptActive);
            }
            match next_tab_after_close(order, closed, &rest, k, splits) {
                None => (rest, CloseOutcome::Activate(None)),
                Some(t) => {
                    let act = activate_tab(t, &rest, splits);
                    (rest, CloseOutcome::Activate(Some(act)))
                },
            }
        },
    }
}

/// One tab of the tab bar.
pub struct TabLabel {
    pub id: String,
    /// For a terminal, its number among the terminals of the bar (from 1).
    pub terminal: Option<u64>,
    /// For a sheet, its tab title (see `tab_title`); empty for a terminal.
    pub title: String,
    pub is_modified: bool,
    pub tab_color: String,
}

/// A tab as plain values: id, terminal number, title, modified, colour.
pub open spec fn label_view(l: TabLabel) -> (Seq<char>, Option<nat>, Seq<char>, bool, Seq<char>) {
    (l.id@, match l.terminal { Some(n) => Some(n as nat), None => None }, l.title@, l.is_modified, l.tab_color@)
}

/// How many terminal tabs `order` holds.
pub open spec fn terminal_count(order: Seq<Seq<char>>) -> nat
    decreases order.len(),
{
    if order.len() == 0 {
        0
    } else {
        terminal_count(order.drop_last()) + if is_terminal(order.last()) { 1nat } else { 0nat }
    }
}

/// The text a sheet's tab shows: the editor's text for the active sheet
/// (when the editor gave one), the stored text otherwise.
pub open spec fn shown_text(s: Sheet, active: Option<Seq<char>>, editor: Option<Seq<char>>) -> Seq<char> {
    if active == Some(s.id@) {
        match editor {
            Some(e) => e,
            None => s.content@,
        }
    } else {
        s.content@
    }
}

/// The tab bar for the tab order `order`: terminals numbered in their
/// order, each sheet with its tab title, modified flag and colour; ids of
/// no open sheet or terminal are skipped.
pub open spec fn tab_bar(order: Seq<Seq<char>>, sheets: Seq<Sheet>, active: Option<Seq<char>>, editor: Option<Seq<char>>) -> Seq<(Seq<char>, Option<nat>, Seq<char>, bool, Seq<char>)>
    decreases order.len(),
{
    if order.len() == 0 {
        Seq::empty()
    } else {
        let before = tab_bar(order.drop_last(), sheets, active, editor);
        let id = order.last();
        if is_terminal(id) {
            before.push((id, Some(terminal_count(order)), Seq::<char>::empty(), false, Seq::<char>::empty()))
        } else {
            match find_sheet(sheets, id) {
                Some(s) => before.push((s.id@, None, crate::sheet::tab_title(s, shown_text(s, active, editor)), s.is_modified, s.tab_color@)),
                None => before,
            }
        }
    }
}

proof fn lemma_terminal_count_bound(order: Seq<Seq<char>>)
    ensures
        terminal_count(order) <= order.len(),
    decreases order.len(),
{
    if order.len() > 0 {
        lemma_terminal_count_bound(order.drop_last());
    }
}

/// Builds the tab bar (see `tab_bar`).
pub fn tab_labels(order: &Vec<String>, sheets: &Vec<Sheet>, active: Option<&str>, editor: Option<&str>) -> (r: Vec<TabLabel>)
    ensures
        r@.map_values(|l: TabLabel| label_view(l)) == tab_bar(ids(order@), sheets@,
            match active { Some(a) => Some(a@), None => None },
            match editor { Some(e) => Some(e@), None => None }),
{
    let ghost act = match active { Some(a) => Some(a@), None => None::<Seq<char>> };
    let ghost ed = match editor { Some(e) => Some(e@), None => None::<Seq<char>> };
    let mut out: Vec<TabLabel> = Vec::new();
    let mut count: u64 = 0;
    let mut i: usize = 0;
    proof {
        assert(ids(order@).take(0) =~= Seq::<Seq<char>>::empty());
    }
    while i < order.len()
        invariant
            i <= order@.len(),
            act == match active { Some(a) => Some(a@), None => None::<Seq<char>> },
            ed == match editor { Some(e) => Some(e@), None => None::<Seq<char>> },
            count as nat == terminal_count(ids(order@).take(i as int)),
            out@.map_values(|l: TabLabel| label_view(l)) == tab_bar(ids(order@).take(i as int), sheets@, act, ed),
        decreases order@.len() - i,
    {
        let ghost pre = ids(order@).take(i as int);
        let ghost next = ids(order@).take(i + 1);
        proof {
            assert(next.drop_last() =~= pre);
            assert(next.last() == order@[i as int]@);
            lemma_terminal_count_bound(next);
        }
        let id = &order[i];
        if is_terminal_id(id.as_str()) {
            count = count + 1;
            let ghost before = out@;
            out.push(TabLabel { id: id.clone(), terminal: Some(count), title: String::new(), is_modified: false, tab_color: String::new() });
            proof {
                assert(out@.map_values(|l: TabLabel| label_view(l)) =~= before.map_values(|l: TabLabel| label_view(l)).push(label_view(out@.last())));
            }
        } else {
            match find_sheet_index(sheets, id.as_str()) {
                Some(k) => {
                    let s = &sheets[k];
                    let is_active = match active {
                        Some(a) => same_text(a, s.id.as_str()),
                        None => false,
                    };
                    let shown: &str = if is_active {
                        match editor {
                            Some(e) => e,
                            None => s.content.as_str(),
                        }
                    } else {
                        s.content.as_str()
                    };
                    let title = crate::sheet::tab_title_of(s, shown);
                    let ghost before = out@;
                    out.push(TabLabel { id: s.id.clone(), terminal: None, title, is_modified: s.is_modified, tab_color: s.tab_color.clone() });
                    proof {
                        assert(find_sheet(sheets@, next.last()) == Some(sheets@[k as int]));
                        assert(out@.map_values(|l: TabLabel| label_view(l)) =~= before.map_values(|l: TabLabel| label_view(l)).push(label_view(out@.last())));
                    }
                },
                None => {
                    proof {
                        assert(find_sheet(sheets@, next.last()) is None);
                    }
                },
            }
        }
        i = i + 1;
    }
    proof {
        assert(ids(order@).take(order@.len() as int) =~= ids(order@));
    }
    out
}

} // verus!
