//! What each terminal tab remembers of its split view: whether the view is
//! split, whether the sheet pane is being edited, and which sheet the pane
//! shows. A sheet shown in a split pane is locked: its own tab cannot be
//! selected while the split lasts.

use vstd::prelude::*;
use crate::text::same_text;

verus! {

/// The split view of one terminal tab.
pub struct SplitState {
    pub split_enabled: bool,
    pub edit_mode: bool,
    pub pane_sheet_id: Option<String>,
}

/// The state a terminal without a remembered split starts from.
pub open spec fn no_split() -> SplitState {
    SplitState { split_enabled: false, edit_mode: false, pane_sheet_id: None }
}

/// Whether this split shows the sheet `sheet_id` in its pane.
pub open spec fn shows_sheet(st: SplitState, sheet_id: Seq<char>) -> bool {
    st.split_enabled && (st.pane_sheet_id matches Some(p) && p@ == sheet_id)
}

/// A copy of the split state.
pub fn copy_split(st: &SplitState) -> (r: SplitState)
    ensures
        r == *st,
{
    let pane = match &st.pane_sheet_id {
        Some(p) => Some(p.clone()),
        None => None,
    };
    SplitState { split_enabled: st.split_enabled, edit_mode: st.edit_mode, pane_sheet_id: pane }
}

/// The split view remembered per terminal tab id.
pub struct TerminalSplits {
    entries: Vec<(String, SplitState)>,
}

impl TerminalSplits {
    /// No terminal id occurs twice.
    #[verifier::type_invariant]
    closed spec fn distinct_ids(self) -> bool {
        forall|i: int, j: int|
            0 <= i < j < self.entries@.len() ==> (#[trigger] self.entries@[i]).0@ != (#[trigger] self.entries@[j]).0@
    }

    closed spec fn has_key(self, k: Seq<char>) -> bool {
        exists|i: int| 0 <= i < self.entries@.len() && (#[trigger] self.entries@[i]).0@ == k
    }

    closed spec fn key_index(self, k: Seq<char>) -> int {
        choose|i: int| 0 <= i < self.entries@.len() && (#[trigger] self.entries@[i]).0@ == k
    }

    /// The remembered splits, by terminal id.
    pub closed spec fn map(self) -> Map<Seq<char>, SplitState> {
        Map::new(|k: Seq<char>| self.has_key(k), |k: Seq<char>| self.entries@[self.key_index(k)].1)
    }

    /// The split remembered for `id`, or no split.
    pub open spec fn split_of(self, id: Seq<char>) -> SplitState {
        if self.map().contains_key(id) { self.map()[id] } else { no_split() }
    }

    /// Whether some remembered split shows `sheet_id` in its pane.
    pub open spec fn locks_sheet(self, sheet_id: Seq<char>) -> bool {
        exists|k: Seq<char>| #[trigger] self.map().contains_key(k) && shows_sheet(self.map()[k], sheet_id)
    }

    proof fn lemma_index(self, i: int)
        requires
            self.distinct_ids(),
            0 <= i < self.entries@.len(),
        ensures
            self.map().contains_key(self.entries@[i].0@),
            self.map()[self.entries@[i].0@] == self.entries@[i].1,
    {
        let k = self.entries@[i].0@;
        assert(self.has_key(k));
        let j = self.key_index(k);
        if j != i {
            if i < j {
                assert(self.entries@[i].0@ != self.entries@[j].0@);
            } else {
                assert(self.entries@[j].0@ != self.entries@[i].0@);
            }
        }
    }

    /// Nothing remembered.
    pub fn new() -> (r: TerminalSplits)
        ensures
            r.map() == Map::<Seq<char>, SplitState>::empty(),
    {
        let r = TerminalSplits { entries: Vec::new() };
        assert(r.map() =~= Map::<Seq<char>, SplitState>::empty());
        r
    }

    fn find(&self, id: &str) -> (r: Option<usize>)
        ensures
            match r {
                Some(i) => i < self.entries@.len() && self.entries@[i as int].0@ == id@,
                None => !self.map().contains_key(id@),
            },
    {
        let mut i: usize = 0;
        while i < self.entries.len()
            invariant
                i <= self.entries@.len(),
                forall|j: int| 0 <= j < i ==> (#[trigger] self.entries@[j]).0@ != id@,
            decreases self.entries@.len() - i,
        {
            if same_text(self.entries[i].0.as_str(), id) {
                return Some(i);
            }
            i = i + 1;
        }
        None
    }

    /// The split remembered for `id`; no split when none is
    /// (`map.get(id).cloned().unwrap_or((false, false, None))`).
    pub fn get(&self, id: &str) -> (r: SplitState)
        ensures
            r == self.split_of(id@),
    {
        proof { use_type_invariant(self); }
        match self.find(id) {
            Some(i) => {
                proof { self.lemma_index(i as int); }
                copy_split(&self.entries[i].1)
            },
            None => SplitState { split_enabled: false, edit_mode: false, pane_sheet_id: None },
        }
    }

    /// Remembers `st` for the terminal `id`, replacing what it had.
    pub fn insert(&mut self, id: String, st: SplitState)
        ensures
            final(self).map() == old(self).map().insert(id@, st),
    {
        proof { use_type_invariant(&*self); }
        let ghost before = *self;
        let ghost k = id@;
        match self.find(id.as_str()) {
            Some(i) => {
                let ghost old_entries = self.entries@;
                let mut entries: Vec<(String, SplitState)> = Vec::new();
                std::mem::swap(&mut entries, &mut self.entries);
                entries.set(i, (id, st));
                proof {
                    assert forall|a: int, b: int| 0 <= a < b < entries@.len() implies (#[trigger] entries@[a]).0@ != (#[trigger] entries@[b]).0@ by {
                        assert(a != i ==> entries@[a] == old_entries[a]);
                        assert(b != i ==> entries@[b] == old_entries[b]);
                    }
                }
                self.entries = entries;
                proof {
                    assert forall|key: Seq<char>| #[trigger] self.map().contains_key(key) <==> before.map().insert(k, st).contains_key(key) by {
                        if key != k {
                            if before.has_key(key) {
                                let j = before.key_index(key);
                                assert(self.entries@[j] == old_entries[j]);
                                assert(self.has_key(key));
                            }
                            if self.has_key(key) {
                                let j = self.key_index(key);
                                assert(j != i);
                                assert(self.entries@[j] == old_entries[j]);
                                assert(before.has_key(key));
                            }
                        } else {
                            assert(self.entries@[i as int].0@ == k);
                            assert(self.has_key(key));
                        }
                    }
                    assert forall|key: Seq<char>| #[trigger] self.map().contains_key(key) implies self.map()[key] == before.map().insert(k, st)[key] by {
                        if key == k {
                            self.lemma_index(i as int);
                        } else {
                            let j = self.key_index(key);
                            assert(j != i);
                            self.lemma_index(j);
                            assert(self.entries@[j] == old_entries[j]);
                            before.lemma_index(j);
                        }
                    }
                    assert(self.map() =~= before.map().insert(k, st));
                }
            },
            None => {
                let ghost old_entries = self.entries@;
                let mut entries: Vec<(String, SplitState)> = Vec::new();
                std::mem::swap(&mut entries, &mut self.entries);
                entries.push((id, st));
                proof {
                    let n = old_entries.len();
                    assert forall|i: int, j: int| 0 <= i < j < entries@.len() implies (#[trigger] entries@[i]).0@ != (#[trigger] entries@[j]).0@ by {
                        if j == n {
                            assert(entries@[i] == old_entries[i]);
                            if old_entries[i].0@ == k {
                                before.lemma_index(i);
                            }
                        } else {
                            assert(entries@[i] == old_entries[i] && entries@[j] == old_entries[j]);
                        }
                    }
                }
                self.entries = entries;
                proof {
                    assert forall|key: Seq<char>| #[trigger] self.map().contains_key(key) <==> before.map().insert(k, st).contains_key(key) by {
                        if key != k {
                            if before.has_key(key) {
                                let j = before.key_index(key);
                                assert(self.entries@[j] == old_entries[j]);
                                assert(self.has_key(key));
                            }
                            if self.has_key(key) {
                                let j = self.key_index(key);
                                assert(j < old_entries.len());
                                assert(self.entries@[j] == old_entries[j]);
                                assert(before.has_key(key));
                            }
                        } else {
                            assert(self.entries@[old_entries.len() as int].0@ == k);
                            assert(self.has_key(key));
                        }
                    }
                    assert forall|key: Seq<char>| #[trigger] self.map().contains_key(key) implies self.map()[key] == before.map().insert(k, st)[key] by {
                        let j = self.key_index(key);
                        self.lemma_index(j);
                        if key != k {
                            assert(j < old_entries.len());
                            assert(self.entries@[j] == old_entries[j]);
                            before.lemma_index(j);
                        }
                    }
                    assert(self.map() =~= before.map().insert(k, st));
                }
            },
        }
    }

    /// Forgets what was remembered for the terminal `id`.
    pub fn remove(&mut self, id: &str)
        ensures
            final(self).map() == old(self).map().remove(id@),
    {
        proof { use_type_invariant(&*self); }
        let ghost before = *self;
        match self.find(id) {
            Some(i) => {
                let ghost old_entries = self.entries@;
                let mut entries: Vec<(String, SplitState)> = Vec::new();
                std::mem::swap(&mut entries, &mut self.entries);
                let _ = entries.remove(i);
                proof {
                    assert forall|a: int, b: int| 0 <= a < b < entries@.len() implies (#[trigger] entries@[a]).0@ != (#[trigger] entries@[b]).0@ by {
                        let oa = if a < i { a } else { a + 1 };
                        let ob = if b < i { b } else { b + 1 };
                        assert(entries@[a] == old_entries[oa]);
                        assert(entries@[b] == old_entries[ob]);
                    }
                }
                self.entries = entries;
                proof {
                    let k = id@;
                    assert forall|key: Seq<char>| #[trigger] self.map().contains_key(key) <==> before.map().remove(k).contains_key(key) by {
                        if before.has_key(key) && key != k {
                            let j = before.key_index(key);
                            assert(j != i);
                            if j < i {
                                assert(self.entries@[j] == old_entries[j]);
                            } else {
                                assert(self.entries@[j - 1] == old_entries[j]);
                            }
                            assert(self.has_key(key));
                        }
                        if self.has_key(key) {
                            let j = self.key_index(key);
                            if j < i {
                                assert(self.entries@[j] == old_entries[j]);
                                assert(before.has_key(key));
                                assert(key != k);
                            } else {
                                assert(self.entries@[j] == old_entries[j + 1]);
                                assert(before.has_key(key));
                                assert(old_entries[i as int].0@ != old_entries[j + 1].0@);
                            }
                        }
                    }
                    assert forall|key: Seq<char>| #[trigger] self.map().contains_key(key) implies self.map()[key] == before.map().remove(k)[key] by {
                        let j = self.key_index(key);
                        self.lemma_index(j);
                        if j < i {
                            assert(self.entries@[j] == old_entries[j]);
                            before.lemma_index(j);
                        } else {
                            assert(self.entries@[j] == old_entries[j + 1]);
                            before.lemma_index(j + 1);
                        }
                    }
                    assert(self.map() =~= before.map().remove(k));
                }
            },
            None => {
                assert(self.map() =~= before.map().remove(id@));
            },
        }
    }

    /// Whether some terminal's split pane shows the sheet `sheet_id`
    /// (`map.values().any(|(split, _, pane)| *split && pane == Some(id))`).
    pub fn locks(&self, sheet_id: &str) -> (r: bool)
        ensures
            r == self.locks_sheet(sheet_id@),
    {
        proof { use_type_invariant(self); }
        let mut i: usize = 0;
        while i < self.entries.len()
            invariant
                i <= self.entries@.len(),
                self.distinct_ids(),
                forall|j: int| 0 <= j < i ==> !shows_sheet((#[trigger] self.entries@[j]).1, sheet_id@),
            decreases self.entries@.len() - i,
        {
            let st = &self.entries[i].1;
            let hit = st.split_enabled && match &st.pane_sheet_id {
                Some(p) => same_text(p.as_str(), sheet_id),
                None => false,
            };
            if hit {
                proof {
                    self.lemma_index(i as int);
                    let k = self.entries@[i as int].0@;
                    assert(self.map().contains_key(k));
                }
                return true;
            }
            i = i + 1;
        }
        proof {
            if self.locks_sheet(sheet_id@) {
                let k = choose|k: Seq<char>| #[trigger] self.map().contains_key(k) && shows_sheet(self.map()[k], sheet_id@);
                let j = self.key_index(k);
                self.lemma_index(j);
                assert(!shows_sheet(self.entries@[j].1, sheet_id@));
            }
        }
        false
    }
}

/// What `insert` remembers is what `get` gives back for that terminal, and
/// every other terminal keeps its split.
pub proof fn lemma_get_after_insert(before: TerminalSplits, after: TerminalSplits, id: Seq<char>, st: SplitState, other: Seq<char>)
    requires
        after.map() == before.map().insert(id, st),
        other != id,
    ensures
        after.split_of(id) == st,
        after.split_of(other) == before.split_of(other),
{
}

/// Once a terminal is forgotten, `get` gives no split for it, and every
/// other terminal keeps its split.
pub proof fn lemma_get_after_remove(before: TerminalSplits, after: TerminalSplits, id: Seq<char>, other: Seq<char>)
    requires
        after.map() == before.map().remove(id),
        other != id,
    ensures
        after.split_of(id) == no_split(),
        after.split_of(other) == before.split_of(other),
{
}

/// Remembering a split that shows no sheet for a terminal unlocks every
/// sheet that no other terminal's split shows.
pub proof fn lemma_unlock_after_reset(before: TerminalSplits, after: TerminalSplits, id: Seq<char>, sheet_id: Seq<char>)
    requires
        after.map() == before.map().insert(id, no_split()),
        forall|k: Seq<char>| #[trigger] before.map().contains_key(k) && k != id ==> !shows_sheet(before.map()[k], sheet_id),
    ensures
        !after.locks_sheet(sheet_id),
{
    if after.locks_sheet(sheet_id) {
        let k = choose|k: Seq<char>| #[trigger] after.map().contains_key(k) && shows_sheet(after.map()[k], sheet_id);
        if k != id {
            assert(before.map().contains_key(k));
        }
    }
}

} // verus!
