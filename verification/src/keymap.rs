//! The keymap: combo identifier to action, last write wins.

use vstd::prelude::*;

use crate::action::Action;
use crate::strutil::str_eq;
use vstd::map::*;

verus! {

/// A mapping from combo identifiers to actions, viewed as a
/// `Map<Seq<char>, Action>`. Populated at startup (defaults or config file),
/// read on every dispatched key press; a lookup miss is a normal outcome,
/// never an error.
pub struct KeymapTable {
    entries: Vec<(String, Action)>,
}

impl View for KeymapTable {
    type V = Map<Seq<char>, Action>;

    closed spec fn view(&self) -> Map<Seq<char>, Action> {
        Map::new(
            |k: Seq<char>|
                exists|i: int| 0 <= i < self.entries@.len() && self.entries@[i].0@ == k,
            |k: Seq<char>|
                {
                    let i = choose|i: int|
                        0 <= i < self.entries@.len() && self.entries@[i].0@ == k;
                    self.entries@[i].1
                },
        )
    }
}

impl KeymapTable {
    /// Each identifier appears in at most one entry.
    pub closed spec fn wf(&self) -> bool {
        forall|i: int, j: int|
            0 <= i < self.entries@.len() && 0 <= j < self.entries@.len() && i != j
                ==> self.entries@[i].0@ != self.entries@[j].0@
    }

    /// An empty table.
    pub fn new() -> (t: KeymapTable)
        ensures
            t.wf(),
            t@ == Map::<Seq<char>, Action>::empty(),
    {
        let t = KeymapTable { entries: Vec::new() };
        proof {
            assert(t@ =~= Map::<Seq<char>, Action>::empty());
        }
        t
    }

    /// Binds `id` to `action`, overwriting any earlier binding of `id`.
    pub fn insert(&mut self, id: String, action: Action)
        requires
            old(self).wf(),
        ensures
            final(self).wf(),
            final(self)@ == old(self)@.insert(id@, action),
    {
        let ghost orig = self.entries@;
        let mut i: usize = 0;
        while i < self.entries.len()
            invariant
                i <= self.entries.len(),
                self == old(self),
                orig == self.entries@,
                old(self).wf(),
                forall|j: int| 0 <= j < i ==> self.entries@[j].0@ != id@,
            decreases self.entries.len() - i,
        {
            if str_eq(self.entries[i].0.as_str(), id.as_str()) {
                let ghost idx = i as int;
                self.entries.remove(i);
                self.entries.push((id, action));
                proof {
                    orig.remove_ensures(idx);
                    let cur = self.entries@;
                    let last = cur.len() - 1;
                    assert(forall|p: int|
                        0 <= p < last ==> cur[p] == (if p < idx {
                            orig[p]
                        } else {
                            orig[p + 1]
                        }));
                    assert forall|p: int, q: int|
                        0 <= p < cur.len() && 0 <= q < cur.len() && p != q implies cur[p].0@
                        != cur[q].0@ by {
                        let pp: int = if p < idx {
                            p
                        } else {
                            p + 1
                        };
                        let qq: int = if q < idx {
                            q
                        } else {
                            q + 1
                        };
                        if p == last {
                            assert(cur[q].0@ == orig[qq].0@);
                            assert(orig[qq].0@ != orig[idx].0@);
                        } else if q == last {
                            assert(cur[p].0@ == orig[pp].0@);
                            assert(orig[pp].0@ != orig[idx].0@);
                        } else {
                            assert(cur[p].0@ == orig[pp].0@);
                            assert(cur[q].0@ == orig[qq].0@);
                        }
                    }
                    assert(self.wf());
                    assert_maps_equal!(self@, old(self)@.insert(id@, action), k => {
                        if k == id@ {
                            assert(cur[last].0@ == k);
                            if self@.dom().contains(k) {
                                let w = choose|w: int| 0 <= w < cur.len() && cur[w].0@ == k;
                                assert(w == last);
                            }
                        } else {
                            if self@.dom().contains(k) {
                                let w = choose|w: int| 0 <= w < cur.len() && cur[w].0@ == k;
                                let ww: int = if w < idx { w } else { w + 1 };
                                assert(orig[ww].0@ == k);
                                assert(old(self)@.dom().contains(k));
                                let v = choose|v: int| 0 <= v < orig.len() && orig[v].0@ == k;
                                assert(v == ww);
                            }
                            if old(self)@.dom().contains(k) {
                                let v = choose|v: int| 0 <= v < orig.len() && orig[v].0@ == k;
                                assert(v != idx);
                                let vv: int = if v < idx { v } else { v - 1 };
                                assert(cur[vv].0@ == k);
                            }
                        }
                    });
                }
                return ;
            }
            i = i + 1;
        }
        self.entries.push((id, action));
        proof {
            let cur = self.entries@;
            let last = cur.len() - 1;
            assert_maps_equal!(self@, old(self)@.insert(id@, action), k => {
                if k == id@ {
                    assert(cur[last].0@ == k);
                    if self@.dom().contains(k) {
                        let w = choose|w: int| 0 <= w < cur.len() && cur[w].0@ == k;
                        assert(w == last);
                    }
                } else {
                    if self@.dom().contains(k) {
                        let w = choose|w: int| 0 <= w < cur.len() && cur[w].0@ == k;
                        assert(w < last);
                        assert(orig[w].0@ == k);
                    }
                    if old(self)@.dom().contains(k) {
                        let v = choose|v: int| 0 <= v < orig.len() && orig[v].0@ == k;
                        assert(cur[v].0@ == k);
                    }
                }
            });
        }
    }

    /// Looks an identifier up. Absence is an expected miss, not an error.
    pub fn lookup(&self, id: &str) -> (r: Option<Action>)
        requires
            self.wf(),
        ensures
            r == if self@.dom().contains(id@) {
                Some(self@[id@])
            } else {
                None::<Action>
            },
    {
        let mut i: usize = 0;
        while i < self.entries.len()
            invariant
                i <= self.entries.len(),
                self.wf(),
                forall|j: int| 0 <= j < i ==> self.entries@[j].0@ != id@,
            decreases self.entries.len() - i,
        {
            if str_eq(self.entries[i].0.as_str(), id) {
                proof {
                    let w = choose|w: int|
                        0 <= w < self.entries@.len() && self.entries@[w].0@ == id@;
                    assert(w == i as int);
                }
                return Some(self.entries[i].1);
            }
            i = i + 1;
        }
        None
    }

}

} // verus!
