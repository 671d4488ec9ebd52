//! Keys and the held-key state.
//!
//! `Key` names the physical keys the combo engine can distinguish; every key
//! the engine does not model is carried as `Other`, so it can be tracked
//! without ever contributing to a combo. `KeyState` is the set of keys
//! currently held, viewed as a `Set<Key>`.

use vstd::prelude::*;

verus! {

/// A physical key, compared by equality. Modifiers come in their left/right
/// physical variants; digits are the top-row number keys. Keys the combo
/// engine does not model are carried as `Other` with a host-chosen code.
#[derive(Clone, Copy, Debug, PartialEq, Eq, Structural)]
pub enum Key {
    MetaLeft,
    MetaRight,
    ControlLeft,
    ControlRight,
    ShiftLeft,
    ShiftRight,
    Alt,
    AltGr,
    Num0,
    Num1,
    Num2,
    Num3,
    Num4,
    Num5,
    Num6,
    Num7,
    Num8,
    Num9,
    Other(u32),
}

/// The set of currently-held keys. A key appears at most once; releasing a
/// key that is not held is a no-op.
pub struct KeyState {
    held: Vec<Key>,
}

impl View for KeyState {
    type V = Set<Key>;

    closed spec fn view(&self) -> Set<Key> {
        self.held@.to_set()
    }
}

impl KeyState {
    /// The backing vector holds each key at most once.
    pub closed spec fn wf(&self) -> bool {
        self.held@.no_duplicates()
    }

    /// An empty held-set.
    pub fn new() -> (s: KeyState)
        ensures
            s.wf(),
            s@ == Set::<Key>::empty(),
    {
        let s = KeyState { held: Vec::new() };
        proof {
            assert(s@ =~= Set::<Key>::empty());
        }
        s
    }

    /// Whether `k` is currently held.
    pub fn is_held(&self, k: Key) -> (r: bool)
        ensures
            r == self@.contains(k),
    {
        let mut i: usize = 0;
        while i < self.held.len()
            invariant
                i <= self.held.len(),
                forall|j: int| 0 <= j < i ==> self.held@[j] != k,
            decreases self.held.len() - i,
        {
            if self.held[i] == k {
                return true;
            }
            i = i + 1;
        }
        false
    }

    /// Holds `k`. Idempotent if `k` is already held; never an error.
    pub fn press(&mut self, k: Key)
        requires
            old(self).wf(),
        ensures
            final(self).wf(),
            final(self)@ == old(self)@.insert(k),
    {
        if !self.is_held(k) {
            let ghost prev = self.held@;
            self.held.push(k);
            proof {
                assert forall|x: Key| old(self)@.insert(k).contains(x) implies self@.contains(
                    x,
                ) by {
                    if x == k {
                        assert(self.held@[prev.len() as int] == x);
                    } else {
                        let j = choose|j: int| 0 <= j < prev.len() && prev[j] == x;
                        assert(self.held@[j] == x);
                    }
                }
                assert forall|x: Key| self@.contains(x) implies old(self)@.insert(k).contains(
                    x,
                ) by {
                    let j = choose|j: int| 0 <= j < self.held@.len() && self.held@[j] == x;
                    if j < prev.len() {
                        assert(prev[j] == x);
                    }
                }
                assert(self@ =~= old(self)@.insert(k));
            }
        } else {
            proof {
                assert(self@ =~= old(self)@.insert(k));
            }
        }
    }

    /// Releases `k`. A no-op if `k` is not held; never an error.
    pub fn release(&mut self, k: Key)
        requires
            old(self).wf(),
        ensures
            final(self).wf(),
            final(self)@ == old(self)@.remove(k),
    {
        let mut i: usize = 0;
        while i < self.held.len()
            invariant
                i <= self.held.len(),
                self == old(self),
                old(self).wf(),
                forall|j: int| 0 <= j < i ==> self.held@[j] != k,
            decreases self.held.len() - i,
        {
            if self.held[i] == k {
                let ghost prev = self.held@;
                let ghost idx = i as int;
                self.held.remove(i);
                proof {
                    prev.remove_ensures(idx);
                    assert forall|x: Key| self@.contains(x) implies (old(self)@.contains(x) && x
                        != k) by {
                        let j = choose|j: int| 0 <= j < self.held@.len() && self.held@[j] == x;
                        if j < idx {
                            assert(prev[j] == x);
                        } else {
                            assert(prev[j + 1] == x);
                            assert(prev[j + 1] != prev[idx]);
                        }
                    }
                    assert forall|x: Key| old(self)@.contains(x) && x != k implies self@.contains(
                        x,
                    ) by {
                        let j = choose|j: int| 0 <= j < prev.len() && prev[j] == x;
                        if j < idx {
                            assert(self.held@[j] == x);
                        } else {
                            assert(j != idx);
                            assert(self.held@[j - 1] == x);
                        }
                    }
                    assert forall|p: int, q: int|
                        0 <= p < self.held@.len() && 0 <= q < self.held@.len() && p
                            != q implies self.held@[p] != self.held@[q] by {
                        let pp: int = if p < idx {
                            p
                        } else {
                            p + 1
                        };
                        let qq: int = if q < idx {
                            q
                        } else {
                            q + 1
                        };
                        assert(self.held@[p] == prev[pp]);
                        assert(self.held@[q] == prev[qq]);
                    }
                    assert(self@ =~= old(self)@.remove(k));
                }
                return ;
            }
            i = i + 1;
        }
        proof {
            assert(!old(self)@.contains(k));
            assert(self@ =~= old(self)@.remove(k));
        }
    }

    /// Empties the held-set (used after a combo fires, so the keys still
    /// physically down cannot re-trigger it on repeat events).
    pub fn clear(&mut self)
        ensures
            final(self).wf(),
            final(self)@ == Set::<Key>::empty(),
    {
        self.held.clear();
        proof {
            assert(self@ =~= Set::<Key>::empty());
        }
    }

    /// A read-only snapshot of the held keys, each exactly once.
    pub fn snapshot(&self) -> (r: &Vec<Key>)
        requires
            self.wf(),
        ensures
            r@.no_duplicates(),
            r@.to_set() == self@,
    {
        &self.held
    }
}

/// Releasing a key that is not held leaves the held-set exactly as it was.
pub proof fn lemma_release_absent_is_noop(s: Set<Key>, k: Key)
    requires
        !s.contains(k),
    ensures
        s.remove(k) == s,
{
    assert(s.remove(k) =~= s);
}

} // verus!
