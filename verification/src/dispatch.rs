//! The per-event dispatch decision.
//!
//! The host's input hook calls `handle` once per event, strictly
//! sequentially. A key press updates the held-set, renders its combo
//! identifier and looks it up: on a match the event is suppressed, the
//! matched action is handed back for the host to run, and the held-set is
//! cleared so the keys still physically down cannot re-trigger the combo on
//! repeat events. Everything else — releases, unmatched presses, non-key
//! events — passes through unchanged; releases are never suppressed, so the
//! rest of the system never keeps a stuck "key down" belief.

use vstd::prelude::*;

use crate::action::Action;
use crate::combo::{combo_string, spec_combo};
use crate::keymap::KeymapTable;
use crate::keys::{Key, KeyState};

verus! {

/// One event from the host input stream. Events that are neither a key press
/// nor a key release (pointer movement and the like) are `Other`.
#[derive(Clone, Copy, Debug, PartialEq, Eq, Structural)]
pub enum InputEvent {
    KeyPress(Key),
    KeyRelease(Key),
    Other,
}

/// What the host hook should do with the event it just delivered.
#[derive(Clone, Copy, Debug, PartialEq, Eq, Structural)]
pub enum Decision {
    /// Drop the event: a configured combo fired.
    Suppress,
    /// Hand the event on unchanged.
    PassThrough,
}

/// Whether pressing `k` on top of `held` yields a non-empty combo identifier
/// that the keymap binds.
pub open spec fn press_matches(held: Set<Key>, keymap: Map<Seq<char>, Action>, k: Key) -> bool {
    let combo = spec_combo(held.insert(k));
    combo.len() > 0 && keymap.dom().contains(combo)
}

/// Processes one input event against the held-set and the keymap; returns the
/// suppress/pass-through decision and, on a match, the action to run. The
/// match/no-match decision itself has no error path.
pub fn handle(event: InputEvent, state: &mut KeyState, keymap: &KeymapTable) -> (r: (
    Decision,
    Option<Action>,
))
    requires
        old(state).wf(),
        keymap.wf(),
    ensures
        final(state).wf(),
        match event {
            InputEvent::KeyPress(k) => {
                if press_matches(old(state)@, keymap@, k) {
                    &&& r == (
                        Decision::Suppress,
                        Some(keymap@[spec_combo(old(state)@.insert(k))]),
                    )
                    &&& final(state)@ == Set::<Key>::empty()
                } else {
                    &&& r == (Decision::PassThrough, None::<Action>)
                    &&& final(state)@ == old(state)@.insert(k)
                }
            },
            InputEvent::KeyRelease(k) => {
                &&& r == (Decision::PassThrough, None::<Action>)
                &&& final(state)@ == old(state)@.remove(k)
            },
            InputEvent::Other => {
                &&& r == (Decision::PassThrough, None::<Action>)
                &&& final(state)@ == old(state)@
            },
        },
{
    match event {
        InputEvent::KeyPress(k) => {
            state.press(k);
            let combo = combo_string(state);
            if !combo.as_str().is_empty() {
                match keymap.lookup(combo.as_str()) {
                    Some(a) => {
                        state.clear();
                        (Decision::Suppress, Some(a))
                    },
                    None => (Decision::PassThrough, None),
                }
            } else {
                (Decision::PassThrough, None)
            }
        },
        InputEvent::KeyRelease(k) => {
            state.release(k);
            (Decision::PassThrough, None)
        },
        InputEvent::Other => (Decision::PassThrough, None),
    }
}

/// The held-set after replaying `es` against an initially empty state, with
/// no combo firing in between: presses insert, releases remove, other events
/// change nothing.
pub open spec fn replay_held(es: Seq<InputEvent>) -> Set<Key>
    decreases es.len(),
{
    if es.len() == 0 {
        Set::<Key>::empty()
    } else {
        let prev = replay_held(es.drop_last());
        match es.last() {
            InputEvent::KeyPress(k) => prev.insert(k),
            InputEvent::KeyRelease(k) => prev.remove(k),
            InputEvent::Other => prev,
        }
    }
}

/// Replays an event sequence against a fresh `KeyState` with no keymap in
/// play: presses and releases update the held-set, other events do not.
pub fn replay(events: &Vec<InputEvent>) -> (s: KeyState)
    ensures
        s.wf(),
        s@ == replay_held(events@),
{
    let mut s = KeyState::new();
    let mut i: usize = 0;
    proof {
        assert(events@.subrange(0, 0) =~= Seq::<InputEvent>::empty());
    }
    while i < events.len()
        invariant
            i <= events.len(),
            s.wf(),
            s@ == replay_held(events@.subrange(0, i as int)),
        decreases events.len() - i,
    {
        match events[i] {
            InputEvent::KeyPress(k) => s.press(k),
            InputEvent::KeyRelease(k) => s.release(k),
            InputEvent::Other => (),
        }
        proof {
            let stepped = events@.subrange(0, i + 1);
            assert(stepped.drop_last() =~= events@.subrange(0, i as int));
            assert(stepped.last() == events@[i as int]);
        }
        i = i + 1;
    }
    proof {
        assert(events@.subrange(0, events@.len() as int) =~= events@);
    }
    s
}

/// `k` was pressed at position `i` and not released afterwards.
pub open spec fn live_press_at(es: Seq<InputEvent>, k: Key, i: int) -> bool {
    &&& 0 <= i < es.len()
    &&& es[i] == InputEvent::KeyPress(k)
    &&& forall|j: int| i < j < es.len() ==> es[j] != InputEvent::KeyRelease(k)
}

/// `k` was pressed somewhere and never released afterwards.
pub open spec fn pressed_not_released(es: Seq<InputEvent>, k: Key) -> bool {
    exists|i: int| live_press_at(es, k, i)
}

/// Replaying any event sequence leaves exactly the keys pressed but not yet
/// released, whatever order presses and releases arrive in.
pub proof fn lemma_replay_membership(es: Seq<InputEvent>, k: Key)
    ensures
        replay_held(es).contains(k) == pressed_not_released(es, k),
    decreases es.len(),
{
    if es.len() == 0 {
        assert(!pressed_not_released(es, k));
    } else {
        let dl = es.drop_last();
        let n = es.len() - 1;
        lemma_replay_membership(dl, k);
        if es.last() == InputEvent::KeyPress(k) {
            assert(live_press_at(es, k, n));
        } else if es.last() == InputEvent::KeyRelease(k) {
            assert forall|i: int| !live_press_at(es, k, i) by {
                if 0 <= i < es.len() && es[i] == InputEvent::KeyPress(k) {
                    assert(i < n);
                    assert(es[n] == InputEvent::KeyRelease(k));
                }
            }
        } else {
            if pressed_not_released(dl, k) {
                let i = choose|i: int| live_press_at(dl, k, i);
                assert(es[i] == dl[i]);
                assert forall|j: int| i < j < es.len() implies es[j] != InputEvent::KeyRelease(
                    k,
                ) by {
                    if j < n {
                        assert(es[j] == dl[j]);
                    }
                }
                assert(live_press_at(es, k, i));
            }
            if pressed_not_released(es, k) {
                let i = choose|i: int| live_press_at(es, k, i);
                assert(i < n);
                assert forall|j: int| i < j < dl.len() implies dl[j] != InputEvent::KeyRelease(
                    k,
                ) by {
                    assert(dl[j] == es[j]);
                }
                assert(live_press_at(dl, k, i));
            }
        }
    }
}

} // verus!
