//! Rendering a held-key set into its canonical combo identifier.
//!
//! Tokens come in a fixed order — `cmd`, `ctrl`, `shift`, `alt`, then the
//! digits `0`..`9` ascending — joined by `+`. A modifier token is present when
//! either physical variant of that modifier is held. The identifier depends
//! only on the held *set*, never on the order the keys went down.

use vstd::prelude::*;

use crate::keys::{Key, KeyState};

verus! {

/// Either physical command (meta) key is held.
pub open spec fn has_cmd(s: Set<Key>) -> bool {
    s.contains(Key::MetaLeft) || s.contains(Key::MetaRight)
}

/// Either physical control key is held.
pub open spec fn has_ctrl(s: Set<Key>) -> bool {
    s.contains(Key::ControlLeft) || s.contains(Key::ControlRight)
}

/// Either physical shift key is held.
pub open spec fn has_shift(s: Set<Key>) -> bool {
    s.contains(Key::ShiftLeft) || s.contains(Key::ShiftRight)
}

/// Either physical alt key is held.
pub open spec fn has_alt(s: Set<Key>) -> bool {
    s.contains(Key::Alt) || s.contains(Key::AltGr)
}

/// The digit key for `d`.
pub open spec fn digit_key(d: int) -> Key {
    if d == 0 {
        Key::Num0
    } else if d == 1 {
        Key::Num1
    } else if d == 2 {
        Key::Num2
    } else if d == 3 {
        Key::Num3
    } else if d == 4 {
        Key::Num4
    } else if d == 5 {
        Key::Num5
    } else if d == 6 {
        Key::Num6
    } else if d == 7 {
        Key::Num7
    } else if d == 8 {
        Key::Num8
    } else {
        Key::Num9
    }
}

/// The token character for digit `d`.
pub open spec fn digit_char(d: int) -> char {
    if d == 0 {
        '0'
    } else if d == 1 {
        '1'
    } else if d == 2 {
        '2'
    } else if d == 3 {
        '3'
    } else if d == 4 {
        '4'
    } else if d == 5 {
        '5'
    } else if d == 6 {
        '6'
    } else if d == 7 {
        '7'
    } else if d == 8 {
        '8'
    } else {
        '9'
    }
}

/// Appends a token, preceded by the `+` separator unless it is the first.
pub open spec fn sep_app(acc: Seq<char>, tok: Seq<char>) -> Seq<char> {
    if acc.len() == 0 {
        tok
    } else {
        acc.push('+') + tok
    }
}

/// The identifier after appending the tokens of the held digits `d`..`9` to
/// `acc`.
pub open spec fn digit_tokens(s: Set<Key>, acc: Seq<char>, d: int) -> Seq<char>
    decreases 10 - d,
{
    if d < 0 || d > 9 {
        acc
    } else {
        let acc2 = if s.contains(digit_key(d)) {
            sep_app(acc, seq![digit_char(d)])
        } else {
            acc
        };
        digit_tokens(s, acc2, d + 1)
    }
}

/// The identifier after the modifier tokens, before any digit token.
pub open spec fn modifier_tokens(s: Set<Key>) -> Seq<char> {
    let a0 = Seq::<char>::empty();
    let a1 = if has_cmd(s) {
        sep_app(a0, "cmd"@)
    } else {
        a0
    };
    let a2 = if has_ctrl(s) {
        sep_app(a1, "ctrl"@)
    } else {
        a1
    };
    let a3 = if has_shift(s) {
        sep_app(a2, "shift"@)
    } else {
        a2
    };
    if has_alt(s) {
        sep_app(a3, "alt"@)
    } else {
        a3
    }
}

/// The canonical combo identifier of a held-key set.
pub open spec fn spec_combo(s: Set<Key>) -> Seq<char> {
    digit_tokens(s, modifier_tokens(s), 0)
}

fn push_token(out: &mut String, tok: &str)
    ensures
        final(out)@ == sep_app(old(out)@, tok@),
{
    if !out.as_str().is_empty() {
        out.append("+");
        proof {
            reveal_strlit("+");
            assert(out@ =~= old(out)@.push('+'));
        }
    }
    out.append(tok);
}

pub(crate) fn digit_token(d: usize) -> (t: &'static str)
    requires
        d <= 9,
    ensures
        t@ == seq![digit_char(d as int)],
{
    let t: &'static str = if d == 0 {
        "0"
    } else if d == 1 {
        "1"
    } else if d == 2 {
        "2"
    } else if d == 3 {
        "3"
    } else if d == 4 {
        "4"
    } else if d == 5 {
        "5"
    } else if d == 6 {
        "6"
    } else if d == 7 {
        "7"
    } else if d == 8 {
        "8"
    } else {
        "9"
    };
    proof {
        reveal_strlit("0");
        reveal_strlit("1");
        reveal_strlit("2");
        reveal_strlit("3");
        reveal_strlit("4");
        reveal_strlit("5");
        reveal_strlit("6");
        reveal_strlit("7");
        reveal_strlit("8");
        reveal_strlit("9");
        assert(t@ =~= seq![digit_char(d as int)]);
    }
    t
}

fn digit_key_exec(d: usize) -> (k: Key)
    requires
        d <= 9,
    ensures
        k == digit_key(d as int),
{
    if d == 0 {
        Key::Num0
    } else if d == 1 {
        Key::Num1
    } else if d == 2 {
        Key::Num2
    } else if d == 3 {
        Key::Num3
    } else if d == 4 {
        Key::Num4
    } else if d == 5 {
        Key::Num5
    } else if d == 6 {
        Key::Num6
    } else if d == 7 {
        Key::Num7
    } else if d == 8 {
        Key::Num8
    } else {
        Key::Num9
    }
}

/// Renders the currently-held set into its canonical identifier. Two states
/// holding the same set yield byte-identical strings; an empty or
/// unmodeled-only held-set yields the empty string.
pub fn combo_string(state: &KeyState) -> (r: String)
    ensures
        r@ == spec_combo(state@),
{
    let ghost s = state@;
    let mut out = String::new();
    if state.is_held(Key::MetaLeft) || state.is_held(Key::MetaRight) {
        push_token(&mut out, "cmd");
    }
    if state.is_held(Key::ControlLeft) || state.is_held(Key::ControlRight) {
        push_token(&mut out, "ctrl");
    }
    if state.is_held(Key::ShiftLeft) || state.is_held(Key::ShiftRight) {
        push_token(&mut out, "shift");
    }
    if state.is_held(Key::Alt) || state.is_held(Key::AltGr) {
        push_token(&mut out, "alt");
    }
    proof {
        assert(out@ == modifier_tokens(s));
    }
    let mut d: usize = 0;
    while d < 10
        invariant
            d <= 10,
            s == state@,
            spec_combo(s) == digit_tokens(s, out@, d as int),
        decreases 10 - d,
    {
        let ghost prev = out@;
        let k = digit_key_exec(d);
        if state.is_held(k) {
            push_token(&mut out, digit_token(d));
        }
        proof {
            let dd = d as int;
            if s.contains(digit_key(dd)) {
                assert(out@ == sep_app(prev, seq![digit_char(dd)]));
            } else {
                assert(out@ == prev);
            }
            assert(digit_tokens(s, prev, dd) == digit_tokens(s, out@, dd + 1));
        }
        d = d + 1;
    }
    out
}

/// The held-set after pressing the keys of `ks` in order, starting empty.
pub open spec fn held_after_presses(ks: Seq<Key>) -> Set<Key>
    decreases ks.len(),
{
    if ks.len() == 0 {
        Set::<Key>::empty()
    } else {
        held_after_presses(ks.drop_last()).insert(ks.last())
    }
}

/// Pressing keys in any order leaves exactly the set of keys pressed.
pub proof fn lemma_presses_to_set(ks: Seq<Key>)
    ensures
        held_after_presses(ks) == ks.to_set(),
    decreases ks.len(),
{
    if ks.len() == 0 {
        assert(held_after_presses(ks) =~= ks.to_set());
    } else {
        let dl = ks.drop_last();
        lemma_presses_to_set(dl);
        assert forall|x: Key| ks.to_set().contains(x) implies held_after_presses(ks).contains(
            x,
        ) by {
            let j = choose|j: int| 0 <= j < ks.len() && ks[j] == x;
            if j < ks.len() - 1 {
                assert(dl[j] == x);
            }
        }
        assert forall|x: Key| held_after_presses(ks).contains(x) implies ks.to_set().contains(
            x,
        ) by {
            if x == ks.last() {
                assert(ks[ks.len() - 1] == x);
            } else {
                let j = choose|j: int| 0 <= j < dl.len() && dl[j] == x;
                assert(ks[j] == x);
            }
        }
        assert(held_after_presses(ks) =~= ks.to_set());
    }
}

/// Order-independence of the formatter: any two press orders of the same set
/// of keys leave held-sets with identical combo identifiers.
pub proof fn lemma_combo_order_independent(ks1: Seq<Key>, ks2: Seq<Key>)
    requires
        ks1.to_set() == ks2.to_set(),
    ensures
        spec_combo(held_after_presses(ks1)) == spec_combo(held_after_presses(ks2)),
{
    lemma_presses_to_set(ks1);
    lemma_presses_to_set(ks2);
}

} // verus!
