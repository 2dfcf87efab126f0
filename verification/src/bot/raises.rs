//! How much a player can raise to.

use vstd::prelude::*;

verus! {

/// Whether raising to `x` is offered: the least raise, half the pot, the pot,
/// or everything, as far as they are legal.
pub open spec fn is_preset(x: int, current_bet: int, min_raise_to: int, pot: int, max_to: int) -> bool {
    let half_pot = current_bet + if pot / 2 >= 1 { pot / 2 } else { 1 };
    let full_pot = current_bet + if pot >= 1 { pot } else { 1 };
    ||| x == min_raise_to && min_raise_to <= max_to
    ||| x == half_pot && min_raise_to <= half_pot < max_to
    ||| x == full_pot && min_raise_to <= full_pot < max_to
    ||| x == max_to && min_raise_to <= max_to
}

/// Whether the numbers rise.
pub open spec fn rising(s: Seq<u64>) -> bool {
    forall|i: int, j: int| 0 <= i < j < s.len() ==> s[i] < s[j]
}

/// Whether the row is that of the raises offered.
pub open spec fn lists_presets(s: Seq<u64>, current_bet: int, min_raise_to: int, pot: int, max_to: int) -> bool {
    rising(s) && forall|x: u64| #[trigger] s.contains(x) <==> is_preset(x as int, current_bet, min_raise_to, pot, max_to)
}

/// The raises that are offered, in rising order.
pub open spec fn presets_of(current_bet: int, min_raise_to: int, pot: int, max_to: int) -> Seq<u64> {
    choose|s: Seq<u64>| lists_presets(s, current_bet, min_raise_to, pot, max_to)
}

/// There is only one such row.
pub proof fn presets_are(s: Seq<u64>, current_bet: int, min_raise_to: int, pot: int, max_to: int)
    requires
        lists_presets(s, current_bet, min_raise_to, pot, max_to),
    ensures
        presets_of(current_bet, min_raise_to, pot, max_to) == s,
{
    let t = presets_of(current_bet, min_raise_to, pot, max_to);
    assert(lists_presets(t, current_bet, min_raise_to, pot, max_to));
    rising_rows_are_equal(s, t);
}

/// Put a number where it belongs among rising ones, unless it is there.
fn insert_rising(v: &mut Vec<u64>, x: u64)
    requires
        rising(old(v)@),
    ensures
        rising(final(v)@),
        final(v)@.len() <= old(v)@.len() + 1,
        forall|y: u64| final(v)@.contains(y) <==> y == x || old(v)@.contains(y),
{
    let ghost before = v@;
    let mut i: usize = 0;
    while i < v.len() && v[i] < x
        invariant
            v@ == before,
            rising(before),
            i <= before.len(),
            forall|k: int| 0 <= k < i ==> before[k] < x,
        decreases before.len() - i,
    {
        i = i + 1;
    }
    if i < v.len() && v[i] == x {
        assert(before[i as int] == x);
        return;
    }
    assert forall|k: int| i <= k < before.len() implies before[k] > x by {
        if k > i {
            assert(before[i as int] < before[k]);
        }
    }
    v.insert(i, x);
    assert(v@[i as int] == x);
    assert forall|y: u64| v@.contains(y) <==> y == x || before.contains(y) by {
        if before.contains(y) {
            let k = choose|k: int| 0 <= k < before.len() && before[k] == y;
            if k < i {
                assert(v@[k] == y);
            } else {
                assert(v@[k + 1] == y);
            }
        }
        if v@.contains(y) {
            let k = choose|k: int| 0 <= k < v@.len() && v@[k] == y;
            if k < i {
                assert(before[k] == y);
            } else if k > i {
                assert(before[k - 1] == y);
            }
        }
    }
}

/// The raises that are offered, in rising order, each once.
pub fn raise_presets(current_bet: u64, min_raise_to: u64, pot: u64, max_to: u64) -> (r: Vec<u64>)
    requires
        current_bet + (if pot >= 1 { pot } else { 1 }) <= u64::MAX,
    ensures
        r@ == presets_of(current_bet as int, min_raise_to as int, pot as int, max_to as int),
        rising(r@),
        r@.len() <= 4,
        forall|x: u64| r@.contains(x) <==> is_preset(
            x as int,
            current_bet as int,
            min_raise_to as int,
            pot as int,
            max_to as int,
        ),
{
    let mut s: Vec<u64> = Vec::new();
    if min_raise_to <= max_to {
        insert_rising(&mut s, min_raise_to);
    }
    let half_pot: u64 = current_bet + if pot / 2 >= 1 { pot / 2 } else { 1 };
    if half_pot >= min_raise_to && half_pot < max_to {
        insert_rising(&mut s, half_pot);
    }
    let pot_raise: u64 = current_bet + if pot >= 1 { pot } else { 1 };
    if pot_raise >= min_raise_to && pot_raise < max_to {
        insert_rising(&mut s, pot_raise);
    }
    if max_to >= min_raise_to {
        insert_rising(&mut s, max_to);
    }
    proof {
        presets_are(s@, current_bet as int, min_raise_to as int, pot as int, max_to as int);
    }
    s
}

/// Two rising rows with the same numbers are the same.
pub proof fn rising_rows_are_equal(a: Seq<u64>, b: Seq<u64>)
    requires
        rising(a),
        rising(b),
        forall|x: u64| a.contains(x) <==> b.contains(x),
    ensures
        a == b,
    decreases a.len(),
{
    if a.len() == 0 {
        if b.len() > 0 {
            assert(b.contains(b[0]));
        }
        assert(a =~= b);
    } else {
        assert(a.contains(a.last()));
        let k = choose|k: int| 0 <= k < b.len() && b[k] == a.last();
        assert(b.contains(b.last()));
        let l = choose|l: int| 0 <= l < a.len() && a[l] == b.last();
        assert(a.last() == b.last()) by {
            if k < b.len() - 1 {
                assert(b[k] < b[b.len() - 1]);
            }
            if l < a.len() - 1 {
                assert(a[l] < a[a.len() - 1]);
            }
        }
        let ra = a.drop_last();
        let rb = b.drop_last();
        assert forall|x: u64| ra.contains(x) <==> rb.contains(x) by {
            if ra.contains(x) {
                let i = choose|i: int| 0 <= i < ra.len() && ra[i] == x;
                assert(a[i] == x && a[i] < a[a.len() - 1]);
                assert(a.contains(x));
                let j = choose|j: int| 0 <= j < b.len() && b[j] == x;
                assert(rb[j] == x);
            }
            if rb.contains(x) {
                let i = choose|i: int| 0 <= i < rb.len() && rb[i] == x;
                assert(b[i] == x && b[i] < b[b.len() - 1]);
                assert(b.contains(x));
                let j = choose|j: int| 0 <= j < a.len() && a[j] == x;
                assert(ra[j] == x);
            }
        }
        rising_rows_are_equal(ra, rb);
        assert(a =~= ra.push(a.last()));
        assert(b =~= rb.push(b.last()));
    }
}

} // verus!
