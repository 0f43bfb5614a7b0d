//! Working out what arrangement some pieces are in: whether no piece is
//! there twice, and how many swaps put every piece in its slot.
use crate::perm::{
    count_above, distinct, identity, inversions, lemma_identity_even, lemma_swap_parity, parity,
    swapped,
};
use vstd::prelude::*;

verus! {

/// The integers that bytes hold.
pub open spec fn ints(bytes: Seq<u8>) -> Seq<int> {
    Seq::new(bytes.len(), |j: int| bytes[j] as int)
}

/// Every piece is one of `0 .. n`, where `n` is the number of slots.
pub open spec fn in_range(s: Seq<int>) -> bool {
    forall|i: int| 0 <= i < s.len() ==> 0 <= #[trigger] s[i] < s.len()
}

/// The number of slots that do not hold their own piece.
pub open spec fn misplaced(s: Seq<int>) -> int
    decreases s.len(),
{
    if s.len() == 0 {
        0
    } else {
        misplaced(s.drop_last()) + if s.last() != s.len() - 1 {
            1int
        } else {
            0int
        }
    }
}

/// The number of swaps that bring every piece from the slot `slot` on to its
/// own slot, where each swap takes the piece of the first slot that is wrong
/// to the slot where it belongs. The pieces are `0 .. n`, each of them once.
///
/// A cycle of the arrangement is undone with one swap less than it has
/// pieces, so this is the number of pieces less the number of cycles.
pub open spec fn swaps_from(s: Seq<int>, slot: int) -> int
    decreases s.len() - slot, misplaced(s),
    when distinct(s) && in_range(s) && 0 <= slot
    via swaps_from_decreases
{
    if slot >= s.len() {
        0
    } else if s[slot] == slot {
        swaps_from(s, slot + 1)
    } else {
        1 + swaps_from(swapped(s, slot, s[slot]), slot)
    }
}

#[via_fn]
proof fn swaps_from_decreases(s: Seq<int>, slot: int) {
    if slot < s.len() && s[slot] != slot {
        lemma_swap_home(s, slot);
    }
}

/// Taking the piece of a slot to where it belongs leaves fewer slots
/// misplaced, and leaves an arrangement.
proof fn lemma_swap_home(s: Seq<int>, slot: int)
    requires
        distinct(s),
        in_range(s),
        0 <= slot < s.len(),
        s[slot] != slot,
    ensures
        0 <= misplaced(swapped(s, slot, s[slot])) < misplaced(s),
        swapped(s, slot, s[slot]).len() == s.len(),
        distinct(swapped(s, slot, s[slot])),
        in_range(swapped(s, slot, s[slot])),
{
    let target = s[slot];
    assert(0 <= target < s.len());
    assert(s[target] != s[slot]);
    lemma_misplaced_update(s, slot, s[target]);
    lemma_misplaced_update(s.update(slot, s[target]), target, s[slot]);
    crate::perm::lemma_swapped_distinct(s, slot, target);
    let t = swapped(s, slot, target);
    lemma_misplaced_zero(t);
    assert forall|i: int| 0 <= i < t.len() implies 0 <= #[trigger] t[i] < t.len() by {
        assert(0 <= s[i] < s.len());
        assert(0 <= s[target] < s.len());
    }
}

/// Whether no byte is there twice.
pub fn all_distinct(values: &[u8]) -> (ok: bool)
    ensures
        ok == distinct(ints(values@)),
{
    let n = values.len();
    let mut j: usize = 0;
    while j < n
        invariant
            j <= n,
            n == values.len(),
            forall|a: int, b: int| 0 <= a < b < j ==> values[a] != values[b],
        decreases n - j,
    {
        let mut i: usize = 0;
        while i < j
            invariant
                i <= j < n,
                n == values.len(),
                forall|a: int| 0 <= a < i ==> values[a] != values[j as int],
            decreases j - i,
        {
            if values[i] == values[j] {
                proof {
                    assert(ints(values@)[i as int] == ints(values@)[j as int]);
                }
                return false;
            }
            i += 1;
        }
        j += 1;
    }
    proof {
        assert forall|a: int, b: int|
            0 <= a < ints(values@).len() && 0 <= b < ints(values@).len() && a != b implies ints(
            values@,
        )[a] != ints(values@)[b] by {
            if a < b {
                assert(values[a] != values[b]);
            } else {
                assert(values[b] != values[a]);
            }
        }
    }
    true
}

/// The parity of the arrangement that some bytes are in: 0 if the number of
/// pairs of bytes that are out of order is even, 1 if it is odd.
pub fn parity_of(values: &[u8]) -> (p: u8)
    ensures
        p as int == parity(ints(values@)),
{
    let n = values.len();
    let ghost s = ints(values@);
    let mut odd = false;
    let mut j: usize = 0;
    proof {
        assert(s.take(0) =~= Seq::<int>::empty());
    }
    while j < n
        invariant
            j <= n,
            n == values.len(),
            s == ints(values@),
            odd == (inversions(s.take(j as int)) % 2 == 1),
        decreases n - j,
    {
        let ghost prefix = s.take(j as int);
        let mut i: usize = 0;
        let ghost before = odd;
        let mut above_odd = false;
        proof {
            assert(prefix.take(0) =~= Seq::<int>::empty());
        }
        while i < j
            invariant
                i <= j < n,
                n == values.len(),
                s == ints(values@),
                prefix == s.take(j as int),
                above_odd == (count_above(prefix.take(i as int), s[j as int]) % 2 == 1),
            decreases j - i,
        {
            proof {
                assert(prefix.take(i + 1).drop_last() =~= prefix.take(i as int));
                assert(prefix.take(i + 1).last() == s[i as int]);
            }
            if values[i] > values[j] {
                above_odd = !above_odd;
            }
            i += 1;
        }
        proof {
            assert(prefix.take(j as int) =~= prefix);
            assert(s.take(j + 1).drop_last() =~= prefix);
            assert(s.take(j + 1).last() == s[j as int]);
        }
        if above_odd {
            odd = !odd;
        }
        j += 1;
    }
    proof {
        assert(s.take(n as int) =~= s);
    }
    if odd {
        1
    } else {
        0
    }
}

/// Putting a piece into a slot changes the number of misplaced slots by
/// what the slot was and what it becomes.
proof fn lemma_misplaced_update(s: Seq<int>, i: int, v: int)
    requires
        0 <= i < s.len(),
    ensures
        misplaced(s.update(i, v)) == misplaced(s) - (if s[i] != i {
            1int
        } else {
            0int
        }) + (if v != i {
            1int
        } else {
            0int
        }),
    decreases s.len(),
{
    let t = s.update(i, v);
    if i == s.len() - 1 {
        assert(t.drop_last() =~= s.drop_last());
    } else {
        assert(t.drop_last() =~= s.drop_last().update(i, v));
        lemma_misplaced_update(s.drop_last(), i, v);
    }
}

/// No slot is misplaced just when every piece is in its own slot.
proof fn lemma_misplaced_zero(s: Seq<int>)
    ensures
        misplaced(s) >= 0,
        misplaced(s) == 0 <==> s =~= identity(s.len()),
    decreases s.len(),
{
    if s.len() > 0 {
        lemma_misplaced_zero(s.drop_last());
        if misplaced(s) == 0 {
            assert forall|i: int| 0 <= i < s.len() implies s[i] == i by {
                if i < s.len() - 1 {
                    assert(s.drop_last()[i] == identity((s.len() - 1) as nat)[i]);
                }
            }
        }
        if s =~= identity(s.len()) {
            assert(s.drop_last() =~= identity((s.len() - 1) as nat));
        }
    }
}

/// The number of swaps that put every piece in its own slot, where a swap
/// takes the piece of the first slot that is wrong to where it belongs: for
/// each cycle of the arrangement, one less than its length.
///
/// The pieces are `0 .. n`, each of them once. The count is even or odd as
/// the arrangement is, and it is 0 just when nothing is out of place.
pub fn count_swaps(values: &[u8]) -> (swaps: u8)
    requires
        values.len() <= 255,
        distinct(ints(values@)),
        in_range(ints(values@)),
    ensures
        swaps as int == swaps_from(ints(values@), 0),
        swaps as int % 2 == parity(ints(values@)),
        swaps <= misplaced(ints(values@)),
        swaps == 0 <==> ints(values@) == identity(values@.len()),
{
    let n = values.len();
    let mut work: Vec<u8> = Vec::new();
    let mut k: usize = 0;
    while k < n
        invariant
            k <= n,
            n == values.len(),
            work.len() == k,
            forall|i: int| 0 <= i < k ==> work[i] == values[i],
        decreases n - k,
    {
        work.push(values[k]);
        k += 1;
    }
    let ghost start = ints(values@);
    proof {
        assert(ints(work@) =~= start);
        lemma_misplaced_zero(start);
        lemma_count_bound(start);
    }
    let mut swaps: u8 = 0;
    let mut slot: usize = 0;
    while slot < n
        invariant
            slot <= n,
            n == work.len(),
            n <= 255,
            start.len() == n,
            start == ints(values@),
            distinct(ints(work@)),
            in_range(ints(work@)),
            forall|i: int| 0 <= i < slot ==> work[i] as int == i,
            (swaps as int + parity(ints(work@))) % 2 == parity(start),
            swaps + misplaced(ints(work@)) <= misplaced(start),
            misplaced(start) <= n,
            swaps == 0 ==> ints(work@) == start,
            swaps > 0 ==> misplaced(start) > 0,
            swaps + swaps_from(ints(work@), slot as int) == swaps_from(start, 0),
        decreases n - slot,
    {
        while work[slot] as usize != slot
            invariant
                slot < n,
                n == work.len(),
                n <= 255,
                start.len() == n,
                start == ints(values@),
                distinct(ints(work@)),
                in_range(ints(work@)),
                forall|i: int| 0 <= i < slot ==> work[i] as int == i,
                (swaps as int + parity(ints(work@))) % 2 == parity(start),
                swaps + misplaced(ints(work@)) <= misplaced(start),
                misplaced(start) <= n,
                swaps == 0 ==> ints(work@) == start,
                swaps > 0 ==> misplaced(start) > 0,
                swaps + swaps_from(ints(work@), slot as int) == swaps_from(start, 0),
            decreases misplaced(ints(work@)),
        {
            let ghost before = ints(work@);
            let target = work[slot] as usize;
            proof {
                assert(0 <= before[slot as int] < n);
            }
            let displaced = work[target];
            proof {
                assert(before[slot as int] == target);
                assert(0 <= before[slot as int] < n);
                assert(before[target as int] != before[slot as int]);
                lemma_misplaced_zero(before);
                lemma_swap_parity(before, slot as int, target as int);
                lemma_misplaced_update(before, slot as int, before[target as int]);
                lemma_misplaced_update(
                    before.update(slot as int, before[target as int]),
                    target as int,
                    before[slot as int],
                );
            }
            work[slot] = displaced;
            work[target] = target as u8;
            proof {
                assert(ints(work@) =~= swapped(before, slot as int, target as int));
                lemma_misplaced_zero(ints(work@));
                assert forall|i: int| 0 <= i < ints(work@).len() implies 0 <= #[trigger] ints(
                    work@,
                )[i] < ints(work@).len() by {
                    assert(0 <= before[i] < n);
                    assert(0 <= before[slot as int] < n);
                    assert(0 <= before[target as int] < n);
                }
            }
            swaps = swaps + 1;
        }
        proof {
            assert(ints(work@)[slot as int] == slot);
        }
        slot += 1;
    }
    proof {
        assert(ints(work@) =~= identity(n as nat));
        lemma_identity_even(n as nat);
        lemma_misplaced_zero(ints(work@));
        lemma_misplaced_zero(start);
    }
    swaps
}

/// There are fewer swaps than slots, for a swap leaves no slot misplaced alone.
pub proof fn lemma_misplaced_bound(s: Seq<int>)
    ensures
        0 <= misplaced(s) <= s.len(),
{
    lemma_count_bound(s);
    lemma_misplaced_zero(s);
}

/// There are no more misplaced slots than slots.
proof fn lemma_count_bound(s: Seq<int>)
    ensures
        misplaced(s) <= s.len(),
    decreases s.len(),
{
    if s.len() > 0 {
        lemma_count_bound(s.drop_last());
    }
}

} // verus!
