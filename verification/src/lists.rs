//! Facts about sequences that several modules need.
use vstd::prelude::*;

use crate::text;

verus! {

/// What a filter keeps comes from the sequence and meets the condition.
pub proof fn lemma_filtered<A>(s: Seq<A>, keep: spec_fn(A) -> bool)
    ensures
        forall|i: int|
            0 <= i < s.filter(keep).len() ==> s.contains(#[trigger] s.filter(keep)[i]) && keep(
                s.filter(keep)[i],
            ),
        s.filter(keep).len() <= s.len(),
    decreases s.len(),
{
    reveal(Seq::filter);
    if s.len() > 0 {
        let t = s.drop_last();
        lemma_filtered(t, keep);
        assert forall|i: int| 0 <= i < s.filter(keep).len() implies s.contains(
            #[trigger] s.filter(keep)[i],
        ) && keep(s.filter(keep)[i]) by {
            if i < t.filter(keep).len() {
                assert(s.filter(keep)[i] == t.filter(keep)[i]);
                let j = choose|j: int| 0 <= j < t.len() && t[j] == t.filter(keep)[i];
                assert(s[j] == t[j]);
            } else {
                assert(s[s.len() - 1] == s.filter(keep)[i]);
            }
        }
    }
}

// ---------------------------------------------------------------------------
// Sorting
// ---------------------------------------------------------------------------

/// The entry `a` stands before the entry `b` in a list with the greatest key first:
/// its key is greater, or the keys are equal and it came first.
pub open spec fn listed_before(keys: Seq<Seq<char>>, a: int, b: int) -> bool {
    ||| text::precedes(keys[b], keys[a])
    ||| keys[a] == keys[b] && a < b
}

/// `order` names each of the first `n` entries once, the greatest key first.
pub open spec fn is_descending(keys: Seq<Seq<char>>, order: Seq<usize>, n: int) -> bool {
    &&& order.len() == n
    &&& forall|i: int| 0 <= i < order.len() ==> (#[trigger] order[i]) < n
    &&& forall|i: int, j: int|
        0 <= i < j < order.len() ==> listed_before(
            keys,
            #[trigger] order[i] as int,
            #[trigger] order[j] as int,
        )
}

/// The order in which entries with these keys are listed, the greatest key first.
pub fn descending_order(keys: &Vec<String>) -> (order: Vec<usize>)
    ensures
        is_descending(text::views(keys@), order@, keys@.len() as int),
{
    let mut order: Vec<usize> = Vec::new();
    let ghost all = text::views(keys@);
    for k in 0..keys.len()
        invariant
            all == text::views(keys@),
            is_descending(all, order@, k as int),
    {
        let mut pos: usize = 0;
        while pos < order.len() && !text::str_precedes(
            keys[order[pos]].as_str(),
            keys[k].as_str(),
        )
            invariant
                all == text::views(keys@),
                k < keys@.len(),
                is_descending(all, order@, k as int),
                pos <= order@.len(),
                forall|i: int|
                    0 <= i < pos ==> listed_before(all, #[trigger] order@[i] as int, k as int),
            decreases order@.len() - pos,
        {
            proof {
                text::lemma_precedes_total(all[order@[pos as int] as int], all[k as int]);
            }
            pos += 1;
        }
        let ghost before = order@;
        assert forall|i: int| pos <= i < before.len() implies listed_before(
            all,
            k as int,
            #[trigger] before[i] as int,
        ) by {
            if i > pos {
                let a = before[pos as int] as int;
                let b = before[i] as int;
                assert(listed_before(all, a, b));
                if text::precedes(all[b], all[a]) {
                    text::lemma_precedes_transitive(all[b], all[a], all[k as int]);
                }
            }
        }
        order.insert(pos, k);
        assert forall|i: int, j: int| 0 <= i < j < order@.len() implies listed_before(
            all,
            #[trigger] order@[i] as int,
            #[trigger] order@[j] as int,
        ) by {
            let bi = if i < pos {
                i
            } else {
                i - 1
            };
            let bj = if j < pos {
                j
            } else {
                j - 1
            };
            if i != pos {
                assert(order@[i] == before[bi]);
            }
            if j != pos {
                assert(order@[j] == before[bj]);
            }
        }
        assert forall|i: int| 0 <= i < order@.len() implies (#[trigger] order@[i]) < k + 1 by {
            if i < pos {
                assert(order@[i] == before[i]);
            } else if i > pos {
                assert(order@[i] == before[i - 1]);
            }
        }
    }
    order
}

/// In a list with the greatest key first no entry occurs twice, none stands behind one with a
/// lesser key, and those with the same key stand in the order in which they came.
pub proof fn law_the_greatest_comes_first(
    keys: Seq<Seq<char>>,
    order: Seq<usize>,
    n: int,
    i: int,
    j: int,
)
    requires
        is_descending(keys, order, n),
        0 <= i < j < n,
    ensures
        order.len() == n,
        order[i] != order[j],
        !text::precedes(keys[order[i] as int], keys[order[j] as int]),
        keys[order[i] as int] == keys[order[j] as int] ==> order[i] < order[j],
{
    let a = order[i] as int;
    let b = order[j] as int;
    assert(listed_before(keys, a, b));
    text::lemma_precedes_total(keys[a], keys[b]);
    text::lemma_precedes_total(keys[a], keys[a]);
}

} // verus!
