//! Random selection of positions, and what it means for a list of words to be
//! a draw from a pool.

use vstd::prelude::*;

verus! {

/// `at` names `at.len()` different positions of a sequence of `length` items.
pub open spec fn distinct_positions(at: Seq<usize>, length: nat) -> bool {
    &&& forall|i: int| 0 <= i < at.len() ==> (#[trigger] at[i]) < length
    &&& forall|i: int, j: int| 0 <= i < j < at.len() ==> at[i] != at[j]
}

/// `picked` holds the words of `pool` at the positions `at`, in that order.
pub open spec fn drawn_at(picked: Seq<Seq<char>>, pool: Seq<Seq<char>>, at: Seq<usize>) -> bool {
    &&& distinct_positions(at, pool.len())
    &&& picked.len() == at.len()
    &&& forall|i: int| 0 <= i < at.len() ==> #[trigger] picked[i] == pool[at[i] as int]
}

/// `picked` is a draw from `pool` without repetition: each of its words stands
/// at a position of `pool`, and no position is used twice.
pub open spec fn is_draw(picked: Seq<Seq<char>>, pool: Seq<Seq<char>>) -> bool {
    exists|at: Seq<usize>| drawn_at(picked, pool, at)
}

/// `picked` is a draw of `n` words from `pool`, or of all its words where it
/// holds fewer than `n`.
pub open spec fn drawn(picked: Seq<Seq<char>>, pool: Seq<Seq<char>>, n: nat) -> bool {
    &&& is_draw(picked, pool)
    &&& picked.len() == if n < pool.len() {
        n
    } else {
        pool.len()
    }
}

/// Every word of a draw occurs in the pool it was drawn from.
pub proof fn lemma_draw_within_pool(picked: Seq<Seq<char>>, pool: Seq<Seq<char>>)
    requires
        is_draw(picked, pool),
    ensures
        picked.len() <= pool.len(),
        forall|i: int| 0 <= i < picked.len() ==> pool.contains(#[trigger] picked[i]),
{
    let at = choose|at: Seq<usize>| drawn_at(picked, pool, at);
    assert forall|i: int| 0 <= i < picked.len() implies pool.contains(#[trigger] picked[i]) by {
        assert(picked[i] == pool[at[i] as int]);
    }
    lemma_distinct_positions_len(at, pool.len());
}

/// No more than `length` different positions fit below `length`.
pub proof fn lemma_distinct_positions_len(at: Seq<usize>, length: nat)
    requires
        distinct_positions(at, length),
    ensures
        at.len() <= length,
{
    let used = at.to_set();
    let all = Set::new(|p: usize| p < length);
    assert(at.no_duplicates());
    at.unique_seq_to_set();
    assert(used.subset_of(all)) by {
        assert forall|p: usize| used.contains(p) implies all.contains(p) by {
            let i = choose|i: int| 0 <= i < at.len() && at[i] == p;
            assert(at[i] < length);
        }
    }
    lemma_positions_below(length);
    vstd::set_lib::lemma_len_subset(used, all);
}

/// There are `min(length, usize::MAX + 1)` positions below `length`; in
/// particular the set is finite and has at most `length` members.
proof fn lemma_positions_below(length: nat)
    ensures
        Set::new(|p: usize| p < length).finite(),
        Set::new(|p: usize| p < length).len() <= length,
    decreases length,
{
    let all = Set::new(|p: usize| p < length);
    if length == 0 {
        assert(all =~= Set::<usize>::empty());
    } else {
        let below = Set::new(|p: usize| p < (length - 1) as nat);
        lemma_positions_below((length - 1) as nat);
        if length - 1 <= usize::MAX {
            let last = (length - 1) as usize;
            assert(all =~= below.insert(last));
        } else {
            assert(all =~= below);
        }
    }
}

/// Draws `amount` different positions below `length` at random.
///
/// Calls `rand::seq::index::sample` with the thread's generator
/// (`rand::thread_rng`). Trusted: the positions that come back are `amount`
/// in number, each below `length`, and no two of them are the same. Nothing is
/// said of which positions they are or of their order, which are random.
/// `sample` panics where `amount` is above `length`, which the precondition
/// rules out. The generator is seeded from the operating system on first
/// use; should that fail, the call panics.
#[verifier::external_body]
pub(crate) fn choose_positions(length: usize, amount: usize) -> (at: Vec<usize>)
    requires
        amount <= length,
    ensures
        at@.len() == amount,
        distinct_positions(at@, length as nat),
{
    rand::seq::index::sample(&mut rand::thread_rng(), length, amount).into_vec()
}

/// The words of `list` at the positions `at`, in the order of `at`.
pub fn words_at(list: &Vec<String>, at: &Vec<usize>) -> (picked: Vec<String>)
    requires
        forall|k: int| 0 <= k < at@.len() ==> (#[trigger] at@[k]) < list@.len(),
    ensures
        picked@.len() == at@.len(),
        forall|k: int|
            0 <= k < at@.len() ==> (#[trigger] picked.deep_view()[k]) == list.deep_view()[at@[k] as int],
{
    let mut picked: Vec<String> = Vec::new();
    let mut k: usize = 0;
    while k < at.len()
        invariant
            k <= at.len(),
            picked@.len() == k,
            forall|j: int| 0 <= j < at@.len() ==> (#[trigger] at@[j]) < list@.len(),
            forall|j: int|
                0 <= j < k ==> (#[trigger] picked.deep_view()[j]) == list.deep_view()[at@[j] as int],
        decreases at.len() - k,
    {
        let word = list[at[k]].clone();
        let ghost before = picked.deep_view();
        picked.push(word);
        assert(picked.deep_view() == before.push(word@));
        k += 1;
    }
    picked
}

} // verus!
