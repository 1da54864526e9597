//! The auto-play pool: each sentence's index, starred ones several times,
//! shuffled.
use vstd::prelude::*;
use rand::seq::SliceRandom;
use crate::sentence::{Sentence, SentenceView, sentence_views};

verus! {

#[verifier::external_type_specification]
#[verifier::external_body]
pub struct ExThreadRng(rand::rngs::ThreadRng);

/// The thread-local random number generator.
///
/// Trusted: calls `rand::rng`, which hands out a handle to the lazily
/// seeded generator of the current thread. Nothing is stated of it.
#[verifier::external_body]
fn thread_rng() -> rand::rngs::ThreadRng {
    rand::rng()
}

/// Shuffles `v` in place.
///
/// Trusted: calls `SliceRandom::shuffle` on the vector's slice, whose source
/// (a Fisher-Yates shuffle) only swaps elements: the result is a permutation
/// of the input. Which permutation depends on the generator and is not
/// stated.
#[verifier::external_body]
fn shuffle_with(v: &mut Vec<usize>, rng: &mut rand::rngs::ThreadRng)
    ensures
        final(v)@.len() == old(v)@.len(),
        final(v)@.to_multiset() == old(v)@.to_multiset(),
{
    v.shuffle(rng);
}

/// Puts `v` in a random order.
pub fn shuffle(v: &mut Vec<usize>)
    ensures
        final(v)@.len() == old(v)@.len(),
        final(v)@.to_multiset() == old(v)@.to_multiset(),
{
    let mut rng = thread_rng();
    shuffle_with(v, &mut rng);
}

/// How many times a sentence goes into the pool: `w` when starred, else 1.
pub open spec fn weight(s: SentenceView, w: nat) -> nat {
    if s.starred {
        w
    } else {
        1
    }
}

/// `k` copies of `i`.
pub open spec fn repeat(i: usize, k: nat) -> Seq<usize> {
    Seq::new(k, |_j: int| i)
}

/// The pool of the first `n` sentences, in index order: index `i` appears
/// `weight(ss[i], w)` times.
pub open spec fn pool(ss: Seq<SentenceView>, w: nat, n: nat) -> Seq<usize>
    decreases n,
{
    if n == 0 {
        seq![]
    } else {
        pool(ss, w, (n - 1) as nat) + repeat((n - 1) as usize, weight(ss[n - 1], w))
    }
}

/// `k` copies of `i` hold `i` exactly `k` times and nothing else.
pub proof fn lemma_repeat_count(i: usize, k: nat, x: usize)
    ensures
        repeat(i, k).to_multiset().count(x) == if x == i {
            k
        } else {
            0
        },
    decreases k,
{
    broadcast use vstd::seq_lib::group_to_multiset_ensures;

    if k == 0 {
        assert(repeat(i, 0) =~= Seq::<usize>::empty());
    } else {
        lemma_repeat_count(i, (k - 1) as nat, x);
        assert(repeat(i, k) =~= repeat(i, (k - 1) as nat).push(i));
    }
}

/// Every sentence is in the pool exactly as often as its weight: once, or
/// `w` times when starred; no other index is.
pub proof fn lemma_pool_count(ss: Seq<SentenceView>, w: nat, n: nat, x: usize)
    requires
        n <= ss.len(),
        n <= usize::MAX,
    ensures
        pool(ss, w, n).to_multiset().count(x) == if x < n {
            weight(ss[x as int], w)
        } else {
            0
        },
    decreases n,
{
    if n == 0 {
        assert(pool(ss, w, 0).to_multiset() =~= vstd::multiset::Multiset::empty()) by {
            broadcast use vstd::seq_lib::group_to_multiset_ensures;

            assert(pool(ss, w, 0) =~= Seq::<usize>::empty());
        }
    } else {
        let m = (n - 1) as nat;
        lemma_pool_count(ss, w, m, x);
        lemma_repeat_count(m as usize, weight(ss[m as int], w), x);
        vstd::seq_lib::lemma_multiset_commutative(
            pool(ss, w, m),
            repeat(m as usize, weight(ss[m as int], w)),
        );
    }
}

/// The pool of all the sentences: each index once, or `w` times when the
/// sentence is starred, in index order.
pub fn weighted_pool(sentences: &Vec<Sentence>, w: usize) -> (r: Vec<usize>)
    ensures
        r@ == pool(sentence_views(sentences@), w as nat, sentences@.len()),
{
    let ghost ss = sentence_views(sentences@);
    let mut r: Vec<usize> = Vec::new();
    let n = sentences.len();
    for i in 0..n
        invariant
            n == sentences@.len(),
            ss == sentence_views(sentences@),
            r@ == pool(ss, w as nat, i as nat),
    {
        let k: usize = if sentences[i].starred {
            w
        } else {
            1
        };
        assert(ss[i as int].starred == sentences@[i as int].starred);
        let ghost base = r@;
        for j in 0..k
            invariant
                r@ == base + repeat(i, j as nat),
        {
            r.push(i);
            assert(repeat(i, (j + 1) as nat) =~= repeat(i, j as nat).push(i));
        }
        assert(pool(ss, w as nat, (i + 1) as nat) == base + repeat(i, weight(ss[i as int], w as nat)));
    }
    r
}

} // verus!
