//! Random choice of distinct population members, as differential
//! evolution needs for its mutations.
use vstd::prelude::*;
use vstd::multiset::Multiset;

verus! {

/// The standard random generator of `rand` (`rand::rngs::StdRng`), which
/// the library only passes on to the shuffle.
#[verifier::external_type_specification]
#[verifier::external_body]
pub struct ExStdRng(rand::rngs::StdRng);

/// Shuffles the pool in place (`SliceRandom::shuffle` of `rand`). The
/// order that comes out depends on the generator; whatever it is, the
/// pool keeps its elements.
#[verifier::external_body]
fn shuffle_pool(pool: &mut Vec<usize>, rng: &mut rand::rngs::StdRng)
    ensures
        final(pool)@.len() == old(pool)@.len(),
        final(pool)@.to_multiset() == old(pool)@.to_multiset(),
{
    rand::seq::SliceRandom::shuffle(pool.as_mut_slice(), rng)
}

/// The positions `0..n`, in order.
pub open spec fn positions(n: nat) -> Seq<usize> {
    Seq::new(n, |i: int| i as usize)
}

/// The members taken from `s` in order, skipping `exclude`, until `need`
/// have been taken; with `need` zero or less nothing stops the taking.
pub open spec fn pick_from(s: Seq<usize>, exclude: usize, need: int) -> Seq<usize>
    decreases s.len(),
{
    if s.len() == 0 {
        Seq::empty()
    } else if s[0] == exclude {
        pick_from(s.drop_first(), exclude, need)
    } else if need == 1 {
        seq![s[0]]
    } else {
        seq![s[0]] + pick_from(s.drop_first(), exclude, need - 1)
    }
}

/// Takes members of `shuffled` in order, skipping `exclude`, until `count`
/// of them are taken.
pub fn pick_distinct(shuffled: &Vec<usize>, exclude: usize, count: usize) -> (r: Vec<usize>)
    ensures
        r@ == pick_from(shuffled@, exclude, count as int),
{
    let mut out: Vec<usize> = Vec::new();
    let mut k: usize = 0;
    assert(shuffled@.skip(0) =~= shuffled@);
    assert(out@ + pick_from(shuffled@, exclude, count as int) =~= pick_from(shuffled@, exclude, count as int));
    while k < shuffled.len()
        invariant
            0 <= k <= shuffled.len(),
            out@.len() < count || count == 0,
            out@ + pick_from(shuffled@.skip(k as int), exclude, count - out@.len())
                == pick_from(shuffled@, exclude, count as int),
        decreases shuffled.len() - k,
    {
        let idx = shuffled[k];
        let ghost rest = shuffled@.skip(k as int);
        proof {
            assert(rest[0] == idx);
            assert(rest.drop_first() =~= shuffled@.skip(k + 1));
        }
        if idx == exclude {
            k = k + 1;
            continue;
        }
        let ghost before = out@;
        out.push(idx);
        proof {
            if count - before.len() != 1 {
                assert(before + pick_from(rest, exclude, count - before.len()) =~= out@
                    + pick_from(shuffled@.skip(k + 1), exclude, count - out@.len()));
            }
        }
        if out.len() == count {
            proof {
                assert(before + pick_from(rest, exclude, count - before.len()) =~= out@);
            }
            return out;
        }
        k = k + 1;
    }
    proof {
        assert(shuffled@.skip(shuffled@.len() as int) =~= Seq::<usize>::empty());
        assert(out@ + Seq::<usize>::empty() =~= out@);
    }
    out
}

proof fn lemma_pick_shape(s: Seq<usize>, exclude: usize, need: int)
    requires
        s.no_duplicates(),
    ensures
        pick_from(s, exclude, need).no_duplicates(),
        forall|k: int|
            0 <= k < pick_from(s, exclude, need).len() ==> s.contains(
                #[trigger] pick_from(s, exclude, need)[k],
            ) && pick_from(s, exclude, need)[k] != exclude,
        need >= 1 ==> pick_from(s, exclude, need).len() == (if need
            < s.len() - s.to_multiset().count(exclude) {
            need
        } else {
            s.len() - s.to_multiset().count(exclude)
        }),
    decreases s.len(),
{
    broadcast use vstd::multiset::group_multiset_axioms;

    if s.len() == 0 {
        vstd::seq_lib::to_multiset_len(s);
        vstd::multiset::lemma_multiset_empty_len(s.to_multiset());
    } else {
        let rest = s.drop_first();
        assert(rest.no_duplicates());
        assert(s =~= seq![s[0]] + rest);
        vstd::seq_lib::lemma_multiset_commutative(seq![s[0]], rest);
        assert(seq![s[0]].to_multiset() =~= Multiset::empty().insert(s[0])) by {
            vstd::seq_lib::to_multiset_build(Seq::<usize>::empty(), s[0]);
            assert(Seq::<usize>::empty().push(s[0]) =~= seq![s[0]]);
            vstd::seq_lib::to_multiset_len(Seq::<usize>::empty());
            vstd::multiset::lemma_multiset_empty_len(Seq::<usize>::empty().to_multiset());
        }
        lemma_pick_shape(rest, exclude, need);
        lemma_pick_shape(rest, exclude, need - 1);
        let p = pick_from(s, exclude, need);
        if s[0] != exclude {
            assert forall|k: int| 0 <= k < pick_from(rest, exclude, need - 1).len() implies #[trigger] pick_from(rest, exclude, need - 1)[k] != s[0] by {
                let x = pick_from(rest, exclude, need - 1)[k];
                let j = choose|j: int| 0 <= j < rest.len() && rest[j] == x;
                assert(s[j + 1] == x);
            }
            if need != 1 {
                let q = pick_from(rest, exclude, need - 1);
                assert(p =~= seq![s[0]] + q);
                assert forall|a: int, b: int| 0 <= a < p.len() && 0 <= b < p.len() && a != b implies p[a] != p[b] by {
                    if a == 0 {
                        assert(p[b] == q[b - 1]);
                    } else if b == 0 {
                        assert(p[a] == q[a - 1]);
                    } else {
                        assert(p[a] == q[a - 1] && p[b] == q[b - 1]);
                    }
                }
                assert forall|k: int| 0 <= k < p.len() implies s.contains(#[trigger] p[k]) && p[k] != exclude by {
                    if k == 0 {
                        assert(s[0] == p[0]);
                    } else {
                        assert(p[k] == q[k - 1]);
                        let j = choose|j: int| 0 <= j < rest.len() && rest[j] == q[k - 1];
                        assert(s[j + 1] == p[k]);
                    }
                }
            } else {
                assert(s[0] == p[0]);
            }
        } else {
            assert forall|k: int| 0 <= k < p.len() implies s.contains(#[trigger] p[k]) && p[k] != exclude by {
                let j = choose|j: int| 0 <= j < rest.len() && rest[j] == p[k];
                assert(s[j + 1] == p[k]);
            }
        }
    }
}

/// `count` distinct positions of a population of `pool_size`, other than
/// `exclude`, chosen at random: the positions are shuffled and the first
/// ones other than `exclude` are taken.
pub fn distinct_indices(exclude: usize, count: usize, pool_size: usize, rng: &mut rand::rngs::StdRng) -> (r: Vec<usize>)
    requires
        count <= (if pool_size > 0 { pool_size - 1 } else { 0 }),
    ensures
        exists|p: Seq<usize>|
            p.to_multiset() == #[trigger] positions(pool_size as nat).to_multiset() && r@ == pick_from(
                p,
                exclude,
                count as int,
            ),
        r@.no_duplicates(),
        forall|k: int| 0 <= k < r@.len() ==> #[trigger] r@[k] < pool_size && r@[k] != exclude,
        count >= 1 ==> r@.len() == count,
{
    let mut pool: Vec<usize> = Vec::new();
    let mut i: usize = 0;
    while i < pool_size
        invariant
            0 <= i <= pool_size,
            pool@ == positions(i as nat),
        decreases pool_size - i,
    {
        pool.push(i);
        proof {
            assert(pool@ =~= positions((i + 1) as nat));
        }
        i = i + 1;
    }
    let ghost ordered = pool@;
    shuffle_pool(&mut pool, rng);
    let r = pick_distinct(&pool, exclude, count);
    proof {
        broadcast use vstd::multiset::group_multiset_axioms;
        broadcast use vstd::seq_lib::group_to_multiset_ensures;

        let p = pool@;
        assert(ordered.no_duplicates());
        ordered.lemma_multiset_has_no_duplicates();
        assert forall|x: usize| p.to_multiset().contains(x) implies p.to_multiset().count(x) == 1 by {
            assert(ordered.to_multiset().contains(x));
        }
        p.lemma_multiset_has_no_duplicates_conv();
        lemma_pick_shape(p, exclude, count as int);
        assert forall|k: int| 0 <= k < r@.len() implies #[trigger] r@[k] < pool_size && r@[k] != exclude by {
            assert(p.contains(r@[k]));
            assert(p.to_multiset().count(r@[k]) > 0);
            assert(ordered.to_multiset().count(r@[k]) > 0);
            assert(ordered.contains(r@[k]));
        }
        if count >= 1 {
            if exclude < pool_size {
                assert(ordered[exclude as int] == exclude);
                assert(ordered.to_multiset().count(exclude) == 1);
            } else {
                assert(!ordered.contains(exclude));
            }
        }
    }
    r
}

} // verus!
