//! Ranking of scored expressions.

use crate::algorithm::expr_tree::{Error, Expr};
use vstd::prelude::*;

verus! {

/// Whether no expression of the sequence ranks better than one before it.
pub open spec fn ranked(members: Seq<Expr>) -> bool {
    forall|i: int, j: int|
        0 <= i < j < members.len() ==> !(#[trigger] members[j]).error.before(
            (#[trigger] members[i]).error,
        )
}

/// Whether the fitness of every expression of the sequence is known.
pub open spec fn all_scored(members: Seq<Expr>) -> bool {
    forall|i: int| 0 <= i < members.len() ==> (#[trigger] members[i]).error is Scored
}

/// Sorts scored expressions by rank, best first.
pub fn sort_by_rank(v: &mut Vec<Expr>)
    requires
        all_scored(old(v)@),
    ensures
        final(v)@.to_multiset() == old(v)@.to_multiset(),
        final(v)@.len() == old(v)@.len(),
        forall|i: int| 0 <= i < final(v)@.len() ==> old(v)@.contains(#[trigger] final(v)@[i]),
        ranked(final(v)@),
        all_scored(final(v)@),
{
    let mut out: Vec<Expr> = Vec::new();
    proof {
        out@.to_multiset_ensures();
    }
    assert(out@.to_multiset().add(v@.to_multiset()) =~= old(v)@.to_multiset());
    while v.len() > 0
        invariant
            out@.to_multiset().add(v@.to_multiset()) == old(v)@.to_multiset(),
            out@.len() + v@.len() == old(v)@.len(),
            forall|i: int| 0 <= i < out@.len() ==> old(v)@.contains(#[trigger] out@[i]),
            forall|i: int| 0 <= i < v@.len() ==> old(v)@.contains(#[trigger] v@[i]),
            ranked(out@),
            all_scored(out@),
            all_scored(v@),
            forall|i: int, j: int|
                0 <= i < out@.len() && 0 <= j < v@.len() ==> !(#[trigger] v@[j]).error.before(
                    (#[trigger] out@[i]).error,
                ),
        decreases v@.len(),
    {
        let mut best: usize = 0;
        let mut j: usize = 1;
        while j < v.len()
            invariant
                best < j <= v@.len(),
                all_scored(v@),
                forall|k: int| 0 <= k < j ==> !(#[trigger] v@[k]).error.before(v@[best as int].error),
            decreases v@.len() - j,
        {
            if v[j].error.is_before(&v[best].error) {
                proof {
                    assert forall|k: int| 0 <= k <= j implies !(#[trigger] v@[k]).error.before(
                        v@[j as int].error,
                    ) by {
                        Error::lemma_transitive(v@[k].error, v@[j as int].error, v@[best as int].error);
                        Error::lemma_exactly_one(v@[j as int].error, v@[j as int].error);
                    }
                }
                best = j;
            }
            j = j + 1;
        }
        let ghost rest = v@;
        let ghost done = out@;
        let x = v.remove(best);
        out.push(x);
        proof {
            assert(v@ == rest.remove(best as int));
            assert(out@ == done.push(x));
            assert(x == rest[best as int]);
            rest.to_multiset_ensures();
            done.to_multiset_ensures();
            assert(rest.remove(best as int).to_multiset() =~= rest.to_multiset().remove(x));
            assert(done.push(x).to_multiset() =~= done.to_multiset().insert(x));
            assert(rest.to_multiset().count(x) > 0);
            assert(out@.to_multiset().add(v@.to_multiset()) =~= done.to_multiset().add(
                rest.to_multiset(),
            ));
            assert forall|i: int| 0 <= i < v@.len() implies old(v)@.contains(#[trigger] v@[i]) by {
                if i < best {
                    assert(v@[i] == rest[i]);
                } else {
                    assert(v@[i] == rest[i + 1]);
                }
            }
            assert forall|i: int| 0 <= i < v@.len() implies (#[trigger] v@[i]).error is Scored by {
                if i < best {
                    assert(v@[i] == rest[i]);
                } else {
                    assert(v@[i] == rest[i + 1]);
                }
            }
            assert forall|i: int, k: int| 0 <= i < out@.len() && 0 <= k < v@.len() implies !(
            #[trigger] v@[k]).error.before((#[trigger] out@[i]).error) by {
                let b = if k < best {
                    rest[k]
                } else {
                    rest[k + 1]
                };
                assert(v@[k] == b);
                if i < done.len() {
                    assert(out@[i] == done[i]);
                } else {
                    assert(out@[i] == x);
                }
            }
            assert forall|i: int, k: int| 0 <= i < k < out@.len() implies !(
            #[trigger] out@[k]).error.before((#[trigger] out@[i]).error) by {
                if k < done.len() {
                    assert(out@[k] == done[k]);
                    assert(out@[i] == done[i]);
                } else {
                    assert(out@[k] == x);
                    assert(out@[i] == done[i]);
                    assert(x == rest[best as int]);
                }
            }
        }
    }
    proof {
        v@.to_multiset_ensures();
        assert(v@.to_multiset() =~= vstd::multiset::Multiset::<Expr>::empty());
        assert(out@.to_multiset() =~= old(v)@.to_multiset());
    }
    *v = out;
}

} // verus!
