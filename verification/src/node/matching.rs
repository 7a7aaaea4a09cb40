//! The arguments that a variable of a given type can read.

use crate::node::base::TypeV;
use vstd::prelude::*;

verus! {

/// The positions below `n` of the arguments of type `rtype`, in ascending
/// order.
pub open spec fn matching_upto(arg_types: Seq<TypeV>, rtype: TypeV, n: int) -> Seq<usize>
    decreases n,
{
    if n <= 0 {
        Seq::empty()
    } else if arg_types[n - 1] == rtype {
        matching_upto(arg_types, rtype, n - 1).push((n - 1) as usize)
    } else {
        matching_upto(arg_types, rtype, n - 1)
    }
}

/// A position that is listed is the position below `n` of an argument of
/// the type.
pub proof fn lemma_listed_matches(arg_types: Seq<TypeV>, rtype: TypeV, n: int, at: usize)
    requires
        n <= arg_types.len(),
        n <= usize::MAX,
        matching_upto(arg_types, rtype, n).contains(at),
    ensures
        at < n,
        arg_types[at as int] == rtype,
    decreases n,
{
    if n > 0 {
        let rest = matching_upto(arg_types, rtype, n - 1);
        if rest.contains(at) {
            lemma_listed_matches(arg_types, rtype, n - 1, at);
        } else {
            let all = rest.push((n - 1) as usize);
            let k = choose|k: int| 0 <= k < all.len() && all[k] == at;
            if k < rest.len() {
                assert(rest[k] == at);
            }
        }
    }
}

/// The position below `n` of an argument of the type is listed.
pub proof fn lemma_match_is_listed(arg_types: Seq<TypeV>, rtype: TypeV, n: int, at: int)
    requires
        0 <= at < n <= arg_types.len(),
        n <= usize::MAX,
        arg_types[at] == rtype,
    ensures
        matching_upto(arg_types, rtype, n).contains(at as usize),
    decreases n,
{
    let rest = matching_upto(arg_types, rtype, n - 1);
    if at < n - 1 {
        lemma_match_is_listed(arg_types, rtype, n - 1, at);
        if arg_types[n - 1] == rtype {
            let k = choose|k: int| 0 <= k < rest.len() && rest[k] == at as usize;
            assert(rest.push((n - 1) as usize)[k] == at as usize);
        }
    } else {
        assert(rest.push((n - 1) as usize)[rest.len() as int] == at as usize);
    }
}

/// The positions of the arguments of type `rtype`, in ascending order.
pub fn matching_args(arg_types: &[TypeV], rtype: TypeV) -> (r: Vec<usize>)
    ensures
        r@ == matching_upto(arg_types@, rtype, arg_types@.len() as int),
        arg_types@.len() <= usize::MAX,
{
    let mut out: Vec<usize> = Vec::new();
    let mut i: usize = 0;
    while i < arg_types.len()
        invariant
            i <= arg_types@.len(),
            out@ == matching_upto(arg_types@, rtype, i as int),
        decreases arg_types@.len() - i,
    {
        if arg_types[i] == rtype {
            out.push(i);
        }
        i = i + 1;
    }
    out
}

} // verus!
