//! The population of expressions and the generational loop.

use crate::algorithm::expr_tree::{rows_of, score, Error, ErrorFn, Expr};
use crate::algorithm::progress::{
    advance, good_enough_of, progress_after, share, share_of, Progress,
};
use crate::algorithm::ranking::{all_scored, ranked, sort_by_rank};
use crate::algorithm::training_args::TrainingArgs;
use crate::node::base::{Node, Type, TypeV};
use crate::node::catalog::{all_served, has_arg, has_matching_arg, BuilderTable};
use crate::node::chance::{total_weight, weighted_index, weighted_sample, weights_of, WeightedPicker};
use crate::node::ieee::{ArithFn, Float32, FloatOps};
use crate::node::params::{BuilderParams, Settings};
use vstd::prelude::*;

verus! {

/// The expressions under training, with the catalog and the settings they
/// are generated from and the types they all declare.
pub struct Population {
    /// The members, best first after ranking.
    pub p: Vec<Expr>,
    pub params: BuilderParams,
    pub builder_table: BuilderTable,
    /// The types of the arguments that members may read.
    pub arg_types: Vec<TypeV>,
    /// The type that every member yields.
    pub ret_type: TypeV,
}

/// What a population is built on besides its members and the state of the
/// random source.
pub struct Frame {
    pub table: BuilderTable,
    pub arg_types: Vec<TypeV>,
    pub ret_type: TypeV,
    pub settings: Settings,
}

/// The weights by rank for a population of `n`: `n - 1` for the first
/// member down to `0` for the last.
pub open spec fn rank_weights(n: nat) -> Seq<usize> {
    Seq::new(n, |i: int| (n - 1 - i) as usize)
}

/// The first weights of a sequence add up to no more than all of them.
proof fn lemma_weight_of_prefix(w: Seq<usize>, k: int)
    requires
        0 <= k <= w.len(),
    ensures
        total_weight(w.take(k)) <= total_weight(w),
    decreases w.len() - k,
{
    if k == w.len() {
        assert(w.take(k) =~= w);
    } else {
        lemma_weight_of_prefix(w.drop_last(), k);
        assert(w.drop_last().take(k) =~= w.take(k));
    }
}

/// Builds the picker that prefers better-ranked members: member `i` of `n`
/// has the weight `n - 1 - i`. There is one exactly where there are two
/// members or more and the weights add up within a machine word.
fn rank_picker(n: usize) -> (r: Option<WeightedPicker>)
    ensures
        r is Some <==> n >= 2 && total_weight(rank_weights(n as nat)) <= usize::MAX,
        r is Some ==> weights_of(r->Some_0) == rank_weights(n as nat),
{
    if n < 2 {
        return None;
    }
    let mut weights: Vec<usize> = Vec::new();
    let mut total: usize = 0;
    let mut i: usize = 0;
    while i < n
        invariant
            2 <= n,
            i <= n,
            weights@ == rank_weights(n as nat).take(i as int),
            total == total_weight(weights@),
            i >= 1 ==> total >= 1,
        decreases n - i,
    {
        let weight: usize = n - 1 - i;
        total = match total.checked_add(weight) {
            Some(t) => t,
            None => {
                proof {
                    let all = rank_weights(n as nat);
                    let upto = all.take(i + 1);
                    assert(upto.drop_last() =~= all.take(i as int));
                    assert(upto.last() == weight);
                    lemma_weight_of_prefix(all, i + 1);
                }
                return None;
            },
        };
        let ghost before = weights@;
        weights.push(weight);
        i = i + 1;
        proof {
            assert(weights@ =~= rank_weights(n as nat).take(i as int));
            assert(weights@.drop_last() =~= before);
        }
    }
    proof {
        assert(weights@ =~= rank_weights(n as nat));
    }
    match weighted_index(&weights) {
        Ok(picker) => Some(picker),
        Err(_) => None,
    }
}

/// The base probability scaled by a member's average error, where that is
/// known: a fitter member is taken apart and changed with more restraint.
pub open spec fn scaled_probability<A: FloatOps>(error: Error, base: Float32, fl: &A) -> Float32 {
    match error {
        Error::Scored { real: average, nan: _ } => fl.binary_of(ArithFn::Mul, average, base),
        Error::Uncalculated => base,
    }
}

/// Scales the base probability by a member's average error.
pub fn scale_probability<A: FloatOps>(error: Error, base: Float32, fl: &A) -> (r: Float32)
    ensures
        r == scaled_probability(error, base, fl),
{
    match error {
        Error::Scored { real: average, nan: _ } => fl.binary(ArithFn::Mul, average, base),
        Error::Uncalculated => base,
    }
}

/// The first `n` members, and all of them where there are no more than `n`.
pub open spec fn cut(members: Seq<Expr>, n: nat) -> Seq<Expr> {
    if n <= members.len() {
        members.take(n as int)
    } else {
        members
    }
}

/// The members, each pruned; see `Expr::pruned`.
pub open spec fn pruned_all(members: Seq<Expr>) -> Seq<Expr> {
    members.map_values(|e: Expr| e.pruned())
}

/// The members, each scored on the table unless its fitness is known; see
/// `Expr::scored`.
pub open spec fn scored_all<A: FloatOps, E: ErrorFn<A>>(
    members: Seq<Expr>,
    xs: Seq<Seq<Type>>,
    ys: Seq<Type>,
    err_fn: &E,
    fl: &A,
) -> Seq<Expr> {
    members.map_values(|e: Expr| e.scored(xs, ys, err_fn, fl))
}

/// The members, each without its fitness.
pub open spec fn forgotten_all(members: Seq<Expr>) -> Seq<Expr> {
    members.map_values(|e: Expr| e.with_error(Error::Uncalculated))
}

/// Whether `after` is a ranking of `before`: the members of `before`, each
/// pruned and then scored unless its fitness is known, in an order in which
/// no member ranks better than one before it.
pub open spec fn ranking_of<A: FloatOps, E: ErrorFn<A>>(
    before: Seq<Expr>,
    after: Seq<Expr>,
    xs: Seq<Seq<Type>>,
    ys: Seq<Type>,
    err_fn: &E,
    fl: &A,
) -> bool {
    &&& after.to_multiset() == scored_all(pruned_all(before), xs, ys, err_fn, fl).to_multiset()
    &&& ranked(after)
}

/// Whether every known fitness among `members` is true of the tree as it
/// stands: the tree has nothing left to prune, and the fitness is the tree's
/// score on the table.
pub open spec fn settled<A: FloatOps, E: ErrorFn<A>>(
    members: Seq<Expr>,
    xs: Seq<Seq<Type>>,
    ys: Seq<Type>,
    err_fn: &E,
    fl: &A,
) -> bool {
    forall|i: int|
        0 <= i < members.len() && (#[trigger] members[i]).error is Scored ==> members[i].root.reduced()
            && members[i].error == score(*members[i].root, xs, ys, err_fn, fl)
}

/// Whether the first member is scored and no scored member ranks better
/// than it.
pub open spec fn best_first(members: Seq<Expr>) -> bool {
    &&& members.len() >= 1
    &&& members[0].error is Scored
    &&& forall|i: int|
        0 <= i < members.len() && (#[trigger] members[i]).error is Scored ==> !members[i].error.before(
            members[0].error,
        )
}

/// Whether the scored members come before the others and no scored member
/// ranks better than one before it.
pub open spec fn ranked_first(members: Seq<Expr>) -> bool {
    forall|i: int, j: int|
        0 <= i < j < members.len() && (#[trigger] members[j]).error is Scored ==> (
        #[trigger] members[i]).error is Scored && !members[j].error.before(members[i].error)
}

/// Whether no scored member of `before` ranks better than the first member
/// of `after`.
pub open spec fn no_better_than(before: Seq<Expr>, after: Seq<Expr>) -> bool {
    forall|k: int|
        0 <= k < before.len() && (#[trigger] before[k]).error is Scored ==> !before[k].error.before(
            after[0].error,
        )
}

/// Whether a generation that leads from `before` to `after` has left the
/// best member first and has kept what was known. The first member of
/// `after` is scored and no scored member ranks better than it. Where every
/// known fitness among `before` is true of its tree on the samples of
/// `args`, so is every one among `after`, and no scored member of `before`
/// ranks better than the first member of `after`.
pub open spec fn keeps_best<A: FloatOps, E: ErrorFn<A>>(
    before: Seq<Expr>,
    after: Seq<Expr>,
    args: TrainingArgs<'_, E>,
    fl: &A,
) -> bool {
    &&& best_first(after)
    &&& settled(before, rows_of(args.train_x->0@), args.train_y->0@, &args.err_fn, fl) ==> settled(
        after,
        rows_of(args.train_x->0@),
        args.train_y->0@,
        &args.err_fn,
        fl,
    ) && no_better_than(before, after)
}

/// Where no scored member of `first` ranks better than the best of `then`,
/// and the best of `then` no better than the first member of `last`, no
/// scored member of `first` ranks better than the first member of `last`.
pub proof fn lemma_no_better_on(first: Seq<Expr>, then: Seq<Expr>, last: Seq<Expr>)
    requires
        no_better_than(first, then),
        best_first(then),
        no_better_than(then, last),
    ensures
        no_better_than(first, last),
{
    let b = then[0].error;
    let c = last[0].error;
    assert(!b.before(c));
    assert forall|k: int| 0 <= k < first.len() && (#[trigger] first[k]).error is Scored implies !first[k].error.before(
        c,
    ) by {
        let m = first[k].error;
        if c is Scored {
            Error::lemma_exactly_one(m, b);
            Error::lemma_transitive(b, m, c);
        }
    }
}

/// Whether `e` is the unscored expression over the tree `t`.
pub open spec fn unscored(e: Expr, t: Node) -> bool {
    &&& *e.root == t
    &&& e.error == Error::Uncalculated
    &&& e.arg_types@ == t.arg_types()
    &&& e.rtype == t.rtype()
}

/// Whether `after` is what a try with the outcome `out` makes of `before`:
/// nothing changes where the outcome is absent, and the unscored expression
/// over the outcome joins behind the others where it is present.
pub open spec fn follows(before: Seq<Expr>, after: Seq<Expr>, out: Option<Node>) -> bool {
    match out {
        None => after == before,
        Some(t) => after.len() == before.len() + 1 && after.take(before.len() as int) == before
            && unscored(after.last(), t),
    }
}

/// The progress at the start of a training run.
pub open spec fn at_start() -> Progress {
    Progress { mark: Error::Uncalculated, stagnant: 0, stop: false, extinction: false }
}

impl Frame {
    /// Whether an expression can be a member: its tree is well typed,
    /// yields the type of the population, reads only arguments of matching
    /// type, and each of its operators yields a type that some argument
    /// has, so that it can give way to a freshly generated tree, as a
    /// mutation may ask.
    pub open spec fn admits(self, e: Expr) -> bool {
        &&& e.root.well_typed()
        &&& e.root.rtype() == self.ret_type
        &&& e.root.fits_args(self.arg_types@)
        &&& e.root.regrowable(self.arg_types@)
    }

    /// Whether each of `members` can mutate: every variable and operator of
    /// its tree yields a type that some argument has, and generation can go
    /// on wherever it can start.
    pub open spec fn can_mutate(self, members: Seq<Expr>) -> bool {
        &&& self.table.served_by(self.arg_types@)
        &&& forall|i: int|
            0 <= i < members.len() ==> (#[trigger] members[i]).root.regrowable(self.arg_types@)
    }

    /// Whether fresh members can be generated: some argument has the type
    /// of the population, and generation can go on wherever it can start.
    pub open spec fn ready(self) -> bool {
        &&& has_arg(self.arg_types@, self.ret_type)
        &&& self.table.served_by(self.arg_types@)
    }

    /// Whether every one of `members` can be a member.
    pub open spec fn admits_all(self, members: Seq<Expr>) -> bool {
        forall|i: int| 0 <= i < members.len() ==> self.admits(#[trigger] members[i])
    }

    /// Whether `e` is a fresh random member: generated from depth 0 for the
    /// type of the population, and not scored.
    pub open spec fn fresh<A: FloatOps>(self, e: Expr, fl: &A) -> bool {
        &&& e.error == Error::Uncalculated
        &&& e.root.grown_in(self.table, self.arg_types@, self.ret_type, 0, self.settings, fl)
    }

    /// Whether `child` can come out of a mutation of `member` under the
    /// base probability `base`: the mutation starts at depth 0, and the base
    /// probability is scaled by the member's average error.
    pub open spec fn mutant_of<A: FloatOps>(
        self,
        member: Expr,
        child: Node,
        base: Float32,
        fl: &A,
    ) -> bool {
        member.root.mutation(
            Some(child),
            scaled_probability(member.error, base, fl),
            0,
            self.table,
            self.arg_types@,
            self.settings,
            fl,
        )
    }

    /// Whether `child` can come out of crossing `father` and `mother` under
    /// the base probability `base`: a fragment that can be taken out of the
    /// father is put into the mother, both from depth 0 and each under the
    /// base probability scaled by the parent's average error.
    pub open spec fn cross_of<A: FloatOps>(
        self,
        father: Expr,
        mother: Expr,
        child: Node,
        base: Float32,
        fl: &A,
    ) -> bool {
        exists|gene: Node|
            father.root.extraction(
                Some(gene),
                scaled_probability(father.error, base, fl),
                0,
                self.settings,
                fl,
            ) && #[trigger] mother.root.placement(
                gene,
                Some(child),
                scaled_probability(mother.error, base, fl),
                0,
                self.settings,
                fl,
            )
    }

    /// Whether a try at a mutant of `member` under the base probability
    /// `base` can come out as `out`, `None` standing for no change: the
    /// mutation starts at depth 0, and the base probability is scaled by the
    /// member's average error.
    pub open spec fn mutant_try<A: FloatOps>(
        self,
        member: Expr,
        out: Option<Node>,
        base: Float32,
        fl: &A,
    ) -> bool {
        member.root.mutation(
            out,
            scaled_probability(member.error, base, fl),
            0,
            self.table,
            self.arg_types@,
            self.settings,
            fl,
        )
    }

    /// Whether a try at a cross of `father` and `mother` under the base
    /// probability `base` can come out as `out` by way of the fragment
    /// `gene`, `None` standing for no fragment and for no child. The
    /// fragment is one that can be taken out of the father; without a
    /// fragment there is no child; and the child is what putting the
    /// fragment into the mother can give. Both steps start at depth 0, each
    /// under the base probability scaled by the parent's average error.
    pub open spec fn cross_try<A: FloatOps>(
        self,
        father: Expr,
        mother: Expr,
        gene: Option<Node>,
        out: Option<Node>,
        base: Float32,
        fl: &A,
    ) -> bool {
        &&& father.root.extraction(
            gene,
            scaled_probability(father.error, base, fl),
            0,
            self.settings,
            fl,
        )
        &&& match gene {
            None => out is None,
            Some(g) => mother.root.placement(
                g,
                out,
                scaled_probability(mother.error, base, fl),
                0,
                self.settings,
                fl,
            ),
        }
    }

    /// Whether `stages`, `picks` and `outs` record a row of tries at
    /// mutants from the members `start`: try `k` picks the member at
    /// `picks[k]`, which is any but the last, comes out as `outs[k]`, see
    /// `mutant_try`, and leads from `stages[k]` to `stages[k + 1]`, see
    /// `follows`.
    pub open spec fn mutant_tries<A: FloatOps>(
        self,
        start: Seq<Expr>,
        stages: Seq<Seq<Expr>>,
        picks: Seq<int>,
        outs: Seq<Option<Node>>,
        base: Float32,
        fl: &A,
    ) -> bool {
        &&& stages.len() == picks.len() + 1
        &&& outs.len() == picks.len()
        &&& stages[0] == start
        &&& forall|k: int|
            0 <= k < picks.len() ==> 0 <= #[trigger] picks[k] < start.len() - 1 && self.mutant_try(
                start[picks[k]],
                outs[k],
                base,
                fl,
            ) && follows(stages[k], stages[k + 1], outs[k])
    }

    /// Whether `tries` tries at mutants can lead from the members `before`
    /// to the members `after`. Where there are two members or more and the
    /// weights by rank add up within a machine word, every try picks a
    /// member, and the present outcomes join behind the others in the order
    /// of the tries; see `mutant_tries`. Nothing changes otherwise.
    pub open spec fn mutants_run<A: FloatOps>(
        self,
        before: Seq<Expr>,
        after: Seq<Expr>,
        tries: nat,
        base: Float32,
        fl: &A,
    ) -> bool {
        if before.len() >= 2 && total_weight(rank_weights(before.len())) <= usize::MAX {
            exists|stages: Seq<Seq<Expr>>, picks: Seq<int>, outs: Seq<Option<Node>>| #[trigger]
                self.mutant_tries(before, stages, picks, outs, base, fl) && picks.len() == tries
                    && stages[tries as int] == after
        } else {
            after == before
        }
    }

    /// Whether `stages`, `fathers`, `mothers`, `genes` and `outs` record a
    /// row of tries at crosses from the members `start`: try `k` picks the
    /// members at `fathers[k]` and `mothers[k]`, which are any but the last,
    /// comes out as `outs[k]` by way of `genes[k]`, see `cross_try`, and
    /// leads from `stages[k]` to `stages[k + 1]`, see `follows`.
    pub open spec fn cross_tries<A: FloatOps>(
        self,
        start: Seq<Expr>,
        stages: Seq<Seq<Expr>>,
        fathers: Seq<int>,
        mothers: Seq<int>,
        genes: Seq<Option<Node>>,
        outs: Seq<Option<Node>>,
        base: Float32,
        fl: &A,
    ) -> bool {
        &&& stages.len() == fathers.len() + 1
        &&& mothers.len() == fathers.len()
        &&& genes.len() == fathers.len()
        &&& outs.len() == fathers.len()
        &&& stages[0] == start
        &&& forall|k: int|
            0 <= k < fathers.len() ==> 0 <= #[trigger] fathers[k] < start.len() - 1 && 0
                <= mothers[k] < start.len() - 1 && self.cross_try(
                start[fathers[k]],
                start[mothers[k]],
                genes[k],
                outs[k],
                base,
                fl,
            ) && follows(stages[k], stages[k + 1], outs[k])
    }

    /// Whether `tries` tries at crosses can lead from the members `before`
    /// to the members `after`. Where there are two members or more and the
    /// weights by rank add up within a machine word, every try picks a
    /// father and a mother, and the present outcomes join behind the others
    /// in the order of the tries; see `cross_tries`. Nothing changes
    /// otherwise.
    pub open spec fn crosses_run<A: FloatOps>(
        self,
        before: Seq<Expr>,
        after: Seq<Expr>,
        tries: nat,
        base: Float32,
        fl: &A,
    ) -> bool {
        if before.len() >= 2 && total_weight(rank_weights(before.len())) <= usize::MAX {
            exists|
                stages: Seq<Seq<Expr>>,
                fathers: Seq<int>,
                mothers: Seq<int>,
                genes: Seq<Option<Node>>,
                outs: Seq<Option<Node>>,
            | #[trigger]
                self.cross_tries(before, stages, fathers, mothers, genes, outs, base, fl)
                    && fathers.len() == tries && stages[tries as int] == after
        } else {
            after == before
        }
    }

    /// Whether `e` is an unscored mutant of one of `members` that the ranks
    /// allow to be picked: any but the last.
    pub open spec fn mutant_in<A: FloatOps>(
        self,
        members: Seq<Expr>,
        e: Expr,
        base: Float32,
        fl: &A,
    ) -> bool {
        &&& e.error == Error::Uncalculated
        &&& e.arg_types@ == e.root.arg_types()
        &&& e.rtype == e.root.rtype()
        &&& exists|j: int|
            0 <= j < members.len() - 1 && self.mutant_of(#[trigger] members[j], *e.root, base, fl)
    }

    /// Whether `e` is an unscored cross of two of `members` that the ranks
    /// allow to be picked: any but the last.
    pub open spec fn cross_in<A: FloatOps>(
        self,
        members: Seq<Expr>,
        e: Expr,
        base: Float32,
        fl: &A,
    ) -> bool {
        &&& e.error == Error::Uncalculated
        &&& e.arg_types@ == e.root.arg_types()
        &&& e.rtype == e.root.rtype()
        &&& exists|j: int, k: int|
            0 <= j < members.len() - 1 && 0 <= k < members.len() - 1 && self.cross_of(
                #[trigger] members[j],
                #[trigger] members[k],
                *e.root,
                base,
                fl,
            )
    }

    /// Whether `after` is `before` with `count` fresh random members behind.
    pub open spec fn joined_fresh<A: FloatOps>(
        self,
        before: Seq<Expr>,
        after: Seq<Expr>,
        count: nat,
        fl: &A,
    ) -> bool {
        &&& after.len() == before.len() + count
        &&& after.take(before.len() as int) == before
        &&& forall|i: int|
            before.len() <= i < after.len() ==> self.fresh(#[trigger] after[i], fl) && after[i].arg_types@
                == self.arg_types@ && after[i].rtype == self.ret_type
    }

    /// Whether `after` is `before` with mutants of members of `before`
    /// behind, no more than `tries` of them.
    pub open spec fn joined_mutants<A: FloatOps>(
        self,
        before: Seq<Expr>,
        after: Seq<Expr>,
        tries: nat,
        base: Float32,
        fl: &A,
    ) -> bool {
        &&& before.len() <= after.len() <= before.len() + tries
        &&& after.take(before.len() as int) == before
        &&& forall|i: int|
            before.len() <= i < after.len() ==> self.mutant_in(before, #[trigger] after[i], base, fl)
    }

    /// Whether `after` is `before` with crosses of members of `before`
    /// behind, no more than `tries` of them.
    pub open spec fn joined_crosses<A: FloatOps>(
        self,
        before: Seq<Expr>,
        after: Seq<Expr>,
        tries: nat,
        base: Float32,
        fl: &A,
    ) -> bool {
        &&& before.len() <= after.len() <= before.len() + tries
        &&& after.take(before.len() as int) == before
        &&& forall|i: int|
            before.len() <= i < after.len() ==> self.cross_in(before, #[trigger] after[i], base, fl)
    }

    /// What is kept of a ranking in generation `i`: the first `n_subs`
    /// members every `purge_period` generations, and all of it otherwise.
    pub open spec fn kept_of<E>(ranking: Seq<Expr>, args: TrainingArgs<'_, E>, i: usize) -> Seq<Expr> {
        if i % args.purge_period == 0 {
            cut(ranking, args.n_subs as nat)
        } else {
            ranking
        }
    }

    /// The number of fresh members that join in generation `i`: the share
    /// `new_sub_increase_ratio` of `n_subs` every `new_sub_intro_period`
    /// generations, and none otherwise.
    pub open spec fn arrivals_of<E>(args: TrainingArgs<'_, E>, i: usize) -> nat {
        if i % args.new_sub_intro_period == 0 {
            share_of(
                args.n_subs as nat,
                args.new_sub_increase_ratio.0 as nat,
                args.new_sub_increase_ratio.1 as nat,
            )
        } else {
            0
        }
    }

    /// The number of attempts at crosses, and at mutants, in a generation
    /// that keeps `kept` members: the share `top_children_ratio` of them.
    pub open spec fn tries_of<E>(kept: nat, args: TrainingArgs<'_, E>) -> nat {
        share_of(kept, args.top_children_ratio.0 as nat, args.top_children_ratio.1 as nat)
    }

    /// Whether breeding in generation `i` can lead from `seeded` by way of
    /// `crossed` to `bred`: in all but the last generation `tries` tries at
    /// crosses are made, see `crosses_run`, and then `tries` tries at
    /// mutants, see `mutants_run`; in the last generation nothing joins.
    pub open spec fn breeds<A: FloatOps, E>(
        self,
        seeded: Seq<Expr>,
        crossed: Seq<Expr>,
        bred: Seq<Expr>,
        args: TrainingArgs<'_, E>,
        i: usize,
        tries: nat,
        fl: &A,
    ) -> bool {
        if i != args.n_iter - 1 {
            self.crosses_run(seeded, crossed, tries, args.breed_probability, fl)
                && self.mutants_run(crossed, bred, tries, args.mut_probability, fl)
        } else {
            crossed == seeded && bred == seeded
        }
    }

    /// Whether a generation whose progress is `next` can end with `after`
    /// from `bred` by way of `restocked`. Where `next` says to stop,
    /// nothing changes. Where it calls for a mass extinction, `restocked` is
    /// the best member with `n_subs - 1` fresh ones behind; it is `bred`
    /// where not. `after` is `restocked` cut back to `max_population`.
    pub open spec fn finishes<A: FloatOps, E>(
        self,
        bred: Seq<Expr>,
        restocked: Seq<Expr>,
        after: Seq<Expr>,
        args: TrainingArgs<'_, E>,
        next: Progress,
        fl: &A,
    ) -> bool {
        if next.stop {
            restocked == bred && after == bred
        } else {
            &&& if next.extinction {
                self.joined_fresh(bred.take(1), restocked, (args.n_subs - 1) as nat, fl)
            } else {
                restocked == bred
            }
            &&& after == cut(restocked, args.max_population as nat)
        }
    }

    /// Whether generation `i` of a training run can lead from the members
    /// `before` to the members `after` by way of the given stages.
    ///
    /// `ranking` is a ranking of `before`. To what is kept of it, see
    /// `kept_of`, fresh members are joined, see `arrivals_of`: that is
    /// `seeded`. Breeding leads on to `bred`, see `breeds`, with as many
    /// attempts as `tries_of` gives for what was kept. The progress after
    /// the generation is worked out from the best member of `bred`, and the
    /// generation ends as `finishes` says.
    pub open spec fn generation_via<A: FloatOps, E: ErrorFn<A>>(
        self,
        before: Seq<Expr>,
        ranking: Seq<Expr>,
        seeded: Seq<Expr>,
        crossed: Seq<Expr>,
        bred: Seq<Expr>,
        restocked: Seq<Expr>,
        after: Seq<Expr>,
        args: TrainingArgs<'_, E>,
        i: usize,
        progress: Progress,
        fl: &A,
    ) -> bool {
        let kept = Self::kept_of(ranking, args, i);
        let next = progress_after(
            progress,
            bred[0].error,
            args.max_allowed_err,
            args.delta_th,
            args.mass_extinction_th,
            fl,
        );
        &&& ranking_of(
            before,
            ranking,
            rows_of(args.train_x->0@),
            args.train_y->0@,
            &args.err_fn,
            fl,
        )
        &&& self.joined_fresh(kept, seeded, Self::arrivals_of(args, i), fl)
        &&& self.breeds(seeded, crossed, bred, args, i, Self::tries_of(kept.len(), args), fl)
        &&& self.finishes(bred, restocked, after, args, next, fl)
    }

    /// Whether generation `i` of a training run can lead from the members
    /// `before` to the members `after`; see `generation_via`.
    pub open spec fn generation<A: FloatOps, E: ErrorFn<A>>(
        self,
        before: Seq<Expr>,
        after: Seq<Expr>,
        args: TrainingArgs<'_, E>,
        i: usize,
        progress: Progress,
        fl: &A,
    ) -> bool {
        exists|
            ranking: Seq<Expr>,
            seeded: Seq<Expr>,
            crossed: Seq<Expr>,
            bred: Seq<Expr>,
            restocked: Seq<Expr>,
        | #[trigger]
            self.generation_via(
                before,
                ranking,
                seeded,
                crossed,
                bred,
                restocked,
                after,
                args,
                i,
                progress,
                fl,
            )
    }

    /// Whether `stages` and `marks` record a run of generations: the members
    /// and the progress before the first generation and after each one. The
    /// progress at the start is `at_start()`; a generation is run only where
    /// the progress before it does not say to stop; generation `k` leads
    /// from the members before it to the members after it, see `generation`,
    /// and leaves the best member first, see `keeps_best`; and the progress
    /// after it is worked out from the progress before it and the best
    /// member after it.
    pub open spec fn records<A: FloatOps, E: ErrorFn<A>>(
        self,
        stages: Seq<Seq<Expr>>,
        marks: Seq<Progress>,
        args: TrainingArgs<'_, E>,
        fl: &A,
    ) -> bool {
        &&& stages.len() >= 1
        &&& marks.len() == stages.len()
        &&& marks[0] == at_start()
        &&& forall|k: int|
            0 <= k < stages.len() - 1 ==> !(#[trigger] marks[k]).stop && self.generation(
                stages[k],
                stages[k + 1],
                args,
                k as usize,
                marks[k],
                fl,
            ) && keeps_best(stages[k], stages[k + 1], args, fl) && marks[k + 1] == progress_after(
                marks[k],
                stages[k + 1][0].error,
                args.max_allowed_err,
                args.delta_th,
                args.mass_extinction_th,
                fl,
            )
    }

    /// Whether `n` generations can lead from the members `start` to the
    /// members `now` and to `progress`.
    pub open spec fn ran<A: FloatOps, E: ErrorFn<A>>(
        self,
        start: Seq<Expr>,
        now: Seq<Expr>,
        args: TrainingArgs<'_, E>,
        n: nat,
        progress: Progress,
        fl: &A,
    ) -> bool {
        exists|stages: Seq<Seq<Expr>>, marks: Seq<Progress>| #[trigger]
            self.records(stages, marks, args, fl) && stages.len() == n + 1 && stages[0] == start
                && stages[n as int] == now && marks[n as int] == progress
    }

    /// Whether a training run can lead from the members `before` to the
    /// members `after`: `n_subs` fresh members join, and generations are
    /// run until `n_iter` of them are done or one of them says to stop.
    pub open spec fn trains<A: FloatOps, E: ErrorFn<A>>(
        self,
        before: Seq<Expr>,
        after: Seq<Expr>,
        args: TrainingArgs<'_, E>,
        fl: &A,
    ) -> bool {
        exists|start: Seq<Expr>, n: nat, progress: Progress|
            self.joined_fresh(before, start, args.n_subs as nat, fl) && (
            #[trigger] self.ran(start, after, args, n, progress, fl)) && n <= args.n_iter && (n
                == args.n_iter || progress.stop)
    }

    /// No generation leads from the start to the start.
    pub proof fn lemma_ran_none<A: FloatOps, E: ErrorFn<A>>(
        self,
        start: Seq<Expr>,
        args: TrainingArgs<'_, E>,
        fl: &A,
    )
        ensures
            self.ran(start, start, args, 0, at_start(), fl),
    {
        let stages = seq![start];
        let marks = seq![at_start()];
        assert(self.records(stages, marks, args, fl));
    }

    /// One more generation after `n` generations makes `n + 1` generations.
    pub proof fn lemma_ran_on<A: FloatOps, E: ErrorFn<A>>(
        self,
        start: Seq<Expr>,
        prev: Seq<Expr>,
        now: Seq<Expr>,
        args: TrainingArgs<'_, E>,
        n: nat,
        before: Progress,
        fl: &A,
    )
        requires
            n < usize::MAX,
            self.ran(start, prev, args, n, before, fl),
            !before.stop,
            self.generation(prev, now, args, n as usize, before, fl),
            keeps_best(prev, now, args, fl),
        ensures
            self.ran(
                start,
                now,
                args,
                n + 1,
                progress_after(
                    before,
                    now[0].error,
                    args.max_allowed_err,
                    args.delta_th,
                    args.mass_extinction_th,
                    fl,
                ),
                fl,
            ),
    {
        let after = progress_after(
            before,
            now[0].error,
            args.max_allowed_err,
            args.delta_th,
            args.mass_extinction_th,
            fl,
        );
        let (stages, marks) = choose|stages: Seq<Seq<Expr>>, marks: Seq<Progress>| #[trigger]
            self.records(stages, marks, args, fl) && stages.len() == n + 1 && stages[0] == start
                && stages[n as int] == prev && marks[n as int] == before;
        let longer = stages.push(now);
        let further = marks.push(after);
        assert forall|k: int| 0 <= k < longer.len() - 1 implies !(#[trigger] further[k]).stop
            && self.generation(longer[k], longer[k + 1], args, k as usize, further[k], fl)
            && keeps_best(longer[k], longer[k + 1], args, fl) && further[k + 1] == progress_after(
            further[k],
            longer[k + 1][0].error,
            args.max_allowed_err,
            args.delta_th,
            args.mass_extinction_th,
            fl,
        ) by {
            if k < n {
                assert(!marks[k].stop);
                assert(longer[k] == stages[k] && longer[k + 1] == stages[k + 1]);
                assert(further[k] == marks[k] && further[k + 1] == marks[k + 1]);
            } else {
                assert(longer[k] == prev && longer[k + 1] == now);
                assert(further[k] == before && further[k + 1] == after);
            }
        }
        assert(self.records(longer, further, args, fl));
    }

    /// A generation of a recorded run leaves the best member first and
    /// keeps what was known; see `keeps_best`.
    pub proof fn lemma_generation_keeps_best<A: FloatOps, E: ErrorFn<A>>(
        self,
        stages: Seq<Seq<Expr>>,
        marks: Seq<Progress>,
        args: TrainingArgs<'_, E>,
        fl: &A,
        k: int,
    )
        requires
            self.records(stages, marks, args, fl),
            0 <= k < stages.len() - 1,
        ensures
            keeps_best(stages[k], stages[k + 1], args, fl),
    {
        assert(!marks[k].stop);
    }

    /// Over a run of generations that starts from true scores, every known
    /// fitness stays true of its tree.
    pub proof fn lemma_stays_settled<A: FloatOps, E: ErrorFn<A>>(
        self,
        stages: Seq<Seq<Expr>>,
        marks: Seq<Progress>,
        args: TrainingArgs<'_, E>,
        fl: &A,
        h: int,
    )
        requires
            self.records(stages, marks, args, fl),
            settled(stages[0], rows_of(args.train_x->0@), args.train_y->0@, &args.err_fn, fl),
            0 <= h < stages.len(),
        ensures
            settled(stages[h], rows_of(args.train_x->0@), args.train_y->0@, &args.err_fn, fl),
        decreases h,
    {
        if h >= 1 {
            self.lemma_stays_settled(stages, marks, args, fl, h - 1);
            self.lemma_generation_keeps_best(stages, marks, args, fl, h - 1);
        }
    }

    /// Over a run of generations that starts from true scores, the best
    /// fitness never gets worse: after each generation the first member is
    /// the best, and it ranks no worse than any scored member at the start
    /// or after an earlier generation, the best of that time among them.
    pub proof fn lemma_best_never_worse<A: FloatOps, E: ErrorFn<A>>(
        self,
        stages: Seq<Seq<Expr>>,
        marks: Seq<Progress>,
        args: TrainingArgs<'_, E>,
        fl: &A,
        g: int,
        h: int,
    )
        requires
            self.records(stages, marks, args, fl),
            settled(stages[0], rows_of(args.train_x->0@), args.train_y->0@, &args.err_fn, fl),
            0 <= g <= h < stages.len(),
            h >= 1,
        ensures
            best_first(stages[h]),
            no_better_than(stages[g], stages[h]),
            g >= 1 ==> best_first(stages[g]) && !stages[g][0].error.before(stages[h][0].error),
        decreases h - g,
    {
        self.lemma_generation_keeps_best(stages, marks, args, fl, h - 1);
        if g >= 1 {
            self.lemma_generation_keeps_best(stages, marks, args, fl, g - 1);
        }
        if g < h {
            self.lemma_stays_settled(stages, marks, args, fl, h - 1);
            if g < h - 1 {
                self.lemma_best_never_worse(stages, marks, args, fl, g, h - 1);
                lemma_no_better_on(stages[g], stages[h - 1], stages[h]);
            }
        }
    }

    /// Fresh members from a well-formed catalog can be members, where fresh
    /// members can be generated.
    pub proof fn lemma_fresh_admitted<A: FloatOps>(self, e: Expr, fl: &A)
        requires
            self.table.wf(),
            self.ready(),
            self.fresh(e, fl),
        ensures
            self.admits(e),
    {
        e.root.lemma_grown(self.table, self.arg_types@, self.ret_type, 0, self.settings, fl);
        e.root.lemma_grown_regrowable(
            self.table,
            self.arg_types@,
            self.ret_type,
            0,
            self.settings,
            fl,
        );
    }

    /// Mutants of members from a well-formed catalog can be members, where
    /// generation can go on wherever it can start.
    pub proof fn lemma_mutant_admitted<A: FloatOps>(
        self,
        members: Seq<Expr>,
        e: Expr,
        base: Float32,
        fl: &A,
    )
        requires
            self.table.wf(),
            self.table.served_by(self.arg_types@),
            self.admits_all(members),
            self.mutant_in(members, e, base, fl),
        ensures
            self.admits(e),
    {
        let j = choose|j: int|
            0 <= j < members.len() - 1 && self.mutant_of(#[trigger] members[j], *e.root, base, fl);
        assert(self.admits(members[j]));
        members[j].root.lemma_mutant(
            *e.root,
            scaled_probability(members[j].error, base, fl),
            0,
            self.table,
            self.arg_types@,
            self.settings,
            fl,
        );
    }

    /// Crosses of members can be members.
    pub proof fn lemma_cross_admitted<A: FloatOps>(
        self,
        members: Seq<Expr>,
        e: Expr,
        base: Float32,
        fl: &A,
    )
        requires
            self.admits_all(members),
            self.cross_in(members, e, base, fl),
        ensures
            self.admits(e),
    {
        let (j, k) = choose|j: int, k: int|
            0 <= j < members.len() - 1 && 0 <= k < members.len() - 1 && self.cross_of(
                #[trigger] members[j],
                #[trigger] members[k],
                *e.root,
                base,
                fl,
            );
        let father = members[j];
        let mother = members[k];
        assert(self.admits(father) && self.admits(mother));
        let gene = choose|gene: Node|
            father.root.extraction(
                Some(gene),
                scaled_probability(father.error, base, fl),
                0,
                self.settings,
                fl,
            ) && #[trigger] mother.root.placement(
                gene,
                Some(*e.root),
                scaled_probability(mother.error, base, fl),
                0,
                self.settings,
                fl,
            );
        father.root.lemma_extraction(
            gene,
            scaled_probability(father.error, base, fl),
            0,
            self.settings,
            fl,
        );
        father.root.lemma_fragment(gene, 0, self.settings.max_depth as nat, self.arg_types@);
        mother.root.lemma_placement(
            gene,
            *e.root,
            scaled_probability(mother.error, base, fl),
            0,
            self.settings,
            fl,
        );
        mother.root.lemma_spliced(gene, *e.root, 0, self.settings.max_depth as nat, self.arg_types@);
    }
}

/// Unscored members that join behind the others leave true scores true, the
/// best first, and the scored members ranked first.
pub proof fn lemma_joined<A: FloatOps, E: ErrorFn<A>>(
    before: Seq<Expr>,
    after: Seq<Expr>,
    xs: Seq<Seq<Type>>,
    ys: Seq<Type>,
    err_fn: &E,
    fl: &A,
)
    requires
        before.len() <= after.len(),
        after.take(before.len() as int) == before,
        forall|i: int| before.len() <= i < after.len() ==> (#[trigger] after[i]).error is Uncalculated,
    ensures
        settled(before, xs, ys, err_fn, fl) ==> settled(after, xs, ys, err_fn, fl),
        best_first(before) ==> best_first(after),
        ranked_first(before) ==> ranked_first(after),
{
    assert forall|i: int| 0 <= i < before.len() implies after[i] == before[i] by {
        assert(after.take(before.len() as int)[i] == after[i]);
    }
}

/// Cutting members back to the first ones leaves true scores true, the best
/// first, and the scored members ranked first.
pub proof fn lemma_cut_back<A: FloatOps, E: ErrorFn<A>>(
    members: Seq<Expr>,
    n: nat,
    xs: Seq<Seq<Type>>,
    ys: Seq<Type>,
    err_fn: &E,
    fl: &A,
)
    requires
        n >= 1,
    ensures
        settled(members, xs, ys, err_fn, fl) ==> settled(cut(members, n), xs, ys, err_fn, fl),
        best_first(members) ==> best_first(cut(members, n)),
        ranked_first(members) ==> ranked_first(cut(members, n)),
{
}

impl Population {
    /// What the population is built on.
    pub open spec fn frame(self) -> Frame {
        Frame {
            table: self.builder_table,
            arg_types: self.arg_types,
            ret_type: self.ret_type,
            settings: self.params.settings(),
        }
    }

    /// Whether an expression can be a member; see `Frame::admits`.
    pub open spec fn admits(self, e: Expr) -> bool {
        self.frame().admits(e)
    }

    /// The settings can be used, fresh members can be generated, and every
    /// member can be a member.
    pub open spec fn wf(self) -> bool {
        &&& self.params.wf()
        &&& self.frame().ready()
        &&& self.frame().admits_all(self.p@)
    }

    /// Whether `other` differs from `self` at most in its members and in the
    /// state of the random source.
    pub open spec fn same_frame(self, other: Population) -> bool {
        self.frame() == other.frame()
    }

    /// An empty population over an empty catalog and default settings. It
    /// is well formed where some argument has the type `ret_type`.
    pub fn new(arg_types: Vec<TypeV>, ret_type: TypeV) -> (r: Population)
        ensures
            r.p@.len() == 0,
            r.arg_types == arg_types,
            r.ret_type == ret_type,
            r.params.is_default(),
            forall|ty: TypeV| r.builder_table.templates(ty).len() == 0,
            r.wf() == has_arg(arg_types@, ret_type),
    {
        let builder_table = BuilderTable::new();
        proof {
            assert forall|ty: TypeV| #[trigger]
                has_arg(arg_types@, ty) implies all_served(
                builder_table.templates(ty),
                arg_types@,
            ) by {
                assert(builder_table.templates(ty).len() == 0);
            }
        }
        Population { p: Vec::new(), params: BuilderParams::new(), arg_types, ret_type, builder_table }
    }

    /// Replaces the catalog.
    pub fn set_build_table(&mut self, build_table: BuilderTable)
        ensures
            final(self).builder_table == build_table,
            final(self).p == old(self).p,
            final(self).params == old(self).params,
            final(self).arg_types == old(self).arg_types,
            final(self).ret_type == old(self).ret_type,
    {
        self.builder_table = build_table;
    }

    /// Replaces the settings and the random source.
    pub fn set_params(&mut self, params: BuilderParams)
        ensures
            final(self).params == params,
            final(self).p == old(self).p,
            final(self).builder_table == old(self).builder_table,
            final(self).arg_types == old(self).arg_types,
            final(self).ret_type == old(self).ret_type,
    {
        self.params = params;
    }

    /// Whether fresh members can be generated; see `Frame::ready`.
    pub fn is_ready(&self) -> (r: bool)
        ensures
            r == self.frame().ready(),
    {
        has_matching_arg(self.arg_types.as_slice(), self.ret_type) && self.builder_table.is_served_by(
            self.arg_types.as_slice(),
        )
    }

    /// Whether every member can mutate; see `Frame::can_mutate`.
    pub fn can_mutate(&self) -> (r: bool)
        ensures
            r == self.frame().can_mutate(self.p@),
    {
        if !self.builder_table.is_served_by(self.arg_types.as_slice()) {
            return false;
        }
        let mut i: usize = 0;
        while i < self.p.len()
            invariant
                i <= self.p@.len(),
                forall|k: int|
                    0 <= k < i ==> (#[trigger] self.p@[k]).root.regrowable(self.arg_types@),
            decreases self.p@.len() - i,
        {
            if !self.p[i].root.check_regrowable(self.arg_types.as_slice()) {
                return false;
            }
            i = i + 1;
        }
        true
    }

    /// Whether the settings can be used, fresh members can be generated,
    /// and every member can be a member.
    pub fn is_wf(&self) -> (r: bool)
        ensures
            r == self.wf(),
    {
        if !self.params.is_wf() || !self.is_ready() {
            return false;
        }
        let mut i: usize = 0;
        while i < self.p.len()
            invariant
                i <= self.p@.len(),
                forall|k: int| 0 <= k < i ==> self.admits(#[trigger] self.p@[k]),
            decreases self.p@.len() - i,
        {
            let member = &self.p[i];
            let fine = member.root.type_check().is_ok() && member.root.get_rtype() == self.ret_type
                && member.root.check_args(self.arg_types.as_slice()) && member.root.check_regrowable(
                self.arg_types.as_slice(),
            );
            if !fine {
                assert(!self.admits(self.p@[i as int]));
                return false;
            }
            i = i + 1;
        }
        true
    }

    /// Adds `num_subs` random expressions, generated from depth 0 and not
    /// yet scored. Fresh members have to be possible; see `Frame::ready`.
    pub fn init_population<A: FloatOps>(&mut self, num_subs: usize, fl: &A)
        requires
            old(self).params.wf(),
            old(self).frame().ready(),
        ensures
            final(self).same_frame(*old(self)),
            old(self).frame().joined_fresh(old(self).p@, final(self).p@, num_subs as nat, fl),
            old(self).wf() ==> final(self).wf(),
    {
        let ghost frame = self.frame();
        let mut k: usize = 0;
        assert(self.p@.take(old(self).p@.len() as int) =~= old(self).p@);
        while k < num_subs
            invariant
                k <= num_subs,
                self.params.wf(),
                self.frame() == frame,
                frame == old(self).frame(),
                frame.ready(),
                frame.joined_fresh(old(self).p@, self.p@, k as nat, fl),
                old(self).wf() ==> self.wf(),
            decreases num_subs - k,
        {
            let mut types: Vec<TypeV> = Vec::new();
            let mut j: usize = 0;
            while j < self.arg_types.len()
                invariant
                    j <= self.arg_types@.len(),
                    types@ == self.arg_types@.take(j as int),
                decreases self.arg_types@.len() - j,
            {
                types.push(self.arg_types[j]);
                j = j + 1;
                assert(types@ =~= self.arg_types@.take(j as int));
            }
            assert(types@ =~= self.arg_types@);
            let fresh = Expr::random(types, self.ret_type, &self.builder_table, &mut self.params, fl);
            let ghost before = self.p@;
            proof {
                use_type_invariant(&self.builder_table);
                frame.lemma_fresh_admitted(fresh, fl);
            }
            self.p.push(fresh);
            proof {
                assert(self.p@.take(old(self).p@.len() as int) =~= before.take(
                    old(self).p@.len() as int,
                ));
                assert forall|i: int| 0 <= i < self.p@.len() && frame.admits_all(
                    before,
                ) implies frame.admits(#[trigger] self.p@[i]) by {
                    if i < before.len() {
                        assert(self.p@[i] == before[i]);
                    }
                }
            }
            k = k + 1;
        }
    }

    /// Makes one try at a mutant of the member at `chosen`: the member is
    /// copied with random changes under the base probability `mut_prob`
    /// scaled by its average error; see `Node::mutant_copy`. A copy that
    /// differs joins the population, not yet scored. Each variable and
    /// operator of the member has to yield a type that some argument has.
    pub fn try_mutant<A: FloatOps>(&mut self, chosen: usize, mut_prob: Float32, fl: &A)
        requires
            old(self).params.wf(),
            chosen < old(self).p@.len(),
            old(self).p@[chosen as int].root.regrowable(old(self).arg_types@),
            old(self).p@[chosen as int].root.is_operator() ==> old(self).builder_table.served_by(
                old(self).arg_types@,
            ),
        ensures
            final(self).same_frame(*old(self)),
            exists|out: Option<Node>| #[trigger]
                old(self).frame().mutant_try(old(self).p@[chosen as int], out, mut_prob, fl)
                    && follows(old(self).p@, final(self).p@, out),
            old(self).wf() ==> final(self).wf(),
    {
        let ghost frame = self.frame();
        let member = &self.p[chosen];
        let probability = scale_probability(member.error, mut_prob, fl);
        let maybe_mutant = member.root.mutant_copy(
            probability,
            0,
            self.arg_types.as_slice(),
            &self.builder_table,
            &mut self.params,
            fl,
        );
        match maybe_mutant {
            Some(mutant) => {
                let ghost out = Some(*mutant);
                proof {
                    assert(frame.mutant_try(old(self).p@[chosen as int], out, mut_prob, fl));
                    if frame.admits_all(old(self).p@) {
                        use_type_invariant(&self.builder_table);
                        assert(frame.admits(old(self).p@[chosen as int]));
                        old(self).p@[chosen as int].root.lemma_mutant(
                            *mutant,
                            probability,
                            0,
                            frame.table,
                            frame.arg_types@,
                            frame.settings,
                            fl,
                        );
                    }
                }
                self.p.push(Expr::new(mutant));
                proof {
                    assert(self.p@.take(old(self).p@.len() as int) =~= old(self).p@);
                    assert(follows(old(self).p@, self.p@, out));
                    assert forall|i: int| 0 <= i < self.p@.len() && frame.admits_all(
                        old(self).p@,
                    ) implies frame.admits(#[trigger] self.p@[i]) by {
                        if i < old(self).p@.len() {
                            assert(self.p@[i] == old(self).p@[i]);
                        }
                    }
                }
            },
            None => {
                proof {
                    assert(frame.mutant_try(
                        old(self).p@[chosen as int],
                        None::<Node>,
                        mut_prob,
                        fl,
                    ));
                    assert(follows(old(self).p@, self.p@, None::<Node>));
                }
            },
        }
    }

    /// Makes one try at a cross of the members at `father_at` and
    /// `mother_at`: a fragment is taken out of the father wherever a node of
    /// his stands above the depth limit, and put into a copy of the mother
    /// where it fits, each under the base probability `breeding_prob` scaled
    /// by the parent's average error; see `Node::get_random_child` and
    /// `Node::set_random_child`. Where both steps succeed the child joins the
    /// population, not yet scored.
    pub fn try_cross<A: FloatOps>(
        &mut self,
        father_at: usize,
        mother_at: usize,
        breeding_prob: Float32,
        fl: &A,
    )
        requires
            old(self).params.wf(),
            father_at < old(self).p@.len(),
            mother_at < old(self).p@.len(),
        ensures
            final(self).same_frame(*old(self)),
            exists|gene: Option<Node>, out: Option<Node>| #[trigger]
                old(self).frame().cross_try(
                    old(self).p@[father_at as int],
                    old(self).p@[mother_at as int],
                    gene,
                    out,
                    breeding_prob,
                    fl,
                ) && follows(old(self).p@, final(self).p@, out),
            old(self).wf() ==> final(self).wf(),
    {
        let ghost frame = self.frame();
        let ghost dad = self.p@[father_at as int];
        let ghost mum = self.p@[mother_at as int];
        let father = &self.p[father_at];
        let mother = &self.p[mother_at];
        let father_probability = scale_probability(father.error, breeding_prob, fl);
        let mother_probability = scale_probability(mother.error, breeding_prob, fl);
        let maybe_gene = father.root.get_random_child(father_probability, 0, &mut self.params, fl);
        let ghost gene: Option<Node> = if maybe_gene is Some {
            Some(*maybe_gene->Some_0)
        } else {
            None
        };
        let maybe_child = match maybe_gene {
            Some(fragment) => mother.root.set_random_child(
                fragment,
                mother_probability,
                0,
                &mut self.params,
                fl,
            ),
            None => None,
        };
        let ghost out: Option<Node> = if maybe_child is Some {
            Some(*maybe_child->Some_0)
        } else {
            None
        };
        proof {
            assert(frame.cross_try(dad, mum, gene, out, breeding_prob, fl));
        }
        match maybe_child {
            Some(child) => {
                proof {
                    if frame.admits_all(old(self).p@) {
                        assert(frame.admits(dad) && frame.admits(mum));
                        let g = gene->Some_0;
                        dad.root.lemma_fragment(
                            g,
                            0,
                            frame.settings.max_depth as nat,
                            frame.arg_types@,
                        );
                        mum.root.lemma_spliced(
                            g,
                            *child,
                            0,
                            frame.settings.max_depth as nat,
                            frame.arg_types@,
                        );
                    }
                }
                self.p.push(Expr::new(child));
                proof {
                    assert(self.p@.take(old(self).p@.len() as int) =~= old(self).p@);
                    assert(follows(old(self).p@, self.p@, out));
                    assert forall|i: int| 0 <= i < self.p@.len() && frame.admits_all(
                        old(self).p@,
                    ) implies frame.admits(#[trigger] self.p@[i]) by {
                        if i < old(self).p@.len() {
                            assert(self.p@[i] == old(self).p@[i]);
                        }
                    }
                }
            },
            None => {
                proof {
                    assert(follows(old(self).p@, self.p@, out));
                }
            },
        }
    }

    /// Tries `num_tries` times to add a mutant. Each time a member is picked,
    /// better-ranked members with greater chance, and `try_mutant` is made
    /// on it. Nothing happens in a population of fewer than two members, nor
    /// where the weights by rank do not add up within a machine word. Every
    /// member has to be able to mutate; see `Frame::can_mutate`.
    pub fn generate_mutants<A: FloatOps>(&mut self, num_tries: usize, mut_prob: Float32, fl: &A)
        requires
            old(self).params.wf(),
            old(self).frame().can_mutate(old(self).p@),
        ensures
            final(self).same_frame(*old(self)),
            old(self).frame().mutants_run(
                old(self).p@,
                final(self).p@,
                num_tries as nat,
                mut_prob,
                fl,
            ),
            old(self).frame().joined_mutants(
                old(self).p@,
                final(self).p@,
                num_tries as nat,
                mut_prob,
                fl,
            ),
            old(self).wf() ==> final(self).wf(),
    {
        let ghost frame = self.frame();
        let ghost start = self.p@;
        assert(start.take(start.len() as int) =~= start);
        let initial_population = self.p.len();
        let picker = match rank_picker(initial_population) {
            Some(picker) => picker,
            None => {
                return ;
            },
        };
        let ghost mut stages: Seq<Seq<Expr>> = seq![start];
        let ghost mut picks: Seq<int> = Seq::empty();
        let ghost mut outs: Seq<Option<Node>> = Seq::empty();
        let mut tries: usize = 0;
        while tries < num_tries
            invariant
                tries <= num_tries,
                start == old(self).p@,
                initial_population == start.len(),
                weights_of(picker) == rank_weights(initial_population as nat),
                self.params.wf(),
                self.frame() == frame,
                frame == old(self).frame(),
                frame.mutant_tries(start, stages, picks, outs, mut_prob, fl),
                picks.len() == tries,
                stages[tries as int] == self.p@,
                frame.joined_mutants(start, self.p@, tries as nat, mut_prob, fl),
                frame.can_mutate(start),
                old(self).wf() ==> self.wf(),
            decreases num_tries - tries,
        {
            let chosen = weighted_sample(&picker, &mut self.params.randomizer);
            let ghost before = self.p@;
            assert(before[chosen as int] == before.take(start.len() as int)[chosen as int]);
            assert(start[chosen as int].root.regrowable(frame.arg_types@));
            self.try_mutant(chosen, mut_prob, fl);
            proof {
                let out = choose|out: Option<Node>| #[trigger]
                    frame.mutant_try(before[chosen as int], out, mut_prob, fl) && follows(
                        before,
                        self.p@,
                        out,
                    );
                let longer = stages.push(self.p@);
                let more_picks = picks.push(chosen as int);
                let more_outs = outs.push(out);
                assert forall|k: int| 0 <= k < more_picks.len() implies 0 <= #[trigger] more_picks[k]
                    < start.len() - 1 && frame.mutant_try(
                    start[more_picks[k]],
                    more_outs[k],
                    mut_prob,
                    fl,
                ) && follows(longer[k], longer[k + 1], more_outs[k]) by {
                    if k < tries {
                        assert(more_picks[k] == picks[k]);
                        assert(more_outs[k] == outs[k]);
                        assert(longer[k] == stages[k] && longer[k + 1] == stages[k + 1]);
                    } else {
                        assert(longer[k] == before && longer[k + 1] == self.p@);
                    }
                }
                stages = longer;
                picks = more_picks;
                outs = more_outs;
                if out is Some {
                    assert(self.p@.take(start.len() as int) =~= before.take(start.len() as int));
                    assert(frame.mutant_of(start[chosen as int], *self.p@.last().root, mut_prob, fl));
                    assert(frame.mutant_in(start, self.p@.last(), mut_prob, fl));
                    assert forall|i: int| start.len() <= i < self.p@.len() implies frame.mutant_in(
                        start,
                        #[trigger] self.p@[i],
                        mut_prob,
                        fl,
                    ) by {
                        if i < before.len() {
                            assert(self.p@[i] == before[i]);
                        }
                    }
                }
            }
            tries = tries + 1;
        }
    }

    /// Tries `num_tries` times to add a cross. Each time a father and a
    /// mother are picked, better-ranked members with greater chance, and
    /// `try_cross` is made on them. Nothing happens in a population of fewer
    /// than two members, nor where the weights by rank do not add up within
    /// a machine word.
    pub fn cross_breed<A: FloatOps>(&mut self, num_tries: usize, breeding_prob: Float32, fl: &A)
        requires
            old(self).params.wf(),
        ensures
            final(self).same_frame(*old(self)),
            old(self).frame().crosses_run(
                old(self).p@,
                final(self).p@,
                num_tries as nat,
                breeding_prob,
                fl,
            ),
            old(self).frame().joined_crosses(
                old(self).p@,
                final(self).p@,
                num_tries as nat,
                breeding_prob,
                fl,
            ),
            old(self).wf() ==> final(self).wf(),
    {
        let ghost frame = self.frame();
        let ghost start = self.p@;
        assert(start.take(start.len() as int) =~= start);
        let initial_population = self.p.len();
        let picker = match rank_picker(initial_population) {
            Some(picker) => picker,
            None => {
                return ;
            },
        };
        let ghost mut stages: Seq<Seq<Expr>> = seq![start];
        let ghost mut fathers: Seq<int> = Seq::empty();
        let ghost mut mothers: Seq<int> = Seq::empty();
        let ghost mut genes: Seq<Option<Node>> = Seq::empty();
        let ghost mut outs: Seq<Option<Node>> = Seq::empty();
        let mut tries: usize = 0;
        while tries < num_tries
            invariant
                tries <= num_tries,
                start == old(self).p@,
                initial_population == start.len(),
                weights_of(picker) == rank_weights(initial_population as nat),
                self.params.wf(),
                self.frame() == frame,
                frame == old(self).frame(),
                frame.cross_tries(start, stages, fathers, mothers, genes, outs, breeding_prob, fl),
                fathers.len() == tries,
                stages[tries as int] == self.p@,
                frame.joined_crosses(start, self.p@, tries as nat, breeding_prob, fl),
                old(self).wf() ==> self.wf(),
            decreases num_tries - tries,
        {
            let father_at = weighted_sample(&picker, &mut self.params.randomizer);
            let mother_at = weighted_sample(&picker, &mut self.params.randomizer);
            let ghost before = self.p@;
            assert(before[father_at as int] == before.take(start.len() as int)[father_at as int]);
            assert(before[mother_at as int] == before.take(start.len() as int)[mother_at as int]);
            self.try_cross(father_at, mother_at, breeding_prob, fl);
            proof {
                let (gene, out) = choose|gene: Option<Node>, out: Option<Node>| #[trigger]
                    frame.cross_try(
                        before[father_at as int],
                        before[mother_at as int],
                        gene,
                        out,
                        breeding_prob,
                        fl,
                    ) && follows(before, self.p@, out);
                let longer = stages.push(self.p@);
                let more_fathers = fathers.push(father_at as int);
                let more_mothers = mothers.push(mother_at as int);
                let more_genes = genes.push(gene);
                let more_outs = outs.push(out);
                assert forall|k: int| 0 <= k < more_fathers.len() implies 0
                    <= #[trigger] more_fathers[k] < start.len() - 1 && 0 <= more_mothers[k]
                    < start.len() - 1 && frame.cross_try(
                    start[more_fathers[k]],
                    start[more_mothers[k]],
                    more_genes[k],
                    more_outs[k],
                    breeding_prob,
                    fl,
                ) && follows(longer[k], longer[k + 1], more_outs[k]) by {
                    if k < tries {
                        assert(more_fathers[k] == fathers[k]);
                        assert(more_mothers[k] == mothers[k]);
                        assert(more_genes[k] == genes[k]);
                        assert(more_outs[k] == outs[k]);
                        assert(longer[k] == stages[k] && longer[k + 1] == stages[k + 1]);
                    } else {
                        assert(longer[k] == before && longer[k + 1] == self.p@);
                    }
                }
                stages = longer;
                fathers = more_fathers;
                mothers = more_mothers;
                genes = more_genes;
                outs = more_outs;
                if out is Some {
                    assert(self.p@.take(start.len() as int) =~= before.take(start.len() as int));
                    assert(gene is Some);
                    assert(start[mother_at as int].root.placement(
                        gene->Some_0,
                        Some(*self.p@.last().root),
                        scaled_probability(start[mother_at as int].error, breeding_prob, fl),
                        0,
                        frame.settings,
                        fl,
                    ));
                    assert(frame.cross_of(
                        start[father_at as int],
                        start[mother_at as int],
                        *self.p@.last().root,
                        breeding_prob,
                        fl,
                    ));
                    assert(frame.cross_in(start, self.p@.last(), breeding_prob, fl));
                    assert forall|i: int| start.len() <= i < self.p@.len() implies frame.cross_in(
                        start,
                        #[trigger] self.p@[i],
                        breeding_prob,
                        fl,
                    ) by {
                        if i < before.len() {
                            assert(self.p@[i] == before[i]);
                        }
                    }
                }
            }
            tries = tries + 1;
        }
    }

    /// Simplifies every member; see `Expr::prune`.
    pub fn prune_population(&mut self)
        ensures
            final(self).same_frame(*old(self)),
            final(self).params == old(self).params,
            final(self).p@ == pruned_all(old(self).p@),
            old(self).wf() ==> final(self).wf(),
    {
        let mut i: usize = 0;
        while i < self.p.len()
            invariant
                i <= self.p@.len(),
                self.same_frame(*old(self)),
                self.params == old(self).params,
                self.p@.len() == old(self).p@.len(),
                forall|k: int| i <= k < self.p@.len() ==> #[trigger] self.p@[k] == old(self).p@[k],
                forall|k: int| 0 <= k < i ==> #[trigger] self.p@[k] == old(self).p@[k].pruned(),
            decreases self.p@.len() - i,
        {
            self.p[i].prune();
            i = i + 1;
        }
        proof {
            assert(self.p@ =~= pruned_all(old(self).p@));
            if old(self).wf() {
                assert forall|k: int| 0 <= k < self.p@.len() implies self.admits(
                    #[trigger] self.p@[k],
                ) by {
                    assert(old(self).admits(old(self).p@[k]));
                    old(self).p@[k].root.lemma_pruned_well_typed(self.arg_types@);
                }
            }
        }
    }

    /// Scores every member whose fitness is not known yet; see
    /// `Expr::calc_err`. A known fitness is kept as it is.
    pub fn calc_err<A: FloatOps, E: ErrorFn<A>>(
        &mut self,
        train_x: &[Vec<Type>],
        train_y: &[Type],
        err_fn: &E,
        fl: &A,
    )
        requires
            train_x@.len() == train_y@.len(),
        ensures
            final(self).same_frame(*old(self)),
            final(self).params == old(self).params,
            final(self).p@ == scored_all(old(self).p@, rows_of(train_x@), train_y@, err_fn, fl),
            all_scored(final(self).p@),
            old(self).wf() ==> final(self).wf(),
    {
        let ghost xs = rows_of(train_x@);
        let mut i: usize = 0;
        while i < self.p.len()
            invariant
                i <= self.p@.len(),
                train_x@.len() == train_y@.len(),
                xs == rows_of(train_x@),
                self.same_frame(*old(self)),
                self.params == old(self).params,
                self.p@.len() == old(self).p@.len(),
                forall|k: int| i <= k < self.p@.len() ==> #[trigger] self.p@[k] == old(self).p@[k],
                forall|k: int|
                    0 <= k < i ==> #[trigger] self.p@[k] == old(self).p@[k].scored(
                        xs,
                        train_y@,
                        err_fn,
                        fl,
                    ),
            decreases self.p@.len() - i,
        {
            let known = match self.p[i].error {
                Error::Uncalculated => false,
                _ => true,
            };
            if !known {
                self.p[i].calc_err(train_x, train_y, err_fn, fl);
            }
            i = i + 1;
        }
        proof {
            assert(self.p@ =~= scored_all(old(self).p@, xs, train_y@, err_fn, fl));
            if old(self).wf() {
                assert forall|k: int| 0 <= k < self.p@.len() implies self.admits(
                    #[trigger] self.p@[k],
                ) by {
                    assert(old(self).admits(old(self).p@[k]));
                }
            }
        }
    }

    /// Forgets the fitness of every member, so that the next ranking scores
    /// each of them anew: for members whose fitness was taken on other
    /// samples or with another measure of error.
    pub fn forget_scores(&mut self)
        ensures
            final(self).same_frame(*old(self)),
            final(self).params == old(self).params,
            final(self).p@ == forgotten_all(old(self).p@),
            old(self).wf() ==> final(self).wf(),
    {
        let mut i: usize = 0;
        while i < self.p.len()
            invariant
                i <= self.p@.len(),
                self.same_frame(*old(self)),
                self.params == old(self).params,
                self.p@.len() == old(self).p@.len(),
                forall|k: int| i <= k < self.p@.len() ==> #[trigger] self.p@[k] == old(self).p@[k],
                forall|k: int|
                    0 <= k < i ==> #[trigger] self.p@[k] == old(self).p@[k].with_error(
                        Error::Uncalculated,
                    ),
            decreases self.p@.len() - i,
        {
            self.p[i].error = Error::Uncalculated;
            i = i + 1;
        }
        proof {
            assert(self.p@ =~= forgotten_all(old(self).p@));
            if old(self).wf() {
                assert forall|k: int| 0 <= k < self.p@.len() implies self.admits(
                    #[trigger] self.p@[k],
                ) by {
                    assert(old(self).admits(old(self).p@[k]));
                }
            }
        }
    }

    /// Ranks the members, best first. The fitness of every member has to be
    /// known.
    pub fn sort_population(&mut self)
        requires
            all_scored(old(self).p@),
        ensures
            final(self).same_frame(*old(self)),
            final(self).params == old(self).params,
            final(self).p@.to_multiset() == old(self).p@.to_multiset(),
            final(self).p@.len() == old(self).p@.len(),
            forall|i: int|
                0 <= i < final(self).p@.len() ==> old(self).p@.contains(#[trigger] final(self).p@[i]),
            ranked(final(self).p@),
            all_scored(final(self).p@),
            old(self).wf() ==> final(self).wf(),
    {
        sort_by_rank(&mut self.p);
        proof {
            if old(self).wf() {
                assert forall|k: int| 0 <= k < self.p@.len() implies self.admits(
                    #[trigger] self.p@[k],
                ) by {
                    let j = choose|j: int| 0 <= j < old(self).p@.len() && old(self).p@[j] == self.p@[k];
                    assert(old(self).admits(old(self).p@[j]));
                }
            }
        }
    }

    /// Keeps the first `final_n` members and drops the rest; keeps all where
    /// there are no more than `final_n`.
    pub fn purge_unfit(&mut self, final_n: usize)
        ensures
            final(self).same_frame(*old(self)),
            final(self).params == old(self).params,
            final(self).p@ == cut(old(self).p@, final_n as nat),
            old(self).wf() ==> final(self).wf(),
    {
        self.p.truncate(final_n);
        proof {
            if final_n <= old(self).p@.len() {
                assert(self.p@ =~= old(self).p@.take(final_n as int));
            }
            if old(self).wf() {
                assert forall|k: int| 0 <= k < self.p@.len() implies self.admits(
                    #[trigger] self.p@[k],
                ) by {
                    assert(old(self).admits(old(self).p@[k]));
                }
            }
        }
    }

    /// Prunes, scores and ranks the population: one after the other
    /// `prune_population`, `calc_err` and `sort_population`. Afterwards every
    /// member is scored and pruned and the members are ranked. Where the
    /// known scores were true before, all scores are true afterwards, and
    /// the best is no worse than any scored member before.
    pub fn rank_population<A: FloatOps, E: ErrorFn<A>>(
        &mut self,
        train_x: &[Vec<Type>],
        train_y: &[Type],
        err_fn: &E,
        fl: &A,
    )
        requires
            train_x@.len() == train_y@.len(),
        ensures
            final(self).same_frame(*old(self)),
            final(self).params == old(self).params,
            ranking_of(old(self).p@, final(self).p@, rows_of(train_x@), train_y@, err_fn, fl),
            final(self).p@.len() == old(self).p@.len(),
            all_scored(final(self).p@),
            forall|i: int|
                0 <= i < final(self).p@.len() ==> (#[trigger] final(self).p@[i]).root.reduced(),
            settled(old(self).p@, rows_of(train_x@), train_y@, err_fn, fl) ==> settled(
                final(self).p@,
                rows_of(train_x@),
                train_y@,
                err_fn,
                fl,
            ) && no_better_than(old(self).p@, final(self).p@),
            old(self).wf() ==> final(self).wf(),
    {
        let ghost xs = rows_of(train_x@);
        self.prune_population();
        let ghost pruned = self.p@;
        proof {
            assert forall|i: int| 0 <= i < pruned.len() implies (#[trigger] pruned[i]).root.reduced() by {
                old(self).p@[i].root.lemma_pruned();
            }
            if settled(old(self).p@, xs, train_y@, err_fn, fl) {
                assert forall|i: int|
                    0 <= i < pruned.len() && (#[trigger] pruned[i]).error is Scored implies pruned[i]
                        == old(self).p@[i] by {
                    if old(self).p@[i].error is Scored {
                        old(self).p@[i].root.lemma_pruned_fixed();
                        assert(pruned[i].root == old(self).p@[i].root);
                    }
                }
            }
        }
        self.calc_err(train_x, train_y, err_fn, fl);
        let ghost scored = self.p@;
        proof {
            assert forall|i: int| 0 <= i < scored.len() implies (#[trigger] scored[i]).root.reduced() by {
                assert(pruned[i].root.reduced());
            }
            if settled(old(self).p@, xs, train_y@, err_fn, fl) {
                assert forall|i: int| 0 <= i < scored.len() implies (#[trigger] scored[i]).error == score(
                    *scored[i].root,
                    xs,
                    train_y@,
                    err_fn,
                    fl,
                ) by {
                    if pruned[i].error is Scored {
                        assert(pruned[i] == old(self).p@[i]);
                    }
                }
            }
        }
        self.sort_population();
        proof {
            assert forall|i: int| 0 <= i < self.p@.len() implies (#[trigger] self.p@[i]).root.reduced() by {
                let j = choose|j: int| 0 <= j < scored.len() && scored[j] == self.p@[i];
                assert(scored[j].root.reduced());
            }
            if settled(old(self).p@, xs, train_y@, err_fn, fl) {
                assert forall|i: int|
                    0 <= i < self.p@.len() && (#[trigger] self.p@[i]).error is Scored implies self.p@[i].root.reduced()
                        && self.p@[i].error == score(*self.p@[i].root, xs, train_y@, err_fn, fl) by {
                    let j = choose|j: int| 0 <= j < scored.len() && scored[j] == self.p@[i];
                    assert(scored[j].error == score(*scored[j].root, xs, train_y@, err_fn, fl));
                }
                assert forall|k: int|
                    0 <= k < old(self).p@.len() && (#[trigger] old(self).p@[k]).error is Scored implies !old(
                        self,
                    ).p@[k].error.before(self.p@[0].error) by {
                    // The member kept its tree and its score, and is still a member.
                    assert(pruned[k] == old(self).p@[k]) by {
                        old(self).p@[k].root.lemma_pruned_fixed();
                        assert(pruned[k].root == old(self).p@[k].root);
                    }
                    assert(scored[k] == pruned[k]);
                    scored.to_multiset_ensures();
                    self.p@.to_multiset_ensures();
                    assert(scored.contains(scored[k]));
                    assert(scored.to_multiset().count(scored[k]) > 0);
                    assert(self.p@.to_multiset().count(scored[k]) > 0);
                    assert(self.p@.contains(scored[k]));
                    let at = choose|at: int| 0 <= at < self.p@.len() && self.p@[at] == scored[k];
                    if at > 0 {
                        assert(!self.p@[at].error.before(self.p@[0].error));
                    } else {
                        Error::lemma_exactly_one(self.p@[0].error, self.p@[0].error);
                    }
                }
            }
        }
    }

    /// The first stage of a generation: ranks the population, cuts it back
    /// where the generation calls for it, and lets fresh members join where
    /// the generation calls for it. Hands back the number of attempts at
    /// offspring, and the ranking.
    fn renew<A: FloatOps, E: ErrorFn<A>>(
        &mut self,
        args: &TrainingArgs<'_, E>,
        i: usize,
        fl: &A,
    ) -> (r: (usize, Ghost<Seq<Expr>>))
        requires
            old(self).wf(),
            args.valid(),
            old(self).p@.len() >= 1,
        ensures
            final(self).same_frame(*old(self)),
            final(self).wf(),
            ranking_of(
                old(self).p@,
                r.1@,
                rows_of(args.train_x->0@),
                args.train_y->0@,
                &args.err_fn,
                fl,
            ),
            old(self).frame().joined_fresh(
                Frame::kept_of(r.1@, *args, i),
                final(self).p@,
                Frame::arrivals_of(*args, i),
                fl,
            ),
            r.0 == Frame::tries_of(Frame::kept_of(r.1@, *args, i).len(), *args),
            final(self).p@.len() >= 1,
            final(self).p@[0] == r.1@[0],
            best_first(final(self).p@),
            ranked_first(final(self).p@),
            settled(old(self).p@, rows_of(args.train_x->0@), args.train_y->0@, &args.err_fn, fl)
                ==> settled(
                final(self).p@,
                rows_of(args.train_x->0@),
                args.train_y->0@,
                &args.err_fn,
                fl,
            ) && no_better_than(old(self).p@, final(self).p@),
    {
        let train_x = args.train_x.unwrap();
        let train_y = args.train_y.unwrap();
        let ghost xs = rows_of(train_x@);
        let ghost ys = train_y@;
        self.rank_population(train_x, train_y, &args.err_fn, fl);
        let ghost ranking = self.p@;
        proof {
            assert(best_first(ranking)) by {
                Error::lemma_exactly_one(ranking[0].error, ranking[0].error);
            }
            assert(ranked_first(ranking));
        }
        if i % args.purge_period == 0 {
            self.purge_unfit(args.n_subs);
            proof {
                lemma_cut_back(ranking, args.n_subs as nat, xs, ys, &args.err_fn, fl);
            }
        }
        let ghost kept = self.p@;
        let tries = share(self.p.len(), args.top_children_ratio.0, args.top_children_ratio.1);
        if i % args.new_sub_intro_period == 0 {
            self.init_population(
                share(args.n_subs, args.new_sub_increase_ratio.0, args.new_sub_increase_ratio.1),
                fl,
            );
            proof {
                lemma_joined(kept, self.p@, xs, ys, &args.err_fn, fl);
            }
        } else {
            assert(kept.take(kept.len() as int) =~= kept);
        }
        assert(self.p@[0] == kept[0]) by {
            assert(self.p@.take(kept.len() as int)[0] == self.p@[0]);
        }
        (tries, Ghost(ranking))
    }

    /// The second stage of a generation: in all but the last generation,
    /// crosses join and then mutants. Hands back the population between the
    /// two.
    fn breed<A: FloatOps, E: ErrorFn<A>>(
        &mut self,
        args: &TrainingArgs<'_, E>,
        i: usize,
        tries: usize,
        fl: &A,
    ) -> (crossed: Ghost<Seq<Expr>>)
        requires
            old(self).wf(),
            args.valid(),
            i < args.n_iter,
            old(self).p@.len() >= 1,
            best_first(old(self).p@),
            ranked_first(old(self).p@),
        ensures
            final(self).same_frame(*old(self)),
            final(self).wf(),
            old(self).frame().breeds(
                old(self).p@,
                crossed@,
                final(self).p@,
                *args,
                i,
                tries as nat,
                fl,
            ),
            final(self).p@.len() >= 1,
            final(self).p@[0] == old(self).p@[0],
            best_first(final(self).p@),
            ranked_first(final(self).p@),
            settled(old(self).p@, rows_of(args.train_x->0@), args.train_y->0@, &args.err_fn, fl)
                ==> settled(
                final(self).p@,
                rows_of(args.train_x->0@),
                args.train_y->0@,
                &args.err_fn,
                fl,
            ),
    {
        let ghost xs = rows_of(args.train_x->0@);
        let ghost ys = args.train_y->0@;
        let ghost seeded = self.p@;
        if i != args.n_iter - 1 {
            self.cross_breed(tries, args.breed_probability, fl);
            let ghost crossed = self.p@;
            proof {
                lemma_joined(seeded, crossed, xs, ys, &args.err_fn, fl);
                assert(crossed.take(seeded.len() as int)[0] == crossed[0]);
            }
            self.generate_mutants(tries, args.mut_probability, fl);
            proof {
                lemma_joined(crossed, self.p@, xs, ys, &args.err_fn, fl);
                assert(self.p@.take(crossed.len() as int)[0] == self.p@[0]);
            }
            Ghost(crossed)
        } else {
            Ghost(seeded)
        }
    }

    /// The last stage of a generation that does not say to stop: where it
    /// calls for a mass extinction, all but the best member give way to
    /// fresh ones; and a population above `max_population` is cut back.
    /// Hands back the population before the cut.
    fn restock<A: FloatOps, E: ErrorFn<A>>(
        &mut self,
        args: &TrainingArgs<'_, E>,
        next: Progress,
        fl: &A,
    ) -> (restocked: Ghost<Seq<Expr>>)
        requires
            old(self).wf(),
            args.valid(),
            old(self).p@.len() >= 1,
            best_first(old(self).p@),
            ranked_first(old(self).p@),
        ensures
            final(self).same_frame(*old(self)),
            final(self).wf(),
            old(self).frame().finishes(old(self).p@, restocked@, final(self).p@, *args, next, fl),
            final(self).p@.len() >= 1,
            final(self).p@[0] == old(self).p@[0],
            !next.stop ==> final(self).p@.len() <= args.max_population,
            best_first(final(self).p@),
            ranked_first(final(self).p@),
            settled(old(self).p@, rows_of(args.train_x->0@), args.train_y->0@, &args.err_fn, fl)
                ==> settled(
                final(self).p@,
                rows_of(args.train_x->0@),
                args.train_y->0@,
                &args.err_fn,
                fl,
            ),
    {
        let ghost xs = rows_of(args.train_x->0@);
        let ghost ys = args.train_y->0@;
        let ghost bred = self.p@;
        if next.stop {
            return Ghost(bred);
        }
        if next.extinction {
            self.purge_unfit(1);
            let ghost best_only = self.p@;
            proof {
                lemma_cut_back(bred, 1, xs, ys, &args.err_fn, fl);
            }
            self.init_population(args.n_subs - 1, fl);
            proof {
                lemma_joined(best_only, self.p@, xs, ys, &args.err_fn, fl);
                assert(self.p@.take(best_only.len() as int)[0] == self.p@[0]);
            }
        }
        let ghost restocked = self.p@;
        if self.p.len() > args.max_population {
            self.purge_unfit(args.max_population);
        }
        proof {
            lemma_cut_back(restocked, args.max_population as nat, xs, ys, &args.err_fn, fl);
            assert(restocked.take(restocked.len() as int) =~= restocked);
            assert(self.p@ == cut(restocked, args.max_population as nat));
        }
        Ghost(restocked)
    }

    /// Runs generation `i` of a training run and says whether training may
    /// stop.
    ///
    /// The population is pruned, scored and ranked. Every `purge_period`
    /// generations it is cut back to `n_subs`; every `new_sub_intro_period`
    /// generations fresh random members join; in all but the last generation
    /// crosses and mutants join, as many attempts of each as the share
    /// `top_children_ratio` of the population. Training may stop once the
    /// best fitness is good enough. Otherwise the best fitness is followed
    /// from `progress`; after `mass_extinction_th` generations without change
    /// all but the best member are replaced by fresh ones; and a population
    /// above `max_population` is cut back to it.
    pub fn run_generation<A: FloatOps, E: ErrorFn<A>>(
        &mut self,
        args: &TrainingArgs<'_, E>,
        i: usize,
        progress: Progress,
        fl: &A,
    ) -> (r: Progress)
        requires
            old(self).wf(),
            args.valid(),
            old(self).p@.len() >= 1,
            i < args.n_iter,
        ensures
            final(self).same_frame(*old(self)),
            old(self).frame().generation(old(self).p@, final(self).p@, *args, i, progress, fl),
            r == progress_after(
                progress,
                final(self).p@[0].error,
                args.max_allowed_err,
                args.delta_th,
                args.mass_extinction_th,
                fl,
            ),
            final(self).wf(),
            best_first(final(self).p@),
            ranked_first(final(self).p@),
            settled(old(self).p@, rows_of(args.train_x->0@), args.train_y->0@, &args.err_fn, fl)
                ==> settled(
                final(self).p@,
                rows_of(args.train_x->0@),
                args.train_y->0@,
                &args.err_fn,
                fl,
            ) && no_better_than(old(self).p@, final(self).p@),
            !r.stop ==> final(self).p@.len() <= args.max_population,
    {
        let ghost frame = self.frame();
        let (tries, ranking) = self.renew(args, i, fl);
        let ghost seeded = self.p@;
        let crossed = self.breed(args, i, tries, fl);
        let ghost bred = self.p@;
        let best = self.p[0].error;
        let next = advance(
            progress,
            best,
            args.max_allowed_err,
            args.delta_th,
            args.mass_extinction_th,
            fl,
        );
        let restocked = self.restock(args, next, fl);
        proof {
            assert(frame.generation_via(
                old(self).p@,
                ranking@,
                seeded,
                crossed@,
                bred,
                restocked@,
                self.p@,
                *args,
                i,
                progress,
                fl,
            ));
        }
        next
    }

    /// Trains the population and hands back a copy of its best member.
    ///
    /// `n_subs` random members join those that are there. Then the
    /// generations are run, see `run_generation`, until `n_iter` of them are
    /// done or one of them says that training may stop. A member that is
    /// there keeps the fitness it brings along, since scoring passes over
    /// what is scored: where it may stem from other samples, call
    /// `forget_scores` first. Where every fitness known at the start is true
    /// of its tree on the samples of `args`, so is every fitness afterwards,
    /// and no member scored at the start ranks better than the member
    /// returned; over the generations the best fitness never gets worse, see
    /// `Frame::lemma_best_never_worse`.
    pub fn train<A: FloatOps, E: ErrorFn<A>>(&mut self, args: &TrainingArgs<'_, E>, fl: &A) -> (r:
        Expr)
        requires
            old(self).wf(),
            args.valid(),
        ensures
            final(self).same_frame(*old(self)),
            old(self).frame().trains(old(self).p@, final(self).p@, *args, fl),
            final(self).p@.len() >= 1,
            r.root == final(self).p@[0].root,
            r.error == final(self).p@[0].error,
            r.arg_types@ == final(self).p@[0].arg_types@,
            r.rtype == final(self).p@[0].rtype,
            final(self).wf(),
            final(self).admits(r),
            settled(old(self).p@, rows_of(args.train_x->0@), args.train_y->0@, &args.err_fn, fl)
                ==> settled(
                final(self).p@,
                rows_of(args.train_x->0@),
                args.train_y->0@,
                &args.err_fn,
                fl,
            ),
            args.n_iter == 0 ==> old(self).frame().joined_fresh(
                old(self).p@,
                final(self).p@,
                args.n_subs as nat,
                fl,
            ),
            args.n_iter >= 1 ==> best_first(final(self).p@) && ranked_first(final(self).p@),
            args.n_iter >= 1 && settled(
                old(self).p@,
                rows_of(args.train_x->0@),
                args.train_y->0@,
                &args.err_fn,
                fl,
            ) ==> no_better_than(old(self).p@, final(self).p@) && r.root.reduced() && r.error
                == score(*r.root, rows_of(args.train_x->0@), args.train_y->0@, &args.err_fn, fl),
            args.n_iter >= 1 && !good_enough_of(r.error, args.max_allowed_err)
                ==> final(self).p@.len() <= args.max_population,
    {
        let ghost frame = self.frame();
        let ghost xs = rows_of(args.train_x->0@);
        let ghost ys = args.train_y->0@;
        self.init_population(args.n_subs, fl);
        let ghost start = self.p@;
        proof {
            frame.lemma_ran_none(start, *args, fl);
            lemma_joined(old(self).p@, start, xs, ys, &args.err_fn, fl);
        }
        let mut progress = Progress {
            mark: Error::Uncalculated,
            stagnant: 0,
            stop: false,
            extinction: false,
        };
        let mut i: usize = 0;
        while i < args.n_iter && !progress.stop
            invariant
                i <= args.n_iter,
                args.valid(),
                xs == rows_of(args.train_x->0@),
                ys == args.train_y->0@,
                self.wf(),
                self.frame() == frame,
                frame == old(self).frame(),
                frame.ran(start, self.p@, *args, i as nat, progress, fl),
                self.p@.len() >= 1,
                settled(start, xs, ys, &args.err_fn, fl) ==> settled(self.p@, xs, ys, &args.err_fn, fl),
                i == 0 ==> self.p@ == start && !progress.stop,
                i >= 1 ==> best_first(self.p@) && ranked_first(self.p@),
                i >= 1 && settled(start, xs, ys, &args.err_fn, fl) ==> no_better_than(start, self.p@),
                i >= 1 ==> progress.stop == good_enough_of(self.p@[0].error, args.max_allowed_err),
                i >= 1 && !progress.stop ==> self.p@.len() <= args.max_population,
            decreases args.n_iter - i,
        {
            let ghost prev = self.p@;
            let ghost before = progress;
            progress = self.run_generation(args, i, progress, fl);
            proof {
                frame.lemma_ran_on(start, prev, self.p@, *args, i as nat, before, fl);
                if i >= 1 && settled(start, xs, ys, &args.err_fn, fl) {
                    lemma_no_better_on(start, prev, self.p@);
                }
            }
            i = i + 1;
        }
        let best = self.p[0].clone();
        proof {
            assert(self.admits(self.p@[0]));
            assert(frame.ran(start, self.p@, *args, i as nat, progress, fl));
            if args.n_iter >= 1 && settled(old(self).p@, xs, ys, &args.err_fn, fl) {
                assert forall|k: int|
                    0 <= k < old(self).p@.len() && (#[trigger] old(self).p@[k]).error
                        is Scored implies !old(self).p@[k].error.before(self.p@[0].error) by {
                    assert(start.take(old(self).p@.len() as int)[k] == start[k]);
                }
            }
        }
        best
    }
}

} // verus!
