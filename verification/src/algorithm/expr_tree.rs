//! An expression: a tree together with its fitness.

use crate::node::base::{Node, NodeRef, Type, TypeErr, TypeV};
use crate::node::catalog::{has_arg, BuilderTable};
use crate::node::ieee::{ArithFn, Float32, FloatOps, ZERO_BITS};
use crate::node::params::BuilderParams;
use std::cmp::Ordering;
use vstd::prelude::*;

verus! {

/// Bit pattern of a quiet NaN, the error of a prediction that cannot be
/// compared with what was expected.
pub const NAN_BITS: u32 = 0x7FC0_0000;

/// The fitness of an expression: not yet known, or the pair of the average
/// error over the rows with a finite error (`real`) and the share of the
/// rows without one (`nan`).
#[derive(Debug, Clone, Copy, PartialEq, Eq, Structural)]
pub enum Error {
    Uncalculated,
    Scored { real: Float32, nan: Float32 },
}

impl Error {
    /// Whether `self` ranks strictly better than `other`: its share of rows
    /// without a finite error is smaller, or the shares are equal and its
    /// average error is smaller. Shares and averages are taken in the total
    /// order of all bit patterns, the two zeros counting as equal shares.
    pub open spec fn before(self, other: Error) -> bool {
        match (self, other) {
            (Error::Scored { real: r0, nan: n0 }, Error::Scored { real: r1, nan: n1 }) => if !n0.eq_value(
                n1,
            ) {
                n0.order_key() < n1.order_key()
            } else {
                r0.order_key() < r1.order_key()
            },
            _ => false,
        }
    }

    /// Whether neither of two known fitness values ranks better than the
    /// other.
    pub open spec fn same_rank(self, other: Error) -> bool {
        match (self, other) {
            (Error::Scored { real: r0, nan: n0 }, Error::Scored { real: r1, nan: n1 }) => if !n0.eq_value(
                n1,
            ) {
                n0.order_key() == n1.order_key()
            } else {
                r0.order_key() == r1.order_key()
            },
            _ => false,
        }
    }

    /// Of two known fitness values exactly one of three holds: the first
    /// ranks better, the second ranks better, or they rank the same. These
    /// are the three answers of `cmp`. With `lemma_transitive` this makes
    /// the ranking a strict weak order of the known fitness values.
    pub proof fn lemma_exactly_one(a: Error, b: Error)
        requires
            a is Scored,
            b is Scored,
        ensures
            a.before(b) || b.before(a) || a.same_rank(b),
            !(a.before(b) && b.before(a)),
            !(a.before(b) && a.same_rank(b)),
            !(b.before(a) && a.same_rank(b)),
            a.same_rank(b) == b.same_rank(a),
            a.same_rank(a),
    {
    }

    /// Ranking is transitive, and values of the same rank stand alike
    /// towards every third value.
    pub proof fn lemma_transitive(a: Error, b: Error, c: Error)
        requires
            a is Scored,
            b is Scored,
            c is Scored,
        ensures
            a.before(b) && b.before(c) ==> a.before(c),
            a.same_rank(b) && b.same_rank(c) ==> a.same_rank(c),
            a.same_rank(b) && b.before(c) ==> a.before(c),
            a.before(b) && b.same_rank(c) ==> a.before(c),
    {
    }

    /// Whether `self` ranks strictly better than `other`; no fitness ranks
    /// better than, or worse than, one that is not known.
    pub fn is_before(&self, other: &Error) -> (r: bool)
        ensures
            r == self.before(*other),
    {
        match (self, other) {
            (Error::Scored { real: r0, nan: n0 }, Error::Scored { real: r1, nan: n1 }) => {
                if n0.differs(*n1) {
                    n0.total_key() < n1.total_key()
                } else {
                    r0.total_key() < r1.total_key()
                }
            },
            _ => false,
        }
    }

    /// Compares two known fitness values: fewer rows without a finite error
    /// first, then the smaller average error. A fitness that is not known
    /// has no rank, so both have to be known.
    pub fn cmp(&self, other: &Error) -> (r: Ordering)
        requires
            self is Scored,
            other is Scored,
        ensures
            (r is Less) == self.before(*other),
            (r is Equal) == self.same_rank(*other),
            (r is Greater) == other.before(*self),
    {
        match (self, other) {
            (Error::Scored { real: r0, nan: n0 }, Error::Scored { real: r1, nan: n1 }) => {
                let (k0, k1) = if n0.differs(*n1) {
                    (n0.total_key(), n1.total_key())
                } else {
                    (r0.total_key(), r1.total_key())
                };
                if k0 < k1 {
                    Ordering::Less
                } else if k0 == k1 {
                    Ordering::Equal
                } else {
                    Ordering::Greater
                }
            },
            _ => Ordering::Equal,
        }
    }
}

/// A measure of how far a prediction lies from what was expected, as a
/// real number that is not negative. Scoring counts an error that is not
/// finite as a failed row.
pub trait ErrorFn<A: FloatOps> {
    /// The error of `predicted` against `expected`.
    spec fn error_of(&self, expected: Type, predicted: Type, fl: &A) -> Float32;

    fn error(&self, expected: Type, predicted: Type, fl: &A) -> (r: Float32)
        ensures
            r == self.error_of(expected, predicted, fl),
    ;
}

/// The error relative to what was expected: `|(predicted - expected) /
/// expected|`, and `|predicted|` where zero was expected. Values that are
/// not both real numbers have the error NaN.
pub struct RelativeError;

impl<A: FloatOps> ErrorFn<A> for RelativeError {
    open spec fn error_of(&self, expected: Type, predicted: Type, fl: &A) -> Float32 {
        match (predicted, expected) {
            (Type::Float(p), Type::Float(y)) => if !y.eq_value(Float32 { bits: ZERO_BITS }) {
                fl.binary_of(ArithFn::Div, fl.binary_of(ArithFn::Sub, p, y), y).abs_value()
            } else {
                p.abs_value()
            },
            _ => Float32 { bits: NAN_BITS },
        }
    }

    fn error(&self, expected: Type, predicted: Type, fl: &A) -> (r: Float32) {
        match (predicted, expected) {
            (Type::Float(p), Type::Float(y)) => if y.differs(Float32::zero()) {
                fl.binary(ArithFn::Div, fl.binary(ArithFn::Sub, p, y), y).abs()
            } else {
                p.abs()
            },
            _ => Float32::new(NAN_BITS),
        }
    }
}

/// The rows of a table, each as a sequence of values.
pub open spec fn rows_of(xs: Seq<Vec<Type>>) -> Seq<Seq<Type>> {
    xs.map_values(|row: Vec<Type>| row@)
}

/// The error of the tree on one row; nothing where the tree has no value on
/// the row.
pub open spec fn row_error<A: FloatOps, E: ErrorFn<A>>(
    root: Node,
    x: Seq<Type>,
    y: Type,
    err_fn: &E,
    fl: &A,
) -> Option<Float32> {
    match root.value(x, fl) {
        Some(p) => Some(err_fn.error_of(y, p, fl)),
        None => None,
    }
}

/// Whether a row counts towards the average: the tree has a value on it and
/// the error of that value is finite.
pub open spec fn row_counts(e: Option<Float32>) -> bool {
    e is Some && e->0.finite()
}

/// The sum of the finite errors over the first `n` rows, added up in order
/// from `0.0`.
pub open spec fn finite_sum<A: FloatOps, E: ErrorFn<A>>(
    root: Node,
    xs: Seq<Seq<Type>>,
    ys: Seq<Type>,
    n: nat,
    err_fn: &E,
    fl: &A,
) -> Float32
    decreases n,
{
    if n == 0 {
        Float32 { bits: ZERO_BITS }
    } else {
        let sum = finite_sum(root, xs, ys, (n - 1) as nat, err_fn, fl);
        let e = row_error(root, xs[n - 1], ys[n - 1], err_fn, fl);
        if row_counts(e) {
            fl.binary_of(ArithFn::Add, sum, e->0)
        } else {
            sum
        }
    }
}

/// The number of rows among the first `n` that do not count towards the
/// average.
pub open spec fn failed_rows<A: FloatOps, E: ErrorFn<A>>(
    root: Node,
    xs: Seq<Seq<Type>>,
    ys: Seq<Type>,
    n: nat,
    err_fn: &E,
    fl: &A,
) -> nat
    decreases n,
{
    if n == 0 {
        0
    } else {
        let failed = failed_rows(root, xs, ys, (n - 1) as nat, err_fn, fl);
        if row_counts(row_error(root, xs[n - 1], ys[n - 1], err_fn, fl)) {
            failed
        } else {
            failed + 1
        }
    }
}

/// The fitness of the tree on a table: the sum of the finite errors divided
/// by the number of rows, and the number of the other rows divided by the
/// number of rows.
pub open spec fn score<A: FloatOps, E: ErrorFn<A>>(
    root: Node,
    xs: Seq<Seq<Type>>,
    ys: Seq<Type>,
    err_fn: &E,
    fl: &A,
) -> Error {
    let rows = fl.count_of(xs.len() as u64);
    Error::Scored {
        real: fl.binary_of(ArithFn::Div, finite_sum(root, xs, ys, xs.len(), err_fn, fl), rows),
        nan: fl.binary_of(
            ArithFn::Div,
            fl.count_of(failed_rows(root, xs, ys, xs.len(), err_fn, fl) as u64),
            rows,
        ),
    }
}

/// A tree, the types it declares, and its fitness as far as it is known.
#[derive(Debug)]
pub struct Expr {
    pub root: NodeRef,
    pub error: Error,
    pub arg_types: Vec<TypeV>,
    pub rtype: TypeV,
}

impl Expr {
    /// The expression pruned: the tree is simplified, and the fitness stays
    /// where the tree stays the same and is unknown where the tree changed.
    pub open spec fn pruned(self) -> Expr {
        Expr {
            root: Box::new(self.root.pruned()),
            error: if self.root.pruned() == *self.root {
                self.error
            } else {
                Error::Uncalculated
            },
            ..self
        }
    }

    /// The expression with the fitness `error`.
    pub open spec fn with_error(self, error: Error) -> Expr {
        Expr { error, ..self }
    }

    /// The expression scored on a table, unless its fitness is known.
    pub open spec fn scored<A: FloatOps, E: ErrorFn<A>>(
        self,
        xs: Seq<Seq<Type>>,
        ys: Seq<Type>,
        err_fn: &E,
        fl: &A,
    ) -> Expr {
        if self.error is Uncalculated {
            self.with_error(score(*self.root, xs, ys, err_fn, fl))
        } else {
            self
        }
    }

    /// An expression over `root`, not yet scored.
    pub fn new(root: NodeRef) -> (r: Expr)
        ensures
            r.root == root,
            r.error == Error::Uncalculated,
            r.arg_types@ == root.arg_types(),
            r.rtype == root.rtype(),
    {
        Expr {
            arg_types: root.get_arg_types(),
            rtype: root.get_rtype(),
            error: Error::Uncalculated,
            root,
        }
    }

    /// A copy that shares nothing with the expression.
    pub fn clone(&self) -> (r: Expr)
        ensures
            r.root == self.root,
            r.error == self.error,
            r.arg_types@ == self.arg_types@,
            r.rtype == self.rtype,
    {
        let mut arg_types: Vec<TypeV> = Vec::new();
        let mut i: usize = 0;
        while i < self.arg_types.len()
            invariant
                i <= self.arg_types@.len(),
                arg_types@ == self.arg_types@.take(i as int),
            decreases self.arg_types@.len() - i,
        {
            arg_types.push(self.arg_types[i]);
            i = i + 1;
            assert(arg_types@ =~= self.arg_types@.take(i as int));
        }
        assert(arg_types@ =~= self.arg_types@);
        Expr { root: self.root.deep_copy(), error: self.error, arg_types, rtype: self.rtype }
    }

    /// A random expression of type `rtype` over arguments of the types
    /// `arg_types`, generated from depth 0 and not yet scored. Some argument
    /// has to have the type `rtype`, and generation has to be able to go on
    /// wherever it can start; see `BuilderTable::build_random`.
    pub fn random<A: FloatOps>(
        arg_types: Vec<TypeV>,
        rtype: TypeV,
        builder_table: &BuilderTable,
        params: &mut BuilderParams,
        fl: &A,
    ) -> (r: Expr)
        requires
            old(params).wf(),
            has_arg(arg_types@, rtype),
            builder_table.served_by(arg_types@),
        ensures
            final(params).same_settings(*old(params)),
            r.error == Error::Uncalculated,
            r.arg_types@ == arg_types@,
            r.rtype == rtype,
            r.root.grown_in(*builder_table, arg_types@, rtype, 0, old(params).settings(), fl),
            r.root.rtype() == rtype,
            r.root.well_typed(),
            r.root.fits_args(arg_types@),
            r.root.height() <= old(params).max_depth + 1,
            old(params).max_depth == 0 ==> r.root.is_leaf(),
            r.root.regrowable(arg_types@),
    {
        let root = builder_table.build_random(arg_types.as_slice(), rtype, 0, params, fl);
        proof {
            use_type_invariant(builder_table);
            root.lemma_grown_regrowable(
                *builder_table,
                arg_types@,
                rtype,
                0,
                old(params).settings(),
                fl,
            );
        }
        Expr { root, error: Error::Uncalculated, arg_types, rtype }
    }

    /// The indented dump of the tree.
    pub fn to_str<A: FloatOps>(&self, fl: &A) -> (r: String)
        ensures
            r@ == self.root.tree_text(0, fl),
    {
        self.root.get_tree_str(0, fl)
    }

    /// Checks the tree; see `Node::type_check`.
    pub fn type_check(&self) -> (r: Result<(), TypeErr>)
        ensures
            r is Ok <==> self.root.well_typed(),
            r is Err ==> self.root.fault() is Some && r->Err_0.msg@
                == self.root.fault()->0.fault_text(),
    {
        self.root.type_check()
    }

    /// Scores the expression against a table: evaluates the tree on every
    /// row of `train_x`, takes the error of the value against the entry of
    /// `train_y`, and stores the fitness. A row on which the tree has no
    /// value counts like a row whose error is not finite.
    pub fn calc_err<A: FloatOps, E: ErrorFn<A>>(
        &mut self,
        train_x: &[Vec<Type>],
        train_y: &[Type],
        err_fn: &E,
        fl: &A,
    )
        requires
            train_x@.len() == train_y@.len(),
        ensures
            *final(self) == old(self).with_error(
                score(*old(self).root, rows_of(train_x@), train_y@, err_fn, fl),
            ),
    {
        let ghost xs = rows_of(train_x@);
        let mut err_real = Float32::zero();
        let mut failed: usize = 0;
        let mut i: usize = 0;
        while i < train_x.len()
            invariant
                i <= train_x@.len(),
                train_x@.len() == train_y@.len(),
                xs == rows_of(train_x@),
                failed <= i,
                err_real == finite_sum(*self.root, xs, train_y@, i as nat, err_fn, fl),
                failed == failed_rows(*self.root, xs, train_y@, i as nat, err_fn, fl),
            decreases train_x@.len() - i,
        {
            assert(xs[i as int] == train_x@[i as int]@);
            let counted = match self.root.try_eval(train_x[i].as_slice(), fl) {
                Some(p) => {
                    let e = err_fn.error(train_y[i], p, fl);
                    if e.is_finite() {
                        err_real = fl.binary(ArithFn::Add, err_real, e);
                        true
                    } else {
                        false
                    }
                },
                None => false,
            };
            if !counted {
                failed = failed + 1;
            }
            i = i + 1;
        }
        let rows = fl.from_count(train_x.len() as u64);
        self.error = Error::Scored {
            real: fl.binary(ArithFn::Div, err_real, rows),
            nan: fl.binary(ArithFn::Div, fl.from_count(failed as u64), rows),
        };
    }

    /// Simplifies the tree; see `Node::prune`. The fitness stays where the
    /// tree stays the same, and is unknown again where the tree changed.
    pub fn prune(&mut self)
        ensures
            *final(self) == old(self).pruned(),
    {
        let pruned = self.root.prune();
        if !pruned.same_as(&self.root) {
            self.error = Error::Uncalculated;
        }
        self.root = pruned;
    }
}

} // verus!
