//! The settings of a training run.

use crate::algorithm::expr_tree::RelativeError;
use crate::node::base::Type;
use crate::node::ieee::{Float32, ZERO_BITS};
use vstd::prelude::*;

verus! {

/// Bit pattern of `0.1`, the default base probability of mutation and of
/// crossover.
pub const DEFAULT_PROBABILITY_BITS: u32 = 0x3DCC_CCCD;

/// Bit pattern of `0.01`, the default threshold below which the best
/// fitness counts as unchanged.
pub const DEFAULT_DELTA_BITS: u32 = 0x3C23_D70A;

/// The settings of a training run.
pub struct TrainingArgs<'a, E> {
    /// The input rows.
    pub train_x: Option<&'a [Vec<Type>]>,
    /// The expected outputs, one for each input row.
    pub train_y: Option<&'a [Type]>,
    /// The size that the population is cut back to.
    pub n_subs: usize,
    /// Every `purge_period` generations the population is cut back.
    pub purge_period: usize,
    /// The number of generations.
    pub n_iter: usize,
    /// The base probability of mutation.
    pub mut_probability: Float32,
    /// The base probability of picking a node in crossover.
    pub breed_probability: Float32,
    /// Every `new_sub_intro_period` generations fresh random expressions
    /// join the population.
    pub new_sub_intro_period: usize,
    /// The number of fresh expressions, as a share of `n_subs`.
    pub new_sub_increase_ratio: (usize, usize),
    /// The number of crossover and of mutation attempts in a generation, as
    /// a share of the population.
    pub top_children_ratio: (usize, usize),
    /// After this many generations without change of the best fitness all
    /// but the best expression are replaced.
    pub mass_extinction_th: usize,
    /// The relative change of the best fitness up to which it counts as
    /// unchanged.
    pub delta_th: Float32,
    /// Training stops once the best average error is at most this and no
    /// row fails.
    pub max_allowed_err: Float32,
    /// Whether the caller wants progress reported.
    pub log_en: bool,
    /// The measure of error between an expected and a predicted value.
    pub err_fn: E,
    /// Whether the caller wants run times reported.
    pub exec_time_log_en: bool,
    /// The size above which the population is cut back at the end of a
    /// generation.
    pub max_population: usize,
}

impl<'a> TrainingArgs<'a, RelativeError> {
    /// The default settings, without training data, with the relative error
    /// as the measure of error.
    pub fn new() -> (r: Self)
        ensures
            r.train_x is None,
            r.train_y is None,
            r.n_subs == 128,
            r.n_iter == 1000,
            !r.log_en,
            r.new_sub_intro_period == 5,
            r.new_sub_increase_ratio == (1usize, 2usize),
            r.top_children_ratio == (1usize, 2usize),
            r.mut_probability.bits == DEFAULT_PROBABILITY_BITS,
            r.breed_probability.bits == DEFAULT_PROBABILITY_BITS,
            r.purge_period == 1,
            r.delta_th.bits == DEFAULT_DELTA_BITS,
            r.mass_extinction_th == 50,
            r.max_allowed_err.bits == ZERO_BITS,
            !r.exec_time_log_en,
            r.max_population == 10000,
    {
        TrainingArgs {
            train_x: None,
            train_y: None,
            n_subs: 128,
            n_iter: 1000,
            log_en: false,
            new_sub_intro_period: 5,
            new_sub_increase_ratio: (1, 2),
            top_children_ratio: (1, 2),
            mut_probability: Float32::new(DEFAULT_PROBABILITY_BITS),
            breed_probability: Float32::new(DEFAULT_PROBABILITY_BITS),
            purge_period: 1,
            delta_th: Float32::new(DEFAULT_DELTA_BITS),
            mass_extinction_th: 50,
            max_allowed_err: Float32::zero(),
            exec_time_log_en: false,
            err_fn: RelativeError,
            max_population: 10000,
        }
    }
}

impl<'a, E> TrainingArgs<'a, E> {
    /// Whether a training run can start from the settings: the training data
    /// is there and pairs every input row with an output, the periods and
    /// the denominators of the shares are not zero, and the population never
    /// has to be empty.
    pub open spec fn valid(self) -> bool {
        &&& self.train_x is Some
        &&& self.train_y is Some
        &&& self.train_x->0@.len() == self.train_y->0@.len()
        &&& self.n_subs >= 1
        &&& self.max_population >= 1
        &&& self.purge_period >= 1
        &&& self.new_sub_intro_period >= 1
        &&& self.new_sub_increase_ratio.1 >= 1
        &&& self.top_children_ratio.1 >= 1
    }

    /// Sets the input rows.
    pub fn train_x(self, val: &'a [Vec<Type>]) -> (r: Self)
        ensures
            r == (TrainingArgs { train_x: Some(val), ..self }),
    {
        let mut out = self;
        out.train_x = Some(val);
        out
    }

    /// Sets the expected outputs.
    pub fn train_y(self, val: &'a [Type]) -> (r: Self)
        ensures
            r == (TrainingArgs { train_y: Some(val), ..self }),
    {
        let mut out = self;
        out.train_y = Some(val);
        out
    }

    /// Sets the average error at which training stops.
    pub fn max_allowed_err(self, val: Float32) -> (r: Self)
        ensures
            r == (TrainingArgs { max_allowed_err: val, ..self }),
    {
        let mut out = self;
        out.max_allowed_err = val;
        out
    }

    /// Sets the size that the population is cut back to.
    pub fn n_subs(self, val: usize) -> (r: Self)
        ensures
            r == (TrainingArgs { n_subs: val, ..self }),
    {
        let mut out = self;
        out.n_subs = val;
        out
    }

    /// Sets the number of generations.
    pub fn n_iter(self, val: usize) -> (r: Self)
        ensures
            r == (TrainingArgs { n_iter: val, ..self }),
    {
        let mut out = self;
        out.n_iter = val;
        out
    }

    /// Sets the base probability of mutation.
    pub fn mut_probability(self, val: Float32) -> (r: Self)
        ensures
            r == (TrainingArgs { mut_probability: val, ..self }),
    {
        let mut out = self;
        out.mut_probability = val;
        out
    }

    /// Sets the base probability of picking a node in crossover.
    pub fn breed_probability(self, val: Float32) -> (r: Self)
        ensures
            r == (TrainingArgs { breed_probability: val, ..self }),
    {
        let mut out = self;
        out.breed_probability = val;
        out
    }

    /// Says whether the caller wants progress reported.
    pub fn log_en(self, val: bool) -> (r: Self)
        ensures
            r == (TrainingArgs { log_en: val, ..self }),
    {
        let mut out = self;
        out.log_en = val;
        out
    }

    /// Says whether the caller wants run times reported.
    pub fn exec_time_log_en(self, val: bool) -> (r: Self)
        ensures
            r == (TrainingArgs { exec_time_log_en: val, ..self }),
    {
        let mut out = self;
        out.exec_time_log_en = val;
        out
    }

    /// Sets the number of generations between two arrivals of fresh members.
    pub fn new_sub_intro_period(self, val: usize) -> (r: Self)
        ensures
            r == (TrainingArgs { new_sub_intro_period: val, ..self }),
    {
        let mut out = self;
        out.new_sub_intro_period = val;
        out
    }

    /// Sets the number of fresh members as the share `num / den` of `n_subs`.
    pub fn new_sub_increase_ratio(self, num: usize, den: usize) -> (r: Self)
        ensures
            r == (TrainingArgs { new_sub_increase_ratio: (num, den), ..self }),
    {
        let mut out = self;
        out.new_sub_increase_ratio = (num, den);
        out
    }

    /// Sets the number of attempts at offspring as the share `num / den` of the
    /// population.
    pub fn top_children_ratio(self, num: usize, den: usize) -> (r: Self)
        ensures
            r == (TrainingArgs { top_children_ratio: (num, den), ..self }),
    {
        let mut out = self;
        out.top_children_ratio = (num, den);
        out
    }

    /// Sets the number of generations between two cuts of the population.
    pub fn purge_period(self, val: usize) -> (r: Self)
        ensures
            r == (TrainingArgs { purge_period: val, ..self }),
    {
        let mut out = self;
        out.purge_period = val;
        out
    }

    /// Sets the number of generations without change that bring on a mass
    /// extinction.
    pub fn mass_extinction_th(self, val: usize) -> (r: Self)
        ensures
            r == (TrainingArgs { mass_extinction_th: val, ..self }),
    {
        let mut out = self;
        out.mass_extinction_th = val;
        out
    }

    /// Replaces the measure of error.
    pub fn err_fn<F>(self, val: F) -> (r: TrainingArgs<'a, F>)
        ensures
            r.err_fn == val,
            r.train_x == self.train_x,
            r.train_y == self.train_y,
            r.n_subs == self.n_subs,
            r.purge_period == self.purge_period,
            r.n_iter == self.n_iter,
            r.mut_probability == self.mut_probability,
            r.breed_probability == self.breed_probability,
            r.new_sub_intro_period == self.new_sub_intro_period,
            r.new_sub_increase_ratio == self.new_sub_increase_ratio,
            r.top_children_ratio == self.top_children_ratio,
            r.mass_extinction_th == self.mass_extinction_th,
            r.delta_th == self.delta_th,
            r.max_allowed_err == self.max_allowed_err,
            r.log_en == self.log_en,
            r.exec_time_log_en == self.exec_time_log_en,
            r.max_population == self.max_population,
    {
        TrainingArgs {
            train_x: self.train_x,
            train_y: self.train_y,
            n_subs: self.n_subs,
            purge_period: self.purge_period,
            n_iter: self.n_iter,
            mut_probability: self.mut_probability,
            breed_probability: self.breed_probability,
            new_sub_intro_period: self.new_sub_intro_period,
            new_sub_increase_ratio: self.new_sub_increase_ratio,
            top_children_ratio: self.top_children_ratio,
            mass_extinction_th: self.mass_extinction_th,
            delta_th: self.delta_th,
            max_allowed_err: self.max_allowed_err,
            log_en: self.log_en,
            err_fn: val,
            exec_time_log_en: self.exec_time_log_en,
            max_population: self.max_population,
        }
    }

    /// Sets the relative change up to which the best fitness counts as
    /// unchanged.
    pub fn delta_th(self, val: Float32) -> (r: Self)
        ensures
            r == (TrainingArgs { delta_th: val, ..self }),
    {
        let mut out = self;
        out.delta_th = val;
        out
    }

    /// Sets the size above which the population is cut back.
    pub fn max_population(self, val: usize) -> (r: Self)
        ensures
            r == (TrainingArgs { max_population: val, ..self }),
    {
        let mut out = self;
        out.max_population = val;
        out
    }

    /// Whether a training run can start from the settings.
    pub fn is_valid(&self) -> (r: bool)
        ensures
            r == self.valid(),
    {
        match (self.train_x, self.train_y) {
            (Some(x), Some(y)) => x.len() == y.len() && self.n_subs >= 1 && self.max_population >= 1
                && self.purge_period >= 1 && self.new_sub_intro_period >= 1
                && self.new_sub_increase_ratio.1 >= 1 && self.top_children_ratio.1 >= 1,
            _ => false,
        }
    }

    /// Hands back settings that hold their training data.
    pub fn compile(self) -> (r: Self)
        requires
            self.train_x is Some,
            self.train_y is Some,
        ensures
            r == self,
    {
        self
    }
}

} // verus!
