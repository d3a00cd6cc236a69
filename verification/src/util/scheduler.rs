//! Schedulers of the learning rate.
//!
//! Numbers are held by their bit patterns. What a scheduler decides is decided here; the
//! multiplications that it asks for are those of whoever runs it.

use vstd::prelude::*;

use crate::util::precision::F32;

verus! {

/// The learning rate of a [`CosineDecayLR`], by what it is worked out from.
#[derive(Debug, Clone, Copy, PartialEq, Eq, Structural)]
pub enum CosineRate {
    /// On the straight line from the minimum to the maximum, `step` steps of `steps` along it.
    Rising { min_lr: F32, max_lr: F32, step: usize, steps: usize },
    /// On the half cosine wave from the maximum to the minimum, `step` steps of `steps` along it.
    Falling { min_lr: F32, max_lr: F32, step: usize, steps: usize },
    /// The minimum.
    Minimum { min_lr: F32 },
}

/// This learning rate scheduler raises the learning rate for some steps, and lets it fall along a
/// cosine wave after them.
#[derive(Debug, Clone, Copy, PartialEq, Eq, Structural)]
pub struct CosineDecayLR {
    pub min_lr: F32,
    pub max_lr: F32,
    pub cur_step: usize,
    pub total_step: usize,
    pub warmup_steps: usize,
}

impl CosineDecayLR {
    /// Once the network is warm, there are no fewer steps in total than it was warmed up for.
    pub open spec fn wf(self) -> bool {
        self.cur_step >= self.warmup_steps ==> self.total_step >= self.warmup_steps
    }

    /// The learning rate of the current step.
    pub open spec fn rate(self) -> CosineRate {
        if self.cur_step < self.warmup_steps {
            CosineRate::Rising {
                min_lr: self.min_lr,
                max_lr: self.max_lr,
                step: self.cur_step,
                steps: self.warmup_steps,
            }
        } else if self.total_step == self.warmup_steps {
            CosineRate::Minimum { min_lr: self.min_lr }
        } else {
            CosineRate::Falling {
                min_lr: self.min_lr,
                max_lr: self.max_lr,
                step: (self.cur_step - self.warmup_steps) as usize,
                steps: (self.total_step - self.warmup_steps) as usize,
            }
        }
    }

    /// Creates a new instance of this scheduler.
    ///
    /// # Arguments
    /// * `min_lr` - Minimum target learning rate.
    /// * `max_lr` - Maximum peak learning rate.
    /// * `total_step` - Total target steps
    /// * `warmup_steps` - Steps of increasing learning rate to warm up the network
    pub fn new(min_lr: F32, max_lr: F32, total_step: usize, warmup_steps: usize) -> (r: Self)
        ensures
            r == (CosineDecayLR { min_lr, max_lr, cur_step: 0, total_step, warmup_steps }),
            r.wf(),
    {
        Self { min_lr, max_lr, cur_step: 0, total_step, warmup_steps }
    }

    /// Resets the scheduler back into the original learning rate
    pub fn reset(&mut self)
        ensures
            *final(self) == (CosineDecayLR { cur_step: 0, ..*old(self) }),
            final(self).wf(),
    {
        self.cur_step = 0;
    }

    /// Returns the current learning rate value.
    pub fn get_learning_rate(&self) -> (r: CosineRate)
        requires
            self.wf(),
        ensures
            r == self.rate(),
    {
        if self.cur_step < self.warmup_steps {
            return CosineRate::Rising {
                min_lr: self.min_lr,
                max_lr: self.max_lr,
                step: self.cur_step,
                steps: self.warmup_steps,
            };
        }
        let step: usize = self.cur_step - self.warmup_steps;
        let steps: usize = self.total_step - self.warmup_steps;
        if steps == 0 {
            return CosineRate::Minimum { min_lr: self.min_lr };
        }
        CosineRate::Falling { min_lr: self.min_lr, max_lr: self.max_lr, step, steps }
    }

    /// Expected to be called once within a step.
    ///
    /// # Returns
    /// The updated learning rate.
    pub fn step(&mut self) -> (r: CosineRate)
        requires
            old(self).cur_step < usize::MAX,
            old(self).cur_step + 1 >= old(self).warmup_steps ==> old(self).total_step >= old(
                self,
            ).warmup_steps,
        ensures
            *final(self) == (CosineDecayLR {
                cur_step: (old(self).cur_step + 1) as usize,
                ..*old(self)
            }),
            final(self).wf(),
            r == final(self).rate(),
    {
        self.cur_step += 1;
        self.get_learning_rate()
    }
}

/// The learning rate starts at the bottom of its rise, is at the top when the network is warm, and
/// has fallen all the way after the last step.
pub proof fn law_cosine_runs_from_end_to_end(s: CosineDecayLR)
    requires
        s.warmup_steps < s.total_step,
    ensures
        s.warmup_steps > 0 ==> (CosineDecayLR { cur_step: 0, ..s }).rate() == (CosineRate::Rising {
            min_lr: s.min_lr,
            max_lr: s.max_lr,
            step: 0,
            steps: s.warmup_steps,
        }),
        (CosineDecayLR { cur_step: s.warmup_steps, ..s }).rate() == (CosineRate::Falling {
            min_lr: s.min_lr,
            max_lr: s.max_lr,
            step: 0,
            steps: (s.total_step - s.warmup_steps) as usize,
        }),
        (CosineDecayLR { cur_step: s.total_step, ..s }).rate() == (CosineRate::Falling {
            min_lr: s.min_lr,
            max_lr: s.max_lr,
            step: (s.total_step - s.warmup_steps) as usize,
            steps: (s.total_step - s.warmup_steps) as usize,
        }),
{
}

impl CosineDecayLR {
    /// The learning rate of the `j`-th step since the start.
    pub open spec fn rate_at(self, j: int) -> CosineRate {
        (CosineDecayLR { cur_step: j as usize, ..self }).rate()
    }
}

/// While the network warms up, the learning rate climbs from its minimum towards its maximum with
/// every step; after that it goes down from its maximum towards its minimum with every step, and it
/// never runs past its end.
pub proof fn law_cosine_rises_and_falls(s: CosineDecayLR, j: int, k: int)
    requires
        s.warmup_steps <= s.total_step,
        0 <= j < k <= s.total_step,
    ensures
        k < s.warmup_steps ==> {
            &&& s.rate_at(j) matches CosineRate::Rising { min_lr, max_lr, step, steps }
            &&& s.rate_at(k) == (CosineRate::Rising {
                min_lr: s.min_lr,
                max_lr: s.max_lr,
                step: k as usize,
                steps,
            })
            &&& min_lr == s.min_lr && max_lr == s.max_lr
            &&& step == j && j < k < steps
        },
        j < s.warmup_steps <= k ==> s.rate_at(j) is Rising && !(s.rate_at(k) is Rising),
        s.warmup_steps <= j ==> {
            &&& s.rate_at(j) matches CosineRate::Falling { min_lr, max_lr, step, steps }
            &&& s.rate_at(k) == (CosineRate::Falling {
                min_lr: s.min_lr,
                max_lr: s.max_lr,
                step: (k - s.warmup_steps) as usize,
                steps,
            })
            &&& min_lr == s.min_lr && max_lr == s.max_lr
            &&& step == j - s.warmup_steps && steps == s.total_step - s.warmup_steps
            &&& step < k - s.warmup_steps <= steps
        },
        k == s.total_step && s.warmup_steps == s.total_step ==> s.rate_at(k) == (
        CosineRate::Minimum { min_lr: s.min_lr }),
{
}

/// This learning rate scheduler focuses on decreasing the learning rate exponentially.
#[derive(Debug, Clone, Copy, PartialEq, Eq, Structural)]
pub struct ExponentialLR {
    pub ori_lr: F32,
    pub cur_lr: F32,
    pub lr_factor: F32,
}

impl ExponentialLR {
    /// Creates a new instance of this scheduler.
    ///
    /// # Arguments
    /// * `lr_initial` - The initial learning rate.
    /// * `lr_factor` - A factor multiplied with the current learning factor when a change in learning
    ///   rate is called.
    pub fn new(lr_initial: F32, lr_factor: F32) -> (r: Self)
        ensures
            r == (ExponentialLR { ori_lr: lr_initial, cur_lr: lr_initial, lr_factor }),
    {
        Self { ori_lr: lr_initial, cur_lr: lr_initial, lr_factor }
    }

    /// Resets the scheduler back into the original learning rate
    pub fn reset(&mut self)
        ensures
            *final(self) == (ExponentialLR { cur_lr: old(self).ori_lr, ..*old(self) }),
    {
        self.cur_lr = self.ori_lr;
    }

    /// Returns the current learning rate value.
    pub fn get_learning_rate(&self) -> (r: F32)
        ensures
            r == self.cur_lr,
    {
        self.cur_lr
    }

    /// Expected to be called once within a step.
    ///
    /// # Arguments
    /// * `product` - Multiplies two numbers.
    ///
    /// # Returns
    /// The updated learning rate.
    pub fn step<P: Fn(F32, F32) -> F32>(&mut self, product: P) -> (r: F32)
        requires
            call_requires(product, (old(self).cur_lr, old(self).lr_factor)),
        ensures
            call_ensures(product, (old(self).cur_lr, old(self).lr_factor), r),
            *final(self) == (ExponentialLR { cur_lr: r, ..*old(self) }),
    {
        self.cur_lr = product(self.cur_lr, self.lr_factor);
        self.cur_lr
    }
}

/// Used for determining the improvement direction for a given test value in the schedulers.
#[derive(Debug, Clone, Copy, PartialEq, Eq, Structural)]
pub enum SchedulerMode {
    /// Mainly used for loss values.
    Minimize,
    /// Mainly used for accuracy values.
    Maximize,
}

/// The bit pattern of the largest number.
pub const LARGEST: u32 = 0x7f7f_ffff;

/// The bit pattern of the smallest number, the negative of the largest.
pub const SMALLEST: u32 = 0xff7f_ffff;

impl SchedulerMode {
    /// The value that every better value is compared with at first.
    pub open spec fn worst(self) -> F32 {
        match self {
            SchedulerMode::Minimize => F32 { bits: LARGEST },
            SchedulerMode::Maximize => F32 { bits: SMALLEST },
        }
    }

    /// A test value is better than another one.
    pub open spec fn is_better(self, val: F32, best: F32) -> bool {
        match self {
            SchedulerMode::Minimize => val.less(best),
            SchedulerMode::Maximize => best.less(val),
        }
    }

    /// The value that every better value is compared with at first.
    fn worst_val(self) -> (r: F32)
        ensures
            r == self.worst(),
    {
        match self {
            SchedulerMode::Minimize => F32 { bits: LARGEST },
            SchedulerMode::Maximize => F32 { bits: SMALLEST },
        }
    }
}

/// This learning rate scheduler focuses on decreasing the learning rate when there is no improvement
/// on the test value (e.g. test accuracy) over a period of steps.
#[derive(Debug, Clone, Copy, PartialEq, Eq, Structural)]
pub struct ReduceLROnPlateauScheduler {
    pub best_val: F32,
    pub mode: SchedulerMode,
    pub min_lr: F32,
    pub cur_lr: F32,
    pub lr_factor: F32,
    pub timer: usize,
    pub patience: usize,
}

impl ReduceLROnPlateauScheduler {
    /// The timer has not run out.
    pub open spec fn wf(self) -> bool {
        self.timer < self.patience
    }

    /// The test value is a number, but no better than the best one.
    pub open spec fn disappoints(self, test_val: F32) -> bool {
        !test_val.is_nan_spec() && !self.mode.is_better(test_val, self.best_val)
    }

    /// The learning rate changes at this test value.
    pub open spec fn decays(self, test_val: F32) -> bool {
        self.disappoints(test_val) && self.timer + 1 == self.patience
    }

    /// The scheduler after a test value, given the product of the learning rate and its factor. What
    /// is not a number does not count.
    pub open spec fn after(self, test_val: F32, product: F32) -> Self {
        if test_val.is_nan_spec() {
            self
        } else if self.mode.is_better(test_val, self.best_val) {
            ReduceLROnPlateauScheduler { best_val: test_val, timer: 0, ..self }
        } else if self.timer + 1 == self.patience {
            ReduceLROnPlateauScheduler { cur_lr: product.larger(self.min_lr), timer: 0, ..self }
        } else {
            ReduceLROnPlateauScheduler { timer: (self.timer + 1) as usize, ..self }
        }
    }

    /// The scheduler after test values, given the product that each of them may ask for.
    pub open spec fn after_all(self, vals: Seq<F32>, products: Seq<F32>) -> Self
        decreases vals.len(),
    {
        if vals.len() == 0 {
            self
        } else {
            self.after_all(vals.drop_last(), products).after(
                vals.last(),
                products[vals.len() - 1],
            )
        }
    }

    /// Creates a new instance of this scheduler.
    ///
    /// # Arguments
    /// * `patience` - The maximum amount of non-improvement steps from the network before
    ///   changing the learning rate. It is not `0`, since a `patience` of `0` means the learning rate
    ///   never changes.
    /// * `mode` - The scheduler mode. See [`SchedulerMode`].
    /// * `lr_factor` - A factor multiplied with the current learning factor when a change in learning
    ///   rate is called.
    /// * `min_lr` - The minimum learning rate value. When the scheduler reaches this value,
    ///   the learning rate will stay here for the rest of the steps.
    pub fn new(patience: usize, mode: SchedulerMode, lr_factor: F32, min_lr: F32) -> (r: Self)
        requires
            patience != 0,
        ensures
            r.wf(),
            r == (ReduceLROnPlateauScheduler {
                best_val: mode.worst(),
                mode,
                min_lr,
                cur_lr: F32 { bits: 0 },
                lr_factor,
                timer: 0,
                patience,
            }),
    {
        Self {
            best_val: mode.worst_val(),
            mode,
            min_lr,
            cur_lr: F32 { bits: 0 },
            lr_factor,
            timer: 0,
            patience,
        }
    }

    /// Resets the scheduler.
    ///
    /// # Arguments
    /// * `learning_rate` - The learning rate value to reset into.
    pub fn reset(&mut self, learning_rate: F32)
        ensures
            *final(self) == (ReduceLROnPlateauScheduler {
                best_val: old(self).mode.worst(),
                cur_lr: learning_rate,
                timer: 0,
                ..*old(self)
            }),
    {
        self.cur_lr = learning_rate;
        self.timer = 0;
        self.best_val = self.mode.worst_val();
    }

    /// Returns the current learning rate value.
    pub fn get_learning_rate(&self) -> (r: F32)
        ensures
            r == self.cur_lr,
    {
        self.cur_lr
    }

    /// Expected to be called once within a step.
    ///
    /// # Arguments
    /// * `test_val` - The test value itself.
    /// * `product` - Multiplies two numbers.
    ///
    /// # Returns
    /// The updated learning rate.
    pub fn step<P: Fn(F32, F32) -> F32>(&mut self, test_val: F32, product: P) -> (r: F32)
        requires
            old(self).wf(),
            call_requires(product, (old(self).cur_lr, old(self).lr_factor)),
        ensures
            final(self).wf(),
            r == final(self).cur_lr,
            old(self).decays(test_val) ==> exists|p: F32|
                call_ensures(product, (old(self).cur_lr, old(self).lr_factor), p) && *final(self)
                    == #[trigger] old(self).after(test_val, p),
            !old(self).decays(test_val) ==> *final(self) == old(self).after(
                test_val,
                old(self).cur_lr,
            ),
    {
        if test_val.is_nan() {
            return self.cur_lr;
        }
        let improved = match self.mode {
            SchedulerMode::Maximize => self.best_val.is_less(test_val),
            SchedulerMode::Minimize => test_val.is_less(self.best_val),
        };
        if improved {
            self.best_val = test_val;
            self.timer = 0;
        } else {
            self.timer += 1;
            if self.timer == self.patience {
                self.timer = 0;
                let p = product(self.cur_lr, self.lr_factor);
                self.cur_lr = p.max(self.min_lr);
                assert(*self == old(self).after(test_val, p));
            }
        }
        self.cur_lr
    }
}

/// The learning rate stays as it is until as many test values as the patience has left have been no
/// better than the best one; with the last of them it changes, once.
pub proof fn law_rate_waits_for_patience(
    s: ReduceLROnPlateauScheduler,
    vals: Seq<F32>,
    products: Seq<F32>,
)
    requires
        s.wf(),
        vals.len() <= s.patience - s.timer,
        forall|i: int| 0 <= i < vals.len() ==> s.disappoints(#[trigger] vals[i]),
    ensures
        vals.len() < s.patience - s.timer ==> s.after_all(vals, products) == (
        ReduceLROnPlateauScheduler { timer: (s.timer + vals.len()) as usize, ..s }),
        vals.len() == s.patience - s.timer ==> s.after_all(vals, products) == (
        ReduceLROnPlateauScheduler {
            timer: 0,
            cur_lr: products[vals.len() - 1].larger(s.min_lr),
            ..s
        }),
    decreases vals.len(),
{
    if vals.len() > 0 {
        let before = vals.drop_last();
        assert forall|i: int| 0 <= i < before.len() implies s.disappoints(#[trigger] before[i]) by {
            assert(before[i] == vals[i]);
        }
        law_rate_waits_for_patience(s, before, products);
        assert(s.disappoints(vals[vals.len() - 1]));
    }
}

/// A better test value starts the patience anew.
pub proof fn law_improvement_starts_anew(
    s: ReduceLROnPlateauScheduler,
    test_val: F32,
    product: F32,
)
    requires
        s.mode.is_better(test_val, s.best_val),
    ensures
        s.after(test_val, product) == (ReduceLROnPlateauScheduler {
            best_val: test_val,
            timer: 0,
            ..s
        }),
{
}

/// Once the learning rate has been changed it is not below its minimum, where both are numbers.
pub proof fn law_rate_keeps_its_minimum(
    s: ReduceLROnPlateauScheduler,
    test_val: F32,
    product: F32,
)
    requires
        s.decays(test_val),
        !s.min_lr.is_nan_spec(),
    ensures
        !s.after(test_val, product).cur_lr.is_nan_spec(),
        s.after(test_val, product).cur_lr.rank() >= s.min_lr.rank(),
{
}

/// Once the learning rate is at its minimum it stays there, whatever the test values are, as long as
/// no product of the rate and its factor is above the minimum.
pub proof fn law_minimum_is_never_left(
    s: ReduceLROnPlateauScheduler,
    vals: Seq<F32>,
    products: Seq<F32>,
)
    requires
        s.wf(),
        !s.min_lr.is_nan_spec(),
        !s.cur_lr.is_nan_spec(),
        s.cur_lr.rank() == s.min_lr.rank(),
        products.len() == vals.len(),
        forall|i: int|
            0 <= i < products.len() ==> (#[trigger] products[i]).is_nan_spec()
                || products[i].rank() <= s.min_lr.rank(),
    ensures
        ({
            let t = s.after_all(vals, products);
            &&& t.wf()
            &&& t.min_lr == s.min_lr
            &&& !t.cur_lr.is_nan_spec()
            &&& t.cur_lr.rank() == s.min_lr.rank()
        }),
    decreases vals.len(),
{
    if vals.len() > 0 {
        let before = products.drop_last();
        assert forall|i: int| 0 <= i < before.len() implies (
        #[trigger] before[i]).is_nan_spec() || before[i].rank() <= s.min_lr.rank() by {
            assert(before[i] == products[i]);
        }
        law_minimum_is_never_left(s, vals.drop_last(), before);
        lemma_last_product_is_unused(s, vals.drop_last(), products);
        assert(products[vals.len() - 1].is_nan_spec() || products[vals.len() - 1].rank()
            <= s.min_lr.rank());
    }
}

/// Only as many products are looked at as there are test values.
proof fn lemma_last_product_is_unused(
    s: ReduceLROnPlateauScheduler,
    vals: Seq<F32>,
    products: Seq<F32>,
)
    requires
        products.len() > vals.len(),
    ensures
        s.after_all(vals, products) == s.after_all(vals, products.drop_last()),
    decreases vals.len(),
{
    if vals.len() > 0 {
        lemma_last_product_is_unused(s, vals.drop_last(), products);
    }
}

/// The best value is the best one that was seen: none of the test values is better, which is to say
/// smaller where the smallest one is looked for, and larger where the largest one is.
pub proof fn law_no_value_is_better_than_the_best(
    s: ReduceLROnPlateauScheduler,
    vals: Seq<F32>,
    products: Seq<F32>,
    i: int,
)
    requires
        0 <= i < vals.len(),
    ensures
        ({
            let t = s.after_all(vals, products);
            &&& t.mode == s.mode
            &&& t.mode == SchedulerMode::Minimize ==> !vals[i].less(t.best_val)
            &&& t.mode == SchedulerMode::Maximize ==> !t.best_val.less(vals[i])
        }),
    decreases vals.len(),
{
    let rest = vals.drop_last();
    lemma_mode_stays(s, rest, products);
    if i < vals.len() - 1 {
        law_no_value_is_better_than_the_best(s, rest, products, i);
        assert(rest[i] == vals[i]);
    }
}

/// Test values do not change what is looked for.
proof fn lemma_mode_stays(s: ReduceLROnPlateauScheduler, vals: Seq<F32>, products: Seq<F32>)
    ensures
        s.after_all(vals, products).mode == s.mode,
    decreases vals.len(),
{
    if vals.len() > 0 {
        lemma_mode_stays(s, vals.drop_last(), products);
    }
}

/// A scheduler that starts anew takes the first test value for the best one, whichever number it is,
/// unless it is as bad as can be.
pub proof fn law_first_value_is_the_best(s: ReduceLROnPlateauScheduler, val: F32, product: F32)
    requires
        !val.is_nan_spec(),
        s.best_val == s.mode.worst(),
        s.mode == SchedulerMode::Minimize ==> val.less((F32 { bits: 0x7f7f_ffff })),
        s.mode == SchedulerMode::Maximize ==> (F32 { bits: 0xff7f_ffff }).less(val),
    ensures
        s.after(val, product).best_val == val,
        s.after(val, product).cur_lr == s.cur_lr,
{
}

} // verus!
