//! Where the first weights of a layer come from.

use rand_chacha::rand_core::{RngCore, SeedableRng};
use rand_chacha::ChaCha8Rng;
use vstd::prelude::*;

use crate::util::precision::{PrecisionType, F32};

verus! {

/// The raw material of a list of weights: how many there are, the distribution that they follow,
/// and the random words that pick each of them.
///
/// The scale of a distribution is the square root of `numerator / denominator`.
#[derive(Debug)]
pub enum WeightDraws {
    /// `len` weights that are all `0.0`.
    Zeros { len: usize },
    /// One weight for each word. A word `x` stands for the number
    /// `factor * (-scale + x / (2^32 - 1) * 2 * scale)`.
    Uniform { factor: F32, numerator: u32, denominator: usize, words: Vec<u32> },
    /// One weight for each two words. The words `x` and `y` stand for the number
    /// `factor * z * scale`, where `z` is what the Box-Muller transform makes of
    /// `(x + 1) / 2^32` and `y / (2^32 - 1)`.
    Normal { factor: F32, numerator: u32, denominator: usize, words: Vec<u32> },
}

/// [`WeightDraws`], with the words taken as a sequence.
pub enum DrawsView {
    Zeros { len: nat },
    Uniform { factor: F32, numerator: u32, denominator: usize, words: Seq<u32> },
    Normal { factor: F32, numerator: u32, denominator: usize, words: Seq<u32> },
}

impl View for WeightDraws {
    type V = DrawsView;

    open spec fn view(&self) -> DrawsView {
        match *self {
            WeightDraws::Zeros { len } => DrawsView::Zeros { len: len as nat },
            WeightDraws::Uniform { factor, numerator, denominator, words } => DrawsView::Uniform {
                factor,
                numerator,
                denominator,
                words: words@,
            },
            WeightDraws::Normal { factor, numerator, denominator, words } => DrawsView::Normal {
                factor,
                numerator,
                denominator,
                words: words@,
            },
        }
    }
}

impl DrawsView {
    /// The number of weights.
    pub open spec fn len(self) -> nat {
        match self {
            DrawsView::Zeros { len } => len,
            DrawsView::Uniform { words, .. } => words.len(),
            DrawsView::Normal { words, .. } => words.len() / 2,
        }
    }
}

impl WeightDraws {
    /// The number of weights.
    pub fn len(&self) -> (r: usize)
        ensures
            r == self@.len(),
    {
        match self {
            WeightDraws::Zeros { len } => *len,
            WeightDraws::Uniform { words, .. } => words.len(),
            WeightDraws::Normal { words, .. } => words.len() / 2,
        }
    }
}

impl WeightDraws {
    /// The same weights once more.
    pub fn duplicate(&self) -> (r: Self)
        ensures
            r@ == self@,
    {
        match self {
            WeightDraws::Zeros { len } => WeightDraws::Zeros { len: *len },
            WeightDraws::Uniform { factor, numerator, denominator, words } => WeightDraws::Uniform {
                factor: *factor,
                numerator: *numerator,
                denominator: *denominator,
                words: words.clone(),
            },
            WeightDraws::Normal { factor, numerator, denominator, words } => WeightDraws::Normal {
                factor: *factor,
                numerator: *numerator,
                denominator: *denominator,
                words: words.clone(),
            },
        }
    }
}

/// The word at a position of the key stream of the ChaCha generator with eight rounds, seeded by
/// `rand_core`'s `SeedableRng::seed_from_u64`.
pub uninterp spec fn chacha8_word(seed: u64, position: u128) -> u32;

/// The word that `rand_chacha`'s `ChaCha8Rng`, made by `seed_from_u64`, gives from `next_u32` once
/// `position` words were taken from it. The generator is set to the position by `set_word_pos`.
/// The word depends on the seed and the position alone; which word it is, is not stated.
#[verifier::external_body]
fn draw_word(seed: u64, position: u128) -> (r: u32)
    ensures
        r == chacha8_word(seed, position),
{
    let mut rng = ChaCha8Rng::seed_from_u64(seed);
    rng.set_word_pos(position);
    rng.next_u32()
}

/// `count` words of the key stream, from a position on.
pub open spec fn drawn_words(seed: u64, start: u128, count: nat) -> Seq<u32> {
    Seq::new(count, |i: int| chacha8_word(seed, start.wrapping_add(i as u128)))
}

/// Draws `count` words of the key stream, from a position on.
pub fn draw_words(seed: u64, start: u128, count: usize) -> (r: Vec<u32>)
    ensures
        r@ == drawn_words(seed, start, count as nat),
{
    let mut words: Vec<u32> = Vec::with_capacity(count);
    let mut i: usize = 0;
    while i < count
        invariant
            i <= count,
            words@ == drawn_words(seed, start, i as nat),
        decreases count - i,
    {
        words.push(draw_word(seed, start.wrapping_add(i as u128)));
        i += 1;
        assert(words@ == drawn_words(seed, start, i as nat));
    }
    words
}

/// Used for initialising initial network parameters.
///
/// # Arguments for `new`
/// * `seed` - Seed for the random number generator used.
/// * `factor` - A factor constant to be multiplied with the generated initial weight values.
///   (e.g. `1.0`, `0.1`)
///
/// # Classes
/// * [`InitXavierUniformFunc`] - Initialises weights from a uniform distribution scaled by the sum
///   of input and output dimensions, ideal for symmetric activations like Tanh.
/// * [`InitXavierNormalFunc`] - Initialises weights from a zero-mean normal distribution scaled by
///   the sum of input and output dimensions, ideal for symmetric activations like Tanh.
/// * [`InitHeUniformFunc`] - Initialises weights from a uniform distribution scaled strictly by the
///   input dimensions to preserve signal variance when using ReLU activations.
/// * [`InitHeNormalFunc`] - Initialises weights from a zero-mean normal distribution scaled strictly
///   by the input dimensions to preserve signal variance when using ReLU activations.
/// * [`InitZeroFunc`] - Initialises to `0.0`.
pub trait InitFunc: Sized {
    /// The initialiser that starts from a seed.
    spec fn fresh(seed: u64, factor: F32) -> Self;

    /// The sizes do not run past the largest address.
    spec fn accepts(&self, fan_in: usize, fan_out: usize, len: usize) -> bool;

    /// What the initialiser draws next.
    spec fn draws(&self, fan_in: usize, fan_out: usize, len: usize) -> DrawsView;

    /// The initialiser once it has drawn that.
    spec fn advanced(&self, fan_in: usize, fan_out: usize, len: usize) -> Self;

    /// As many weights are drawn as were asked for.
    proof fn draws_enough(&self, fan_in: usize, fan_out: usize, len: usize)
        ensures
            self.draws(fan_in, fan_out, len).len() == len,
    ;

    /// Starts from a seed.
    fn new<T: PrecisionType>(seed: u64, factor: F32) -> (r: Self)
        ensures
            r == Self::fresh(seed, factor),
    ;

    /// Draws `len` weights of a layer with `fan_in` inputs and `fan_out` outputs.
    fn init<T: PrecisionType>(&mut self, fan_in: usize, fan_out: usize, len: usize) -> (r:
        WeightDraws)
        requires
            old(self).accepts(fan_in, fan_out, len),
        ensures
            r@ == old(self).draws(fan_in, fan_out, len),
            *final(self) == old(self).advanced(fan_in, fan_out, len),
    ;
}

/// Uniform, scaled by the sum of the inputs and outputs.
#[derive(Debug)]
pub struct InitXavierUniformFunc {
    /// The seed of the random number generator.
    pub seed: u64,
    /// How many words were drawn from it.
    pub drawn: u128,
    /// What the weights are multiplied with.
    pub factor: F32,
}

impl InitFunc for InitXavierUniformFunc {
    open spec fn fresh(seed: u64, factor: F32) -> Self {
        InitXavierUniformFunc { seed, drawn: 0, factor }
    }

    open spec fn accepts(&self, fan_in: usize, fan_out: usize, len: usize) -> bool {
        fan_in + fan_out <= usize::MAX
    }

    open spec fn draws(&self, fan_in: usize, fan_out: usize, len: usize) -> DrawsView {
        DrawsView::Uniform {
            factor: self.factor,
            numerator: 6,
            denominator: (fan_in + fan_out) as usize,
            words: drawn_words(self.seed, self.drawn, len as nat),
        }
    }

    open spec fn advanced(&self, fan_in: usize, fan_out: usize, len: usize) -> Self {
        InitXavierUniformFunc { drawn: self.drawn.wrapping_add(len as u128), ..*self }
    }

    proof fn draws_enough(&self, fan_in: usize, fan_out: usize, len: usize) {
    }

    fn new<T: PrecisionType>(seed: u64, factor: F32) -> (r: Self) {
        InitXavierUniformFunc { seed, drawn: 0, factor }
    }

    fn init<T: PrecisionType>(&mut self, fan_in: usize, fan_out: usize, len: usize) -> (r:
        WeightDraws) {
        let count: usize = len;
        let words = draw_words(self.seed, self.drawn, count);
        self.drawn = self.drawn.wrapping_add(count as u128);
        WeightDraws::Uniform {
            factor: self.factor,
            numerator: 6,
            denominator: fan_in + fan_out,
            words,
        }
    }
}

/// Normal, scaled by the sum of the inputs and outputs.
#[derive(Debug)]
pub struct InitXavierNormalFunc {
    /// The seed of the random number generator.
    pub seed: u64,
    /// How many words were drawn from it.
    pub drawn: u128,
    /// What the weights are multiplied with.
    pub factor: F32,
}

impl InitFunc for InitXavierNormalFunc {
    open spec fn fresh(seed: u64, factor: F32) -> Self {
        InitXavierNormalFunc { seed, drawn: 0, factor }
    }

    open spec fn accepts(&self, fan_in: usize, fan_out: usize, len: usize) -> bool {
        fan_in + fan_out <= usize::MAX && 2 * len <= usize::MAX
    }

    open spec fn draws(&self, fan_in: usize, fan_out: usize, len: usize) -> DrawsView {
        DrawsView::Normal {
            factor: self.factor,
            numerator: 2,
            denominator: (fan_in + fan_out) as usize,
            words: drawn_words(self.seed, self.drawn, (2 * len) as nat),
        }
    }

    open spec fn advanced(&self, fan_in: usize, fan_out: usize, len: usize) -> Self {
        InitXavierNormalFunc { drawn: self.drawn.wrapping_add((2 * len) as u128), ..*self }
    }

    proof fn draws_enough(&self, fan_in: usize, fan_out: usize, len: usize) {
    }

    fn new<T: PrecisionType>(seed: u64, factor: F32) -> (r: Self) {
        InitXavierNormalFunc { seed, drawn: 0, factor }
    }

    fn init<T: PrecisionType>(&mut self, fan_in: usize, fan_out: usize, len: usize) -> (r:
        WeightDraws) {
        let count: usize = 2 * len;
        let words = draw_words(self.seed, self.drawn, count);
        self.drawn = self.drawn.wrapping_add(count as u128);
        WeightDraws::Normal {
            factor: self.factor,
            numerator: 2,
            denominator: fan_in + fan_out,
            words,
        }
    }
}

/// Uniform, scaled by the inputs.
#[derive(Debug)]
pub struct InitHeUniformFunc {
    /// The seed of the random number generator.
    pub seed: u64,
    /// How many words were drawn from it.
    pub drawn: u128,
    /// What the weights are multiplied with.
    pub factor: F32,
}

impl InitFunc for InitHeUniformFunc {
    open spec fn fresh(seed: u64, factor: F32) -> Self {
        InitHeUniformFunc { seed, drawn: 0, factor }
    }

    open spec fn accepts(&self, fan_in: usize, fan_out: usize, len: usize) -> bool {
        true
    }

    open spec fn draws(&self, fan_in: usize, fan_out: usize, len: usize) -> DrawsView {
        DrawsView::Uniform {
            factor: self.factor,
            numerator: 6,
            denominator: fan_in,
            words: drawn_words(self.seed, self.drawn, len as nat),
        }
    }

    open spec fn advanced(&self, fan_in: usize, fan_out: usize, len: usize) -> Self {
        InitHeUniformFunc { drawn: self.drawn.wrapping_add(len as u128), ..*self }
    }

    proof fn draws_enough(&self, fan_in: usize, fan_out: usize, len: usize) {
    }

    fn new<T: PrecisionType>(seed: u64, factor: F32) -> (r: Self) {
        InitHeUniformFunc { seed, drawn: 0, factor }
    }

    fn init<T: PrecisionType>(&mut self, fan_in: usize, fan_out: usize, len: usize) -> (r:
        WeightDraws) {
        let count: usize = len;
        let words = draw_words(self.seed, self.drawn, count);
        self.drawn = self.drawn.wrapping_add(count as u128);
        WeightDraws::Uniform {
            factor: self.factor,
            numerator: 6,
            denominator: fan_in,
            words,
        }
    }
}

/// Normal, scaled by the inputs.
#[derive(Debug)]
pub struct InitHeNormalFunc {
    /// The seed of the random number generator.
    pub seed: u64,
    /// How many words were drawn from it.
    pub drawn: u128,
    /// What the weights are multiplied with.
    pub factor: F32,
}

impl InitFunc for InitHeNormalFunc {
    open spec fn fresh(seed: u64, factor: F32) -> Self {
        InitHeNormalFunc { seed, drawn: 0, factor }
    }

    open spec fn accepts(&self, fan_in: usize, fan_out: usize, len: usize) -> bool {
        2 * len <= usize::MAX
    }

    open spec fn draws(&self, fan_in: usize, fan_out: usize, len: usize) -> DrawsView {
        DrawsView::Normal {
            factor: self.factor,
            numerator: 2,
            denominator: fan_in,
            words: drawn_words(self.seed, self.drawn, (2 * len) as nat),
        }
    }

    open spec fn advanced(&self, fan_in: usize, fan_out: usize, len: usize) -> Self {
        InitHeNormalFunc { drawn: self.drawn.wrapping_add((2 * len) as u128), ..*self }
    }

    proof fn draws_enough(&self, fan_in: usize, fan_out: usize, len: usize) {
    }

    fn new<T: PrecisionType>(seed: u64, factor: F32) -> (r: Self) {
        InitHeNormalFunc { seed, drawn: 0, factor }
    }

    fn init<T: PrecisionType>(&mut self, fan_in: usize, fan_out: usize, len: usize) -> (r:
        WeightDraws) {
        let count: usize = 2 * len;
        let words = draw_words(self.seed, self.drawn, count);
        self.drawn = self.drawn.wrapping_add(count as u128);
        WeightDraws::Normal {
            factor: self.factor,
            numerator: 2,
            denominator: fan_in,
            words,
        }
    }
}

/// Initialises to `0.0`.
#[derive(Debug)]
pub struct InitZeroFunc {}

impl InitFunc for InitZeroFunc {
    open spec fn fresh(seed: u64, factor: F32) -> Self {
        InitZeroFunc {  }
    }

    open spec fn accepts(&self, fan_in: usize, fan_out: usize, len: usize) -> bool {
        true
    }

    open spec fn draws(&self, fan_in: usize, fan_out: usize, len: usize) -> DrawsView {
        DrawsView::Zeros { len: len as nat }
    }

    open spec fn advanced(&self, fan_in: usize, fan_out: usize, len: usize) -> Self {
        *self
    }

    proof fn draws_enough(&self, fan_in: usize, fan_out: usize, len: usize) {
    }

    /// The seed is redundant. You may leave it as any number.
    fn new<T: PrecisionType>(_seed: u64, _factor: F32) -> (r: Self) {
        InitZeroFunc {  }
    }

    fn init<T: PrecisionType>(&mut self, _fan_in: usize, _fan_out: usize, len: usize) -> (r:
        WeightDraws) {
        WeightDraws::Zeros { len }
    }
}

impl DrawsView {
    /// The variance of the weights before they are multiplied with their factor, as a fraction: a
    /// uniform distribution over twice its scale has a third of the square of the scale, a normal one
    /// has the square of the scale.
    pub open spec fn variance(self) -> (int, int) {
        match self {
            DrawsView::Zeros { .. } => (0, 1),
            DrawsView::Uniform { numerator, denominator, .. } => (
                numerator as int,
                3 * denominator,
            ),
            DrawsView::Normal { numerator, denominator, .. } => (
                numerator as int,
                denominator as int,
            ),
        }
    }

    /// The random words that the weights are made from.
    pub open spec fn words(self) -> Seq<u32> {
        match self {
            DrawsView::Zeros { .. } => seq![],
            DrawsView::Uniform { words, .. } => words,
            DrawsView::Normal { words, .. } => words,
        }
    }

    /// What the weights are multiplied with.
    pub open spec fn factor(self) -> Option<F32> {
        match self {
            DrawsView::Zeros { .. } => None,
            DrawsView::Uniform { factor, .. } => Some(factor),
            DrawsView::Normal { factor, .. } => Some(factor),
        }
    }
}

/// Both initialisers that are scaled by the sum of the inputs and outputs give weights whose variance
/// is two over that sum, and multiply them with the factor that they were made with.
pub proof fn law_variance_goes_by_inputs_and_outputs(
    uniform: InitXavierUniformFunc,
    normal: InitXavierNormalFunc,
    fan_in: usize,
    fan_out: usize,
    len: usize,
)
    requires
        fan_in + fan_out <= usize::MAX,
    ensures
        ({
            let (u, n) = (uniform.draws(fan_in, fan_out, len), normal.draws(fan_in, fan_out, len));
            &&& u is Uniform && n is Normal
            &&& u.variance().0 * (fan_in + fan_out) == 2 * u.variance().1
            &&& n.variance().0 * (fan_in + fan_out) == 2 * n.variance().1
            &&& u.factor() == Some(uniform.factor) && n.factor() == Some(normal.factor)
            &&& u.len() == len && n.len() == len
        }),
{
    uniform.draws_enough(fan_in, fan_out, len);
    normal.draws_enough(fan_in, fan_out, len);
}

/// Both initialisers that are scaled by the inputs give weights whose variance is two over the number
/// of inputs, whatever the number of outputs, and multiply them with the factor that they were made
/// with.
pub proof fn law_variance_goes_by_inputs(
    uniform: InitHeUniformFunc,
    normal: InitHeNormalFunc,
    fan_in: usize,
    fan_out: usize,
    len: usize,
)
    ensures
        ({
            let (u, n) = (uniform.draws(fan_in, fan_out, len), normal.draws(fan_in, fan_out, len));
            &&& u is Uniform && n is Normal
            &&& u.variance().0 * fan_in == 2 * u.variance().1
            &&& n.variance().0 * fan_in == 2 * n.variance().1
            &&& u.factor() == Some(uniform.factor) && n.factor() == Some(normal.factor)
            &&& u.len() == len && n.len() == len
        }),
{
    uniform.draws_enough(fan_in, fan_out, len);
    normal.draws_enough(fan_in, fan_out, len);
}

/// An initialiser never uses a random word twice: what it draws next goes on in the key stream where
/// what it drew before ends, and it starts at the beginning. One word makes a uniform weight, two
/// make a normal one.
pub proof fn law_draws_go_on_in_the_key_stream(
    seed: u64,
    factor: F32,
    first: (usize, usize, usize),
    second: (usize, usize, usize),
)
    requires
        2 * first.2 <= usize::MAX,
        2 * second.2 <= usize::MAX,
    ensures
        ({
            let a = InitXavierUniformFunc::fresh(seed, factor);
            let b = a.advanced(first.0, first.1, first.2);
            a.draws(first.0, first.1, first.2).words() + b.draws(
                second.0,
                second.1,
                second.2,
            ).words() == drawn_words(seed, 0, (first.2 + second.2) as nat)
        }),
        ({
            let a = InitXavierNormalFunc::fresh(seed, factor);
            let b = a.advanced(first.0, first.1, first.2);
            a.draws(first.0, first.1, first.2).words() + b.draws(
                second.0,
                second.1,
                second.2,
            ).words() == drawn_words(seed, 0, (2 * first.2 + 2 * second.2) as nat)
        }),
        ({
            let a = InitHeUniformFunc::fresh(seed, factor);
            let b = a.advanced(first.0, first.1, first.2);
            a.draws(first.0, first.1, first.2).words() + b.draws(
                second.0,
                second.1,
                second.2,
            ).words() == drawn_words(seed, 0, (first.2 + second.2) as nat)
        }),
        ({
            let a = InitHeNormalFunc::fresh(seed, factor);
            let b = a.advanced(first.0, first.1, first.2);
            a.draws(first.0, first.1, first.2).words() + b.draws(
                second.0,
                second.1,
                second.2,
            ).words() == drawn_words(seed, 0, (2 * first.2 + 2 * second.2) as nat)
        }),
{
    lemma_key_stream(seed, first.2 as nat, second.2 as nat);
    lemma_key_stream(seed, (2 * first.2) as nat, (2 * second.2) as nat);
}

/// Words of the key stream behind words of it.
proof fn lemma_key_stream(seed: u64, m: nat, n: nat)
    requires
        m <= usize::MAX,
        n <= usize::MAX,
    ensures
        drawn_words(seed, 0, m) + drawn_words(seed, 0u128.wrapping_add(m as u128), n)
            == drawn_words(seed, 0, m + n),
{
    let all = drawn_words(seed, 0, m + n);
    let (a, b) = (
        drawn_words(seed, 0, m),
        drawn_words(seed, 0u128.wrapping_add(m as u128), n),
    );
    assert forall|i: int| 0 <= i < n implies #[trigger] b[i] == all[m + i] by {
        assert(0u128.wrapping_add(m as u128) == m as u128);
        assert((m as u128).wrapping_add(i as u128) == 0u128.wrapping_add((m + i) as u128));
    }
    assert(a + b =~= all);
}

} // verus!
