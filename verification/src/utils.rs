use rand::Rng;
use vstd::prelude::*;
pub use crate::module::count_parameters;
use crate::progress::draw_target::ProgressDrawTarget;
use crate::progress::progress_bar::{fresh_bar, ProgressBar};
use crate::progress::style::{default_bar_style, ProgressStyle, StyleView};

verus! {

/// The placeholders that the renderer of a training or testing bar fills in
/// itself: the time left, the speed and the share that is done.
pub open spec fn bar_keys() -> Seq<Seq<char>> {
    seq!["eta"@, "rate"@, "percent"@]
}

/// How a training bar looks.
pub open spec fn train_style() -> StyleView {
    StyleView {
        template: "{spinner:.green.bright} {percent}│{wide_bar:.green.bright/blue}│{pos:>7}/{len:7}({msg} | {rate} | {eta} | {elapsed_precise})"@,
        progress_chars: "█▉▊▋▌▍▎▏  "@,
        keys: bar_keys(),
        ..default_bar_style()
    }
}

/// How a testing bar looks.
pub open spec fn test_style() -> StyleView {
    StyleView {
        template: "{spinner:.yellow.bright} {percent}│{wide_bar:.yellow.bright/blue}│{pos:>7}/{len:7}({rate} | {eta} | {elapsed_precise})"@,
        progress_chars: "█▉▊▋▌▍▎▏  "@,
        keys: bar_keys(),
        ..default_bar_style()
    }
}

/// A bar of `steps` steps in the style for training, drawn on `target`.
pub fn train_progress_bar(steps: u64, target: ProgressDrawTarget, now: u64) -> (bar: ProgressBar)
    ensures
        bar@ == fresh_bar(train_style(), steps, target@, now),
{
    let mut bar = ProgressBar::with_draw_target(steps, target, now);
    let style = ProgressStyle::default_bar().template(
        "{spinner:.green.bright} {percent}│{wide_bar:.green.bright/blue}│{pos:>7}/{len:7}({msg} | {rate} | {eta} | {elapsed_precise})",
    ).with_key("eta").with_key("rate").with_key("percent").progress_chars("█▉▊▋▌▍▎▏  ");
    assert(style@.keys =~= bar_keys());
    bar.set_style(style);
    bar
}

/// A bar of `steps` steps in the style for testing, drawn on `target`.
pub fn test_progress_bar(steps: u64, target: ProgressDrawTarget, now: u64) -> (bar: ProgressBar)
    ensures
        bar@ == fresh_bar(test_style(), steps, target@, now),
{
    let mut bar = ProgressBar::with_draw_target(steps, target, now);
    let style = ProgressStyle::default_bar().template(
        "{spinner:.yellow.bright} {percent}│{wide_bar:.yellow.bright/blue}│{pos:>7}/{len:7}({rate} | {eta} | {elapsed_precise})",
    ).with_key("eta").with_key("rate").with_key("percent").progress_chars("█▉▊▋▌▍▎▏  ");
    assert(style@.keys =~= bar_keys());
    bar.set_style(style);
    bar
}

/// The sum of the first `n` weights.
pub open spec fn prefix_sum(weights: Seq<u64>, n: int) -> nat
    decreases n,
{
    if n <= 0 {
        0
    } else {
        prefix_sum(weights, n - 1) + weights[n - 1] as nat
    }
}

/// The sum of all weights.
pub open spec fn total_of(weights: Seq<u64>) -> nat {
    prefix_sum(weights, weights.len() as int)
}

/// The first index from `from` on at which the running sum of the weights
/// goes beyond `threshold`, or zero where it never does.
pub open spec fn picked_from(weights: Seq<u64>, threshold: nat, from: int) -> int
    decreases weights.len() - from,
{
    if from < 0 || from >= weights.len() {
        0
    } else if prefix_sum(weights, from + 1) > threshold {
        from
    } else {
        picked_from(weights, threshold, from + 1)
    }
}

/// The index that `threshold` picks: the first at which the running sum of
/// the weights goes beyond it, or zero where it never does.
pub open spec fn picked(weights: Seq<u64>, threshold: nat) -> int {
    picked_from(weights, threshold, 0)
}

/// A running sum is no larger than as many times the largest weight.
pub proof fn lemma_prefix_sum_bound(weights: Seq<u64>, n: int)
    requires
        0 <= n <= weights.len(),
    ensures
        prefix_sum(weights, n) <= n * u64::MAX,
    decreases n,
{
    if n > 0 {
        lemma_prefix_sum_bound(weights, n - 1);
        assert((n - 1) * u64::MAX + u64::MAX == n * u64::MAX) by (nonlinear_arith);
    }
}

/// A threshold below the sum of all weights picks an index whose weight
/// is not zero: the running sum is at most the threshold before it and
/// beyond the threshold with it.
pub proof fn lemma_picked(weights: Seq<u64>, threshold: nat, from: int)
    requires
        0 <= from <= weights.len(),
        prefix_sum(weights, from) <= threshold < total_of(weights),
    ensures
        ({
            let i = picked_from(weights, threshold, from);
            &&& from <= i < weights.len()
            &&& prefix_sum(weights, i) <= threshold < prefix_sum(weights, i + 1)
            &&& weights[i] > 0
        }),
    decreases weights.len() - from,
{
    if from < weights.len() && prefix_sum(weights, from + 1) <= threshold {
        lemma_picked(weights, threshold, from + 1);
    }
}

/// The sum of all weights.
pub fn total_weight(weights: &Vec<u64>) -> (total: u128)
    ensures
        total == total_of(weights@),
{
    let mut total: u128 = 0;
    let mut i: usize = 0;
    while i < weights.len()
        invariant
            i <= weights@.len(),
            total == prefix_sum(weights@, i as int),
        decreases weights.len() - i,
    {
        proof {
            lemma_prefix_sum_bound(weights@, i + 1);
            assert((i + 1) * u64::MAX <= usize::MAX * u64::MAX) by (nonlinear_arith)
                requires
                    i + 1 <= usize::MAX,
            ;
        }
        total = total + weights[i] as u128;
        i = i + 1;
    }
    total
}

/// The index that `threshold` picks among the weights.
pub fn pick_index(weights: &Vec<u64>, threshold: u128) -> (index: usize)
    ensures
        index == picked(weights@, threshold as nat),
{
    let mut total: u128 = 0;
    let mut i: usize = 0;
    while i < weights.len()
        invariant
            i <= weights@.len(),
            total == prefix_sum(weights@, i as int),
            picked(weights@, threshold as nat) == picked_from(weights@, threshold as nat, i as int),
        decreases weights.len() - i,
    {
        proof {
            lemma_prefix_sum_bound(weights@, i + 1);
            assert((i + 1) * u64::MAX <= usize::MAX * u64::MAX) by (nonlinear_arith)
                requires
                    i + 1 <= usize::MAX,
            ;
        }
        total = total + weights[i] as u128;
        if total > threshold {
            return i;
        }
        i = i + 1;
    }
    0
}

/// A number below `bound` from the thread's random number generator, by
/// `Rng::gen_range` on the range from zero up to and without `bound`. The
/// range must not be empty.
#[verifier::external_body]
fn random_below(bound: u128) -> (r: u128)
    requires
        bound > 0,
    ensures
        r < bound,
{
    rand::thread_rng().gen_range(0..bound)
}

/// Draws an index at random, each with a chance in proportion to its
/// weight. Where all weights are zero, or there is none, the index is zero.
pub fn sample_1d(weights: &Vec<u64>) -> (index: usize)
    ensures
        total_of(weights@) == 0 ==> index == 0,
        total_of(weights@) > 0 ==> index < weights@.len() && weights@[index as int] > 0
            && exists|threshold: nat|
            threshold < total_of(weights@) && index == picked(weights@, threshold),
{
    let total = total_weight(weights);
    if total == 0 {
        return 0;
    }
    let threshold = random_below(total);
    proof {
        lemma_picked(weights@, threshold as nat, 0);
    }
    pick_index(weights, threshold)
}

/// A unit for writing large numbers briefly.
#[derive(Clone, Copy, Debug, PartialEq, Eq, Structural)]
pub struct Unit {
    /// How many ones make one unit.
    pub divisor: i64,
    /// The letter that stands for the unit.
    pub suffix: char,
}

/// The unit in which `num` is written: the largest of thousand, million,
/// billion and trillion that `num` exceeds, or none where it exceeds none.
pub open spec fn unit_of(num: int) -> Option<Unit> {
    if num > 1_000_000_000_000 {
        Some(Unit { divisor: 1_000_000_000_000, suffix: 'T' })
    } else if num > 1_000_000_000 {
        Some(Unit { divisor: 1_000_000_000, suffix: 'B' })
    } else if num > 1_000_000 {
        Some(Unit { divisor: 1_000_000, suffix: 'M' })
    } else if num > 1_000 {
        Some(Unit { divisor: 1_000, suffix: 'K' })
    } else {
        None
    }
}

/// The unit in which `num` is written.
pub fn readable_unit(num: i64) -> (unit: Option<Unit>)
    ensures
        unit == unit_of(num as int),
{
    if num > 1_000_000_000_000 {
        Some(Unit { divisor: 1_000_000_000_000, suffix: 'T' })
    } else if num > 1_000_000_000 {
        Some(Unit { divisor: 1_000_000_000, suffix: 'B' })
    } else if num > 1_000_000 {
        Some(Unit { divisor: 1_000_000, suffix: 'M' })
    } else if num > 1_000 {
        Some(Unit { divisor: 1_000, suffix: 'K' })
    } else {
        None
    }
}

} // verus!
