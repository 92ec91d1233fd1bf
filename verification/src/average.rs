//! The average color of an icon.
//!
//! Every pixel contributes its perceptual color weighted by its alpha
//! channel. The average is the weighted sum divided by the total weight,
//! component by component, rounded down. An icon whose pixels are all fully
//! transparent has no total weight to divide by, and so no average: such an
//! icon is left out of the index.

use vstd::prelude::*;
use crate::color::Oklab;

verus! {

/// One pixel of an icon: its perceptual color and its alpha channel.
#[derive(Clone, Copy, Debug, PartialEq, Eq, Structural)]
pub struct WeightedColor {
    pub color: Oklab,
    pub weight: u8,
}

/// Component `k` of a color: 0 for lightness, 1 and 2 for the two
/// chromaticity axes.
pub open spec fn channel(c: Oklab, k: int) -> int {
    if k == 0 {
        c.l as int
    } else if k == 1 {
        c.a as int
    } else {
        c.b as int
    }
}

/// The sum over all pixels of component `k` times the pixel's weight.
pub open spec fn weighted_sum(pixels: Seq<WeightedColor>, k: int) -> int
    decreases pixels.len(),
{
    if pixels.len() == 0 {
        0
    } else {
        weighted_sum(pixels.drop_last(), k) + channel(pixels.last().color, k)
            * pixels.last().weight
    }
}

/// The sum of all weights.
pub open spec fn total_weight(pixels: Seq<WeightedColor>) -> int
    decreases pixels.len(),
{
    if pixels.len() == 0 {
        0
    } else {
        total_weight(pixels.drop_last()) + pixels.last().weight
    }
}

/// The weighted mean of component `k`, rounded down.
pub open spec fn mean(pixels: Seq<WeightedColor>, k: int) -> int {
    weighted_sum(pixels, k) / total_weight(pixels)
}

/// The alpha-weighted average color of `pixels`, or `None` where the total
/// weight is zero.
pub open spec fn average_of(pixels: Seq<WeightedColor>) -> Option<Oklab> {
    if total_weight(pixels) == 0 {
        None
    } else {
        Some(
            Oklab {
                l: mean(pixels, 0) as i32,
                a: mean(pixels, 1) as i32,
                b: mean(pixels, 2) as i32,
            },
        )
    }
}

/// The weighted sum of a component lies between the smallest and the largest
/// component value times the total weight.
pub proof fn lemma_sum_bounds(pixels: Seq<WeightedColor>, k: int)
    ensures
        0 <= total_weight(pixels) <= 255 * pixels.len(),
        i32::MIN * total_weight(pixels) <= weighted_sum(pixels, k) <= i32::MAX * total_weight(
            pixels,
        ),
    decreases pixels.len(),
{
    if pixels.len() > 0 {
        lemma_sum_bounds(pixels.drop_last(), k);
        let c = channel(pixels.last().color, k);
        let w = pixels.last().weight as int;
        assert(i32::MIN * w <= c * w <= i32::MAX * w) by (nonlinear_arith)
            requires
                i32::MIN <= c <= i32::MAX,
                0 <= w,
        ;
        let t = total_weight(pixels.drop_last());
        assert(i32::MIN * (t + w) == i32::MIN * t + i32::MIN * w) by (nonlinear_arith);
        assert(i32::MAX * (t + w) == i32::MAX * t + i32::MAX * w) by (nonlinear_arith);
    }
}

/// The mean of a component is itself a component value.
pub proof fn lemma_mean_in_range(pixels: Seq<WeightedColor>, k: int)
    requires
        total_weight(pixels) > 0,
    ensures
        i32::MIN <= mean(pixels, k) <= i32::MAX,
{
    lemma_sum_bounds(pixels, k);
    let s = weighted_sum(pixels, k);
    let t = total_weight(pixels);
    assert(i32::MIN <= s / t <= i32::MAX) by (nonlinear_arith)
        requires
            t > 0,
            i32::MIN * t <= s <= i32::MAX * t,
    ;
}

/// Taking one pixel out lowers the sums by that pixel's share.
pub proof fn lemma_sums_without(pixels: Seq<WeightedColor>, i: int, k: int)
    requires
        0 <= i < pixels.len(),
    ensures
        weighted_sum(pixels, k) == weighted_sum(pixels.remove(i), k) + channel(pixels[i].color, k)
            * pixels[i].weight,
        total_weight(pixels) == total_weight(pixels.remove(i)) + pixels[i].weight,
    decreases pixels.len(),
{
    if i == pixels.len() - 1 {
        assert(pixels.remove(i) =~= pixels.drop_last());
    } else {
        lemma_sums_without(pixels.drop_last(), i, k);
        assert(pixels.remove(i).drop_last() =~= pixels.drop_last().remove(i));
        assert(pixels.remove(i).last() == pixels.last());
        assert(pixels.drop_last()[i] == pixels[i]);
    }
}

/// The sums do not depend on the order of the pixels.
pub proof fn lemma_sums_of_rearranged(first: Seq<WeightedColor>, second: Seq<WeightedColor>, k: int)
    requires
        first.to_multiset() == second.to_multiset(),
    ensures
        weighted_sum(first, k) == weighted_sum(second, k),
        total_weight(first) == total_weight(second),
    decreases first.len(),
{
    first.to_multiset_ensures();
    second.to_multiset_ensures();
    if first.len() > 0 {
        let last = first.last();
        let rest = first.drop_last();
        assert(first.contains(last));
        vstd::seq_lib::to_multiset_contains(first, last);
        vstd::seq_lib::to_multiset_contains(second, last);
        assert(second.contains(last));
        let i = choose|i: int| 0 <= i < second.len() && second[i] == last;
        rest.to_multiset_ensures();
        assert(rest.push(last) =~= first);
        assert(second.remove(i).to_multiset() =~= rest.to_multiset());
        lemma_sums_of_rearranged(rest, second.remove(i), k);
        lemma_sums_without(second, i, k);
    }
}

/// `n / d` rounded down, for a positive `d`.
fn floor_div(n: i128, d: i128) -> (q: i128)
    requires
        d > 0,
        -0x4000_0000_0000_0000_0000_0000_0000_0000 <= n <= 0x4000_0000_0000_0000_0000_0000_0000_0000,
        d <= 0x4000_0000_0000_0000_0000_0000_0000_0000,
    ensures
        q == n / d,
{
    if n >= 0 {
        n / d
    } else {
        let m: i128 = -n;
        let up: i128 = (m + (d - 1)) / d;
        assert(-up == n / d) by (nonlinear_arith)
            requires
                d > 0,
                n < 0,
                m == -n,
                up == (m + (d - 1)) / (d as int),
        ;
        -up
    }
}

/// The alpha-weighted average color of the pixels of an icon.
///
/// Returns `None` exactly when no pixel has any weight.
pub fn average_color(pixels: &Vec<WeightedColor>) -> (r: Option<Oklab>)
    ensures
        r == average_of(pixels@),
{
    let mut sum_l: i128 = 0;
    let mut sum_a: i128 = 0;
    let mut sum_b: i128 = 0;
    let mut total: i128 = 0;
    let mut i: usize = 0;
    assert(pixels@.take(0) =~= Seq::<WeightedColor>::empty());
    while i < pixels.len()
        invariant
            i <= pixels.len(),
            total == total_weight(pixels@.take(i as int)),
            sum_l == weighted_sum(pixels@.take(i as int), 0),
            sum_a == weighted_sum(pixels@.take(i as int), 1),
            sum_b == weighted_sum(pixels@.take(i as int), 2),
        decreases pixels.len() - i,
    {
        let ghost done = pixels@.take(i as int);
        let ghost next = pixels@.take(i + 1);
        proof {
            assert(next.drop_last() == done);
            assert(next.last() == pixels@[i as int]);
            lemma_sum_bounds(done, 0);
            lemma_sum_bounds(done, 1);
            lemma_sum_bounds(done, 2);
            lemma_sum_bounds(next, 0);
            lemma_sum_bounds(next, 1);
            lemma_sum_bounds(next, 2);
            assert(255 * next.len() <= 255 * 0x1_0000_0000_0000_0000);
            assert(i32::MAX * total_weight(next) <= i32::MAX * (255 * 0x1_0000_0000_0000_0000))
                by (nonlinear_arith)
                requires
                    total_weight(next) <= 255 * 0x1_0000_0000_0000_0000,
            ;
            assert(i32::MIN * total_weight(next) >= i32::MIN * (255 * 0x1_0000_0000_0000_0000))
                by (nonlinear_arith)
                requires
                    total_weight(next) <= 255 * 0x1_0000_0000_0000_0000,
            ;
        }
        let pixel: WeightedColor = pixels[i];
        let weight: i128 = pixel.weight as i128;
        assert(i32::MIN * 255 <= pixel.color.l * weight <= i32::MAX * 255) by (nonlinear_arith)
            requires
                0 <= weight <= 255,
                i32::MIN <= pixel.color.l <= i32::MAX,
        ;
        assert(i32::MIN * 255 <= pixel.color.a * weight <= i32::MAX * 255) by (nonlinear_arith)
            requires
                0 <= weight <= 255,
                i32::MIN <= pixel.color.a <= i32::MAX,
        ;
        assert(i32::MIN * 255 <= pixel.color.b * weight <= i32::MAX * 255) by (nonlinear_arith)
            requires
                0 <= weight <= 255,
                i32::MIN <= pixel.color.b <= i32::MAX,
        ;
        sum_l = sum_l + pixel.color.l as i128 * weight;
        sum_a = sum_a + pixel.color.a as i128 * weight;
        sum_b = sum_b + pixel.color.b as i128 * weight;
        total = total + weight;
        i += 1;
    }
    assert(pixels@.take(pixels.len() as int) == pixels@);
    if total == 0 {
        return None;
    }
    proof {
        lemma_sum_bounds(pixels@, 0);
        lemma_sum_bounds(pixels@, 1);
        lemma_sum_bounds(pixels@, 2);
        lemma_mean_in_range(pixels@, 0);
        lemma_mean_in_range(pixels@, 1);
        lemma_mean_in_range(pixels@, 2);
        assert(i32::MAX * total <= i32::MAX * (255 * 0x1_0000_0000_0000_0000))
            by (nonlinear_arith)
            requires
                total <= 255 * 0x1_0000_0000_0000_0000,
        ;
        assert(i32::MIN * total >= i32::MIN * (255 * 0x1_0000_0000_0000_0000))
            by (nonlinear_arith)
            requires
                total <= 255 * 0x1_0000_0000_0000_0000,
        ;
    }
    let l: i128 = floor_div(sum_l, total);
    let a: i128 = floor_div(sum_a, total);
    let b: i128 = floor_div(sum_b, total);
    Some(Oklab { l: l as i32, a: a as i32, b: b as i32 })
}

} // verus!
