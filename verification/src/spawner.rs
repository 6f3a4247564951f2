//! Bird spawners: where they stand, when one fires, and which bird kind a
//! firing spawner picks from the level's weighted table.

use vstd::prelude::*;

use crate::level::LevelBird;
use crate::random::{random_below, random_chance, PROB_SCALE};

verus! {

/// A point in the level that releases birds.
pub struct BirdSpawner {
    /// Milliseconds that must pass between two releases.
    pub cooldown: u64,
    /// Chance of a release per step, over [`PROB_SCALE`].
    pub spawn_probability: u32,
}

/// Sum of the first `k` weights.
pub open spec fn prefix_weight(s: Seq<u64>, k: int) -> int
    decreases k,
{
    if k <= 0 {
        0
    } else {
        prefix_weight(s, k - 1) + s[k - 1]
    }
}

/// Prefix sums never decrease.
pub proof fn lemma_prefix_weight_mono(s: Seq<u64>, a: int, b: int)
    requires
        0 <= a <= b <= s.len(),
    ensures
        prefix_weight(s, a) <= prefix_weight(s, b),
    decreases b - a,
{
    if a < b {
        lemma_prefix_weight_mono(s, a, b - 1);
    }
}

/// The spawn weights of the level's birds, in order.
pub fn bird_weights(birds: &Vec<LevelBird>) -> (r: Vec<u64>)
    ensures
        r@.len() == birds@.len(),
        forall|k: int| 0 <= k < birds@.len() ==> r@[k] == (#[trigger] birds@[k]).spawn_probability,
{
    let mut r: Vec<u64> = Vec::new();
    let mut i: usize = 0;
    while i < birds.len()
        invariant
            i <= birds@.len(),
            r@.len() == i,
            forall|k: int| 0 <= k < i ==> r@[k] == (#[trigger] birds@[k]).spawn_probability,
        decreases birds@.len() - i,
    {
        r.push(birds[i].spawn_probability as u64);
        i += 1;
    }
    r
}

/// The sum of all the weights.
pub fn total_weight(weights: &Vec<u64>) -> (t: u64)
    requires
        prefix_weight(weights@, weights@.len() as int) <= u64::MAX,
    ensures
        t == prefix_weight(weights@, weights@.len() as int),
{
    let mut acc: u64 = 0;
    let mut i: usize = 0;
    while i < weights.len()
        invariant
            i <= weights@.len(),
            acc == prefix_weight(weights@, i as int),
            prefix_weight(weights@, weights@.len() as int) <= u64::MAX,
        decreases weights@.len() - i,
    {
        proof {
            lemma_prefix_weight_mono(weights@, i as int + 1, weights@.len() as int);
        }
        acc = acc + weights[i];
        i += 1;
    }
    acc
}

/// The bucket a draw lands in: the index whose cumulative interval
/// `[prefix(i), prefix(i + 1))` holds the draw. Every draw below the total
/// lands in exactly one bucket, and only in one of positive weight.
pub fn pick_weighted(weights: &Vec<u64>, draw: u64) -> (i: usize)
    requires
        prefix_weight(weights@, weights@.len() as int) <= u64::MAX,
        draw < prefix_weight(weights@, weights@.len() as int),
    ensures
        i < weights@.len(),
        prefix_weight(weights@, i as int) <= draw < prefix_weight(weights@, i as int + 1),
        forall|k: int| 1 <= k <= i ==> #[trigger] prefix_weight(weights@, k) <= draw,
        weights@[i as int] > 0,
{
    let n = weights.len();
    proof {
        if n == 0 {
            assert(false);
        }
    }
    let mut acc: u64 = 0;
    let mut i: usize = 0;
    while i < n - 1
        invariant
            n == weights@.len(),
            n >= 1,
            i < n,
            acc == prefix_weight(weights@, i as int),
            acc <= draw,
            forall|k: int| 1 <= k <= i ==> #[trigger] prefix_weight(weights@, k) <= draw,
            prefix_weight(weights@, n as int) <= u64::MAX,
            draw < prefix_weight(weights@, n as int),
        decreases n - i,
    {
        proof {
            lemma_prefix_weight_mono(weights@, i as int + 1, n as int);
        }
        acc = acc + weights[i];
        if draw < acc {
            proof {
                assert(prefix_weight(weights@, i as int + 1) == prefix_weight(weights@, i as int)
                    + weights@[i as int]);
            }
            return i;
        }
        i += 1;
    }
    proof {
        assert(prefix_weight(weights@, n as int) == prefix_weight(weights@, n as int - 1)
            + weights@[n as int - 1]);
    }
    i
}

/// One spawner's decision for one step, as the spawning schedule makes it:
/// nothing before the cooldown has run out; then, with the spawner's
/// probability, a bird kind of positive weight drawn from the level's
/// weights. At full probability a spawner whose cooldown has run out always
/// releases a bird; the pick obeys [`pick_weighted`]'s cumulative rule for
/// whatever the draw was.
pub fn spawn_decision(
    spawner: &BirdSpawner,
    now_ms: u64,
    last_spawn_ms: u64,
    weights: &Vec<u64>,
) -> (r: Option<usize>)
    requires
        now_ms >= last_spawn_ms,
        spawner.spawn_probability <= PROB_SCALE,
        0 < prefix_weight(weights@, weights@.len() as int) <= u64::MAX,
    ensures
        spawner.cooldown >= now_ms - last_spawn_ms ==> r is None,
        spawner.spawn_probability == 0 ==> r is None,
        spawner.spawn_probability == PROB_SCALE && spawner.cooldown < now_ms - last_spawn_ms
            ==> r is Some,
        r matches Some(i) ==> spawner.cooldown < now_ms - last_spawn_ms && i < weights@.len()
            && weights@[i as int] > 0,
{
    if !(spawner.cooldown < now_ms - last_spawn_ms) {
        return None;
    }
    if !random_chance(spawner.spawn_probability, PROB_SCALE) {
        return None;
    }
    let total = total_weight(weights);
    let draw = random_below(total);
    Some(pick_weighted(weights, draw))
}

/// Truncating division, as the machine divides signed integers: the
/// quotient rounds towards zero.
pub open spec fn div_trunc(a: int, b: int) -> int {
    if a >= 0 {
        a / b
    } else {
        -((-a) / b)
    }
}

/// Where the level's spawners stand: `qty` points one spacing apart across
/// the window's width less a 200-unit bird padding, centred, all 100 units
/// above the top edge, at the level's spawner depth. Divisions truncate; a
/// window narrower than the padding gives a negative span and the row
/// mirrors. A single spawner has no defined spacing, and a non-positive
/// count places none.
pub fn spawner_positions(window_width: u64, window_height: u64, qty: i32, z: i64) -> (r: Vec<
    (i64, i64, i64),
>)
    requires
        qty != 1,
        window_width <= 0x1_0000_0000,
        window_height <= 0x1_0000_0000,
    ensures
        r@.len() == (if qty > 0 { qty as int } else { 0 }),
        forall|k: int|
            0 <= k < r@.len() ==> {
                let span = window_width as int - 200;
                let spacing = div_trunc(span, qty as int - 1);
                (#[trigger] r@[k]).0 == spacing * k - div_trunc(span, 2) && r@[k].1
                    == window_height as int / 2 + 100 && r@[k].2 == z
            },
{
    let mut r: Vec<(i64, i64, i64)> = Vec::new();
    if qty <= 0 {
        return r;
    }
    let count: i64 = qty as i64;
    let span: i64 = window_width as i64 - 200;
    let spacing: i64 = span / (count - 1);
    let half_span: i64 = span / 2;
    let y = (window_height / 2 + 100) as i64;
    proof {
        let s = span as int;
        let d = count as int - 1;
        vstd::arithmetic::div_mod::lemma_fundamental_div_mod(s, 2);
        vstd::arithmetic::div_mod::lemma_mod_bound(s, 2);
        vstd::arithmetic::div_mod::lemma_fundamental_div_mod(-s, 2);
        vstd::arithmetic::div_mod::lemma_mod_bound(-s, 2);
        if span >= 0 {
            vstd::arithmetic::div_mod::lemma_div_pos_is_pos(s, d);
            vstd::arithmetic::div_mod::lemma_fundamental_div_mod(s, d);
            vstd::arithmetic::div_mod::lemma_mod_bound(s, d);
            assert(spacing == s / d);
            assert(d * (s / d) <= s);
            assert(spacing * d == d * (s / d)) by (nonlinear_arith)
                requires
                    spacing == s / d,
            ;
        } else {
            vstd::arithmetic::div_mod::lemma_div_pos_is_pos(-s, d);
            vstd::arithmetic::div_mod::lemma_fundamental_div_mod(-s, d);
            vstd::arithmetic::div_mod::lemma_mod_bound(-s, d);
            assert(spacing == -((-s) / d));
            assert(d * ((-s) / d) <= -s);
            assert(spacing * d == -(d * ((-s) / d))) by (nonlinear_arith)
                requires
                    spacing == -((-s) / d),
            ;
        }
    }
    let mut i: i64 = 0;
    while i < count
        invariant
            2 <= count <= 0x8000_0000,
            -200 <= span <= 0x1_0000_0000,
            span == window_width as int - 200,
            spacing == div_trunc(span as int, count as int - 1),
            span >= 0 ==> 0 <= spacing && spacing * (count - 1) <= span,
            span < 0 ==> spacing <= 0 && span <= spacing * (count - 1),
            -100 <= half_span <= 0x8000_0000,
            half_span == div_trunc(span as int, 2),
            y == window_height as int / 2 + 100,
            window_height <= 0x1_0000_0000,
            0 <= i <= count,
            r@.len() == i,
            forall|k: int|
                0 <= k < i ==> (#[trigger] r@[k]).0 == spacing * k - half_span && r@[k].1 == y
                    && r@[k].2 == z,
        decreases count - i,
    {
        proof {
            if span >= 0 {
                assert(0 <= spacing * i <= span) by (nonlinear_arith)
                    requires
                        0 <= spacing,
                        0 <= i <= count - 1,
                        spacing * (count - 1) <= span,
                ;
            } else {
                assert(span <= spacing * i <= 0) by (nonlinear_arith)
                    requires
                        spacing <= 0,
                        0 <= i <= count - 1,
                        span <= spacing * (count - 1),
                        span < 0,
                ;
            }
            assert(-200 <= spacing * i <= 0x1_0000_0000);
        }
        let x = spacing * i - half_span;
        r.push((x, y, z));
        i += 1;
    }
    r
}

} // verus!
