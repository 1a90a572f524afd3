//! Chance: probability gates and weighted picks, each split into a rule
//! that decides from a roll (verified exactly) and a function that draws
//! the roll from a random number generator.

use vstd::prelude::*;

use rand::rngs::StdRng;
use rand::Rng;
use rand::SeedableRng;
use rand::rngs::OsRng;

use crate::ast::ShuffleCandidate;

verus! {

#[verifier::external_type_specification]
#[verifier::external_body]
pub struct ExStdRng(StdRng);

/// `rand::Rng::gen_range` over `0..n`: a number drawn below `n`. Which one
/// depends on the generator's state; only the bound is stated.
#[verifier::external_body]
fn draw_below(rng: &mut StdRng, n: u128) -> (r: u128)
    requires
        n > 0,
    ensures
        r < n,
{
    rng.gen_range(0..n)
}

/// `rand::SeedableRng::from_rng` for `StdRng` with `rand::rngs::OsRng`: a
/// generator seeded from the operating system's entropy source, or `None`
/// when the operating system cannot supply entropy. Nothing more is
/// stated: the seed is chance.
#[verifier::external_body]
fn os_seeded_rng() -> Option<StdRng> {
    StdRng::from_rng(OsRng).ok()
}

/// `rand::SeedableRng::seed_from_u64` for `StdRng`: a generator from a
/// fixed seed. Verus sees nothing inside a generator, so nothing is stated.
#[verifier::external_body]
fn rng_from_seed(seed: u64) -> StdRng {
    StdRng::seed_from_u64(seed)
}

/// A generator seeded from the operating system's entropy source; when
/// that source fails, one seeded with 0 instead, so that this never fails.
pub(crate) fn fresh_rng() -> StdRng {
    match os_seeded_rng() {
        Some(r) => r,
        None => rng_from_seed(0),
    }
}

/// A position drawn below `n`.
pub fn random_index(rng: &mut StdRng, n: usize) -> (r: usize)
    requires
        n > 0,
    ensures
        r < n,
{
    draw_below(rng, n as u128) as usize
}

/// Whether a percentage gate passes for a roll in `0..100`: no percentage,
/// or a roll below it.
pub open spec fn percent_passes(probability: Option<u8>, roll: int) -> bool {
    match probability {
        None => true,
        Some(p) => roll < p,
    }
}

/// Whether a percentage gate (0-100) passes for the roll `roll` (0..100).
pub fn trigger_passes(probability: Option<u8>, roll: u8) -> (r: bool)
    ensures
        r == percent_passes(probability, roll as int),
{
    match probability {
        None => true,
        Some(p) => roll < p,
    }
}

/// Rolls a percentage gate (0-100): no percentage and 100 or more always
/// pass, 0 never does; otherwise a roll in `0..100` below the percentage
/// passes.
pub fn should_trigger(probability: Option<u8>, rng: &mut StdRng) -> (r: bool)
    ensures
        probability is None ==> r,
        (probability matches Some(p) && p >= 100) ==> r,
        probability == Some(0u8) ==> !r,
        exists|roll: int| 0 <= roll < 100 && r == percent_passes(probability, roll),
{
    match probability {
        None => {
            assert(percent_passes(probability, 0));
            true
        },
        Some(p) => {
            if p >= 100 {
                assert(percent_passes(probability, 0));
                return true;
            }
            let roll = draw_below(rng, 100);
            let r = trigger_passes(probability, roll as u8);
            assert(r == percent_passes(probability, roll as int));
            r
        },
    }
}

/// Whether a scene entry's probability (tenths, 0-9) passes for a roll in
/// `0..10`: no probability, or a roll below it.
pub open spec fn tenths_passes(probability: Option<u8>, roll: int) -> bool {
    match probability {
        None => true,
        Some(p) => roll < p,
    }
}

/// Whether a scene entry's probability passes for the roll `roll` (0..10).
pub fn probability_passes(probability: Option<u8>, roll: u8) -> (r: bool)
    ensures
        r == tenths_passes(probability, roll as int),
{
    match probability {
        None => true,
        Some(p) => roll < p,
    }
}

/// Rolls a scene entry's probability: `None` always passes, 0 never,
/// 10 or more always; otherwise a roll in `0..10` below it passes.
pub fn probability_check(probability: Option<u8>, rng: &mut StdRng) -> (r: bool)
    ensures
        probability is None ==> r,
        (probability matches Some(p) && p >= 10) ==> r,
        probability == Some(0u8) ==> !r,
        exists|roll: int| 0 <= roll < 10 && r == tenths_passes(probability, roll),
{
    match probability {
        None => {
            assert(tenths_passes(probability, 0));
            true
        },
        Some(p) => {
            if p >= 10 {
                assert(tenths_passes(probability, 0));
                return true;
            }
            let roll = draw_below(rng, 10);
            let r = probability_passes(probability, roll as u8);
            assert(r == tenths_passes(probability, roll as int));
            r
        },
    }
}

/// Sum of the weights of the first `n` candidates.
pub open spec fn weight_prefix(c: Seq<ShuffleCandidate>, n: int) -> int
    decreases n,
{
    if n <= 0 {
        0
    } else {
        weight_prefix(c, n - 1) + c[n - 1].weight
    }
}

/// Sum of all candidate weights.
pub open spec fn total_weight(c: Seq<ShuffleCandidate>) -> int {
    weight_prefix(c, c.len() as int)
}

/// The candidate a roll selects: the first whose cumulative weight
/// exceeds the roll.
pub open spec fn picked_by(c: Seq<ShuffleCandidate>, roll: int, i: int) -> bool {
    &&& 0 <= i < c.len()
    &&& weight_prefix(c, i) <= roll < weight_prefix(c, i + 1)
}

/// Weights never sum below 0.
pub proof fn lemma_total_weight_nonneg(c: Seq<ShuffleCandidate>)
    ensures
        total_weight(c) >= 0,
{
    lemma_weight_prefix_mono(c, 0, c.len() as int);
}

proof fn lemma_weight_prefix_mono(c: Seq<ShuffleCandidate>, a: int, b: int)
    requires
        0 <= a <= b <= c.len(),
    ensures
        weight_prefix(c, a) <= weight_prefix(c, b),
    decreases b - a,
{
    if a < b {
        lemma_weight_prefix_mono(c, a, b - 1);
    }
}

/// Sum of all candidate weights.
pub fn weight_total(c: &Vec<ShuffleCandidate>) -> (r: u128)
    ensures
        r == total_weight(c@),
{
    let mut total: u128 = 0;
    let mut i: usize = 0;
    while i < c.len()
        invariant
            i <= c@.len(),
            total == weight_prefix(c@, i as int),
            total <= i * 0x1_0000_0000,
        decreases c@.len() - i,
    {
        total = total + c[i].weight as u128;
        i += 1;
    }
    total
}

/// The index of the candidate a roll below the total weight selects.
pub fn pick_by_weight(c: &Vec<ShuffleCandidate>, roll: u128) -> (r: usize)
    requires
        roll < total_weight(c@),
        total_weight(c@) <= u128::MAX,
    ensures
        picked_by(c@, roll as int, r as int),
{
    let mut acc: u128 = 0;
    let mut i: usize = 0;
    proof { lemma_weight_prefix_mono(c@, 0, c@.len() as int); }
    while i < c.len()
        invariant
            i <= c@.len(),
            acc == weight_prefix(c@, i as int),
            acc <= roll,
            roll < total_weight(c@),
            total_weight(c@) <= u128::MAX,
        decreases c@.len() - i,
    {
        proof { lemma_weight_prefix_mono(c@, i + 1, c@.len() as int); }
        let next = acc + c[i].weight as u128;
        if roll < next {
            return i;
        }
        acc = next;
        i += 1;
    }
    i
}

/// Picks one candidate with chance proportional to its weight. `None`
/// when the list is empty or all weights are 0.
pub fn weighted_pick<'a>(c: &'a Vec<ShuffleCandidate>, rng: &mut StdRng) -> (r: Option<&'a str>)
    ensures
        r is None <==> total_weight(c@) == 0,
        total_weight(c@) > 0 ==> (r matches Some(s) && exists|i: int|
            0 <= i < c@.len() && 0 < c@[i].weight && #[trigger] c@[i].clip@ == s@),
{
    let total = weight_total(c);
    if total == 0 {
        return None;
    }
    let roll = draw_below(rng, total);
    let i = pick_by_weight(c, roll);
    assert(picked_by(c@, roll as int, i as int));
    Some(c[i].clip.as_str())
}

} // verus!
