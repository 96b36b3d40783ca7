//! Tiers: the powers of one thousand by which a magnitude is scaled, and the
//! letters that name them.

use vstd::prelude::*;

verus! {

/// The letters of the four tiers, from the smallest scale to the largest:
/// thousand, million, billion, trillion.
pub const SUFFIXES: &'static str = "kMBT";

/// The number of tiers that have a letter.
pub const TIERS: usize = 4;

/// The smallest magnitude that no tier can hold: one quadrillion.
pub const LIMIT: i64 = 1_000_000_000_000_000;

/// A thousand to the power `tier`: what one unit of the mantissa is worth.
pub open spec fn scale(tier: nat) -> int
    decreases tier,
{
    if tier == 0 {
        1
    } else {
        1000 * scale((tier - 1) as nat)
    }
}

/// How often `magnitude` can be divided by a thousand before it drops
/// below a thousand. Tier 0 is that of the magnitudes written in full.
pub open spec fn tier_of(magnitude: int) -> nat
    decreases magnitude,
{
    if magnitude < 1000 {
        0
    } else {
        1 + tier_of(magnitude / 1000)
    }
}

/// The letter of a tier, for `1 <= tier <= 4`.
pub open spec fn suffix_char(tier: nat) -> char
    recommends
        1 <= tier <= TIERS,
{
    SUFFIXES@[tier - 1]
}

/// The values of `scale` on the tiers in use.
pub proof fn lemma_scale_values()
    ensures
        scale(0) == 1,
        scale(1) == 1_000,
        scale(2) == 1_000_000,
        scale(3) == 1_000_000_000,
        scale(4) == 1_000_000_000_000,
        scale(5) == LIMIT,
{
    reveal_with_fuel(scale, 6);
}

/// The letters of the table.
pub proof fn lemma_suffix_values()
    ensures
        suffix_char(1) == 'k',
        suffix_char(2) == 'M',
        suffix_char(3) == 'B',
        suffix_char(4) == 'T',
{
    reveal_strlit("kMBT");
}

/// A positive magnitude lies between the scale of its tier and the scale of
/// the next one.
pub proof fn lemma_tier_bounds(magnitude: int)
    requires
        1 <= magnitude,
    ensures
        scale(tier_of(magnitude)) <= magnitude < scale(tier_of(magnitude) + 1),
    decreases magnitude,
{
    reveal_with_fuel(scale, 2);
    if magnitude >= 1000 {
        lemma_tier_bounds(magnitude / 1000);
    }
}

/// The tier of a magnitude is the only one whose scale and the next one's
/// enclose it.
pub proof fn lemma_tier_unique(magnitude: int, tier: nat)
    requires
        scale(tier) <= magnitude < scale(tier + 1),
    ensures
        tier_of(magnitude) == tier,
    decreases tier,
{
    reveal_with_fuel(scale, 2);
    if tier > 0 {
        lemma_scale_positive((tier - 1) as nat);
        lemma_tier_unique(magnitude / 1000, (tier - 1) as nat);
    }
}

/// Every scale is at least one.
pub proof fn lemma_scale_positive(tier: nat)
    ensures
        1 <= scale(tier),
    decreases tier,
{
    if tier > 0 {
        lemma_scale_positive((tier - 1) as nat);
    }
}

/// Finds the tier in which `magnitude` is written, and the scale of that
/// tier. The table is walked from the smallest scale up, and the first tier
/// in whose units the magnitude is below a thousand is taken; so a magnitude
/// below a thousand gets the first tier. When the table is exhausted the
/// magnitude is a quadrillion or more, and there is no tier for it.
pub fn select_tier(magnitude: u64) -> (found: Option<(usize, u64)>)
    ensures
        match found {
            Some((tier, unit)) => {
                &&& magnitude < LIMIT
                &&& 1 <= tier <= TIERS
                &&& tier == if magnitude < 1000 { 1 } else { tier_of(magnitude as int) }
                &&& unit == scale(tier as nat)
            },
            None => magnitude >= LIMIT,
        },
{
    let mut tier: usize = 0;
    let mut unit: u64 = 1;
    proof {
        lemma_scale_values();
    }
    while tier < TIERS
        invariant
            tier <= TIERS,
            unit == scale(tier as nat),
            tier > 0 ==> magnitude >= 1000 * unit,
        decreases TIERS - tier,
    {
        proof {
            lemma_scale_values();
        }
        unit = unit * 1000;
        tier = tier + 1;
        if magnitude / unit < 1000 {
            proof {
                assert(magnitude < 1000 * unit) by (nonlinear_arith)
                    requires
                        magnitude / unit < 1000,
                        unit > 0,
                ;
                reveal_with_fuel(scale, 2);
                if magnitude >= 1000 {
                    lemma_tier_unique(magnitude as int, tier as nat);
                }
            }
            return Some((tier, unit));
        }
        proof {
            assert(magnitude >= 1000 * unit) by (nonlinear_arith)
                requires
                    magnitude / unit >= 1000,
                    unit > 0,
            ;
        }
    }
    None
}

/// The one-character text of a tier's letter.
pub fn suffix_text(tier: usize) -> (text: &'static str)
    requires
        1 <= tier <= TIERS,
    ensures
        text@ == seq![suffix_char(tier as nat)],
{
    proof {
        reveal_strlit("kMBT");
    }
    let text = SUFFIXES.substring_ascii(tier - 1, tier);
    assert(text@ =~= seq![suffix_char(tier as nat)]);
    text
}

} // verus!
