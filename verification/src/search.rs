//! The combination search grid and its scan order. The grid runs over
//! lightness 0..=100, saturation 0..=100 and hue offset 0..360; scan order is
//! lightness outermost, saturation middle, offset innermost, and that order
//! is a contract because it fixes the byte order of the cache file. The
//! per-candidate contrast evaluation is floating-point work done by the
//! caller; this module turns its pass flags, given in scan order, into the
//! ordered sequence of valid combinations.

use crate::cache::ValidCombination;
use crate::cache::combination_wf;
use vstd::prelude::*;

verus! {

/// Number of lightness steps of the grid (integer percentages 0 to 100).
pub const LIGHT_STEPS: usize = 101;

/// Number of saturation steps of the grid (integer percentages 0 to 100).
pub const SAT_STEPS: usize = 101;

/// Number of hue-offset steps of the grid (integer degrees 0 to 359).
pub const OFFSET_STEPS: usize = 360;

/// Total number of grid candidates: 101 * 101 * 360.
pub const GRID_SIZE: usize = 3672360;

/// The candidate triple at scan position `i`.
pub open spec fn scan_comb(i: int) -> ValidCombination {
    ValidCombination {
        lightness: (i / 36360) as u8,
        saturation: ((i / 360) % 101) as u8,
        offset: (i % 360) as u16,
    }
}

/// Maps a scan position to its candidate triple.
pub fn scan_triple(i: usize) -> (c: ValidCombination)
    requires
        i < GRID_SIZE,
    ensures
        c == scan_comb(i as int),
        combination_wf(c),
{
    proof {
        vstd::arithmetic::div_mod::lemma_multiply_divide_lt(i as int, 36360, 101);
        assert(36360 * 101 == 3672360);
        assert(0 <= (i as int / 360) % 101 < 101) by {
            vstd::arithmetic::div_mod::lemma_mod_bound(i as int / 360, 101);
        }
        assert(0 <= i as int % 360 < 360) by {
            vstd::arithmetic::div_mod::lemma_mod_bound(i as int, 360);
        }
    }
    let l = i / 36360;
    let s = (i / 360) % 101;
    let o = i % 360;
    ValidCombination { lightness: l as u8, saturation: s as u8, offset: o as u16 }
}

/// The hue, in integer degrees, of rotation `n` of the six-way rotation that
/// starts at `offset`: rotations sit 60 degrees apart.
pub fn rotation_hue(offset: u16, n: u8) -> (h: u16)
    requires
        offset < 360,
        n < 6,
    ensures
        h as int == (offset as int + 60 * n as int) % 360,
        h < 360,
{
    (offset + 60 * (n as u16)) % 360
}

/// The valid combinations among the first `n` scan positions, in scan order,
/// given one pass flag per position.
pub open spec fn valid_prefix(pass: Seq<bool>, n: int) -> Seq<ValidCombination>
    recommends
        0 <= n <= pass.len(),
    decreases n,
{
    if n <= 0 {
        Seq::empty()
    } else {
        valid_prefix(pass, n - 1) + (if pass[n - 1] {
            seq![scan_comb(n - 1)]
        } else {
            Seq::empty()
        })
    }
}

/// The ordered sequence of valid combinations of a full scan, given one pass
/// flag per grid candidate in scan order.
pub open spec fn valid_combs_of(pass: Seq<bool>) -> Seq<ValidCombination> {
    valid_prefix(pass, pass.len() as int)
}

/// Collects the combinations whose candidates passed every contrast check,
/// preserving scan order; the flags come in scan order, one per candidate.
pub fn gen_valid_combs(pass: &Vec<bool>) -> (valid: Vec<ValidCombination>)
    requires
        pass@.len() == GRID_SIZE,
    ensures
        valid@ == valid_combs_of(pass@),
{
    let mut valid: Vec<ValidCombination> = Vec::new();
    let mut i: usize = 0;
    while i < pass.len()
        invariant
            0 <= i <= pass@.len(),
            pass@.len() == GRID_SIZE,
            valid@ =~= valid_prefix(pass@, i as int),
        decreases pass@.len() - i,
    {
        if pass[i] {
            let c = scan_triple(i);
            valid.push(c);
        }
        i = i + 1;
    }
    valid
}

} // verus!
