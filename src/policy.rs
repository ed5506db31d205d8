//! Small rules of the optimizer that work on integers.

use vstd::prelude::*;

verus! {

/// The grid step, in percent, when the configuration names none.
pub fn default_step_pct() -> (r: usize)
    ensures
        r == 1,
{
    1
}

/// Protocol `i` is blocked: bit `i` of the mask is set. Positions past the
/// mask's eight bits are never blocked.
pub open spec fn blocked(mask: u8, i: int) -> bool {
    0 <= i < 8 && (mask as int / vstd::arithmetic::power2::pow2(i as nat) as int) % 2 == 1
}

/// Whether protocol `i` may only keep or shrink its balance.
pub fn is_blocked(mask: u8, i: usize) -> (r: bool)
    ensures
        r == blocked(mask, i as int),
{
    if i >= 8 {
        return false;
    }
    let shifted: u8 = mask >> (i as u8);
    proof {
        vstd::bits::lemma_u8_shr_is_div(mask, i as u8);
    }
    shifted % 2 == 1
}

/// A share rounded up to whole percent, from its whole part and whether a fraction is left.
pub open spec fn ceiling_pct(whole_pct: usize, has_fraction: bool) -> int {
    if has_fraction {
        whole_pct + 1
    } else {
        whole_pct as int
    }
}

/// The pool-share cap of a protocol in whole percent: the share it may take,
/// given as its whole percent `whole_pct` and whether a fraction of a percent
/// is left over, rounded up to a whole percent and capped at 100.
pub fn pool_share_cap_pct(whole_pct: usize, has_fraction: bool) -> (r: usize)
    ensures
        r == if ceiling_pct(whole_pct, has_fraction) >= 100 {
            100
        } else {
            ceiling_pct(whole_pct, has_fraction)
        },
{
    if whole_pct >= 100 {
        100
    } else if has_fraction {
        whole_pct + 1
    } else {
        whole_pct
    }
}

} // verus!
