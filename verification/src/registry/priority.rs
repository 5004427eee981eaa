//! Shared lifecycle priority definitions for providers and reloadables.
//!
//! Lower values run earlier among providers that are otherwise ready. Prefer
//! `ProviderOrder` for real dependencies; priorities are only coarse tie-breakers.
use vstd::prelude::*;

verus! {

/// Reserved floor for root providers.
pub const FIRST: u8 = 0;

pub const EARLY: u8 = 50;

pub const NORMAL: u8 = 100;

pub const LATE: u8 = 150;

/// Reserved ceiling for final lifecycle providers.
pub const LAST: u8 = 255;

/// The named priorities are spread over the whole range, with the normal one in the middle of
/// an early and a late one.
pub proof fn law_priorities_are_spread()
    ensures
        FIRST == u8::MIN,
        FIRST < EARLY < NORMAL < LATE < LAST,
        LAST == u8::MAX,
        NORMAL - EARLY == EARLY - FIRST,
        LATE - NORMAL == NORMAL - EARLY,
        NORMAL == 100,
{
}

} // verus!
