//! Deciding whether a stored entry is still valid.
//!
//! An entry carries no time of its own: its age is the distance between the
//! time the storage medium recorded for its last write and the time the
//! clock reads now. It is fresh while that age is strictly less than the
//! time-to-live.
use crate::ttl::Ttl;
use vstd::prelude::*;

verus! {

/// A point in time: nanoseconds since the Unix epoch, negative before it.
#[derive(Clone, Copy, Debug, PartialEq, Eq, Structural)]
pub struct Timestamp {
    pub nanos: i128,
}

/// The age of an entry when the clock reads `now`.
///
/// `modified` is the time of the entry's last write, or nothing where the
/// entry is missing or that time cannot be read. There is an age only if
/// the time is known and the clock has not gone back behind it.
pub open spec fn age(modified: Option<Timestamp>, now: Timestamp) -> Option<nat> {
    match modified {
        Some(written) => if written.nanos <= now.nanos {
            Some((now.nanos - written.nanos) as nat)
        } else {
            None
        },
        None => None,
    }
}

/// Whether an entry counts as fresh: it has an age, and that age is
/// strictly less than `ttl`.
pub open spec fn fresh(modified: Option<Timestamp>, now: Timestamp, ttl: Ttl) -> bool {
    match age(modified, now) {
        Some(age) => age < ttl.nanos,
        None => false,
    }
}

/// Computes the age of an entry last written at `modified` when the clock
/// reads `now`, in nanoseconds.
pub fn age_of(modified: Option<Timestamp>, now: Timestamp) -> (elapsed: Option<u128>)
    ensures
        match elapsed {
            Some(nanos) => age(modified, now) == Some(nanos as nat),
            None => age(modified, now) is None,
        },
{
    match modified {
        None => None,
        Some(written) => {
            if now.nanos < written.nanos {
                None
            } else if written.nanos >= 0 || now.nanos < 0 {
                Some((now.nanos - written.nanos) as u128)
            } else {
                let before_epoch = (-(written.nanos + 1)) as u128;
                Some(now.nanos as u128 + before_epoch + 1)
            }
        },
    }
}

/// Decides whether an entry last written at `modified` is fresh when the
/// clock reads `now`.
pub fn is_fresh(modified: Option<Timestamp>, now: Timestamp, ttl: Ttl) -> (is_fresh: bool)
    ensures
        is_fresh == fresh(modified, now, ttl),
{
    match age_of(modified, now) {
        Some(elapsed) => elapsed < ttl.nanos,
        None => false,
    }
}

/// The staleness boundary: an entry written at some time and examined
/// `delay` nanoseconds later is fresh exactly if `delay` is less than the
/// time-to-live.
pub proof fn lemma_staleness_boundary(written: Timestamp, delay: nat, now: Timestamp, ttl: Ttl)
    requires
        now.nanos == written.nanos + delay,
    ensures
        fresh(Some(written), now, ttl) == (delay < ttl.nanos),
{
}

/// With a time-to-live of zero every entry is stale, even one written at
/// the very moment it is examined.
pub proof fn lemma_zero_ttl_is_always_stale(modified: Option<Timestamp>, now: Timestamp)
    ensures
        !fresh(modified, now, Ttl { nanos: 0 }),
{
}

/// An entry is never fresh where its time of writing is unknown or lies
/// ahead of the clock.
pub proof fn lemma_unreadable_or_future_is_stale(
    modified: Option<Timestamp>,
    now: Timestamp,
    ttl: Ttl,
)
    requires
        match modified {
            Some(written) => now.nanos < written.nanos,
            None => true,
        },
    ensures
        !fresh(modified, now, ttl),
{
}

} // verus!
