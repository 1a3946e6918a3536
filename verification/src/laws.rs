//! What holds of all three operations alike: each examines the root at most
//! once, and none does anything in a cache that is not enabled.
use crate::cache::CacheState;
use crate::cache::lemma_first_root_observation_stays;
use crate::cache::observed_root;
use crate::cache::observed_roots;
use crate::clear::clear_step;
use crate::clear::ClearSeenModel;
use crate::clear::ClearStepModel;
use crate::clear::not_enabled_result;
use crate::get::get_step;
use crate::get::GetSeen;
use crate::get::GetStepModel;
use crate::put::put_step;
use crate::put::PutSeenModel;
use crate::put::PutStepModel;
use vstd::prelude::*;

verus! {

/// The root is examined once: a cache that knows whether it is enabled
/// never asks for the root again, in none of its operations.
pub proof fn lemma_root_is_examined_once<P>(
    cache: CacheState,
    key: Seq<char>,
    get_seen: GetSeen<P>,
    put_seen: PutSeenModel,
    clear_seen: ClearSeenModel,
)
    requires
        cache.enabled is Some,
    ensures
        !(get_step(cache, key, get_seen) is Probe),
        !(put_step(cache, key, put_seen) is Probe),
        !(clear_step(cache, clear_seen) is Probe),
{
}

/// A cache that is not enabled is inert: a get misses, a put does nothing
/// and a clear reports that the cache is not enabled, each at once and
/// without a step for the host, whatever the host has observed.
pub proof fn lemma_disabled_cache_is_inert<P>(
    cache: CacheState,
    key: Seq<char>,
    get_seen: GetSeen<P>,
    put_seen: PutSeenModel,
    clear_seen: ClearSeenModel,
)
    requires
        cache.enabled == Some(false),
    ensures
        get_step(cache, key, get_seen) == GetStepModel::<P>::Miss,
        put_step(cache, key, put_seen) == PutStepModel::Done(None),
        clear_step(cache, clear_seen) == ClearStepModel::Done(not_enabled_result()),
{
}

/// Disabling is permanent: once the root was found missing, every later
/// get misses and every later put does nothing, even if the directory has
/// appeared since and is examined again.
pub proof fn lemma_missing_root_disables_for_good<P>(
    cache: CacheState,
    later: Seq<bool>,
    key: Seq<char>,
    get_seen: GetSeen<P>,
    put_seen: PutSeenModel,
)
    requires
        cache.enabled is None,
    ensures
        get_step(observed_roots(observed_root(cache, false), later), key, get_seen)
            == GetStepModel::<P>::Miss,
        put_step(observed_roots(observed_root(cache, false), later), key, put_seen)
            == PutStepModel::Done(None),
{
    lemma_first_root_observation_stays(cache, false, later);
}

} // verus!
