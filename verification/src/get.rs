//! Looking up a cached result.
//!
//! A get never changes the store: a stale or broken entry is passed over,
//! not removed. It is a miss wherever something is in the way, and a hit
//! only for an entry that is fresh and holds a result.
use crate::cache::Cache;
use crate::cache::CacheState;
use crate::cache::enabled_in;
use crate::cache::observed_root;
use crate::cache::observed_setting;
use crate::cache::ttl_in;
use crate::fingerprint::args_hash;
use crate::fingerprint::CacheArgs;
use crate::fresh::age;
use crate::fresh::age_of;
use crate::fresh::fresh;
use crate::fresh::Timestamp;
use crate::key::cache_key;
use crate::key::cache_path_in;
use crate::store::EntryRead;
use crate::store::payload_of;
use vstd::prelude::*;

verus! {

/// The time the storage medium recorded for an entry, and the time the
/// clock read when the host asked for it.
#[derive(Clone, Copy, Debug, PartialEq, Eq, Structural)]
pub struct Stat {
    /// The time of the entry's last write, or nothing where the entry is
    /// missing, its metadata cannot be read, or it records no such time.
    pub modified: Option<Timestamp>,
    /// The time the clock read.
    pub now: Timestamp,
}

/// What the host has observed so far while it carries out a get.
#[derive(Debug)]
pub struct GetSeen<P> {
    /// The times of the entry, once the host looked them up.
    pub stat: Option<Stat>,
    /// What reading the entry gave, once it was read.
    pub read: Option<EntryRead<P>>,
}

/// The next step of a get.
#[derive(Debug)]
pub enum GetStep<P> {
    /// Examine the root, hand the answer to [`Cache::observe_root`], and ask
    /// again.
    Probe,
    /// Look up the time-to-live setting, hand it to
    /// [`Cache::observe_setting`], and ask again.
    Configure,
    /// Look up the times of the entry at `path`, and ask again with them.
    Stat { path: String },
    /// Read the entry at `path`, and ask again with what that gave.
    Read { path: String },
    /// The get is over: nothing usable is cached.
    Miss,
    /// The get is over: this is the cached result.
    Hit(P),
}

/// A [`GetStep`] as a mathematical value.
pub enum GetStepModel<P> {
    Probe,
    Configure,
    Stat { path: Seq<char> },
    Read { path: Seq<char> },
    Miss,
    Hit(P),
}

impl<P> DeepView for GetStep<P> {
    type V = GetStepModel<P>;

    open spec fn deep_view(&self) -> GetStepModel<P> {
        match self {
            GetStep::Probe => GetStepModel::Probe,
            GetStep::Configure => GetStepModel::Configure,
            GetStep::Stat { path } => GetStepModel::Stat { path: path@ },
            GetStep::Read { path } => GetStepModel::Read { path: path@ },
            GetStep::Miss => GetStepModel::Miss,
            GetStep::Hit(payload) => GetStepModel::Hit(*payload),
        }
    }
}

/// The next step of a get for the entry with the key `key` in `cache`,
/// given what the host has observed.
///
/// A cache that is not enabled misses at once. An enabled one has the
/// entry's times looked up and misses unless the entry is fresh; the
/// time-to-live is resolved when the first entry with an age is met. A
/// fresh entry is read, and is a hit with the result it holds, or a miss
/// where it is unreadable or malformed.
pub open spec fn get_step<P>(cache: CacheState, key: Seq<char>, seen: GetSeen<P>) -> GetStepModel<
    P,
> {
    match cache.enabled {
        None => GetStepModel::Probe,
        Some(false) => GetStepModel::Miss,
        Some(true) => match seen.stat {
            None => GetStepModel::Stat { path: key },
            Some(stat) => if age(stat.modified, stat.now) is None {
                GetStepModel::Miss
            } else {
                match cache.ttl {
                    None => GetStepModel::Configure,
                    Some(ttl) => if !fresh(stat.modified, stat.now, ttl) {
                        GetStepModel::Miss
                    } else {
                        match seen.read {
                            None => GetStepModel::Read { path: key },
                            Some(read) => match payload_of(read) {
                                Some(payload) => GetStepModel::Hit(payload),
                                None => GetStepModel::Miss,
                            },
                        }
                    },
                }
            },
        },
    }
}

impl Cache {
    /// Looks up the cached result of `tool_name` called with `args`.
    pub fn get<P, T: CacheArgs>(&self, tool_name: &str, args: &T, seen: GetSeen<P>) -> (step:
        GetStep<P>)
        ensures
            step.deep_view() == get_step(
                self@,
                cache_key(self@.root, tool_name@, args_hash(args.fields())),
                seen,
            ),
    {
        match self.is_enabled() {
            None => GetStep::Probe,
            Some(false) => GetStep::Miss,
            Some(true) => match seen.stat {
                None => GetStep::Stat { path: cache_path_in(self.root(), tool_name, args) },
                Some(stat) => match age_of(stat.modified, stat.now) {
                    None => GetStep::Miss,
                    Some(elapsed) => match self.ttl() {
                        None => GetStep::Configure,
                        Some(ttl) => if elapsed < ttl.nanos {
                            match seen.read {
                                None => GetStep::Read {
                                    path: cache_path_in(self.root(), tool_name, args),
                                },
                                Some(EntryRead::Payload(payload)) => GetStep::Hit(payload),
                                Some(_) => GetStep::Miss,
                            }
                        } else {
                            GetStep::Miss
                        },
                    },
                },
            },
        }
    }
}

/// The setting is looked up once: a cache that knows its time-to-live
/// never asks for the setting again. Until then it asks only when it has
/// met an entry with an age.
pub proof fn lemma_setting_is_looked_up_once<P>(
    cache: CacheState,
    key: Seq<char>,
    seen: GetSeen<P>,
)
    ensures
        get_step(cache, key, seen) is Configure <==> (cache.enabled == Some(true) && cache.ttl
            is None && seen.stat is Some && age(seen.stat->0.modified, seen.stat->0.now) is Some),
{
}

/// A get is a hit in exactly one case: the cache is enabled, the entry is
/// fresh under the resolved time-to-live, and reading it gave a result. The
/// hit is that result.
pub proof fn lemma_hit_is_a_fresh_readable_entry<P>(
    cache: CacheState,
    key: Seq<char>,
    seen: GetSeen<P>,
    payload: P,
)
    ensures
        get_step(cache, key, seen) == GetStepModel::Hit(payload) <==> (cache.enabled == Some(true)
            && cache.ttl is Some && seen.stat is Some && fresh(
            seen.stat->0.modified,
            seen.stat->0.now,
            cache.ttl->0,
        ) && seen.read == Some(EntryRead::Payload(payload))),
{
}

/// Corruption is tolerated as a miss: in a working cache, an entry that is
/// missing, cannot be read, or does not hold a result ends the get with a
/// miss, never with anything else.
pub proof fn lemma_unusable_entry_is_a_miss<P>(cache: CacheState, key: Seq<char>, seen: GetSeen<P>)
    requires
        cache.enabled == Some(true),
        cache.ttl is Some,
        seen.stat is Some,
        seen.stat->0.modified is None || seen.read == Some(EntryRead::<P>::Unreadable) || seen.read
            == Some(EntryRead::<P>::Malformed),
    ensures
        get_step(cache, key, seen) == GetStepModel::<P>::Miss,
{
}

/// What the host finds when it does what a get asks for.
pub struct GetWorld<P> {
    /// Whether the cache root is a directory.
    pub root_is_dir: bool,
    /// The time-to-live setting, if there is one.
    pub setting: Option<Seq<char>>,
    /// The times of the entry.
    pub stat: Stat,
    /// What reading the entry gives.
    pub read: EntryRead<P>,
}

/// The steps of a get from the point where the host has observed `seen`,
/// cut off after `turns` turns of the host.
pub open spec fn get_trace<P>(
    cache: CacheState,
    key: Seq<char>,
    seen: GetSeen<P>,
    world: GetWorld<P>,
    turns: nat,
) -> Seq<GetStepModel<P>>
    decreases turns,
{
    let step = get_step(cache, key, seen);
    if turns == 0 {
        seq![step]
    } else {
        let rest = (turns - 1) as nat;
        match step {
            GetStepModel::Probe => seq![step] + get_trace(
                observed_root(cache, world.root_is_dir),
                key,
                seen,
                world,
                rest,
            ),
            GetStepModel::Configure => seq![step] + get_trace(
                observed_setting(cache, world.setting),
                key,
                seen,
                world,
                rest,
            ),
            GetStepModel::Stat { .. } => seq![step] + get_trace(
                cache,
                key,
                GetSeen { stat: Some(world.stat), read: seen.read },
                world,
                rest,
            ),
            GetStepModel::Read { .. } => seq![step] + get_trace(
                cache,
                key,
                GetSeen { stat: seen.stat, read: Some(world.read) },
                world,
                rest,
            ),
            GetStepModel::Miss => seq![step],
            GetStepModel::Hit(_) => seq![step],
        }
    }
}

/// The steps a get takes, from the first to its result.
///
/// The root is examined if that has not been done. A cache that is not
/// enabled then misses. An enabled one looks up the times of the entry under
/// the key and misses if the entry has no age. Else the setting is looked up
/// if that has not been done, and the get misses if the entry is not fresh.
/// A fresh entry is read, and the get ends as a hit with the result the
/// entry holds, or as a miss if it holds none.
pub open spec fn get_steps<P>(cache: CacheState, key: Seq<char>, world: GetWorld<P>) -> Seq<
    GetStepModel<P>,
> {
    let probe = if cache.enabled is None {
        seq![GetStepModel::<P>::Probe]
    } else {
        seq![]
    };
    let configure = if cache.ttl is None {
        seq![GetStepModel::<P>::Configure]
    } else {
        seq![]
    };
    let stat = seq![GetStepModel::<P>::Stat { path: key }];
    let miss = seq![GetStepModel::<P>::Miss];
    if !enabled_in(cache, world.root_is_dir) {
        probe + miss
    } else if age(world.stat.modified, world.stat.now) is None {
        probe + stat + miss
    } else if !fresh(world.stat.modified, world.stat.now, ttl_in(cache, world.setting)) {
        probe + stat + configure + miss
    } else {
        probe + stat + configure + seq![
            GetStepModel::<P>::Read { path: key },
            match payload_of(world.read) {
                Some(payload) => GetStepModel::Hit(payload),
                None => GetStepModel::Miss,
            },
        ]
    }
}

/// A get is over after at most four turns of the host, and its steps are
/// exactly [`get_steps`].
pub proof fn lemma_get_runs_to_its_result<P>(cache: CacheState, key: Seq<char>, world: GetWorld<P>)
    ensures
        get_trace(cache, key, GetSeen { stat: None, read: None }, world, 4) == get_steps(
            cache,
            key,
            world,
        ),
{
    reveal_with_fuel(get_trace, 5);
    assert(get_trace(cache, key, GetSeen { stat: None, read: None }, world, 4) =~= get_steps(
        cache,
        key,
        world,
    ));
}

} // verus!
