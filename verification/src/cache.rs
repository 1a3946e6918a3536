//! The cache and the two things it learns once and keeps: whether its root
//! is there, and how long its entries live.
//!
//! The cache never touches the world. Its operations, each in a module of
//! its own, are functions from what the cache knows and what the host has
//! observed so far to the next step: either something for the host to do,
//! or the operation's result. The host does what the step says, adds what it
//! observed, and asks again.
//!
//! What the cache learns it learns at most once. The first observation
//! stays for good: a cache that found its root missing answers every later
//! request as a miss and stores nothing, whatever happens to the directory
//! afterwards.
use crate::key::CACHE_DIR;
use crate::notice::Level;
use crate::notice::Notice;
use crate::notice::NoticeModel;
use crate::ttl::resolve_ttl;
use crate::ttl::resolved_days;
use crate::ttl::Ttl;
use crate::ttl::ttl_of_days;
use vstd::prelude::*;
use vstd::string::StringExecFns;

verus! {

/// A cache, with what it has learned so far.
#[derive(Debug)]
pub struct Cache {
    root: String,
    enabled: Option<bool>,
    ttl: Option<Ttl>,
}

/// A [`Cache`] as a mathematical value.
pub struct CacheState {
    /// The directory that holds the entries.
    pub root: Seq<char>,
    /// Whether the root was found to be a directory, once it was examined.
    pub enabled: Option<bool>,
    /// The time-to-live, once it was resolved.
    pub ttl: Option<Ttl>,
}

impl View for Cache {
    type V = CacheState;

    closed spec fn view(&self) -> CacheState {
        CacheState { root: self.root@, enabled: self.enabled, ttl: self.ttl }
    }
}

/// The cache after its root was examined and found to be a directory or
/// not. Only the first examination counts.
pub open spec fn observed_root(cache: CacheState, is_dir: bool) -> CacheState {
    match cache.enabled {
        Some(_) => cache,
        None => CacheState { enabled: Some(is_dir), ..cache },
    }
}

/// The diagnostic that is due when the root is examined: the first
/// examination announces a missing root, and nothing else is ever
/// announced.
pub open spec fn root_notice(cache: CacheState, is_dir: bool) -> Option<NoticeModel> {
    if cache.enabled is None && !is_dir {
        Some(
            NoticeModel {
                level: Level::Info,
                text: "Cache directory "@ + cache.root + " is not mounted; caching is disabled"@,
            },
        )
    } else {
        None
    }
}

/// The cache after the host looked up the time-to-live setting. Only the
/// first lookup counts.
pub open spec fn observed_setting(cache: CacheState, setting: Option<Seq<char>>) -> CacheState {
    match cache.ttl {
        Some(_) => cache,
        None => CacheState { ttl: Some(ttl_of_days(resolved_days(setting))), ..cache },
    }
}

/// Whether the cache is enabled once it has examined its root in a world
/// where the root is a directory or not.
pub open spec fn enabled_in(cache: CacheState, root_is_dir: bool) -> bool {
    match cache.enabled {
        Some(enabled) => enabled,
        None => root_is_dir,
    }
}

/// The time-to-live of the cache once it has looked up the setting.
pub open spec fn ttl_in(cache: CacheState, setting: Option<Seq<char>>) -> Ttl {
    match cache.ttl {
        Some(ttl) => ttl,
        None => ttl_of_days(resolved_days(setting)),
    }
}

impl Cache {
    /// A cache in [`CACHE_DIR`] that has learned nothing yet.
    pub fn new() -> (cache: Cache)
        ensures
            cache@ == (CacheState { root: CACHE_DIR@, enabled: None, ttl: None }),
    {
        Cache { root: String::from_str(CACHE_DIR), enabled: None, ttl: None }
    }

    /// A cache in the directory `root` that has learned nothing yet.
    pub fn in_dir(root: &str) -> (cache: Cache)
        ensures
            cache@ == (CacheState { root: root@, enabled: None, ttl: None }),
    {
        Cache { root: String::from_str(root), enabled: None, ttl: None }
    }

    /// A cache in the directory `root` that has learned everything at the
    /// start: whether it is enabled, and how long its entries live.
    pub fn resolved(root: &str, enabled: bool, ttl: Ttl) -> (cache: Cache)
        ensures
            cache@ == (CacheState { root: root@, enabled: Some(enabled), ttl: Some(ttl) }),
    {
        Cache { root: String::from_str(root), enabled: Some(enabled), ttl: Some(ttl) }
    }

    /// The directory that holds the entries.
    pub fn root(&self) -> (root: &str)
        ensures
            root@ == self@.root,
    {
        self.root.as_str()
    }

    /// Whether the cache is enabled, if its root has been examined.
    pub fn is_enabled(&self) -> (enabled: Option<bool>)
        ensures
            enabled == self@.enabled,
    {
        self.enabled
    }

    /// The time-to-live, if it has been resolved.
    pub fn ttl(&self) -> (ttl: Option<Ttl>)
        ensures
            ttl == self@.ttl,
    {
        self.ttl
    }

    /// Takes note of whether the root is a directory, and returns the
    /// diagnostic to log, if one is due.
    pub fn observe_root(&mut self, is_dir: bool) -> (notice: Option<Notice>)
        ensures
            final(self)@ == observed_root(old(self)@, is_dir),
            notice.deep_view() == root_notice(old(self)@, is_dir),
    {
        if self.enabled.is_some() {
            return None;
        }
        self.enabled = Some(is_dir);
        if is_dir {
            return None;
        }
        let mut text = String::from_str("Cache directory ");
        text.append(self.root.as_str());
        text.append(" is not mounted; caching is disabled");
        proof {
            assert(text@ =~= "Cache directory "@ + self.root@
                + " is not mounted; caching is disabled"@);
        }
        Some(Notice { level: Level::Info, text })
    }

    /// Takes note of the time-to-live setting that the host found, if it
    /// found one.
    pub fn observe_setting(&mut self, setting: Option<&str>)
        ensures
            final(self)@ == observed_setting(
                old(self)@,
                match setting {
                    Some(text) => Some(text@),
                    None => None,
                },
            ),
    {
        if self.ttl.is_none() {
            self.ttl = Some(resolve_ttl(setting));
        }
    }
}

/// The cache after its root was examined several times, one after another.
pub open spec fn observed_roots(cache: CacheState, observations: Seq<bool>) -> CacheState
    decreases observations.len(),
{
    if observations.len() == 0 {
        cache
    } else {
        observed_root(observed_roots(cache, observations.drop_last()), observations.last())
    }
}

/// The cache after the time-to-live setting was looked up several times,
/// one after another.
pub open spec fn observed_settings(
    cache: CacheState,
    settings: Seq<Option<Seq<char>>>,
) -> CacheState
    decreases settings.len(),
{
    if settings.len() == 0 {
        cache
    } else {
        observed_setting(observed_settings(cache, settings.drop_last()), settings.last())
    }
}

/// The first examination of the root decides for good: whatever later
/// examinations find, the cache stays as enabled or disabled as the first
/// one made it.
pub proof fn lemma_first_root_observation_stays(cache: CacheState, first: bool, later: Seq<bool>)
    requires
        cache.enabled is None,
    ensures
        observed_roots(observed_root(cache, first), later) == observed_root(cache, first),
        observed_roots(observed_root(cache, first), later).enabled == Some(first),
    decreases later.len(),
{
    if later.len() > 0 {
        lemma_first_root_observation_stays(cache, first, later.drop_last());
    }
}

/// A missing root is announced once: after the root was examined, no later
/// examination has anything to announce.
pub proof fn lemma_root_is_announced_once(cache: CacheState, first: bool, later: bool)
    ensures
        root_notice(observed_root(cache, first), later) is None,
{
}

/// The first lookup of the setting decides for good: the time-to-live it
/// resolved to is not changed by what later lookups find.
pub proof fn lemma_first_setting_stays(
    cache: CacheState,
    first: Option<Seq<char>>,
    later: Seq<Option<Seq<char>>>,
)
    requires
        cache.ttl is None,
    ensures
        observed_settings(observed_setting(cache, first), later) == observed_setting(cache, first),
        observed_settings(observed_setting(cache, first), later).ttl == Some(
            ttl_of_days(resolved_days(first)),
        ),
    decreases later.len(),
{
    if later.len() > 0 {
        lemma_first_setting_stays(cache, first, later.drop_last());
    }
}

} // verus!
