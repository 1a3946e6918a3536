//! Storing a result.
//!
//! A put is best effort. Whatever goes wrong ends it with a warning for the
//! log and nothing else: the caller's own answer does not depend on it.
use crate::cache::Cache;
use crate::cache::CacheState;
use crate::cache::enabled_in;
use crate::cache::observed_root;
use crate::fingerprint::args_hash;
use crate::fingerprint::CacheArgs;
use crate::key::cache_key;
use crate::key::cache_path_in;
use crate::notice::Notice;
use crate::notice::NoticeModel;
use crate::store::serialize_failure;
use crate::store::serialize_failure_notice;
use crate::store::Serialized;
use crate::store::SerializedModel;
use crate::store::write_failure;
use crate::store::write_failure_notice;
use crate::store::Written;
use crate::store::WrittenModel;
use vstd::prelude::*;

verus! {

/// What the host has observed so far while it carries out a put.
#[derive(Debug)]
pub struct PutSeen {
    /// What serializing the result gave, once it was serialized.
    pub serialized: Option<Serialized>,
    /// What writing the entry gave, once it was written.
    pub written: Option<Written>,
}

/// A [`PutSeen`] as a mathematical value.
pub struct PutSeenModel {
    pub serialized: Option<SerializedModel>,
    pub written: Option<WrittenModel>,
}

impl DeepView for PutSeen {
    type V = PutSeenModel;

    open spec fn deep_view(&self) -> PutSeenModel {
        PutSeenModel {
            serialized: self.serialized.deep_view(),
            written: self.written.deep_view(),
        }
    }
}

/// The next step of a put.
#[derive(Debug)]
pub enum PutStep {
    /// Examine the root, hand the answer to [`Cache::observe_root`], and ask
    /// again.
    Probe,
    /// Serialize the result, and ask again with what that gave.
    Serialize,
    /// Replace the file at `path` by one that holds `text`, and ask again
    /// with what that gave.
    Write { path: String, text: String },
    /// The put is over. It changes nothing for the caller; where it went
    /// wrong there is a warning to log.
    Done(Option<Notice>),
}

/// A [`PutStep`] as a mathematical value.
pub enum PutStepModel {
    Probe,
    Serialize,
    Write { path: Seq<char>, text: Seq<char> },
    Done(Option<NoticeModel>),
}

impl DeepView for PutStep {
    type V = PutStepModel;

    open spec fn deep_view(&self) -> PutStepModel {
        match self {
            PutStep::Probe => PutStepModel::Probe,
            PutStep::Serialize => PutStepModel::Serialize,
            PutStep::Write { path, text } => PutStepModel::Write { path: path@, text: text@ },
            PutStep::Done(notice) => PutStepModel::Done(notice.deep_view()),
        }
    }
}

/// The next step of a put for the entry with the key `key` in `cache`,
/// given what the host has observed.
///
/// A cache that is not enabled does nothing. An enabled one has the result
/// serialized and the text written under the key. A result that cannot be
/// serialized is not written; that, and a write that fails, ends the put
/// with a warning.
pub open spec fn put_step(cache: CacheState, key: Seq<char>, seen: PutSeenModel) -> PutStepModel {
    match cache.enabled {
        None => PutStepModel::Probe,
        Some(false) => PutStepModel::Done(None),
        Some(true) => match seen.serialized {
            None => PutStepModel::Serialize,
            Some(SerializedModel::Failed) => PutStepModel::Done(Some(serialize_failure())),
            Some(SerializedModel::Text(text)) => match seen.written {
                None => PutStepModel::Write { path: key, text },
                Some(WrittenModel::Stored) => PutStepModel::Done(None),
                Some(WrittenModel::Failed(reason)) => PutStepModel::Done(
                    Some(write_failure(key, reason)),
                ),
            },
        },
    }
}

impl Cache {
    /// Stores the result of `tool_name` called with `args`.
    pub fn put<T: CacheArgs>(&self, tool_name: &str, args: &T, seen: &PutSeen) -> (step: PutStep)
        ensures
            step.deep_view() == put_step(
                self@,
                cache_key(self@.root, tool_name@, args_hash(args.fields())),
                seen.deep_view(),
            ),
    {
        match self.is_enabled() {
            None => PutStep::Probe,
            Some(false) => PutStep::Done(None),
            Some(true) => match &seen.serialized {
                None => PutStep::Serialize,
                Some(Serialized::Failed) => PutStep::Done(Some(serialize_failure_notice())),
                Some(Serialized::Text(text)) => {
                    let path = cache_path_in(self.root(), tool_name, args);
                    match &seen.written {
                        None => PutStep::Write { path, text: text.clone() },
                        Some(Written::Stored) => PutStep::Done(None),
                        Some(Written::Failed(reason)) => PutStep::Done(
                            Some(write_failure_notice(path.as_str(), reason.as_str())),
                        ),
                    }
                },
            },
        }
    }
}

/// What the host finds when it does what a put asks for.
pub struct PutWorld {
    /// Whether the cache root is a directory.
    pub root_is_dir: bool,
    /// What serializing the result gives.
    pub serialized: SerializedModel,
    /// What writing the entry gives.
    pub written: WrittenModel,
}

/// The steps of a put from the point where the host has observed `seen`,
/// cut off after `turns` turns of the host.
pub open spec fn put_trace(
    cache: CacheState,
    key: Seq<char>,
    seen: PutSeenModel,
    world: PutWorld,
    turns: nat,
) -> Seq<PutStepModel>
    decreases turns,
{
    let step = put_step(cache, key, seen);
    if turns == 0 {
        seq![step]
    } else {
        let rest = (turns - 1) as nat;
        match step {
            PutStepModel::Probe => seq![step] + put_trace(
                observed_root(cache, world.root_is_dir),
                key,
                seen,
                world,
                rest,
            ),
            PutStepModel::Serialize => seq![step] + put_trace(
                cache,
                key,
                PutSeenModel { serialized: Some(world.serialized), written: seen.written },
                world,
                rest,
            ),
            PutStepModel::Write { .. } => seq![step] + put_trace(
                cache,
                key,
                PutSeenModel { serialized: seen.serialized, written: Some(world.written) },
                world,
                rest,
            ),
            PutStepModel::Done(_) => seq![step],
        }
    }
}

/// The steps a put takes, from the first to its end.
///
/// The root is examined if that has not been done. A cache that is not
/// enabled then ends the put. An enabled one has the result serialized and
/// ends the put with a warning if that fails. Else it has the text written
/// under the key, once, and ends the put: silently if the write went
/// through, with a warning if not.
pub open spec fn put_steps(cache: CacheState, key: Seq<char>, world: PutWorld) -> Seq<
    PutStepModel,
> {
    let probe = if cache.enabled is None {
        seq![PutStepModel::Probe]
    } else {
        seq![]
    };
    if !enabled_in(cache, world.root_is_dir) {
        probe + seq![PutStepModel::Done(None)]
    } else {
        match world.serialized {
            SerializedModel::Failed => probe + seq![
                PutStepModel::Serialize,
                PutStepModel::Done(Some(serialize_failure())),
            ],
            SerializedModel::Text(text) => probe + seq![
                PutStepModel::Serialize,
                PutStepModel::Write { path: key, text },
                PutStepModel::Done(
                    match world.written {
                        WrittenModel::Stored => None,
                        WrittenModel::Failed(reason) => Some(write_failure(key, reason)),
                    },
                ),
            ],
        }
    }
}

/// A put is over after at most three turns of the host, and its steps are
/// exactly [`put_steps`].
pub proof fn lemma_put_runs_to_its_end(cache: CacheState, key: Seq<char>, world: PutWorld)
    ensures
        put_trace(cache, key, PutSeenModel { serialized: None, written: None }, world, 3)
            == put_steps(cache, key, world),
{
    reveal_with_fuel(put_trace, 4);
    assert(put_trace(cache, key, PutSeenModel { serialized: None, written: None }, world, 3)
        =~= put_steps(cache, key, world));
}

} // verus!
