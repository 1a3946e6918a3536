//! Clearing the cache: the one operation a user asks for by name.
//!
//! A clear removes every entry from the cache root and leaves the other
//! files alone. It does not stop at a removal that fails: it removes what it
//! can and reports every failure.
use crate::cache::Cache;
use crate::cache::CacheState;
use crate::cache::enabled_in;
use crate::cache::observed_root;
use crate::notice::OperationModel;
use crate::notice::OperationResult;
use crate::store::entries_to_remove;
use crate::store::entry_paths;
use crate::store::lemma_every_removal_is_accounted_for;
use crate::store::Listing;
use crate::store::ListingModel;
use crate::store::Removal;
use crate::store::removal_errors;
use crate::store::RemovalModel;
use crate::store::removed_count;
use crate::store::tally_removals;
use crate::text::decimal;
use crate::text::joined;
use crate::text::push_decimal;
use crate::text::push_joined;
use vstd::prelude::*;
use vstd::string::StringExecFns;

verus! {

/// What the host has observed so far while it carries out a clear.
#[derive(Debug)]
pub struct ClearSeen {
    /// What listing the root gave, once it was listed.
    pub listing: Option<Listing>,
    /// What removing the entries gave, once they were removed: one item for
    /// each path of the step that asked for it, in that order.
    pub removals: Option<Vec<Removal>>,
}

/// A [`ClearSeen`] as a mathematical value.
pub struct ClearSeenModel {
    pub listing: Option<ListingModel>,
    pub removals: Option<Seq<RemovalModel>>,
}

impl DeepView for ClearSeen {
    type V = ClearSeenModel;

    open spec fn deep_view(&self) -> ClearSeenModel {
        ClearSeenModel {
            listing: self.listing.deep_view(),
            removals: self.removals.deep_view(),
        }
    }
}

/// The next step of a clear.
#[derive(Debug)]
pub enum ClearStep {
    /// Examine the root, hand the answer to [`Cache::observe_root`], and ask
    /// again.
    Probe,
    /// List the direct entries of `root`, and ask again with the listing.
    List { root: String },
    /// Remove each of `paths`, going on after a failure, and ask again with
    /// what each removal gave.
    Remove { paths: Vec<String> },
    /// The clear is over, with this result.
    Done(OperationResult),
}

/// A [`ClearStep`] as a mathematical value.
pub enum ClearStepModel {
    Probe,
    List { root: Seq<char> },
    Remove { paths: Seq<Seq<char>> },
    Done(OperationModel),
}

impl DeepView for ClearStep {
    type V = ClearStepModel;

    open spec fn deep_view(&self) -> ClearStepModel {
        match self {
            ClearStep::Probe => ClearStepModel::Probe,
            ClearStep::List { root } => ClearStepModel::List { root: root@ },
            ClearStep::Remove { paths } => ClearStepModel::Remove { paths: paths.deep_view() },
            ClearStep::Done(result) => ClearStepModel::Done(result.deep_view()),
        }
    }
}

/// The result of a clear in a cache that is not enabled: a success that
/// says so.
pub open spec fn not_enabled_result() -> OperationModel {
    OperationModel { is_error: false, message: "Cache is not enabled (directory not mounted)"@ }
}

/// The result of a clear whose root could not be listed.
pub open spec fn listing_failure(reason: Seq<char>) -> OperationModel {
    OperationModel { is_error: true, message: "Failed to read cache directory: "@ + reason }
}

/// The result of a clear that removed what it could.
///
/// It is a success that names the number of removed entries if every
/// removal went through. Otherwise it is a failure that names the number of
/// failed removals and lists them all, path and reason, separated by `"; "`.
pub open spec fn clear_report(removals: Seq<RemovalModel>) -> OperationModel {
    let errors = removal_errors(removals);
    if errors.len() == 0 {
        OperationModel {
            is_error: false,
            message: "Cache cleared successfully ("@ + decimal(removed_count(removals))
                + " entries removed)"@,
        }
    } else {
        OperationModel {
            is_error: true,
            message: "Failed to remove "@ + decimal(errors.len()) + " cache entries: "@ + joined(
                errors,
                "; "@,
            ),
        }
    }
}

/// The next step of a clear in `cache`, given what the host has observed.
pub open spec fn clear_step(cache: CacheState, seen: ClearSeenModel) -> ClearStepModel {
    match cache.enabled {
        None => ClearStepModel::Probe,
        Some(false) => ClearStepModel::Done(not_enabled_result()),
        Some(true) => match seen.listing {
            None => ClearStepModel::List { root: cache.root },
            Some(ListingModel::Failed(reason)) => ClearStepModel::Done(listing_failure(reason)),
            Some(ListingModel::Names(names)) => match seen.removals {
                None => ClearStepModel::Remove { paths: entry_paths(cache.root, names) },
                Some(removals) => ClearStepModel::Done(clear_report(removals)),
            },
        },
    }
}

/// Makes the result of a clear from what removing the entries gave.
pub fn report_clear(removals: &Vec<Removal>) -> (result: OperationResult)
    ensures
        result.deep_view() == clear_report(removals.deep_view()),
{
    let (removed, errors) = tally_removals(removals);
    if errors.len() == 0 {
        let mut message = String::from_str("Cache cleared successfully (");
        push_decimal(&mut message, removed);
        message.append(" entries removed)");
        proof {
            assert(message@ =~= "Cache cleared successfully ("@ + decimal(removed as nat)
                + " entries removed)"@);
        }
        OperationResult::success(message)
    } else {
        let mut message = String::from_str("Failed to remove ");
        push_decimal(&mut message, errors.len() as u64);
        message.append(" cache entries: ");
        push_joined(&mut message, &errors, "; ");
        proof {
            assert(errors.deep_view().len() == errors.len());
            assert(message@ =~= "Failed to remove "@ + decimal(errors.len() as nat)
                + " cache entries: "@ + joined(errors.deep_view(), "; "@));
        }
        OperationResult::error(message)
    }
}

impl Cache {
    /// Clears the cache: removes every entry from the root and reports how
    /// that went.
    ///
    /// A cache that is not enabled touches nothing and says so. An enabled
    /// one has the root listed, has the entries among the listed files
    /// removed, and reports either the number removed or every removal
    /// that failed.
    pub fn clear(&self, seen: &ClearSeen) -> (step: ClearStep)
        ensures
            step.deep_view() == clear_step(self@, seen.deep_view()),
    {
        match self.is_enabled() {
            None => ClearStep::Probe,
            Some(false) => ClearStep::Done(
                OperationResult::success(
                    String::from_str("Cache is not enabled (directory not mounted)"),
                ),
            ),
            Some(true) => match &seen.listing {
                None => ClearStep::List { root: String::from_str(self.root()) },
                Some(Listing::Failed(reason)) => {
                    let mut message = String::from_str("Failed to read cache directory: ");
                    message.append(reason.as_str());
                    ClearStep::Done(OperationResult::error(message))
                },
                Some(Listing::Names(names)) => match &seen.removals {
                    None => ClearStep::Remove {
                        paths: entries_to_remove(self.root(), names),
                    },
                    Some(removals) => ClearStep::Done(report_clear(removals)),
                },
            },
        }
    }
}

/// A clear fails exactly if some removal failed, and its message then
/// counts the failures; else it counts the removed entries, which are all
/// the entries it was given.
pub proof fn lemma_clear_fails_only_on_a_failed_removal(removals: Seq<RemovalModel>)
    ensures
        clear_report(removals).is_error <==> exists|i: int|
            0 <= i < removals.len() && (#[trigger] removals[i]).error is Some,
        !clear_report(removals).is_error ==> removed_count(removals) == removals.len(),
{
    lemma_failed_removals_are_reported(removals);
    lemma_every_removal_is_accounted_for(removals);
}

proof fn lemma_failed_removals_are_reported(removals: Seq<RemovalModel>)
    ensures
        removal_errors(removals).len() > 0 <==> exists|i: int|
            0 <= i < removals.len() && (#[trigger] removals[i]).error is Some,
    decreases removals.len(),
{
    if removals.len() > 0 {
        let rest = removals.drop_last();
        lemma_failed_removals_are_reported(rest);
        if removal_errors(removals).len() > 0 {
            if removals.last().error is Some {
                assert(removals[removals.len() - 1].error is Some);
            } else {
                let i = choose|i: int| 0 <= i < rest.len() && (#[trigger] rest[i]).error is Some;
                assert(removals[i].error is Some);
            }
        }
        if exists|i: int| 0 <= i < removals.len() && (#[trigger] removals[i]).error is Some {
            let i = choose|i: int|
                0 <= i < removals.len() && (#[trigger] removals[i]).error is Some;
            if i < rest.len() {
                assert(rest[i].error is Some);
            }
        }
    }
}

/// What the host finds when it does what a clear asks for.
pub struct ClearWorld {
    /// Whether the cache root is a directory.
    pub root_is_dir: bool,
    /// What listing the root gives.
    pub listing: ListingModel,
    /// What removing the file at a path gives: nothing if it is removed,
    /// else the text of the failure.
    pub removal: spec_fn(Seq<char>) -> Option<Seq<char>>,
}

/// What removing each of `paths` gives in `world`, in order.
pub open spec fn removals_of(world: ClearWorld, paths: Seq<Seq<char>>) -> Seq<RemovalModel> {
    Seq::new(
        paths.len(),
        |i: int| RemovalModel { path: paths[i], error: (world.removal)(paths[i]) },
    )
}

/// The steps of a clear from the point where the host has observed `seen`,
/// cut off after `turns` turns of the host.
pub open spec fn clear_trace(
    cache: CacheState,
    seen: ClearSeenModel,
    world: ClearWorld,
    turns: nat,
) -> Seq<ClearStepModel>
    decreases turns,
{
    let step = clear_step(cache, seen);
    if turns == 0 {
        seq![step]
    } else {
        let rest = (turns - 1) as nat;
        match step {
            ClearStepModel::Probe => seq![step] + clear_trace(
                observed_root(cache, world.root_is_dir),
                seen,
                world,
                rest,
            ),
            ClearStepModel::List { .. } => seq![step] + clear_trace(
                cache,
                ClearSeenModel { listing: Some(world.listing), removals: seen.removals },
                world,
                rest,
            ),
            ClearStepModel::Remove { paths } => seq![step] + clear_trace(
                cache,
                ClearSeenModel {
                    listing: seen.listing,
                    removals: Some(removals_of(world, paths)),
                },
                world,
                rest,
            ),
            ClearStepModel::Done(_) => seq![step],
        }
    }
}

/// The steps a clear takes, from the first to its result.
///
/// The root is examined if that has not been done. A cache that is not
/// enabled then reports so and lists nothing. An enabled one has the root
/// listed and reports the failure if that fails. Else it has the entries
/// among the listed files removed, all in one step, and reports what
/// removing them gave.
pub open spec fn clear_steps(cache: CacheState, world: ClearWorld) -> Seq<ClearStepModel> {
    let probe = if cache.enabled is None {
        seq![ClearStepModel::Probe]
    } else {
        seq![]
    };
    let list = seq![ClearStepModel::List { root: cache.root }];
    if !enabled_in(cache, world.root_is_dir) {
        probe + seq![ClearStepModel::Done(not_enabled_result())]
    } else {
        match world.listing {
            ListingModel::Failed(reason) => probe + list + seq![
                ClearStepModel::Done(listing_failure(reason)),
            ],
            ListingModel::Names(names) => probe + list + seq![
                ClearStepModel::Remove { paths: entry_paths(cache.root, names) },
                ClearStepModel::Done(
                    clear_report(removals_of(world, entry_paths(cache.root, names))),
                ),
            ],
        }
    }
}

/// A clear is over after at most three turns of the host, and its steps
/// are exactly [`clear_steps`].
pub proof fn lemma_clear_runs_to_its_result(cache: CacheState, world: ClearWorld)
    ensures
        clear_trace(cache, ClearSeenModel { listing: None, removals: None }, world, 3)
            == clear_steps(cache, world),
{
    reveal_with_fuel(clear_trace, 4);
    assert(clear_trace(cache, ClearSeenModel { listing: None, removals: None }, world, 3)
        =~= clear_steps(cache, world));
}

} // verus!
