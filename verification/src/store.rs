//! The entry store as the cache sees it: what the host found when it read,
//! wrote or removed entries, and what the cache makes of it.
//!
//! The store itself is a directory that only the host touches. Every failure
//! of it is data here: an entry that cannot be read is a miss, a write that
//! fails is a warning for the log, and a removal that fails is one line of
//! the report of a clear, which goes on with the remaining entries.
use crate::entry::is_cache_entry;
use crate::entry::is_entry_name;
use crate::entry::path_in;
use crate::key::entry_path;
use crate::notice::Level;
use crate::notice::Notice;
use crate::notice::NoticeModel;
use vstd::prelude::*;
use vstd::string::StringExecFns;

verus! {

/// What reading an entry gave.
#[derive(Debug)]
pub enum EntryRead<P> {
    /// The file is missing or could not be read as text.
    Unreadable,
    /// The text is not a stored result: it is empty, is no JSON, or has
    /// another shape.
    Malformed,
    /// The result that the text holds.
    Payload(P),
}

/// The result that a read entry stands for: any entry that is unreadable or
/// malformed counts as absent.
pub open spec fn payload_of<P>(read: EntryRead<P>) -> Option<P> {
    match read {
        EntryRead::Payload(payload) => Some(payload),
        _ => None,
    }
}

/// What serializing a result gave.
#[derive(Debug)]
pub enum Serialized {
    /// The result could not be serialized.
    Failed,
    /// The text that stands for the result.
    Text(String),
}

/// A [`Serialized`] as a mathematical value.
pub enum SerializedModel {
    Failed,
    Text(Seq<char>),
}

impl DeepView for Serialized {
    type V = SerializedModel;

    open spec fn deep_view(&self) -> SerializedModel {
        match self {
            Serialized::Failed => SerializedModel::Failed,
            Serialized::Text(text) => SerializedModel::Text(text@),
        }
    }
}

/// What writing an entry gave.
#[derive(Debug)]
pub enum Written {
    /// The entry now holds the text.
    Stored,
    /// The write failed; the text says why.
    Failed(String),
}

/// A [`Written`] as a mathematical value.
pub enum WrittenModel {
    Stored,
    Failed(Seq<char>),
}

impl DeepView for Written {
    type V = WrittenModel;

    open spec fn deep_view(&self) -> WrittenModel {
        match self {
            Written::Stored => WrittenModel::Stored,
            Written::Failed(reason) => WrittenModel::Failed(reason@),
        }
    }
}

/// The warning for a result that could not be serialized.
pub open spec fn serialize_failure() -> NoticeModel {
    NoticeModel { level: Level::Warning, text: "Failed to serialize cache entry"@ }
}

/// The warning for a write that failed: it names the path and the failure.
pub open spec fn write_failure(path: Seq<char>, reason: Seq<char>) -> NoticeModel {
    NoticeModel {
        level: Level::Warning,
        text: "Failed to write cache file "@ + path + ": "@ + reason,
    }
}

/// Makes the warning for a result that could not be serialized.
pub fn serialize_failure_notice() -> (notice: Notice)
    ensures
        notice.deep_view() == serialize_failure(),
{
    Notice { level: Level::Warning, text: String::from_str("Failed to serialize cache entry") }
}

/// Makes the warning for a write to `path` that failed for `reason`.
pub fn write_failure_notice(path: &str, reason: &str) -> (notice: Notice)
    ensures
        notice.deep_view() == write_failure(path@, reason@),
{
    let mut text = String::from_str("Failed to write cache file ");
    text.append(path);
    text.append(": ");
    text.append(reason);
    proof {
        assert(text@ =~= "Failed to write cache file "@ + path@ + ": "@ + reason@);
    }
    Notice { level: Level::Warning, text }
}

/// What listing the cache root gave.
#[derive(Debug)]
pub enum Listing {
    /// The root could not be listed; the text says why.
    Failed(String),
    /// The names of the root's direct entries, in the order they were found.
    Names(Vec<String>),
}

/// A [`Listing`] as a mathematical value.
pub enum ListingModel {
    Failed(Seq<char>),
    Names(Seq<Seq<char>>),
}

impl DeepView for Listing {
    type V = ListingModel;

    open spec fn deep_view(&self) -> ListingModel {
        match self {
            Listing::Failed(reason) => ListingModel::Failed(reason@),
            Listing::Names(names) => ListingModel::Names(names.deep_view()),
        }
    }
}

/// What removing one entry gave.
#[derive(Debug)]
pub struct Removal {
    /// The path of the entry.
    pub path: String,
    /// Nothing where the entry was removed; else the text of the failure.
    pub error: Option<String>,
}

/// A [`Removal`] as a mathematical value.
pub struct RemovalModel {
    pub path: Seq<char>,
    pub error: Option<Seq<char>>,
}

impl DeepView for Removal {
    type V = RemovalModel;

    open spec fn deep_view(&self) -> RemovalModel {
        RemovalModel { path: self.path@, error: self.error.deep_view() }
    }
}

/// The paths of the cache entries among the files called `names` in `root`:
/// one for each name that is an entry's, in the order of the names.
pub open spec fn entry_paths(root: Seq<char>, names: Seq<Seq<char>>) -> Seq<Seq<char>>
    decreases names.len(),
{
    if names.len() == 0 {
        Seq::empty()
    } else if is_entry_name(names.last()) {
        entry_paths(root, names.drop_last()).push(entry_path(root, names.last()))
    } else {
        entry_paths(root, names.drop_last())
    }
}

/// The number of entries that were removed.
pub open spec fn removed_count(removals: Seq<RemovalModel>) -> nat
    decreases removals.len(),
{
    if removals.len() == 0 {
        0
    } else if removals.last().error is None {
        removed_count(removals.drop_last()) + 1
    } else {
        removed_count(removals.drop_last())
    }
}

/// The line that reports one failed removal: the path, then the failure.
pub open spec fn removal_error(path: Seq<char>, reason: Seq<char>) -> Seq<char> {
    path + ": "@ + reason
}

/// The lines that report the failed removals, one for each, in order.
pub open spec fn removal_errors(removals: Seq<RemovalModel>) -> Seq<Seq<char>>
    decreases removals.len(),
{
    if removals.len() == 0 {
        Seq::empty()
    } else {
        match removals.last().error {
            Some(reason) => removal_errors(removals.drop_last()).push(
                removal_error(removals.last().path, reason),
            ),
            None => removal_errors(removals.drop_last()),
        }
    }
}

/// Picks the cache entries among the files called `names` in `root` and
/// returns their paths, in the order of the names.
pub fn entries_to_remove(root: &str, names: &Vec<String>) -> (paths: Vec<String>)
    ensures
        paths.deep_view() == entry_paths(root@, names.deep_view()),
{
    let mut paths: Vec<String> = Vec::new();
    let mut i: usize = 0;
    while i < names.len()
        invariant
            i <= names.len(),
            paths.deep_view() == entry_paths(root@, names.deep_view().take(i as int)),
        decreases names.len() - i,
    {
        let ghost seen = names.deep_view().take(i as int);
        let ghost next = names.deep_view().take(i + 1);
        let ghost before = paths.deep_view();
        proof {
            assert(next.drop_last() =~= seen);
            assert(next.last() == names[i as int]@);
        }
        if is_cache_entry(names[i].as_str()) {
            let path = path_in(root, names[i].as_str());
            paths.push(path);
            proof {
                assert(paths.deep_view() =~= before.push(entry_path(root@, names[i as int]@)));
            }
        }
        i += 1;
    }
    proof {
        assert(names.deep_view().take(names.len() as int) =~= names.deep_view());
    }
    paths
}

/// Counts the entries that were removed and collects one line for each
/// removal that failed. A failure stops nothing: every removal is counted
/// or reported.
pub fn tally_removals(removals: &Vec<Removal>) -> (tally: (u64, Vec<String>))
    ensures
        tally.0 == removed_count(removals.deep_view()),
        tally.1.deep_view() == removal_errors(removals.deep_view()),
{
    let mut removed: u64 = 0;
    let mut errors: Vec<String> = Vec::new();
    let mut i: usize = 0;
    while i < removals.len()
        invariant
            i <= removals.len(),
            removed <= i,
            removed == removed_count(removals.deep_view().take(i as int)),
            errors.deep_view() == removal_errors(removals.deep_view().take(i as int)),
        decreases removals.len() - i,
    {
        let ghost seen = removals.deep_view().take(i as int);
        let ghost next = removals.deep_view().take(i + 1);
        let ghost before = errors.deep_view();
        proof {
            assert(next.drop_last() =~= seen);
            assert(next.last() == removals[i as int].deep_view());
        }
        match &removals[i].error {
            None => {
                removed += 1;
            },
            Some(reason) => {
                let mut line = String::from_str(removals[i].path.as_str());
                line.append(": ");
                line.append(reason.as_str());
                proof {
                    assert(line@ =~= removal_error(removals[i as int].path@, reason@));
                }
                errors.push(line);
                proof {
                    assert(errors.deep_view() =~= before.push(
                        removal_error(removals[i as int].path@, reason@),
                    ));
                }
            },
        }
        i += 1;
    }
    proof {
        assert(removals.deep_view().take(removals.len() as int) =~= removals.deep_view());
    }
    (removed, errors)
}

/// Every removal is either counted as done or reported as failed.
pub proof fn lemma_every_removal_is_accounted_for(removals: Seq<RemovalModel>)
    ensures
        removed_count(removals) + removal_errors(removals).len() == removals.len(),
    decreases removals.len(),
{
    if removals.len() > 0 {
        lemma_every_removal_is_accounted_for(removals.drop_last());
    }
}

} // verus!
