//! The store in the model, and what the operations do to it.
//!
//! The cache never sees its store: it asks the host, and the host answers.
//! Here the store is a map from paths to files, and the host is one that
//! answers from that map and writes to it as it is told. With such a host
//! the operations are functions on the store, and the laws of the cache can
//! be stated as a user would: what was put is found until it is stale, a put
//! under one key leaves the other keys alone, and a clear leaves no entry
//! behind.
use crate::cache::CacheState;
use crate::cache::enabled_in;
use crate::cache::observed_root;
use crate::cache::observed_setting;
use crate::cache::ttl_in;
use crate::clear::clear_steps;
use crate::clear::ClearStepModel;
use crate::clear::ClearWorld;
use crate::entry::is_entry_name;
use crate::entry::lemma_keys_name_entries;
use crate::fresh::fresh;
use crate::fresh::Timestamp;
use crate::get::get_steps;
use crate::get::GetStepModel;
use crate::get::GetWorld;
use crate::get::Stat;
use crate::key::cache_key;
use crate::key::entry_name;
use crate::key::entry_path;
use crate::key::lemma_keys_match_on_tool_and_hash;
use crate::put::put_steps;
use crate::put::PutStepModel;
use crate::put::PutWorld;
use crate::store::entry_paths;
use crate::store::EntryRead;
use crate::store::ListingModel;
use crate::store::SerializedModel;
use crate::store::WrittenModel;
use vstd::prelude::*;

verus! {

/// A file of the store: the text it holds, and the time of its last write.
pub struct FileModel {
    pub text: Seq<char>,
    pub modified: Timestamp,
}

/// The store: its files by their paths.
pub type Files = Map<Seq<char>, FileModel>;

/// How the host writes a result as text and reads it back.
#[verifier::reject_recursive_types(P)]
pub struct Codec<P> {
    /// The text of a result, or nothing where it cannot be serialized.
    pub encode: spec_fn(P) -> Option<Seq<char>>,
    /// The result a text holds, or nothing where it holds none.
    pub decode: spec_fn(Seq<char>) -> Option<P>,
}

/// Whether a result can be stored: it has a text, and the text reads back
/// as the result.
pub open spec fn storable<P>(codec: Codec<P>, result: P) -> bool {
    match (codec.encode)(result) {
        Some(text) => (codec.decode)(text) == Some(result),
        None => false,
    }
}

/// What is around the cache besides the store: whether the cache root is a
/// directory, and the time-to-live setting.
pub struct Surroundings {
    pub root_is_dir: bool,
    pub setting: Option<Seq<char>>,
}

/// What the host finds for a get of `path` in the store `files` when the
/// clock reads `now`.
pub open spec fn get_world<P>(
    files: Files,
    path: Seq<char>,
    now: Timestamp,
    around: Surroundings,
    codec: Codec<P>,
) -> GetWorld<P> {
    GetWorld {
        root_is_dir: around.root_is_dir,
        setting: around.setting,
        stat: Stat {
            modified: if files.dom().contains(path) {
                Some(files[path].modified)
            } else {
                None
            },
            now,
        },
        read: if files.dom().contains(path) {
            match (codec.decode)(files[path].text) {
                Some(result) => EntryRead::Payload(result),
                None => EntryRead::Malformed,
            }
        } else {
            EntryRead::Unreadable
        },
    }
}

/// What a get ends with.
pub open spec fn answer<P>(steps: Seq<GetStepModel<P>>) -> Option<P> {
    match steps.last() {
        GetStepModel::Hit(result) => Some(result),
        _ => None,
    }
}

/// The answer of a get of `key` in the store `files` when the clock reads
/// `now`.
pub open spec fn get_in<P>(
    cache: CacheState,
    key: Seq<char>,
    files: Files,
    now: Timestamp,
    around: Surroundings,
    codec: Codec<P>,
) -> Option<P> {
    answer(get_steps(cache, key, get_world(files, key, now, around, codec)))
}

/// What the host finds for a put of `result`, where the store takes the
/// write or refuses it.
pub open spec fn put_world<P>(
    result: P,
    written: WrittenModel,
    around: Surroundings,
    codec: Codec<P>,
) -> PutWorld {
    PutWorld {
        root_is_dir: around.root_is_dir,
        serialized: match (codec.encode)(result) {
            Some(text) => SerializedModel::Text(text),
            None => SerializedModel::Failed,
        },
        written,
    }
}

/// The store after the host has carried out one step of a put at the time
/// `now`: a write that the store takes replaces the file at its path.
pub open spec fn files_after_put_step(
    files: Files,
    step: PutStepModel,
    written: WrittenModel,
    now: Timestamp,
) -> Files {
    match step {
        PutStepModel::Write { path, text } => if written is Stored {
            files.insert(path, FileModel { text, modified: now })
        } else {
            files
        },
        _ => files,
    }
}

/// The store after the host has carried out the steps of a put.
pub open spec fn files_after_put_steps(
    files: Files,
    steps: Seq<PutStepModel>,
    written: WrittenModel,
    now: Timestamp,
) -> Files
    decreases steps.len(),
{
    if steps.len() == 0 {
        files
    } else {
        files_after_put_step(
            files_after_put_steps(files, steps.drop_last(), written, now),
            steps.last(),
            written,
            now,
        )
    }
}

/// The store after a put of `result` under `key` at the time `now`.
pub open spec fn put_in<P>(
    cache: CacheState,
    key: Seq<char>,
    files: Files,
    now: Timestamp,
    result: P,
    written: WrittenModel,
    around: Surroundings,
    codec: Codec<P>,
) -> Files {
    files_after_put_steps(
        files,
        put_steps(cache, key, put_world(result, written, around, codec)),
        written,
        now,
    )
}

/// A put changes the store in one case only: the cache is enabled, the
/// result has a text, and the store takes the write. The file under the
/// key then holds that text and the time of the put; every other file
/// stays as it was.
pub proof fn lemma_put_writes_one_file<P>(
    cache: CacheState,
    key: Seq<char>,
    files: Files,
    now: Timestamp,
    result: P,
    written: WrittenModel,
    around: Surroundings,
    codec: Codec<P>,
)
    ensures
        put_in(cache, key, files, now, result, written, around, codec) == if enabled_in(
            cache,
            around.root_is_dir,
        ) && (codec.encode)(result) is Some && written is Stored {
            files.insert(key, FileModel { text: (codec.encode)(result)->0, modified: now })
        } else {
            files
        },
{
    let steps = put_steps(cache, key, put_world(result, written, around, codec));
    lemma_put_steps_unfold(files, steps, written, now);
}

proof fn lemma_put_steps_unfold(
    files: Files,
    steps: Seq<PutStepModel>,
    written: WrittenModel,
    now: Timestamp,
)
    requires
        steps.len() <= 4,
    ensures
        steps.len() == 1 ==> files_after_put_steps(files, steps, written, now)
            == files_after_put_step(files, steps[0], written, now),
        steps.len() == 2 ==> files_after_put_steps(files, steps, written, now)
            == files_after_put_step(
            files_after_put_step(files, steps[0], written, now),
            steps[1],
            written,
            now,
        ),
        steps.len() == 3 ==> files_after_put_steps(files, steps, written, now)
            == files_after_put_step(
            files_after_put_step(
                files_after_put_step(files, steps[0], written, now),
                steps[1],
                written,
                now,
            ),
            steps[2],
            written,
            now,
        ),
        steps.len() == 4 ==> files_after_put_steps(files, steps, written, now)
            == files_after_put_step(
            files_after_put_step(
                files_after_put_step(
                    files_after_put_step(files, steps[0], written, now),
                    steps[1],
                    written,
                    now,
                ),
                steps[2],
                written,
                now,
            ),
            steps[3],
            written,
            now,
        ),
    decreases steps.len(),
{
    reveal_with_fuel(files_after_put_steps, 2);
    if steps.len() > 0 {
        lemma_put_steps_unfold(files, steps.drop_last(), written, now);
    }
}

/// The answer of a get does not depend on when the cache has learned what
/// it knows: it is the same before and after the root was examined and the
/// setting was looked up in the same surroundings.
pub proof fn lemma_learning_changes_no_answer<P>(
    cache: CacheState,
    key: Seq<char>,
    files: Files,
    now: Timestamp,
    around: Surroundings,
    codec: Codec<P>,
)
    ensures
        get_in(observed_root(cache, around.root_is_dir), key, files, now, around, codec) == get_in(
            cache,
            key,
            files,
            now,
            around,
            codec,
        ),
        get_in(observed_setting(cache, around.setting), key, files, now, around, codec) == get_in(
            cache,
            key,
            files,
            now,
            around,
            codec,
        ),
{
}

/// The answer of a get: the result that the file under the key holds, if
/// the cache is enabled, there is such a file, it is fresh, and it holds a
/// result. In every other case the get misses.
pub proof fn lemma_get_answers_from_the_store<P>(
    cache: CacheState,
    key: Seq<char>,
    files: Files,
    now: Timestamp,
    around: Surroundings,
    codec: Codec<P>,
)
    ensures
        get_in(cache, key, files, now, around, codec) == if enabled_in(cache, around.root_is_dir)
            && files.dom().contains(key) && fresh(
            Some(files[key].modified),
            now,
            ttl_in(cache, around.setting),
        ) {
            (codec.decode)(files[key].text)
        } else {
            None
        },
{
}

/// What was put is found until it is stale.
///
/// A result that can be stored is put under a key at some time, in an
/// enabled cache whose store takes the write. A get of the same key
/// `delay` nanoseconds later answers with that very result if `delay` is
/// less than the time-to-live, and misses if it is not.
pub proof fn lemma_what_was_put_is_found<P>(
    cache: CacheState,
    key: Seq<char>,
    files: Files,
    put_at: Timestamp,
    delay: nat,
    get_at: Timestamp,
    result: P,
    around: Surroundings,
    codec: Codec<P>,
)
    requires
        enabled_in(cache, around.root_is_dir),
        storable(codec, result),
        get_at.nanos == put_at.nanos + delay,
    ensures
        get_in(
            cache,
            key,
            put_in(cache, key, files, put_at, result, WrittenModel::Stored, around, codec),
            get_at,
            around,
            codec,
        ) == if delay < ttl_in(cache, around.setting).nanos {
            Some(result)
        } else {
            None
        },
{
    lemma_put_writes_one_file(cache, key, files, put_at, result, WrittenModel::Stored, around, codec);
}

/// The last put wins: of two puts under one key, a get finds the result of
/// the later one.
pub proof fn lemma_last_put_wins<P>(
    cache: CacheState,
    key: Seq<char>,
    files: Files,
    first_at: Timestamp,
    first: P,
    second_at: Timestamp,
    second: P,
    around: Surroundings,
    codec: Codec<P>,
)
    requires
        enabled_in(cache, around.root_is_dir),
        storable(codec, second),
        0 < ttl_in(cache, around.setting).nanos,
    ensures
        get_in(
            cache,
            key,
            put_in(
                cache,
                key,
                put_in(cache, key, files, first_at, first, WrittenModel::Stored, around, codec),
                second_at,
                second,
                WrittenModel::Stored,
                around,
                codec,
            ),
            second_at,
            around,
            codec,
        ) == Some(second),
{
    let between = put_in(cache, key, files, first_at, first, WrittenModel::Stored, around, codec);
    lemma_put_writes_one_file(
        cache,
        key,
        between,
        second_at,
        second,
        WrittenModel::Stored,
        around,
        codec,
    );
}

/// A put under one key leaves the other keys alone: what a get of another
/// key answers is the same before the put and after it.
pub proof fn lemma_put_leaves_other_keys<P>(
    cache: CacheState,
    key: Seq<char>,
    other: Seq<char>,
    files: Files,
    put_at: Timestamp,
    get_at: Timestamp,
    result: P,
    written: WrittenModel,
    around: Surroundings,
    codec: Codec<P>,
)
    requires
        other != key,
    ensures
        get_in(
            cache,
            other,
            put_in(cache, key, files, put_at, result, written, around, codec),
            get_at,
            around,
            codec,
        ) == get_in(cache, other, files, get_at, around, codec),
{
    lemma_put_writes_one_file(cache, key, files, put_at, result, written, around, codec);
}

/// Tools do not see each other's entries: a put for one tool changes no
/// answer for another tool, whatever the arguments of the two are.
pub proof fn lemma_put_leaves_other_tools<P>(
    cache: CacheState,
    tool: Seq<char>,
    hash: u64,
    other_tool: Seq<char>,
    other_hash: u64,
    files: Files,
    put_at: Timestamp,
    get_at: Timestamp,
    result: P,
    written: WrittenModel,
    around: Surroundings,
    codec: Codec<P>,
)
    requires
        other_tool != tool,
    ensures
        get_in(
            cache,
            cache_key(cache.root, other_tool, other_hash),
            put_in(
                cache,
                cache_key(cache.root, tool, hash),
                files,
                put_at,
                result,
                written,
                around,
                codec,
            ),
            get_at,
            around,
            codec,
        ) == get_in(
            cache,
            cache_key(cache.root, other_tool, other_hash),
            files,
            get_at,
            around,
            codec,
        ),
{
    lemma_keys_match_on_tool_and_hash(cache.root, tool, hash, other_tool, other_hash);
    lemma_put_leaves_other_keys(
        cache,
        cache_key(cache.root, tool, hash),
        cache_key(cache.root, other_tool, other_hash),
        files,
        put_at,
        get_at,
        result,
        written,
        around,
        codec,
    );
}

/// The store after the host has carried out one step of a clear: of the
/// paths it is asked to remove, those are gone whose removal goes through.
pub open spec fn files_after_clear_step(
    files: Files,
    step: ClearStepModel,
    world: ClearWorld,
) -> Files {
    match step {
        ClearStepModel::Remove { paths } => files.remove_keys(
            Set::new(|path: Seq<char>| paths.contains(path) && (world.removal)(path) is None),
        ),
        _ => files,
    }
}

/// The store after the host has carried out the steps of a clear.
pub open spec fn files_after_clear_steps(
    files: Files,
    steps: Seq<ClearStepModel>,
    world: ClearWorld,
) -> Files
    decreases steps.len(),
{
    if steps.len() == 0 {
        files
    } else {
        files_after_clear_step(
            files_after_clear_steps(files, steps.drop_last(), world),
            steps.last(),
            world,
        )
    }
}

/// The store after a clear.
pub open spec fn clear_in(cache: CacheState, files: Files, world: ClearWorld) -> Files {
    files_after_clear_steps(files, clear_steps(cache, world), world)
}

/// Whether the names tell every file that lies directly in the root.
pub open spec fn lists_the_root(files: Files, root: Seq<char>, names: Seq<Seq<char>>) -> bool {
    forall|name: Seq<char>| #[trigger]
        files.dom().contains(entry_path(root, name)) ==> names.contains(name)
}

/// A clear changes the store in one case only: the cache is enabled and
/// its root can be listed. Then the entries among the listed files are gone,
/// as far as their removal goes through; every other file stays as it was.
pub proof fn lemma_clear_removes_the_listed_entries(
    cache: CacheState,
    files: Files,
    world: ClearWorld,
)
    ensures
        clear_in(cache, files, world) == match world.listing {
            ListingModel::Names(names) => if enabled_in(cache, world.root_is_dir) {
                files.remove_keys(
                    Set::new(
                        |path: Seq<char>|
                            entry_paths(cache.root, names).contains(path) && (world.removal)(path)
                                is None,
                    ),
                )
            } else {
                files
            },
            ListingModel::Failed(_) => files,
        },
{
    lemma_clear_steps_unfold(files, clear_steps(cache, world), world);
}

proof fn lemma_clear_steps_unfold(files: Files, steps: Seq<ClearStepModel>, world: ClearWorld)
    requires
        steps.len() <= 4,
    ensures
        steps.len() == 1 ==> files_after_clear_steps(files, steps, world)
            == files_after_clear_step(files, steps[0], world),
        steps.len() == 2 ==> files_after_clear_steps(files, steps, world)
            == files_after_clear_step(files_after_clear_step(files, steps[0], world), steps[1], world),
        steps.len() == 3 ==> files_after_clear_steps(files, steps, world)
            == files_after_clear_step(
            files_after_clear_step(files_after_clear_step(files, steps[0], world), steps[1], world),
            steps[2],
            world,
        ),
        steps.len() == 4 ==> files_after_clear_steps(files, steps, world)
            == files_after_clear_step(
            files_after_clear_step(
                files_after_clear_step(
                    files_after_clear_step(files, steps[0], world),
                    steps[1],
                    world,
                ),
                steps[2],
                world,
            ),
            steps[3],
            world,
        ),
    decreases steps.len(),
{
    reveal_with_fuel(files_after_clear_steps, 2);
    if steps.len() > 0 {
        lemma_clear_steps_unfold(files, steps.drop_last(), world);
    }
}

/// The paths a clear asks to remove are those of the listed entries, and
/// no others.
pub proof fn lemma_entry_paths_are_the_listed_entries(
    root: Seq<char>,
    names: Seq<Seq<char>>,
    path: Seq<char>,
)
    ensures
        entry_paths(root, names).contains(path) <==> exists|i: int|
            0 <= i < names.len() && is_entry_name(#[trigger] names[i]) && path == entry_path(
                root,
                names[i],
            ),
    decreases names.len(),
{
    if names.len() > 0 {
        let rest = names.drop_last();
        let last = names.last();
        lemma_entry_paths_are_the_listed_entries(root, rest, path);
        let paths = entry_paths(root, names);
        let before = entry_paths(root, rest);
        if paths.contains(path) {
            let at = choose|at: int| 0 <= at < paths.len() && paths[at] == path;
            if is_entry_name(last) && at == before.len() {
                assert(names[names.len() - 1] == last);
            } else {
                assert(before[at] == path);
                let i = choose|i: int|
                    0 <= i < rest.len() && is_entry_name(#[trigger] rest[i]) && path == entry_path(
                        root,
                        rest[i],
                    );
                assert(names[i] == rest[i]);
            }
        }
        if exists|i: int|
            0 <= i < names.len() && is_entry_name(#[trigger] names[i]) && path == entry_path(
                root,
                names[i],
            ) {
            let i = choose|i: int|
                0 <= i < names.len() && is_entry_name(#[trigger] names[i]) && path == entry_path(
                    root,
                    names[i],
                );
            if i < rest.len() {
                assert(rest[i] == names[i]);
                let at = choose|at: int| 0 <= at < before.len() && before[at] == path;
                assert(paths[at] == path);
            } else {
                assert(paths[before.len() as int] == path);
            }
        }
    }
}

/// A clear leaves the other files alone: a file whose path is not that of
/// an entry in the root is in the store after the clear exactly as before.
pub proof fn lemma_clear_leaves_other_files(
    cache: CacheState,
    files: Files,
    world: ClearWorld,
    path: Seq<char>,
)
    requires
        forall|name: Seq<char>| is_entry_name(name) ==> path != #[trigger] entry_path(cache.root, name),
    ensures
        clear_in(cache, files, world).dom().contains(path) == files.dom().contains(path),
        files.dom().contains(path) ==> clear_in(cache, files, world)[path] == files[path],
{
    lemma_clear_removes_the_listed_entries(cache, files, world);
    if world.listing is Names {
        lemma_entry_paths_are_the_listed_entries(cache.root, world.listing->Names_0, path);
    }
}

/// A clear leaves no entry behind: after a clear in an enabled cache that
/// was told every file in its root and could remove what it asked for, a
/// get misses, whatever tool and arguments it is for.
pub proof fn lemma_nothing_is_found_after_a_clear<P>(
    cache: CacheState,
    files: Files,
    world: ClearWorld,
    tool: Seq<char>,
    hash: u64,
    now: Timestamp,
    around: Surroundings,
    codec: Codec<P>,
)
    requires
        around.root_is_dir == world.root_is_dir,
        enabled_in(cache, world.root_is_dir),
        world.listing is Names,
        lists_the_root(files, cache.root, world.listing->Names_0),
        forall|path: Seq<char>| (#[trigger] (world.removal)(path)) is None,
    ensures
        get_in(
            cache,
            cache_key(cache.root, tool, hash),
            clear_in(cache, files, world),
            now,
            around,
            codec,
        ) is None,
{
    let names = world.listing->Names_0;
    let name = entry_name(tool, hash);
    let key = cache_key(cache.root, tool, hash);
    lemma_clear_removes_the_listed_entries(cache, files, world);
    lemma_keys_name_entries(tool, hash);
    lemma_entry_paths_are_the_listed_entries(cache.root, names, key);
    if files.dom().contains(key) {
        assert(files.dom().contains(entry_path(cache.root, name)));
        assert(names.contains(name));
        let i = choose|i: int| 0 <= i < names.len() && names[i] == name;
        assert(is_entry_name(names[i]) && key == entry_path(cache.root, names[i]));
        assert((world.removal)(key) is None);
    }
}

} // verus!
