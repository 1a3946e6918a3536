//! Deriving the storage key of a cache entry from a tool's name and its
//! arguments.
//!
//! A key is the path `<cache_root>/<tool_name>_<hash>.json`. The hash is
//! the fingerprint of the argument record, written as sixteen lowercase
//! hexadecimal digits. The tool's name stands in front of it, so the entries
//! of two tools never share a key, whatever the fingerprints are.
use crate::fingerprint::args_hash;
use crate::fingerprint::CacheArgs;
use crate::fingerprint::compute_hash;
use crate::text::hex;
use crate::text::hex_span;
use crate::text::lemma_hex_is_fixed_width;
use crate::text::lemma_hex_is_injective;
use crate::text::push_hex;
use vstd::prelude::*;
use vstd::string::StringExecFns;

verus! {

/// The directory that holds the cache unless another one is named.
pub const CACHE_DIR: &'static str = "/cache";

/// The number of hexadecimal digits a fingerprint is written with.
pub const HASH_WIDTH: u32 = 16;

/// A fingerprint as it stands in a key: sixteen hexadecimal digits.
pub open spec fn hash_hex(hash: u64) -> Seq<char> {
    hex(hash as nat, HASH_WIDTH as nat)
}

/// The file name of the entry of `tool` with fingerprint `hash`.
pub open spec fn entry_name(tool: Seq<char>, hash: u64) -> Seq<char> {
    tool + "_"@ + hash_hex(hash) + ".json"@
}

/// The path of the file `name` directly under `root`.
pub open spec fn entry_path(root: Seq<char>, name: Seq<char>) -> Seq<char> {
    root + "/"@ + name
}

/// The key of the entry of `tool` with fingerprint `hash` under `root`.
pub open spec fn cache_key(root: Seq<char>, tool: Seq<char>, hash: u64) -> Seq<char> {
    entry_path(root, entry_name(tool, hash))
}

/// The key of the entry for `tool_name` called with `args`, in the cache
/// under `cache_dir`.
pub fn cache_path_in<T: CacheArgs>(cache_dir: &str, tool_name: &str, args: &T) -> (path: String)
    ensures
        path@ == cache_key(cache_dir@, tool_name@, args_hash(args.fields())),
{
    let hash = compute_hash(args);
    let mut path = String::from_str(cache_dir);
    path.append("/");
    path.append(tool_name);
    path.append("_");
    push_hex(&mut path, hash, HASH_WIDTH);
    path.append(".json");
    proof {
        assert(path@ =~= cache_key(cache_dir@, tool_name@, hash));
    }
    path
}

/// The key of the entry for `tool_name` called with `args`, in the cache
/// under [`CACHE_DIR`].
pub fn cache_path<T: CacheArgs>(tool_name: &str, args: &T) -> (path: String)
    ensures
        path@ == cache_key(CACHE_DIR@, tool_name@, args_hash(args.fields())),
{
    cache_path_in(CACHE_DIR, tool_name, args)
}

/// Two fingerprints are written alike only if they are the same.
pub proof fn lemma_hash_hex_is_injective(a: u64, b: u64)
    requires
        hash_hex(a) == hash_hex(b),
    ensures
        a == b,
{
    assert(hex_span(16) == 0x1_0000_0000_0000_0000) by {
        reveal_with_fuel(hex_span, 17);
    }
    lemma_hex_is_injective(a as nat, b as nat, 16);
}

/// Key derivation is deterministic: the same tool name and records with the
/// same field values have the same key.
pub proof fn lemma_equal_inputs_have_equal_keys<T: CacheArgs>(
    root: Seq<char>,
    tool_a: Seq<char>,
    args_a: T,
    tool_b: Seq<char>,
    args_b: T,
)
    requires
        tool_a == tool_b,
        args_a.fields() == args_b.fields(),
    ensures
        cache_key(root, tool_a, args_hash(args_a.fields())) == cache_key(
            root,
            tool_b,
            args_hash(args_b.fields()),
        ),
{
}

/// Under one root, two keys are the same exactly when both the tool name
/// and the fingerprint are.
pub proof fn lemma_keys_match_on_tool_and_hash(
    root: Seq<char>,
    tool_a: Seq<char>,
    hash_a: u64,
    tool_b: Seq<char>,
    hash_b: u64,
)
    ensures
        cache_key(root, tool_a, hash_a) == cache_key(root, tool_b, hash_b) <==> (tool_a == tool_b
            && hash_a == hash_b),
{
    let key_a = cache_key(root, tool_a, hash_a);
    let key_b = cache_key(root, tool_b, hash_b);
    if key_a == key_b {
        reveal_strlit("/");
        reveal_strlit("_");
        reveal_strlit(".json");
        lemma_hex_is_fixed_width(hash_a as nat, 16);
        lemma_hex_is_fixed_width(hash_b as nat, 16);
        let start: int = root.len() as int + 1;
        assert(key_a.len() == start + tool_a.len() + 1 + 16 + 5);
        assert(key_b.len() == start + tool_b.len() + 1 + 16 + 5);
        assert(tool_a =~= key_a.subrange(start, start + tool_a.len()));
        assert(tool_b =~= key_b.subrange(start, start + tool_b.len()));
        let digits: int = start + tool_a.len() + 1;
        assert(hash_hex(hash_a) =~= key_a.subrange(digits, digits + 16));
        assert(hash_hex(hash_b) =~= key_b.subrange(digits, digits + 16));
        lemma_hash_hex_is_injective(hash_a, hash_b);
    }
}

/// The entries of two tools never share a key: whatever the arguments are,
/// and even where their fingerprints collide, different tool names give
/// different keys.
pub proof fn lemma_tools_never_share_a_key<T: CacheArgs, U: CacheArgs>(
    root: Seq<char>,
    tool_a: Seq<char>,
    args_a: T,
    tool_b: Seq<char>,
    args_b: U,
)
    requires
        tool_a != tool_b,
    ensures
        cache_key(root, tool_a, args_hash(args_a.fields())) != cache_key(
            root,
            tool_b,
            args_hash(args_b.fields()),
        ),
{
    lemma_keys_match_on_tool_and_hash(
        root,
        tool_a,
        args_hash(args_a.fields()),
        tool_b,
        args_hash(args_b.fields()),
    );
}

} // verus!
