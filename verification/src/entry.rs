//! The files of the cache root: which of them are cache entries, and where
//! they lie.
use crate::key::entry_name;
use crate::key::entry_path;
use crate::key::hash_hex;
use crate::text::is_hex_digit;
use crate::text::lemma_hex_is_fixed_width;
use vstd::prelude::*;
use vstd::string::StrSliceExecFns;
use vstd::string::StringExecFns;

verus! {

/// The place of the last dot in a file name, if there is a dot.
pub open spec fn last_dot(name: Seq<char>) -> Option<int>
    decreases name.len(),
{
    if name.len() == 0 {
        None
    } else if name.last() == '.' {
        Some(name.len() - 1)
    } else {
        last_dot(name.drop_last())
    }
}

/// The extension of a file name: what follows its last dot. A name without
/// a dot has no extension, and neither has a name whose last dot is its
/// first character.
pub open spec fn extension(name: Seq<char>) -> Option<Seq<char>> {
    match last_dot(name) {
        Some(at) => if at > 0 {
            Some(name.skip(at + 1))
        } else {
            None
        },
        None => None,
    }
}

/// Whether a file name is that of a cache entry: its extension is `json`.
pub open spec fn is_entry_name(name: Seq<char>) -> bool {
    extension(name) == Some("json"@)
}

/// The last dot of a name is a dot in it, and no dot follows it.
pub proof fn lemma_last_dot_is_the_last(name: Seq<char>)
    ensures
        match last_dot(name) {
            Some(at) => 0 <= at < name.len() && name[at] == '.' && forall|i: int|
                at < i < name.len() ==> name[i] != '.',
            None => forall|i: int| 0 <= i < name.len() ==> name[i] != '.',
        },
    decreases name.len(),
{
    if name.len() > 0 && name.last() != '.' {
        lemma_last_dot_is_the_last(name.drop_last());
        assert forall|i: int| 0 <= i < name.len() - 1 implies name[i] == name.drop_last()[i] by {}
    }
}

/// The entries are the names that end in `.json` behind a stem of at least
/// one character. So `a.json` and `..json` are entries, and `.json` alone,
/// which has no stem, is none.
pub proof fn lemma_entries_end_in_dot_json(name: Seq<char>)
    ensures
        is_entry_name(name) <==> name.len() > 5 && name.subrange(
            name.len() - 5,
            name.len() as int,
        ) == ".json"@,
{
    reveal_strlit(".json");
    reveal_strlit("json");
    lemma_last_dot_is_the_last(name);
    let tail = name.subrange(name.len() - 5, name.len() as int);
    if is_entry_name(name) {
        let at = last_dot(name)->0;
        assert(name.skip(at + 1).len() == 4);
        assert forall|i: int| 0 <= i < 5 implies tail[i] == ".json"@[i] by {
            if i > 0 {
                assert(tail[i] == name.skip(at + 1)[i - 1]);
            }
        }
        assert(tail =~= ".json"@);
    }
    if name.len() > 5 && tail == ".json"@ {
        let dot = name.len() - 5;
        assert(name[dot] == tail[0]);
        assert(name[dot + 1] == tail[1]);
        assert(name[dot + 2] == tail[2]);
        assert(name[dot + 3] == tail[3]);
        assert(name[dot + 4] == tail[4]);
        assert(last_dot(name) == Some(dot));
        assert(name.skip(dot + 1) =~= "json"@);
    }
}

/// Decides whether the file called `name` is a cache entry.
pub fn is_cache_entry(name: &str) -> (is_entry: bool)
    ensures
        is_entry == is_entry_name(name@),
{
    proof {
        reveal_strlit(".json");
        lemma_entries_end_in_dot_json(name@);
    }
    let len = name.unicode_len();
    if len <= 5 {
        return false;
    }
    let ghost tail = name@.subrange(len - 5, len as int);
    let is_entry = name.get_char(len - 5) == '.' && name.get_char(len - 4) == 'j' && name.get_char(
        len - 3,
    ) == 's' && name.get_char(len - 2) == 'o' && name.get_char(len - 1) == 'n';
    proof {
        assert(tail[0] == name@[len - 5]);
        assert(tail[1] == name@[len - 4]);
        assert(tail[2] == name@[len - 3]);
        assert(tail[3] == name@[len - 2]);
        assert(tail[4] == name@[len - 1]);
        if is_entry {
            assert(tail =~= ".json"@);
        }
    }
    is_entry
}

/// The path of the file called `name` in the directory `root`.
pub fn path_in(root: &str, name: &str) -> (path: String)
    ensures
        path@ == entry_path(root@, name@),
{
    let mut path = String::from_str(root);
    path.append("/");
    path.append(name);
    proof {
        assert(path@ =~= entry_path(root@, name@));
    }
    path
}

/// A key's file name adds no path separator: whatever stands in it besides
/// the tool's name is the underscore, sixteen hexadecimal digits and the
/// extension. So the name is a single path component if the tool's name is.
pub proof fn lemma_entry_name_adds_no_separator(tool: Seq<char>, hash: u64)
    requires
        !tool.contains('/'),
    ensures
        !entry_name(tool, hash).contains('/'),
{
    reveal_strlit("_");
    reveal_strlit(".json");
    lemma_hex_is_fixed_width(hash as nat, 16);
    let name = entry_name(tool, hash);
    let digits = hash_hex(hash);
    assert forall|i: int| 0 <= i < name.len() implies name[i] != '/' by {
        if i < tool.len() {
            assert(tool.contains(tool[i]));
        } else if i == tool.len() {
            assert(name[i] == '_');
        } else if i < tool.len() + 1 + 16 {
            assert(name[i] == digits[i - tool.len() - 1]);
            assert(is_hex_digit(digits[i - tool.len() - 1]));
        } else {
            assert(name[i] == ".json"@[i - tool.len() - 17]);
        }
    }
}

/// Every entry the cache writes is one that a clear removes: the file name
/// of a key is the name of a cache entry, whatever the tool and the
/// fingerprint.
pub proof fn lemma_keys_name_entries(tool: Seq<char>, hash: u64)
    ensures
        is_entry_name(entry_name(tool, hash)),
{
    reveal_strlit("_");
    reveal_strlit(".json");
    lemma_hex_is_fixed_width(hash as nat, 16);
    let name = entry_name(tool, hash);
    lemma_entries_end_in_dot_json(name);
    assert(name.len() == tool.len() + 1 + 16 + 5);
    assert(name.subrange(name.len() - 5, name.len() as int) =~= ".json"@);
}

} // verus!
