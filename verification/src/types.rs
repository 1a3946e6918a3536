//! The argument records of the cached tools.
use crate::fingerprint::CacheArgs;
use crate::fingerprint::FIELD_END;
use crate::fingerprint::field_writes;
use crate::fingerprint::hashed_bytes;
use crate::fingerprint::lemma_bytes_tell_texts_apart;
use crate::fingerprint::lemma_records_with_the_same_bytes_have_the_same_fields;
use crate::fingerprint::lemma_text_never_holds_field_end;
use crate::fingerprint::write_field;
use std::collections::hash_map::DefaultHasher;
use vstd::prelude::*;
use vstd::utf8::encode_utf8;

verus! {

/// The arguments of the tool that resolves a library's name to its
/// identifier.
#[derive(Default, Debug, Clone, Hash)]
pub struct ResolveLibraryIdArguments {
    /// The library name to search for.
    pub library_name: String,
    /// The question the results are ranked by.
    pub query: String,
}

/// The arguments of the tool that fetches documentation for a library.
#[derive(Default, Debug, Clone, Hash)]
pub struct QueryDocsArguments {
    /// The identifier of the library, such as `/org/project`.
    pub library_id: String,
    /// The question the documentation is searched for.
    pub query: String,
}

/// The arguments of the command that clears the cache: it takes none.
#[derive(Default, Debug, Clone, Hash)]
pub struct ClearCacheArguments {}

impl CacheArgs for ResolveLibraryIdArguments {
    open spec fn fields(&self) -> Seq<Seq<u8>> {
        seq![encode_utf8(self.library_name@), encode_utf8(self.query@)]
    }

    proof fn lemma_fields_are_text(&self) {
        lemma_text_never_holds_field_end(self.library_name@);
        lemma_text_never_holds_field_end(self.query@);
    }

    fn hash_fields(&self, hasher: &mut DefaultHasher) {
        write_field(hasher, self.library_name.as_str());
        write_field(hasher, self.query.as_str());
        proof {
            lemma_two_field_writes(encode_utf8(self.library_name@), encode_utf8(self.query@));
            assert(final(hasher)@ =~= old(hasher)@ + field_writes(self.fields()));
        }
    }
}

impl CacheArgs for QueryDocsArguments {
    open spec fn fields(&self) -> Seq<Seq<u8>> {
        seq![encode_utf8(self.library_id@), encode_utf8(self.query@)]
    }

    proof fn lemma_fields_are_text(&self) {
        lemma_text_never_holds_field_end(self.library_id@);
        lemma_text_never_holds_field_end(self.query@);
    }

    fn hash_fields(&self, hasher: &mut DefaultHasher) {
        write_field(hasher, self.library_id.as_str());
        write_field(hasher, self.query.as_str());
        proof {
            lemma_two_field_writes(encode_utf8(self.library_id@), encode_utf8(self.query@));
            assert(final(hasher)@ =~= old(hasher)@ + field_writes(self.fields()));
        }
    }
}

impl CacheArgs for ClearCacheArguments {
    open spec fn fields(&self) -> Seq<Seq<u8>> {
        Seq::empty()
    }

    proof fn lemma_fields_are_text(&self) {
    }

    fn hash_fields(&self, hasher: &mut DefaultHasher) {
        proof {
            assert(final(hasher)@ =~= old(hasher)@ + field_writes(self.fields()));
        }
    }
}

/// Two lookups of documentation are hashed from the same bytes only if they
/// name the same library and ask the same question.
pub proof fn lemma_query_records_are_told_apart(a: QueryDocsArguments, b: QueryDocsArguments)
    requires
        hashed_bytes(a.fields()) == hashed_bytes(b.fields()),
    ensures
        a.library_id@ == b.library_id@,
        a.query@ == b.query@,
{
    lemma_records_with_the_same_bytes_have_the_same_fields(a, b);
    assert(a.fields()[0] == b.fields()[0]);
    assert(a.fields()[1] == b.fields()[1]);
    lemma_bytes_tell_texts_apart(a.library_id@, b.library_id@);
    lemma_bytes_tell_texts_apart(a.query@, b.query@);
}

/// Two searches for a library are hashed from the same bytes only if they
/// search for the same name and ask the same question.
pub proof fn lemma_resolve_records_are_told_apart(
    a: ResolveLibraryIdArguments,
    b: ResolveLibraryIdArguments,
)
    requires
        hashed_bytes(a.fields()) == hashed_bytes(b.fields()),
    ensures
        a.library_name@ == b.library_name@,
        a.query@ == b.query@,
{
    lemma_records_with_the_same_bytes_have_the_same_fields(a, b);
    assert(a.fields()[0] == b.fields()[0]);
    assert(a.fields()[1] == b.fields()[1]);
    lemma_bytes_tell_texts_apart(a.library_name@, b.library_name@);
    lemma_bytes_tell_texts_apart(a.query@, b.query@);
}

proof fn lemma_two_field_writes(first: Seq<u8>, second: Seq<u8>)
    ensures
        field_writes(seq![first, second]) == seq![first, seq![FIELD_END], second, seq![FIELD_END]],
{
    let none = Seq::<Seq<u8>>::empty();
    assert(field_writes(none) =~= none);
    assert(none.push(first).drop_last() =~= none);
    assert(none.push(first).push(second).drop_last() =~= none.push(first));
    assert(none.push(first).push(second) =~= seq![first, second]);
    assert(field_writes(none.push(first)) =~= seq![first, seq![FIELD_END]]);
    assert(field_writes(seq![first, second]) =~= seq![
        first,
        seq![FIELD_END],
        second,
        seq![FIELD_END],
    ]);
}

} // verus!
