//! The fingerprint of an argument record: a 64-bit hash of its field
//! values, taken in declaration order.
//!
//! The fields are fed to the standard hasher one after another, each
//! followed by a byte that no text holds. The hashed stream so tells where
//! a field ends, and two records are hashed from the same bytes only if
//! they have the same fields.
use std::collections::hash_map::DefaultHasher;
use std::hash::Hasher;
use vstd::prelude::*;
use vstd::std_specs::hash::DefaultHasherAdditionalSpecFns;
use vstd::string::StringSliceAdditionalSpecFns;
use vstd::utf8::encode_scalar;
use vstd::utf8::encode_utf8;

verus! {

/// The byte that closes one field in the hashed stream. It occurs in no
/// UTF-8 text, so no field can run into its neighbour.
pub const FIELD_END: u8 = 0xff;

/// What hashing a record writes: each field's bytes, each closed by
/// [`FIELD_END`].
pub open spec fn field_writes(fields: Seq<Seq<u8>>) -> Seq<Seq<u8>>
    decreases fields.len(),
{
    if fields.len() == 0 {
        Seq::empty()
    } else {
        field_writes(fields.drop_last()).push(fields.last()).push(seq![FIELD_END])
    }
}

/// The fingerprint of a record with the given field values: the digest of the
/// standard hasher, started afresh, after [`field_writes`].
pub open spec fn args_hash(fields: Seq<Seq<u8>>) -> u64 {
    DefaultHasher::spec_finish(field_writes(fields))
}

/// An argument record that a cache key can be derived from.
pub trait CacheArgs {
    /// The record's field values in declaration order, each as its UTF-8
    /// bytes.
    spec fn fields(&self) -> Seq<Seq<u8>>;

    /// Feeds the fields to `hasher`, in order, each closed by [`FIELD_END`].
    fn hash_fields(&self, hasher: &mut DefaultHasher)
        ensures
            final(hasher)@ == old(hasher)@ + field_writes(self.fields()),
    ;

    /// The fields are text: none of them holds [`FIELD_END`].
    proof fn lemma_fields_are_text(&self)
        ensures
            fields_are_text(self.fields()),
    ;
}

/// Feeds one text field to `hasher`: its bytes, then [`FIELD_END`].
pub fn write_field(hasher: &mut DefaultHasher, value: &str)
    ensures
        final(hasher)@ == old(hasher)@.push(value.spec_bytes()).push(seq![FIELD_END]),
{
    let end: [u8; 1] = [FIELD_END];
    hasher.write(value.as_bytes());
    hasher.write(end.as_slice());
    proof {
        assert(end@ =~= seq![FIELD_END]);
    }
}

/// The fingerprint of `args`.
pub fn compute_hash<T: CacheArgs>(args: &T) -> (hash: u64)
    ensures
        hash == args_hash(args.fields()),
{
    let mut hasher = DefaultHasher::new();
    args.hash_fields(&mut hasher);
    proof {
        assert(hasher@ =~= field_writes(args.fields()));
    }
    hasher.finish()
}

/// The bytes a record is hashed from, as one stream: what [`field_writes`]
/// writes, one write after another.
pub open spec fn hashed_bytes(fields: Seq<Seq<u8>>) -> Seq<u8>
    decreases fields.len(),
{
    if fields.len() == 0 {
        Seq::empty()
    } else {
        hashed_bytes(fields.drop_last()) + fields.last() + seq![FIELD_END]
    }
}

/// Whether none of the fields holds the byte [`FIELD_END`].
pub open spec fn fields_are_text(fields: Seq<Seq<u8>>) -> bool {
    forall|i: int, j: int|
        0 <= i < fields.len() && 0 <= j < fields[i].len() ==> (#[trigger] fields[i][j])
            != FIELD_END
}

/// [`hashed_bytes`] is the stream of [`field_writes`].
pub proof fn lemma_writes_make_the_hashed_bytes(fields: Seq<Seq<u8>>)
    ensures
        field_writes(fields).flatten_alt() == hashed_bytes(fields),
    decreases fields.len(),
{
    if fields.len() > 0 {
        let before = field_writes(fields.drop_last());
        let field = before.push(fields.last());
        let closed = field.push(seq![FIELD_END]);
        lemma_writes_make_the_hashed_bytes(fields.drop_last());
        assert(field.drop_last() =~= before);
        assert(closed.drop_last() =~= field);
        assert(field.flatten_alt() == before.flatten_alt() + fields.last());
        assert(closed.flatten_alt() == field.flatten_alt() + seq![FIELD_END]);
    }
}

/// No text holds the byte [`FIELD_END`]: it occurs nowhere in UTF-8.
pub proof fn lemma_text_never_holds_field_end(text: Seq<char>)
    ensures
        forall|i: int|
            0 <= i < encode_utf8(text).len() ==> (#[trigger] encode_utf8(text)[i]) != FIELD_END,
    decreases text.len(),
{
    if text.len() > 0 {
        let first = encode_scalar(text[0] as u32);
        lemma_scalar_never_holds_field_end(text[0] as u32);
        lemma_text_never_holds_field_end(text.drop_first());
        assert(encode_utf8(text) =~= first + encode_utf8(text.drop_first()));
    }
}

proof fn lemma_scalar_never_holds_field_end(scalar: u32)
    ensures
        forall|i: int|
            0 <= i < encode_scalar(scalar).len() ==> (#[trigger] encode_scalar(scalar)[i])
                != FIELD_END,
{
    assert((scalar & 0x7F) as u8 != 0xffu8) by (bit_vector);
    assert(0xC0u8 | ((scalar >> 6) & 0x1F) as u8 != 0xffu8) by (bit_vector);
    assert(0xE0u8 | ((scalar >> 12) & 0x0F) as u8 != 0xffu8) by (bit_vector);
    assert(0xF0u8 | ((scalar >> 18) & 0x7) as u8 != 0xffu8) by (bit_vector);
    assert(0x80u8 | (scalar & 0x3F) as u8 != 0xffu8) by (bit_vector);
    assert(0x80u8 | ((scalar >> 6) & 0x3F) as u8 != 0xffu8) by (bit_vector);
    assert(0x80u8 | ((scalar >> 12) & 0x3F) as u8 != 0xffu8) by (bit_vector);
}

/// Two texts with the same bytes are the same text.
pub proof fn lemma_bytes_tell_texts_apart(a: Seq<char>, b: Seq<char>)
    requires
        encode_utf8(a) == encode_utf8(b),
    ensures
        a == b,
{
    vstd::utf8::encode_utf8_decode_utf8(a);
    vstd::utf8::encode_utf8_decode_utf8(b);
}

/// The hashed stream tells records apart: two records whose fields are
/// text and that are hashed from the same bytes have the same fields, in
/// number and in value. A fingerprint can so be shared by different
/// records only where the digest itself collides.
pub proof fn lemma_hashed_bytes_tell_records_apart(a: Seq<Seq<u8>>, b: Seq<Seq<u8>>)
    requires
        fields_are_text(a),
        fields_are_text(b),
        hashed_bytes(a) == hashed_bytes(b),
    ensures
        a == b,
    decreases a.len(),
{
    if a.len() == 0 {
        if b.len() > 0 {
            assert(hashed_bytes(b).len() > 0);
        }
        assert(a =~= b);
    } else if b.len() == 0 {
        assert(hashed_bytes(a).len() > 0);
    } else {
        let head_a = hashed_bytes(a.drop_last());
        let head_b = hashed_bytes(b.drop_last());
        let last_a = a.last();
        let last_b = b.last();
        let stream = hashed_bytes(a);
        assert(stream == head_a + last_a + seq![FIELD_END]);
        assert(stream == head_b + last_b + seq![FIELD_END]);
        assert(head_a.len() + last_a.len() == head_b.len() + last_b.len());
        lemma_hashed_bytes_end_each_field(a.drop_last());
        lemma_hashed_bytes_end_each_field(b.drop_last());
        if last_a.len() < last_b.len() {
            let at = head_a.len() - 1;
            assert(stream[at] == head_a[at]);
            assert(stream[at] == last_b[at - head_b.len()]);
        } else if last_b.len() < last_a.len() {
            let at = head_b.len() - 1;
            assert(stream[at] == head_b[at]);
            assert(stream[at] == last_a[at - head_a.len()]);
        }
        assert(last_a =~= stream.subrange(head_a.len() as int, stream.len() - 1));
        assert(last_b =~= stream.subrange(head_b.len() as int, stream.len() - 1));
        assert(head_a =~= stream.subrange(0, head_a.len() as int));
        assert(head_b =~= stream.subrange(0, head_b.len() as int));
        assert(fields_are_text(a.drop_last())) by {
            assert forall|i: int, j: int|
                0 <= i < a.drop_last().len() && 0 <= j < a.drop_last()[i].len() implies (
            #[trigger] a.drop_last()[i][j]) != FIELD_END by {
                assert(a.drop_last()[i][j] == a[i][j]);
            }
        }
        assert(fields_are_text(b.drop_last())) by {
            assert forall|i: int, j: int|
                0 <= i < b.drop_last().len() && 0 <= j < b.drop_last()[i].len() implies (
            #[trigger] b.drop_last()[i][j]) != FIELD_END by {
                assert(b.drop_last()[i][j] == b[i][j]);
            }
        }
        lemma_hashed_bytes_tell_records_apart(a.drop_last(), b.drop_last());
        assert(a =~= a.drop_last().push(last_a));
        assert(b =~= b.drop_last().push(last_b));
    }
}

/// Two argument records that are hashed from the same bytes have the same
/// fields.
pub proof fn lemma_records_with_the_same_bytes_have_the_same_fields<T: CacheArgs, U: CacheArgs>(
    a: T,
    b: U,
)
    requires
        hashed_bytes(a.fields()) == hashed_bytes(b.fields()),
    ensures
        a.fields() == b.fields(),
{
    a.lemma_fields_are_text();
    b.lemma_fields_are_text();
    lemma_hashed_bytes_tell_records_apart(a.fields(), b.fields());
}

proof fn lemma_hashed_bytes_end_each_field(fields: Seq<Seq<u8>>)
    ensures
        fields.len() > 0 ==> hashed_bytes(fields).len() > 0 && hashed_bytes(fields).last()
            == FIELD_END,
        fields.len() == 0 ==> hashed_bytes(fields).len() == 0,
{
}

} // verus!
