//! Decoding undoes encoding: for every wire type, the decoder applied to an
//! encoding followed by any further bytes gives back the value and leaves
//! exactly those bytes.

use crate::api::{Encoder, ErrorCode, Parser};
use crate::primitives::{
    pow128, spec_encode_bool, spec_encode_compact_array, spec_encode_compact_nullable_string,
    spec_encode_compact_string, spec_encode_elements, spec_encode_int16, spec_encode_int32,
    spec_encode_int64, spec_encode_int8, spec_encode_nullable_field, spec_encode_varint,
    spec_parse_bool, spec_parse_compact_array, spec_parse_compact_nullable_string,
    spec_parse_compact_string, spec_parse_elements, spec_parse_int16, spec_parse_int32,
    spec_parse_int64, spec_parse_int8, spec_parse_nullable_field, spec_parse_unsigned_varint,
    spec_parse_unsigned_varlong, spec_parse_uuid, spec_parse_varint_groups, u64_of_bytes,
    u64_of_i64, Uuid,
};
use crate::reader::DecodeError;
use crate::server::{spec_frame, spec_frame_size, MAX_FRAME_PAYLOAD};
use vstd::prelude::*;
use vstd::utf8::encode_utf8;

verus! {

/// A decoded BOOLEAN is the one that was encoded.
pub proof fn bool_round_trip(value: bool, rest: Seq<u8>)
    ensures
        spec_parse_bool(spec_encode_bool(value) + rest) == Ok::<_, DecodeError>((value, rest)),
{
    assert((spec_encode_bool(value) + rest).skip(1) =~= rest);
}

/// A decoded INT8 is the one that was encoded.
pub proof fn int8_round_trip(x: i8, rest: Seq<u8>)
    ensures
        spec_parse_int8(spec_encode_int8(x) + rest) == Ok::<_, DecodeError>((x, rest)),
{
    assert((spec_encode_int8(x) + rest).skip(1) =~= rest);
}

/// A decoded INT16 is the one that was encoded.
pub proof fn int16_round_trip(x: i16, rest: Seq<u8>)
    ensures
        spec_parse_int16(spec_encode_int16(x) + rest) == Ok::<_, DecodeError>((x, rest)),
{
    assert((spec_encode_int16(x) + rest).skip(2) =~= rest);
}

/// A decoded INT32 is the one that was encoded.
pub proof fn int32_round_trip(x: i32, rest: Seq<u8>)
    ensures
        spec_parse_int32(spec_encode_int32(x) + rest) == Ok::<_, DecodeError>((x, rest)),
{
    assert((spec_encode_int32(x) + rest).skip(4) =~= rest);
}

/// Eight base-256 digits of a 64-bit number, most significant first, add up
/// to the number.
proof fn lemma_u64_digits(u: u64)
    ensures
        (u / 72057594037927936) * 72057594037927936 + (u / 281474976710656 % 256)
            * 281474976710656 + (u / 1099511627776 % 256) * 1099511627776 + (u / 4294967296 % 256)
            * 4294967296 + (u / 16777216 % 256) * 16777216 + (u / 65536 % 256) * 65536 + (u / 256
            % 256) * 256 + u % 256 == u,
        u / 72057594037927936 < 256,
{
    assert((u / 72057594037927936) * 72057594037927936 + (u / 281474976710656 % 256)
        * 281474976710656 + (u / 1099511627776 % 256) * 1099511627776 + (u / 4294967296 % 256)
        * 4294967296 + (u / 16777216 % 256) * 16777216 + (u / 65536 % 256) * 65536 + (u / 256
        % 256) * 256 + u % 256 == u) by (bit_vector);
    assert(u / 72057594037927936 < 256) by (bit_vector);
}

/// A decoded INT64 is the one that was encoded.
pub proof fn int64_round_trip(x: i64, rest: Seq<u8>)
    ensures
        spec_parse_int64(spec_encode_int64(x) + rest) == Ok::<_, DecodeError>((x, rest)),
{
    let u = u64_of_i64(x);
    let s = spec_encode_int64(x) + rest;
    lemma_u64_digits(u as u64);
    assert(s.skip(8) =~= rest);
    assert(u64_of_bytes(s) == u);
}

/// A decoded UUID is the one that was encoded.
pub proof fn uuid_round_trip(id: Uuid, rest: Seq<u8>)
    ensures
        spec_parse_uuid(id.spec_encode() + rest) == Ok::<_, DecodeError>((id.deep_view(), rest)),
{
    assert((id.spec_encode() + rest).take(16) =~= id.uuid@);
    assert((id.spec_encode() + rest).skip(16) =~= rest);
}

/// The groups of the shortest varint of `v` decode to `v`, whenever the
/// budget allows as many bytes as `v` has groups.
proof fn lemma_varint_groups_round_trip(v: nat, rest: Seq<u8>, budget: nat)
    requires
        budget >= 1,
        v < pow128(budget),
    ensures
        spec_parse_varint_groups(spec_encode_varint(v) + rest, budget) == Ok::<_, DecodeError>(
            (v, rest),
        ),
    decreases budget,
{
    let s = spec_encode_varint(v) + rest;
    if v < 128 {
        assert(s.skip(1) =~= rest);
    } else {
        assert(budget >= 2) by {
            reveal_with_fuel(pow128, 2);
        }
        assert(v / 128 < pow128((budget - 1) as nat));
        lemma_varint_groups_round_trip(v / 128, rest, (budget - 1) as nat);
        assert(s.skip(1) =~= spec_encode_varint(v / 128) + rest);
        assert(s[0] == (v % 128 + 128) as u8);
    }
}

/// A decoded unsigned varlong is the one that was encoded.
pub proof fn unsigned_varlong_round_trip(v: u64, rest: Seq<u8>)
    ensures
        spec_parse_unsigned_varlong(spec_encode_varint(v as nat) + rest) == Ok::<_, DecodeError>(
            (v, rest),
        ),
{
    assert(pow128(10) == 0x40_0000_0000_0000_0000) by {
        reveal_with_fuel(pow128, 11);
    }
    lemma_varint_groups_round_trip(v as nat, rest, 10);
}

/// A decoded unsigned varint is the one that was encoded.
pub proof fn unsigned_varint_round_trip(v: u32, rest: Seq<u8>)
    ensures
        spec_parse_unsigned_varint(spec_encode_varint(v as nat) + rest) == Ok::<_, DecodeError>(
            (v, rest),
        ),
{
    unsigned_varlong_round_trip(v as u64, rest);
}

/// Whether `bytes` is one varint in its shortest form: every byte but the
/// last has its high bit set, the last has not, and the last is zero only if
/// it is the only byte.
pub open spec fn is_shortest_varint(bytes: Seq<u8>) -> bool {
    &&& bytes.len() >= 1
    &&& forall|i: int| 0 <= i < bytes.len() - 1 ==> bytes[i] >= 128
    &&& bytes.last() < 128
    &&& (bytes.len() == 1 || bytes.last() != 0)
}

proof fn lemma_shortest_varint_reencodes(bytes: Seq<u8>, budget: nat)
    requires
        is_shortest_varint(bytes),
        bytes.len() <= budget,
    ensures
        spec_parse_varint_groups(bytes, budget) is Ok,
        spec_parse_varint_groups(bytes, budget)->Ok_0.1 == Seq::<u8>::empty(),
        spec_encode_varint(spec_parse_varint_groups(bytes, budget)->Ok_0.0) == bytes,
        spec_parse_varint_groups(bytes, budget)->Ok_0.0 < pow128(bytes.len()),
        bytes.len() > 1 ==> spec_parse_varint_groups(bytes, budget)->Ok_0.0 >= 1,
    decreases bytes.len(),
{
    if bytes.len() == 1 {
        assert(bytes.skip(1) =~= Seq::<u8>::empty());
        assert(spec_encode_varint(bytes[0] as nat) =~= bytes);
        reveal_with_fuel(pow128, 2);
    } else {
        let tail = bytes.skip(1);
        assert(is_shortest_varint(tail)) by {
            assert(tail.last() == bytes.last());
            assert forall|i: int| 0 <= i < tail.len() - 1 implies tail[i] >= 128 by {
                assert(tail[i] == bytes[i + 1]);
            }
        }
        lemma_shortest_varint_reencodes(tail, (budget - 1) as nat);
        let high = spec_parse_varint_groups(tail, (budget - 1) as nat)->Ok_0.0;
        assert(high >= 1) by {
            if tail.len() == 1 {
                assert(tail[0] == bytes.last());
            }
        }
        let v = (bytes[0] - 128) as nat + 128 * high;
        assert(spec_parse_varint_groups(bytes, budget)->Ok_0.0 == v);
        assert(v / 128 == high && v % 128 == bytes[0] - 128);
        assert(spec_encode_varint(v) =~= bytes);
    }
}

/// Encoding what a shortest-form varint of at most nine bytes decodes to
/// gives the same bytes again. Nine bytes hold every value below `2^63`.
pub proof fn varint_reencodes(bytes: Seq<u8>)
    requires
        is_shortest_varint(bytes),
        bytes.len() <= 9,
    ensures
        spec_parse_unsigned_varlong(bytes) is Ok,
        spec_parse_unsigned_varlong(bytes)->Ok_0.1 == Seq::<u8>::empty(),
        spec_encode_varint(spec_parse_unsigned_varlong(bytes)->Ok_0.0 as nat) == bytes,
{
    lemma_shortest_varint_reencodes(bytes, 10);
    assert(pow128(bytes.len()) <= 0x8000_0000_0000_0000) by {
        reveal_with_fuel(pow128, 11);
    }
}

/// A decoded COMPACT_STRING is the one that was encoded, for every text
/// whose length prefix fits a varlong.
pub proof fn compact_string_round_trip(text: Seq<char>, rest: Seq<u8>)
    requires
        encode_utf8(text).len() < u64::MAX,
    ensures
        spec_parse_compact_string(spec_encode_compact_string(text) + rest) == Ok::<
            _,
            DecodeError,
        >((text, rest)),
{
    let bytes = encode_utf8(text);
    let prefix = spec_encode_varint(bytes.len() + 1);
    unsigned_varlong_round_trip((bytes.len() + 1) as u64, bytes + rest);
    assert(spec_encode_compact_string(text) + rest =~= prefix + (bytes + rest));
    assert((bytes + rest).take(bytes.len() as int) =~= bytes);
    assert((bytes + rest).skip(bytes.len() as int) =~= rest);
    vstd::utf8::encode_utf8_valid_utf8(text);
    vstd::utf8::encode_utf8_decode_utf8(text);
}

/// A decoded COMPACT_NULLABLE_STRING is the one that was encoded, null or
/// not.
pub proof fn compact_nullable_string_round_trip(text: Option<Seq<char>>, rest: Seq<u8>)
    requires
        text is Some ==> encode_utf8(text->Some_0).len() < u64::MAX,
    ensures
        spec_parse_compact_nullable_string(spec_encode_compact_nullable_string(text) + rest)
            == Ok::<_, DecodeError>((text, rest)),
{
    match text {
        Some(t) => {
            compact_string_round_trip(t, rest);
        },
        None => {
            unsigned_varlong_round_trip(0, rest);
            assert(spec_encode_varint(0) =~= seq![0u8]);
        },
    }
}

/// Whether decoding undoes encoding for the type `T`.
pub open spec fn round_trips<T: Parser<T> + Encoder + DeepView>() -> bool {
    forall|x: T, rest: Seq<u8>| #[trigger]
        T::spec_parse(x.spec_encode() + rest) == Ok::<_, DecodeError>((x.deep_view(), rest))
}

/// The models of `items`, in order.
pub open spec fn deep_views<T: DeepView>(items: Seq<T>) -> Seq<T::V> {
    Seq::new(items.len(), |i: int| items[i].deep_view())
}

proof fn lemma_elements_round_trip<T: Parser<T> + Encoder + DeepView>(
    items: Seq<T>,
    rest: Seq<u8>,
)
    requires
        round_trips::<T>(),
    ensures
        spec_parse_elements::<T>(spec_encode_elements(items) + rest, items.len(), false) == Ok::<
            _,
            DecodeError,
        >((deep_views(items), rest)),
    decreases items.len(),
{
    if items.len() == 0 {
        assert(spec_encode_elements(items) + rest =~= rest);
        assert(deep_views(items) =~= Seq::<T::V>::empty());
    } else {
        let tail = items.skip(1);
        let after = spec_encode_elements(tail) + rest;
        lemma_elements_round_trip::<T>(tail, rest);
        assert(spec_encode_elements(items) + rest =~= items[0].spec_encode() + after);
        assert(T::spec_parse(items[0].spec_encode() + after) == Ok::<_, DecodeError>(
            (items[0].deep_view(), after),
        ));
        assert(seq![items[0].deep_view()] + deep_views(tail) =~= deep_views(items));
    }
}

/// A decoded COMPACT_ARRAY holds the elements that were encoded, in order,
/// for every element type that round-trips and every length whose prefix
/// fits a varlong.
pub proof fn compact_array_round_trip<T: Parser<T> + Encoder + DeepView>(
    items: Seq<T>,
    rest: Seq<u8>,
)
    requires
        round_trips::<T>(),
        items.len() < u64::MAX,
    ensures
        spec_parse_compact_array::<T>(spec_encode_compact_array(items) + rest, false) == Ok::<
            _,
            DecodeError,
        >((deep_views(items), rest)),
{
    if items.len() == 0 {
        unsigned_varlong_round_trip(0, rest);
        assert(deep_views(items) =~= Seq::<T::V>::empty());
    } else {
        let body = spec_encode_elements(items) + rest;
        unsigned_varlong_round_trip((items.len() + 1) as u64, body);
        assert(spec_encode_compact_array(items) + rest =~= spec_encode_varint(items.len() + 1)
            + body);
        lemma_elements_round_trip::<T>(items, rest);
    }
}

/// A decoded NULLABLE_FIELD is the one that was encoded, for every value
/// type that round-trips.
pub proof fn nullable_field_round_trip<T: Parser<T> + Encoder + DeepView>(
    field: Option<T>,
    rest: Seq<u8>,
)
    requires
        round_trips::<T>(),
    ensures
        spec_parse_nullable_field::<T>(spec_encode_nullable_field(field) + rest) == Ok::<
            _,
            DecodeError,
        >((field.deep_view(), rest)),
{
    let s = spec_encode_nullable_field(field) + rest;
    match field {
        Some(value) => {
            assert(s.skip(1) =~= value.spec_encode() + rest);
            assert(T::spec_parse(value.spec_encode() + rest) == Ok::<_, DecodeError>(
                (value.deep_view(), rest),
            ));
        },
        None => {
            assert(s.skip(1) =~= rest);
        },
    }
}

/// INT32 round-trips as an element type.
pub proof fn int32_round_trips()
    ensures
        round_trips::<i32>(),
{
    assert forall|x: i32, rest: Seq<u8>| #[trigger]
        <i32 as Parser<i32>>::spec_parse(x.spec_encode() + rest) == Ok::<_, DecodeError>(
            (x.deep_view(), rest),
        ) by {
        int32_round_trip(x, rest);
    }
}

/// UUID round-trips as an element type.
pub proof fn uuid_round_trips()
    ensures
        round_trips::<Uuid>(),
{
    assert forall|x: Uuid, rest: Seq<u8>| #[trigger]
        <Uuid as Parser<Uuid>>::spec_parse(x.spec_encode() + rest) == Ok::<_, DecodeError>(
            (x.deep_view(), rest),
        ) by {
        uuid_round_trip(x, rest);
    }
}

/// An error code round-trips as an element type.
pub proof fn error_code_round_trips()
    ensures
        round_trips::<ErrorCode>(),
{
    assert forall|x: ErrorCode, rest: Seq<u8>| #[trigger]
        <ErrorCode as Parser<ErrorCode>>::spec_parse(x.spec_encode() + rest) == Ok::<
            _,
            DecodeError,
        >((x.deep_view(), rest)) by {
        int16_round_trip(x.spec_code(), rest);
    }
}

/// The four bytes in front of a frame read back as the length of its
/// payload, and the payload follows them unchanged.
pub proof fn frame_round_trip(payload: Seq<u8>)
    requires
        payload.len() <= MAX_FRAME_PAYLOAD,
    ensures
        spec_frame_size(spec_frame(payload).take(4)) == Ok::<usize, DecodeError>(
            payload.len() as usize,
        ),
        spec_frame(payload).skip(4) == payload,
{
    let prefix = spec_encode_int32(payload.len() as i32);
    int32_round_trip(payload.len() as i32, Seq::empty());
    assert(prefix + Seq::<u8>::empty() =~= prefix);
    assert(spec_frame(payload).take(4) =~= prefix);
    assert(spec_frame(payload).skip(4) =~= payload);
}

} // verus!
