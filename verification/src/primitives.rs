//! Encoders and decoders of the scalar and composite wire types.

use crate::api::{Encoder, Parser};
use crate::reader::{decoded, rest_of, DecodeError, ParseResult, Reader};
use vstd::prelude::*;
use vstd::string::StrSliceExecFns;
use vstd::utf8::{decode_utf8, encode_utf8, valid_utf8};

verus! {

/// The signed 8-bit integer whose two's-complement byte is `b`.
pub open spec fn i8_of_byte(b: u8) -> i8 {
    if b < 128 {
        b as i8
    } else {
        (b - 256) as i8
    }
}

/// The two's-complement byte of `x`.
pub open spec fn byte_of_i8(x: i8) -> u8 {
    if x < 0 {
        (x + 256) as u8
    } else {
        x as u8
    }
}

/// The signed 16-bit integer with big-endian two's-complement bytes `b0 b1`.
pub open spec fn i16_of_bytes(b0: u8, b1: u8) -> i16 {
    let u = b0 * 256 + b1;
    if u < 32768 {
        u as i16
    } else {
        (u - 65536) as i16
    }
}

/// The unsigned value of the two's-complement pattern of `x`.
pub open spec fn u16_of_i16(x: i16) -> int {
    if x < 0 {
        x + 65536
    } else {
        x as int
    }
}

/// The signed 32-bit integer with big-endian two's-complement bytes `b0..b3`.
pub open spec fn i32_of_bytes(b0: u8, b1: u8, b2: u8, b3: u8) -> i32 {
    let u = b0 * 16777216 + b1 * 65536 + b2 * 256 + b3;
    if u < 2147483648 {
        u as i32
    } else {
        (u - 4294967296) as i32
    }
}

/// The unsigned value of the two's-complement pattern of `x`.
pub open spec fn u32_of_i32(x: i32) -> int {
    if x < 0 {
        x + 4294967296
    } else {
        x as int
    }
}

/// The unsigned value of eight big-endian bytes.
pub open spec fn u64_of_bytes(s: Seq<u8>) -> int
    recommends
        s.len() >= 8,
{
    s[0] * 72057594037927936 + s[1] * 281474976710656 + s[2] * 1099511627776 + s[3] * 4294967296
        + s[4] * 16777216 + s[5] * 65536 + s[6] * 256 + s[7]
}

/// The signed 64-bit integer with the eight big-endian two's-complement bytes
/// at the front of `s`.
pub open spec fn i64_of_bytes(s: Seq<u8>) -> i64
    recommends
        s.len() >= 8,
{
    let u = u64_of_bytes(s);
    if u < 9223372036854775808 {
        u as i64
    } else {
        (u - 18446744073709551616) as i64
    }
}

/// The unsigned value of the two's-complement pattern of `x`.
pub open spec fn u64_of_i64(x: i64) -> int {
    if x < 0 {
        x + 18446744073709551616
    } else {
        x as int
    }
}

/// BOOLEAN: one byte, true exactly when it is `0x01`.
pub open spec fn spec_parse_bool(s: Seq<u8>) -> ParseResult<bool> {
    if s.len() < 1 {
        Err(DecodeError::UnexpectedEof)
    } else {
        Ok((s[0] == 1, s.skip(1)))
    }
}

/// BOOLEAN on the wire: `0x01` for true, `0x00` for false.
pub open spec fn spec_encode_bool(value: bool) -> Seq<u8> {
    seq![if value { 1u8 } else { 0u8 }]
}

/// INT8: one two's-complement byte.
pub open spec fn spec_parse_int8(s: Seq<u8>) -> ParseResult<i8> {
    if s.len() < 1 {
        Err(DecodeError::UnexpectedEof)
    } else {
        Ok((i8_of_byte(s[0]), s.skip(1)))
    }
}

/// INT16: two bytes, big-endian two's complement.
pub open spec fn spec_parse_int16(s: Seq<u8>) -> ParseResult<i16> {
    if s.len() < 2 {
        Err(DecodeError::UnexpectedEof)
    } else {
        Ok((i16_of_bytes(s[0], s[1]), s.skip(2)))
    }
}

/// INT32: four bytes, big-endian two's complement.
pub open spec fn spec_parse_int32(s: Seq<u8>) -> ParseResult<i32> {
    if s.len() < 4 {
        Err(DecodeError::UnexpectedEof)
    } else {
        Ok((i32_of_bytes(s[0], s[1], s[2], s[3]), s.skip(4)))
    }
}

/// INT64: eight bytes, big-endian two's complement.
pub open spec fn spec_parse_int64(s: Seq<u8>) -> ParseResult<i64> {
    if s.len() < 8 {
        Err(DecodeError::UnexpectedEof)
    } else {
        Ok((i64_of_bytes(s), s.skip(8)))
    }
}

/// INT8 on the wire.
pub open spec fn spec_encode_int8(x: i8) -> Seq<u8> {
    seq![byte_of_i8(x)]
}

/// INT16 on the wire.
pub open spec fn spec_encode_int16(x: i16) -> Seq<u8> {
    let u = u16_of_i16(x);
    seq![(u / 256) as u8, (u % 256) as u8]
}

/// INT32 on the wire.
pub open spec fn spec_encode_int32(x: i32) -> Seq<u8> {
    let u = u32_of_i32(x);
    seq![
        (u / 16777216) as u8,
        (u / 65536 % 256) as u8,
        (u / 256 % 256) as u8,
        (u % 256) as u8,
    ]
}

/// INT64 on the wire.
pub open spec fn spec_encode_int64(x: i64) -> Seq<u8> {
    let u = u64_of_i64(x);
    seq![
        (u / 72057594037927936) as u8,
        (u / 281474976710656 % 256) as u8,
        (u / 1099511627776 % 256) as u8,
        (u / 4294967296 % 256) as u8,
        (u / 16777216 % 256) as u8,
        (u / 65536 % 256) as u8,
        (u / 256 % 256) as u8,
        (u % 256) as u8,
    ]
}

/// Decodes a BOOLEAN.
pub fn parse_bool(reader: &mut Reader) -> (r: Result<bool, DecodeError>)
    ensures
        decoded(spec_parse_bool(old(reader).remaining()), r, final(reader).remaining()),
{
    let b: u8 = reader.read_u8()?;
    Ok(b == 1)
}

/// Encodes a BOOLEAN.
pub fn encode_bool(value: bool) -> (out: Vec<u8>)
    ensures
        out@ == spec_encode_bool(value),
{
    let mut buf: Vec<u8> = Vec::new();
    buf.push(if value { 1 } else { 0 });
    assert(buf@ =~= spec_encode_bool(value));
    buf
}

/// Decodes an INT8.
pub fn parse_int8(reader: &mut Reader) -> (r: Result<i8, DecodeError>)
    ensures
        decoded(spec_parse_int8(old(reader).remaining()), r, final(reader).remaining()),
{
    let b: u8 = reader.read_u8()?;
    if b < 128 {
        Ok(b as i8)
    } else {
        Ok((b as i16 - 256) as i8)
    }
}

/// Decodes an INT16.
pub fn parse_int16(reader: &mut Reader) -> (r: Result<i16, DecodeError>)
    ensures
        decoded(spec_parse_int16(old(reader).remaining()), r, final(reader).remaining()),
{
    let bytes = reader.read_exact(2)?;
    let u: u32 = bytes[0] as u32 * 256 + bytes[1] as u32;
    if u < 32768 {
        Ok(u as i16)
    } else {
        Ok((u as i32 - 65536) as i16)
    }
}

/// Decodes an INT32.
pub fn parse_int32(reader: &mut Reader) -> (r: Result<i32, DecodeError>)
    ensures
        decoded(spec_parse_int32(old(reader).remaining()), r, final(reader).remaining()),
{
    let bytes = reader.read_exact(4)?;
    let u: u64 = bytes[0] as u64 * 16777216 + bytes[1] as u64 * 65536 + bytes[2] as u64 * 256
        + bytes[3] as u64;
    if u < 2147483648 {
        Ok(u as i32)
    } else {
        Ok((u as i64 - 4294967296) as i32)
    }
}

/// Decodes an INT64.
pub fn parse_int64(reader: &mut Reader) -> (r: Result<i64, DecodeError>)
    ensures
        decoded(spec_parse_int64(old(reader).remaining()), r, final(reader).remaining()),
{
    let bytes = reader.read_exact(8)?;
    let u: u128 = bytes[0] as u128 * 72057594037927936 + bytes[1] as u128 * 281474976710656
        + bytes[2] as u128 * 1099511627776 + bytes[3] as u128 * 4294967296 + bytes[4] as u128
        * 16777216 + bytes[5] as u128 * 65536 + bytes[6] as u128 * 256 + bytes[7] as u128;
    if u < 9223372036854775808 {
        Ok(u as i64)
    } else {
        Ok((u as i128 - 18446744073709551616) as i64)
    }
}

/// `128` to the power `n`: the weight of the 7-bit group at position `n`.
pub open spec fn pow128(n: nat) -> nat
    decreases n,
{
    if n == 0 {
        1
    } else {
        128 * pow128((n - 1) as nat)
    }
}

/// Puts the low part `low` under a decoded high part: the value becomes
/// `low + weight * high`, the rest and an error pass through.
pub open spec fn under(low: nat, weight: nat, high: ParseResult<nat>) -> ParseResult<nat> {
    match high {
        Ok((v, rest)) => Ok((low + weight * v, rest)),
        Err(e) => Err(e),
    }
}

/// The 7-bit groups of a varint, least significant first, read from the
/// front of `s` with at most `budget` bytes. A byte below 128 ends the
/// number. The input may end too early (`UnexpectedEof`), or the last byte
/// that the budget allows may still ask for another (`InvalidData`).
pub open spec fn spec_parse_varint_groups(s: Seq<u8>, budget: nat) -> ParseResult<nat>
    decreases budget,
{
    if budget == 0 {
        Err(DecodeError::InvalidData)
    } else if s.len() == 0 {
        Err(DecodeError::UnexpectedEof)
    } else if s[0] < 128 {
        Ok((s[0] as nat, s.skip(1)))
    } else if budget == 1 {
        Err(DecodeError::InvalidData)
    } else {
        under((s[0] - 128) as nat, 128, spec_parse_varint_groups(s.skip(1), (budget - 1) as nat))
    }
}

/// The largest number of bytes a varint may take.
pub const MAX_VARINT_BYTES: u8 = 10;

/// UNSIGNED_VARLONG: up to ten 7-bit groups, least significant first, the
/// value reduced to 64 bits.
pub open spec fn spec_parse_unsigned_varlong(s: Seq<u8>) -> ParseResult<u64> {
    match spec_parse_varint_groups(s, MAX_VARINT_BYTES as nat) {
        Ok((v, rest)) => Ok(((v % 0x1_0000_0000_0000_0000) as u64, rest)),
        Err(e) => Err(e),
    }
}

/// UNSIGNED_VARINT: an unsigned varlong reduced to 32 bits.
pub open spec fn spec_parse_unsigned_varint(s: Seq<u8>) -> ParseResult<u32> {
    match spec_parse_unsigned_varlong(s) {
        Ok((v, rest)) => Ok(((v % 0x1_0000_0000) as u32, rest)),
        Err(e) => Err(e),
    }
}

/// The signed 32-bit integer whose two's-complement pattern is the low 32
/// bits of `v`.
pub open spec fn i32_of_low_bits(v: u64) -> i32 {
    let u = v % 0x1_0000_0000;
    if u < 0x8000_0000 {
        u as i32
    } else {
        (u - 0x1_0000_0000) as i32
    }
}

/// VARINT: an unsigned varlong whose low 32 bits are read as two's
/// complement. No zig-zag step is applied.
pub open spec fn spec_parse_varint(s: Seq<u8>) -> ParseResult<i32> {
    match spec_parse_unsigned_varlong(s) {
        Ok((v, rest)) => Ok((i32_of_low_bits(v), rest)),
        Err(e) => Err(e),
    }
}

/// The shortest varint of `v`: 7-bit groups, least significant first, every
/// byte but the last with its high bit set.
pub open spec fn spec_encode_varint(v: nat) -> Seq<u8>
    decreases v,
{
    if v < 128 {
        seq![v as u8]
    } else {
        seq![(v % 128 + 128) as u8] + spec_encode_varint(v / 128)
    }
}

proof fn lemma_under_step(low: nat, weight: nat, digit: nat, high: ParseResult<nat>)
    ensures
        under(low, weight, under(digit, 128, high)) == under(
            low + weight * digit,
            weight * 128,
            high,
        ),
{
    if let Ok((v, rest)) = high {
        assert(low + weight * (digit + 128 * v) == low + weight * digit + (weight * 128) * v)
            by (nonlinear_arith);
    }
}

proof fn lemma_pow128_bound(n: nat)
    requires
        n <= 9,
    ensures
        pow128(n) <= 0x8000_0000_0000_0000,
        pow128(n) >= 1,
{
    reveal_with_fuel(pow128, 11);
}

/// Decodes an UNSIGNED_VARLONG.
pub fn parse_unsigned_varlong(reader: &mut Reader) -> (r: Result<u64, DecodeError>)
    ensures
        decoded(
            spec_parse_unsigned_varlong(old(reader).remaining()),
            r,
            final(reader).remaining(),
        ),
{
    let ghost input = reader.remaining();
    let mut low: u128 = 0;
    let mut weight: u128 = 1;
    let mut taken: u8 = 0;
    loop
        invariant
            input == old(reader).remaining(),
            taken < MAX_VARINT_BYTES,
            weight == pow128(taken as nat),
            low < weight,
            spec_parse_varint_groups(input, MAX_VARINT_BYTES as nat) == under(
                low as nat,
                weight as nat,
                spec_parse_varint_groups(reader.remaining(), (MAX_VARINT_BYTES - taken) as nat),
            ),
        decreases MAX_VARINT_BYTES - taken,
    {
        proof {
            lemma_pow128_bound(taken as nat);
        }
        let byte: u8 = reader.read_u8()?;
        if byte < 128 {
            assert(byte as u128 * weight <= 127 * weight) by (nonlinear_arith)
                requires
                    byte <= 127,
            ;
            let value: u128 = low + byte as u128 * weight;
            assert(weight * (byte as nat) == byte as u128 * weight) by (nonlinear_arith);
            return Ok((value % 0x1_0000_0000_0000_0000) as u64);
        }
        if taken == MAX_VARINT_BYTES - 1 {
            return Err(DecodeError::InvalidData);
        }
        let digit: u8 = byte - 128;
        proof {
            lemma_under_step(
                low as nat,
                weight as nat,
                digit as nat,
                spec_parse_varint_groups(
                    reader.remaining(),
                    (MAX_VARINT_BYTES - taken - 1) as nat,
                ),
            );
            assert(digit as u128 * weight <= 127 * weight) by (nonlinear_arith)
                requires
                    digit <= 127,
            ;
            assert(weight * (digit as nat) == digit as u128 * weight) by (nonlinear_arith);
        }
        low = low + digit as u128 * weight;
        weight = weight * 128;
        taken = taken + 1;
    }
}

/// Decodes an UNSIGNED_VARINT.
pub fn parse_unsigned_varint(reader: &mut Reader) -> (r: Result<u32, DecodeError>)
    ensures
        decoded(
            spec_parse_unsigned_varint(old(reader).remaining()),
            r,
            final(reader).remaining(),
        ),
{
    let num: u64 = parse_unsigned_varlong(reader)?;
    Ok((num % 0x1_0000_0000) as u32)
}

/// Decodes a VARINT.
pub fn parse_varint(reader: &mut Reader) -> (r: Result<i32, DecodeError>)
    ensures
        decoded(spec_parse_varint(old(reader).remaining()), r, final(reader).remaining()),
{
    let num: u64 = parse_unsigned_varlong(reader)?;
    let low: u64 = num % 0x1_0000_0000;
    if low < 0x8000_0000 {
        Ok(low as i32)
    } else {
        Ok((low as i64 - 0x1_0000_0000) as i32)
    }
}

/// Encodes any value that fits 128 bits as a varint.
fn encode_varint_wide(value: u128) -> (out: Vec<u8>)
    ensures
        out@ == spec_encode_varint(value as nat),
{
    let mut buf: Vec<u8> = Vec::new();
    let mut left: u128 = value;
    while left >= 128
        invariant
            spec_encode_varint(value as nat) == buf@ + spec_encode_varint(left as nat),
        decreases left,
    {
        let group: u8 = (left % 128) as u8;
        let ghost prefix = buf@;
        buf.push(group + 128);
        assert(buf@ + spec_encode_varint((left / 128) as nat) =~= prefix + spec_encode_varint(
            left as nat,
        )) by {
            assert(buf@ =~= prefix + seq![(left % 128 + 128) as u8]);
        }
        left = left / 128;
    }
    let ghost prefix = buf@;
    buf.push(left as u8);
    assert(buf@ =~= prefix + spec_encode_varint(left as nat));
    buf
}

/// Encodes an unsigned varint in its shortest form.
pub fn encode_varint(varint: u64) -> (out: Vec<u8>)
    ensures
        out@ == spec_encode_varint(varint as nat),
{
    encode_varint_wide(varint as u128)
}

impl Encoder for u8 {
    open spec fn spec_encode(&self) -> Seq<u8> {
        seq![*self]
    }

    fn encode(&self) -> (out: Vec<u8>)
        ensures
            out@ == self.spec_encode(),
    {
        let mut buf: Vec<u8> = Vec::new();
        buf.push(*self);
        assert(buf@ =~= seq![*self]);
        buf
    }
}

impl Encoder for i8 {
    open spec fn spec_encode(&self) -> Seq<u8> {
        spec_encode_int8(*self)
    }

    fn encode(&self) -> (out: Vec<u8>)
        ensures
            out@ == self.spec_encode(),
    {
        let x: i8 = *self;
        let mut buf: Vec<u8> = Vec::new();
        buf.push(if x < 0 { (x as i16 + 256) as u8 } else { x as u8 });
        assert(buf@ =~= spec_encode_int8(x));
        buf
    }
}

impl Encoder for i16 {
    open spec fn spec_encode(&self) -> Seq<u8> {
        spec_encode_int16(*self)
    }

    fn encode(&self) -> (out: Vec<u8>)
        ensures
            out@ == self.spec_encode(),
    {
        let x: i16 = *self;
        let u: u32 = if x < 0 { (x as i32 + 65536) as u32 } else { x as u32 };
        let mut buf: Vec<u8> = Vec::new();
        buf.push((u / 256) as u8);
        buf.push((u % 256) as u8);
        assert(buf@ =~= spec_encode_int16(x));
        buf
    }
}

impl Encoder for i32 {
    open spec fn spec_encode(&self) -> Seq<u8> {
        spec_encode_int32(*self)
    }

    fn encode(&self) -> (out: Vec<u8>)
        ensures
            out@ == self.spec_encode(),
    {
        let x: i32 = *self;
        let u: u64 = if x < 0 { (x as i64 + 4294967296) as u64 } else { x as u64 };
        let mut buf: Vec<u8> = Vec::new();
        buf.push((u / 16777216) as u8);
        buf.push((u / 65536 % 256) as u8);
        buf.push((u / 256 % 256) as u8);
        buf.push((u % 256) as u8);
        assert(buf@ =~= spec_encode_int32(x));
        buf
    }
}

impl Encoder for i64 {
    open spec fn spec_encode(&self) -> Seq<u8> {
        spec_encode_int64(*self)
    }

    fn encode(&self) -> (out: Vec<u8>)
        ensures
            out@ == self.spec_encode(),
    {
        let x: i64 = *self;
        let u: u128 = if x < 0 { (x as i128 + 18446744073709551616) as u128 } else { x as u128 };
        let mut buf: Vec<u8> = Vec::new();
        buf.push((u / 72057594037927936) as u8);
        buf.push((u / 281474976710656 % 256) as u8);
        buf.push((u / 1099511627776 % 256) as u8);
        buf.push((u / 4294967296 % 256) as u8);
        buf.push((u / 16777216 % 256) as u8);
        buf.push((u / 65536 % 256) as u8);
        buf.push((u / 256 % 256) as u8);
        buf.push((u % 256) as u8);
        assert(buf@ =~= spec_encode_int64(x));
        buf
    }
}

impl Parser<i32> for i32 {
    open spec fn spec_parse(s: Seq<u8>) -> ParseResult<i32> {
        spec_parse_int32(s)
    }

    fn parse(reader: &mut Reader) -> (r: Result<i32, DecodeError>)
        ensures
            decoded(
                <i32 as Parser<i32>>::spec_parse(old(reader).remaining()),
                r,
                final(reader).remaining(),
            ),
    {
        parse_int32(reader)
    }
}

/// A 128-bit identifier, sixteen raw bytes on the wire.
#[derive(Debug, Clone, Copy, PartialEq)]
pub struct Uuid {
    pub uuid: [u8; 16],
}

impl DeepView for Uuid {
    type V = Seq<u8>;

    /// The sixteen bytes.
    open spec fn deep_view(&self) -> Seq<u8> {
        self.uuid@
    }
}

/// UUID: sixteen raw bytes.
pub open spec fn spec_parse_uuid(s: Seq<u8>) -> ParseResult<Seq<u8>> {
    if s.len() < 16 {
        Err(DecodeError::UnexpectedEof)
    } else {
        Ok((s.take(16), s.skip(16)))
    }
}

/// The bytes of the all-zero identifier.
pub open spec fn zero_uuid() -> Seq<u8> {
    Seq::new(16, |i: int| 0u8)
}

impl Uuid {
    /// The all-zero identifier.
    pub fn new() -> (u: Uuid)
        ensures
            u.deep_view() == zero_uuid(),
    {
        let u = Uuid { uuid: [0;16] };
        assert(u.deep_view() =~= zero_uuid());
        u
    }

    /// Whether two identifiers hold the same bytes.
    pub fn same(&self, other: &Uuid) -> (b: bool)
        ensures
            b == (self.deep_view() == other.deep_view()),
    {
        let mut i: usize = 0;
        while i < 16
            invariant
                i <= 16,
                forall|j: int| 0 <= j < i ==> self.uuid@[j] == other.uuid@[j],
            decreases 16 - i,
        {
            if self.uuid[i] != other.uuid[i] {
                return false;
            }
            i = i + 1;
        }
        assert(self.uuid@ =~= other.uuid@);
        true
    }
}

impl Parser<Uuid> for Uuid {
    open spec fn spec_parse(s: Seq<u8>) -> ParseResult<Seq<u8>> {
        spec_parse_uuid(s)
    }

    fn parse(reader: &mut Reader) -> (r: Result<Uuid, DecodeError>)
        ensures
            decoded(
                <Uuid as Parser<Uuid>>::spec_parse(old(reader).remaining()),
                r,
                final(reader).remaining(),
            ),
    {
        let bytes = reader.read_exact(16)?;
        let mut uuid: [u8; 16] = [0;16];
        let mut i: usize = 0;
        while i < 16
            invariant
                i <= 16,
                bytes@.len() == 16,
                forall|j: int| 0 <= j < i ==> uuid@[j] == bytes@[j],
            decreases 16 - i,
        {
            uuid[i] = bytes[i];
            i = i + 1;
        }
        assert(uuid@ =~= bytes@);
        Ok(Uuid { uuid })
    }
}

impl Encoder for Uuid {
    open spec fn spec_encode(&self) -> Seq<u8> {
        self.uuid@
    }

    fn encode(&self) -> (out: Vec<u8>)
        ensures
            out@ == self.spec_encode(),
    {
        let mut buf: Vec<u8> = Vec::new();
        let mut i: usize = 0;
        while i < 16
            invariant
                i <= 16,
                buf@ == self.uuid@.take(i as int),
            decreases 16 - i,
        {
            buf.push(self.uuid[i]);
            i = i + 1;
            assert(buf@ =~= self.uuid@.take(i as int));
        }
        assert(buf@ =~= self.uuid@);
        buf
    }
}

/// `n` bytes of UTF-8 text. Too few bytes give `UnexpectedEof`; bytes that
/// are not UTF-8 give `InvalidData`.
pub open spec fn spec_parse_utf8(s: Seq<u8>, n: nat) -> ParseResult<Seq<char>> {
    if s.len() < n {
        Err(DecodeError::UnexpectedEof)
    } else if !valid_utf8(s.take(n as int)) {
        Err(DecodeError::InvalidData)
    } else {
        Ok((decode_utf8(s.take(n as int)), s.skip(n as int)))
    }
}

/// COMPACT_STRING: an unsigned varint `N + 1`, then `N` bytes of UTF-8. A
/// length prefix of zero is not a string.
pub open spec fn spec_parse_compact_string(s: Seq<u8>) -> ParseResult<Seq<char>> {
    match spec_parse_unsigned_varlong(s) {
        Err(e) => Err(e),
        Ok((length, rest)) => if length == 0 {
            Err(DecodeError::InvalidData)
        } else {
            spec_parse_utf8(rest, (length - 1) as nat)
        },
    }
}

/// COMPACT_NULLABLE_STRING: an unsigned varint; zero is null, `N + 1` is
/// followed by `N` bytes of UTF-8.
pub open spec fn spec_parse_compact_nullable_string(s: Seq<u8>) -> ParseResult<Option<Seq<char>>> {
    match spec_parse_unsigned_varlong(s) {
        Err(e) => Err(e),
        Ok((length, rest)) => if length == 0 {
            Ok((None, rest))
        } else {
            match spec_parse_utf8(rest, (length - 1) as nat) {
                Err(e) => Err(e),
                Ok((text, after)) => Ok((Some(text), after)),
            }
        },
    }
}

/// NULLABLE_STRING: an INT16 length, then that many bytes of UTF-8. The
/// length `-1` is null, which decodes to the empty string; any other
/// negative length is not a string.
pub open spec fn spec_parse_nullable_string(s: Seq<u8>) -> ParseResult<Seq<char>> {
    match spec_parse_int16(s) {
        Err(e) => Err(e),
        Ok((length, rest)) => if length == -1 {
            Ok((Seq::empty(), rest))
        } else if length < 0 {
            Err(DecodeError::InvalidData)
        } else {
            spec_parse_utf8(rest, length as nat)
        },
    }
}

/// COMPACT_STRING on the wire.
pub open spec fn spec_encode_compact_string(text: Seq<char>) -> Seq<u8> {
    spec_encode_varint(encode_utf8(text).len() + 1) + encode_utf8(text)
}

/// COMPACT_NULLABLE_STRING on the wire: a single zero byte for null.
pub open spec fn spec_encode_compact_nullable_string(text: Option<Seq<char>>) -> Seq<u8> {
    match text {
        Some(t) => spec_encode_compact_string(t),
        None => seq![0u8],
    }
}

/// TAG_BUFFER: one byte, whatever it holds; no tag is kept.
pub open spec fn spec_parse_tag_buffer(s: Seq<u8>) -> ParseResult<Seq<u8>> {
    if s.len() < 1 {
        Err(DecodeError::UnexpectedEof)
    } else {
        Ok((Seq::empty(), s.skip(1)))
    }
}

/// The empty TAG_BUFFER on the wire.
pub open spec fn spec_encode_tag_buffer() -> Seq<u8> {
    seq![0u8]
}

/// `String::from_utf8` of std: the text that `bytes` spell, if and only if
/// they are well-formed UTF-8.
#[verifier::external_body]
fn string_from_utf8(bytes: Vec<u8>) -> (r: Option<String>)
    ensures
        r is Some <==> valid_utf8(bytes@),
        r is Some ==> r->Some_0@ == decode_utf8(bytes@),
{
    String::from_utf8(bytes).ok()
}

/// Takes `n` bytes and reads them as UTF-8 text.
fn parse_utf8(reader: &mut Reader, n: u64) -> (r: Result<String, DecodeError>)
    ensures
        decoded(
            spec_parse_utf8(old(reader).remaining(), n as nat),
            r,
            final(reader).remaining(),
        ),
{
    if n > reader.len() as u64 {
        return Err(DecodeError::UnexpectedEof);
    }
    let bytes = reader.read_exact(n as usize)?;
    match string_from_utf8(bytes) {
        Some(text) => Ok(text),
        None => Err(DecodeError::InvalidData),
    }
}

/// The varint of `len + 1`, the length prefix of the compact types.
fn encode_length_plus_one(len: usize) -> (out: Vec<u8>)
    ensures
        out@ == spec_encode_varint((len + 1) as nat),
{
    encode_varint_wide(len as u128 + 1)
}

/// Decodes a COMPACT_STRING.
pub fn parse_compact_string(reader: &mut Reader) -> (r: Result<String, DecodeError>)
    ensures
        decoded(
            spec_parse_compact_string(old(reader).remaining()),
            r,
            final(reader).remaining(),
        ),
{
    let length: u64 = parse_unsigned_varlong(reader)?;
    if length == 0 {
        return Err(DecodeError::InvalidData);
    }
    parse_utf8(reader, length - 1)
}

/// Decodes a COMPACT_NULLABLE_STRING.
pub fn parse_compact_nullable_string(reader: &mut Reader) -> (r: Result<
    Option<String>,
    DecodeError,
>)
    ensures
        decoded(
            spec_parse_compact_nullable_string(old(reader).remaining()),
            r,
            final(reader).remaining(),
        ),
{
    let length: u64 = parse_unsigned_varlong(reader)?;
    if length == 0 {
        return Ok(None);
    }
    let text = parse_utf8(reader, length - 1)?;
    Ok(Some(text))
}

/// Decodes a NULLABLE_STRING; null becomes the empty string.
pub fn parse_nullable_string(reader: &mut Reader) -> (r: Result<String, DecodeError>)
    ensures
        decoded(
            spec_parse_nullable_string(old(reader).remaining()),
            r,
            final(reader).remaining(),
        ),
{
    let length: i16 = parse_int16(reader)?;
    if length == -1 {
        return Ok(String::new());
    }
    if length < 0 {
        return Err(DecodeError::InvalidData);
    }
    parse_utf8(reader, length as u64)
}

/// Encodes a COMPACT_STRING.
pub fn encode_compact_string(string: &String) -> (out: Vec<u8>)
    ensures
        out@ == spec_encode_compact_string(string@),
{
    let mut bytes = string.as_str().as_bytes_vec();
    let mut buf = encode_length_plus_one(bytes.len());
    buf.append(&mut bytes);
    buf
}

/// Encodes a COMPACT_NULLABLE_STRING.
pub fn encode_compact_nullable_string(string: &Option<String>) -> (out: Vec<u8>)
    ensures
        out@ == spec_encode_compact_nullable_string(string.deep_view()),
{
    match string {
        Some(s) => encode_compact_string(s),
        None => {
            let mut buf: Vec<u8> = Vec::new();
            buf.push(0);
            assert(buf@ =~= seq![0u8]);
            buf
        },
    }
}

/// Decodes a TAG_BUFFER: skips its one byte and returns no tags.
pub fn parse_tag_buffer(reader: &mut Reader) -> (r: Result<Vec<u8>, DecodeError>)
    ensures
        decoded(spec_parse_tag_buffer(old(reader).remaining()), r, final(reader).remaining()),
{
    let _ = reader.read_u8()?;
    let tags: Vec<u8> = Vec::new();
    assert(tags.deep_view() =~= Seq::<u8>::empty());
    Ok(tags)
}

/// Encodes the empty TAG_BUFFER.
pub fn encode_tag_buffer() -> (out: Vec<u8>)
    ensures
        out@ == spec_encode_tag_buffer(),
{
    let mut buf: Vec<u8> = Vec::new();
    buf.push(0);
    assert(buf@ =~= seq![0u8]);
    buf
}

/// A string that is a COMPACT_STRING on the wire.
#[derive(Debug)]
pub struct CompactString(pub String);

impl DeepView for CompactString {
    type V = Seq<char>;

    open spec fn deep_view(&self) -> Seq<char> {
        self.0@
    }
}

impl Parser<CompactString> for CompactString {
    open spec fn spec_parse(s: Seq<u8>) -> ParseResult<Seq<char>> {
        spec_parse_compact_string(s)
    }

    fn parse(reader: &mut Reader) -> (r: Result<CompactString, DecodeError>)
        ensures
            decoded(
                <CompactString as Parser<CompactString>>::spec_parse(old(reader).remaining()),
                r,
                final(reader).remaining(),
            ),
    {
        let text = parse_compact_string(reader)?;
        Ok(CompactString(text))
    }
}

/// Puts the items `front` before a decoded sequence; an error passes through.
pub open spec fn after_items<V>(front: Seq<V>, back: ParseResult<Seq<V>>) -> ParseResult<Seq<V>> {
    match back {
        Ok((items, rest)) => Ok((front + items, rest)),
        Err(e) => Err(e),
    }
}

/// `count` elements in a row, each followed by a tag buffer if `tagged`.
/// The first element that fails, or tag buffer that is missing, fails the
/// whole sequence.
pub open spec fn spec_parse_elements<P: Parser<P> + DeepView>(
    s: Seq<u8>,
    count: nat,
    tagged: bool,
) -> ParseResult<Seq<P::V>>
    decreases count,
{
    if count == 0 {
        Ok((Seq::empty(), s))
    } else {
        match P::spec_parse(s) {
            Err(e) => Err(e),
            Ok((item, rest)) => if !tagged {
                after_items(seq![item], spec_parse_elements::<P>(rest, (count - 1) as nat, tagged))
            } else {
                match spec_parse_tag_buffer(rest) {
                    Err(e) => Err(e),
                    Ok((_, after)) => after_items(
                        seq![item],
                        spec_parse_elements::<P>(after, (count - 1) as nat, tagged),
                    ),
                }
            },
        }
    }
}

/// COMPACT_ARRAY: an unsigned varint `N + 1`, then `N` elements. A prefix of
/// zero is read as the empty array.
pub open spec fn spec_parse_compact_array<P: Parser<P> + DeepView>(
    s: Seq<u8>,
    tagged: bool,
) -> ParseResult<Seq<P::V>> {
    match spec_parse_unsigned_varlong(s) {
        Err(e) => Err(e),
        Ok((length, rest)) => if length == 0 {
            Ok((Seq::empty(), rest))
        } else {
            spec_parse_elements::<P>(rest, (length - 1) as nat, tagged)
        },
    }
}

/// NULLABLE_FIELD: an INT8 marker, `-1` for none; after any other marker the
/// value follows.
pub open spec fn spec_parse_nullable_field<P: Parser<P> + DeepView>(s: Seq<u8>) -> ParseResult<
    Option<P::V>,
> {
    if s.len() < 1 {
        Err(DecodeError::UnexpectedEof)
    } else if s[0] == 0xff {
        Ok((None, s.skip(1)))
    } else {
        match P::spec_parse(s.skip(1)) {
            Err(e) => Err(e),
            Ok((value, rest)) => Ok((Some(value), rest)),
        }
    }
}

/// The encodings of `items`, one after the other.
pub open spec fn spec_encode_elements<T: Encoder>(items: Seq<T>) -> Seq<u8>
    decreases items.len(),
{
    if items.len() == 0 {
        Seq::empty()
    } else {
        items[0].spec_encode() + spec_encode_elements(items.skip(1))
    }
}

/// COMPACT_ARRAY on the wire: the varint `N + 1` and the `N` elements; the
/// empty array is the single varint zero.
pub open spec fn spec_encode_compact_array<T: Encoder>(items: Seq<T>) -> Seq<u8> {
    if items.len() == 0 {
        spec_encode_varint(0)
    } else {
        spec_encode_varint(items.len() + 1) + spec_encode_elements(items)
    }
}

/// NULLABLE_FIELD on the wire: the marker `-1` for none, the marker `0` and
/// the value for some.
pub open spec fn spec_encode_nullable_field<T: Encoder>(field: Option<T>) -> Seq<u8> {
    match field {
        Some(value) => seq![0u8] + value.spec_encode(),
        None => seq![0xffu8],
    }
}

proof fn lemma_after_items_step<V>(front: Seq<V>, item: V, back: ParseResult<Seq<V>>)
    ensures
        after_items(front, after_items(seq![item], back)) == after_items(front.push(item), back),
{
    if let Ok((items, rest)) = back {
        assert(front + (seq![item] + items) =~= front.push(item) + items);
    }
}

/// Decodes `count` elements, each followed by a tag buffer if `tagged`.
pub fn parse_elements<P: Parser<P> + DeepView>(reader: &mut Reader, count: u64, tagged: bool) -> (r:
    Result<Vec<P>, DecodeError>)
    ensures
        decoded(
            spec_parse_elements::<P>(old(reader).remaining(), count as nat, tagged),
            r,
            final(reader).remaining(),
        ),
{
    let ghost input = reader.remaining();
    let mut array: Vec<P> = Vec::new();
    let mut done: u64 = 0;
    assert(array.deep_view() =~= Seq::<P::V>::empty());
    assert(after_items(
        Seq::<P::V>::empty(),
        spec_parse_elements::<P>(input, count as nat, tagged),
    ) == spec_parse_elements::<P>(input, count as nat, tagged)) by {
        if let Ok((items, rest)) = spec_parse_elements::<P>(input, count as nat, tagged) {
            assert(Seq::<P::V>::empty() + items =~= items);
        }
    }
    while done < count
        invariant
            done <= count,
            spec_parse_elements::<P>(input, count as nat, tagged) == after_items(
                array.deep_view(),
                spec_parse_elements::<P>(reader.remaining(), (count - done) as nat, tagged),
            ),
            input == old(reader).remaining(),
        decreases count - done,
    {
        let ghost front = array.deep_view();
        let item = P::parse(reader)?;
        if tagged {
            let _ = parse_tag_buffer(reader)?;
        }
        proof {
            lemma_after_items_step(
                front,
                item.deep_view(),
                spec_parse_elements::<P>(reader.remaining(), (count - done - 1) as nat, tagged),
            );
        }
        array.push(item);
        done = done + 1;
        assert(array.deep_view() =~= front.push(item.deep_view()));
    }
    assert(array.deep_view() + Seq::<P::V>::empty() =~= array.deep_view());
    Ok(array)
}

/// Decodes a COMPACT_ARRAY whose every element is followed by a tag buffer.
pub fn parse_compact_array_with_tag_buffer<P: Parser<P> + DeepView>(reader: &mut Reader) -> (r:
    Result<Vec<P>, DecodeError>)
    ensures
        decoded(
            spec_parse_compact_array::<P>(old(reader).remaining(), true),
            r,
            final(reader).remaining(),
        ),
{
    let length: u64 = parse_unsigned_varlong(reader)?;
    if length == 0 {
        let array: Vec<P> = Vec::new();
        assert(array.deep_view() =~= Seq::<P::V>::empty());
        return Ok(array);
    }
    parse_elements::<P>(reader, length - 1, true)
}

/// Decodes a COMPACT_ARRAY.
pub fn parse_compact_array<P: Parser<P> + DeepView>(reader: &mut Reader) -> (r: Result<
    Vec<P>,
    DecodeError,
>)
    ensures
        decoded(
            spec_parse_compact_array::<P>(old(reader).remaining(), false),
            r,
            final(reader).remaining(),
        ),
{
    let length: u64 = parse_unsigned_varlong(reader)?;
    if length == 0 {
        let array: Vec<P> = Vec::new();
        assert(array.deep_view() =~= Seq::<P::V>::empty());
        return Ok(array);
    }
    parse_elements::<P>(reader, length - 1, false)
}

/// Encodes a COMPACT_ARRAY.
pub fn encode_compact_array<T: Encoder>(array: &Vec<T>) -> (out: Vec<u8>)
    ensures
        out@ == spec_encode_compact_array(array@),
{
    if array.len() == 0 {
        return encode_varint(0);
    }
    let mut res = encode_length_plus_one(array.len());
    let ghost prefix = res@;
    let mut i: usize = 0;
    assert(array@.skip(0) =~= array@);
    assert(res@ + spec_encode_elements(array@) =~= prefix + spec_encode_elements(array@));
    while i < array.len()
        invariant
            i <= array.len(),
            res@ + spec_encode_elements(array@.skip(i as int)) == prefix + spec_encode_elements(
                array@,
            ),
        decreases array.len() - i,
    {
        let ghost before = res@;
        let mut item = array[i].encode();
        res.append(&mut item);
        assert(array@.skip(i as int).skip(1) =~= array@.skip(i + 1));
        assert(res@ + spec_encode_elements(array@.skip(i + 1)) =~= before + spec_encode_elements(
            array@.skip(i as int),
        ));
        i = i + 1;
    }
    assert(res@ + Seq::<u8>::empty() =~= res@);
    res
}

/// Decodes a NULLABLE_FIELD.
pub fn parse_nullable_field<P: Parser<P> + DeepView>(reader: &mut Reader) -> (r: Result<
    Option<P>,
    DecodeError,
>)
    ensures
        decoded(
            spec_parse_nullable_field::<P>(old(reader).remaining()),
            r,
            final(reader).remaining(),
        ),
{
    let marker: u8 = reader.read_u8()?;
    if marker == 0xff {
        return Ok(None);
    }
    let value = P::parse(reader)?;
    Ok(Some(value))
}

/// Encodes a NULLABLE_FIELD.
pub fn encode_nullable_field<T: Encoder>(field: &Option<T>) -> (out: Vec<u8>)
    ensures
        out@ == spec_encode_nullable_field(*field),
{
    let mut buf: Vec<u8> = Vec::new();
    match field {
        Some(f) => {
            buf.push(0);
            let mut body = f.encode();
            buf.append(&mut body);
            assert(buf@ =~= seq![0u8] + f.spec_encode());
        },
        None => {
            buf.push(0xff);
            assert(buf@ =~= seq![0xffu8]);
        },
    }
    buf
}

/// Whether no decoding of a `P` leaves more bytes than it was given.
pub open spec fn reads_forward<P: Parser<P> + DeepView>() -> bool {
    forall|s: Seq<u8>| (#[trigger] P::spec_parse(s)) is Ok ==> rest_of(P::spec_parse(s)).len()
        <= s.len()
}

/// A varint takes at least one byte.
pub proof fn lemma_varint_reads_forward(s: Seq<u8>, budget: nat)
    ensures
        spec_parse_varint_groups(s, budget) is Ok ==> rest_of(
            spec_parse_varint_groups(s, budget),
        ).len() < s.len(),
    decreases budget,
{
    if budget > 1 && s.len() > 0 && s[0] >= 128 {
        lemma_varint_reads_forward(s.skip(1), (budget - 1) as nat);
    }
}

/// A compact string takes at least one byte.
pub proof fn lemma_compact_string_reads_forward(s: Seq<u8>)
    ensures
        spec_parse_compact_string(s) is Ok ==> rest_of(spec_parse_compact_string(s)).len()
            < s.len(),
{
    lemma_varint_reads_forward(s, MAX_VARINT_BYTES as nat);
}

/// A run of elements leaves no more bytes than it was given, if no element
/// does.
pub proof fn lemma_elements_read_forward<P: Parser<P> + DeepView>(
    s: Seq<u8>,
    count: nat,
    tagged: bool,
)
    requires
        reads_forward::<P>(),
    ensures
        spec_parse_elements::<P>(s, count, tagged) is Ok ==> rest_of(
            spec_parse_elements::<P>(s, count, tagged),
        ).len() <= s.len(),
    decreases count,
{
    if count > 0 {
        if let Ok((item, rest)) = P::spec_parse(s) {
            if !tagged {
                lemma_elements_read_forward::<P>(rest, (count - 1) as nat, tagged);
            } else if let Ok((_, after)) = spec_parse_tag_buffer(rest) {
                lemma_elements_read_forward::<P>(after, (count - 1) as nat, tagged);
            }
        }
    }
}

/// A compact array takes at least one byte, if no element leaves more bytes
/// than it was given.
pub proof fn lemma_compact_array_reads_forward<P: Parser<P> + DeepView>(s: Seq<u8>, tagged: bool)
    requires
        reads_forward::<P>(),
    ensures
        spec_parse_compact_array::<P>(s, tagged) is Ok ==> rest_of(
            spec_parse_compact_array::<P>(s, tagged),
        ).len() < s.len(),
{
    lemma_varint_reads_forward(s, MAX_VARINT_BYTES as nat);
    if let Ok((length, rest)) = spec_parse_unsigned_varlong(s) {
        if length > 0 {
            lemma_elements_read_forward::<P>(rest, (length - 1) as nat, tagged);
        }
    }
}

} // verus!
