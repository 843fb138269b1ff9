//! Endian-parameterized integer reads: each decodes a fixed number of
//! bytes into an integer, with a round-trip law against the matching
//! byte-building function.

use vstd::prelude::*;

use crate::expected::Expected;
use crate::reader::Reader;
use crate::split::is_length_error;

verus! {
/// The `u16` encoded by `s` in little-endian order.
pub open spec fn u16_from_le_spec(s: Seq<u8>) -> u16
    recommends
        s.len() == 2,
{
    (s[0] as u16) | ((s[1] as u16) << 8)
}

/// The `u16` encoded by `s` in big-endian order.
pub open spec fn u16_from_be_spec(s: Seq<u8>) -> u16
    recommends
        s.len() == 2,
{
    ((s[0] as u16) << 8) | (s[1] as u16)
}

/// The `u32` encoded by `s` in little-endian order.
pub open spec fn u32_from_le_spec(s: Seq<u8>) -> u32
    recommends
        s.len() == 4,
{
    (s[0] as u32) | ((s[1] as u32) << 8) | ((s[2] as u32) << 16) | ((s[3] as u32) << 24)
}

/// The `u32` encoded by `s` in big-endian order.
pub open spec fn u32_from_be_spec(s: Seq<u8>) -> u32
    recommends
        s.len() == 4,
{
    ((s[0] as u32) << 24) | ((s[1] as u32) << 16) | ((s[2] as u32) << 8) | (s[3] as u32)
}

/// The `u64` encoded by `s` in little-endian order.
pub open spec fn u64_from_le_spec(s: Seq<u8>) -> u64
    recommends
        s.len() == 8,
{
    (s[0] as u64) | ((s[1] as u64) << 8) | ((s[2] as u64) << 16) | ((s[3] as u64) << 24) | ((s[4] as u64) << 32) | ((s[5] as u64) << 40) | ((s[6] as u64) << 48) | ((s[7] as u64) << 56)
}

/// The `u64` encoded by `s` in big-endian order.
pub open spec fn u64_from_be_spec(s: Seq<u8>) -> u64
    recommends
        s.len() == 8,
{
    ((s[0] as u64) << 56) | ((s[1] as u64) << 48) | ((s[2] as u64) << 40) | ((s[3] as u64) << 32) | ((s[4] as u64) << 24) | ((s[5] as u64) << 16) | ((s[6] as u64) << 8) | (s[7] as u64)
}

/// The `u128` encoded by `s` in little-endian order.
pub open spec fn u128_from_le_spec(s: Seq<u8>) -> u128
    recommends
        s.len() == 16,
{
    (s[0] as u128) | ((s[1] as u128) << 8) | ((s[2] as u128) << 16) | ((s[3] as u128) << 24) | ((s[4] as u128) << 32) | ((s[5] as u128) << 40) | ((s[6] as u128) << 48) | ((s[7] as u128) << 56) | ((s[8] as u128) << 64) | ((s[9] as u128) << 72) | ((s[10] as u128) << 80) | ((s[11] as u128) << 88) | ((s[12] as u128) << 96) | ((s[13] as u128) << 104) | ((s[14] as u128) << 112) | ((s[15] as u128) << 120)
}

/// The `u128` encoded by `s` in big-endian order.
pub open spec fn u128_from_be_spec(s: Seq<u8>) -> u128
    recommends
        s.len() == 16,
{
    ((s[0] as u128) << 120) | ((s[1] as u128) << 112) | ((s[2] as u128) << 104) | ((s[3] as u128) << 96) | ((s[4] as u128) << 88) | ((s[5] as u128) << 80) | ((s[6] as u128) << 72) | ((s[7] as u128) << 64) | ((s[8] as u128) << 56) | ((s[9] as u128) << 48) | ((s[10] as u128) << 40) | ((s[11] as u128) << 32) | ((s[12] as u128) << 24) | ((s[13] as u128) << 16) | ((s[14] as u128) << 8) | (s[15] as u128)
}

/// The little-endian bytes of `x`.
pub open spec fn u16_to_le_bytes_spec(x: u16) -> Seq<u8> {
    seq![(x & 0xff) as u8, ((x >> 8) & 0xff) as u8]
}

/// The big-endian bytes of `x`.
pub open spec fn u16_to_be_bytes_spec(x: u16) -> Seq<u8> {
    seq![((x >> 8) & 0xff) as u8, (x & 0xff) as u8]
}

/// The little-endian bytes of `x`.
pub open spec fn u32_to_le_bytes_spec(x: u32) -> Seq<u8> {
    seq![(x & 0xff) as u8, ((x >> 8) & 0xff) as u8, ((x >> 16) & 0xff) as u8, ((x >> 24) & 0xff) as u8]
}

/// The big-endian bytes of `x`.
pub open spec fn u32_to_be_bytes_spec(x: u32) -> Seq<u8> {
    seq![((x >> 24) & 0xff) as u8, ((x >> 16) & 0xff) as u8, ((x >> 8) & 0xff) as u8, (x & 0xff) as u8]
}

/// The little-endian bytes of `x`.
pub open spec fn u64_to_le_bytes_spec(x: u64) -> Seq<u8> {
    seq![(x & 0xff) as u8, ((x >> 8) & 0xff) as u8, ((x >> 16) & 0xff) as u8, ((x >> 24) & 0xff) as u8, ((x >> 32) & 0xff) as u8, ((x >> 40) & 0xff) as u8, ((x >> 48) & 0xff) as u8, ((x >> 56) & 0xff) as u8]
}

/// The big-endian bytes of `x`.
pub open spec fn u64_to_be_bytes_spec(x: u64) -> Seq<u8> {
    seq![((x >> 56) & 0xff) as u8, ((x >> 48) & 0xff) as u8, ((x >> 40) & 0xff) as u8, ((x >> 32) & 0xff) as u8, ((x >> 24) & 0xff) as u8, ((x >> 16) & 0xff) as u8, ((x >> 8) & 0xff) as u8, (x & 0xff) as u8]
}

/// The little-endian bytes of `x`.
pub open spec fn u128_to_le_bytes_spec(x: u128) -> Seq<u8> {
    seq![(x & 0xff) as u8, ((x >> 8) & 0xff) as u8, ((x >> 16) & 0xff) as u8, ((x >> 24) & 0xff) as u8, ((x >> 32) & 0xff) as u8, ((x >> 40) & 0xff) as u8, ((x >> 48) & 0xff) as u8, ((x >> 56) & 0xff) as u8, ((x >> 64) & 0xff) as u8, ((x >> 72) & 0xff) as u8, ((x >> 80) & 0xff) as u8, ((x >> 88) & 0xff) as u8, ((x >> 96) & 0xff) as u8, ((x >> 104) & 0xff) as u8, ((x >> 112) & 0xff) as u8, ((x >> 120) & 0xff) as u8]
}

/// The big-endian bytes of `x`.
pub open spec fn u128_to_be_bytes_spec(x: u128) -> Seq<u8> {
    seq![((x >> 120) & 0xff) as u8, ((x >> 112) & 0xff) as u8, ((x >> 104) & 0xff) as u8, ((x >> 96) & 0xff) as u8, ((x >> 88) & 0xff) as u8, ((x >> 80) & 0xff) as u8, ((x >> 72) & 0xff) as u8, ((x >> 64) & 0xff) as u8, ((x >> 56) & 0xff) as u8, ((x >> 48) & 0xff) as u8, ((x >> 40) & 0xff) as u8, ((x >> 32) & 0xff) as u8, ((x >> 24) & 0xff) as u8, ((x >> 16) & 0xff) as u8, ((x >> 8) & 0xff) as u8, (x & 0xff) as u8]
}

/// Decoding the little-endian bytes of a `u16` yields it back.
pub proof fn lemma_u16_le_round_trip(x: u16)
    ensures
        u16_to_le_bytes_spec(x).len() == 2,
        u16_from_le_spec(u16_to_le_bytes_spec(x)) == x,
{
    let s = u16_to_le_bytes_spec(x);
    let b0 = s[0];
    let b1 = s[1];
    assert(((b0 as u16) | ((b1 as u16) << 8)) == x) by (bit_vector)
        requires
            b0 == ((x & 0xff) as u8),
            b1 == (((x >> 8) & 0xff) as u8),
    ;
    assert(u16_from_le_spec(s) == x);
}

/// Decoding the big-endian bytes of a `u16` yields it back.
pub proof fn lemma_u16_be_round_trip(x: u16)
    ensures
        u16_to_be_bytes_spec(x).len() == 2,
        u16_from_be_spec(u16_to_be_bytes_spec(x)) == x,
{
    let s = u16_to_be_bytes_spec(x);
    let b0 = s[0];
    let b1 = s[1];
    assert((((b0 as u16) << 8) | (b1 as u16)) == x) by (bit_vector)
        requires
            b0 == (((x >> 8) & 0xff) as u8),
            b1 == ((x & 0xff) as u8),
    ;
    assert(u16_from_be_spec(s) == x);
}

/// Decoding the little-endian bytes of a `u32` yields it back.
pub proof fn lemma_u32_le_round_trip(x: u32)
    ensures
        u32_to_le_bytes_spec(x).len() == 4,
        u32_from_le_spec(u32_to_le_bytes_spec(x)) == x,
{
    let s = u32_to_le_bytes_spec(x);
    let b0 = s[0];
    let b1 = s[1];
    let b2 = s[2];
    let b3 = s[3];
    assert(((b0 as u32) | ((b1 as u32) << 8) | ((b2 as u32) << 16) | ((b3 as u32) << 24)) == x) by (bit_vector)
        requires
            b0 == ((x & 0xff) as u8),
            b1 == (((x >> 8) & 0xff) as u8),
            b2 == (((x >> 16) & 0xff) as u8),
            b3 == (((x >> 24) & 0xff) as u8),
    ;
    assert(u32_from_le_spec(s) == x);
}

/// Decoding the big-endian bytes of a `u32` yields it back.
pub proof fn lemma_u32_be_round_trip(x: u32)
    ensures
        u32_to_be_bytes_spec(x).len() == 4,
        u32_from_be_spec(u32_to_be_bytes_spec(x)) == x,
{
    let s = u32_to_be_bytes_spec(x);
    let b0 = s[0];
    let b1 = s[1];
    let b2 = s[2];
    let b3 = s[3];
    assert((((b0 as u32) << 24) | ((b1 as u32) << 16) | ((b2 as u32) << 8) | (b3 as u32)) == x) by (bit_vector)
        requires
            b0 == (((x >> 24) & 0xff) as u8),
            b1 == (((x >> 16) & 0xff) as u8),
            b2 == (((x >> 8) & 0xff) as u8),
            b3 == ((x & 0xff) as u8),
    ;
    assert(u32_from_be_spec(s) == x);
}

/// Decoding the little-endian bytes of a `u64` yields it back.
pub proof fn lemma_u64_le_round_trip(x: u64)
    ensures
        u64_to_le_bytes_spec(x).len() == 8,
        u64_from_le_spec(u64_to_le_bytes_spec(x)) == x,
{
    let s = u64_to_le_bytes_spec(x);
    let b0 = s[0];
    let b1 = s[1];
    let b2 = s[2];
    let b3 = s[3];
    let b4 = s[4];
    let b5 = s[5];
    let b6 = s[6];
    let b7 = s[7];
    assert(((b0 as u64) | ((b1 as u64) << 8) | ((b2 as u64) << 16) | ((b3 as u64) << 24) | ((b4 as u64) << 32) | ((b5 as u64) << 40) | ((b6 as u64) << 48) | ((b7 as u64) << 56)) == x) by (bit_vector)
        requires
            b0 == ((x & 0xff) as u8),
            b1 == (((x >> 8) & 0xff) as u8),
            b2 == (((x >> 16) & 0xff) as u8),
            b3 == (((x >> 24) & 0xff) as u8),
            b4 == (((x >> 32) & 0xff) as u8),
            b5 == (((x >> 40) & 0xff) as u8),
            b6 == (((x >> 48) & 0xff) as u8),
            b7 == (((x >> 56) & 0xff) as u8),
    ;
    assert(u64_from_le_spec(s) == x);
}

/// Decoding the big-endian bytes of a `u64` yields it back.
pub proof fn lemma_u64_be_round_trip(x: u64)
    ensures
        u64_to_be_bytes_spec(x).len() == 8,
        u64_from_be_spec(u64_to_be_bytes_spec(x)) == x,
{
    let s = u64_to_be_bytes_spec(x);
    let b0 = s[0];
    let b1 = s[1];
    let b2 = s[2];
    let b3 = s[3];
    let b4 = s[4];
    let b5 = s[5];
    let b6 = s[6];
    let b7 = s[7];
    assert((((b0 as u64) << 56) | ((b1 as u64) << 48) | ((b2 as u64) << 40) | ((b3 as u64) << 32) | ((b4 as u64) << 24) | ((b5 as u64) << 16) | ((b6 as u64) << 8) | (b7 as u64)) == x) by (bit_vector)
        requires
            b0 == (((x >> 56) & 0xff) as u8),
            b1 == (((x >> 48) & 0xff) as u8),
            b2 == (((x >> 40) & 0xff) as u8),
            b3 == (((x >> 32) & 0xff) as u8),
            b4 == (((x >> 24) & 0xff) as u8),
            b5 == (((x >> 16) & 0xff) as u8),
            b6 == (((x >> 8) & 0xff) as u8),
            b7 == ((x & 0xff) as u8),
    ;
    assert(u64_from_be_spec(s) == x);
}

/// Decoding the little-endian bytes of a `u128` yields it back.
pub proof fn lemma_u128_le_round_trip(x: u128)
    ensures
        u128_to_le_bytes_spec(x).len() == 16,
        u128_from_le_spec(u128_to_le_bytes_spec(x)) == x,
{
    let s = u128_to_le_bytes_spec(x);
    let b0 = s[0];
    let b1 = s[1];
    let b2 = s[2];
    let b3 = s[3];
    let b4 = s[4];
    let b5 = s[5];
    let b6 = s[6];
    let b7 = s[7];
    let b8 = s[8];
    let b9 = s[9];
    let b10 = s[10];
    let b11 = s[11];
    let b12 = s[12];
    let b13 = s[13];
    let b14 = s[14];
    let b15 = s[15];
    assert(((b0 as u128) | ((b1 as u128) << 8) | ((b2 as u128) << 16) | ((b3 as u128) << 24) | ((b4 as u128) << 32) | ((b5 as u128) << 40) | ((b6 as u128) << 48) | ((b7 as u128) << 56) | ((b8 as u128) << 64) | ((b9 as u128) << 72) | ((b10 as u128) << 80) | ((b11 as u128) << 88) | ((b12 as u128) << 96) | ((b13 as u128) << 104) | ((b14 as u128) << 112) | ((b15 as u128) << 120)) == x) by (bit_vector)
        requires
            b0 == ((x & 0xff) as u8),
            b1 == (((x >> 8) & 0xff) as u8),
            b2 == (((x >> 16) & 0xff) as u8),
            b3 == (((x >> 24) & 0xff) as u8),
            b4 == (((x >> 32) & 0xff) as u8),
            b5 == (((x >> 40) & 0xff) as u8),
            b6 == (((x >> 48) & 0xff) as u8),
            b7 == (((x >> 56) & 0xff) as u8),
            b8 == (((x >> 64) & 0xff) as u8),
            b9 == (((x >> 72) & 0xff) as u8),
            b10 == (((x >> 80) & 0xff) as u8),
            b11 == (((x >> 88) & 0xff) as u8),
            b12 == (((x >> 96) & 0xff) as u8),
            b13 == (((x >> 104) & 0xff) as u8),
            b14 == (((x >> 112) & 0xff) as u8),
            b15 == (((x >> 120) & 0xff) as u8),
    ;
    assert(u128_from_le_spec(s) == x);
}

/// Decoding the big-endian bytes of a `u128` yields it back.
pub proof fn lemma_u128_be_round_trip(x: u128)
    ensures
        u128_to_be_bytes_spec(x).len() == 16,
        u128_from_be_spec(u128_to_be_bytes_spec(x)) == x,
{
    let s = u128_to_be_bytes_spec(x);
    let b0 = s[0];
    let b1 = s[1];
    let b2 = s[2];
    let b3 = s[3];
    let b4 = s[4];
    let b5 = s[5];
    let b6 = s[6];
    let b7 = s[7];
    let b8 = s[8];
    let b9 = s[9];
    let b10 = s[10];
    let b11 = s[11];
    let b12 = s[12];
    let b13 = s[13];
    let b14 = s[14];
    let b15 = s[15];
    assert((((b0 as u128) << 120) | ((b1 as u128) << 112) | ((b2 as u128) << 104) | ((b3 as u128) << 96) | ((b4 as u128) << 88) | ((b5 as u128) << 80) | ((b6 as u128) << 72) | ((b7 as u128) << 64) | ((b8 as u128) << 56) | ((b9 as u128) << 48) | ((b10 as u128) << 40) | ((b11 as u128) << 32) | ((b12 as u128) << 24) | ((b13 as u128) << 16) | ((b14 as u128) << 8) | (b15 as u128)) == x) by (bit_vector)
        requires
            b0 == (((x >> 120) & 0xff) as u8),
            b1 == (((x >> 112) & 0xff) as u8),
            b2 == (((x >> 104) & 0xff) as u8),
            b3 == (((x >> 96) & 0xff) as u8),
            b4 == (((x >> 88) & 0xff) as u8),
            b5 == (((x >> 80) & 0xff) as u8),
            b6 == (((x >> 72) & 0xff) as u8),
            b7 == (((x >> 64) & 0xff) as u8),
            b8 == (((x >> 56) & 0xff) as u8),
            b9 == (((x >> 48) & 0xff) as u8),
            b10 == (((x >> 40) & 0xff) as u8),
            b11 == (((x >> 32) & 0xff) as u8),
            b12 == (((x >> 24) & 0xff) as u8),
            b13 == (((x >> 16) & 0xff) as u8),
            b14 == (((x >> 8) & 0xff) as u8),
            b15 == ((x & 0xff) as u8),
    ;
    assert(u128_from_be_spec(s) == x);
}

/// Decoding the little-endian bytes of an `i16`, written through its
/// unsigned bit pattern, yields it back.
pub proof fn lemma_i16_le_round_trip(x: i16)
    ensures
        u16_from_le_spec(u16_to_le_bytes_spec(x as u16)) as i16 == x,
{
    lemma_u16_le_round_trip(x as u16);
    assert(((x as u16) as i16) == x) by (bit_vector);
}

/// Decoding the big-endian bytes of an `i16`, written through its
/// unsigned bit pattern, yields it back.
pub proof fn lemma_i16_be_round_trip(x: i16)
    ensures
        u16_from_be_spec(u16_to_be_bytes_spec(x as u16)) as i16 == x,
{
    lemma_u16_be_round_trip(x as u16);
    assert(((x as u16) as i16) == x) by (bit_vector);
}

/// Decoding the little-endian bytes of an `i32`, written through its
/// unsigned bit pattern, yields it back.
pub proof fn lemma_i32_le_round_trip(x: i32)
    ensures
        u32_from_le_spec(u32_to_le_bytes_spec(x as u32)) as i32 == x,
{
    lemma_u32_le_round_trip(x as u32);
    assert(((x as u32) as i32) == x) by (bit_vector);
}

/// Decoding the big-endian bytes of an `i32`, written through its
/// unsigned bit pattern, yields it back.
pub proof fn lemma_i32_be_round_trip(x: i32)
    ensures
        u32_from_be_spec(u32_to_be_bytes_spec(x as u32)) as i32 == x,
{
    lemma_u32_be_round_trip(x as u32);
    assert(((x as u32) as i32) == x) by (bit_vector);
}

/// Decoding the little-endian bytes of an `i64`, written through its
/// unsigned bit pattern, yields it back.
pub proof fn lemma_i64_le_round_trip(x: i64)
    ensures
        u64_from_le_spec(u64_to_le_bytes_spec(x as u64)) as i64 == x,
{
    lemma_u64_le_round_trip(x as u64);
    assert(((x as u64) as i64) == x) by (bit_vector);
}

/// Decoding the big-endian bytes of an `i64`, written through its
/// unsigned bit pattern, yields it back.
pub proof fn lemma_i64_be_round_trip(x: i64)
    ensures
        u64_from_be_spec(u64_to_be_bytes_spec(x as u64)) as i64 == x,
{
    lemma_u64_be_round_trip(x as u64);
    assert(((x as u64) as i64) == x) by (bit_vector);
}

/// Decoding the little-endian bytes of an `i128`, written through its
/// unsigned bit pattern, yields it back.
pub proof fn lemma_i128_le_round_trip(x: i128)
    ensures
        u128_from_le_spec(u128_to_le_bytes_spec(x as u128)) as i128 == x,
{
    lemma_u128_le_round_trip(x as u128);
    assert(((x as u128) as i128) == x) by (bit_vector);
}

/// Decoding the big-endian bytes of an `i128`, written through its
/// unsigned bit pattern, yields it back.
pub proof fn lemma_i128_be_round_trip(x: i128)
    ensures
        u128_from_be_spec(u128_to_be_bytes_spec(x as u128)) as i128 == x,
{
    lemma_u128_be_round_trip(x as u128);
    assert(((x as u128) as i128) == x) by (bit_vector);
}

impl Reader {
    /// Reads a little-endian encoded `u16`, or errors with a length
    /// requirement, leaving the cursor unmoved.
    pub fn read_u16_le(&mut self) -> (r: Result<u16, Expected>)
        requires
            old(self).inv(),
        ensures
            final(self).inv(),
            match r {
                Ok(v) => {
                    &&& old(self).input_spec()@.len() >= 2
                    &&& v == u16_from_le_spec(old(self).input_spec()@.subrange(0, 2))
                    &&& final(self).input_spec()@ == old(self).input_spec()@.subrange(
                        2,
                        old(self).input_spec()@.len() as int,
                    )
                    &&& final(self).input_spec().start_offset() == old(
                        self,
                    ).input_spec().start_offset() + 2
                    &&& final(self).input_spec().bound_spec() == old(
                        self,
                    ).input_spec().bound_spec()
                },
                Err(e) => {
                    &&& old(self).input_spec()@.len() < 2
                    &&& *final(self) == *old(self)
                    &&& is_length_error(
                        e,
                        2,
                        None,
                        old(self).input_spec()@,
                        old(self).input_spec().start_offset(),
                        old(self).input_spec()@,
                        old(self).input_spec().start_offset(),
                        old(self).input_spec().bound_spec(),
                        "read little-endian u16"@,
                        "enough input"@,
                    )
                    &&& e.wf()
                },
            },
    {
        match self.input_ref().clone().split_at(2, "read little-endian u16") {
            Ok((head, tail)) => {
                let b = head.as_dangerous();
                let v: u16 = (b[0] as u16) | ((b[1] as u16) << 8);
                self.set_input(tail);
                Ok(v)
            },
            Err(e) => Err(e),
        }
    }

    /// Reads a big-endian encoded `u16`, or errors with a length
    /// requirement, leaving the cursor unmoved.
    pub fn read_u16_be(&mut self) -> (r: Result<u16, Expected>)
        requires
            old(self).inv(),
        ensures
            final(self).inv(),
            match r {
                Ok(v) => {
                    &&& old(self).input_spec()@.len() >= 2
                    &&& v == u16_from_be_spec(old(self).input_spec()@.subrange(0, 2))
                    &&& final(self).input_spec()@ == old(self).input_spec()@.subrange(
                        2,
                        old(self).input_spec()@.len() as int,
                    )
                    &&& final(self).input_spec().start_offset() == old(
                        self,
                    ).input_spec().start_offset() + 2
                    &&& final(self).input_spec().bound_spec() == old(
                        self,
                    ).input_spec().bound_spec()
                },
                Err(e) => {
                    &&& old(self).input_spec()@.len() < 2
                    &&& *final(self) == *old(self)
                    &&& is_length_error(
                        e,
                        2,
                        None,
                        old(self).input_spec()@,
                        old(self).input_spec().start_offset(),
                        old(self).input_spec()@,
                        old(self).input_spec().start_offset(),
                        old(self).input_spec().bound_spec(),
                        "read big-endian u16"@,
                        "enough input"@,
                    )
                    &&& e.wf()
                },
            },
    {
        match self.input_ref().clone().split_at(2, "read big-endian u16") {
            Ok((head, tail)) => {
                let b = head.as_dangerous();
                let v: u16 = ((b[0] as u16) << 8) | (b[1] as u16);
                self.set_input(tail);
                Ok(v)
            },
            Err(e) => Err(e),
        }
    }

    /// Reads a little-endian encoded `u32`, or errors with a length
    /// requirement, leaving the cursor unmoved.
    pub fn read_u32_le(&mut self) -> (r: Result<u32, Expected>)
        requires
            old(self).inv(),
        ensures
            final(self).inv(),
            match r {
                Ok(v) => {
                    &&& old(self).input_spec()@.len() >= 4
                    &&& v == u32_from_le_spec(old(self).input_spec()@.subrange(0, 4))
                    &&& final(self).input_spec()@ == old(self).input_spec()@.subrange(
                        4,
                        old(self).input_spec()@.len() as int,
                    )
                    &&& final(self).input_spec().start_offset() == old(
                        self,
                    ).input_spec().start_offset() + 4
                    &&& final(self).input_spec().bound_spec() == old(
                        self,
                    ).input_spec().bound_spec()
                },
                Err(e) => {
                    &&& old(self).input_spec()@.len() < 4
                    &&& *final(self) == *old(self)
                    &&& is_length_error(
                        e,
                        4,
                        None,
                        old(self).input_spec()@,
                        old(self).input_spec().start_offset(),
                        old(self).input_spec()@,
                        old(self).input_spec().start_offset(),
                        old(self).input_spec().bound_spec(),
                        "read little-endian u32"@,
                        "enough input"@,
                    )
                    &&& e.wf()
                },
            },
    {
        match self.input_ref().clone().split_at(4, "read little-endian u32") {
            Ok((head, tail)) => {
                let b = head.as_dangerous();
                let v: u32 = (b[0] as u32) | ((b[1] as u32) << 8) | ((b[2] as u32) << 16) | ((b[3] as u32) << 24);
                self.set_input(tail);
                Ok(v)
            },
            Err(e) => Err(e),
        }
    }

    /// Reads a big-endian encoded `u32`, or errors with a length
    /// requirement, leaving the cursor unmoved.
    pub fn read_u32_be(&mut self) -> (r: Result<u32, Expected>)
        requires
            old(self).inv(),
        ensures
            final(self).inv(),
            match r {
                Ok(v) => {
                    &&& old(self).input_spec()@.len() >= 4
                    &&& v == u32_from_be_spec(old(self).input_spec()@.subrange(0, 4))
                    &&& final(self).input_spec()@ == old(self).input_spec()@.subrange(
                        4,
                        old(self).input_spec()@.len() as int,
                    )
                    &&& final(self).input_spec().start_offset() == old(
                        self,
                    ).input_spec().start_offset() + 4
                    &&& final(self).input_spec().bound_spec() == old(
                        self,
                    ).input_spec().bound_spec()
                },
                Err(e) => {
                    &&& old(self).input_spec()@.len() < 4
                    &&& *final(self) == *old(self)
                    &&& is_length_error(
                        e,
                        4,
                        None,
                        old(self).input_spec()@,
                        old(self).input_spec().start_offset(),
                        old(self).input_spec()@,
                        old(self).input_spec().start_offset(),
                        old(self).input_spec().bound_spec(),
                        "read big-endian u32"@,
                        "enough input"@,
                    )
                    &&& e.wf()
                },
            },
    {
        match self.input_ref().clone().split_at(4, "read big-endian u32") {
            Ok((head, tail)) => {
                let b = head.as_dangerous();
                let v: u32 = ((b[0] as u32) << 24) | ((b[1] as u32) << 16) | ((b[2] as u32) << 8) | (b[3] as u32);
                self.set_input(tail);
                Ok(v)
            },
            Err(e) => Err(e),
        }
    }

    /// Reads a little-endian encoded `u64`, or errors with a length
    /// requirement, leaving the cursor unmoved.
    pub fn read_u64_le(&mut self) -> (r: Result<u64, Expected>)
        requires
            old(self).inv(),
        ensures
            final(self).inv(),
            match r {
                Ok(v) => {
                    &&& old(self).input_spec()@.len() >= 8
                    &&& v == u64_from_le_spec(old(self).input_spec()@.subrange(0, 8))
                    &&& final(self).input_spec()@ == old(self).input_spec()@.subrange(
                        8,
                        old(self).input_spec()@.len() as int,
                    )
                    &&& final(self).input_spec().start_offset() == old(
                        self,
                    ).input_spec().start_offset() + 8
                    &&& final(self).input_spec().bound_spec() == old(
                        self,
                    ).input_spec().bound_spec()
                },
                Err(e) => {
                    &&& old(self).input_spec()@.len() < 8
                    &&& *final(self) == *old(self)
                    &&& is_length_error(
                        e,
                        8,
                        None,
                        old(self).input_spec()@,
                        old(self).input_spec().start_offset(),
                        old(self).input_spec()@,
                        old(self).input_spec().start_offset(),
                        old(self).input_spec().bound_spec(),
                        "read little-endian u64"@,
                        "enough input"@,
                    )
                    &&& e.wf()
                },
            },
    {
        match self.input_ref().clone().split_at(8, "read little-endian u64") {
            Ok((head, tail)) => {
                let b = head.as_dangerous();
                let v: u64 = (b[0] as u64) | ((b[1] as u64) << 8) | ((b[2] as u64) << 16) | ((b[3] as u64) << 24) | ((b[4] as u64) << 32) | ((b[5] as u64) << 40) | ((b[6] as u64) << 48) | ((b[7] as u64) << 56);
                self.set_input(tail);
                Ok(v)
            },
            Err(e) => Err(e),
        }
    }

    /// Reads a big-endian encoded `u64`, or errors with a length
    /// requirement, leaving the cursor unmoved.
    pub fn read_u64_be(&mut self) -> (r: Result<u64, Expected>)
        requires
            old(self).inv(),
        ensures
            final(self).inv(),
            match r {
                Ok(v) => {
                    &&& old(self).input_spec()@.len() >= 8
                    &&& v == u64_from_be_spec(old(self).input_spec()@.subrange(0, 8))
                    &&& final(self).input_spec()@ == old(self).input_spec()@.subrange(
                        8,
                        old(self).input_spec()@.len() as int,
                    )
                    &&& final(self).input_spec().start_offset() == old(
                        self,
                    ).input_spec().start_offset() + 8
                    &&& final(self).input_spec().bound_spec() == old(
                        self,
                    ).input_spec().bound_spec()
                },
                Err(e) => {
                    &&& old(self).input_spec()@.len() < 8
                    &&& *final(self) == *old(self)
                    &&& is_length_error(
                        e,
                        8,
                        None,
                        old(self).input_spec()@,
                        old(self).input_spec().start_offset(),
                        old(self).input_spec()@,
                        old(self).input_spec().start_offset(),
                        old(self).input_spec().bound_spec(),
                        "read big-endian u64"@,
                        "enough input"@,
                    )
                    &&& e.wf()
                },
            },
    {
        match self.input_ref().clone().split_at(8, "read big-endian u64") {
            Ok((head, tail)) => {
                let b = head.as_dangerous();
                let v: u64 = ((b[0] as u64) << 56) | ((b[1] as u64) << 48) | ((b[2] as u64) << 40) | ((b[3] as u64) << 32) | ((b[4] as u64) << 24) | ((b[5] as u64) << 16) | ((b[6] as u64) << 8) | (b[7] as u64);
                self.set_input(tail);
                Ok(v)
            },
            Err(e) => Err(e),
        }
    }

    /// Reads a little-endian encoded `u128`, or errors with a length
    /// requirement, leaving the cursor unmoved.
    pub fn read_u128_le(&mut self) -> (r: Result<u128, Expected>)
        requires
            old(self).inv(),
        ensures
            final(self).inv(),
            match r {
                Ok(v) => {
                    &&& old(self).input_spec()@.len() >= 16
                    &&& v == u128_from_le_spec(old(self).input_spec()@.subrange(0, 16))
                    &&& final(self).input_spec()@ == old(self).input_spec()@.subrange(
                        16,
                        old(self).input_spec()@.len() as int,
                    )
                    &&& final(self).input_spec().start_offset() == old(
                        self,
                    ).input_spec().start_offset() + 16
                    &&& final(self).input_spec().bound_spec() == old(
                        self,
                    ).input_spec().bound_spec()
                },
                Err(e) => {
                    &&& old(self).input_spec()@.len() < 16
                    &&& *final(self) == *old(self)
                    &&& is_length_error(
                        e,
                        16,
                        None,
                        old(self).input_spec()@,
                        old(self).input_spec().start_offset(),
                        old(self).input_spec()@,
                        old(self).input_spec().start_offset(),
                        old(self).input_spec().bound_spec(),
                        "read little-endian u128"@,
                        "enough input"@,
                    )
                    &&& e.wf()
                },
            },
    {
        match self.input_ref().clone().split_at(16, "read little-endian u128") {
            Ok((head, tail)) => {
                let b = head.as_dangerous();
                let v: u128 = (b[0] as u128) | ((b[1] as u128) << 8) | ((b[2] as u128) << 16) | ((b[3] as u128) << 24) | ((b[4] as u128) << 32) | ((b[5] as u128) << 40) | ((b[6] as u128) << 48) | ((b[7] as u128) << 56) | ((b[8] as u128) << 64) | ((b[9] as u128) << 72) | ((b[10] as u128) << 80) | ((b[11] as u128) << 88) | ((b[12] as u128) << 96) | ((b[13] as u128) << 104) | ((b[14] as u128) << 112) | ((b[15] as u128) << 120);
                self.set_input(tail);
                Ok(v)
            },
            Err(e) => Err(e),
        }
    }

    /// Reads a big-endian encoded `u128`, or errors with a length
    /// requirement, leaving the cursor unmoved.
    pub fn read_u128_be(&mut self) -> (r: Result<u128, Expected>)
        requires
            old(self).inv(),
        ensures
            final(self).inv(),
            match r {
                Ok(v) => {
                    &&& old(self).input_spec()@.len() >= 16
                    &&& v == u128_from_be_spec(old(self).input_spec()@.subrange(0, 16))
                    &&& final(self).input_spec()@ == old(self).input_spec()@.subrange(
                        16,
                        old(self).input_spec()@.len() as int,
                    )
                    &&& final(self).input_spec().start_offset() == old(
                        self,
                    ).input_spec().start_offset() + 16
                    &&& final(self).input_spec().bound_spec() == old(
                        self,
                    ).input_spec().bound_spec()
                },
                Err(e) => {
                    &&& old(self).input_spec()@.len() < 16
                    &&& *final(self) == *old(self)
                    &&& is_length_error(
                        e,
                        16,
                        None,
                        old(self).input_spec()@,
                        old(self).input_spec().start_offset(),
                        old(self).input_spec()@,
                        old(self).input_spec().start_offset(),
                        old(self).input_spec().bound_spec(),
                        "read big-endian u128"@,
                        "enough input"@,
                    )
                    &&& e.wf()
                },
            },
    {
        match self.input_ref().clone().split_at(16, "read big-endian u128") {
            Ok((head, tail)) => {
                let b = head.as_dangerous();
                let v: u128 = ((b[0] as u128) << 120) | ((b[1] as u128) << 112) | ((b[2] as u128) << 104) | ((b[3] as u128) << 96) | ((b[4] as u128) << 88) | ((b[5] as u128) << 80) | ((b[6] as u128) << 72) | ((b[7] as u128) << 64) | ((b[8] as u128) << 56) | ((b[9] as u128) << 48) | ((b[10] as u128) << 40) | ((b[11] as u128) << 32) | ((b[12] as u128) << 24) | ((b[13] as u128) << 16) | ((b[14] as u128) << 8) | (b[15] as u128);
                self.set_input(tail);
                Ok(v)
            },
            Err(e) => Err(e),
        }
    }

    /// Reads a little-endian encoded `i16`, or errors with a length
    /// requirement, leaving the cursor unmoved.
    pub fn read_i16_le(&mut self) -> (r: Result<i16, Expected>)
        requires
            old(self).inv(),
        ensures
            final(self).inv(),
            match r {
                Ok(v) => {
                    &&& old(self).input_spec()@.len() >= 2
                    &&& v == u16_from_le_spec(old(self).input_spec()@.subrange(0, 2)) as i16
                    &&& final(self).input_spec()@ == old(self).input_spec()@.subrange(
                        2,
                        old(self).input_spec()@.len() as int,
                    )
                    &&& final(self).input_spec().start_offset() == old(
                        self,
                    ).input_spec().start_offset() + 2
                    &&& final(self).input_spec().bound_spec() == old(
                        self,
                    ).input_spec().bound_spec()
                },
                Err(e) => {
                    &&& old(self).input_spec()@.len() < 2
                    &&& *final(self) == *old(self)
                    &&& is_length_error(
                        e,
                        2,
                        None,
                        old(self).input_spec()@,
                        old(self).input_spec().start_offset(),
                        old(self).input_spec()@,
                        old(self).input_spec().start_offset(),
                        old(self).input_spec().bound_spec(),
                        "read little-endian i16"@,
                        "enough input"@,
                    )
                    &&& e.wf()
                },
            },
    {
        match self.input_ref().clone().split_at(2, "read little-endian i16") {
            Ok((head, tail)) => {
                let b = head.as_dangerous();
                let v: u16 = (b[0] as u16) | ((b[1] as u16) << 8);
                self.set_input(tail);
                Ok(v as i16)
            },
            Err(e) => Err(e),
        }
    }

    /// Reads a big-endian encoded `i16`, or errors with a length
    /// requirement, leaving the cursor unmoved.
    pub fn read_i16_be(&mut self) -> (r: Result<i16, Expected>)
        requires
            old(self).inv(),
        ensures
            final(self).inv(),
            match r {
                Ok(v) => {
                    &&& old(self).input_spec()@.len() >= 2
                    &&& v == u16_from_be_spec(old(self).input_spec()@.subrange(0, 2)) as i16
                    &&& final(self).input_spec()@ == old(self).input_spec()@.subrange(
                        2,
                        old(self).input_spec()@.len() as int,
                    )
                    &&& final(self).input_spec().start_offset() == old(
                        self,
                    ).input_spec().start_offset() + 2
                    &&& final(self).input_spec().bound_spec() == old(
                        self,
                    ).input_spec().bound_spec()
                },
                Err(e) => {
                    &&& old(self).input_spec()@.len() < 2
                    &&& *final(self) == *old(self)
                    &&& is_length_error(
                        e,
                        2,
                        None,
                        old(self).input_spec()@,
                        old(self).input_spec().start_offset(),
                        old(self).input_spec()@,
                        old(self).input_spec().start_offset(),
                        old(self).input_spec().bound_spec(),
                        "read big-endian i16"@,
                        "enough input"@,
                    )
                    &&& e.wf()
                },
            },
    {
        match self.input_ref().clone().split_at(2, "read big-endian i16") {
            Ok((head, tail)) => {
                let b = head.as_dangerous();
                let v: u16 = ((b[0] as u16) << 8) | (b[1] as u16);
                self.set_input(tail);
                Ok(v as i16)
            },
            Err(e) => Err(e),
        }
    }

    /// Reads a little-endian encoded `i32`, or errors with a length
    /// requirement, leaving the cursor unmoved.
    pub fn read_i32_le(&mut self) -> (r: Result<i32, Expected>)
        requires
            old(self).inv(),
        ensures
            final(self).inv(),
            match r {
                Ok(v) => {
                    &&& old(self).input_spec()@.len() >= 4
                    &&& v == u32_from_le_spec(old(self).input_spec()@.subrange(0, 4)) as i32
                    &&& final(self).input_spec()@ == old(self).input_spec()@.subrange(
                        4,
                        old(self).input_spec()@.len() as int,
                    )
                    &&& final(self).input_spec().start_offset() == old(
                        self,
                    ).input_spec().start_offset() + 4
                    &&& final(self).input_spec().bound_spec() == old(
                        self,
                    ).input_spec().bound_spec()
                },
                Err(e) => {
                    &&& old(self).input_spec()@.len() < 4
                    &&& *final(self) == *old(self)
                    &&& is_length_error(
                        e,
                        4,
                        None,
                        old(self).input_spec()@,
                        old(self).input_spec().start_offset(),
                        old(self).input_spec()@,
                        old(self).input_spec().start_offset(),
                        old(self).input_spec().bound_spec(),
                        "read little-endian i32"@,
                        "enough input"@,
                    )
                    &&& e.wf()
                },
            },
    {
        match self.input_ref().clone().split_at(4, "read little-endian i32") {
            Ok((head, tail)) => {
                let b = head.as_dangerous();
                let v: u32 = (b[0] as u32) | ((b[1] as u32) << 8) | ((b[2] as u32) << 16) | ((b[3] as u32) << 24);
                self.set_input(tail);
                Ok(v as i32)
            },
            Err(e) => Err(e),
        }
    }

    /// Reads a big-endian encoded `i32`, or errors with a length
    /// requirement, leaving the cursor unmoved.
    pub fn read_i32_be(&mut self) -> (r: Result<i32, Expected>)
        requires
            old(self).inv(),
        ensures
            final(self).inv(),
            match r {
                Ok(v) => {
                    &&& old(self).input_spec()@.len() >= 4
                    &&& v == u32_from_be_spec(old(self).input_spec()@.subrange(0, 4)) as i32
                    &&& final(self).input_spec()@ == old(self).input_spec()@.subrange(
                        4,
                        old(self).input_spec()@.len() as int,
                    )
                    &&& final(self).input_spec().start_offset() == old(
                        self,
                    ).input_spec().start_offset() + 4
                    &&& final(self).input_spec().bound_spec() == old(
                        self,
                    ).input_spec().bound_spec()
                },
                Err(e) => {
                    &&& old(self).input_spec()@.len() < 4
                    &&& *final(self) == *old(self)
                    &&& is_length_error(
                        e,
                        4,
                        None,
                        old(self).input_spec()@,
                        old(self).input_spec().start_offset(),
                        old(self).input_spec()@,
                        old(self).input_spec().start_offset(),
                        old(self).input_spec().bound_spec(),
                        "read big-endian i32"@,
                        "enough input"@,
                    )
                    &&& e.wf()
                },
            },
    {
        match self.input_ref().clone().split_at(4, "read big-endian i32") {
            Ok((head, tail)) => {
                let b = head.as_dangerous();
                let v: u32 = ((b[0] as u32) << 24) | ((b[1] as u32) << 16) | ((b[2] as u32) << 8) | (b[3] as u32);
                self.set_input(tail);
                Ok(v as i32)
            },
            Err(e) => Err(e),
        }
    }

    /// Reads a little-endian encoded `i64`, or errors with a length
    /// requirement, leaving the cursor unmoved.
    pub fn read_i64_le(&mut self) -> (r: Result<i64, Expected>)
        requires
            old(self).inv(),
        ensures
            final(self).inv(),
            match r {
                Ok(v) => {
                    &&& old(self).input_spec()@.len() >= 8
                    &&& v == u64_from_le_spec(old(self).input_spec()@.subrange(0, 8)) as i64
                    &&& final(self).input_spec()@ == old(self).input_spec()@.subrange(
                        8,
                        old(self).input_spec()@.len() as int,
                    )
                    &&& final(self).input_spec().start_offset() == old(
                        self,
                    ).input_spec().start_offset() + 8
                    &&& final(self).input_spec().bound_spec() == old(
                        self,
                    ).input_spec().bound_spec()
                },
                Err(e) => {
                    &&& old(self).input_spec()@.len() < 8
                    &&& *final(self) == *old(self)
                    &&& is_length_error(
                        e,
                        8,
                        None,
                        old(self).input_spec()@,
                        old(self).input_spec().start_offset(),
                        old(self).input_spec()@,
                        old(self).input_spec().start_offset(),
                        old(self).input_spec().bound_spec(),
                        "read little-endian i64"@,
                        "enough input"@,
                    )
                    &&& e.wf()
                },
            },
    {
        match self.input_ref().clone().split_at(8, "read little-endian i64") {
            Ok((head, tail)) => {
                let b = head.as_dangerous();
                let v: u64 = (b[0] as u64) | ((b[1] as u64) << 8) | ((b[2] as u64) << 16) | ((b[3] as u64) << 24) | ((b[4] as u64) << 32) | ((b[5] as u64) << 40) | ((b[6] as u64) << 48) | ((b[7] as u64) << 56);
                self.set_input(tail);
                Ok(v as i64)
            },
            Err(e) => Err(e),
        }
    }

    /// Reads a big-endian encoded `i64`, or errors with a length
    /// requirement, leaving the cursor unmoved.
    pub fn read_i64_be(&mut self) -> (r: Result<i64, Expected>)
        requires
            old(self).inv(),
        ensures
            final(self).inv(),
            match r {
                Ok(v) => {
                    &&& old(self).input_spec()@.len() >= 8
                    &&& v == u64_from_be_spec(old(self).input_spec()@.subrange(0, 8)) as i64
                    &&& final(self).input_spec()@ == old(self).input_spec()@.subrange(
                        8,
                        old(self).input_spec()@.len() as int,
                    )
                    &&& final(self).input_spec().start_offset() == old(
                        self,
                    ).input_spec().start_offset() + 8
                    &&& final(self).input_spec().bound_spec() == old(
                        self,
                    ).input_spec().bound_spec()
                },
                Err(e) => {
                    &&& old(self).input_spec()@.len() < 8
                    &&& *final(self) == *old(self)
                    &&& is_length_error(
                        e,
                        8,
                        None,
                        old(self).input_spec()@,
                        old(self).input_spec().start_offset(),
                        old(self).input_spec()@,
                        old(self).input_spec().start_offset(),
                        old(self).input_spec().bound_spec(),
                        "read big-endian i64"@,
                        "enough input"@,
                    )
                    &&& e.wf()
                },
            },
    {
        match self.input_ref().clone().split_at(8, "read big-endian i64") {
            Ok((head, tail)) => {
                let b = head.as_dangerous();
                let v: u64 = ((b[0] as u64) << 56) | ((b[1] as u64) << 48) | ((b[2] as u64) << 40) | ((b[3] as u64) << 32) | ((b[4] as u64) << 24) | ((b[5] as u64) << 16) | ((b[6] as u64) << 8) | (b[7] as u64);
                self.set_input(tail);
                Ok(v as i64)
            },
            Err(e) => Err(e),
        }
    }

    /// Reads a little-endian encoded `i128`, or errors with a length
    /// requirement, leaving the cursor unmoved.
    pub fn read_i128_le(&mut self) -> (r: Result<i128, Expected>)
        requires
            old(self).inv(),
        ensures
            final(self).inv(),
            match r {
                Ok(v) => {
                    &&& old(self).input_spec()@.len() >= 16
                    &&& v == u128_from_le_spec(old(self).input_spec()@.subrange(0, 16)) as i128
                    &&& final(self).input_spec()@ == old(self).input_spec()@.subrange(
                        16,
                        old(self).input_spec()@.len() as int,
                    )
                    &&& final(self).input_spec().start_offset() == old(
                        self,
                    ).input_spec().start_offset() + 16
                    &&& final(self).input_spec().bound_spec() == old(
                        self,
                    ).input_spec().bound_spec()
                },
                Err(e) => {
                    &&& old(self).input_spec()@.len() < 16
                    &&& *final(self) == *old(self)
                    &&& is_length_error(
                        e,
                        16,
                        None,
                        old(self).input_spec()@,
                        old(self).input_spec().start_offset(),
                        old(self).input_spec()@,
                        old(self).input_spec().start_offset(),
                        old(self).input_spec().bound_spec(),
                        "read little-endian i128"@,
                        "enough input"@,
                    )
                    &&& e.wf()
                },
            },
    {
        match self.input_ref().clone().split_at(16, "read little-endian i128") {
            Ok((head, tail)) => {
                let b = head.as_dangerous();
                let v: u128 = (b[0] as u128) | ((b[1] as u128) << 8) | ((b[2] as u128) << 16) | ((b[3] as u128) << 24) | ((b[4] as u128) << 32) | ((b[5] as u128) << 40) | ((b[6] as u128) << 48) | ((b[7] as u128) << 56) | ((b[8] as u128) << 64) | ((b[9] as u128) << 72) | ((b[10] as u128) << 80) | ((b[11] as u128) << 88) | ((b[12] as u128) << 96) | ((b[13] as u128) << 104) | ((b[14] as u128) << 112) | ((b[15] as u128) << 120);
                self.set_input(tail);
                Ok(v as i128)
            },
            Err(e) => Err(e),
        }
    }

    /// Reads a big-endian encoded `i128`, or errors with a length
    /// requirement, leaving the cursor unmoved.
    pub fn read_i128_be(&mut self) -> (r: Result<i128, Expected>)
        requires
            old(self).inv(),
        ensures
            final(self).inv(),
            match r {
                Ok(v) => {
                    &&& old(self).input_spec()@.len() >= 16
                    &&& v == u128_from_be_spec(old(self).input_spec()@.subrange(0, 16)) as i128
                    &&& final(self).input_spec()@ == old(self).input_spec()@.subrange(
                        16,
                        old(self).input_spec()@.len() as int,
                    )
                    &&& final(self).input_spec().start_offset() == old(
                        self,
                    ).input_spec().start_offset() + 16
                    &&& final(self).input_spec().bound_spec() == old(
                        self,
                    ).input_spec().bound_spec()
                },
                Err(e) => {
                    &&& old(self).input_spec()@.len() < 16
                    &&& *final(self) == *old(self)
                    &&& is_length_error(
                        e,
                        16,
                        None,
                        old(self).input_spec()@,
                        old(self).input_spec().start_offset(),
                        old(self).input_spec()@,
                        old(self).input_spec().start_offset(),
                        old(self).input_spec().bound_spec(),
                        "read big-endian i128"@,
                        "enough input"@,
                    )
                    &&& e.wf()
                },
            },
    {
        match self.input_ref().clone().split_at(16, "read big-endian i128") {
            Ok((head, tail)) => {
                let b = head.as_dangerous();
                let v: u128 = ((b[0] as u128) << 120) | ((b[1] as u128) << 112) | ((b[2] as u128) << 104) | ((b[3] as u128) << 96) | ((b[4] as u128) << 88) | ((b[5] as u128) << 80) | ((b[6] as u128) << 72) | ((b[7] as u128) << 64) | ((b[8] as u128) << 56) | ((b[9] as u128) << 48) | ((b[10] as u128) << 40) | ((b[11] as u128) << 32) | ((b[12] as u128) << 24) | ((b[13] as u128) << 16) | ((b[14] as u128) << 8) | (b[15] as u128);
                self.set_input(tail);
                Ok(v as i128)
            },
            Err(e) => Err(e),
        }
    }

}

} // verus!
