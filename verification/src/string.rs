//! Hand-rolled UTF-8 decoding over raw bytes: classifying lead bytes,
//! decoding the first or last code point of a byte slice, and a double-ended
//! code-point cursor. Verified against the UTF-8 model in `vstd::utf8`.

use vstd::prelude::*;

use vstd::utf8::{
    codepoint_width_2, codepoint_width_4, decode_first_scalar, is_continuation_byte, is_scalar,
    length_of_first_scalar, partial_valid_partial_invalid_utf8, partial_valid_utf8,
    partial_valid_utf8_extend, valid_first_scalar, valid_utf8,
};

verus! {

/// Error of a failed code-point decode.
#[derive(Clone, Copy, Debug, PartialEq, Eq, Structural)]
pub struct InvalidChar;

/// Relies on `char::from_u32`: it returns `Some` exactly for Unicode scalar
/// values (at most 0x10FFFF and not a surrogate), and the resulting `char`
/// carries that value.
pub assume_specification[ char::from_u32 ](v: u32) -> (r: Option<char>)
    ensures
        r is Some <==> is_scalar(v),
        r matches Some(c) ==> c as u32 == v,
;

/// True when the byte is a UTF-8 continuation byte (of the form
/// `10xxxxxx`).
pub fn utf8_is_cont_byte(byte: u8) -> (r: bool)
    ensures
        r == is_continuation_byte(byte),
{
    proof {
        vstd::utf8::utf8_byte_ranges_bitwise(byte);
    }
    (byte & 0xc0) == 0x80
}

/// How many bytes a UTF-8 encoding starting with lead byte `b` occupies;
/// `0` when no valid encoding starts with `b`.
pub open spec fn utf8_char_len_spec(b: u8) -> nat {
    if b < 0x80 {
        1
    } else if b < 0xc2 {
        0
    } else if b < 0xe0 {
        2
    } else if b < 0xf0 {
        3
    } else if b < 0xf5 {
        4
    } else {
        0
    }
}

/// Given a first byte, determines how many bytes are in this UTF-8
/// character; `0` when the byte can begin no valid encoding.
pub fn utf8_char_len(b: u8) -> (r: usize)
    ensures
        r == utf8_char_len_spec(b),
{
    if b < 0x80 {
        1
    } else if b < 0xc2 {
        0
    } else if b < 0xe0 {
        2
    } else if b < 0xf0 {
        3
    } else if b < 0xf5 {
        4
    } else {
        0
    }
}

/// True when the bytes of `s` from `i` on are one UTF-8 encoding cut
/// short by the end of the input: a lead byte demanding more bytes than
/// remain, followed only by continuation bytes. Such a suffix may still
/// complete in a later pass.
pub open spec fn truncated_scalar_suffix(s: Seq<u8>, i: int) -> bool {
    &&& 0 <= i < s.len()
    &&& utf8_char_len_spec(s[i]) > s.len() - i
    &&& forall|j: int| i < j < s.len() ==> is_continuation_byte(#[trigger] s[j])
}

/// A two-byte code point with a lead byte of `0xc1` or below decodes under
/// `0x80`, so it would be an overlong encoding.
proof fn lemma_cw2_low(b0: u8, b1: u8)
    requires
        0xc0 <= b0 <= 0xc1,
    ensures
        codepoint_width_2(b0, b1) < 0x80,
{
    assert(((((b0 & 0x1f) as u32) << 6) | ((b1 & 0x3f) as u32)) < 0x80) by (bit_vector)
        requires
            0xc0 <= b0 <= 0xc1,
    ;
}

/// A four-byte code point with a lead byte of `0xf5` or above decodes past
/// the last Unicode scalar.
proof fn lemma_cw4_high(b0: u8, b1: u8, b2: u8, b3: u8)
    requires
        0xf5 <= b0 <= 0xf7,
    ensures
        codepoint_width_4(b0, b1, b2, b3) > 0x10ffff,
{
    assert(((((b0 & 0x07) as u32) << 18) | (((b1 & 0x3f) as u32) << 12) | (((b2
        & 0x3f) as u32) << 6) | ((b3 & 0x3f) as u32)) > 0x10ffff) by (bit_vector)
        requires
            0xf5 <= b0 <= 0xf7,
    ;
}

/// For a well-formed first scalar, the lead-byte table agrees with the
/// encoding's length, and that length fits in the sequence.
pub proof fn lemma_valid_first_scalar_char_len(s: Seq<u8>)
    requires
        valid_first_scalar(s),
    ensures
        utf8_char_len_spec(s[0]) == length_of_first_scalar(s),
        length_of_first_scalar(s) <= s.len(),
{
    let b0 = s[0];
    if 0xc0 <= b0 <= 0xc1 {
        lemma_cw2_low(b0, s[1]);
    }
    if 0xf5 <= b0 <= 0xf7 {
        lemma_cw4_high(b0, s[1], s[2], s[3]);
    }
}

/// The shape of an exact one-scalar encoding: a non-continuation lead byte
/// whose table length is the whole width, followed by continuation bytes.
pub proof fn lemma_exact_encoding_shape(w: Seq<u8>)
    requires
        is_exact_char_encoding(w),
    ensures
        !is_continuation_byte(w[0]),
        utf8_char_len_spec(w[0]) == w.len(),
        forall|j: int| 1 <= j < w.len() ==> is_continuation_byte(#[trigger] w[j]),
{
    lemma_valid_first_scalar_char_len(w);
}

/// Whether the first `len` bytes of `s` form an exact one-scalar encoding
/// depends only on those bytes.
pub proof fn lemma_first_scalar_window(s: Seq<u8>, len: int)
    requires
        0 < len <= s.len(),
    ensures
        is_exact_char_encoding(s.subrange(0, len)) <==> (valid_first_scalar(s)
            && length_of_first_scalar(s) == len),
        is_exact_char_encoding(s.subrange(0, len)) ==> decode_first_scalar(
            s.subrange(0, len),
        ) == decode_first_scalar(s),
{
    let w = s.subrange(0, len);
    assert(w[0] == s[0]);
    assert(forall|i: int| 0 <= i < len ==> #[trigger] w[i] == s[i]);
}

/// True when `bytes` is exactly the UTF-8 encoding of one Unicode scalar.
pub open spec fn is_exact_char_encoding(bytes: Seq<u8>) -> bool {
    &&& bytes.len() > 0
    &&& valid_first_scalar(bytes)
    &&& length_of_first_scalar(bytes) == bytes.len()
}

/// Decodes `bytes` as the UTF-8 encoding of exactly one code point:
/// `Ok` precisely when the whole slice is one well-formed, minimal,
/// non-surrogate encoding.
fn decode_exact(bytes: &[u8]) -> (r: Result<char, InvalidChar>)
    ensures
        r matches Ok(c) ==> is_exact_char_encoding(bytes@) && c as u32 == decode_first_scalar(
            bytes@,
        ),
        r is Err ==> !is_exact_char_encoding(bytes@),
{
    let n: usize = bytes.len();
    if n == 0 {
        return Err(InvalidChar);
    }
    let b0 = bytes[0];
    let l = utf8_char_len(b0);
    if l == 0 || n != l {
        proof {
            if is_exact_char_encoding(bytes@) {
                lemma_valid_first_scalar_char_len(bytes@);
            }
        }
        return Err(InvalidChar);
    }
    if l == 1 {
        proof {
            assert((b0 & 0x7f) == b0 && (b0 as u32) == ((b0 & 0x7f) as u32)) by (bit_vector)
                requires
                    b0 < 0x80,
            ;
        }
        match char::from_u32(b0 as u32) {
            Some(c) => Ok(c),
            None => {
                proof {
                    assert(false);
                }
                Err(InvalidChar)
            },
        }
    } else if l == 2 {
        let b1 = bytes[1];
        if !utf8_is_cont_byte(b1) {
            return Err(InvalidChar);
        }
        let v: u32 = (((b0 & 0x1f) as u32) << 6) | ((b1 & 0x3f) as u32);
        proof {
            assert(v == codepoint_width_2(b0, b1) && 0x80 <= v <= 0x7ff) by (bit_vector)
                requires
                    0xc2 <= b0 < 0xe0,
                    v == ((((b0 & 0x1f) as u32) << 6) | ((b1 & 0x3f) as u32)),
            ;
        }
        match char::from_u32(v) {
            Some(c) => Ok(c),
            None => {
                proof {
                    assert(false);
                }
                Err(InvalidChar)
            },
        }
    } else if l == 3 {
        let b1 = bytes[1];
        let b2 = bytes[2];
        if !utf8_is_cont_byte(b1) || !utf8_is_cont_byte(b2) {
            return Err(InvalidChar);
        }
        let v: u32 = (((b0 & 0x0f) as u32) << 12) | (((b1 & 0x3f) as u32) << 6) | ((b2
            & 0x3f) as u32);
        proof {
            assert(v <= 0xffff) by (bit_vector)
                requires
                    v == ((((b0 & 0x0f) as u32) << 12) | (((b1 & 0x3f) as u32) << 6) | ((b2
                        & 0x3f) as u32)),
            ;
        }
        if v < 0x800 || (0xd800 <= v && v <= 0xdfff) {
            return Err(InvalidChar);
        }
        match char::from_u32(v) {
            Some(c) => Ok(c),
            None => {
                proof {
                    assert(false);
                }
                Err(InvalidChar)
            },
        }
    } else {
        let b1 = bytes[1];
        let b2 = bytes[2];
        let b3 = bytes[3];
        if !utf8_is_cont_byte(b1) || !utf8_is_cont_byte(b2) || !utf8_is_cont_byte(b3) {
            return Err(InvalidChar);
        }
        let v: u32 = (((b0 & 0x07) as u32) << 18) | (((b1 & 0x3f) as u32) << 12) | (((b2
            & 0x3f) as u32) << 6) | ((b3 & 0x3f) as u32);
        if v < 0x10000 || v > 0x10ffff {
            return Err(InvalidChar);
        }
        match char::from_u32(v) {
            Some(c) => Ok(c),
            None => {
                proof {
                    assert(false);
                }
                Err(InvalidChar)
            },
        }
    }
}

/// True when the last `k` bytes of `s` are exactly the UTF-8 encoding of
/// one Unicode scalar.
pub open spec fn ends_with_char_encoding(s: Seq<u8>, k: int) -> bool {
    &&& 1 <= k <= s.len()
    &&& is_exact_char_encoding(s.subrange(s.len() - k, s.len() as int))
}

/// Decodes the first code point encoded at the start of `bytes`.
///
/// Returns `Ok` precisely when `bytes` begins with a well-formed, minimal,
/// non-surrogate encoding; trailing bytes are ignored.
pub fn first_codepoint(bytes: &[u8]) -> (r: Result<char, InvalidChar>)
    ensures
        r matches Ok(c) ==> valid_first_scalar(bytes@) && c as u32 == decode_first_scalar(bytes@),
        r is Err ==> !valid_first_scalar(bytes@),
{
    let n: usize = bytes.len();
    if n == 0 {
        return Err(InvalidChar);
    }
    let b0 = bytes[0];
    let len = utf8_char_len(b0);
    if len <= n {
        let w = vstd::slice::slice_subrange(bytes, 0, len);
        if len > 0 {
            let pr = decode_exact(w);
            proof {
                lemma_first_scalar_window(bytes@, len as int);
                if pr is Err && valid_first_scalar(bytes@) {
                    lemma_valid_first_scalar_char_len(bytes@);
                }
            }
            return pr;
        }
        proof {
            if valid_first_scalar(bytes@) {
                lemma_valid_first_scalar_char_len(bytes@);
            }
        }
        return Err(InvalidChar);
    }
    proof {
        if valid_first_scalar(bytes@) {
            lemma_valid_first_scalar_char_len(bytes@);
        }
    }
    Err(InvalidChar)
}

/// Decodes the last code point encoded at the end of `bytes`.
///
/// Returns `Ok` precisely when some suffix of up to four bytes is a
/// well-formed, minimal, non-surrogate encoding; bytes before it are
/// ignored.
pub fn last_codepoint(bytes: &[u8]) -> (r: Result<char, InvalidChar>)
    ensures
        r matches Ok(c) ==> exists|k: int|
            #[trigger] ends_with_char_encoding(bytes@, k) && c as u32 == decode_first_scalar(
                bytes@.subrange(bytes@.len() - k, bytes@.len() as int),
            ),
        r is Err ==> forall|k: int| !ends_with_char_encoding(bytes@, k),
{
    let n: usize = bytes.len();
    if n == 0 {
        return Err(InvalidChar);
    }
    let mut i: usize = 1;
    while i <= 4 && i <= n
        invariant
            1 <= i <= 5,
            n == bytes@.len(),
            forall|k: int| 1 <= k < i ==> !ends_with_char_encoding(bytes@, k),
        decreases 5 - i,
    {
        let byte = bytes[n - i];
        if !utf8_is_cont_byte(byte) {
            if utf8_char_len(byte) == i {
                let w = vstd::slice::slice_subrange(bytes, n - i, n);
                let r = decode_exact(w);
                proof {
                    if r is Ok {
                        assert(ends_with_char_encoding(bytes@, i as int));
                    } else {
                        assert forall|k: int| !ends_with_char_encoding(bytes@, k) by {
                            if ends_with_char_encoding(bytes@, k) && k >= i {
                                let wk = bytes@.subrange(n - k, n as int);
                                lemma_exact_encoding_shape(wk);
                                if k > i {
                                    assert(wk[k - i] == byte);
                                }
                            }
                        }
                    }
                }
                return r;
            } else {
                proof {
                    if ends_with_char_encoding(bytes@, i as int) {
                        lemma_exact_encoding_shape(bytes@.subrange(n - i, n as int));
                    }
                }
            }
        } else {
            proof {
                if ends_with_char_encoding(bytes@, i as int) {
                    lemma_exact_encoding_shape(bytes@.subrange(n - i, n as int));
                }
            }
        }
        i += 1;
    }
    proof {
        assert forall|k: int| !ends_with_char_encoding(bytes@, k) by {
            if ends_with_char_encoding(bytes@, k) {
                lemma_exact_encoding_shape(bytes@.subrange(n - k, n as int));
            }
        }
    }
    Err(InvalidChar)
}

/// Checks that `bytes` is a valid UTF-8 encoding.
pub fn is_valid_utf8(bytes: &[u8]) -> (r: bool)
    ensures
        r == valid_utf8(bytes@),
{
    let n: usize = bytes.len();
    let mut i: usize = 0;
    while i < n
        invariant
            0 <= i <= n,
            n == bytes@.len(),
            partial_valid_utf8(bytes@, i as int),
        decreases n - i,
    {
        let rest = vstd::slice::slice_subrange(bytes, i, n);
        match first_codepoint(rest) {
            Ok(c) => {
                proof {
                    lemma_first_scalar_len_agrees(rest@);
                    lemma_valid_first_scalar_char_len(rest@);
                    partial_valid_utf8_extend(bytes@, i as int);
                }
                let l = char_len_utf8(c);
                i += l;
            },
            Err(_) => {
                proof {
                    assert(!valid_utf8(rest@));
                    partial_valid_partial_invalid_utf8(bytes@, i as int);
                }
                return false;
            },
        }
    }
    proof {
        assert(bytes@.subrange(0, n as int) =~= bytes@);
    }
    true
}

/// Parses `bytes` as UTF-8 and decodes its first code point.
///
/// Returns `Ok` precisely when the whole slice is non-empty, valid UTF-8;
/// code points after the first are checked but otherwise ignored.
pub fn parse_char(bytes: &[u8]) -> (r: Result<char, InvalidChar>)
    ensures
        r matches Ok(c) ==> bytes@.len() > 0 && valid_utf8(bytes@) && c as u32
            == decode_first_scalar(bytes@),
        r is Err ==> !(bytes@.len() > 0 && valid_utf8(bytes@)),
{
    if bytes.len() == 0 {
        return Err(InvalidChar);
    }
    if !is_valid_utf8(bytes) {
        return Err(InvalidChar);
    }
    match first_codepoint(bytes) {
        Ok(c) => Ok(c),
        Err(e) => {
            proof {
                assert(false);
            }
            Err(e)
        },
    }
}

/// How many bytes the UTF-8 encoding of the scalar value `v` occupies.
pub open spec fn scalar_utf8_len(v: u32) -> nat {
    if v < 0x80 {
        1
    } else if v < 0x800 {
        2
    } else if v < 0x10000 {
        3
    } else {
        4
    }
}

/// How many bytes the UTF-8 encoding of `c` occupies.
pub fn char_len_utf8(c: char) -> (r: usize)
    ensures
        r == scalar_utf8_len(c as u32),
{
    let v = c as u32;
    if v < 0x80 {
        1
    } else if v < 0x800 {
        2
    } else if v < 0x10000 {
        3
    } else {
        4
    }
}

/// The length of a well-formed first encoding equals the encoded length of
/// the scalar it decodes to.
pub proof fn lemma_first_scalar_len_agrees(s: Seq<u8>)
    requires
        valid_first_scalar(s),
    ensures
        length_of_first_scalar(s) == scalar_utf8_len(decode_first_scalar(s)),
{
    let b0 = s[0];
    if b0 <= 0x7f {
        assert(((b0 & 0x7f) as u32) < 0x80) by (bit_vector);
    } else if 0xc0 <= b0 <= 0xdf {
        let b1 = s[1];
        assert(((((b0 & 0x1f) as u32) << 6) | ((b1 & 0x3f) as u32)) < 0x800) by (bit_vector);
    } else if 0xe0 <= b0 <= 0xef {
        let b1 = s[1];
        let b2 = s[2];
        assert(((((b0 & 0x0f) as u32) << 12) | (((b1 & 0x3f) as u32) << 6) | ((b2
            & 0x3f) as u32)) < 0x10000) by (bit_vector);
    }
}

/// How many base-10 digits `num` has.
pub open spec fn count_digits_spec(num: u32) -> nat
    decreases num,
{
    if num <= 9 {
        1
    } else {
        1 + count_digits_spec(num / 10)
    }
}

/// A 32-bit value has at most ten decimal digits.
proof fn lemma_count_digits_max(v: u32)
    ensures
        count_digits_spec(v) <= 10,
{
    let x0 = v as int;
    let x1 = x0 / 10;
    let x2 = x1 / 10;
    let x3 = x2 / 10;
    let x4 = x3 / 10;
    let x5 = x4 / 10;
    let x6 = x5 / 10;
    let x7 = x6 / 10;
    let x8 = x7 / 10;
    let x9 = x8 / 10;
    vstd::arithmetic::div_mod::lemma_div_is_ordered(x0, 0xffffffff, 10);
    vstd::arithmetic::div_mod::lemma_div_is_ordered(x1, 429496729, 10);
    vstd::arithmetic::div_mod::lemma_div_is_ordered(x2, 42949672, 10);
    vstd::arithmetic::div_mod::lemma_div_is_ordered(x3, 4294967, 10);
    vstd::arithmetic::div_mod::lemma_div_is_ordered(x4, 429496, 10);
    vstd::arithmetic::div_mod::lemma_div_is_ordered(x5, 42949, 10);
    vstd::arithmetic::div_mod::lemma_div_is_ordered(x6, 4294, 10);
    vstd::arithmetic::div_mod::lemma_div_is_ordered(x7, 429, 10);
    vstd::arithmetic::div_mod::lemma_div_is_ordered(x8, 42, 10);
    assert(x9 <= 4);
    assert(forall|a: u32| a <= 9 ==> #[trigger] count_digits_spec(a) == 1);
    assert(forall|a: u32|
        a > 9 ==> #[trigger] count_digits_spec(a) == 1 + count_digits_spec(a / 10));
}

/// Counts the base-10 digits of `num`.
pub fn count_digits(num: u32) -> (r: usize)
    ensures
        r == count_digits_spec(num),
{
    proof {
        lemma_count_digits_max(num);
    }
    let mut n = num;
    let mut count: usize = 1;
    while n > 9
        invariant
            count >= 1,
            count - 1 + count_digits_spec(n) == count_digits_spec(num),
            count_digits_spec(num) <= 10,
        decreases n,
    {
        proof {
            vstd::arithmetic::div_mod::lemma_div_decreases(n as int, 10);
        }
        n = n / 10;
        count += 1;
    }
    count
}

/// The displayed width in columns of `c`, or `None` for a control
/// character. Introduced by the `width` call of the `unicode-width` crate
/// and otherwise unspecified.
pub uninterp spec fn display_width_of(c: char) -> Option<usize>;

/// As [`display_width_of`], treating ambiguous-width characters as wide.
/// Introduced by the `width_cjk` call of the `unicode-width` crate and
/// otherwise unspecified.
pub uninterp spec fn display_width_cjk_of(c: char) -> Option<usize>;

/// Relies on `unicode_width::UnicodeWidthChar::width`: the column count
/// depends on the character alone, and printable ASCII is one column wide.
#[verifier::external_body]
fn char_width(c: char) -> (r: Option<usize>)
    ensures
        r == display_width_of(c),
        ' ' <= c <= '~' ==> r == Some(1usize),
{
    unicode_width::UnicodeWidthChar::width(c)
}

/// Relies on `unicode_width::UnicodeWidthChar::width_cjk`: the column count
/// depends on the character alone, and printable ASCII is one column wide.
#[verifier::external_body]
fn char_width_cjk(c: char) -> (r: Option<usize>)
    ensures
        r == display_width_cjk_of(c),
        ' ' <= c <= '~' ==> r == Some(1usize),
{
    unicode_width::UnicodeWidthChar::width_cjk(c)
}

/// The number of columns `c` takes up when displayed: its Unicode width
/// where it has one, else the width of its escaped form `\u{..}`.
pub open spec fn char_display_width_spec(c: char, cjk: bool) -> int {
    if c == '\0' {
        5
    } else {
        match (if cjk {
            display_width_cjk_of(c)
        } else {
            display_width_of(c)
        }) {
            Some(w) => w as int,
            None => (4 + count_digits_spec(c as u32)) as int,
        }
    }
}

/// How many columns `c` takes up when displayed, rendering control
/// characters in their escaped `\u{..}` form.
pub fn utf8_char_display_width(c: char, cjk: bool) -> (r: usize)
    ensures
        r == char_display_width_spec(c, cjk),
{
    if c == '\0' {
        // the escape `\u{0}` is five characters long
        return 5;
    }
    let width = if cjk {
        char_width_cjk(c)
    } else {
        char_width(c)
    };
    match width {
        Some(width) => width,
        None => {
            proof {
                lemma_count_digits_max(c as u32);
            }
            // the escape `\u{..}` is four characters plus the digits
            4 + count_digits(c as u32)
        },
    }
}

/// A double-ended cursor over the code points of a byte slice, yielding
/// decode errors in place of malformed sequences.
#[derive(Clone, Debug)]
pub struct CharIter {
    bytes: Vec<u8>,
    forward: usize,
    backward: usize,
}

impl CharIter {
    /// The bytes the cursor walks over.
    pub closed spec fn bytes_spec(&self) -> Seq<u8> {
        self.bytes@
    }

    /// Offset of the next code point read forwards.
    pub closed spec fn forward_spec(&self) -> nat {
        self.forward as nat
    }

    /// Offset one past the next code point read backwards.
    pub closed spec fn backward_spec(&self) -> nat {
        self.backward as nat
    }

    /// The two offsets stay ordered and in range.
    pub closed spec fn inv(&self) -> bool {
        self.forward <= self.backward <= self.bytes@.len()
    }

    /// A cursor over all of `bytes`.
    pub fn new(bytes: &[u8]) -> (r: CharIter)
        ensures
            r.bytes_spec() == bytes@,
            r.forward_spec() == 0,
            r.backward_spec() == bytes@.len(),
            r.inv(),
    {
        let copy = vstd::slice::slice_to_vec(bytes);
        let backward = copy.len();
        CharIter { bytes: copy, forward: 0, backward }
    }

    /// The bytes not yet consumed from either end.
    pub fn as_slice(&self) -> (r: &[u8])
        requires
            self.inv(),
        ensures
            r@ == self.bytes_spec().subrange(
                self.forward_spec() as int,
                self.backward_spec() as int,
            ),
    {
        vstd::slice::slice_subrange(self.bytes.as_slice(), self.forward, self.backward)
    }

    /// The bytes from the forward offset to the end of the original slice.
    pub fn head(&self) -> (r: &[u8])
        requires
            self.inv(),
        ensures
            r@ == self.bytes_spec().subrange(
                self.forward_spec() as int,
                self.bytes_spec().len() as int,
            ),
    {
        vstd::slice::slice_subrange(self.bytes.as_slice(), self.forward, self.bytes.len())
    }

    /// The bytes from the start of the original slice to the backward
    /// offset.
    pub fn tail(&self) -> (r: &[u8])
        requires
            self.inv(),
        ensures
            r@ == self.bytes_spec().subrange(0, self.backward_spec() as int),
    {
        vstd::slice::slice_subrange(self.bytes.as_slice(), 0, self.backward)
    }

    /// How many bytes are left between the two offsets, as both the lower
    /// and upper bound on the number of code points still to come.
    pub fn size_hint(&self) -> (r: (usize, Option<usize>))
        requires
            self.inv(),
        ensures
            r.0 == self.backward_spec() - self.forward_spec(),
            r.1 == Some(r.0),
    {
        let remaining = self.backward - self.forward;
        (remaining, Some(remaining))
    }

    /// Decodes the next code point after the forward offset, advancing past
    /// it; a code point that would cross the backward offset is an error
    /// and exhausts the cursor.
    pub fn next(&mut self) -> (r: Option<Result<char, InvalidChar>>)
        requires
            old(self).inv(),
        ensures
            final(self).inv(),
            final(self).bytes_spec() == old(self).bytes_spec(),
            final(self).backward_spec() == old(self).backward_spec(),
            final(self).forward_spec() >= old(self).forward_spec(),
            r is None <==> old(self).forward_spec() == old(self).backward_spec(),
            r is None ==> final(self).forward_spec() == old(self).forward_spec(),
            r matches Some(Ok(c)) ==> valid_first_scalar(
                old(self).bytes_spec().subrange(
                    old(self).forward_spec() as int,
                    old(self).bytes_spec().len() as int,
                ),
            ) && c as u32 == decode_first_scalar(
                old(self).bytes_spec().subrange(
                    old(self).forward_spec() as int,
                    old(self).bytes_spec().len() as int,
                ),
            ) && final(self).forward_spec() == old(self).forward_spec() + scalar_utf8_len(
                c as u32,
            ) && final(self).forward_spec() <= final(self).backward_spec(),
            r matches Some(e) && e is Err ==> final(self).forward_spec()
                == final(self).backward_spec() && (!valid_first_scalar(
                old(self).bytes_spec().subrange(
                    old(self).forward_spec() as int,
                    old(self).bytes_spec().len() as int,
                ),
            ) || old(self).forward_spec() + length_of_first_scalar(
                old(self).bytes_spec().subrange(
                    old(self).forward_spec() as int,
                    old(self).bytes_spec().len() as int,
                ),
            ) > old(self).backward_spec()),
    {
        if self.forward == self.backward {
            None
        } else {
            let r = first_codepoint(self.head());
            match r {
                Ok(c) => {
                    proof {
                        lemma_first_scalar_len_agrees(
                            self.bytes@.subrange(self.forward as int, self.bytes@.len() as int),
                        );
                    }
                    let len = char_len_utf8(c);
                    if self.backward - self.forward < len {
                        self.forward = self.backward;
                        Some(Err(InvalidChar))
                    } else {
                        self.forward = self.forward + len;
                        Some(Ok(c))
                    }
                },
                Err(e) => {
                    self.forward = self.backward;
                    Some(Err(e))
                },
            }
        }
    }

    /// Decodes the code point that ends at the backward offset, retreating
    /// before it; a code point that would cross the forward offset is an
    /// error and exhausts the cursor.
    pub fn next_back(&mut self) -> (r: Option<Result<char, InvalidChar>>)
        requires
            old(self).inv(),
        ensures
            final(self).inv(),
            final(self).bytes_spec() == old(self).bytes_spec(),
            final(self).forward_spec() == old(self).forward_spec(),
            final(self).backward_spec() <= old(self).backward_spec(),
            r is None <==> old(self).forward_spec() == old(self).backward_spec(),
            r is None ==> final(self).backward_spec() == old(self).backward_spec(),
            r matches Some(Ok(c)) ==> exists|k: int|
                {
                    &&& #[trigger] ends_with_char_encoding(
                        old(self).bytes_spec().subrange(0, old(self).backward_spec() as int),
                        k,
                    )
                    &&& c as u32 == decode_first_scalar(
                        old(self).bytes_spec().subrange(
                            old(self).backward_spec() - k,
                            old(self).backward_spec() as int,
                        ),
                    )
                    &&& k == scalar_utf8_len(c as u32)
                    &&& final(self).backward_spec() == old(self).backward_spec()
                        - scalar_utf8_len(c as u32)
                    &&& final(self).backward_spec() >= final(self).forward_spec()
                },
            r matches Some(e) && e is Err ==> final(self).backward_spec()
                == final(self).forward_spec() && ((forall|k: int|
                !ends_with_char_encoding(
                    old(self).bytes_spec().subrange(0, old(self).backward_spec() as int),
                    k,
                )) || (exists|k: int|
                #[trigger] ends_with_char_encoding(
                    old(self).bytes_spec().subrange(0, old(self).backward_spec() as int),
                    k,
                ) && old(self).backward_spec() - k < old(self).forward_spec())),
    {
        if self.forward == self.backward {
            None
        } else {
            let r = last_codepoint(self.tail());
            match r {
                Ok(c) => {
                    let len = char_len_utf8(c);
                    proof {
                        let t = self.bytes@.subrange(0, self.backward as int);
                        let k = choose|k: int|
                            #[trigger] ends_with_char_encoding(t, k) && c as u32
                                == decode_first_scalar(t.subrange(t.len() - k, t.len() as int));
                        lemma_first_scalar_len_agrees(t.subrange(t.len() - k, t.len() as int));
                    }
                    if self.backward - self.forward < len {
                        self.backward = self.forward;
                        Some(Err(InvalidChar))
                    } else {
                        self.backward = self.backward - len;
                        Some(Ok(c))
                    }
                },
                Err(e) => {
                    self.backward = self.forward;
                    Some(Err(e))
                },
            }
        }
    }
}

} // verus!
