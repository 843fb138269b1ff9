//! Rendering inputs and errors for humans: decimal and hexadecimal
//! formatting over exact character-sequence contracts, and the display
//! hand-off types the input and error types return.

use vstd::prelude::*;

use crate::text::MaybeString;

verus! {

/// Relies on `String::push_str`: it appends the slice to the string.
#[verifier::external_body]
pub(crate) fn push_str(s: &mut String, piece: &str)
    ensures
        final(s)@ == old(s)@ + piece@,
{
    s.push_str(piece);
}

/// The character for one decimal digit.
pub open spec fn decimal_digit(d: nat) -> char {
    if d == 0 {
        '0'
    } else if d == 1 {
        '1'
    } else if d == 2 {
        '2'
    } else if d == 3 {
        '3'
    } else if d == 4 {
        '4'
    } else if d == 5 {
        '5'
    } else if d == 6 {
        '6'
    } else if d == 7 {
        '7'
    } else if d == 8 {
        '8'
    } else {
        '9'
    }
}

/// The base-10 rendering of `n`, most significant digit first.
pub open spec fn decimal_chars(n: nat) -> Seq<char>
    decreases n,
{
    if n <= 9 {
        seq![decimal_digit(n)]
    } else {
        decimal_chars(n / 10) + seq![decimal_digit(n % 10)]
    }
}

/// Renders `n` in base 10, most significant digit first.
pub(crate) fn u64_to_string(n: u64) -> (r: String)
    ensures
        r@ == decimal_chars(n as nat),
{
    let mut low_first: Vec<u8> = Vec::new();
    let mut m = n;
    while m > 9
        invariant
            decimal_chars(n as nat) == decimal_chars(m as nat) + digit_chars_reversed(low_first@),
            forall|j: int| 0 <= j < low_first@.len() ==> #[trigger] low_first@[j] < 10,
        decreases m,
    {
        let d = (m % 10) as u8;
        let ghost pre = low_first@;
        low_first.push(d);
        proof {
            vstd::arithmetic::div_mod::lemma_div_decreases(m as int, 10);
            assert(low_first@.drop_last() =~= pre);
            assert(decimal_chars((m / 10) as nat) + digit_chars_reversed(low_first@)
                =~= decimal_chars(m as nat) + digit_chars_reversed(pre));
        }
        m = m / 10;
    }
    let mut s = String::new();
    push_char(&mut s, hex_digit_char(m as u8));
    proof {
        assert(low_first@.subrange(0, low_first@.len() as int) =~= low_first@);
        assert(s@ =~= seq![decimal_digit(m as nat)]);
        assert(s@ + digit_chars_reversed(low_first@) =~= decimal_chars(n as nat));
    }
    let mut k: usize = low_first.len();
    while k > 0
        invariant
            k <= low_first@.len(),
            forall|j: int| 0 <= j < low_first@.len() ==> #[trigger] low_first@[j] < 10,
            s@ + digit_chars_reversed(low_first@.subrange(0, k as int)) == decimal_chars(n as nat),
        decreases k,
    {
        k = k - 1;
        push_char(&mut s, hex_digit_char(low_first[k]));
        proof {
            assert(low_first@.subrange(0, k + 1).drop_last() =~= low_first@.subrange(0, k as int));
            assert(digit_chars_reversed(low_first@.subrange(0, k + 1)) =~= seq![
                decimal_digit(low_first@[k as int] as nat),
            ] + digit_chars_reversed(low_first@.subrange(0, k as int)));
            assert(s@ + digit_chars_reversed(low_first@.subrange(0, k as int)) =~= decimal_chars(
                n as nat,
            ));
        }
    }
    proof {
        assert(low_first@.subrange(0, 0) =~= Seq::<u8>::empty());
        assert(s@ =~= decimal_chars(n as nat));
    }
    s
}

/// The characters of a least-significant-first digit sequence, read back
/// most significant first.
pub open spec fn digit_chars_reversed(digits: Seq<u8>) -> Seq<char>
    decreases digits.len(),
{
    if digits.len() == 0 {
        Seq::<char>::empty()
    } else {
        seq![decimal_digit(digits.last() as nat)] + digit_chars_reversed(digits.drop_last())
    }
}

/// The rendering of a byte count: the number followed by a unit that is
/// singular only for exactly one byte.
pub open spec fn byte_count_chars(n: nat) -> Seq<char> {
    if n == 1 {
        "1 byte"@
    } else {
        decimal_chars(n) + " bytes"@
    }
}

/// Renders a count of bytes, as `"1 byte"` or `"<n> bytes"`.
pub fn byte_count_string(n: usize) -> (r: String)
    ensures
        r@ == byte_count_chars(n as nat),
{
    if n == 1 {
        proof {
            reveal_strlit("1 byte");
        }
        "1 byte".to_owned()
    } else {
        let mut s = u64_to_string(n as u64);
        push_str(&mut s, " bytes");
        s
    }
}

/// The character for one hexadecimal digit.
pub open spec fn hex_digit(d: nat) -> char {
    if d < 10 {
        decimal_digit(d)
    } else if d == 10 {
        'a'
    } else if d == 11 {
        'b'
    } else if d == 12 {
        'c'
    } else if d == 13 {
        'd'
    } else if d == 14 {
        'e'
    } else {
        'f'
    }
}

/// The two hexadecimal digits of one byte.
pub open spec fn hex_byte_chars(b: u8) -> Seq<char> {
    seq![hex_digit((b / 16) as nat), hex_digit((b % 16) as nat)]
}

/// The rendering of a byte string as space-separated hexadecimal pairs
/// inside brackets, rendered over the first `k` bytes of `s`.
pub open spec fn hex_body_chars(s: Seq<u8>, k: int) -> Seq<char>
    decreases k,
{
    if k <= 0 {
        Seq::<char>::empty()
    } else if k == 1 {
        hex_byte_chars(s[0])
    } else {
        hex_body_chars(s, k - 1) + " "@ + hex_byte_chars(s[k - 1])
    }
}

/// The full rendering of an input: its bytes in hexadecimal, bracketed.
pub open spec fn input_display_chars(s: Seq<u8>) -> Seq<char> {
    "["@ + hex_body_chars(s, s.len() as int) + "]"@
}

fn hex_digit_char(d: u8) -> (r: char)
    requires
        d < 16,
    ensures
        r == hex_digit(d as nat),
{
    if d == 0 {
        '0'
    } else if d == 1 {
        '1'
    } else if d == 2 {
        '2'
    } else if d == 3 {
        '3'
    } else if d == 4 {
        '4'
    } else if d == 5 {
        '5'
    } else if d == 6 {
        '6'
    } else if d == 7 {
        '7'
    } else if d == 8 {
        '8'
    } else if d == 9 {
        '9'
    } else if d == 10 {
        'a'
    } else if d == 11 {
        'b'
    } else if d == 12 {
        'c'
    } else if d == 13 {
        'd'
    } else if d == 14 {
        'e'
    } else {
        'f'
    }
}

/// Relies on `String::push`: it appends the character to the string.
#[verifier::external_body]
pub(crate) fn push_char(s: &mut String, c: char)
    ensures
        final(s)@ == old(s)@ + seq![c],
{
    s.push(c);
}

/// A pending rendering of an input view, handed to the caller to turn
/// into a string.
#[derive(Clone, Debug)]
pub struct InputDisplay {
    input: MaybeString,
}

impl InputDisplay {
    /// The bytes this display renders.
    pub closed spec fn input_spec(&self) -> MaybeString {
        self.input
    }

    /// A display of the given input.
    pub fn new(input: MaybeString) -> (r: InputDisplay)
        ensures
            r.input_spec() == input,
    {
        InputDisplay { input }
    }

    /// Renders the bytes of the input as bracketed hexadecimal pairs.
    pub fn to_display_string(&self) -> (r: String)
        ensures
            r@ == input_display_chars(self.input_spec()@),
    {
        let bytes = self.input.as_dangerous();
        let n = bytes.len();
        proof {
            reveal_strlit("[");
            reveal_strlit("]");
            reveal_strlit(" ");
        }
        let mut s = "[".to_owned();
        let mut i: usize = 0;
        while i < n
            invariant
                0 <= i <= n,
                n == bytes@.len(),
                s@ == "["@ + hex_body_chars(bytes@, i as int),
            decreases n - i,
        {
            if i > 0 {
                push_str(&mut s, " ");
            }
            let b = bytes[i];
            push_char(&mut s, hex_digit_char(b / 16));
            push_char(&mut s, hex_digit_char(b % 16));
            proof {
                assert(s@ =~= "["@ + hex_body_chars(bytes@, i + 1));
            }
            i += 1;
        }
        push_str(&mut s, "]");
        proof {
            assert(s@ =~= input_display_chars(self.input_spec()@));
        }
        s
    }
}

/// A pending rendering of an error, already composed into its final
/// string form.
#[derive(Clone, Debug)]
pub struct ErrorDisplay {
    rendered: String,
}

impl ErrorDisplay {
    /// The characters of the rendering.
    pub closed spec fn rendered_spec(&self) -> Seq<char> {
        self.rendered@
    }

    /// Wraps an already rendered error string.
    pub fn new(rendered: String) -> (r: ErrorDisplay)
        ensures
            r.rendered_spec() == rendered@,
    {
        ErrorDisplay { rendered }
    }

    /// The rendered error string.
    pub fn to_display_string(&self) -> (r: String)
        ensures
            r@ == self.rendered_spec(),
    {
        self.rendered.clone()
    }
}

} // verus!
