//! Character-level building blocks: decimal rendering of integers, byte to
//! character decoding, and the std string calls that have no specification
//! in vstd.

use vstd::prelude::*;
use vstd::utf8::*;

verus! {

/// The ASCII decimal digit for `d` (meant for `d < 10`).
pub open spec fn digit_char(d: nat) -> char {
    (48 + d) as char
}

/// The decimal rendering of `n`, without sign or leading zeros, as Rust's
/// `Display` for unsigned integers writes it.
pub open spec fn decimal(n: nat) -> Seq<char>
    decreases n,
{
    if n < 10 {
        seq![digit_char(n)]
    } else {
        decimal(n / 10).push(digit_char(n % 10))
    }
}

/// Every byte taken as the character with the same code point (ISO 8859-1).
pub open spec fn latin1(bytes: Seq<u8>) -> Seq<char> {
    Seq::new(bytes.len(), |i: int| bytes[i] as char)
}

pub open spec fn is_ascii_digit(c: u8) -> bool {
    48 <= c <= 57
}

pub open spec fn all_ascii_digits(b: Seq<u8>) -> bool {
    forall|i: int| 0 <= i < b.len() ==> is_ascii_digit(#[trigger] b[i])
}

/// The number that the decimal digits `b` write.
pub open spec fn digits_value(b: Seq<u8>) -> nat
    decreases b.len(),
{
    if b.len() == 0 {
        0
    } else {
        digits_value(b.drop_last()) * 10 + (b.last() - 48) as nat
    }
}

/// Whether every byte of `d` is an ASCII decimal digit.
pub fn are_ascii_digits(d: &[u8]) -> (r: bool)
    ensures
        r == all_ascii_digits(d@),
{
    let mut i: usize = 0;
    while i < d.len()
        invariant
            i <= d@.len(),
            forall|j: int| 0 <= j < i ==> is_ascii_digit(#[trigger] d@[j]),
        decreases d@.len() - i,
    {
        if d[i] < 48 || d[i] > 57 {
            return false;
        }
        i = i + 1;
    }
    true
}

/// The value of the decimal digits `d` when they are at least one and the
/// value fits in 16 bits.
pub open spec fn decimal_u16(d: Seq<u8>) -> Option<u16> {
    if d.len() > 0 && all_ascii_digits(d) && digits_value(d) <= 65535 {
        Some(digits_value(d) as u16)
    } else {
        None
    }
}

/// The value of the decimal digits `d`, when they are at least one and it
/// fits in 16 bits.
pub fn parse_decimal_u16(d: &[u8]) -> (r: Option<u16>)
    ensures
        r == decimal_u16(d@),
{
    let mut i: usize = 0;
    let mut acc: u64 = 0;
    let mut big = false;
    assert(d@.take(0) =~= Seq::<u8>::empty());
    while i < d.len()
        invariant
            i <= d@.len(),
            all_ascii_digits(d@.take(i as int)),
            !big ==> acc == digits_value(d@.take(i as int)) && acc <= 65535,
            big ==> digits_value(d@.take(i as int)) > 65535,
        decreases d@.len() - i,
    {
        let c = d[i];
        if c < 48 || c > 57 {
            assert(!all_ascii_digits(d@));
            return None;
        }
        let ghost p = d@.take(i as int);
        assert(d@.take(i + 1).drop_last() =~= p);
        if !big {
            acc = acc * 10 + (c - 48) as u64;
            if acc > 65535 {
                big = true;
            }
        }
        i = i + 1;
        assert(all_ascii_digits(d@.take(i as int))) by {
            assert forall|j: int| 0 <= j < i implies is_ascii_digit(#[trigger] d@.take(i as int)[j]) by {
                if j < i - 1 {
                    assert(d@.take(i as int)[j] == p[j]);
                }
            }
        }
    }
    assert(d@.take(i as int) =~= d@);
    if i > 0 && !big {
        Some(acc as u16)
    } else {
        None
    }
}

/// Appends `c` to `s`.
///
/// Calls std's `String::push`, which appends one character; the contract
/// claims exactly that.
#[verifier::external_body]
pub(crate) fn push_char(s: &mut String, c: char)
    ensures
        final(s)@ == old(s)@.push(c),
{
    s.push(c)
}

/// The string of the bytes `b` when they are well-formed UTF-8.
///
/// Calls std's `String::from_utf8`, which succeeds exactly on well-formed
/// UTF-8 and then holds the characters that the bytes encode.
#[verifier::external_body]
pub(crate) fn utf8_to_string(b: &[u8]) -> (r: Option<String>)
    ensures
        r is Some <==> valid_utf8(b@),
        r matches Some(s) ==> s@ == decode_utf8(b@),
{
    String::from_utf8(b.to_vec()).ok()
}

/// What `String::from_utf8_lossy` makes of a byte sequence.
pub uninterp spec fn utf8_lossy(bytes: Seq<u8>) -> Seq<char>;

/// The bytes `b` decoded as UTF-8, every ill-formed part replaced by
/// U+FFFD.
///
/// Calls std's `String::from_utf8_lossy`. The contract names its result and
/// states one documented fact of it: well-formed UTF-8 decodes unchanged. How
/// ill-formed parts are replaced is left unsaid.
#[verifier::external_body]
pub(crate) fn utf8_lossy_string(b: &[u8]) -> (r: String)
    ensures
        r@ == utf8_lossy(b@),
        valid_utf8(b@) ==> r@ == decode_utf8(b@),
{
    String::from_utf8_lossy(b).into_owned()
}

/// Decimal rendering of `n`.
pub fn decimal_string(n: u32) -> (r: String)
    ensures
        r@ == decimal(n as nat),
    decreases n,
{
    let digit = ((n % 10) as u8 + 48u8) as char;
    if n < 10 {
        let mut s = String::new();
        push_char(&mut s, digit);
        s
    } else {
        let mut s = decimal_string(n / 10);
        push_char(&mut s, digit);
        s
    }
}

/// Each byte of `b` as the character with the same code point.
pub fn latin1_string(b: &[u8]) -> (r: String)
    ensures
        r@ == latin1(b@),
{
    let mut s = String::new();
    let mut i: usize = 0;
    while i < b.len()
        invariant
            i <= b@.len(),
            s@ == latin1(b@.take(i as int)),
        decreases b@.len() - i,
    {
        push_char(&mut s, b[i] as char);
        i = i + 1;
        assert(latin1(b@.take(i as int)) =~= latin1(b@.take(i - 1)).push(b@[i - 1] as char));
    }
    assert(b@.take(i as int) =~= b@);
    s
}

/// The decimal rendering of `n` is one or more ASCII digits, with no
/// leading zero unless `n` is zero, and the number those digits write is
/// `n`.
pub proof fn lemma_decimal(n: nat)
    ensures
        decimal(n).len() >= 1,
        forall|i: int| 0 <= i < decimal(n).len() ==> '0' <= #[trigger] decimal(n)[i] <= '9',
        decimal(n)[0] == '0' ==> n == 0,
        digits_value(decimal(n).map_values(|c: char| c as u8)) == n,
    decreases n,
{
    if n >= 10 {
        lemma_decimal(n / 10);
        let d = decimal(n / 10);
        let b = decimal(n).map_values(|c: char| c as u8);
        assert(b.drop_last() =~= d.map_values(|c: char| c as u8));
        assert(decimal(n)[0] == d[0]);
        let k = n % 10;
        assert((digit_char(k) as u8) as int == 48 + k);
        assert(b.last() == digit_char(k) as u8);
        assert(b.len() > 0);
        assert(digits_value(b) == digits_value(b.drop_last()) * 10 + (b.last() - 48) as nat);
        assert(digits_value(b.drop_last()) == n / 10);
        assert(n == (n / 10) * 10 + k);
    } else {
        let b = decimal(n).map_values(|c: char| c as u8);
        assert((digit_char(n) as u8) as int == 48 + n);
        assert(b.drop_last() =~= Seq::<u8>::empty());
        assert(b.len() == 1 && b.last() == digit_char(n) as u8);
        assert(digits_value(b) == digits_value(b.drop_last()) * 10 + (b.last() - 48) as nat);
    }
}

} // verus!
