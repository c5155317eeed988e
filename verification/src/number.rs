//! Numbers as text: integers in decimal, and the classes of floats.

use vstd::prelude::*;

verus! {

/// The character of the decimal digit `d`.
pub open spec fn digit_char(d: int) -> char
    recommends
        0 <= d <= 9,
{
    ((0x30 + d) as u8) as char
}

/// The decimal digits of `n`, most significant first, without leading zeros;
/// `0` is the single digit `0`.
pub open spec fn decimal_digits(n: nat) -> Seq<char>
    decreases n,
{
    if n < 10 {
        seq![digit_char(n as int)]
    } else {
        decimal_digits(n / 10).push(digit_char((n % 10) as int))
    }
}

/// The integer `n` in decimal, with a leading `-` exactly when it is negative.
pub open spec fn decimal(n: int) -> Seq<char> {
    if n < 0 {
        seq!['-'] + decimal_digits((-n) as nat)
    } else {
        decimal_digits(n as nat)
    }
}

/// Whether the 64-bit pattern `bits` is that of a NaN or an infinity: its
/// eleven exponent bits are all set.
pub open spec fn non_finite_f64(bits: u64) -> bool {
    (bits >> 52) & 0x7ff == 0x7ff
}

/// Whether the 32-bit pattern `bits` is that of a NaN or an infinity: its
/// eight exponent bits are all set.
pub open spec fn non_finite_f32(bits: u32) -> bool {
    (bits >> 23) & 0xff == 0xff
}

/// Decides whether a 64-bit float with this bit pattern is NaN or infinite.
pub fn is_non_finite_f64(bits: u64) -> (r: bool)
    ensures
        r == non_finite_f64(bits),
{
    (bits >> 52) & 0x7ff == 0x7ff
}

/// Decides whether a 32-bit float with this bit pattern is NaN or infinite.
pub fn is_non_finite_f32(bits: u32) -> (r: bool)
    ensures
        r == non_finite_f32(bits),
{
    (bits >> 23) & 0xff == 0xff
}

/// `itoa::Buffer::format` on an `i128`: the decimal digits of the value,
/// without leading zeros, after a `-` if it is negative.
#[verifier::external_body]
fn format_signed(value: i128) -> (text: String)
    ensures
        text@ == decimal(value as int),
{
    itoa::Buffer::new().format(value).to_owned()
}

/// `itoa::Buffer::format` on a `u128`: the decimal digits of the value,
/// without leading zeros.
#[verifier::external_body]
fn format_unsigned(value: u128) -> (text: String)
    ensures
        text@ == decimal(value as int),
{
    itoa::Buffer::new().format(value).to_owned()
}

/// Appends the signed integer `i` to `s` in decimal.
pub fn int_to_string(s: &mut String, i: i128)
    ensures
        final(s)@ == old(s)@ + decimal(i as int),
{
    let text = format_signed(i);
    s.append(text.as_str());
}

/// Appends the unsigned integer `i` to `s` in decimal.
pub fn uint_to_string(s: &mut String, i: u128)
    ensures
        final(s)@ == old(s)@ + decimal(i as int),
{
    let text = format_unsigned(i);
    s.append(text.as_str());
}

} // verus!
