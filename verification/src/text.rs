//! Text that the library makes: numbers in decimal, and the progress frame.

use vstd::prelude::*;

verus! {

/// Calls `String::push`. Trusted: afterwards `s` holds what it held, followed by `c`.
#[verifier::external_body]
pub(crate) fn push_char(s: &mut String, c: char)
    ensures
        final(s)@ == old(s)@.push(c),
{
    s.push(c);
}

/// The character of a decimal digit.
pub open spec fn digit(d: nat) -> char
    recommends
        d < 10,
{
    (0x30 + d) as char
}

/// The decimal numeral of `n`: no sign, and no leading zero but for zero itself.
pub open spec fn decimal(n: nat) -> Seq<char>
    decreases n,
{
    if n < 10 {
        seq![digit(n)]
    } else {
        decimal(n / 10).push(digit(n % 10))
    }
}

/// The text of a progress frame: the number of records read and the count of solid
/// k-mers, both in decimal, with one space between them.
pub open spec fn frame(reads: u32, kmers: u32) -> Seq<char> {
    decimal(reads as nat).push(' ') + decimal(kmers as nat)
}

/// Appends the decimal numeral of `n` to `out`.
pub fn push_decimal(out: &mut String, n: u32)
    ensures
        final(out)@ == old(out)@ + decimal(n as nat),
    decreases n,
{
    if n >= 10 {
        push_decimal(out, n / 10);
    }
    let d: u8 = (n % 10) as u8;
    push_char(out, (0x30u8 + d) as char);
    proof {
        if n >= 10 {
            assert(out@ =~= old(out)@ + decimal(n as nat));
        } else {
            assert(out@ =~= old(out)@ + decimal(n as nat));
        }
    }
}

/// The progress frame for one sample.
pub fn progress_frame(reads: u32, kmers: u32) -> (text: String)
    ensures
        text@ == frame(reads, kmers),
{
    let mut text = String::new();
    push_decimal(&mut text, reads);
    push_char(&mut text, ' ');
    push_decimal(&mut text, kmers);
    assert(text@ =~= frame(reads, kmers));
    text
}

} // verus!
