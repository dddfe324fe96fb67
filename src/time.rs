use vstd::prelude::*;

verus! {

/// The decimal digit `d` (0 to 9) as a character.
pub open spec fn digit(d: int) -> char {
    ((48 + d) as u8) as char
}

/// `n` (below 100) as exactly two decimal digits.
pub open spec fn two_digits(n: int) -> Seq<char> {
    seq![digit(n / 10), digit(n % 10)]
}

/// `n` (below 1000) as exactly three decimal digits.
pub open spec fn three_digits(n: int) -> Seq<char> {
    seq![digit(n / 100), digit((n / 10) % 10), digit(n % 10)]
}

/// A millisecond timestamp as the time of day `HH:MM:SS.zzz`; whole days
/// are dropped.
pub open spec fn timestamp_text(timestamp_ms: int) -> Seq<char> {
    let secs = timestamp_ms / 1000;
    two_digits((secs % 86400) / 3600) + seq![':'] + two_digits((secs % 3600) / 60) + seq![':']
        + two_digits(secs % 60) + seq!['.'] + three_digits(timestamp_ms % 1000)
}

/// Relies on `String::push`: the character is appended at the end.
#[verifier::external_body]
fn push_char(s: &mut String, c: char)
    ensures
        final(s)@ == old(s)@.push(c),
{
    s.push(c);
}

fn digit_char(d: u32) -> (r: char)
    requires
        d < 10,
    ensures
        r == digit(d as int),
{
    ((48 + d) as u8) as char
}

fn push_digits(s: &mut String, n: u32, width: u32)
    requires
        width == 2 && n < 100 || width == 3 && n < 1000,
    ensures
        width == 2 ==> final(s)@ == old(s)@ + two_digits(n as int),
        width == 3 ==> final(s)@ == old(s)@ + three_digits(n as int),
{
    if width == 3 {
        push_char(s, digit_char(n / 100));
        push_char(s, digit_char((n / 10) % 10));
        push_char(s, digit_char(n % 10));
        assert(final(s)@ =~= old(s)@ + three_digits(n as int));
    } else {
        push_char(s, digit_char(n / 10));
        push_char(s, digit_char(n % 10));
        assert(final(s)@ =~= old(s)@ + two_digits(n as int));
    }
}

/// Formats a timestamp in milliseconds as `HH:MM:SS.zzz`, where `zzz` is the
/// millisecond fraction and the hours wrap at a day.
pub fn parse_timestamp(timestamp_ms: u32) -> (r: String)
    ensures
        r@ == timestamp_text(timestamp_ms as int),
{
    let secs = timestamp_ms / 1000;
    let hours = (secs % 86400) / 3600;
    let minutes = (secs % 3600) / 60;
    let seconds = secs % 60;
    let milliseconds = timestamp_ms % 1000;
    let mut s = String::new();
    push_digits(&mut s, hours, 2);
    push_char(&mut s, ':');
    push_digits(&mut s, minutes, 2);
    push_char(&mut s, ':');
    push_digits(&mut s, seconds, 2);
    push_char(&mut s, '.');
    push_digits(&mut s, milliseconds, 3);
    assert(s@ =~= timestamp_text(timestamp_ms as int));
    s
}

} // verus!
