//! Decimal and clock text used on the controller screen.

use vstd::prelude::*;

verus! {

/// The decimal digit `d` (`0 <= d < 10`) as a character.
pub open spec fn digit_char(d: nat) -> char {
    seq!['0', '1', '2', '3', '4', '5', '6', '7', '8', '9'][d as int]
}

/// The decimal representation of `n`, without leading zeros.
pub open spec fn decimal(n: nat) -> Seq<char>
    decreases n,
{
    if n < 10 {
        seq![digit_char(n)]
    } else {
        decimal(n / 10).push(digit_char(n % 10))
    }
}

/// `String::push` from std: appends one character.
#[verifier::external_body]
pub(crate) fn push_char(s: &mut String, c: char)
    ensures
        final(s)@ == old(s)@.push(c),
{
    s.push(c);
}

fn digit(d: u32) -> (c: char)
    requires
        d < 10,
    ensures
        c == digit_char(d as nat),
{
    match d {
        0 => '0',
        1 => '1',
        2 => '2',
        3 => '3',
        4 => '4',
        5 => '5',
        6 => '6',
        7 => '7',
        8 => '8',
        _ => '9',
    }
}

/// Appends the decimal representation of `n` to `out`.
pub fn push_decimal(out: &mut String, n: u32)
    ensures
        final(out)@ == old(out)@ + decimal(n as nat),
    decreases n,
{
    if n >= 10 {
        push_decimal(out, n / 10);
    }
    push_char(out, digit(n % 10));
}

/// `n` in decimal, with a leading zero below ten (at least two digits).
pub open spec fn two_digits(n: nat) -> Seq<char> {
    if n < 10 {
        seq!['0', digit_char(n)]
    } else {
        decimal(n)
    }
}

/// A playback position of `milliseconds` as minutes and seconds, `MM:SS`;
/// the minutes grow past two digits where they must.
pub open spec fn clock_text(milliseconds: u32) -> Seq<char> {
    let seconds = milliseconds / 1000;
    two_digits((seconds / 60) as nat) + seq![':'] + two_digits((seconds % 60) as nat)
}

/// The value of a decimal digit character.
pub open spec fn digit_value(c: char) -> int {
    (c as int) - ('0' as int)
}

/// The number that a text of decimal digits denotes.
pub open spec fn parse_decimal(s: Seq<char>) -> int
    decreases s.len(),
{
    if s.len() == 0 {
        0
    } else {
        parse_decimal(s.drop_last()) * 10 + digit_value(s.last())
    }
}

/// The eight bar glyphs, from the lowest to the full block.
pub open spec fn bar_glyph(level: int) -> char {
    seq!['\u{2581}', '\u{2582}', '\u{2583}', '\u{2584}', '\u{2585}', '\u{2586}', '\u{2587}', '\u{2588}'][level]
}

/// The number of bars in the signal line.
pub open spec fn bar_count() -> nat {
    34
}

/// The signal line at animation `phase`: bar `i` shows level `(i + phase) % 8`.
pub open spec fn bars_text(phase: nat) -> Seq<char> {
    Seq::new(bar_count(), |i: int| bar_glyph((i + phase) % 8))
}

/// Appends `n` in decimal, with a leading zero below ten.
fn push_two_digits(out: &mut String, n: u32)
    ensures
        final(out)@ == old(out)@ + two_digits(n as nat),
{
    if n < 10 {
        push_char(out, '0');
    }
    push_decimal(out, n);
    assert(n < 10 ==> decimal(n as nat) == seq![digit_char(n as nat)]);
    assert(final(out)@ =~= old(out)@ + two_digits(n as nat));
}

/// A playback position as `MM:SS`.
pub fn format_time(milliseconds: u32) -> (text: String)
    ensures
        text@ == clock_text(milliseconds),
{
    let seconds = milliseconds / 1000;
    let mut text = String::new();
    push_two_digits(&mut text, seconds / 60);
    push_char(&mut text, ':');
    push_two_digits(&mut text, seconds % 60);
    assert(text@ =~= clock_text(milliseconds));
    text
}

fn glyph(level: usize) -> (c: char)
    requires
        level < 8,
    ensures
        c == bar_glyph(level as int),
{
    match level {
        0 => '\u{2581}',
        1 => '\u{2582}',
        2 => '\u{2583}',
        3 => '\u{2584}',
        4 => '\u{2585}',
        5 => '\u{2586}',
        6 => '\u{2587}',
        _ => '\u{2588}',
    }
}

/// The animated signal line for `phase`.
pub fn animated_bars(phase: usize) -> (bars: String)
    ensures
        bars@ == bars_text(phase as nat),
{
    let mut bars = String::new();
    let shift = phase % 8;
    let mut index: usize = 0;
    while index < 34
        invariant
            index <= 34,
            shift == phase % 8,
            bars@ =~= bars_text(phase as nat).take(index as int),
        decreases 34 - index,
    {
        assert((index + shift) % 8 == (index + phase) % 8);
        push_char(&mut bars, glyph((index + shift) % 8));
        index = index + 1;
    }
    bars
}

proof fn lemma_digit_value(d: nat)
    requires
        d < 10,
    ensures
        digit_value(digit_char(d)) == d,
{
    let ds = seq!['0', '1', '2', '3', '4', '5', '6', '7', '8', '9'];
    assert(ds[d as int] == digit_char(d));
    if d == 0 { assert(ds[0] == '0'); }
    else if d == 1 { assert(ds[1] == '1'); }
    else if d == 2 { assert(ds[2] == '2'); }
    else if d == 3 { assert(ds[3] == '3'); }
    else if d == 4 { assert(ds[4] == '4'); }
    else if d == 5 { assert(ds[5] == '5'); }
    else if d == 6 { assert(ds[6] == '6'); }
    else if d == 7 { assert(ds[7] == '7'); }
    else if d == 8 { assert(ds[8] == '8'); }
    else { assert(ds[9] == '9'); }
}

proof fn lemma_parse_decimal(n: nat)
    ensures
        parse_decimal(decimal(n)) == n,
        decimal(n).len() >= 1,
    decreases n,
{
    if n < 10 {
        lemma_digit_value(n);
        let s = seq![digit_char(n)];
        assert(decimal(n) == s);
        assert(s.drop_last() =~= Seq::<char>::empty());
        assert(parse_decimal(s.drop_last()) == 0);
        assert(s.last() == digit_char(n));
    } else {
        lemma_parse_decimal(n / 10);
        lemma_digit_value(n % 10);
        assert(decimal(n) == decimal(n / 10).push(digit_char(n % 10)));
        assert(decimal(n).drop_last() =~= decimal(n / 10));
        assert(decimal(n).last() == digit_char(n % 10));
        assert((n % 10) < 10);
        assert((n / 10) * 10 + n % 10 == n);
    }
}

proof fn lemma_parse_two_digits(n: nat)
    ensures
        parse_decimal(two_digits(n)) == n,
        two_digits(n).len() >= 2,
        n < 100 ==> two_digits(n).len() == 2,
{
    lemma_parse_decimal(n);
    if n < 10 {
        let t = seq!['0', digit_char(n)];
        assert(two_digits(n) == t);
        assert(t.drop_last() =~= seq!['0']);
        assert(seq!['0'].drop_last() =~= Seq::<char>::empty());
        assert(parse_decimal(seq!['0'].drop_last()) == 0);
        lemma_digit_value(n);
        lemma_digit_value(0);
        assert(digit_char(0) == '0');
        assert(parse_decimal(seq!['0']) == 0);
        assert(t.last() == digit_char(n));
    } else {
        assert(decimal(n) == decimal(n / 10).push(digit_char(n % 10)));
        lemma_parse_decimal(n / 10);
        if n < 100 {
            assert(n / 10 < 10);
        }
    }
}

/// The clock text reads back: the minutes before the colon times sixty,
/// plus the two-digit seconds after it, are the whole seconds elapsed, and
/// the seconds stay below sixty.
pub proof fn lemma_clock_text_reads_back(milliseconds: u32)
    ensures
        ({
            let t = clock_text(milliseconds);
            &&& t.len() >= 5
            &&& t[t.len() - 3] == ':'
            &&& parse_decimal(t.subrange(t.len() - 2, t.len() as int)) < 60
            &&& parse_decimal(t.subrange(0, t.len() - 3)) * 60 + parse_decimal(
                t.subrange(t.len() - 2, t.len() as int),
            ) == milliseconds / 1000
        }),
{
    let seconds = milliseconds / 1000;
    let m = (seconds / 60) as nat;
    let s = (seconds % 60) as nat;
    lemma_parse_two_digits(m);
    lemma_parse_two_digits(s);
    let t = clock_text(milliseconds);
    assert(t.subrange(0, t.len() - 3) =~= two_digits(m));
    assert(t.subrange(t.len() - 2, t.len() as int) =~= two_digits(s));
}

/// The signal line always has its bars; advancing the phase by one shifts
/// every bar one place to the left, and eight steps bring the line back.
pub proof fn lemma_bars_rotate(phase: nat)
    ensures
        bars_text(phase).len() == 34,
        forall|i: int| 0 <= i < 33 ==> #[trigger] bars_text(phase + 1)[i] == bars_text(phase)[i + 1],
        bars_text(phase + 8) == bars_text(phase),
{
    assert forall|i: int| 0 <= i < 34 implies #[trigger] bars_text(phase + 8)[i] == bars_text(phase)[i] by {
        assert((i + (phase + 8)) % 8 == (i + phase) % 8);
    }
    assert(bars_text(phase + 8) =~= bars_text(phase));
}

/// A decimal digit character, `0` to `9`.
pub open spec fn is_decimal_digit(c: char) -> bool {
    48 <= (c as u32) <= 57
}

proof fn lemma_decimal_is_digits(n: nat)
    ensures
        forall|i: int| 0 <= i < decimal(n).len() ==> #[trigger] is_decimal_digit(decimal(n)[i]),
    decreases n,
{
    if n < 10 {
        lemma_digit_value(n);
    } else {
        lemma_decimal_is_digits(n / 10);
        lemma_digit_value(n % 10);
        let d = decimal(n);
        assert(d == decimal(n / 10).push(digit_char(n % 10)));
        assert forall|i: int| 0 <= i < d.len() implies #[trigger] is_decimal_digit(d[i]) by {
            if i < d.len() - 1 {
                assert(d[i] == decimal(n / 10)[i]);
            }
        }
    }
}

proof fn lemma_two_digits_are_digits(n: nat)
    ensures
        forall|i: int| 0 <= i < two_digits(n).len() ==> #[trigger] is_decimal_digit(two_digits(n)[i]),
{
    lemma_decimal_is_digits(n);
    if n < 10 {
        lemma_digit_value(n);
        lemma_digit_value(0);
        assert(digit_char(0) == '0');
    }
}

/// The clock text is made of decimal digits around a single colon, three
/// places from the end: the minutes before it and exactly two digits of
/// seconds after it.
pub proof fn lemma_clock_text_is_digits(milliseconds: u32)
    ensures
        ({
            let t = clock_text(milliseconds);
            &&& t.len() >= 5
            &&& t[t.len() - 3] == ':'
            &&& forall|i: int| 0 <= i < t.len() && i != t.len() - 3 ==> #[trigger] is_decimal_digit(t[i])
        }),
{
    let seconds = milliseconds / 1000;
    let m = (seconds / 60) as nat;
    let s = (seconds % 60) as nat;
    lemma_two_digits_are_digits(m);
    lemma_two_digits_are_digits(s);
    lemma_parse_two_digits(m);
    lemma_parse_two_digits(s);
    let t = clock_text(milliseconds);
    let a = two_digits(m);
    let b = two_digits(s);
    assert(t == a + seq![':'] + b);
    assert forall|i: int| 0 <= i < t.len() && i != t.len() - 3 implies #[trigger] is_decimal_digit(t[i]) by {
        if i < a.len() {
            assert(t[i] == a[i]);
        } else {
            assert(t[i] == b[i - a.len() - 1]);
        }
    }
}

proof fn lemma_decimal_leading(n: nat)
    ensures
        decimal(n).len() >= 1,
        decimal(n)[0] == '0' <==> n == 0,
    decreases n,
{
    lemma_digit_value(n % 10);
    if n < 10 {
        lemma_digit_value(n);
    } else {
        lemma_decimal_leading(n / 10);
        assert(decimal(n) == decimal(n / 10).push(digit_char(n % 10)));
        assert(decimal(n)[0] == decimal(n / 10)[0]);
    }
}

/// The decimal text of `n` is made of digits, reads back as `n`, and starts
/// with `0` only for zero itself.
pub proof fn lemma_decimal_text(n: nat)
    ensures
        decimal(n).len() >= 1,
        parse_decimal(decimal(n)) == n,
        forall|i: int| 0 <= i < decimal(n).len() ==> #[trigger] is_decimal_digit(decimal(n)[i]),
        decimal(n)[0] == '0' <==> n == 0,
{
    lemma_parse_decimal(n);
    lemma_decimal_is_digits(n);
    lemma_decimal_leading(n);
}

/// The minutes before the colon have exactly two digits below ten minutes
/// (a leading zero) and no leading zero from ten minutes on.
pub proof fn lemma_clock_minutes_padding(milliseconds: u32)
    ensures
        ({
            let t = clock_text(milliseconds);
            let minutes = milliseconds / 1000 / 60;
            &&& minutes < 10 ==> t.len() == 5 && t[0] == '0'
            &&& minutes >= 10 ==> t[0] != '0'
        }),
{
    let seconds = milliseconds / 1000;
    let m = (seconds / 60) as nat;
    let s = (seconds % 60) as nat;
    lemma_parse_two_digits(s);
    lemma_decimal_leading(m);
    let t = clock_text(milliseconds);
    assert(t == two_digits(m) + seq![':'] + two_digits(s));
    assert(t[0] == two_digits(m)[0]);
}

/// The signal bars are the eight block glyphs from U+2581 (lowest) to
/// U+2588 (full): bar `i` at phase `p` is the glyph `(i + p) % 8` levels up.
pub proof fn lemma_bars_glyphs(phase: nat)
    ensures
        forall|i: int|
            0 <= i < 34 ==> (#[trigger] bars_text(phase)[i] as u32) == 0x2581 + (i + phase) % 8,
{
    assert forall|i: int| 0 <= i < 34 implies (#[trigger] bars_text(phase)[i] as u32) == 0x2581 + (i
        + phase) % 8 by {
        let k = (i + phase) % 8;
        let g = seq!['\u{2581}', '\u{2582}', '\u{2583}', '\u{2584}', '\u{2585}', '\u{2586}', '\u{2587}', '\u{2588}'];
        assert(bars_text(phase)[i] == g[k]);
        if k == 0 { assert(g[0] == '\u{2581}'); }
        else if k == 1 { assert(g[1] == '\u{2582}'); }
        else if k == 2 { assert(g[2] == '\u{2583}'); }
        else if k == 3 { assert(g[3] == '\u{2584}'); }
        else if k == 4 { assert(g[4] == '\u{2585}'); }
        else if k == 5 { assert(g[5] == '\u{2586}'); }
        else if k == 6 { assert(g[6] == '\u{2587}'); }
        else { assert(g[7] == '\u{2588}'); }
    }
}

} // verus!
