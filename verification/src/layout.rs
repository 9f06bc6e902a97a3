//! Formatting of civil date/time fields through layout strings.
//!
//! The layout grammar is the fixed token set this library shares with its
//! parser: `%Y` `%m` `%d` `%H` `%M` `%S` for zero-padded calendar fields,
//! `%.3f` for an exact three-digit millisecond fraction, `%.f` for a
//! minimal millisecond fraction (nothing at all for a whole second), and
//! `%%` for a literal percent sign.  Any other character — including a
//! `%` starting no supported token — is copied verbatim, so formatting is
//! total and never panics.

use vstd::prelude::*;

use crate::calendar::CivilDateTime;

verus! {

/// The decimal digit character for `d` in 0..=9 (and `'0'` outside).
pub open spec fn digit_char(d: int) -> char {
    if d == 1 {
        '1'
    } else if d == 2 {
        '2'
    } else if d == 3 {
        '3'
    } else if d == 4 {
        '4'
    } else if d == 5 {
        '5'
    } else if d == 6 {
        '6'
    } else if d == 7 {
        '7'
    } else if d == 8 {
        '8'
    } else if d == 9 {
        '9'
    } else {
        '0'
    }
}

/// Decimal digits of `n >= 0`, zero-padded on the left to at least `w`
/// characters.
pub open spec fn num_str(n: int, w: int) -> Seq<char>
    decreases (if n >= 0 { n } else { 0 }), (if w >= 2 { w } else { 0 }),
{
    if n < 0 {
        Seq::empty()
    } else if n <= 9 && w <= 1 {
        seq![digit_char(n)]
    } else {
        num_str(n / 10, if w <= 1 { 0 } else { w - 1 }) + seq![digit_char(n % 10)]
    }
}

/// The year as `%Y` prints it: zero-padded to at least four digits, with a
/// leading minus sign for years before year 0.
pub open spec fn year_str(y: int) -> Seq<char> {
    if y >= 0 {
        num_str(y, 4)
    } else {
        seq!['-'] + num_str(-y, 4)
    }
}

/// The millisecond fraction as `%.f` prints it: nothing for a whole
/// second, otherwise a dot and the millisecond digits with trailing zeros
/// dropped.
pub open spec fn frac_str(ms: int) -> Seq<char> {
    if ms <= 0 {
        Seq::empty()
    } else if ms % 100 == 0 {
        seq!['.', digit_char(ms / 100)]
    } else if ms % 10 == 0 {
        seq!['.', digit_char(ms / 100), digit_char((ms / 10) % 10)]
    } else {
        seq!['.'] + num_str(ms, 3)
    }
}

/// What formatting the suffix of `l` starting at `i` produces for the
/// fields `c`.
pub open spec fn fmt_from(c: CivilDateTime, l: Seq<char>, i: int) -> Seq<char>
    decreases l.len() - i,
{
    if i < 0 || i >= l.len() {
        Seq::empty()
    } else if l[i] == '%' && i + 1 < l.len() {
        let sp = l[i + 1];
        if sp == 'Y' {
            year_str(c.year as int) + fmt_from(c, l, i + 2)
        } else if sp == 'm' {
            num_str(c.month as int, 2) + fmt_from(c, l, i + 2)
        } else if sp == 'd' {
            num_str(c.day as int, 2) + fmt_from(c, l, i + 2)
        } else if sp == 'H' {
            num_str(c.hour as int, 2) + fmt_from(c, l, i + 2)
        } else if sp == 'M' {
            num_str(c.minute as int, 2) + fmt_from(c, l, i + 2)
        } else if sp == 'S' {
            num_str(c.second as int, 2) + fmt_from(c, l, i + 2)
        } else if sp == '%' {
            seq!['%'] + fmt_from(c, l, i + 2)
        } else if sp == '.' && i + 2 < l.len() && l[i + 2] == 'f' {
            frac_str(c.millisecond as int) + fmt_from(c, l, i + 3)
        } else if sp == '.' && i + 3 < l.len() && l[i + 2] == '3' && l[i + 3] == 'f' {
            seq!['.'] + num_str(c.millisecond as int, 3) + fmt_from(c, l, i + 4)
        } else {
            seq![l[i]] + fmt_from(c, l, i + 1)
        }
    } else {
        seq![l[i]] + fmt_from(c, l, i + 1)
    }
}

/// What formatting the whole layout `l` produces for the fields `c`.
pub open spec fn fmt_layout(c: CivilDateTime, l: Seq<char>) -> Seq<char> {
    fmt_from(c, l, 0)
}

/// Appends one character to a string.
///
/// Relies on `String::push` of std: it appends exactly the given character.
#[verifier::external_body]
fn push_char(out: &mut String, ch: char)
    ensures
        final(out)@ == old(out)@.push(ch),
{
    out.push(ch);
}

/// The decimal digit character for a small number.
fn digit_of(n: u32) -> (r: char)
    requires
        n <= 9,
    ensures
        r == digit_char(n as int),
{
    if n == 1 {
        '1'
    } else if n == 2 {
        '2'
    } else if n == 3 {
        '3'
    } else if n == 4 {
        '4'
    } else if n == 5 {
        '5'
    } else if n == 6 {
        '6'
    } else if n == 7 {
        '7'
    } else if n == 8 {
        '8'
    } else if n == 9 {
        '9'
    } else {
        '0'
    }
}

/// Appends the decimal digits of `n`, zero-padded to at least `w`
/// characters.
fn push_num(out: &mut String, n: u32, w: u32)
    ensures
        final(out)@ == old(out)@ + num_str(n as int, w as int),
    decreases n, w,
{
    if n <= 9 && w <= 1 {
        push_char(out, digit_of(n));
        proof {
            assert(final(out)@ =~= old(out)@ + num_str(n as int, w as int));
        }
    } else {
        let w2: u32 = if w <= 1 {
            0
        } else {
            w - 1
        };
        push_num(out, n / 10, w2);
        push_char(out, digit_of(n % 10));
        proof {
            assert(num_str(n as int, w as int) == num_str(n as int / 10, w2 as int) + seq![
                digit_char(n as int % 10),
            ]);
            assert(final(out)@ =~= old(out)@ + num_str(n as int, w as int));
        }
    }
}

/// Appends the year as `%Y` prints it.
fn push_year(out: &mut String, y: i32)
    ensures
        final(out)@ == old(out)@ + year_str(y as int),
{
    if y >= 0 {
        push_num(out, y as u32, 4);
    } else {
        push_char(out, '-');
        let mag: u32 = (-(y as i64)) as u32;
        push_num(out, mag, 4);
        proof {
            assert(final(out)@ =~= old(out)@ + year_str(y as int));
        }
    }
}

/// Appends the millisecond fraction as `%.f` prints it.
fn push_frac(out: &mut String, ms: u32)
    requires
        ms <= 999,
    ensures
        final(out)@ == old(out)@ + frac_str(ms as int),
{
    if ms == 0 {
        return ;
    }
    push_char(out, '.');
    if ms % 100 == 0 {
        push_char(out, digit_of(ms / 100));
        proof {
            assert(final(out)@ =~= old(out)@ + frac_str(ms as int));
        }
    } else if ms % 10 == 0 {
        push_char(out, digit_of(ms / 100));
        push_char(out, digit_of((ms / 10) % 10));
        proof {
            assert(final(out)@ =~= old(out)@ + frac_str(ms as int));
        }
    } else {
        push_num(out, ms, 3);
        proof {
            assert(final(out)@ =~= old(out)@ + frac_str(ms as int));
        }
    }
}

/// The fields under the layout `%Y-%m-%d`.
pub open spec fn date_str(c: CivilDateTime) -> Seq<char> {
    year_str(c.year as int) + seq!['-'] + num_str(c.month as int, 2) + seq!['-'] + num_str(
        c.day as int,
        2,
    )
}

/// The fields under the layout `%H:%M:%S`.
pub open spec fn time_str(c: CivilDateTime) -> Seq<char> {
    num_str(c.hour as int, 2) + seq![':'] + num_str(c.minute as int, 2) + seq![':'] + num_str(
        c.second as int,
        2,
    )
}

/// The fields under the layout `%Y%m%d`.
pub open spec fn compact_date_str(c: CivilDateTime) -> Seq<char> {
    year_str(c.year as int) + num_str(c.month as int, 2) + num_str(c.day as int, 2)
}

/// The fields under the canonical layout `%Y-%m-%d %H:%M:%S%.3f`.
pub open spec fn default_str(c: CivilDateTime) -> Seq<char> {
    date_str(c) + seq![' '] + time_str(c) + seq!['.'] + num_str(c.millisecond as int, 3)
}

/// Builds `date_str(c)`.
pub fn date_string(c: &CivilDateTime) -> (r: String)
    ensures
        r@ == date_str(*c),
{
    let mut out = String::new();
    push_year(&mut out, c.year);
    push_char(&mut out, '-');
    push_num(&mut out, c.month, 2);
    push_char(&mut out, '-');
    push_num(&mut out, c.day, 2);
    proof {
        assert(out@ =~= date_str(*c));
    }
    out
}

/// Builds `time_str(c)`.
pub fn time_string(c: &CivilDateTime) -> (r: String)
    ensures
        r@ == time_str(*c),
{
    let mut out = String::new();
    push_num(&mut out, c.hour, 2);
    push_char(&mut out, ':');
    push_num(&mut out, c.minute, 2);
    push_char(&mut out, ':');
    push_num(&mut out, c.second, 2);
    proof {
        assert(out@ =~= time_str(*c));
    }
    out
}

/// Builds `compact_date_str(c)`.
pub fn compact_date_string(c: &CivilDateTime) -> (r: String)
    ensures
        r@ == compact_date_str(*c),
{
    let mut out = String::new();
    push_year(&mut out, c.year);
    push_num(&mut out, c.month, 2);
    push_num(&mut out, c.day, 2);
    proof {
        assert(out@ =~= compact_date_str(*c));
    }
    out
}

/// Builds `default_str(c)`.
pub fn default_string(c: &CivilDateTime) -> (r: String)
    ensures
        r@ == default_str(*c),
{
    let mut out = String::new();
    push_year(&mut out, c.year);
    push_char(&mut out, '-');
    push_num(&mut out, c.month, 2);
    push_char(&mut out, '-');
    push_num(&mut out, c.day, 2);
    push_char(&mut out, ' ');
    push_num(&mut out, c.hour, 2);
    push_char(&mut out, ':');
    push_num(&mut out, c.minute, 2);
    push_char(&mut out, ':');
    push_num(&mut out, c.second, 2);
    push_char(&mut out, '.');
    push_num(&mut out, c.millisecond, 3);
    proof {
        assert(out@ =~= default_str(*c));
    }
    out
}

/// Formats the civil fields `c` through the layout string.
pub fn format_civil(c: &CivilDateTime, layout: &str) -> (r: String)
    requires
        c.millisecond <= 999,
    ensures
        r@ == fmt_layout(*c, layout@),
{
    let n: usize = layout.unicode_len();
    let mut out = String::new();
    let mut i: usize = 0;
    while i < n
        invariant
            i <= n,
            n == layout@.len(),
            c.millisecond <= 999,
            out@ + fmt_from(*c, layout@, i as int) =~= fmt_layout(*c, layout@),
        decreases n - i,
    {
        let ghost prev = out@;
        let ghost gi = i as int;
        let ch = layout.get_char(i);
        if ch == '%' && i + 1 < n {
            let sp = layout.get_char(i + 1);
            if sp == 'Y' {
                push_year(&mut out, c.year);
                i += 2;
            } else if sp == 'm' {
                push_num(&mut out, c.month, 2);
                i += 2;
            } else if sp == 'd' {
                push_num(&mut out, c.day, 2);
                i += 2;
            } else if sp == 'H' {
                push_num(&mut out, c.hour, 2);
                i += 2;
            } else if sp == 'M' {
                push_num(&mut out, c.minute, 2);
                i += 2;
            } else if sp == 'S' {
                push_num(&mut out, c.second, 2);
                i += 2;
            } else if sp == '%' {
                push_char(&mut out, '%');
                i += 2;
            } else if sp == '.' && n - i > 2 && layout.get_char(i + 2) == 'f' {
                push_frac(&mut out, c.millisecond);
                i += 3;
            } else if sp == '.' && n - i > 3 && layout.get_char(i + 2) == '3' && layout.get_char(
                i + 3,
            ) == 'f' {
                push_char(&mut out, '.');
                push_num(&mut out, c.millisecond, 3);
                i += 4;
            } else {
                push_char(&mut out, ch);
                i += 1;
            }
        } else {
            push_char(&mut out, ch);
            i += 1;
        }
        proof {
            assert(out@ + fmt_from(*c, layout@, i as int) =~= prev + fmt_from(*c, layout@, gi));
        }
    }
    out
}

} // verus!
