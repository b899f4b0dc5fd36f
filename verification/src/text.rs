//! Textual rendering of game values for display.

use vstd::prelude::*;
use vstd::string::StringExecFns;
use crate::modes::GameTime;
use crate::pieces::Tetromino;

verus! {

/// The decimal digit character of `d` (below ten).
pub open spec fn digit_char(d: int) -> char {
    ((d + 48) as u8) as char
}

/// The decimal representation of `n`, without leading zeros.
pub open spec fn decimal(n: nat) -> Seq<char>
    decreases n,
{
    if n < 10 {
        seq![digit_char(n as int)]
    } else {
        decimal(n / 10) + seq![digit_char((n % 10) as int)]
    }
}

/// The two-digit representation of `n` (below one hundred), with a leading zero if needed.
pub open spec fn two_digits(n: nat) -> Seq<char> {
    seq![digit_char((n / 10) as int), digit_char((n % 10) as int)]
}

/// A duration as minutes, seconds and hundredths: `"{m}min {s}.{cc}sec"`, the hundredths
/// always with two digits.
pub open spec fn duration_text(dur: GameTime) -> Seq<char> {
    let secs = dur / 1_000_000_000;
    let hundredths = (dur / 1_000_000) % 1000 / 10;
    decimal((secs / 60) as nat) + "min "@ + decimal((secs % 60) as nat) + "."@
        + two_digits(hundredths as nat) + "sec"@
}

/// The text of a single decimal digit.
fn digit_str(d: u64) -> (r: &'static str)
    requires
        d < 10,
    ensures
        r@ == seq![digit_char(d as int)],
{
    proof {
        reveal_strlit("0");
        reveal_strlit("1");
        reveal_strlit("2");
        reveal_strlit("3");
        reveal_strlit("4");
        reveal_strlit("5");
        reveal_strlit("6");
        reveal_strlit("7");
        reveal_strlit("8");
        reveal_strlit("9");
    }
    let r = match d {
        0 => "0",
        1 => "1",
        2 => "2",
        3 => "3",
        4 => "4",
        5 => "5",
        6 => "6",
        7 => "7",
        8 => "8",
        _ => "9",
    };
    assert(r@ =~= seq![digit_char(d as int)]);
    r
}

/// Appends the decimal representation of `n`.
pub fn push_decimal(s: &mut String, n: u64)
    ensures
        final(s)@ == old(s)@ + decimal(n as nat),
    decreases n,
{
    if n >= 10 {
        push_decimal(s, n / 10);
    }
    s.append(digit_str(n % 10));
    proof {
        if n >= 10 {
            assert(old(s)@ + decimal((n / 10) as nat) + seq![digit_char((n % 10) as int)]
                =~= old(s)@ + decimal(n as nat));
        } else {
            assert(n % 10 == n);
        }
    }
}

/// Formats a duration as minutes, seconds and hundredths of a second, e.g. `"2min 5.07sec"`.
pub fn format_duration(dur: GameTime) -> (r: String)
    ensures
        r@ == duration_text(dur),
{
    let secs = dur / 1_000_000_000;
    let hundredths = (dur / 1_000_000) % 1000 / 10;
    let mut s = String::new();
    push_decimal(&mut s, secs / 60);
    s.append("min ");
    push_decimal(&mut s, secs % 60);
    s.append(".");
    s.append(digit_str(hundredths / 10));
    s.append(digit_str(hundredths % 10));
    s.append("sec");
    proof {
        assert(s@ =~= duration_text(dur));
    }
    s
}

/// The name of a clear of `n` lines at once, from "Single" to "Vigintuple" (20), and
/// "Kirbtris" for 21; any other count reads "unreachable".
pub open spec fn clear_name(n: u32) -> &'static str {
    if n == 1 { "Single" }
    else if n == 2 { "Double" }
    else if n == 3 { "Triple" }
    else if n == 4 { "Quadruple" }
    else if n == 5 { "Quintuple" }
    else if n == 6 { "Sextuple" }
    else if n == 7 { "Septuple" }
    else if n == 8 { "Octuple" }
    else if n == 9 { "Nonuple" }
    else if n == 10 { "Decuple" }
    else if n == 11 { "Undecuple" }
    else if n == 12 { "Duodecuple" }
    else if n == 13 { "Tredecuple" }
    else if n == 14 { "Quattuordecuple" }
    else if n == 15 { "Quindecuple" }
    else if n == 16 { "Sexdecuple" }
    else if n == 17 { "Septendecuple" }
    else if n == 18 { "Octodecuple" }
    else if n == 19 { "Novemdecuple" }
    else if n == 20 { "Vigintuple" }
    else if n == 21 { "Kirbtris" }
    else { "unreachable" }
}

/// The name of a clear of `n` lines at once, as [`clear_name`] gives it.
pub fn clear_name_of(n: u32) -> (r: &'static str)
    ensures
        r == clear_name(n),
{
    match n {
        1 => "Single",
        2 => "Double",
        3 => "Triple",
        4 => "Quadruple",
        5 => "Quintuple",
        6 => "Sextuple",
        7 => "Septuple",
        8 => "Octuple",
        9 => "Nonuple",
        10 => "Decuple",
        11 => "Undecuple",
        12 => "Duodecuple",
        13 => "Tredecuple",
        14 => "Quattuordecuple",
        15 => "Quindecuple",
        16 => "Sexdecuple",
        17 => "Septendecuple",
        18 => "Octodecuple",
        19 => "Novemdecuple",
        20 => "Vigintuple",
        21 => "Kirbtris",
        _ => "unreachable",
    }
}

/// The letter that names a tetromino.
pub open spec fn shape_name(t: Tetromino) -> &'static str {
    match t {
        Tetromino::O => "O",
        Tetromino::I => "I",
        Tetromino::S => "S",
        Tetromino::Z => "Z",
        Tetromino::T => "T",
        Tetromino::L => "L",
        Tetromino::J => "J",
    }
}

fn shape_name_of(t: Tetromino) -> (r: &'static str)
    ensures
        r == shape_name(t),
{
    match t {
        Tetromino::O => "O",
        Tetromino::I => "I",
        Tetromino::S => "S",
        Tetromino::Z => "Z",
        Tetromino::T => "T",
        Tetromino::L => "L",
        Tetromino::J => "J",
    }
}

/// The message of an accolade: `"+{bonus}"`, then `" Perfect"` for a perfect clear,
/// `" {shape}-Spin"` for a spin, the name of the clear, `" ({combo}.combo)"` for a combo above
/// one and `" ({b2b}.B2B)"` for a back-to-back count above one.
pub open spec fn accolade_text_spec(
    score_bonus: u32,
    shape: Tetromino,
    spin: bool,
    lineclears: u32,
    perfect_clear: bool,
    combo: u32,
    back_to_back: u32,
) -> Seq<char> {
    "+"@ + decimal(score_bonus as nat)
        + (if perfect_clear { " Perfect"@ } else { Seq::empty() })
        + (if spin { " "@ + shape_name(shape)@ + "-Spin"@ } else { Seq::empty() })
        + " "@ + clear_name(lineclears)@
        + (if combo > 1 { " ("@ + decimal(combo as nat) + ".combo)"@ } else { Seq::empty() })
        + (if back_to_back > 1 { " ("@ + decimal(back_to_back as nat) + ".B2B)"@ } else { Seq::empty() })
}

/// The message shown for an accolade, as [`accolade_text_spec`] describes it, e.g.
/// `"+800 T-Spin Double (2.combo)"`.
pub fn accolade_text(
    score_bonus: u32,
    shape: Tetromino,
    spin: bool,
    lineclears: u32,
    perfect_clear: bool,
    combo: u32,
    back_to_back: u32,
) -> (r: String)
    ensures
        r@ == accolade_text_spec(score_bonus, shape, spin, lineclears, perfect_clear, combo, back_to_back),
{
    let mut s = String::new();
    s.append("+");
    push_decimal(&mut s, score_bonus as u64);
    let ghost s1 = s@;
    if perfect_clear {
        s.append(" Perfect");
    }
    let ghost s2 = s@;
    assert(s2 =~= s1 + (if perfect_clear { " Perfect"@ } else { Seq::empty() }));
    if spin {
        s.append(" ");
        s.append(shape_name_of(shape));
        s.append("-Spin");
    }
    let ghost s3 = s@;
    assert(s3 =~= s2 + (if spin { " "@ + shape_name(shape)@ + "-Spin"@ } else { Seq::empty() }));
    s.append(" ");
    s.append(clear_name_of(lineclears));
    let ghost s4 = s@;
    if combo > 1 {
        s.append(" (");
        push_decimal(&mut s, combo as u64);
        s.append(".combo)");
    }
    let ghost s5 = s@;
    assert(s5 =~= s4 + (if combo > 1 { " ("@ + decimal(combo as nat) + ".combo)"@ } else { Seq::empty() }));
    if back_to_back > 1 {
        s.append(" (");
        push_decimal(&mut s, back_to_back as u64);
        s.append(".B2B)");
    }
    assert(s@ =~= s5 + (if back_to_back > 1 { " ("@ + decimal(back_to_back as nat) + ".B2B)"@ } else { Seq::empty() }));
    assert(s@ =~= accolade_text_spec(score_bonus, shape, spin, lineclears, perfect_clear, combo, back_to_back));
    s
}

/// A character mapped to its ASCII upper case: `'a'..='z'` become `'A'..='Z'`, every other
/// character is kept.
pub open spec fn ascii_upper(c: char) -> char {
    if 'a' <= c && c <= 'z' { ((c as u32) - 32) as char } else { c }
}

/// A copy of the text with every character mapped to its ASCII upper case, by std's
/// `str::to_ascii_uppercase` (documented to map `'a'..='z'` to `'A'..='Z'` and to leave every
/// other character unchanged).
#[verifier::external_body]
pub(crate) fn ascii_uppercase(s: &str) -> (r: String)
    ensures
        r@ == s@.map_values(|c: char| ascii_upper(c)),
{
    s.to_ascii_uppercase()
}

} // verus!
