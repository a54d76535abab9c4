//! Texts shown on the screen: decimal numbers and memory sizes.

use vstd::prelude::*;
use vstd::string::*;

verus! {

/// Bytes in a kibibyte.
pub const KIB: u64 = 1024;

/// Bytes in a mebibyte.
pub const MIB: u64 = 1048576;

/// Bytes in a gibibyte.
pub const GIB: u64 = 1073741824;

/// Bytes in a tebibyte.
pub const TIB: u64 = 1099511627776;

/// The character of a decimal digit.
pub open spec fn digit_char(d: nat) -> char {
    if d == 0 {
        '0'
    } else if d == 1 {
        '1'
    } else if d == 2 {
        '2'
    } else if d == 3 {
        '3'
    } else if d == 4 {
        '4'
    } else if d == 5 {
        '5'
    } else if d == 6 {
        '6'
    } else if d == 7 {
        '7'
    } else if d == 8 {
        '8'
    } else {
        '9'
    }
}

/// The decimal notation of `n`, without leading zeros.
pub open spec fn decimal(n: nat) -> Seq<char>
    decreases n,
{
    if n < 10 {
        seq![digit_char(n)]
    } else {
        decimal(n / 10).push(digit_char(n % 10))
    }
}

/// `num * 10 / den` rounded to the nearest integer, ties to the even one:
/// the number of tenths that a value of `num / den` shows with one
/// decimal place.
pub open spec fn tenths_rounded(num: nat, den: nat) -> nat
    recommends
        den > 0,
{
    let q = (num * 10) / den;
    let r = (num * 10) % den;
    if 2 * r > den || (2 * r == den && q % 2 == 1) {
        q + 1
    } else {
        q
    }
}

/// A count of tenths written with one decimal place, such as `10.3`.
pub open spec fn with_one_decimal(tenths: nat) -> Seq<char> {
    decimal(tenths / 10).push('.') + decimal(tenths % 10)
}

/// The human-readable size of `bytes`: plain bytes below 10240, then whole
/// kibibytes (`K`) below 10 MiB, whole mebibytes (`M`) below 10 GiB,
/// gibibytes with one decimal (`G`) below 10 TiB, and whole tebibytes (`T`).
pub open spec fn human_readable(bytes: nat) -> Seq<char> {
    if bytes < 10240 {
        decimal(bytes)
    } else if bytes < 10 * MIB {
        decimal(bytes / (KIB as nat)).push('K')
    } else if bytes < 10 * GIB {
        decimal(bytes / (MIB as nat)).push('M')
    } else if bytes < 10 * TIB {
        with_one_decimal(tenths_rounded(bytes, GIB as nat)).push('G')
    } else {
        decimal(bytes / (TIB as nat)).push('T')
    }
}

/// The text of one decimal digit.
fn digit_text(d: u64) -> (s: &'static str)
    requires
        d < 10,
    ensures
        s@ == seq![digit_char(d as nat)],
{
    let s = if d == 0 {
        proof { reveal_strlit("0"); }
        "0"
    } else if d == 1 {
        proof { reveal_strlit("1"); }
        "1"
    } else if d == 2 {
        proof { reveal_strlit("2"); }
        "2"
    } else if d == 3 {
        proof { reveal_strlit("3"); }
        "3"
    } else if d == 4 {
        proof { reveal_strlit("4"); }
        "4"
    } else if d == 5 {
        proof { reveal_strlit("5"); }
        "5"
    } else if d == 6 {
        proof { reveal_strlit("6"); }
        "6"
    } else if d == 7 {
        proof { reveal_strlit("7"); }
        "7"
    } else if d == 8 {
        proof { reveal_strlit("8"); }
        "8"
    } else {
        proof { reveal_strlit("9"); }
        "9"
    };
    assert(s@ =~= seq![digit_char(d as nat)]);
    s
}

/// Appends the decimal notation of `n` to `out`.
pub fn push_decimal(out: &mut String, n: u64)
    ensures
        final(out)@ == old(out)@ + decimal(n as nat),
    decreases n,
{
    if n >= 10 {
        push_decimal(out, n / 10);
    }
    let d = digit_text(n % 10);
    out.append(d);
    assert(final(out)@ =~= old(out)@ + decimal(n as nat));
}

/// The decimal notation of `n`.
pub fn decimal_string(n: u64) -> (s: String)
    ensures
        s@ == decimal(n as nat),
{
    let mut s = String::new();
    push_decimal(&mut s, n);
    assert(s@ =~= decimal(n as nat));
    s
}

/// Appends a one-letter unit to `out`.
fn push_unit(out: &mut String, unit: char)
    requires
        unit == 'K' || unit == 'M' || unit == 'G' || unit == 'T' || unit == '.' || unit == '/',
    ensures
        final(out)@ == old(out)@.push(unit),
{
    let s = if unit == 'K' {
        proof { reveal_strlit("K"); }
        "K"
    } else if unit == 'M' {
        proof { reveal_strlit("M"); }
        "M"
    } else if unit == 'G' {
        proof { reveal_strlit("G"); }
        "G"
    } else if unit == 'T' {
        proof { reveal_strlit("T"); }
        "T"
    } else if unit == '.' {
        proof { reveal_strlit("."); }
        "."
    } else {
        proof { reveal_strlit("/"); }
        "/"
    };
    out.append(s);
    assert(final(out)@ =~= old(out)@.push(unit));
}

/// The tenths of `bytes / GIB`, rounded as one decimal place shows them.
fn gib_tenths(bytes: u64) -> (t: u64)
    requires
        bytes < 10 * TIB,
    ensures
        t as nat == tenths_rounded(bytes as nat, GIB as nat),
{
    let scaled = bytes * 10;
    let q = scaled / GIB;
    let r = scaled % GIB;
    if 2 * r > GIB || (2 * r == GIB && q % 2 == 1) {
        q + 1
    } else {
        q
    }
}

/// The human-readable size of `bytes`, as the memory column, the disk
/// column and the memory axis show it.
pub fn mem_human_readable(bytes: u64) -> (s: String)
    ensures
        s@ == human_readable(bytes as nat),
{
    let mut s = String::new();
    if bytes < 10240 {
        push_decimal(&mut s, bytes);
    } else if bytes < 10 * MIB {
        push_decimal(&mut s, bytes / KIB);
        push_unit(&mut s, 'K');
    } else if bytes < 10 * GIB {
        push_decimal(&mut s, bytes / MIB);
        push_unit(&mut s, 'M');
    } else if bytes < 10 * TIB {
        let t = gib_tenths(bytes);
        push_decimal(&mut s, t / 10);
        push_unit(&mut s, '.');
        push_decimal(&mut s, t % 10);
        push_unit(&mut s, 'G');
    } else {
        push_decimal(&mut s, bytes / TIB);
        push_unit(&mut s, 'T');
    }
    assert(s@ =~= human_readable(bytes as nat));
    s
}

} // verus!
