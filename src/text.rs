//! Writing numbers and timecodes as text.
use vstd::prelude::*;

verus! {

use vstd::string::StringExecFns;

pub open spec fn digit_char(d: nat) -> char {
    if d == 0 {
        '0'
    } else if d == 1 {
        '1'
    } else if d == 2 {
        '2'
    } else if d == 3 {
        '3'
    } else if d == 4 {
        '4'
    } else if d == 5 {
        '5'
    } else if d == 6 {
        '6'
    } else if d == 7 {
        '7'
    } else if d == 8 {
        '8'
    } else {
        '9'
    }
}

/// The decimal digits of `n`, without leading zeros.
pub open spec fn dec_digits(n: nat) -> Seq<char>
    decreases n,
{
    if n < 10 {
        seq![digit_char(n)]
    } else {
        dec_digits(n / 10).push(digit_char(n % 10))
    }
}

/// The decimal digits of `n`, at least two of them.
pub open spec fn padded2(n: nat) -> Seq<char> {
    if n < 10 {
        seq!['0', digit_char(n)]
    } else {
        dec_digits(n)
    }
}

/// `HH:MM:SS<sep>FF`, each field at least two digits.
pub open spec fn timecode_text(h: nat, m: nat, s: nat, sep: char, f: nat) -> Seq<char> {
    padded2(h) + seq![':'] + padded2(m) + seq![':'] + padded2(s) + seq![sep] + padded2(f)
}

fn digit_str(d: u32) -> (r: &'static str)
    requires
        d < 10,
    ensures
        r@ == seq![digit_char(d as nat)],
{
    proof {
        reveal_strlit("0");
        reveal_strlit("1");
        reveal_strlit("2");
        reveal_strlit("3");
        reveal_strlit("4");
        reveal_strlit("5");
        reveal_strlit("6");
        reveal_strlit("7");
        reveal_strlit("8");
        reveal_strlit("9");
    }
    let r = match d {
        0 => "0",
        1 => "1",
        2 => "2",
        3 => "3",
        4 => "4",
        5 => "5",
        6 => "6",
        7 => "7",
        8 => "8",
        _ => "9",
    };
    assert(r@ =~= seq![digit_char(d as nat)]);
    r
}

/// Appends the decimal digits of `n` to `out`.
pub fn push_decimal(out: &mut String, n: u32)
    ensures
        final(out)@ == old(out)@ + dec_digits(n as nat),
    decreases n,
{
    if n >= 10 {
        push_decimal(out, n / 10);
    }
    out.append(digit_str(n % 10));
    proof {
        if n >= 10 {
            assert(old(out)@ + dec_digits(n as nat) =~= old(out)@ + dec_digits((n / 10) as nat)
                + seq![digit_char((n % 10) as nat)]);
        } else {
            assert(n % 10 == n);
        }
    }
}

/// Appends the decimal digits of `n` to `out`, with a leading zero below ten.
pub fn push_padded2(out: &mut String, n: u32)
    ensures
        final(out)@ == old(out)@ + padded2(n as nat),
{
    if n < 10 {
        proof {
            reveal_strlit("0");
        }
        out.append("0");
        out.append(digit_str(n));
        assert(final(out)@ =~= old(out)@ + padded2(n as nat));
    } else {
        push_decimal(out, n);
    }
}

/// Writes a timecode as `HH:MM:SS<sep>FF`; `sep` is `:` or `;`.
pub fn format_timecode(h: u8, m: u8, s: u8, sep: char, f: u32) -> (r: String)
    requires
        sep == ':' || sep == ';',
    ensures
        r@ == timecode_text(h as nat, m as nat, s as nat, sep, f as nat),
{
    proof {
        reveal_strlit(":");
        reveal_strlit(";");
    }
    let mut out = String::new();
    push_padded2(&mut out, h as u32);
    out.append(":");
    push_padded2(&mut out, m as u32);
    out.append(":");
    push_padded2(&mut out, s as u32);
    if sep == ';' {
        out.append(";");
    } else {
        out.append(":");
    }
    push_padded2(&mut out, f);
    assert(out@ =~= timecode_text(h as nat, m as nat, s as nat, sep, f as nat));
    out
}

} // verus!
