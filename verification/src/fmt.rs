//! Canonical text form of fixed-point coordinates.
//!
//! A coordinate is held as a signed count of thousandths. Its text form is
//! the integer part, a decimal point, and one to three fractional digits:
//! trailing fractional zeros are stripped, but at least one fractional digit
//! always remains, so the text never ends in a bare decimal point.

use vstd::prelude::*;

verus! {

/// The character for one decimal digit.
pub open spec fn digit_char(d: int) -> char {
    if d == 0 {
        '0'
    } else if d == 1 {
        '1'
    } else if d == 2 {
        '2'
    } else if d == 3 {
        '3'
    } else if d == 4 {
        '4'
    } else if d == 5 {
        '5'
    } else if d == 6 {
        '6'
    } else if d == 7 {
        '7'
    } else if d == 8 {
        '8'
    } else {
        '9'
    }
}

/// Decimal digits of a nonnegative integer, most significant first.
pub open spec fn dec_rep(n: nat) -> Seq<char>
    decreases n,
{
    if n < 10 {
        seq![digit_char(n as int)]
    } else {
        dec_rep(n / 10).push(digit_char((n % 10) as int))
    }
}

/// Fractional part of a coordinate, given as thousandths (`0 <= f < 1000`):
/// three digits with trailing zeros stripped, at least one digit kept.
pub open spec fn frac_rep(f: nat) -> Seq<char> {
    let d1 = digit_char((f / 100) as int);
    let d2 = digit_char(((f / 10) % 10) as int);
    let d3 = digit_char((f % 10) as int);
    if f % 10 != 0 {
        seq![d1, d2, d3]
    } else if (f / 10) % 10 != 0 {
        seq![d1, d2]
    } else {
        seq![d1]
    }
}

/// Canonical text of a nonnegative coordinate given in thousandths.
pub open spec fn fmt_coord_nonneg(m: int) -> Seq<char>
    recommends
        m >= 0,
{
    dec_rep((m / 1000) as nat) + seq!['.'] + frac_rep((m % 1000) as nat)
}

/// Canonical text of a coordinate given in thousandths. Zero has no sign,
/// so the normalized zero renders as `0.0`.
pub open spec fn fmt_coord(v: int) -> Seq<char> {
    if v < 0 {
        seq!['-'] + fmt_coord_nonneg(-v)
    } else {
        fmt_coord_nonneg(v)
    }
}

/// True when `s` holds `'.'` at exactly one position.
pub open spec fn exactly_one_dot(s: Seq<char>) -> bool {
    exists|i: int|
        0 <= i < s.len() && s[i] == '.' && (forall|j: int|
            0 <= j < s.len() && j != i ==> s[j] != '.')
}

proof fn lemma_dec_rep_digits(n: nat)
    ensures
        dec_rep(n).len() >= 1,
        forall|i: int| 0 <= i < dec_rep(n).len() ==> #[trigger] dec_rep(n)[i] != '.',
    decreases n,
{
    if n >= 10 {
        lemma_dec_rep_digits(n / 10);
    }
}

fn digit_str(d: u64) -> (r: &'static str)
    requires
        d < 10,
    ensures
        r@ == seq![digit_char(d as int)],
{
    let r: &'static str = match d {
        0 => "0",
        1 => "1",
        2 => "2",
        3 => "3",
        4 => "4",
        5 => "5",
        6 => "6",
        7 => "7",
        8 => "8",
        _ => "9",
    };
    proof {
        reveal_strlit("0");
        reveal_strlit("1");
        reveal_strlit("2");
        reveal_strlit("3");
        reveal_strlit("4");
        reveal_strlit("5");
        reveal_strlit("6");
        reveal_strlit("7");
        reveal_strlit("8");
        reveal_strlit("9");
        assert(r@ =~= seq![digit_char(d as int)]);
    }
    r
}

/// Decimal digits of `n`, most significant first.
fn dec_string(n: u64) -> (r: String)
    ensures
        r@ == dec_rep(n as nat),
    decreases n,
{
    if n < 10 {
        digit_str(n).to_owned()
    } else {
        let mut s = dec_string(n / 10);
        s.append(digit_str(n % 10));
        proof {
            assert(dec_rep((n / 10) as nat) + seq![digit_char((n % 10) as int)] =~= dec_rep(
                n as nat,
            ));
        }
        s
    }
}

fn frac_string(f: u64) -> (r: String)
    requires
        f < 1000,
    ensures
        r@ == frac_rep(f as nat),
{
    if f % 10 != 0 {
        let mut s = digit_str(f / 100).to_owned();
        s.append(digit_str((f / 10) % 10));
        s.append(digit_str(f % 10));
        proof {
            assert(s@ =~= frac_rep(f as nat));
        }
        s
    } else if (f / 10) % 10 != 0 {
        let mut s = digit_str(f / 100).to_owned();
        s.append(digit_str((f / 10) % 10));
        proof {
            assert(s@ =~= frac_rep(f as nat));
        }
        s
    } else {
        digit_str(f / 100).to_owned()
    }
}

/// Render a fixed-point coordinate (a count of thousandths) in its canonical
/// text form.
pub fn format_coord(v: i64) -> (r: String)
    requires
        v > i64::MIN,
    ensures
        r@ == fmt_coord(v as int),
{
    let neg = v < 0;
    let m: u64 = if neg {
        (-v) as u64
    } else {
        v as u64
    };
    let mut s: String = if neg {
        "-".to_owned()
    } else {
        String::new()
    };
    s.append(dec_string(m / 1000).as_str());
    s.append(".");
    s.append(frac_string(m % 1000).as_str());
    proof {
        reveal_strlit("-");
        reveal_strlit(".");
        if neg {
            assert(m as int == -(v as int));
            assert(s@ =~= fmt_coord(v as int));
        } else {
            assert(s@ =~= fmt_coord(v as int));
        }
    }
    s
}

/// Every canonical coordinate text holds exactly one decimal point, never
/// ends in it, and carries no trailing zero beyond the minimal form: when
/// its last character is `'0'`, that is the sole fractional digit.
pub proof fn lemma_format_canonical(v: int)
    ensures
        fmt_coord(v).len() >= 3,
        exactly_one_dot(fmt_coord(v)),
        fmt_coord(v).last() != '.',
        fmt_coord(v).last() == '0' ==> fmt_coord(v)[fmt_coord(v).len() - 2] == '.',
{
    let m = if v < 0 {
        -v
    } else {
        v
    };
    let dec = dec_rep((m / 1000) as nat);
    let frac = frac_rep((m % 1000) as nat);
    lemma_dec_rep_digits((m / 1000) as nat);
    let s = fmt_coord(v);
    let sign: int = if v < 0 {
        1
    } else {
        0
    };
    let dot = sign + dec.len() as int;
    assert(s[dot] == '.');
    assert(forall|j: int| 0 <= j < s.len() && j != dot ==> s[j] != '.');
    assert(exactly_one_dot(s));
    assert(s.last() == frac.last());
    let f = (m % 1000) as nat;
    if frac.last() == '0' {
        assert(frac =~= seq![digit_char((f / 100) as int)]);
        assert(s.len() - 2 == dot);
    }
}

} // verus!
