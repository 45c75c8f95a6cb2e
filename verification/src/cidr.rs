//! CIDR text formatting: an address joined to its decimal suffix by a slash.

use vstd::prelude::*;
use vstd::string::StringExecFns;

verus! {

/// The character for one decimal digit value.
pub open spec fn digit_char(d: int) -> char {
    if d == 0 {
        '0'
    } else if d == 1 {
        '1'
    } else if d == 2 {
        '2'
    } else if d == 3 {
        '3'
    } else if d == 4 {
        '4'
    } else if d == 5 {
        '5'
    } else if d == 6 {
        '6'
    } else if d == 7 {
        '7'
    } else if d == 8 {
        '8'
    } else {
        '9'
    }
}

/// The decimal text of a nonnegative number, most significant digit first,
/// with no leading zero.
pub open spec fn dec_chars(n: int) -> Seq<char>
    decreases n,
{
    if n < 10 {
        seq![digit_char(n)]
    } else {
        dec_chars(n / 10) + seq![digit_char(n % 10)]
    }
}

/// Append the character for one digit value.
fn append_digit(r: &mut String, d: u8)
    requires
        d <= 9,
    ensures
        final(r)@ == old(r)@ + seq![digit_char(d as int)],
{
    if d == 0 {
        r.append("0");
        proof {
            reveal_strlit("0");
            assert(("0")@ =~= seq![digit_char(0)]);
        }
    } else if d == 1 {
        r.append("1");
        proof {
            reveal_strlit("1");
            assert(("1")@ =~= seq![digit_char(1)]);
        }
    } else if d == 2 {
        r.append("2");
        proof {
            reveal_strlit("2");
            assert(("2")@ =~= seq![digit_char(2)]);
        }
    } else if d == 3 {
        r.append("3");
        proof {
            reveal_strlit("3");
            assert(("3")@ =~= seq![digit_char(3)]);
        }
    } else if d == 4 {
        r.append("4");
        proof {
            reveal_strlit("4");
            assert(("4")@ =~= seq![digit_char(4)]);
        }
    } else if d == 5 {
        r.append("5");
        proof {
            reveal_strlit("5");
            assert(("5")@ =~= seq![digit_char(5)]);
        }
    } else if d == 6 {
        r.append("6");
        proof {
            reveal_strlit("6");
            assert(("6")@ =~= seq![digit_char(6)]);
        }
    } else if d == 7 {
        r.append("7");
        proof {
            reveal_strlit("7");
            assert(("7")@ =~= seq![digit_char(7)]);
        }
    } else if d == 8 {
        r.append("8");
        proof {
            reveal_strlit("8");
            assert(("8")@ =~= seq![digit_char(8)]);
        }
    } else {
        r.append("9");
        proof {
            reveal_strlit("9");
            assert(("9")@ =~= seq![digit_char(9)]);
        }
    }
}

/// Append the decimal text of `n`.
fn append_dec_u8(r: &mut String, n: u8)
    ensures
        final(r)@ == old(r)@ + dec_chars(n as int),
{
    if n >= 100 {
        proof {
            let q: int = n as int / 10;
            let h: int = n as int / 100;
            assert((n as int / 10) / 10 == n as int / 100) by (nonlinear_arith);
            assert(dec_chars(h) == seq![digit_char(h)]);
            assert(dec_chars(q) == dec_chars(h) + seq![digit_char(q % 10)]);
            assert(dec_chars(n as int) == dec_chars(q) + seq![digit_char(n as int % 10)]);
            assert(dec_chars(n as int) =~= seq![
                digit_char(n as int / 100),
                digit_char((n as int / 10) % 10),
                digit_char(n as int % 10),
            ]);
        }
        append_digit(r, n / 100);
        append_digit(r, (n / 10) % 10);
        append_digit(r, n % 10);
        assert(final(r)@ =~= old(r)@ + dec_chars(n as int));
    } else if n >= 10 {
        proof {
            let q: int = n as int / 10;
            assert(dec_chars(q) == seq![digit_char(q)]);
            assert(dec_chars(n as int) == dec_chars(q) + seq![digit_char(n as int % 10)]);
            assert(dec_chars(n as int) =~= seq![
                digit_char(n as int / 10),
                digit_char(n as int % 10),
            ]);
        }
        append_digit(r, n / 10);
        append_digit(r, n % 10);
        assert(final(r)@ =~= old(r)@ + dec_chars(n as int));
    } else {
        append_digit(r, n);
    }
}

/// `address/suffix`: the address text, a slash, and the suffix in decimal.
pub fn format_cidr(address: &str, suffix: u8) -> (r: String)
    ensures
        r@ == address@ + seq!['/'] + dec_chars(suffix as int),
{
    let mut r = address.to_owned();
    r.append("/");
    proof {
        reveal_strlit("/");
        assert(("/")@ =~= seq!['/']);
    }
    append_dec_u8(&mut r, suffix);
    proof {
        assert(r@ =~= address@ + seq!['/'] + dec_chars(suffix as int));
    }
    r
}

} // verus!
