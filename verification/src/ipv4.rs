//! Validation of IPv4 dotted-quad text.
//!
//! A well-formed address is four octet groups joined by single dots, each
//! group one to three decimal digits with value at most 255 and no leading
//! zero — exactly the texts accepted by std's IPv4 parser.

use vstd::prelude::*;

verus! {

/// A decimal digit character.
pub open spec fn is_dec_digit(c: char) -> bool {
    '0' <= c && c <= '9'
}

/// Numeric value of a decimal digit character.
pub open spec fn digit_val(c: char) -> int {
    c as u32 - '0' as u32
}

/// Numeric value of a sequence of decimal digit characters, most
/// significant digit first.
pub open spec fn dec_val(s: Seq<char>) -> int
    decreases s.len(),
{
    if s.len() == 0 {
        0
    } else {
        dec_val(s.drop_last()) * 10 + digit_val(s.last())
    }
}

/// One dotted-quad group: one to three decimal digits, value at most 255,
/// and no leading zero.
pub open spec fn is_octet_text(s: Seq<char>) -> bool {
    &&& 1 <= s.len() <= 3
    &&& (forall|i: int| 0 <= i < s.len() ==> is_dec_digit(#[trigger] s[i]))
    &&& dec_val(s) <= 255
    &&& (s.len() > 1 ==> s[0] != '0')
}

/// The text splits into four octet groups at dot positions `i < j < k`.
pub open spec fn ipv4_split_at(s: Seq<char>, i: int, j: int, k: int) -> bool {
    &&& 0 <= i < j < k < s.len()
    &&& s[i] == '.'
    &&& s[j] == '.'
    &&& s[k] == '.'
    &&& is_octet_text(s.subrange(0, i))
    &&& is_octet_text(s.subrange(i + 1, j))
    &&& is_octet_text(s.subrange(j + 1, k))
    &&& is_octet_text(s.subrange(k + 1, s.len() as int))
}

/// A well-formed IPv4 dotted-quad.
pub open spec fn is_ipv4_text(s: Seq<char>) -> bool {
    exists|i: int, j: int, k: int| ipv4_split_at(s, i, j, k)
}

/// In a split text the dots stand exactly at the three split positions:
/// every other character belongs to an octet group and is a digit.
proof fn lemma_split_dots(s: Seq<char>, i: int, j: int, k: int)
    requires
        ipv4_split_at(s, i, j, k),
    ensures
        forall|q: int| 0 <= q < s.len() ==> (s[q] == '.' <==> (q == i || q == j || q == k)),
{
    assert forall|q: int|
        0 <= q < s.len() && !(q == i || q == j || q == k) implies s[q] != '.' by {
        if q < i {
            assert(s.subrange(0, i)[q] == s[q]);
            assert(is_dec_digit(s[q]));
        } else if q < j {
            assert(s.subrange(i + 1, j)[q - (i + 1)] == s[q]);
            assert(is_dec_digit(s[q]));
        } else if q < k {
            assert(s.subrange(j + 1, k)[q - (j + 1)] == s[q]);
            assert(is_dec_digit(s[q]));
        } else {
            assert(s.subrange(k + 1, s.len() as int)[q - (k + 1)] == s[q]);
            assert(is_dec_digit(s[q]));
        }
    }
}

/// Whether the characters from `from` (inclusive) to `to` (exclusive) form
/// one octet group.
fn check_octet(s: &str, from: usize, to: usize) -> (b: bool)
    requires
        from <= to <= s@.len(),
    ensures
        b == is_octet_text(s@.subrange(from as int, to as int)),
{
    let ghost g = s@.subrange(from as int, to as int);
    let len: usize = to - from;
    if len < 1 || len > 3 {
        return false;
    }
    let mut val: u32 = 0;
    let mut p: usize = from;
    while p < to
        invariant
            from <= p <= to <= s@.len(),
            to - from <= 3,
            g == s@.subrange(from as int, to as int),
            forall|q: int| from <= q < p ==> is_dec_digit(#[trigger] s@[q]),
            val == dec_val(s@.subrange(from as int, p as int)),
            p - from == 0 ==> val == 0,
            p - from == 1 ==> val <= 9,
            p - from == 2 ==> val <= 99,
            p - from == 3 ==> val <= 999,
        decreases to - p,
    {
        let c = s.get_char(p);
        if c < '0' || c > '9' {
            assert(g[p - from] == s@[p as int]);
            assert(!is_octet_text(g));
            return false;
        }
        let cv: u32 = c as u32;
        proof {
            let pre = s@.subrange(from as int, p as int);
            let post = s@.subrange(from as int, p + 1);
            assert(post.drop_last() =~= pre);
            assert(post.last() == s@[p as int]);
        }
        val = val * 10 + (cv - 48);
        p += 1;
    }
    assert(g =~= s@.subrange(from as int, to as int));
    if val > 255 {
        return false;
    }
    if len > 1 {
        let c0 = s.get_char(from);
        if c0 == '0' {
            assert(g[0] == s@[from as int]);
            return false;
        }
    }
    assert forall|q: int| 0 <= q < g.len() implies is_dec_digit(#[trigger] g[q]) by {
        assert(g[q] == s@[from + q]);
    }
    true
}

/// Whether `s` is a well-formed IPv4 dotted-quad, such as `198.51.100.7`.
///
/// Texts with missing or extra groups, out-of-range groups, leading zeros,
/// or any non-digit character besides the three dots are rejected.
pub fn is_valid_ipv4(s: &str) -> (b: bool)
    ensures
        b == is_ipv4_text(s@),
{
    let n: usize = s.unicode_len();
    let mut dots: Vec<usize> = Vec::new();
    let mut p: usize = 0;
    while p < n
        invariant
            n == s@.len(),
            p <= n,
            forall|t: int| 0 <= t < dots@.len() ==> #[trigger] dots@[t] < p,
            forall|t: int| 0 <= t < dots@.len() ==> s@[#[trigger] dots@[t] as int] == '.',
            forall|t1: int, t2: int| 0 <= t1 < t2 < dots@.len() ==> dots@[t1] < dots@[t2],
            forall|q: int| 0 <= q < p && s@[q] == '.' ==> dots@.contains(q as usize),
        decreases n - p,
    {
        let c = s.get_char(p);
        if c == '.' {
            proof {
                assert forall|q: int| 0 <= q < p + 1 && s@[q] == '.'
                    implies dots@.push(p).contains(q as usize) by {
                    if q < p {
                        let t: int = choose|t: int| 0 <= t < dots@.len() && dots@[t] == q as usize;
                        assert(dots@.push(p)[t] == q as usize);
                    } else {
                        assert(dots@.push(p)[dots@.len() as int] == p);
                    }
                }
            }
            dots.push(p);
        } else {
            proof {
                assert forall|q: int| 0 <= q < p + 1 && s@[q] == '.'
                    implies dots@.contains(q as usize) by {
                    assert(q != p);
                }
            }
        }
        p += 1;
    }
    if dots.len() != 3 {
        proof {
            if is_ipv4_text(s@) {
                let (i, j, k) = choose|i: int, j: int, k: int| ipv4_split_at(s@, i, j, k);
                lemma_split_dots(s@, i, j, k);
                // i, j and k each occur in `dots`
                assert(dots@.contains(i as usize));
                assert(dots@.contains(j as usize));
                assert(dots@.contains(k as usize));
                let ti: int = choose|t: int| 0 <= t < dots@.len() && dots@[t] == i as usize;
                let tj: int = choose|t: int| 0 <= t < dots@.len() && dots@[t] == j as usize;
                let tk: int = choose|t: int| 0 <= t < dots@.len() && dots@[t] == k as usize;
                assert(ti != tj && tj != tk && ti != tk);
                // every element of `dots` is one of i, j, k
                assert forall|t: int| 0 <= t < dots@.len()
                    implies dots@[t] == i || dots@[t] == j || dots@[t] == k by {
                    assert(s@[dots@[t] as int] == '.');
                }
                if dots@.len() >= 4 {
                    assert(dots@[0] < dots@[1] < dots@[2] < dots@[3]);
                    assert(false);
                }
                assert(false);
            }
        }
        return false;
    }
    let d0: usize = dots[0];
    let d1: usize = dots[1];
    let d2: usize = dots[2];
    assert(d0 < d1 < d2 < n);
    let ok = check_octet(s, 0, d0) && check_octet(s, d0 + 1, d1) && check_octet(s, d1 + 1, d2)
        && check_octet(s, d2 + 1, n);
    proof {
        if ok {
            assert(ipv4_split_at(s@, d0 as int, d1 as int, d2 as int));
        } else {
            if is_ipv4_text(s@) {
                let (i, j, k) = choose|i: int, j: int, k: int| ipv4_split_at(s@, i, j, k);
                lemma_split_dots(s@, i, j, k);
                assert(dots@.contains(i as usize));
                assert(dots@.contains(j as usize));
                assert(dots@.contains(k as usize));
                assert forall|t: int| 0 <= t < dots@.len()
                    implies dots@[t] == i || dots@[t] == j || dots@[t] == k by {
                    assert(s@[dots@[t] as int] == '.');
                }
                assert(d0 == dots@[0] && d1 == dots@[1] && d2 == dots@[2]);
                assert(i == d0 && j == d1 && k == d2);
                assert(false);
            }
        }
    }
    ok
}

} // verus!
