//! Rendering of port numbers and of the worker's base URL.
//!
//! A running worker is reachable at `http://127.0.0.1:<port>/api`; the URL is
//! derived from the port alone, so two workers on the same port would share a
//! URL and two workers on distinct ports never do.

use vstd::prelude::*;

verus! {

/// The decimal digit character for a value below ten.
pub open spec fn digit_char(d: int) -> char {
    if d == 0 {
        '0'
    } else if d == 1 {
        '1'
    } else if d == 2 {
        '2'
    } else if d == 3 {
        '3'
    } else if d == 4 {
        '4'
    } else if d == 5 {
        '5'
    } else if d == 6 {
        '6'
    } else if d == 7 {
        '7'
    } else if d == 8 {
        '8'
    } else {
        '9'
    }
}

/// The usual decimal rendering of a non-negative integer: no sign, no leading
/// zeros except for the number zero itself.
pub open spec fn decimal_digits(n: int) -> Seq<char>
    decreases n,
{
    if n < 10 {
        seq![digit_char(n)]
    } else {
        decimal_digits(n / 10).push(digit_char(n % 10))
    }
}

/// The base URL under which a worker listening on the given port serves its
/// API.
pub open spec fn base_url_spec(port: int) -> Seq<char> {
    "http://127.0.0.1:"@ + decimal_digits(port) + "/api"@
}

/// The one-character string for a decimal digit.
fn digit_str(d: u16) -> (s: &'static str)
    requires
        d < 10,
    ensures
        s@ == seq![digit_char(d as int)],
{
    proof {
        reveal_strlit("0");
        reveal_strlit("1");
        reveal_strlit("2");
        reveal_strlit("3");
        reveal_strlit("4");
        reveal_strlit("5");
        reveal_strlit("6");
        reveal_strlit("7");
        reveal_strlit("8");
        reveal_strlit("9");
    }
    match d {
        0 => "0",
        1 => "1",
        2 => "2",
        3 => "3",
        4 => "4",
        5 => "5",
        6 => "6",
        7 => "7",
        8 => "8",
        _ => "9",
    }
}

/// The decimal rendering of a port number.
pub fn decimal_string(n: u16) -> (s: String)
    ensures
        s@ == decimal_digits(n as int),
    decreases n,
{
    if n < 10 {
        String::from_str(digit_str(n))
    } else {
        let mut s = decimal_string(n / 10);
        s.append(digit_str(n % 10));
        assert(s@ =~= decimal_digits(n as int / 10).push(digit_char(n as int % 10)));
        s
    }
}

/// The base URL for a worker on the given loopback port.
pub fn base_url_for(port: u16) -> (r: String)
    ensures
        r@ == base_url_spec(port as int),
{
    let mut s = String::from_str("http://127.0.0.1:");
    let digits = decimal_string(port);
    s.append(digits.as_str());
    s.append("/api");
    s
}

proof fn lemma_decimal_len(n: int)
    requires
        n >= 0,
    ensures
        decimal_digits(n).len() >= 1,
        n >= 10 ==> decimal_digits(n).len() >= 2,
    decreases n,
{
    if n >= 10 {
        lemma_decimal_len(n / 10);
    }
}

/// Two distinct numbers never share a decimal rendering.
proof fn lemma_decimal_digits_injective(a: int, b: int)
    requires
        a >= 0,
        b >= 0,
        decimal_digits(a) == decimal_digits(b),
    ensures
        a == b,
    decreases a,
{
    lemma_decimal_len(a);
    lemma_decimal_len(b);
    if a < 10 && b < 10 {
        assert(decimal_digits(a)[0] == digit_char(a));
        assert(decimal_digits(b)[0] == digit_char(b));
    } else if a < 10 || b < 10 {
        assert(false);
    } else {
        let da = decimal_digits(a / 10);
        let db = decimal_digits(b / 10);
        assert(da.push(digit_char(a % 10)).last() == digit_char(a % 10));
        assert(db.push(digit_char(b % 10)).last() == digit_char(b % 10));
        assert(da.push(digit_char(a % 10)).drop_last() =~= da);
        assert(db.push(digit_char(b % 10)).drop_last() =~= db);
        assert(da == db);
        lemma_decimal_digits_injective(a / 10, b / 10);
        assert(a % 10 == b % 10);
    }
}

/// Two distinct ports never share a base URL, so the cached URL always
/// identifies the worker it was created with.
pub proof fn lemma_base_url_injective(p1: int, p2: int)
    requires
        p1 >= 0,
        p2 >= 0,
        p1 != p2,
    ensures
        base_url_spec(p1) != base_url_spec(p2),
{
    reveal_strlit("http://127.0.0.1:");
    reveal_strlit("/api");
    let pre = "http://127.0.0.1:"@;
    let d1 = decimal_digits(p1);
    let d2 = decimal_digits(p2);
    if base_url_spec(p1) == base_url_spec(p2) {
        let u = base_url_spec(p1);
        assert(pre.len() == 17);
        assert(("/api"@).len() == 4);
        assert(u.len() == 17 + d1.len() + 4);
        assert(base_url_spec(p2).len() == 17 + d2.len() + 4);
        assert(d1.len() == d2.len());
        assert(d1 =~= u.subrange(17, 17 + d1.len() as int)) by {
            assert forall|j: int| 0 <= j < d1.len() implies u.subrange(
                17,
                17 + d1.len() as int,
            )[j] == d1[j] by {
                assert(u.subrange(17, 17 + d1.len() as int)[j] == u[17 + j]);
                assert(u[17 + j] == (pre + d1)[17 + j]);
            }
        }
        assert(d2 =~= u.subrange(17, 17 + d2.len() as int)) by {
            assert forall|j: int| 0 <= j < d2.len() implies u.subrange(
                17,
                17 + d2.len() as int,
            )[j] == d2[j] by {
                assert(u.subrange(17, 17 + d2.len() as int)[j] == base_url_spec(p2)[17 + j]);
                assert(base_url_spec(p2)[17 + j] == (pre + d2)[17 + j]);
            }
        }
        lemma_decimal_digits_injective(p1, p2);
        assert(false);
    }
}

} // verus!
