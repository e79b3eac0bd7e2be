//! Numbers as decimal text, and the keys under which ports are filed.

use vstd::prelude::*;
use vstd::string::StringExecFns;

verus! {

/// The character of a decimal digit.
pub open spec fn digit_char(d: nat) -> char {
    if d == 0 {
        '0'
    } else if d == 1 {
        '1'
    } else if d == 2 {
        '2'
    } else if d == 3 {
        '3'
    } else if d == 4 {
        '4'
    } else if d == 5 {
        '5'
    } else if d == 6 {
        '6'
    } else if d == 7 {
        '7'
    } else if d == 8 {
        '8'
    } else {
        '9'
    }
}

/// A natural number in decimal, without leading zeros.
pub open spec fn decimal_digits(n: nat) -> Seq<char>
    decreases n,
{
    if n < 10 {
        seq![digit_char(n)]
    } else {
        decimal_digits(n / 10).push(digit_char(n % 10))
    }
}

/// An integer in decimal: a minus sign before the digits of a negative one.
pub open spec fn decimal_text(n: int) -> Seq<char> {
    if n < 0 {
        seq!['-'] + decimal_digits((-n) as nat)
    } else {
        decimal_digits(n as nat)
    }
}

/// The key of a port: its number in decimal, a slash, the protocol.
pub open spec fn port_key_text(port: u32, protocol: Seq<char>) -> Seq<char> {
    decimal_digits(port as nat) + seq!['/'] + protocol
}

/// `i128::to_string`: the number written in decimal, as std's `Display` for
/// integers gives it.
#[verifier::external_body]
pub(crate) fn decimal_string(n: i128) -> (r: String)
    ensures
        r@ == decimal_text(n as int),
{
    n.to_string()
}

/// The key under which a port of a protocol is filed.
pub fn port_key(port: u32, protocol: &str) -> (r: String)
    ensures
        r@ == port_key_text(port, protocol@),
{
    let mut key = decimal_string(port as i128);
    proof {
        reveal_strlit("/");
        assert("/"@ =~= seq!['/']);
    }
    key.append("/");
    key.append(protocol);
    key
}

/// The decimal text of a number has at least one character.
pub proof fn lemma_decimal_len(n: nat)
    ensures
        decimal_digits(n).len() >= 1,
        n >= 10 ==> decimal_digits(n).len() >= 2,
    decreases n,
{
    if n >= 10 {
        lemma_decimal_len(n / 10);
    }
}

/// Different numbers have different decimal texts.
pub proof fn lemma_decimal_injective(a: nat, b: nat)
    requires
        decimal_digits(a) == decimal_digits(b),
    ensures
        a == b,
    decreases a,
{
    lemma_decimal_len(a);
    lemma_decimal_len(b);
    if a < 10 || b < 10 {
        assert(decimal_digits(a).len() == decimal_digits(b).len());
        assert(a < 10 && b < 10);
        assert(decimal_digits(a)[0] == digit_char(a));
        assert(decimal_digits(b)[0] == digit_char(b));
    } else {
        let x = decimal_digits(a / 10);
        let y = decimal_digits(b / 10);
        assert(x.push(digit_char(a % 10)).last() == digit_char(a % 10));
        assert(y.push(digit_char(b % 10)).last() == digit_char(b % 10));
        assert(x.push(digit_char(a % 10)).drop_last() =~= x);
        assert(y.push(digit_char(b % 10)).drop_last() =~= y);
        lemma_decimal_injective(a / 10, b / 10);
        assert(digit_char(a % 10) == digit_char(b % 10));
        assert(a % 10 == b % 10);
        assert(a == 10 * (a / 10) + a % 10);
        assert(b == 10 * (b / 10) + b % 10);
    }
}

/// No character of a decimal text is a slash.
pub proof fn lemma_decimal_has_no_slash(n: nat)
    ensures
        forall|i: int| 0 <= i < decimal_digits(n).len() ==> decimal_digits(n)[i] != '/',
    decreases n,
{
    if n >= 10 {
        lemma_decimal_has_no_slash(n / 10);
        let front = decimal_digits(n / 10);
        assert forall|i: int| 0 <= i < decimal_digits(n).len() implies decimal_digits(n)[i]
            != '/' by {
            if i < front.len() {
                assert(decimal_digits(n)[i] == front[i]);
            } else {
                assert(decimal_digits(n)[i] == digit_char(n % 10));
            }
        }
    } else {
        assert(decimal_digits(n)[0] == digit_char(n));
    }
}

/// Different pairs of port and protocol have different keys.
pub proof fn lemma_port_key_injective(p: u32, protocol_p: Seq<char>, q: u32, protocol_q: Seq<char>)
    requires
        port_key_text(p, protocol_p) == port_key_text(q, protocol_q),
    ensures
        p == q,
        protocol_p == protocol_q,
{
    let x = decimal_digits(p as nat);
    let y = decimal_digits(q as nat);
    let a = x + seq!['/'] + protocol_p;
    let b = y + seq!['/'] + protocol_q;
    lemma_decimal_has_no_slash(p as nat);
    lemma_decimal_has_no_slash(q as nat);
    assert(a[x.len() as int] == '/');
    assert(b[y.len() as int] == '/');
    if x.len() < y.len() {
        assert(b[x.len() as int] == y[x.len() as int]);
    }
    if y.len() < x.len() {
        assert(a[y.len() as int] == x[y.len() as int]);
    }
    assert(x =~= a.subrange(0, x.len() as int));
    assert(y =~= b.subrange(0, y.len() as int));
    lemma_decimal_injective(p as nat, q as nat);
    assert(protocol_p =~= a.subrange(x.len() as int + 1, a.len() as int));
    assert(protocol_q =~= b.subrange(y.len() as int + 1, b.len() as int));
}

} // verus!
