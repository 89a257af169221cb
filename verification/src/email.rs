//! Syntactic validation of the caller's email identifier, after the
//! conservative pattern: one or more local characters, an `@`, a domain, a
//! dot, and at least two letters.

use vstd::prelude::*;
use crate::text::chars_of;
use crate::errors::AnalysisError;

verus! {

pub open spec fn is_alpha_char(c: char) -> bool {
    ('A' <= c && c <= 'Z') || ('a' <= c && c <= 'z')
}

pub open spec fn is_digit_char(c: char) -> bool {
    '0' <= c && c <= '9'
}

/// A character allowed before the `@`.
pub open spec fn is_local_char(c: char) -> bool {
    is_alpha_char(c) || is_digit_char(c) || c == '.' || c == '_' || c == '%' || c == '+' || c == '-'
}

/// A character allowed between the `@` and the final dot.
pub open spec fn is_domain_char(c: char) -> bool {
    is_alpha_char(c) || is_digit_char(c) || c == '.' || c == '-'
}

/// The address shape accepted: some position holds the `@`, everything
/// before it is a local character and there is at least one; after it some
/// position holds a dot with at least one domain character before it and at
/// least two letters, and nothing else, after it.  (That is the pattern
/// local+ "@" domain+ "." alpha alpha+ in character classes.)
pub open spec fn is_valid_email(s: Seq<char>) -> bool {
    exists|a: int, d: int|
        {
            &&& 0 < a
            &&& a + 1 < d
            &&& d + 2 < s.len()
            &&& #[trigger] s[a] == '@'
            &&& #[trigger] s[d] == '.'
            &&& (forall|i: int| 0 <= i < a ==> is_local_char(#[trigger] s[i]))
            &&& (forall|i: int| a < i < d ==> is_domain_char(#[trigger] s[i]))
            &&& (forall|i: int| d < i < s.len() ==> is_alpha_char(#[trigger] s[i]))
        }
}

fn is_local_char_exec(c: char) -> (r: bool)
    ensures
        r == is_local_char(c),
{
    ('A' <= c && c <= 'Z') || ('a' <= c && c <= 'z') || ('0' <= c && c <= '9') || c == '.' || c
        == '_' || c == '%' || c == '+' || c == '-'
}

fn is_domain_char_exec(c: char) -> (r: bool)
    ensures
        r == is_domain_char(c),
{
    ('A' <= c && c <= 'Z') || ('a' <= c && c <= 'z') || ('0' <= c && c <= '9') || c == '.' || c
        == '-'
}

fn is_alpha_char_exec(c: char) -> (r: bool)
    ensures
        r == is_alpha_char(c),
{
    ('A' <= c && c <= 'Z') || ('a' <= c && c <= 'z')
}

/// Decides whether a string is a syntactically valid email address.
#[verifier::loop_isolation(false)]
pub fn is_email(email: &str) -> (r: bool)
    ensures
        r == is_valid_email(email@),
{
    let v = chars_of(email);
    let n = v.len();
    // the first '@', which any witness must use, since '@' is neither a
    // local nor a domain character nor a letter
    let mut a: usize = 0;
    while a < n && v[a] != '@'
        invariant
            n == v@.len(),
            0 <= a <= n,
            forall|i: int| 0 <= i < a ==> v@[i] != '@',
        decreases n - a,
    {
        a = a + 1;
    }
    if a == n || a == 0 {
        proof {
            assert forall|x: int, d: int|
                !(0 < x && x + 1 < d && d + 2 < v@.len() && v@[x] == '@' && v@[d] == '.' && (
                forall|i: int| 0 <= i < x ==> is_local_char(#[trigger] v@[i])) && (forall|i: int|
                    x < i < d ==> is_domain_char(#[trigger] v@[i])) && (forall|i: int|
                    d < i < v@.len() ==> is_alpha_char(#[trigger] v@[i]))) by {
                if 0 < x && x + 1 < d && d + 2 < v@.len() && v@[x] == '@' && v@[d] == '.'
                    && (forall|i: int| 0 <= i < x ==> is_local_char(#[trigger] v@[i])) {
                    if a == n {
                        assert(v@[x] != '@');
                    } else {
                        assert(is_local_char(v@[0]));
                        assert(v@[0] == '@');
                    }
                    assert(false);
                }
            }
        }
        return false;
    }
    let mut ok_local = true;
    let mut i: usize = 0;
    while i < a
        invariant
            0 <= i <= a < n == v@.len(),
            ok_local == (forall|q: int| 0 <= q < i ==> is_local_char(#[trigger] v@[q])),
        decreases a - i,
    {
        if !is_local_char_exec(v[i]) {
            ok_local = false;
        }
        i = i + 1;
    }
    // the last '.', which any witness must use, since everything after the
    // witness dot must be a letter
    let mut d: usize = n;
    let mut k: usize = n;
    while k > a + 1
        invariant
            a + 1 <= k <= n == v@.len(),
            d <= n,
            d == n ==> forall|q: int| k <= q < n ==> v@[q] != '.',
            d < n ==> (k <= d && v@[d as int] == '.' && forall|q: int|
                d < q < n ==> v@[q] != '.'),
        decreases k,
    {
        k = k - 1;
        if v[k] == '.' && d == n {
            d = k;
        }
    }
    if d == n {
        proof {
            assert forall|x: int, dd: int|
                !(0 < x && x + 1 < dd && dd + 2 < v@.len() && v@[x] == '@' && v@[dd] == '.'
                    && (forall|i: int| 0 <= i < x ==> is_local_char(#[trigger] v@[i])) && (
                forall|i: int| x < i < dd ==> is_domain_char(#[trigger] v@[i])) && (forall|i: int|
                    dd < i < v@.len() ==> is_alpha_char(#[trigger] v@[i]))) by {
                if 0 < x && x + 1 < dd && dd + 2 < v@.len() && v@[x] == '@' && v@[dd] == '.'
                    && (forall|i: int| 0 <= i < x ==> is_local_char(#[trigger] v@[i])) {
                    assert(x == a) by {
                        if x < a {
                            assert(v@[x] != '@');
                        }
                        if x > a {
                            assert(is_local_char(v@[a as int]));
                        }
                    }
                    assert(v@[dd] != '.');
                }
            }
        }
        return false;
    }
    proof {
        assert(a + 1 <= d);
    }
    let mut ok_domain = d > a + 1;
    let mut q: usize = a + 1;
    while q < d
        invariant
            a + 1 <= q,
            q <= d,
            d < n,
            n == v@.len(),
            ok_domain == (d > a + 1 && forall|t: int|
                a < t < q ==> is_domain_char(#[trigger] v@[t])),
        decreases d - q,
    {
        if !is_domain_char_exec(v[q]) {
            ok_domain = false;
        }
        q = q + 1;
    }
    let mut ok_tld = n - d > 2;
    let mut t: usize = d + 1;
    while t < n
        invariant
            d + 1 <= t <= n == v@.len(),
            d < n,
            ok_tld == (n - d > 2 && forall|x: int| d < x < t ==> is_alpha_char(#[trigger] v@[x])),
        decreases n - t,
    {
        if !is_alpha_char_exec(v[t]) {
            ok_tld = false;
        }
        t = t + 1;
    }
    let accept = ok_local && ok_domain && ok_tld;
    proof {
        if accept {
            assert(is_valid_email(v@)) by {
                let x = a as int;
                let dd = d as int;
                assert(0 < x && x + 1 < dd && dd + 2 < v@.len() && v@[x] == '@' && v@[dd]
                    == '.' && (forall|i: int| 0 <= i < x ==> is_local_char(#[trigger] v@[i])) && (
                forall|i: int| x < i < dd ==> is_domain_char(#[trigger] v@[i])) && (forall|i: int|
                    dd < i < v@.len() ==> is_alpha_char(#[trigger] v@[i])));
            }
        } else {
            assert forall|x: int, dd: int|
                !(0 < x && x + 1 < dd && dd + 2 < v@.len() && v@[x] == '@' && v@[dd] == '.'
                    && (forall|i: int| 0 <= i < x ==> is_local_char(#[trigger] v@[i])) && (
                forall|i: int| x < i < dd ==> is_domain_char(#[trigger] v@[i])) && (forall|i: int|
                    dd < i < v@.len() ==> is_alpha_char(#[trigger] v@[i]))) by {
                if 0 < x && x + 1 < dd && dd + 2 < v@.len() && v@[x] == '@' && v@[dd] == '.'
                    && (forall|i: int| 0 <= i < x ==> is_local_char(#[trigger] v@[i])) && (
                forall|i: int| x < i < dd ==> is_domain_char(#[trigger] v@[i])) && (forall|i: int|
                    dd < i < v@.len() ==> is_alpha_char(#[trigger] v@[i])) {
                    assert(x == a) by {
                        if x < a {
                            assert(v@[x] != '@');
                        }
                        if x > a {
                            assert(is_local_char(v@[a as int]));
                        }
                    }
                    assert(dd == d) by {
                        if dd < d {
                            assert(is_alpha_char(v@[d as int]));
                        }
                        if dd > d {
                            assert(v@[dd] != '.');
                        }
                    }
                    assert(ok_local);
                    assert(ok_domain);
                    assert(ok_tld);
                }
            }
        }
    }
    accept
}

/// Validates the caller's email, rejecting the empty or malformed.
pub fn validate_email(email: &str) -> (r: Result<(), AnalysisError>)
    ensures
        r is Ok <==> is_valid_email(email@),
        r matches Err(e) ==> e is InvalidEmail,
{
    if is_email(email) {
        Ok(())
    } else {
        Err(AnalysisError::InvalidEmail)
    }
}

} // verus!
