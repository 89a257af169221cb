//! Character-level string utilities.
//!
//! All executable text processing in this crate goes through the functions in
//! this module, so that every contract can be stated over the `Seq<char>` view
//! of a `String` or `&str`.

use vstd::prelude::*;

verus! {

/// Pushes one character onto a string.
///
/// Relies on `String::push`: appends the character to the end of the string.
#[verifier::external_body]
pub fn push_char(s: &mut String, c: char)
    ensures
        final(s)@ == old(s)@.push(c),
{
    s.push(c);
}

/// The whitespace characters recognised when deciding whether a value is blank.
pub open spec fn is_space_char(c: char) -> bool {
    c == ' ' || c == '\t' || c == '\n' || c == '\r'
}

/// A sequence is blank when every character in it is whitespace.
pub open spec fn blank(s: Seq<char>) -> bool {
    forall|i: int| 0 <= i < s.len() ==> is_space_char(s[i])
}

pub fn is_space(c: char) -> (r: bool)
    ensures
        r == is_space_char(c),
{
    c == ' ' || c == '\t' || c == '\n' || c == '\r'
}

/// True when the string is empty or consists of whitespace only.
pub fn is_blank(s: &str) -> (r: bool)
    ensures
        r == blank(s@),
{
    let n = s.unicode_len();
    let mut i: usize = 0;
    while i < n
        invariant
            n == s@.len(),
            0 <= i <= n,
            forall|j: int| 0 <= j < i ==> is_space_char(s@[j]),
        decreases n - i,
    {
        if !is_space(s.get_char(i)) {
            return false;
        }
        i = i + 1;
    }
    true
}

/// Maps an upper-case ASCII letter to its lower-case form; leaves every other
/// character unchanged.
pub open spec fn lower_char(c: char) -> char {
    if 'A' <= c && c <= 'Z' {
        ((c as u32) + 32) as char
    } else {
        c
    }
}

pub open spec fn lower(s: Seq<char>) -> Seq<char> {
    Seq::new(s.len(), |i: int| lower_char(s[i]))
}

pub fn to_lower_char(c: char) -> (r: char)
    ensures
        r == lower_char(c),
{
    if c == 'A' { 'a' }
    else if c == 'B' { 'b' }
    else if c == 'C' { 'c' }
    else if c == 'D' { 'd' }
    else if c == 'E' { 'e' }
    else if c == 'F' { 'f' }
    else if c == 'G' { 'g' }
    else if c == 'H' { 'h' }
    else if c == 'I' { 'i' }
    else if c == 'J' { 'j' }
    else if c == 'K' { 'k' }
    else if c == 'L' { 'l' }
    else if c == 'M' { 'm' }
    else if c == 'N' { 'n' }
    else if c == 'O' { 'o' }
    else if c == 'P' { 'p' }
    else if c == 'Q' { 'q' }
    else if c == 'R' { 'r' }
    else if c == 'S' { 's' }
    else if c == 'T' { 't' }
    else if c == 'U' { 'u' }
    else if c == 'V' { 'v' }
    else if c == 'W' { 'w' }
    else if c == 'X' { 'x' }
    else if c == 'Y' { 'y' }
    else if c == 'Z' { 'z' }
    else { c }
}

/// ASCII lower-casing of a whole string.
pub fn to_lowercase(s: &str) -> (r: String)
    ensures
        r@ == lower(s@),
{
    let n = s.unicode_len();
    let mut out = String::new();
    let mut i: usize = 0;
    while i < n
        invariant
            n == s@.len(),
            0 <= i <= n,
            out@ == lower(s@).subrange(0, i as int),
        decreases n - i,
    {
        let c = to_lower_char(s.get_char(i));
        push_char(&mut out, c);
        proof {
            assert(out@ =~= lower(s@).subrange(0, i + 1 as int));
        }
        i = i + 1;
    }
    proof {
        assert(out@ =~= lower(s@));
    }
    out
}

/// The needle occurs in the haystack starting at position `i`.
pub open spec fn matches_at(hay: Seq<char>, i: int, needle: Seq<char>) -> bool {
    0 <= i && i + needle.len() <= hay.len() && hay.subrange(i, i + needle.len()) == needle
}

pub open spec fn has_substring(hay: Seq<char>, needle: Seq<char>) -> bool {
    exists|i: int| matches_at(hay, i, needle)
}

pub open spec fn starts_with_seq(s: Seq<char>, prefix: Seq<char>) -> bool {
    prefix.len() <= s.len() && s.subrange(0, prefix.len() as int) == prefix
}

/// Compares the characters of two vectors for equality.
pub fn chars_eq(a: &Vec<char>, b: &Vec<char>) -> (r: bool)
    ensures
        r == (a@ == b@),
{
    if a.len() != b.len() {
        proof {
            assert(a@ != b@);
        }
        return false;
    }
    let n = a.len();
    let mut i: usize = 0;
    while i < n
        invariant
            n == a.len() == b.len(),
            0 <= i <= n,
            forall|j: int| 0 <= j < i ==> a@[j] == b@[j],
        decreases n - i,
    {
        if a[i] != b[i] {
            return false;
        }
        i = i + 1;
    }
    proof {
        assert(a@ =~= b@);
    }
    true
}

/// Collects the characters of a string into a vector.
pub fn chars_of(s: &str) -> (v: Vec<char>)
    ensures
        v@ == s@,
{
    let n = s.unicode_len();
    let mut v: Vec<char> = Vec::new();
    let mut i: usize = 0;
    while i < n
        invariant
            n == s@.len(),
            0 <= i <= n,
            v@ == s@.subrange(0, i as int),
        decreases n - i,
    {
        v.push(s.get_char(i));
        proof {
            assert(v@ =~= s@.subrange(0, i + 1 as int));
        }
        i = i + 1;
    }
    proof {
        assert(v@ =~= s@);
    }
    v
}

/// Builds a string from a vector of characters.
pub fn string_of(v: &Vec<char>) -> (s: String)
    ensures
        s@ == v@,
{
    let n = v.len();
    let mut s = String::new();
    let mut i: usize = 0;
    while i < n
        invariant
            n == v.len(),
            0 <= i <= n,
            s@ == v@.subrange(0, i as int),
        decreases n - i,
    {
        push_char(&mut s, v[i]);
        proof {
            assert(s@ =~= v@.subrange(0, i + 1 as int));
        }
        i = i + 1;
    }
    proof {
        assert(s@ =~= v@);
    }
    s
}

/// Compares two strings for equality of their character sequences.
pub fn str_eq(a: &str, b: &str) -> (r: bool)
    ensures
        r == (a@ == b@),
{
    let av = chars_of(a);
    let bv = chars_of(b);
    chars_eq(&av, &bv)
}

/// True when `needle` occurs anywhere in `hay`.
pub fn contains_str(hay: &str, needle: &str) -> (r: bool)
    ensures
        r == has_substring(hay@, needle@),
{
    let h = chars_of(hay);
    let n = chars_of(needle);
    contains_chars(&h, &n)
}

/// Compares `needle` against the characters of `hay` starting at `i`.
fn chars_match_at(hay: &Vec<char>, needle: &Vec<char>, i: usize) -> (r: bool)
    requires
        i + needle@.len() <= hay@.len(),
    ensures
        r == matches_at(hay@, i as int, needle@),
{
    let nn = needle.len();
    let hn = hay.len();
    let mut j: usize = 0;
    while j < nn
        invariant
            nn == needle@.len(),
            hn == hay@.len(),
            i + nn <= hay@.len(),
            0 <= j <= nn,
            forall|k: int| 0 <= k < j ==> hay@[i + k] == needle@[k],
        decreases nn - j,
    {
        if hay[i + j] != needle[j] {
            proof {
                assert(hay@.subrange(i as int, i + nn as int)[j as int] == hay@[i + j]);
            }
            return false;
        }
        j = j + 1;
    }
    proof {
        assert(hay@.subrange(i as int, i + nn as int) =~= needle@);
    }
    true
}

pub fn contains_chars(hay: &Vec<char>, needle: &Vec<char>) -> (r: bool)
    ensures
        r == has_substring(hay@, needle@),
{
    let hn = hay.len();
    let nn = needle.len();
    if nn > hn {
        proof {
            assert(forall|i: int| !matches_at(hay@, i, needle@));
        }
        return false;
    }
    if nn == 0 {
        proof {
            assert(hay@.subrange(0, 0) =~= needle@);
            assert(matches_at(hay@, 0, needle@));
        }
        return true;
    }
    let mut i: usize = 0;
    while i <= hn - nn
        invariant
            1 <= nn <= hn,
            hn == hay@.len(),
            nn == needle@.len(),
            0 <= i <= hn - nn + 1,
            forall|k: int| 0 <= k < i ==> !matches_at(hay@, k, needle@),
        decreases hn - i,
    {
        if chars_match_at(hay, needle, i) {
            return true;
        }
        i = i + 1;
    }
    proof {
        assert(forall|k: int| k >= i ==> !matches_at(hay@, k, needle@));
    }
    false
}

/// True when `prefix` is a prefix of `s`.
pub fn starts_with_str(s: &str, prefix: &str) -> (r: bool)
    ensures
        r == starts_with_seq(s@, prefix@),
{
    let sv = chars_of(s);
    let pv = chars_of(prefix);
    let pn = pv.len();
    if pn > sv.len() {
        return false;
    }
    let r = chars_match_at(&sv, &pv, 0);
    proof {
        assert(matches_at(sv@, 0, pv@) == starts_with_seq(s@, prefix@));
    }
    r
}

/// Removes leading and trailing whitespace.
pub open spec fn trim_spec(s: Seq<char>) -> Seq<char>
    decreases s.len(),
{
    if s.len() == 0 {
        s
    } else if is_space_char(s[0]) {
        trim_spec(s.subrange(1, s.len() as int))
    } else if is_space_char(s[s.len() - 1]) {
        trim_spec(s.subrange(0, s.len() - 1))
    } else {
        s
    }
}

pub fn trim(s: &str) -> (r: String)
    ensures
        r@ == trim_spec(s@),
{
    let v = chars_of(s);
    let mut lo: usize = 0;
    let mut hi: usize = v.len();
    proof {
        assert(v@.subrange(0, v@.len() as int) =~= v@);
    }
    while lo < hi && is_space(v[lo])
        invariant
            hi == v@.len(),
            0 <= lo <= hi,
            forall|j: int| 0 <= j < lo ==> is_space_char(v@[j]),
            trim_spec(s@) == trim_spec(v@.subrange(lo as int, hi as int)),
        decreases hi - lo,
    {
        proof {
            lemma_trim_drop_first(v@.subrange(lo as int, hi as int));
            assert(v@.subrange(lo as int, hi as int).subrange(1, hi - lo as int)
                =~= v@.subrange(lo + 1 as int, hi as int));
        }
        lo = lo + 1;
    }
    while lo < hi && is_space(v[hi - 1])
        invariant
            hi <= v@.len(),
            0 <= lo <= hi,
            lo < hi ==> !is_space_char(v@[lo as int]),
            trim_spec(s@) == trim_spec(v@.subrange(lo as int, hi as int)),
        decreases hi - lo,
    {
        proof {
            lemma_trim_drop_last(v@.subrange(lo as int, hi as int));
            assert(v@.subrange(lo as int, hi as int).subrange(0, hi - lo - 1 as int)
                =~= v@.subrange(lo as int, hi - 1 as int));
        }
        hi = hi - 1;
    }
    let mut out: Vec<char> = Vec::new();
    let mut i: usize = lo;
    while i < hi
        invariant
            lo <= i <= hi <= v@.len(),
            out@ == v@.subrange(lo as int, i as int),
        decreases hi - i,
    {
        out.push(v[i]);
        proof {
            assert(out@ =~= v@.subrange(lo as int, i + 1 as int));
        }
        i = i + 1;
    }
    proof {
        assert(out@ =~= v@.subrange(lo as int, hi as int));
        lemma_trim_of_trimmed(v@.subrange(lo as int, hi as int));
    }
    string_of(&out)
}

/// The views of a sequence of strings.
pub open spec fn views_of(ss: Seq<String>) -> Seq<Seq<char>> {
    ss.map_values(|x: String| x@)
}

/// Splitting on a separator character, defined by folding over the characters
/// from the right: a separator opens a new (empty) part, any other character
/// extends the last part.  The empty string splits into one empty part.
pub open spec fn split_seq(s: Seq<char>, sep: char) -> Seq<Seq<char>>
    decreases s.len(),
{
    if s.len() == 0 {
        seq![Seq::<char>::empty()]
    } else {
        let init = split_seq(s.drop_last(), sep);
        if s.last() == sep {
            init.push(Seq::<char>::empty())
        } else {
            init.update(init.len() - 1, init.last().push(s.last()))
        }
    }
}

pub proof fn lemma_split_len(s: Seq<char>, sep: char)
    ensures
        split_seq(s, sep).len() >= 1,
    decreases s.len(),
{
    if s.len() > 0 {
        lemma_split_len(s.drop_last(), sep);
    }
}

/// No part produced by a split contains the separator.
pub proof fn lemma_split_no_sep(s: Seq<char>, sep: char)
    ensures
        forall|i: int|
            0 <= i < split_seq(s, sep).len() ==> !split_seq(s, sep)[i].contains(sep),
    decreases s.len(),
{
    if s.len() > 0 {
        lemma_split_no_sep(s.drop_last(), sep);
        lemma_split_len(s.drop_last(), sep);
        let init = split_seq(s.drop_last(), sep);
        if s.last() != sep {
            assert forall|i: int|
                0 <= i < split_seq(s, sep).len() implies !split_seq(s, sep)[i].contains(sep) by {
                if i == init.len() - 1 {
                    let part = init.last().push(s.last());
                    assert forall|j: int| 0 <= j < part.len() implies part[j] != sep by {
                        if j < part.len() - 1 {
                            assert(init.last()[j] != sep);
                        }
                    }
                }
            }
        }
    }
}

/// Appending separator-free text extends the last part of a split.
pub proof fn lemma_split_append_no_sep(s: Seq<char>, t: Seq<char>, sep: char)
    requires
        !t.contains(sep),
    ensures
        split_seq(s + t, sep) == split_seq(s, sep).update(
            split_seq(s, sep).len() - 1,
            split_seq(s, sep).last() + t,
        ),
    decreases t.len(),
{
    lemma_split_len(s, sep);
    let parts = split_seq(s, sep);
    if t.len() == 0 {
        assert(s + t =~= s);
        assert(parts.last() + t =~= parts.last());
        assert(parts.update(parts.len() - 1, parts.last()) =~= parts);
    } else {
        let t0 = t.drop_last();
        assert(!t0.contains(sep)) by {
            assert forall|i: int| 0 <= i < t0.len() implies t0[i] != sep by {
                assert(t[i] != sep);
            }
        }
        lemma_split_append_no_sep(s, t0, sep);
        let st0 = s + t0;
        assert((s + t).drop_last() =~= st0);
        assert((s + t).last() == t.last());
        assert(t.last() != sep) by {
            assert(t[t.len() - 1] == t.last());
        }
        let mid = split_seq(st0, sep);
        assert(split_seq(s + t, sep) == mid.update(mid.len() - 1, mid.last().push(t.last())));
        assert(mid.last() == parts.last() + t0);
        assert((parts.last() + t0).push(t.last()) =~= parts.last() + t);
        assert(mid.update(mid.len() - 1, mid.last().push(t.last())) =~= parts.update(
            parts.len() - 1,
            parts.last() + t,
        ));
    }
}

/// Splitting separator-free text yields that text as the single part.
pub proof fn lemma_split_single(t: Seq<char>, sep: char)
    requires
        !t.contains(sep),
    ensures
        split_seq(t, sep) == seq![t],
{
    lemma_split_append_no_sep(Seq::<char>::empty(), t, sep);
    assert(Seq::<char>::empty() + t =~= t);
    assert(split_seq(Seq::<char>::empty(), sep) == seq![Seq::<char>::empty()]);
    assert(Seq::<char>::empty() + t =~= t);
    assert(seq![Seq::<char>::empty()].update(0, Seq::<char>::empty() + t) =~= seq![t]);
}

/// Joining with a separator character.
pub open spec fn join_seq(parts: Seq<Seq<char>>, sep: char) -> Seq<char>
    decreases parts.len(),
{
    if parts.len() == 0 {
        Seq::<char>::empty()
    } else if parts.len() == 1 {
        parts[0]
    } else {
        join_seq(parts.drop_last(), sep) + seq![sep] + parts.last()
    }
}

/// Splitting undoes joining, for separator-free parts.
pub proof fn lemma_split_join(parts: Seq<Seq<char>>, sep: char)
    requires
        parts.len() >= 1,
        forall|i: int| 0 <= i < parts.len() ==> !(#[trigger] parts[i]).contains(sep),
    ensures
        split_seq(join_seq(parts, sep), sep) == parts,
    decreases parts.len(),
{
    if parts.len() == 1 {
        lemma_split_single(parts[0], sep);
        assert(seq![parts[0]] =~= parts);
    } else {
        let init = parts.drop_last();
        lemma_split_join(init, sep);
        let j0 = join_seq(init, sep);
        let j1 = j0 + seq![sep];
        assert(j1.drop_last() =~= j0);
        assert(split_seq(j1, sep) == split_seq(j0, sep).push(Seq::<char>::empty()));
        lemma_split_append_no_sep(j1, parts.last(), sep);
        lemma_split_len(j0, sep);
        let mid = split_seq(j0, sep).push(Seq::<char>::empty());
        assert(join_seq(parts, sep) =~= j1 + parts.last());
        assert(split_seq(join_seq(parts, sep), sep) == mid.update(
            mid.len() - 1,
            mid.last() + parts.last(),
        ));
        assert(Seq::<char>::empty() + parts.last() =~= parts.last());
        assert(mid.update(mid.len() - 1, Seq::<char>::empty() + parts.last()) =~= init.push(
            parts.last(),
        ));
        assert(init.push(parts.last()) =~= parts);
    }
}

/// Splits a string on a separator character.
pub fn split_char(s: &str, sep: char) -> (r: Vec<String>)
    ensures
        views_of(r@) == split_seq(s@, sep),
{
    let v = chars_of(s);
    let n = v.len();
    let mut parts: Vec<String> = Vec::new();
    let mut cur: Vec<char> = Vec::new();
    let mut i: usize = 0;
    while i < n
        invariant
            n == v@.len(),
            v@ == s@,
            0 <= i <= n,
            split_seq(s@.subrange(0, i as int), sep) == views_of(parts@).push(cur@),
        decreases n - i,
    {
        let c = v[i];
        proof {
            let pre = s@.subrange(0, i as int);
            let pre1 = s@.subrange(0, i + 1 as int);
            assert(pre1.drop_last() =~= pre);
            assert(pre1.last() == s@[i as int]);
            lemma_split_len(pre, sep);
        }
        if c == sep {
            let done = string_of(&cur);
            parts.push(done);
            cur = Vec::new();
            proof {
                assert(views_of(parts@) =~= split_seq(s@.subrange(0, i as int), sep));
                assert(split_seq(s@.subrange(0, i + 1 as int), sep) =~= views_of(
                    parts@,
                ).push(cur@));
            }
        } else {
            cur.push(c);
            proof {
                let old_parts = views_of(parts@);
                let prev = split_seq(s@.subrange(0, i as int), sep);
                assert(prev.last() == cur@.drop_last());
                assert(cur@.drop_last().push(s@[i as int]) =~= cur@);
                assert(split_seq(s@.subrange(0, i + 1 as int), sep) =~= old_parts.push(cur@));
            }
        }
        i = i + 1;
    }
    let done = string_of(&cur);
    parts.push(done);
    proof {
        assert(s@.subrange(0, n as int) =~= s@);
        assert(views_of(parts@) =~= split_seq(s@, sep));
    }
    parts
}

/// Joins strings with a separator character.
pub fn join_strings(parts: &Vec<String>, sep: char) -> (r: String)
    ensures
        r@ == join_seq(views_of(parts@), sep),
{
    let n = parts.len();
    let mut out = String::new();
    let mut i: usize = 0;
    while i < n
        invariant
            n == parts@.len(),
            0 <= i <= n,
            out@ == join_seq(views_of(parts@).subrange(0, i as int), sep),
        decreases n - i,
    {
        if i > 0 {
            push_char(&mut out, sep);
        }
        out.append(parts[i].as_str());
        proof {
            let vs = views_of(parts@);
            let pre1 = vs.subrange(0, i + 1 as int);
            assert(pre1.drop_last() =~= vs.subrange(0, i as int));
            assert(pre1.last() == vs[i as int]);
            if i > 0 {
                assert(out@ =~= join_seq(pre1.drop_last(), sep) + seq![sep] + pre1.last());
            } else {
                assert(out@ =~= pre1[0]);
            }
        }
        i = i + 1;
    }
    proof {
        assert(views_of(parts@).subrange(0, n as int) =~= views_of(parts@));
    }
    out
}

/// Joining with a separator string.
pub open spec fn join_with(parts: Seq<Seq<char>>, sep: Seq<char>) -> Seq<char>
    decreases parts.len(),
{
    if parts.len() == 0 {
        Seq::<char>::empty()
    } else if parts.len() == 1 {
        parts[0]
    } else {
        join_with(parts.drop_last(), sep) + sep + parts.last()
    }
}

/// Joins strings with a separator string.
pub fn join_with_strings(parts: &Vec<String>, sep: &str) -> (r: String)
    ensures
        r@ == join_with(views_of(parts@), sep@),
{
    let n = parts.len();
    let mut out = String::new();
    let mut i: usize = 0;
    while i < n
        invariant
            n == parts@.len(),
            0 <= i <= n,
            out@ == join_with(views_of(parts@).subrange(0, i as int), sep@),
        decreases n - i,
    {
        if i > 0 {
            out.append(sep);
        }
        out.append(parts[i].as_str());
        proof {
            let vs = views_of(parts@);
            let pre1 = vs.subrange(0, i + 1 as int);
            assert(pre1.drop_last() =~= vs.subrange(0, i as int));
            assert(pre1.last() == vs[i as int]);
            if i > 0 {
                assert(out@ =~= join_with(pre1.drop_last(), sep@) + sep@ + pre1.last());
            } else {
                assert(out@ =~= pre1[0]);
            }
        }
        i = i + 1;
    }
    proof {
        assert(views_of(parts@).subrange(0, n as int) =~= views_of(parts@));
    }
    out
}

/// Replacement of every non-overlapping occurrence of `pat` by `rep`,
/// scanning from the left.
pub open spec fn replace_spec(s: Seq<char>, pat: Seq<char>, rep: Seq<char>) -> Seq<char>
    decreases s.len(),
{
    if pat.len() == 0 || s.len() < pat.len() {
        s
    } else if s.subrange(0, pat.len() as int) == pat {
        rep + replace_spec(s.subrange(pat.len() as int, s.len() as int), pat, rep)
    } else {
        seq![s[0]] + replace_spec(s.subrange(1, s.len() as int), pat, rep)
    }
}

/// Replaces every occurrence of `pat` in `text` by `rep`.
pub fn replace_all(text: &str, pat: &str, rep: &str) -> (r: String)
    requires
        pat@.len() >= 1,
    ensures
        r@ == replace_spec(text@, pat@, rep@),
{
    let tv = chars_of(text);
    let pv = chars_of(pat);
    let n = tv.len();
    let m = pv.len();
    let mut out = String::new();
    let mut i: usize = 0;
    proof {
        assert(text@.subrange(0, n as int) =~= text@);
        assert(Seq::<char>::empty() + replace_spec(text@, pat@, rep@) =~= replace_spec(
            text@,
            pat@,
            rep@,
        ));
    }
    while i < n
        invariant
            n == tv@.len(),
            tv@ == text@,
            pv@ == pat@,
            m == pat@.len() >= 1,
            0 <= i <= n,
            replace_spec(text@, pat@, rep@) == out@ + replace_spec(
                text@.subrange(i as int, n as int),
                pat@,
                rep@,
            ),
        decreases n - i,
    {
        let ghost rem = text@.subrange(i as int, n as int);
        if m <= n - i && chars_match_at(&tv, &pv, i) {
            out.append(rep);
            proof {
                assert(rem.subrange(0, m as int) =~= text@.subrange(i as int, i + m as int));
                assert(text@.subrange(i as int, i + m as int) =~= pat@);
                assert(rem.subrange(m as int, rem.len() as int) =~= text@.subrange(
                    i + m as int,
                    n as int,
                ));
            }
            i = i + m;
        } else {
            push_char(&mut out, tv[i]);
            proof {
                assert(rem.len() >= 1);
                assert(rem[0] == text@[i as int]);
                if i + m <= n {
                    assert(rem.subrange(0, m as int) =~= text@.subrange(i as int, i + m as int));
                    assert(rem.subrange(0, m as int) != pat@);
                } else {
                    assert(rem.len() < m);
                }
                assert(rem.subrange(1, rem.len() as int) =~= text@.subrange(
                    i + 1 as int,
                    n as int,
                ));
                assert(seq![rem[0]] + replace_spec(rem.subrange(1, rem.len() as int), pat@, rep@)
                    =~= replace_spec(rem, pat@, rep@));
            }
            i = i + 1;
        }
    }
    proof {
        assert(text@.subrange(n as int, n as int) =~= Seq::<char>::empty());
        assert(replace_spec(Seq::<char>::empty(), pat@, rep@) =~= Seq::<char>::empty());
        assert(out@ + Seq::<char>::empty() =~= out@);
    }
    out
}

/// Filtering after a push keeps the filtered prefix and appends the new
/// element exactly when it satisfies the predicate.
pub proof fn lemma_filter_push<A>(s: Seq<A>, x: A, pred: spec_fn(A) -> bool)
    ensures
        s.push(x).filter(pred) == if pred(x) {
            s.filter(pred).push(x)
        } else {
            s.filter(pred)
        },
{
    reveal(Seq::filter);
    assert(s.push(x).drop_last() =~= s);
    assert(s.push(x).last() == x);
}

pub proof fn lemma_filter_len_le<A>(s: Seq<A>, pred: spec_fn(A) -> bool)
    ensures
        s.filter(pred).len() <= s.len(),
    decreases s.len(),
{
    reveal(Seq::filter);
    if s.len() > 0 {
        lemma_filter_len_le(s.drop_last(), pred);
    }
}

/// Filtering keeps a sequence unchanged when every element satisfies the
/// predicate.
pub proof fn lemma_filter_all<A>(s: Seq<A>, pred: spec_fn(A) -> bool)
    requires
        forall|i: int| 0 <= i < s.len() ==> pred(s[i]),
    ensures
        s.filter(pred) == s,
    decreases s.len(),
{
    reveal(Seq::filter);
    if s.len() > 0 {
        assert(forall|i: int| 0 <= i < s.drop_last().len() ==> pred(s.drop_last()[i]));
        lemma_filter_all(s.drop_last(), pred);
        assert(pred(s.last()));
        assert(s.filter(pred) =~= s);
    }
}

/// Every element of a filtered sequence occurs in the original.
pub proof fn lemma_filter_elems<A>(s: Seq<A>, pred: spec_fn(A) -> bool)
    ensures
        forall|i: int| 0 <= i < s.filter(pred).len() ==> s.contains(#[trigger] s.filter(pred)[i]),
    decreases s.len(),
{
    reveal(Seq::filter);
    if s.len() > 0 {
        lemma_filter_elems(s.drop_last(), pred);
        let f0 = s.drop_last().filter(pred);
        let f = s.filter(pred);
        assert forall|i: int| 0 <= i < f.len() implies s.contains(#[trigger] f[i]) by {
            if i < f0.len() {
                assert(s.drop_last().contains(f0[i]));
                let j = choose|j: int| 0 <= j < s.drop_last().len() && s.drop_last()[j] == f0[i];
                assert(s[j] == f[i]);
            } else {
                assert(s[s.len() - 1] == f[i]);
            }
        }
    }
}

proof fn lemma_trim_drop_first(s: Seq<char>)
    requires
        s.len() > 0,
        is_space_char(s[0]),
    ensures
        trim_spec(s) == trim_spec(s.subrange(1, s.len() as int)),
{
}

proof fn lemma_trim_drop_last(s: Seq<char>)
    requires
        s.len() > 0,
        !is_space_char(s[0]),
        is_space_char(s[s.len() - 1]),
    ensures
        trim_spec(s) == trim_spec(s.subrange(0, s.len() - 1)),
{
}

proof fn lemma_trim_of_trimmed(s: Seq<char>)
    requires
        s.len() > 0 ==> !is_space_char(s[0]),
        s.len() > 0 ==> !is_space_char(s[s.len() - 1]),
    ensures
        trim_spec(s) == s,
{
}

} // verus!
