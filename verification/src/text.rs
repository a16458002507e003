//! Character-level string operations: placeholder replacement and header
//! syntax checks, used when a secret key is injected into an outgoing
//! request.

use vstd::prelude::*;

verus! {

/// The string `s` with every occurrence of `from` replaced by `to`,
/// scanning left to right over non-overlapping matches.
///
/// An empty pattern matches before every character and at the end, so the
/// result is then `to` interleaved between all characters of `s`.  This is
/// exactly the behaviour of Rust's `str::replace`.
pub open spec fn replaced(s: Seq<char>, from: Seq<char>, to: Seq<char>) -> Seq<char>
    decreases s.len(),
{
    if from.len() == 0 {
        if s.len() == 0 {
            to
        } else {
            to + seq![s[0]] + replaced(s.skip(1), from, to)
        }
    } else if s.len() < from.len() {
        s
    } else if s.subrange(0, from.len() as int) == from {
        to + replaced(s.skip(from.len() as int), from, to)
    } else {
        seq![s[0]] + replaced(s.skip(1), from, to)
    }
}

/// `from` occurs somewhere in `s` as a contiguous subsequence.
pub open spec fn occurs_in(s: Seq<char>, from: Seq<char>) -> bool {
    exists|i: int| 0 <= i && i + from.len() <= s.len() && #[trigger] s.subrange(i, i + from.len()) == from
}

/// If the pattern never occurs in `s`, replacement leaves `s` unchanged.
///
/// An empty pattern occurs in every string, so the premise already rules it
/// out.
pub proof fn lemma_replaced_absent(s: Seq<char>, from: Seq<char>, to: Seq<char>)
    requires
        !occurs_in(s, from),
    ensures
        replaced(s, from, to) == s,
    decreases s.len(),
{
    if from.len() == 0 {
        assert(s.subrange(0, 0 + from.len() as int) =~= from);
        assert(occurs_in(s, from));
    } else if s.len() < from.len() {
    } else {
        assert(s.subrange(0, 0 + from.len() as int) == s.subrange(0, from.len() as int));
        assert(s.subrange(0, from.len() as int) != from);
        assert forall|i: int|
            0 <= i && i + from.len() <= s.skip(1).len() implies #[trigger] s.skip(1).subrange(
            i,
            i + from.len(),
        ) != from by {
            assert(s.skip(1).subrange(i, i + from.len()) =~= s.subrange(
                i + 1,
                i + 1 + from.len(),
            ));
        }
        lemma_replaced_absent(s.skip(1), from, to);
        assert(seq![s[0]] + s.skip(1) =~= s);
    }
}

/// Relies on `str::chars`: the characters of the string, in order.
#[verifier::external_body]
fn chars_of(s: &str) -> (r: Vec<char>)
    ensures
        r@ == s@,
{
    s.chars().collect()
}

/// Relies on `String::from_iter` over characters: the string whose
/// characters are exactly the given ones, in order.
#[verifier::external_body]
fn string_from_chars(v: &Vec<char>) -> (r: String)
    ensures
        r@ == v@,
{
    v.iter().collect()
}

/// Whether `from` stands at position `i` of `s`.
fn matches_at(s: &Vec<char>, from: &Vec<char>, i: usize) -> (b: bool)
    requires
        i + from@.len() <= s@.len(),
    ensures
        b == (s@.subrange(i as int, i as int + from@.len() as int) == from@),
{
    let ghost sub = s@.subrange(i as int, i as int + from@.len() as int);
    let n_s = s.len();
    let mut j: usize = 0;
    while j < from.len()
        invariant
            j <= from@.len(),
            i + from@.len() <= s@.len(),
            n_s == s@.len(),
            sub == s@.subrange(i as int, i as int + from@.len() as int),
            forall|k: int| 0 <= k < j ==> s@[i + k] == from@[k],
        decreases from@.len() - j,
    {
        if s[i + j] != from[j] {
            assert(sub[j as int] == s@[i + j]);
            return false;
        }
        j += 1;
    }
    assert(sub =~= from@);
    true
}

/// Appends every character of `src` to `out`.
fn append_all(out: &mut Vec<char>, src: &Vec<char>)
    ensures
        final(out)@ == old(out)@ + src@,
{
    let mut j: usize = 0;
    while j < src.len()
        invariant
            j <= src@.len(),
            out@ == old(out)@ + src@.subrange(0, j as int),
        decreases src@.len() - j,
    {
        out.push(src[j]);
        assert(old(out)@ + src@.subrange(0, j as int) + seq![src@[j as int]] =~= old(out)@
            + src@.subrange(0, j + 1));
        j += 1;
    }
    assert(old(out)@ + src@.subrange(0, src@.len() as int) =~= old(out)@ + src@);
}

/// Replaces, left to right, every occurrence of `from` in `s` by `to`.
fn replace_chars(s: &Vec<char>, from: &Vec<char>, to: &Vec<char>) -> (r: Vec<char>)
    ensures
        r@ == replaced(s@, from@, to@),
{
    let mut out: Vec<char> = Vec::new();
    let n = s.len();
    proof {
        assert(s@.skip(0) =~= s@);
        assert(Seq::<char>::empty() + replaced(s@, from@, to@) =~= replaced(s@, from@, to@));
    }
    if from.len() == 0 {
        let mut i: usize = 0;
        while i < n
            invariant
                i <= n,
                n == s@.len(),
                from@.len() == 0,
                replaced(s@, from@, to@) == out@ + replaced(s@.skip(i as int), from@, to@),
            decreases n - i,
        {
            let ghost out0 = out@;
            append_all(&mut out, to);
            out.push(s[i]);
            proof {
                assert(s@.skip(i as int)[0] == s@[i as int]);
                assert(s@.skip(i as int).skip(1) =~= s@.skip(i + 1));
                let rest = replaced(s@.skip(i + 1), from@, to@);
                assert(out0 + (to@ + seq![s@[i as int]] + rest) =~= ((out0 + to@).push(
                    s@[i as int],
                ) + rest));
            }
            i += 1;
        }
        append_all(&mut out, to);
        proof {
            assert(s@.skip(n as int) =~= Seq::<char>::empty());
        }
        out
    } else {
        let m = from.len();
        let mut i: usize = 0;
        if m <= n {
            while i <= n - m
                invariant
                    i <= n,
                    m <= n,
                    n == s@.len(),
                    m == from@.len(),
                    m >= 1,
                    replaced(s@, from@, to@) == out@ + replaced(s@.skip(i as int), from@, to@),
                decreases n - i,
            {
                proof {
                    assert(s@.skip(i as int).subrange(0, m as int) =~= s@.subrange(
                        i as int,
                        i as int + m as int,
                    ));
                }
                if matches_at(s, from, i) {
                    let ghost out0 = out@;
                    append_all(&mut out, to);
                    proof {
                        assert(s@.skip(i as int).skip(m as int) =~= s@.skip(i + m));
                        let rest = replaced(s@.skip(i + m), from@, to@);
                        assert(out0 + (to@ + rest) =~= (out0 + to@) + rest);
                    }
                    i += m;
                } else {
                    let ghost out0 = out@;
                    out.push(s[i]);
                    proof {
                        assert(s@.skip(i as int)[0] == s@[i as int]);
                        assert(s@.skip(i as int).skip(1) =~= s@.skip(i + 1));
                        let rest = replaced(s@.skip(i + 1), from@, to@);
                        assert(out0 + (seq![s@[i as int]] + rest) =~= out0.push(s@[i as int]) + rest);
                    }
                    i += 1;
                }
            }
        }
        proof {
            assert(s@.skip(i as int).len() < m);
        }
        while i < n
            invariant
                i <= n,
                n == s@.len(),
                replaced(s@, from@, to@) == out@ + s@.skip(i as int),
            decreases n - i,
        {
            let ghost out0 = out@;
            out.push(s[i]);
            proof {
                assert(s@.skip(i as int) =~= seq![s@[i as int]] + s@.skip(i + 1));
                assert(out0 + (seq![s@[i as int]] + s@.skip(i + 1)) =~= out0.push(s@[i as int])
                    + s@.skip(i + 1));
            }
            i += 1;
        }
        proof {
            assert(out@ + s@.skip(n as int) =~= out@);
        }
        out
    }
}

/// The string `s` with every occurrence of `from` replaced by `to`.
pub fn replace_all(s: &str, from: &str, to: &str) -> (r: String)
    ensures
        r@ == replaced(s@, from@, to@),
{
    let sc = chars_of(s);
    let fc = chars_of(from);
    let tc = chars_of(to);
    let out = replace_chars(&sc, &fc, &tc);
    string_from_chars(&out)
}

/// A character allowed in an HTTP header name: a letter, a digit, or one of
/// the token symbols of RFC 7230.
pub open spec fn is_header_name_char(c: char) -> bool {
    let u = c as u32;
    (97 <= u && u <= 122) || (65 <= u && u <= 90) || (48 <= u && u <= 57) || c == '!' || c == '#'
        || c == '$' || c == '%' || c == '&' || c == '\'' || c == '*' || c == '+' || c == '-' || c
        == '.' || c == '^' || c == '_' || c == '`' || c == '|' || c == '~'
}

/// A syntactically valid HTTP header name: non-empty, token characters only.
pub open spec fn valid_header_name(s: Seq<char>) -> bool {
    s.len() > 0 && forall|i: int| 0 <= i < s.len() ==> is_header_name_char(#[trigger] s[i])
}

/// A character allowed in an HTTP header value: horizontal tab, space, or
/// visible ASCII.
pub open spec fn is_header_value_char(c: char) -> bool {
    let u = c as u32;
    c == '\t' || (32 <= u && u <= 126)
}

/// Syntactically valid HTTP header value content.
pub open spec fn valid_header_value(s: Seq<char>) -> bool {
    forall|i: int| 0 <= i < s.len() ==> is_header_value_char(#[trigger] s[i])
}

fn check_header_name_char(c: char) -> (b: bool)
    ensures
        b == is_header_name_char(c),
{
    let u = c as u32;
    (97 <= u && u <= 122) || (65 <= u && u <= 90) || (48 <= u && u <= 57) || c == '!' || c == '#'
        || c == '$' || c == '%' || c == '&' || c == '\'' || c == '*' || c == '+' || c == '-' || c
        == '.' || c == '^' || c == '_' || c == '`' || c == '|' || c == '~'
}

/// Whether `s` can serve as an HTTP header name.
pub fn is_valid_header_name(s: &str) -> (b: bool)
    ensures
        b == valid_header_name(s@),
{
    let cs = chars_of(s);
    if cs.len() == 0 {
        return false;
    }
    let mut i: usize = 0;
    while i < cs.len()
        invariant
            i <= cs@.len(),
            cs@ == s@,
            forall|k: int| 0 <= k < i ==> is_header_name_char(#[trigger] s@[k]),
        decreases cs@.len() - i,
    {
        if !check_header_name_char(cs[i]) {
            return false;
        }
        i += 1;
    }
    true
}

/// Whether `s` can serve as HTTP header value content.
pub fn is_valid_header_value(s: &str) -> (b: bool)
    ensures
        b == valid_header_value(s@),
{
    let cs = chars_of(s);
    let mut i: usize = 0;
    while i < cs.len()
        invariant
            i <= cs@.len(),
            cs@ == s@,
            forall|k: int| 0 <= k < i ==> is_header_value_char(#[trigger] s@[k]),
        decreases cs@.len() - i,
    {
        let c = cs[i];
        let u = c as u32;
        if !(c == '\t' || (32 <= u && u <= 126)) {
            return false;
        }
        i += 1;
    }
    true
}

} // verus!
