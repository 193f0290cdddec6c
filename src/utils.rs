//! Prefix scanners over text: each splits its input into what it took from
//! the front and the remainder, returned as `(remainder, taken)`.
use vstd::prelude::*;

verus! {

/// `c` is an ASCII decimal digit.
pub open spec fn is_digit(c: char) -> bool {
    '0' <= c && c <= '9'
}

/// `c` is a blank between tokens: a space or a newline.
pub open spec fn is_blank(c: char) -> bool {
    c == ' ' || c == '\n'
}

/// `c` is an ASCII letter.
pub open spec fn is_letter(c: char) -> bool {
    ('a' <= c && c <= 'z') || ('A' <= c && c <= 'Z')
}

/// `c` is an ASCII letter or digit.
pub open spec fn is_letter_or_digit(c: char) -> bool {
    is_letter(c) || is_digit(c)
}

/// Decides `is_digit`.
pub fn digit(c: char) -> (b: bool)
    ensures
        b == is_digit(c),
{
    '0' <= c && c <= '9'
}

/// Decides `is_blank`.
pub fn blank(c: char) -> (b: bool)
    ensures
        b == is_blank(c),
{
    c == ' ' || c == '\n'
}

/// Decides `is_letter`.
pub fn letter(c: char) -> (b: bool)
    ensures
        b == is_letter(c),
{
    ('a' <= c && c <= 'z') || ('A' <= c && c <= 'Z')
}

/// Decides `is_letter_or_digit`.
pub fn letter_or_digit(c: char) -> (b: bool)
    ensures
        b == is_letter_or_digit(c),
{
    letter(c) || digit(c)
}

/// Length of the longest prefix of `s` whose characters all satisfy `p`.
pub open spec fn prefix_len(s: Seq<char>, p: spec_fn(char) -> bool) -> nat
    decreases s.len(),
{
    if s.len() == 0 || !p(s[0]) {
        0
    } else {
        1 + prefix_len(s.drop_first(), p)
    }
}

/// `(rest, taken)` splits `s` after its longest prefix whose characters all
/// satisfy `p`.
pub open spec fn longest_split(s: Seq<char>, rest: Seq<char>, taken: Seq<char>, p: spec_fn(char) -> bool) -> bool {
    &&& taken == s.take(prefix_len(s, p) as int)
    &&& rest == s.skip(prefix_len(s, p) as int)
}

/// A prefix whose characters all satisfy `p`, followed by the end of `s` or
/// by a character that does not, is the longest such prefix.
pub proof fn lemma_prefix_len(s: Seq<char>, n: int, p: spec_fn(char) -> bool)
    requires
        0 <= n <= s.len(),
        forall|i: int| 0 <= i < n ==> p(#[trigger] s[i]),
        n < s.len() ==> !p(s[n]),
    ensures
        prefix_len(s, p) == n,
    decreases n,
{
    if n > 0 {
        let t = s.drop_first();
        assert forall|i: int| 0 <= i < n - 1 implies p(#[trigger] t[i]) by {
            assert(t[i] == s[i + 1]);
        }
        if n < s.len() {
            assert(t[n - 1] == s[n]);
        }
        lemma_prefix_len(t, n - 1, p);
    }
}

/// Every character of the longest prefix satisfies `p`.
pub proof fn lemma_prefix_chars(s: Seq<char>, p: spec_fn(char) -> bool)
    ensures
        prefix_len(s, p) <= s.len(),
        forall|i: int| 0 <= i < prefix_len(s, p) ==> p(#[trigger] s[i]),
    decreases s.len(),
{
    if s.len() > 0 && p(s[0]) {
        let t = s.drop_first();
        lemma_prefix_chars(t, p);
        assert forall|i: int| 0 <= i < prefix_len(s, p) implies p(#[trigger] s[i]) by {
            if i > 0 {
                assert(s[i] == t[i - 1]);
            }
        }
    }
}

/// Splitting where the longest prefix ends gives the longest split.
pub proof fn lemma_longest_split(s: Seq<char>, rest: Seq<char>, taken: Seq<char>, p: spec_fn(char) -> bool)
    requires
        taken.len() <= s.len(),
        taken == s.subrange(0, taken.len() as int),
        rest == s.subrange(taken.len() as int, s.len() as int),
        forall|i: int| 0 <= i < taken.len() ==> p(#[trigger] s[i]),
        taken.len() < s.len() ==> !p(s[taken.len() as int]),
    ensures
        longest_split(s, rest, taken, p),
{
    lemma_prefix_len(s, taken.len() as int, p);
}

/// Splits off the longest prefix of `s` whose characters `accept` takes.
pub fn take_while<'a, F: Fn(char) -> bool>(accept: F, s: &'a str) -> (r: (&'a str, &'a str))
    requires
        forall|c: char| accept.requires((c,)),
    ensures
        r.1@.len() <= s@.len(),
        r.1@ == s@.subrange(0, r.1@.len() as int),
        r.0@ == s@.subrange(r.1@.len() as int, s@.len() as int),
        forall|i: int| 0 <= i < r.1@.len() ==> accept.ensures((#[trigger] s@[i],), true),
        r.1@.len() < s@.len() ==> accept.ensures((s@[r.1@.len() as int],), false),
{
    let len = s.unicode_len();
    let mut end: usize = 0;
    while end < len
        invariant
            len == s@.len(),
            end <= len,
            forall|c: char| accept.requires((c,)),
            forall|i: int| 0 <= i < end ==> accept.ensures((#[trigger] s@[i],), true),
        ensures
            end <= len,
            end < len ==> accept.ensures((s@[end as int],), false),
            forall|i: int| 0 <= i < end ==> accept.ensures((#[trigger] s@[i],), true),
        decreases len - end,
    {
        let c = s.get_char(end);
        if !accept(c) {
            break;
        }
        end += 1;
    }
    (s.substring_char(end, len), s.substring_char(0, end))
}

/// As `take_while`, but taking nothing is an error, reported as `error_msg`.
pub fn take_while1<'a, F: Fn(char) -> bool>(accept: F, s: &'a str, error_msg: String) -> (r: Result<(&'a str, &'a str), String>)
    requires
        forall|c: char| accept.requires((c,)),
    ensures
        r matches Ok(p) ==> {
            &&& 0 < p.1@.len() <= s@.len()
            &&& p.1@ == s@.subrange(0, p.1@.len() as int)
            &&& p.0@ == s@.subrange(p.1@.len() as int, s@.len() as int)
            &&& forall|i: int| 0 <= i < p.1@.len() ==> accept.ensures((#[trigger] s@[i],), true)
            &&& p.1@.len() < s@.len() ==> accept.ensures((s@[p.1@.len() as int],), false)
        },
        r matches Err(e) ==> e == error_msg && (s@.len() == 0 || accept.ensures((s@[0],), false)),
{
    let (remainder, extracted) = take_while(accept, s);
    if extracted.unicode_len() == 0 {
        Err(error_msg)
    } else {
        Ok((remainder, extracted))
    }
}

/// Splits off the leading ASCII digits; there must be at least one.
pub fn extract_digits(s: &str) -> (r: Result<(&str, &str), String>)
    ensures
        r is Ok <==> s@.len() > 0 && is_digit(s@[0]),
        r matches Ok(p) ==> longest_split(s@, p.0@, p.1@, |c: char| is_digit(c)),
        r matches Err(e) ==> e@ == "expected digits"@,
{
    let r = take_while1(digit, s, "expected digits".to_string());
    proof {
        if let Ok(p) = r {
            lemma_longest_split(s@, p.0@, p.1@, |c: char| is_digit(c));
        }
    }
    r
}

/// Splits off the leading spaces and newlines.
pub fn extract_whitespace(s: &str) -> (r: (&str, &str))
    ensures
        longest_split(s@, r.0@, r.1@, |c: char| is_blank(c)),
{
    let r = take_while(blank, s);
    proof {
        lemma_longest_split(s@, r.0@, r.1@, |c: char| is_blank(c));
    }
    r
}

/// Splits off the leading spaces and newlines; there must be at least one.
pub fn extract_whitespace1(s: &str) -> (r: Result<(&str, &str), String>)
    ensures
        r is Ok <==> s@.len() > 0 && is_blank(s@[0]),
        r matches Ok(p) ==> longest_split(s@, p.0@, p.1@, |c: char| is_blank(c)),
        r matches Err(e) ==> e@ == "expected a space"@,
{
    let r = take_while1(blank, s, "expected a space".to_string());
    proof {
        if let Ok(p) = r {
            lemma_longest_split(s@, p.0@, p.1@, |c: char| is_blank(c));
        }
    }
    r
}

/// Splits off an identifier: an ASCII letter followed by ASCII letters and
/// digits.
pub fn extract_ident(s: &str) -> (r: Result<(&str, &str), String>)
    ensures
        r is Ok <==> s@.len() > 0 && is_letter(s@[0]),
        r matches Ok(p) ==> longest_split(s@, p.0@, p.1@, |c: char| is_letter_or_digit(c)),
        r matches Err(e) ==> e@ == "expected identifier"@,
{
    let starts_with_alphabetic = s.unicode_len() > 0 && letter(s.get_char(0));
    if starts_with_alphabetic {
        let r = take_while(letter_or_digit, s);
        proof {
            lemma_longest_split(s@, r.0@, r.1@, |c: char| is_letter_or_digit(c));
        }
        Ok(r)
    } else {
        Err("expected identifier".to_string())
    }
}

/// Strips `prefix` off the front of `s`; `s` must start with it.
pub fn tag<'a, 'b>(prefix: &'a str, s: &'b str) -> (r: Result<&'b str, String>)
    ensures
        r is Ok <==> prefix@.len() <= s@.len() && s@.subrange(0, prefix@.len() as int) == prefix@,
        r matches Ok(rest) ==> rest@ == s@.subrange(prefix@.len() as int, s@.len() as int),
        r matches Err(e) ==> e@ == "expected "@ + prefix@,
{
    let plen = prefix.unicode_len();
    let slen = s.unicode_len();
    let mut matched = plen <= slen;
    let mut i: usize = 0;
    while matched && i < plen
        invariant
            plen == prefix@.len(),
            slen == s@.len(),
            i <= plen,
            matched ==> plen <= slen,
            matched ==> forall|k: int| 0 <= k < i ==> s@[k] == prefix@[k],
            !matched ==> !(plen <= slen && s@.subrange(0, plen as int) == prefix@),
        decreases plen - i,
    {
        if s.get_char(i) != prefix.get_char(i) {
            matched = false;
            proof {
                if plen <= slen && s@.subrange(0, plen as int) == prefix@ {
                    assert(s@.subrange(0, plen as int)[i as int] == s@[i as int]);
                }
            }
        }
        i += 1;
    }
    if matched {
        proof {
            assert(s@.subrange(0, plen as int) =~= prefix@);
        }
        Ok(s.substring_char(plen, slen))
    } else {
        let mut e = "expected ".to_string();
        e.append(prefix);
        Err(e)
    }
}

} // verus!
