//! Splitting text at each occurrence of a delimiter. Positions are counted in
//! characters.
use vstd::prelude::*;

verus! {

/// `needle` occurs in `s` at character position `i`.
pub open spec fn occurs_at(s: Seq<char>, needle: Seq<char>, i: int) -> bool {
    0 <= i && i + needle.len() <= s.len() && s.subrange(i, i + needle.len()) == needle
}

/// The first position at which `needle` occurs in `s`, if any.
pub open spec fn first_occurrence(s: Seq<char>, needle: Seq<char>) -> Option<int> {
    if exists|i: int| occurs_at(s, needle, i) {
        Some(choose|i: int| occurs_at(s, needle, i) && forall|j: int| 0 <= j < i ==> !occurs_at(s, needle, j))
    } else {
        None
    }
}

/// The span `(start, end)` of the first occurrence of `needle` in `s`.
pub open spec fn first_span(s: Seq<char>, needle: Seq<char>) -> Option<(int, int)> {
    match first_occurrence(s, needle) {
        Some(i) => Some((i, i + needle.len())),
        None => None,
    }
}

/// A minimal occurrence is the first one.
proof fn lemma_first_occurrence(s: Seq<char>, needle: Seq<char>, i: int)
    requires
        occurs_at(s, needle, i),
        forall|j: int| 0 <= j < i ==> !occurs_at(s, needle, j),
    ensures
        first_occurrence(s, needle) == Some(i),
{
    let k = choose|k: int| occurs_at(s, needle, k) && forall|j: int| 0 <= j < k ==> !occurs_at(s, needle, j);
    assert(occurs_at(s, needle, k) && forall|j: int| 0 <= j < k ==> !occurs_at(s, needle, j));
    if k < i {
        assert(!occurs_at(s, needle, k));
    } else if i < k {
        assert(!occurs_at(s, needle, i));
    }
}

/// Position of the first occurrence of `needle` in `s`.
fn find_seq(s: &str, needle: &str) -> (r: Option<usize>)
    ensures
        r matches Some(i) ==> first_occurrence(s@, needle@) == Some(i as int) && i + needle@.len() <= s@.len(),
        r is None ==> first_occurrence(s@, needle@) is None,
{
    let slen = s.unicode_len();
    let nlen = needle.unicode_len();
    if nlen > slen {
        proof {
            assert forall|i: int| !occurs_at(s@, needle@, i) by {}
        }
        return None;
    }
    let mut i: usize = 0;
    while i <= slen - nlen
        invariant
            slen == s@.len(),
            nlen == needle@.len(),
            nlen <= slen,
            i <= slen - nlen + 1,
            forall|j: int| 0 <= j < i ==> !occurs_at(s@, needle@, j),
        decreases slen - nlen + 1 - i,
    {
        let mut k: usize = 0;
        while k < nlen && s.get_char(i + k) == needle.get_char(k)
            invariant
                slen == s@.len(),
                nlen == needle@.len(),
                i + nlen <= slen,
                k <= nlen,
                forall|m: int| 0 <= m < k ==> s@[i + m] == needle@[m],
            decreases nlen - k,
        {
            k += 1;
        }
        if k == nlen {
            proof {
                assert(s@.subrange(i as int, i + nlen) =~= needle@);
                lemma_first_occurrence(s@, needle@, i as int);
            }
            return Some(i);
        }
        proof {
            if occurs_at(s@, needle@, i as int) {
                assert(s@.subrange(i as int, i + nlen)[k as int] == s@[i + k]);
            }
        }
        i += 1;
    }
    proof {
        assert forall|j: int| !occurs_at(s@, needle@, j) by {
            if 0 <= j && j + nlen <= slen {
                assert(j < i);
            }
        }
    }
    None
}

/// Position of the first occurrence of `c` in `s`.
fn find_char(s: &str, c: char) -> (r: Option<usize>)
    ensures
        r matches Some(i) ==> first_occurrence(s@, seq![c]) == Some(i as int) && i < s@.len(),
        r is None ==> first_occurrence(s@, seq![c]) is None,
{
    let slen = s.unicode_len();
    let mut i: usize = 0;
    while i < slen
        invariant
            slen == s@.len(),
            i <= slen,
            forall|j: int| 0 <= j < i ==> !occurs_at(s@, seq![c], j),
        decreases slen - i,
    {
        if s.get_char(i) == c {
            proof {
                assert(s@.subrange(i as int, i + 1) =~= seq![c]);
                lemma_first_occurrence(s@, seq![c], i as int);
            }
            return Some(i);
        }
        proof {
            if occurs_at(s@, seq![c], i as int) {
                assert(s@.subrange(i as int, i + 1)[0] == s@[i as int]);
            }
        }
        i += 1;
    }
    proof {
        assert forall|j: int| !occurs_at(s@, seq![c], j) by {
            if 0 <= j && j + 1 <= slen {
                assert(j < i);
            }
        }
    }
    None
}

/// Something that can be found inside text.
pub trait Delimiter {
    /// The span `(start, end)` of the next occurrence in `s`, if any.
    spec fn spec_find_next(&self, s: Seq<char>) -> Option<(int, int)>;

    /// Finds the span `(start, end)`, in character positions, of the next
    /// occurrence in `s`.
    fn find_next(&self, s: &str) -> (r: Option<(usize, usize)>)
        ensures
            r matches Some(p) ==> self.spec_find_next(s@) == Some((p.0 as int, p.1 as int)) && p.0 <= p.1
                <= s@.len(),
            r is None ==> self.spec_find_next(s@) is None,
    ;
}

impl Delimiter for &str {
    open spec fn spec_find_next(&self, s: Seq<char>) -> Option<(int, int)> {
        first_span(s, (*self)@)
    }

    fn find_next(&self, s: &str) -> (r: Option<(usize, usize)>) {
        let (len, needle_len) = (s.unicode_len(), self.unicode_len());
        match find_seq(s, *self) {
            Some(start) => {
                assert(start + needle_len <= len);
                Some((start, start + needle_len))
            },
            None => None,
        }
    }
}

impl Delimiter for char {
    open spec fn spec_find_next(&self, s: Seq<char>) -> Option<(int, int)> {
        first_span(s, seq![*self])
    }

    fn find_next(&self, s: &str) -> (r: Option<(usize, usize)>) {
        let len = s.unicode_len();
        match find_char(s, *self) {
            Some(pos) => {
                assert(pos < len);
                Some((pos, pos + 1))
            },
            None => None,
        }
    }
}

/// The pieces of a text between the occurrences of a delimiter, handed out
/// one at a time by `next`.
pub struct StrSplit<'a, D> {
    remainder: Option<&'a str>,
    delimiter: D,
}

impl<'a, D> StrSplit<'a, D> {
    /// The text not yet handed out, or `None` once the last piece is out.
    pub closed spec fn rest(&self) -> Option<Seq<char>> {
        match self.remainder {
            Some(r) => Some(r@),
            None => None,
        }
    }

    /// The delimiter split at.
    pub closed spec fn delim(&self) -> D {
        self.delimiter
    }

    /// Splits `haystack` at each occurrence of `delimiter`.
    pub fn new(haystack: &'a str, delimiter: D) -> (r: Self)
        ensures
            r.rest() == Some(haystack@),
            r.delim() == delimiter,
    {
        StrSplit { remainder: Some(haystack), delimiter }
    }
}

impl<'a, D: Delimiter> StrSplit<'a, D> {
    /// The next piece: the text up to the next delimiter, or all that is
    /// left where none follows; `None` once that last piece is out.
    pub fn next(&mut self) -> (r: Option<&'a str>)
        ensures
            final(self).delim() == old(self).delim(),
            match old(self).rest() {
                None => r is None && final(self).rest() is None,
                Some(rest) => match old(self).delim().spec_find_next(rest) {
                    Some((a, b)) => r matches Some(item) && item@ == rest.subrange(0, a)
                        && final(self).rest() == Some(rest.subrange(b, rest.len() as int)),
                    None => r matches Some(item) && item@ == rest && final(self).rest() is None,
                },
            },
    {
        match self.remainder {
            None => None,
            Some(remainder) => {
                match self.delimiter.find_next(remainder) {
                    Some((delim_start, delim_end)) => {
                        let len = remainder.unicode_len();
                        let item = remainder.substring_char(0, delim_start);
                        self.remainder = Some(remainder.substring_char(delim_end, len));
                        Some(item)
                    },
                    None => {
                        self.remainder = None;
                        Some(remainder)
                    },
                }
            },
        }
    }
}

} // verus!
