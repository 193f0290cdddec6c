//! Sequence numbers are 32-bit counters compared on a ring: these functions
//! decide circular order and interval membership under wraparound.
use vstd::prelude::*;

verus! {

/// The ring size of 32-bit sequence numbers.
pub open spec fn ring() -> int {
    0x1_0000_0000
}

/// Forward distance on the ring from `a` to `b`, in `[0, 2^32)`.
pub open spec fn dist(a: u32, b: u32) -> int {
    if a <= b {
        b - a
    } else {
        b - a + ring()
    }
}

/// `a` is circularly before `b`: the wrapped difference `a - b` has its high
/// bit set.
pub open spec fn before(a: u32, b: u32) -> bool {
    dist(b, a) >= 0x8000_0000
}

/// `x` lies strictly inside the arc that runs forward from `s` to `e`; when
/// `s == e` the arc is the whole ring but `s` itself.
pub open spec fn in_open_arc(s: u32, x: u32, e: u32) -> bool {
    0 < dist(s, x) && (s == e || dist(s, x) < dist(s, e))
}

/// `x` lies in the arc `(s, e]`; when `s == e` that is the whole ring but `s`.
pub open spec fn in_arc_open_closed(s: u32, x: u32, e: u32) -> bool {
    if s == e {
        x != s
    } else {
        0 < dist(s, x) && dist(s, x) <= dist(s, e)
    }
}

/// `x` lies in the arc `[s, e)`; when `s == e` that is the whole ring but `s`.
pub open spec fn in_arc_closed_open(s: u32, x: u32, e: u32) -> bool {
    if s == e {
        x != s
    } else {
        dist(s, x) < dist(s, e)
    }
}

/// Membership of `x` in the arc `(s, e]` (an acceptable acknowledgment number
/// when `s` is the oldest unacknowledged byte and `e` the next byte to send).
pub fn s_lt_x_lte_e_wrapping(s: u32, x: u32, e: u32) -> (r: bool)
    ensures
        r == in_arc_open_closed(s, x, e),
{
    let (at_end, off_start) = (x == e, x != s);
    (at_end && off_start) || s_lt_x_lt_e_wrapping(s, x, e)
}

/// Membership of `x` in the arc `[s, e)` (a sequence number inside the
/// receive window when `s` is the next expected byte and `e` the window end).
pub fn s_lte_x_lt_e_wrapping(s: u32, x: u32, e: u32) -> (r: bool)
    ensures
        r == in_arc_closed_open(s, x, e),
{
    let (at_start, off_end) = (x == s, x != e);
    (at_start && off_end) || s_lt_x_lt_e_wrapping(s, x, e)
}

/// Membership of `x` in the open arc `(s, e)`, decided from the three plain
/// comparisons: with `s < e` the arc does not wrap, otherwise it does.
pub fn s_lt_x_lt_e_wrapping(s: u32, x: u32, e: u32) -> (r: bool)
    ensures
        r == in_open_arc(s, x, e),
{
    let (a, b, c) = (s < x, x < e, s < e);
    (a && (b == c)) || (!a && b && !c)
}

/// Circular "before": `lhs - rhs`, wrapped, has its high bit set.
pub fn wrapping_lt(lhs: u32, rhs: u32) -> (r: bool)
    ensures
        r == before(lhs, rhs),
{
    lhs.wrapping_sub(rhs) >= 0x8000_0000
}

/// `x` is circularly after `start` and before `end`, and `start` is before
/// `end`; this excludes the degenerate case `start == end`.
pub fn is_between_wrapped(start: u32, x: u32, end: u32) -> (r: bool)
    ensures
        r == (before(start, x) && before(x, end) && before(start, end)),
{
    wrapping_lt(start, x) && wrapping_lt(x, end) && wrapping_lt(start, end)
}

/// Circular order is antisymmetric for distinct counters, except for two
/// counters exactly half the ring apart, where each is before the other.
pub proof fn lemma_before_antisymmetric(s: u32, e: u32)
    requires
        s != e,
        dist(s, e) != 0x8000_0000,
    ensures
        before(s, e) != before(e, s),
{
}

/// Being strictly between two counters in circular order puts a counter in
/// the open arc between them.
pub proof fn lemma_between_in_open_arc(s: u32, x: u32, e: u32)
    requires
        before(s, x) && before(x, e) && before(s, e),
    ensures
        in_open_arc(s, x, e),
{
}

} // verus!
