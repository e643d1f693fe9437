use std::cmp::Ordering;
use vstd::prelude::*;

verus! {

/// A value that can bound an interval: an integer of at most 64 bits.
///
/// Every endpoint has a mathematical value, and can be widened losslessly to
/// `i128`, which is where comparisons and interval lengths are computed.
pub trait IntervalEndpoint: Copy {
    spec fn value(&self) -> int;

    fn to_wide(&self) -> (r: i128)
        ensures
            r as int == self.value(),
            -0x8000_0000_0000_0000 <= r <= 0xFFFF_FFFF_FFFF_FFFF,
    ;
}

impl IntervalEndpoint for i8 {
    open spec fn value(&self) -> int {
        *self as int
    }

    fn to_wide(&self) -> (r: i128) {
        *self as i128
    }
}

impl IntervalEndpoint for i16 {
    open spec fn value(&self) -> int {
        *self as int
    }

    fn to_wide(&self) -> (r: i128) {
        *self as i128
    }
}

impl IntervalEndpoint for i32 {
    open spec fn value(&self) -> int {
        *self as int
    }

    fn to_wide(&self) -> (r: i128) {
        *self as i128
    }
}

impl IntervalEndpoint for i64 {
    open spec fn value(&self) -> int {
        *self as int
    }

    fn to_wide(&self) -> (r: i128) {
        *self as i128
    }
}

impl IntervalEndpoint for u8 {
    open spec fn value(&self) -> int {
        *self as int
    }

    fn to_wide(&self) -> (r: i128) {
        *self as i128
    }
}

impl IntervalEndpoint for u16 {
    open spec fn value(&self) -> int {
        *self as int
    }

    fn to_wide(&self) -> (r: i128) {
        *self as i128
    }
}

impl IntervalEndpoint for u32 {
    open spec fn value(&self) -> int {
        *self as int
    }

    fn to_wide(&self) -> (r: i128) {
        *self as i128
    }
}

impl IntervalEndpoint for u64 {
    open spec fn value(&self) -> int {
        *self as int
    }

    fn to_wide(&self) -> (r: i128) {
        *self as i128
    }
}

pub open spec fn digit_char(d: nat) -> char {
    if d == 0 {
        '0'
    } else if d == 1 {
        '1'
    } else if d == 2 {
        '2'
    } else if d == 3 {
        '3'
    } else if d == 4 {
        '4'
    } else if d == 5 {
        '5'
    } else if d == 6 {
        '6'
    } else if d == 7 {
        '7'
    } else if d == 8 {
        '8'
    } else {
        '9'
    }
}

/// The decimal digits of `n`, most significant first, without leading zeros.
pub open spec fn digits(n: nat) -> Seq<char>
    decreases n,
{
    if n < 10 {
        seq![digit_char(n)]
    } else {
        digits(n / 10) + seq![digit_char(n % 10)]
    }
}

/// The decimal text of an integer, with a leading `-` when it is negative.
pub open spec fn decimal_text(v: int) -> Seq<char> {
    if v < 0 {
        seq!['-'] + digits((-v) as nat)
    } else {
        digits(v as nat)
    }
}

fn digit_str(d: u128) -> (r: &'static str)
    requires
        d < 10,
    ensures
        r@ == seq![digit_char(d as nat)],
{
    if d == 0 {
        proof { reveal_strlit("0"); }
        "0"
    } else if d == 1 {
        proof { reveal_strlit("1"); }
        "1"
    } else if d == 2 {
        proof { reveal_strlit("2"); }
        "2"
    } else if d == 3 {
        proof { reveal_strlit("3"); }
        "3"
    } else if d == 4 {
        proof { reveal_strlit("4"); }
        "4"
    } else if d == 5 {
        proof { reveal_strlit("5"); }
        "5"
    } else if d == 6 {
        proof { reveal_strlit("6"); }
        "6"
    } else if d == 7 {
        proof { reveal_strlit("7"); }
        "7"
    } else if d == 8 {
        proof { reveal_strlit("8"); }
        "8"
    } else {
        proof { reveal_strlit("9"); }
        "9"
    }
}

fn append_digits(out: &mut String, n: u128)
    ensures
        final(out)@ == old(out)@ + digits(n as nat),
    decreases n,
{
    if n >= 10 {
        append_digits(out, n / 10);
    }
    out.append(digit_str(n % 10));
    proof {
        assert(out@ =~= old(out)@ + digits(n as nat));
    }
}

/// Appends the decimal text of `v` to `out`.
fn append_decimal(out: &mut String, v: i128)
    requires
        -0x8000_0000_0000_0000 <= v,
    ensures
        final(out)@ == old(out)@ + decimal_text(v as int),
{
    if v < 0 {
        out.append("-");
        proof { reveal_strlit("-"); }
        append_digits(out, (0 - v) as u128);
        proof {
            assert(out@ =~= old(out)@ + decimal_text(v as int));
        }
    } else {
        append_digits(out, v as u128);
    }
}

/// Where a boundary test on one side compares the point: the endpoint's value
/// when it is present, else the point itself.
pub open spec fn bound_or_point<T: IntervalEndpoint>(e: Option<T>, p: int) -> int {
    match e {
        Some(v) => v.value(),
        None => p,
    }
}

/// An interval over integer endpoints, with independent closure and infinity
/// flags on each side. An infinite side ignores its endpoint, which may then be
/// absent.
pub struct Interval<T> {
    pub start: Option<T>,
    pub end: Option<T>,
    pub is_left_closed: bool,
    pub is_right_closed: bool,
    pub is_left_infinite: bool,
    pub is_right_infinite: bool,
}

impl<T: IntervalEndpoint> Interval<T> {
    pub open spec fn infinite(&self) -> bool {
        self.is_left_infinite || self.is_right_infinite
    }

    /// Whether the left side rules out point `p`.
    pub open spec fn left_excludes(&self, p: int) -> bool {
        &&& !self.is_left_infinite
        &&& if self.is_left_closed {
            p < bound_or_point(self.start, p)
        } else {
            p <= bound_or_point(self.start, p)
        }
    }

    /// Whether the right side rules out point `p`.
    pub open spec fn right_excludes(&self, p: int) -> bool {
        &&& !self.is_right_infinite
        &&& if self.is_right_closed {
            p > bound_or_point(self.end, p)
        } else {
            p >= bound_or_point(self.end, p)
        }
    }

    pub open spec fn contains(&self, p: int) -> bool {
        !self.left_excludes(p) && !self.right_excludes(p)
    }

    pub open spec fn has_flags(
        &self,
        left_closed: bool,
        right_closed: bool,
        left_infinite: bool,
        right_infinite: bool,
    ) -> bool {
        &&& self.is_left_closed == left_closed
        &&& self.is_right_closed == right_closed
        &&& self.is_left_infinite == left_infinite
        &&& self.is_right_infinite == right_infinite
    }

    /// Builds an interval from its parts, without checking that the infinity
    /// flags agree with which endpoints are present.
    pub fn new(
        start: Option<T>,
        end: Option<T>,
        is_left_closed: bool,
        is_right_closed: bool,
        is_left_infinite: bool,
        is_right_infinite: bool,
    ) -> (r: Self)
        ensures
            r.start == start,
            r.end == end,
            r.has_flags(is_left_closed, is_right_closed, is_left_infinite, is_right_infinite),
    {
        Interval {
            start,
            end,
            is_left_closed,
            is_right_closed,
            is_left_infinite,
            is_right_infinite,
        }
    }

    pub fn finite_closed_interval(start: T, end: T) -> (r: Self)
        ensures
            r.start == Some(start),
            r.end == Some(end),
            r.has_flags(true, true, false, false),
    {
        Interval::new(Some(start), Some(end), true, true, false, false)
    }

    pub fn finite_right_open_interval(start: T, end: T) -> (r: Self)
        ensures
            r.start == Some(start),
            r.end == Some(end),
            r.has_flags(true, false, false, false),
    {
        Interval::new(Some(start), Some(end), true, false, false, false)
    }

    pub fn finite_left_open_interval(start: T, end: T) -> (r: Self)
        ensures
            r.start == Some(start),
            r.end == Some(end),
            r.has_flags(false, true, false, false),
    {
        Interval::new(Some(start), Some(end), false, true, false, false)
    }

    pub fn finite_open_interval(start: T, end: T) -> (r: Self)
        ensures
            r.start == Some(start),
            r.end == Some(end),
            r.has_flags(false, false, false, false),
    {
        Interval::new(Some(start), Some(end), false, false, false, false)
    }

    pub fn right_infinite_closed_interval(start: T) -> (r: Self)
        ensures
            r.start == Some(start),
            r.end == None::<T>,
            r.has_flags(true, true, false, true),
    {
        Interval::new(Some(start), None, true, true, false, true)
    }

    pub fn right_infinite_open_interval(start: T) -> (r: Self)
        ensures
            r.start == Some(start),
            r.end == None::<T>,
            r.has_flags(false, false, false, true),
    {
        Interval::new(Some(start), None, false, false, false, true)
    }

    pub fn right_infinite_right_open_interval(start: T) -> (r: Self)
        ensures
            r.start == Some(start),
            r.end == None::<T>,
            r.has_flags(true, false, false, true),
    {
        Interval::new(Some(start), None, true, false, false, true)
    }

    pub fn right_infinite_left_open_interval(start: T) -> (r: Self)
        ensures
            r.start == Some(start),
            r.end == None::<T>,
            r.has_flags(false, true, false, true),
    {
        Interval::new(Some(start), None, false, true, false, true)
    }

    pub fn left_infinite_closed_interval(end: T) -> (r: Self)
        ensures
            r.start == None::<T>,
            r.end == Some(end),
            r.has_flags(true, true, true, false),
    {
        Interval::new(None, Some(end), true, true, true, false)
    }

    pub fn left_infinite_right_open_interval(end: T) -> (r: Self)
        ensures
            r.start == None::<T>,
            r.end == Some(end),
            r.has_flags(true, false, true, false),
    {
        Interval::new(None, Some(end), true, false, true, false)
    }

    /// Open on the left and, like the fully open variant, also open on the right.
    pub fn left_infinite_left_open_interval(end: T) -> (r: Self)
        ensures
            r.start == None::<T>,
            r.end == Some(end),
            r.has_flags(false, false, true, false),
    {
        Interval::new(None, Some(end), false, false, true, false)
    }

    pub fn left_infinite_open_interval(end: T) -> (r: Self)
        ensures
            r.start == None::<T>,
            r.end == Some(end),
            r.has_flags(false, false, true, false),
    {
        Interval::new(None, Some(end), false, false, true, false)
    }

    pub fn is_infinite(self) -> (r: bool)
        ensures
            r == self.infinite(),
    {
        self.is_left_infinite || self.is_right_infinite
    }

    pub fn get_start(self) -> (r: Option<T>)
        ensures
            r == self.start,
    {
        self.start
    }

    pub fn get_end(self) -> (r: Option<T>)
        ensures
            r == self.end,
    {
        self.end
    }

    /// The text of the interval: bracket, start or `-infinity`, a comma and a
    /// space, end or `infinity`, bracket.
    pub open spec fn rendering(&self) -> Seq<char> {
        let left = if self.is_left_closed {
            seq!['[']
        } else {
            seq!['(']
        };
        let start = if self.is_left_infinite {
            "-infinity"@
        } else {
            decimal_text(self.start.unwrap().value())
        };
        let end = if self.is_right_infinite {
            "infinity"@
        } else {
            decimal_text(self.end.unwrap().value())
        };
        let right = if self.is_right_closed {
            seq![']']
        } else {
            seq![')']
        };
        left + start + ", "@ + end + right
    }

    /// Renders the interval as text. A finite side must have its endpoint.
    pub fn to_string(&self) -> (r: String)
        requires
            self.is_left_infinite || self.start is Some,
            self.is_right_infinite || self.end is Some,
        ensures
            r@ == self.rendering(),
    {
        let mut out = String::new();
        if self.is_left_closed {
            out.append("[");
            proof { reveal_strlit("["); }
        } else {
            out.append("(");
            proof { reveal_strlit("("); }
        }
        if self.is_left_infinite {
            out.append("-infinity");
        } else {
            append_decimal(&mut out, self.start.unwrap().to_wide());
        }
        out.append(", ");
        if self.is_right_infinite {
            out.append("infinity");
        } else {
            append_decimal(&mut out, self.end.unwrap().to_wide());
        }
        if self.is_right_closed {
            out.append("]");
            proof { reveal_strlit("]"); }
        } else {
            out.append(")");
            proof { reveal_strlit(")"); }
        }
        proof {
            assert(out@ =~= self.rendering());
        }
        out
    }

    /// Tests the point against each finite side with that side's closure. An
    /// absent endpoint on a finite side is replaced by the point itself.
    pub fn contains_point(&self, point: T) -> (r: bool)
        ensures
            r == self.contains(point.value()),
    {
        let p = point.to_wide();
        if !self.is_left_infinite {
            let s = match self.start {
                Some(v) => v.to_wide(),
                None => p,
            };
            if self.is_left_closed && p < s {
                return false;
            } else if !self.is_left_closed && p <= s {
                return false;
            }
        }
        if !self.is_right_infinite {
            let e = match self.end {
                Some(v) => v.to_wide(),
                None => p,
            };
            if self.is_right_closed && p > e {
                return false;
            } else if !self.is_right_closed && p >= e {
                return false;
            }
        }
        true
    }
}

impl<T: IntervalEndpoint> Copy for Interval<T> {

}

impl<T: IntervalEndpoint> Clone for Interval<T> {
    fn clone(&self) -> (r: Self)
        ensures
            r == *self,
    {
        *self
    }
}

pub open spec fn same_endpoint<T: IntervalEndpoint>(a: Option<T>, b: Option<T>) -> bool {
    match (a, b) {
        (Some(x), Some(y)) => x.value() == y.value(),
        (None, None) => true,
        _ => false,
    }
}

fn endpoints_equal<T: IntervalEndpoint>(a: Option<T>, b: Option<T>) -> (r: bool)
    ensures
        r == same_endpoint(a, b),
{
    match (a, b) {
        (Some(x), Some(y)) => x.to_wide() == y.to_wide(),
        (None, None) => true,
        _ => false,
    }
}

impl<T: IntervalEndpoint> PartialEq for Interval<T> {
    fn eq(&self, other: &Self) -> (r: bool) {
        endpoints_equal(self.start, other.start) && endpoints_equal(self.end, other.end)
            && self.is_left_closed == other.is_left_closed && self.is_right_closed
            == other.is_right_closed && self.is_left_infinite == other.is_left_infinite
            && self.is_right_infinite == other.is_right_infinite
    }
}

impl<T: IntervalEndpoint> vstd::std_specs::cmp::PartialEqSpecImpl for Interval<T> {
    open spec fn obeys_eq_spec() -> bool {
        true
    }

    open spec fn eq_spec(&self, other: &Self) -> bool {
        &&& same_endpoint(self.start, other.start)
        &&& same_endpoint(self.end, other.end)
        &&& self.has_flags(
            other.is_left_closed,
            other.is_right_closed,
            other.is_left_infinite,
            other.is_right_infinite,
        )
    }
}

impl<T: IntervalEndpoint> Interval<T> {
    /// `end - start`, where both endpoints are present.
    pub open spec fn length(&self) -> Option<int> {
        match (self.start, self.end) {
            (Some(s), Some(e)) => Some(e.value() - s.value()),
            _ => None,
        }
    }

    /// The order of intervals: any two infinite intervals are equal, an
    /// infinite one is above a finite one, and two finite ones compare by
    /// length. A finite interval missing an endpoint has no length and is
    /// incomparable with every finite interval.
    pub open spec fn order(&self, other: &Self) -> Option<Ordering> {
        if self.infinite() && other.infinite() {
            Some(Ordering::Equal)
        } else if self.infinite() {
            Some(Ordering::Greater)
        } else if other.infinite() {
            Some(Ordering::Less)
        } else {
            match (self.length(), other.length()) {
                (Some(a), Some(b)) => Some(
                    if a < b {
                        Ordering::Less
                    } else if a > b {
                        Ordering::Greater
                    } else {
                        Ordering::Equal
                    },
                ),
                _ => None,
            }
        }
    }

    fn wide_length(&self) -> (r: Option<i128>)
        ensures
            match self.length() {
                Some(l) => r matches Some(w) && w as int == l,
                None => r is None,
            },
    {
        match (self.start, self.end) {
            (Some(s), Some(e)) => Some(e.to_wide() - s.to_wide()),
            _ => None,
        }
    }
}

impl<T: IntervalEndpoint> PartialOrd for Interval<T> {
    fn partial_cmp(&self, other: &Self) -> (r: Option<Ordering>) {
        let a = self.is_left_infinite || self.is_right_infinite;
        let b = other.is_left_infinite || other.is_right_infinite;
        if a && b {
            return Some(Ordering::Equal);
        }
        if a {
            return Some(Ordering::Greater);
        }
        if b {
            return Some(Ordering::Less);
        }
        match (self.wide_length(), other.wide_length()) {
            (Some(x), Some(y)) => Some(
                if x < y {
                    Ordering::Less
                } else if x > y {
                    Ordering::Greater
                } else {
                    Ordering::Equal
                },
            ),
            _ => None,
        }
    }
}

impl<T: IntervalEndpoint> vstd::std_specs::cmp::PartialOrdSpecImpl for Interval<T> {
    open spec fn obeys_partial_cmp_spec() -> bool {
        true
    }

    open spec fn partial_cmp_spec(&self, other: &Self) -> Option<Ordering> {
        self.order(other)
    }
}

/// Two finite intervals of equal length compare equal, wherever they lie.
pub proof fn lemma_equal_lengths_compare_equal<T: IntervalEndpoint>(a: Interval<T>, b: Interval<T>)
    requires
        !a.infinite(),
        !b.infinite(),
        a.length() is Some,
        a.length() == b.length(),
    ensures
        a.order(&b) == Some(Ordering::Equal),
        b.order(&a) == Some(Ordering::Equal),
{
}

/// When exactly one of two intervals is infinite, it is the greater one.
pub proof fn lemma_infinite_above_finite<T: IntervalEndpoint>(a: Interval<T>, b: Interval<T>)
    requires
        a.infinite(),
        !b.infinite(),
    ensures
        a.order(&b) == Some(Ordering::Greater),
        b.order(&a) == Some(Ordering::Less),
{
}

/// Any two infinite intervals compare equal.
pub proof fn lemma_infinite_intervals_equal<T: IntervalEndpoint>(a: Interval<T>, b: Interval<T>)
    requires
        a.infinite(),
        b.infinite(),
    ensures
        a.order(&b) == Some(Ordering::Equal),
{
}

/// A point at an interval's left endpoint lies in it exactly when the left side
/// is closed or infinite, provided the right side does not already rule it out.
pub proof fn lemma_left_boundary_membership<T: IntervalEndpoint>(i: Interval<T>, s: T)
    requires
        i.start == Some(s),
        i.is_right_infinite || (i.end matches Some(e) && s.value() < e.value()),
    ensures
        i.contains(s.value()) <==> (i.is_left_closed || i.is_left_infinite),
{
}

/// A point at an interval's right endpoint lies in it exactly when the right
/// side is closed or infinite, provided the left side does not already rule it
/// out.
pub proof fn lemma_right_boundary_membership<T: IntervalEndpoint>(i: Interval<T>, e: T)
    requires
        i.end == Some(e),
        i.is_left_infinite || (i.start matches Some(s) && s.value() < e.value()),
    ensures
        i.contains(e.value()) <==> (i.is_right_closed || i.is_right_infinite),
{
}

} // verus!
