//! Sets of inclusive integer ranges, kept sorted and coalesced in a
//! fixed-capacity array.

use vstd::prelude::*;
use vstd::slice::slice_subrange;

verus! {

/// Represents an error related to a `Range` or `RangeSet`.
#[derive(Debug)]
pub enum Error {
    /// Invalid range boundaries.
    InvalidBoundaries,
    /// The fixed size array that backs the `RangeSet` is full. It is not
    /// possible to add more ranges.
    FullRangeSet,
}

/// The integers from `start` to `end`, both included: what a `Range` stands
/// for in contracts.
pub struct Interval {
    pub start: int,
    pub end: int,
}

impl Interval {
    /// The bounds are in order and fit in a `u64`.
    pub open spec fn valid(self) -> bool {
        0 <= self.start <= self.end <= u64::MAX
    }

    /// `p` lies within the interval.
    pub open spec fn contains(self, p: int) -> bool {
        self.start <= p <= self.end
    }

    /// The interval as a set of integers.
    pub open spec fn points(self) -> Set<int> {
        Set::new(|p: int| self.contains(p))
    }

    /// The number of integers in the interval.
    pub open spec fn len(self) -> int {
        self.end - self.start + 1
    }

    /// The two intervals have an integer in common.
    pub open spec fn meets(self, other: Interval) -> bool {
        exists|p: int| self.contains(p) && other.contains(p)
    }
}

/// Represents an inclusive range.
#[derive(Debug, Copy, Clone, PartialEq, Eq, Structural)]
pub struct Range {
    start: u64,
    end: u64,
}

impl View for Range {
    type V = Interval;

    closed spec fn view(&self) -> Interval {
        Interval { start: self.start as int, end: self.end as int }
    }
}

impl Range {
    /// The range's start point does not lie after its end point.
    #[verifier::type_invariant]
    pub open spec fn wf(&self) -> bool {
        self@.valid()
    }

    /// Two ranges with the same bounds are the same range.
    pub proof fn lemma_view_injective(a: Range, b: Range)
        requires
            a@ == b@,
        ensures
            a == b,
    {
    }

    /// Returns a new `Range`.
    ///
    /// # Errors
    ///
    /// This functions returns `Error::InvalidBoundaries` if the end point is
    /// lower than the start point of the range.
    pub fn new(start: u64, end: u64) -> (res: Result<Self, Error>)
        ensures
            start <= end ==> res is Ok && res->Ok_0.wf() && res->Ok_0@ == (Interval {
                start: start as int,
                end: end as int,
            }),
            start > end ==> res == Err::<Self, Error>(Error::InvalidBoundaries),
    {
        if start <= end {
            Ok(Range { start, end })
        } else {
            Err(Error::InvalidBoundaries)
        }
    }

    /// Returns the start point of the range.
    pub fn start(&self) -> (start: u64)
        ensures
            start == self@.start,
    {
        self.start
    }

    /// Returns the end point of the range.
    pub fn end(&self) -> (end: u64)
        ensures
            end == self@.end,
    {
        self.end
    }

    /// Returns `true` if the range contains a given point.
    pub fn contains_point(&self, point: u64) -> (b: bool)
        ensures
            b == self@.contains(point as int),
    {
        point >= self.start && point <= self.end
    }

    /// Returns `true` if the range contains a given range.
    pub fn contains_range(&self, range: Range) -> (b: bool)
        ensures
            b == (self@.contains(range@.start) && self@.contains(range@.end)),
            b == range@.points().subset_of(self@.points()),
    {
        proof {
            use_type_invariant(&range);
            if self@.contains(range@.start) && self@.contains(range@.end) {
                assert(range@.points().subset_of(self@.points()));
            } else {
                assert(range@.points().contains(range@.start));
                assert(range@.points().contains(range@.end));
            }
        }
        self.contains_point(range.start) && self.contains_point(range.end)
    }

    /// Returns `true` if the ranges overlap.
    pub fn overlaps(&self, range: Range) -> (b: bool)
        ensures
            b == self@.meets(range@),
            b == (self@.contains(range@.start) || self@.contains(range@.end) || range@.contains(
                self@.start,
            ) || range@.contains(self@.end)),
    {
        proof {
            use_type_invariant(self);
            use_type_invariant(&range);
            if self@.contains(range@.start) {
                assert(self@.contains(range@.start) && range@.contains(range@.start));
            } else if self@.contains(range@.end) {
                assert(self@.contains(range@.end) && range@.contains(range@.end));
            } else if range@.contains(self@.start) {
                assert(self@.contains(self@.start) && range@.contains(self@.start));
            } else if range@.contains(self@.end) {
                assert(self@.contains(self@.end) && range@.contains(self@.end));
            }
        }
        self.contains_point(range.start) || self.contains_point(range.end) || range.contains_point(
            self.start,
        ) || range.contains_point(self.end)
    }

    /// Returns the size of the range.
    pub fn size(&self) -> (n: u64)
        requires
            self@.len() <= u64::MAX,
        ensures
            n == self@.len(),
    {
        proof {
            use_type_invariant(self);
        }
        self.end - self.start + 1
    }
}

impl Default for Range {
    fn default() -> (r: Self)
        ensures
            r.wf(),
            r@ == (Interval { start: 0, end: 0 }),
    {
        Range { start: 0, end: 0 }
    }
}

/// Fixed length of the `RangeSet`.
pub const RANGE_SET_LEN: usize = 128;

/// Every interval of the sequence has its bounds in order and within `u64`.
pub open spec fn all_valid(s: Seq<Interval>) -> bool {
    forall|i: int| 0 <= i < s.len() ==> (#[trigger] s[i]).valid()
}

/// The intervals come in strictly ascending order of their start points.
pub open spec fn ascending(s: Seq<Interval>) -> bool {
    forall|i: int, j: int| 0 <= i < j < s.len() ==> (#[trigger] s[i]).start < (#[trigger] s[j]).start
}

/// Each interval ends before a later one starts, with at least one integer
/// left out between them: no two overlap and no two touch.
pub open spec fn separated(s: Seq<Interval>) -> bool {
    forall|i: int, j: int|
        0 <= i < j < s.len() ==> (#[trigger] s[i]).end + 1 < (#[trigger] s[j]).start
}

/// The canonical form of a set of integers as a sequence of intervals.
pub open spec fn coalesced(s: Seq<Interval>) -> bool {
    all_valid(s) && separated(s)
}

/// Some interval of the sequence contains `p`.
pub open spec fn covers(s: Seq<Interval>, p: int) -> bool {
    exists|i: int| 0 <= i < s.len() && (#[trigger] s[i]).contains(p)
}

/// The integers that the intervals of the sequence contain.
pub open spec fn points_of(s: Seq<Interval>) -> Set<int> {
    Set::new(|p: int| covers(s, p))
}

/// The sum of the lengths of the intervals of the sequence.
pub open spec fn total_len(s: Seq<Interval>) -> int
    decreases s.len(),
{
    if s.len() == 0 {
        0
    } else {
        total_len(s.drop_last()) + s.last().len()
    }
}

/// The lengths of a prefix never add up to more than those of the whole.
pub proof fn lemma_total_len_prefix(s: Seq<Interval>, k: int)
    requires
        all_valid(s),
        0 <= k <= s.len(),
    ensures
        0 <= total_len(s.take(k)) <= total_len(s),
        k < s.len() ==> total_len(s.take(k + 1)) == total_len(s.take(k)) + s[k].len(),
    decreases s.len() - k,
{
    if k == s.len() {
        assert(s.take(k) =~= s);
        lemma_total_len_nonnegative(s);
    } else {
        lemma_total_len_prefix(s, k + 1);
        assert(s.take(k + 1).drop_last() =~= s.take(k));
        assert(s.take(k + 1).last() == s[k]);
        lemma_total_len_nonnegative(s.take(k));
    }
}

/// Valid intervals have a positive length, so their sum is not negative.
pub proof fn lemma_total_len_nonnegative(s: Seq<Interval>)
    requires
        all_valid(s),
    ensures
        0 <= total_len(s),
    decreases s.len(),
{
    if s.len() > 0 {
        lemma_total_len_nonnegative(s.drop_last());
    }
}

/// `insert` turns `r` down: no entry starts where `r` starts, so a new entry
/// would be needed, and no slot is free for one.
pub open spec fn insert_refused(s: Seq<Interval>, r: Interval) -> bool {
    s.len() >= RANGE_SET_LEN && forall|i: int|
        0 <= i < s.len() ==> (#[trigger] s[i]).start != r.start
}

/// Some interval of the sequence other than the one at `k` contains `p`.
spec fn covers_besides(s: Seq<Interval>, k: int, p: int) -> bool {
    exists|i: int| 0 <= i < s.len() && i != k && (#[trigger] s[i]).contains(p)
}

proof fn lemma_covers_split(s: Seq<Interval>, k: int, p: int)
    requires
        0 <= k < s.len(),
    ensures
        covers(s, p) == (covers_besides(s, k, p) || s[k].contains(p)),
{
}

proof fn lemma_covers_update(s: Seq<Interval>, k: int, e: Interval, p: int)
    requires
        0 <= k < s.len(),
    ensures
        covers(s.update(k, e), p) == (covers_besides(s, k, p) || e.contains(p)),
{
    let t = s.update(k, e);
    if covers(t, p) {
        let i = choose|i: int| 0 <= i < t.len() && (#[trigger] t[i]).contains(p);
        if i != k {
            assert(s[i].contains(p));
        }
    }
    if covers_besides(s, k, p) {
        let i = choose|i: int| 0 <= i < s.len() && i != k && (#[trigger] s[i]).contains(p);
        assert(t[i].contains(p));
    }
    if e.contains(p) {
        assert(t[k].contains(p));
    }
}

proof fn lemma_covers_remove(s: Seq<Interval>, k: int, p: int)
    requires
        0 <= k < s.len(),
    ensures
        covers(s.remove(k), p) == covers_besides(s, k, p),
{
    let t = s.remove(k);
    if covers(t, p) {
        let i = choose|i: int| 0 <= i < t.len() && (#[trigger] t[i]).contains(p);
        if i < k {
            assert(s[i].contains(p));
        } else {
            assert(s[i + 1].contains(p));
        }
    }
    if covers_besides(s, k, p) {
        let i = choose|i: int| 0 <= i < s.len() && i != k && (#[trigger] s[i]).contains(p);
        if i < k {
            assert(t[i].contains(p));
        } else {
            assert(t[i - 1].contains(p));
        }
    }
}

proof fn lemma_covers_insert(s: Seq<Interval>, k: int, e: Interval, p: int)
    requires
        0 <= k <= s.len(),
    ensures
        covers(s.insert(k, e), p) == (covers(s, p) || e.contains(p)),
{
    let t = s.insert(k, e);
    if covers(t, p) {
        let i = choose|i: int| 0 <= i < t.len() && (#[trigger] t[i]).contains(p);
        if i < k {
            assert(s[i].contains(p));
        } else if i > k {
            assert(s[i - 1].contains(p));
        }
    }
    if covers(s, p) {
        let i = choose|i: int| 0 <= i < s.len() && (#[trigger] s[i]).contains(p);
        if i < k {
            assert(t[i].contains(p));
        } else {
            assert(t[i + 1].contains(p));
        }
    }
    if e.contains(p) {
        assert(t[k].contains(p));
    }
}

/// The larger of two end points.
spec fn later_end(a: Interval, b: Interval) -> int {
    if a.end >= b.end {
        a.end
    } else {
        b.end
    }
}

/// Folding the entry at `i + 1` into the one at `i`, which it overlaps or
/// touches, leaves the covered integers as they are.
proof fn lemma_merge_step(s: Seq<Interval>, i: int, p: int)
    requires
        0 <= i,
        i + 1 < s.len(),
        all_valid(s),
        s[i].start < s[i + 1].start <= s[i].end + 1,
    ensures
        covers(
            s.update(i, Interval { start: s[i].start, end: later_end(s[i], s[i + 1]) }).remove(
                i + 1,
            ),
            p,
        ) == covers(s, p),
{
    let m = Interval { start: s[i].start, end: later_end(s[i], s[i + 1]) };
    let u = s.update(i, m);
    lemma_covers_remove(u, i + 1, p);
    lemma_covers_split(s, i, p);
    if covers_besides(u, i + 1, p) {
        let j = choose|j: int| 0 <= j < u.len() && j != i + 1 && (#[trigger] u[j]).contains(p);
        if j != i {
            assert(s[j].contains(p));
        } else {
            if !s[i].contains(p) {
                assert(s[i + 1].contains(p));
            }
        }
    }
    if covers(s, p) {
        let j = choose|j: int| 0 <= j < s.len() && (#[trigger] s[j]).contains(p);
        if j == i || j == i + 1 {
            assert(u[i].contains(p));
        } else {
            assert(u[j].contains(p));
        }
    }
}

/// `remove` turns `r` down: some entry holds `r` strictly inside, so it would
/// split in two, and no slot is free for the second half.
pub open spec fn remove_refused(s: Seq<Interval>, r: Interval) -> bool {
    s.len() >= RANGE_SET_LEN && exists|i: int|
        0 <= i < s.len() && (#[trigger] s[i]).start < r.start && r.end < s[i].end
}

/// The interval has no integer in common with `r`.
pub open spec fn clear_of(e: Interval, r: Interval) -> bool {
    e.end < r.start || r.end < e.start
}

/// `t` covers nothing that `s` does not cover, and misses nothing of `s`
/// but integers of `r`.
spec fn pared(s: Seq<Interval>, t: Seq<Interval>, r: Interval) -> bool {
    &&& forall|p: int| #![trigger covers(t, p)] covers(t, p) ==> covers(s, p)
    &&& forall|p: int| #![trigger covers(s, p)] covers(s, p) && !r.contains(p) ==> covers(t, p)
}

proof fn lemma_pared_trans(a: Seq<Interval>, b: Seq<Interval>, c: Seq<Interval>, r: Interval)
    requires
        pared(a, b, r),
        pared(b, c, r),
    ensures
        pared(a, c, r),
{
    assert forall|p: int| #![trigger covers(c, p)] covers(c, p) implies covers(a, p) by {
        assert(covers(b, p));
    }
    assert forall|p: int| #![trigger covers(a, p)] covers(a, p) && !r.contains(p) implies covers(
        c,
        p,
    ) by {
        assert(covers(b, p));
    }
}

/// Dropping an entry that lies within `r` pares the sequence by `r`.
proof fn lemma_pare_drop(s: Seq<Interval>, k: int, r: Interval)
    requires
        0 <= k < s.len(),
        r.start <= s[k].start,
        s[k].end <= r.end,
    ensures
        pared(s, s.remove(k), r),
{
    let t = s.remove(k);
    assert forall|p: int| #![trigger covers(t, p)] covers(t, p) implies covers(s, p) by {
        lemma_covers_remove(s, k, p);
        lemma_covers_split(s, k, p);
    }
    assert forall|p: int| #![trigger covers(s, p)] covers(s, p) && !r.contains(p) implies covers(
        t,
        p,
    ) by {
        lemma_covers_remove(s, k, p);
        lemma_covers_split(s, k, p);
    }
}

/// Cutting an entry back to `e`, where what is cut off lies within `r`,
/// pares the sequence by `r`.
proof fn lemma_pare_narrow(s: Seq<Interval>, k: int, e: Interval, r: Interval)
    requires
        0 <= k < s.len(),
        s[k].start <= e.start,
        e.end <= s[k].end,
        e.start == s[k].start || (e.start == r.end + 1 && r.start <= s[k].start),
        e.end == s[k].end || (e.end == r.start - 1 && s[k].end <= r.end),
    ensures
        pared(s, s.update(k, e), r),
{
    let t = s.update(k, e);
    assert forall|p: int| #![trigger covers(t, p)] covers(t, p) implies covers(s, p) by {
        lemma_covers_update(s, k, e, p);
        lemma_covers_split(s, k, p);
    }
    assert forall|p: int| #![trigger covers(s, p)] covers(s, p) && !r.contains(p) implies covers(
        t,
        p,
    ) by {
        lemma_covers_update(s, k, e, p);
        lemma_covers_split(s, k, p);
    }
}

/// Replacing an entry that holds `r` strictly inside by what lies below `r`
/// and what lies above it pares the sequence by `r`.
proof fn lemma_pare_split(s: Seq<Interval>, k: int, r: Interval)
    requires
        0 <= k < s.len(),
        s[k].start < r.start,
        r.start <= r.end,
        r.end < s[k].end,
    ensures
        pared(
            s,
            s.insert(k, Interval { start: s[k].start, end: r.start - 1 }).update(
                k + 1,
                Interval { start: r.end + 1, end: s[k].end },
            ),
            r,
        ),
{
    let lo = Interval { start: s[k].start, end: r.start - 1 };
    let hi = Interval { start: r.end + 1, end: s[k].end };
    let u = s.insert(k, lo);
    let t = u.update(k + 1, hi);
    assert(u[k + 1] == s[k]);
    assert forall|p: int| #![trigger covers(t, p)] covers(t, p) implies covers(s, p) by {
        lemma_covers_update(u, k + 1, hi, p);
        lemma_covers_split(u, k + 1, p);
        lemma_covers_insert(s, k, lo, p);
        lemma_covers_split(s, k, p);
    }
    assert forall|p: int| #![trigger covers(s, p)] covers(s, p) && !r.contains(p) implies covers(
        t,
        p,
    ) by {
        lemma_covers_split(s, k, p);
        if s[k].contains(p) {
            if p < r.start {
                assert(t[k].contains(p));
            } else {
                assert(t[k + 1].contains(p));
            }
        } else {
            let j = choose|j: int| 0 <= j < s.len() && j != k && (#[trigger] s[j]).contains(p);
            if j < k {
                assert(t[j].contains(p));
            } else {
                assert(t[j + 1].contains(p));
            }
        }
    }
}

/// In coalesced sequences that cover the same integers, the first interval
/// of one does not start after the first interval of the other.
proof fn lemma_first_start(a: Seq<Interval>, b: Seq<Interval>)
    requires
        coalesced(a),
        coalesced(b),
        a.len() > 0,
        b.len() > 0,
        forall|p: int| covers(a, p) == covers(b, p),
    ensures
        a[0].start <= b[0].start,
{
    let p = b[0].start;
    assert(b[0].valid());
    assert(b[0].contains(p));
    assert(covers(b, p));
    assert(covers(a, p));
    let i = choose|i: int| 0 <= i < a.len() && (#[trigger] a[i]).contains(p);
    assert(a[0].valid());
    if i > 0 {
        assert(a[0].end + 1 < a[i].start);
    }
}

/// In coalesced sequences that cover the same integers and start at the
/// same one, the first interval of one does not end before that of the
/// other.
proof fn lemma_first_end(a: Seq<Interval>, b: Seq<Interval>)
    requires
        coalesced(a),
        coalesced(b),
        a.len() > 0,
        b.len() > 0,
        a[0].start == b[0].start,
        forall|p: int| covers(a, p) == covers(b, p),
    ensures
        a[0].end >= b[0].end,
{
    assert(a[0].valid());
    assert(b[0].valid());
    if a[0].end < b[0].end {
        let p = a[0].end + 1;
        assert(b[0].contains(p));
        assert(covers(b, p));
        assert(covers(a, p));
        let i = choose|i: int| 0 <= i < a.len() && (#[trigger] a[i]).contains(p);
        if i > 0 {
            assert(a[0].end + 1 < a[i].start);
        }
    }
}

/// In coalesced sequences with the same first interval, an integer that
/// both cover and that lies in the tail of one lies in the tail of the
/// other.
proof fn lemma_tail_covers(a: Seq<Interval>, b: Seq<Interval>, p: int)
    requires
        coalesced(a),
        coalesced(b),
        a.len() > 0,
        b.len() > 0,
        a[0] == b[0],
        covers(a, p) == covers(b, p),
        covers(a.subrange(1, a.len() as int), p),
    ensures
        covers(b.subrange(1, b.len() as int), p),
{
    let a1 = a.subrange(1, a.len() as int);
    let b1 = b.subrange(1, b.len() as int);
    let i = choose|i: int| 0 <= i < a1.len() && (#[trigger] a1[i]).contains(p);
    assert(a[i + 1].contains(p));
    assert(a[0].end + 1 < a[i + 1].start);
    assert(covers(b, p));
    let j = choose|j: int| 0 <= j < b.len() && (#[trigger] b[j]).contains(p);
    assert(j > 0);
    assert(b1[j - 1].contains(p));
}

/// A tail of a coalesced sequence is coalesced.
proof fn lemma_tail_coalesced(a: Seq<Interval>)
    requires
        coalesced(a),
        a.len() > 0,
    ensures
        coalesced(a.subrange(1, a.len() as int)),
{
    let a1 = a.subrange(1, a.len() as int);
    assert forall|i: int| 0 <= i < a1.len() implies (#[trigger] a1[i]).valid() by {
        assert(a[i + 1].valid());
    }
    assert forall|i: int, j: int| 0 <= i < j < a1.len() implies (#[trigger] a1[i]).end + 1 < (
    #[trigger] a1[j]).start by {
        assert(a[i + 1].end + 1 < a[j + 1].start);
    }
}

/// A set of integers has at most one coalesced sequence of intervals: two
/// coalesced sequences that cover the same integers are the same sequence.
pub proof fn lemma_coalesced_unique(a: Seq<Interval>, b: Seq<Interval>)
    requires
        coalesced(a),
        coalesced(b),
        points_of(a) == points_of(b),
    ensures
        a == b,
    decreases a.len(),
{
    assert forall|p: int| covers(a, p) == covers(b, p) by {
        assert(points_of(a).contains(p) == covers(a, p));
        assert(points_of(b).contains(p) == covers(b, p));
    }
    if a.len() == 0 || b.len() == 0 {
        if b.len() > 0 {
            assert(b[0].valid());
            assert(b[0].contains(b[0].start));
            assert(covers(b, b[0].start));
        }
        if a.len() > 0 {
            assert(a[0].valid());
            assert(a[0].contains(a[0].start));
            assert(covers(a, a[0].start));
        }
        assert(a =~= b);
    } else {
        lemma_first_start(a, b);
        lemma_first_start(b, a);
        lemma_first_end(a, b);
        lemma_first_end(b, a);
        let a1 = a.subrange(1, a.len() as int);
        let b1 = b.subrange(1, b.len() as int);
        lemma_tail_coalesced(a);
        lemma_tail_coalesced(b);
        assert forall|p: int| points_of(a1).contains(p) == points_of(b1).contains(p) by {
            if covers(a1, p) {
                lemma_tail_covers(a, b, p);
            }
            if covers(b1, p) {
                lemma_tail_covers(b, a, p);
            }
        }
        assert(points_of(a1) =~= points_of(b1));
        lemma_coalesced_unique(a1, b1);
        assert forall|i: int| 0 <= i < a.len() implies a[i] == b[i] by {
            if i > 0 {
                assert(a1[i - 1] == b1[i - 1]);
            }
        }
        assert(a.len() == a1.len() + 1);
        assert(b.len() == b1.len() + 1);
        assert(a =~= b);
    }
}

/// A coalesced sequence is sorted ascending by start point, and each of its
/// intervals ends at least two before the next one starts.
pub proof fn lemma_sorted_and_apart(s: Seq<Interval>)
    requires
        coalesced(s),
    ensures
        ascending(s),
        forall|i: int| 0 <= i < s.len() - 1 ==> (#[trigger] s[i]).end + 1 < s[i + 1].start,
{
    assert forall|i: int, j: int| 0 <= i < j < s.len() implies (#[trigger] s[i]).start < (
    #[trigger] s[j]).start by {
        assert(s[i].valid());
        assert(s[i].end + 1 < s[j].start);
    }
}

/// The lengths of a coalesced sequence, and the gaps between its
/// intervals, fit between its first start point and its last end point.
pub proof fn lemma_total_len_bound(s: Seq<Interval>)
    requires
        coalesced(s),
        s.len() > 0,
    ensures
        total_len(s) + (s.len() - 1) <= s.last().end - s[0].start + 1,
    decreases s.len(),
{
    let d = s.drop_last();
    if d.len() > 0 {
        assert forall|i: int| 0 <= i < d.len() implies (#[trigger] d[i]).valid() by {
            assert(s[i].valid());
        }
        assert forall|i: int, j: int| 0 <= i < j < d.len() implies (#[trigger] d[i]).end + 1 < (
        #[trigger] d[j]).start by {
            assert(s[i].end + 1 < s[j].start);
        }
        lemma_total_len_bound(d);
        assert(d.last() == s[s.len() - 2]);
        assert(s[s.len() - 2].end + 1 < s[s.len() - 1].start);
    } else {
        assert(total_len(d) == 0);
    }
}

/// `RangeSet::size` fits in a `u64` for every coalesced set but the one
/// that holds every `u64` in a single range.
pub proof fn lemma_size_fits(s: Seq<Interval>)
    requires
        coalesced(s),
    ensures
        total_len(s) <= u64::MAX <==> !(s.len() == 1 && s[0].start == 0 && s[0].end == u64::MAX),
{
    if s.len() > 0 {
        lemma_total_len_bound(s);
        assert(s[0].valid());
        assert(s.last().valid());
        if s.len() == 1 {
            assert(s.drop_last().len() == 0);
            assert(total_len(s.drop_last()) == 0);
            assert(total_len(s) == s[0].len());
        }
    }
}

/// The one coalesced sequence that covers just the integers of a valid
/// interval is that interval alone.
pub proof fn lemma_single(t: Seq<Interval>, r: Interval)
    requires
        coalesced(t),
        r.valid(),
        points_of(t) == r.points(),
    ensures
        t == seq![r],
{
    let one = seq![r];
    assert(one[0] == r);
    assert forall|p: int| points_of(one).contains(p) == r.points().contains(p) by {
        if covers(one, p) {
            let i = choose|i: int| 0 <= i < one.len() && (#[trigger] one[i]).contains(p);
        }
        if r.contains(p) {
            assert(one[0].contains(p));
        }
    }
    assert(points_of(one) =~= r.points());
    lemma_coalesced_unique(t, one);
}

/// The coalesced sequence that covers what `s` covers and the integers of
/// `r` besides: what a set holds after `r` went in.
pub open spec fn inserted(s: Seq<Interval>, r: Interval) -> Seq<Interval> {
    choose|t: Seq<Interval>| coalesced(t) && points_of(t) == points_of(s).union(r.points())
}

/// The coalesced sequence that covers what `s` covers but for the integers
/// of `r`: what a set holds after `r` went out.
pub open spec fn removed(s: Seq<Interval>, r: Interval) -> Seq<Interval> {
    choose|t: Seq<Interval>| coalesced(t) && points_of(t) == points_of(s).difference(r.points())
}

/// Represents a set of ranges.
#[derive(Debug)]
pub struct RangeSet {
    /// Ranges within the `RangeSet`.
    ranges: [Range; RANGE_SET_LEN],
    /// Number of elements in the fixed size array that are being used.
    in_use: usize,
}

impl View for RangeSet {
    type V = Seq<Interval>;

    /// The intervals of the slots in use, in array order.
    closed spec fn view(&self) -> Seq<Interval> {
        Seq::new(self.in_use as nat, |i: int| self.ranges@[i]@)
    }
}

impl RangeSet {
    /// The set holds at most `RANGE_SET_LEN` ranges, sorted by start point,
    /// no two of them overlapping or touching.
    pub open spec fn wf(&self) -> bool {
        self@.len() <= RANGE_SET_LEN && coalesced(self@)
    }

    /// The integers that belong to the set.
    pub open spec fn points(&self) -> Set<int> {
        points_of(self@)
    }

    /// Returns an empty `RangeSet`.
    pub fn new() -> (set: Self)
        ensures
            set.wf(),
            set@ == Seq::<Interval>::empty(),
    {
        RangeSet { ranges: [Range { start: 0, end: 0 }; RANGE_SET_LEN], in_use: 0 }
    }

    /// Returns the ranges in the `RangeSet`.
    pub fn ranges(&self) -> (out: &[Range])
        requires
            self.wf(),
        ensures
            out@.map_values(|r: Range| r@) == self@,
    {
        let out = slice_subrange(self.ranges.as_slice(), 0, self.in_use);
        assert(out@.map_values(|r: Range| r@) =~= self@);
        out
    }

    /// Removes the entry at `idx`, moving the later entries one slot down.
    fn delete_at(&mut self, idx: usize)
        requires
            idx < old(self).in_use <= RANGE_SET_LEN,
        ensures
            final(self).in_use == old(self).in_use - 1,
            final(self)@ == old(self)@.remove(idx as int),
    {
        let mut j: usize = idx;
        while j + 1 < self.in_use
            invariant
                idx <= j < self.in_use,
                self.in_use == old(self).in_use,
                self.in_use <= RANGE_SET_LEN,
                forall|k: int| 0 <= k < idx ==> self.ranges@[k] == old(self).ranges@[k],
                forall|k: int| idx <= k < j ==> self.ranges@[k] == old(self).ranges@[k + 1],
                forall|k: int| j <= k < RANGE_SET_LEN ==> self.ranges@[k] == old(self).ranges@[k],
            decreases self.in_use - j,
        {
            self.ranges[j] = self.ranges[j + 1];
            j += 1;
        }
        self.in_use = self.in_use - 1;
        assert(self@ =~= old(self)@.remove(idx as int));
    }

    /// Puts `range` at `idx`, moving the entries from there on one slot up.
    fn insert_at(&mut self, idx: usize, range: Range)
        requires
            idx <= old(self).in_use < RANGE_SET_LEN,
        ensures
            final(self).in_use == old(self).in_use + 1,
            final(self)@ == old(self)@.insert(idx as int, range@),
    {
        let mut j: usize = self.in_use;
        while j > idx
            invariant
                idx <= j <= self.in_use,
                self.in_use == old(self).in_use,
                self.in_use < RANGE_SET_LEN,
                forall|k: int| 0 <= k <= j ==> self.ranges@[k] == old(self).ranges@[k],
                forall|k: int| j < k <= self.in_use ==> self.ranges@[k] == old(self).ranges@[k - 1],
            decreases j,
        {
            self.ranges[j] = self.ranges[j - 1];
            j -= 1;
        }
        self.ranges[idx] = range;
        self.in_use = self.in_use + 1;
        assert(self@ =~= old(self)@.insert(idx as int, range@));
    }

    /// Inserts a range into the internal `ranges` array preserving the order
    /// of the array and avoiding duplicated start points.
    fn sort_insert(&mut self, range: Range) -> (res: Result<(), Error>)
        requires
            old(self).wf(),
            range.wf(),
        ensures
            res is Err <==> insert_refused(old(self)@, range@),
            res is Err ==> res == Err::<(), Error>(Error::FullRangeSet) && *final(self) == *old(
                self,
            ),
            res is Ok ==> {
                &&& 0 < final(self)@.len() <= RANGE_SET_LEN
                &&& all_valid(final(self)@)
                &&& ascending(final(self)@)
                &&& forall|p: int|
                    #![trigger covers(final(self)@, p)]
                    covers(final(self)@, p) == (covers(old(self)@, p) || range@.contains(p))
            },
    {
        // Find the index of the new range.
        let mut idx: usize = 0;
        while idx < self.in_use && self.ranges[idx].start < range.start
            invariant
                *self == *old(self),
                self.wf(),
                idx <= self.in_use,
                forall|k: int| 0 <= k < idx ==> (#[trigger] self@[k]).start < range@.start,
            decreases self.in_use - idx,
        {
            assert(self@[idx as int] == self.ranges[idx as int]@);
            idx += 1;
        }
        let ghost before = self@;
        proof {
            if idx < self.in_use {
                assert(before[idx as int] == self.ranges[idx as int]@);
            }
        }
        // If there is a range with the same start point, reuse the same
        // range updating its end point to the greatest value between the
        // new and the old one.
        if idx < self.in_use && self.ranges[idx].start == range.start {
            if range.end > self.ranges[idx].end {
                self.ranges[idx].end = range.end;
            }
            proof {
                let e = Interval { start: range@.start, end: later_end(range@, before[idx as int]) };
                assert(self@ =~= before.update(idx as int, e));
                assert forall|p: int| #![trigger covers(self@, p)] covers(self@, p) == (covers(before, p) || range@.contains(p)) by {
                    lemma_covers_update(before, idx as int, e, p);
                    lemma_covers_split(before, idx as int, p);
                }
                assert(!insert_refused(before, range@));
            }
            return Ok(());
        }
        proof {
            assert forall|k: int| 0 <= k < before.len() implies (#[trigger] before[k]).start
                != range@.start by {
                if k >= idx {
                    assert(before[idx as int].start <= before[k].start);
                }
            }
        }
        // There must be space at least for the new range.
        if self.in_use >= RANGE_SET_LEN {
            return Err(Error::FullRangeSet);
        }
        // Create space for the new range, moving the existing ones forward
        // one position.
        self.insert_at(idx, range);
        proof {
            assert forall|p: int| #![trigger covers(self@, p)] covers(self@, p) == (covers(before, p) || range@.contains(p)) by {
                lemma_covers_insert(before, idx as int, range@, p);
            }
            assert forall|k: int| 0 <= k < self@.len() implies (#[trigger] self@[k]).valid() by {
                if k < idx {
                    assert(before[k].valid());
                } else if k > idx {
                    assert(before[k - 1].valid());
                }
            }
            assert forall|i: int, j: int| 0 <= i < j < self@.len() implies (#[trigger] self@[i]).start
                < (#[trigger] self@[j]).start by {
                if j > idx && i < idx {
                    assert(before[i].start < range@.start);
                    assert(before[idx as int].start <= before[j - 1].start);
                }
                if i == idx {
                    assert(before[idx as int].start <= before[j - 1].start);
                }
            }
            assert(before == old(self)@);
        }
        Ok(())
    }

    /// Merges the overlapping ranges in the internal `ranges` array. It
    /// assumes that the internal `ranges` array is sorted and there are no
    /// duplicated start points. Thus, `RangeSet::sort_insert` must be used
    /// internally to insert new ranges.
    fn merge(&mut self)
        requires
            old(self)@.len() <= RANGE_SET_LEN,
            all_valid(old(self)@),
            ascending(old(self)@),
        ensures
            final(self).wf(),
            forall|p: int| #![trigger covers(final(self)@, p)] covers(final(self)@, p) == covers(old(self)@, p),
    {
        let mut i: usize = 0;
        while i + 1 < self.in_use
            invariant
                self.in_use <= RANGE_SET_LEN,
                i <= self.in_use,
                all_valid(self@),
                ascending(self@),
                forall|a: int, b: int|
                    0 <= a < b <= i && b < self@.len() ==> (#[trigger] self@[a]).end + 1 < (
                    #[trigger] self@[b]).start,
                forall|p: int| #![trigger covers(self@, p)] covers(self@, p) == covers(old(self)@, p),
            decreases 2 * self.in_use - i,
        {
            let ghost s = self@;
            proof {
                assert(s[i as int] == self.ranges[i as int]@);
                assert(s[i + 1] == self.ranges[i + 1]@);
                assert(s[i as int].valid() && s[i + 1].valid());
                assert(s[i as int].start < s[i + 1].start);
            }
            if self.ranges[i + 1].start - 1 > self.ranges[i].end {
                // The ranges are not contiguous or overlapped: advance.
                proof {
                    assert forall|a: int, b: int|
                        0 <= a < b <= i + 1 && b < s.len() implies (#[trigger] s[a]).end + 1 < (
                    #[trigger] s[b]).start by {
                        if b == i + 1 && a < i {
                            assert(s[a].end + 1 < s[i as int].start);
                        }
                    }
                }
                i += 1;
            } else {
                // The ranges are contiguous or overlapped: the first one
                // takes the greater end point and the second one leaves.
                if self.ranges[i + 1].end > self.ranges[i].end {
                    self.ranges[i].end = self.ranges[i + 1].end;
                }
                let ghost m = Interval {
                    start: s[i as int].start,
                    end: later_end(s[i as int], s[i + 1]),
                };
                assert(self@ =~= s.update(i as int, m));
                self.delete_at(i + 1);
                proof {
                    let t = self@;
                    assert(t == s.update(i as int, m).remove(i + 1));
                    assert forall|p: int| covers(t, p) == covers(old(self)@, p) by {
                        lemma_merge_step(s, i as int, p);
                    }
                    assert forall|k: int| 0 <= k < t.len() implies (#[trigger] t[k]).valid() by {
                        if k < i {
                            assert(s[k].valid());
                        } else if k > i {
                            assert(s[k + 1].valid());
                        }
                    }
                    assert forall|a: int, b: int| 0 <= a < b < t.len() implies (#[trigger] t[a]).start
                        < (#[trigger] t[b]).start by {
                        let a0 = if a <= i { a } else { a + 1 };
                        let b0 = if b <= i { b } else { b + 1 };
                        assert(s[a0].start < s[b0].start);
                    }
                    assert forall|a: int, b: int|
                        0 <= a < b <= i && b < t.len() implies (#[trigger] t[a]).end + 1 < (
                    #[trigger] t[b]).start by {
                        assert(s[a].end + 1 < s[b].start);
                    }
                }
            }
        }
        proof {
            let t = self@;
            assert forall|a: int, b: int| 0 <= a < b < t.len() implies (#[trigger] t[a]).end + 1 < (
            #[trigger] t[b]).start by {
                assert(b <= i);
            }
        }
    }

    /// Inserts a `Range` into the `RangeSet`. It takes into account possible
    /// overlappings to create, merge or enlarge existing ranges if necessary.
    ///
    /// # Errors
    ///
    /// Returns `Error::FullRangeSet`, and leaves the set as it was, if no
    /// entry starts at the start point of `range` and every slot is in use.
    pub fn insert(&mut self, range: Range) -> (res: Result<(), Error>)
        requires
            old(self).wf(),
        ensures
            res is Err <==> insert_refused(old(self)@, range@),
            res is Err ==> res == Err::<(), Error>(Error::FullRangeSet) && *final(self) == *old(
                self,
            ),
            res is Ok ==> final(self).wf() && final(self).points() == old(self).points().union(
                range@.points(),
            ),
            res is Ok ==> final(self)@ == inserted(old(self)@, range@),
    {
        proof {
            use_type_invariant(&range);
        }
        match self.sort_insert(range) {
            Ok(()) => {},
            Err(e) => {
                return Err(e);
            },
        }
        let ghost staged = self@;
        self.merge();
        proof {
            assert forall|p: int|
                self.points().contains(p) == old(self).points().union(range@.points()).contains(
                    p,
                ) by {
                assert(covers(self@, p) == covers(staged, p));
                assert(covers(staged, p) == (covers(old(self)@, p) || range@.contains(p)));
            }
            assert(self.points() =~= old(self).points().union(range@.points()));
            lemma_coalesced_unique(self@, inserted(old(self)@, range@));
        }
        Ok(())
    }

    /// Removes a `Range` from the `RangeSet`. It takes into account possible
    /// overlappings to delete, split or shrink existing ranges if necessary.
    ///
    /// # Errors
    ///
    /// Returns `Error::FullRangeSet`, and leaves the set as it was, if an
    /// entry would have to be split in two and every slot is in use.
    pub fn remove(&mut self, range: Range) -> (res: Result<(), Error>)
        requires
            old(self).wf(),
        ensures
            res is Err <==> remove_refused(old(self)@, range@),
            res is Err ==> res == Err::<(), Error>(Error::FullRangeSet) && *final(self) == *old(
                self,
            ),
            res is Ok ==> final(self).wf() && final(self).points() == old(
                self,
            ).points().difference(range@.points()),
            res is Ok ==> final(self)@ == removed(old(self)@, range@),
    {
        proof {
            use_type_invariant(&range);
        }
        let ghost r = range@;
        let ghost first = self@;
        let mut i: usize = 0;
        while i < self.in_use
            invariant_except_break
                self.wf(),
                i <= self.in_use,
                pared(first, self@, r),
                forall|k: int| 0 <= k < i ==> clear_of(#[trigger] self@[k], r),
                *self == *old(self) || (i < self@.len() ==> r.start < self@[i as int].start),
                forall|j: int|
                    0 <= j < first.len() && (#[trigger] first[j]).start < r.start && r.end
                        < first[j].end ==> *self == *old(self) && j >= i,
            invariant
                range.wf(),
                r == range@,
                first == old(self)@,
                old(self).wf(),
            ensures
                self.wf(),
                pared(first, self@, r),
                forall|k: int| 0 <= k < self@.len() ==> clear_of(#[trigger] self@[k], r),
                !remove_refused(first, r),
            decreases self.in_use - i,
        {
            let ghost s = self@;
            proof {
                assert(s[i as int] == self.ranges[i as int]@);
                assert(s[i as int].valid());
            }
            // Given that the internal `range` array is sorted, once the
            // start point of a range is above the end point of the range to
            // remove, it is not necessary to continue iterating.
            if self.ranges[i].start > range.end {
                proof {
                    assert forall|k: int| 0 <= k < s.len() implies clear_of(#[trigger] s[k], r) by {
                        if k > i {
                            assert(s[i as int].end + 1 < s[k].start);
                        }
                    }
                    if remove_refused(first, r) {
                        let j = choose|j: int|
                            0 <= j < first.len() && (#[trigger] first[j]).start < r.start && r.end
                                < first[j].end;
                        if j > i {
                            assert(first[i as int].end + 1 < first[j].start);
                        }
                    }
                }
                break ;
            }
            if !self.ranges[i].overlaps(range) {
                // The ranges do not overlap: advance.
                proof {
                    assert(!s[i as int].contains(r.start));
                    assert(clear_of(s[i as int], r));
                    if i + 1 < s.len() {
                        assert(s[i as int].end + 1 < s[i + 1].start);
                    }
                }
                i += 1;
            } else if self.ranges[i].contains_range(range) {
                // The range to be removed is contained by the existing
                // range.
                proof {
                    assert(*self == *old(self));
                    assert forall|k: int| i < k < s.len() implies r.end < (#[trigger] s[k]).start by {
                        assert(s[i as int].end + 1 < s[k].start);
                    }
                    assert forall|j: int|
                        0 <= j < first.len() && (#[trigger] first[j]).start < r.start && r.end
                            < first[j].end implies j == i by {
                        if j > i {
                            assert(first[i as int].end + 1 < first[j].start);
                        }
                    }
                }
                if self.ranges[i] == range {
                    // The range to be removed matches the existing range.
                    // Then, the existing range must be removed.
                    self.delete_at(i);
                    proof {
                        lemma_pare_drop(s, i as int, r);
                        lemma_pared_trans(first, s, self@, r);
                        Self::lemma_remove_keeps_order(s, i as int);
                    }
                } else if self.ranges[i].start == range.start {
                    // The range to be removed and the existing range share
                    // the same start point. Then, it is enough with updating
                    // the start point of the existing range.
                    self.ranges[i].start = range.end + 1;
                    proof {
                        let e = Interval { start: r.end + 1, end: s[i as int].end };
                        assert(self@ =~= s.update(i as int, e));
                        lemma_pare_narrow(s, i as int, e, r);
                        lemma_pared_trans(first, s, self@, r);
                        Self::lemma_narrow_keeps_order(s, i as int, e);
                    }
                } else if self.ranges[i].end == range.end {
                    // The range to be removed and the existing range share
                    // the same end point. Then, it is enough with updating
                    // the end point of the existing range.
                    self.ranges[i].end = range.start - 1;
                    proof {
                        let e = Interval { start: s[i as int].start, end: r.start - 1 };
                        assert(self@ =~= s.update(i as int, e));
                        lemma_pare_narrow(s, i as int, e, r);
                        lemma_pared_trans(first, s, self@, r);
                        Self::lemma_narrow_keeps_order(s, i as int, e);
                    }
                } else {
                    // The range to be removed is in the middle of the
                    // existing range. Then, the existing range must be split
                    // and the start and end points of the new ranges updated
                    // accordingly.
                    if self.in_use >= RANGE_SET_LEN {
                        proof {
                            assert(first[i as int].start < r.start && r.end < first[i as int].end);
                        }
                        return Err(Error::FullRangeSet);
                    }
                    let low = Range { start: self.ranges[i].start, end: range.start - 1 };
                    self.insert_at(i, low);
                    let ghost mid = self@;
                    proof {
                        assert(mid[i + 1] == s[i as int]);
                        assert(mid[i + 1] == self.ranges[i + 1]@);
                    }
                    self.ranges[i + 1].start = range.end + 1;
                    proof {
                        let lo = Interval { start: s[i as int].start, end: r.start - 1 };
                        let hi = Interval { start: r.end + 1, end: s[i as int].end };
                        assert(low@ == lo);
                        assert(self@ =~= mid.update(i + 1, hi));
                        assert(self@ =~= s.insert(i as int, lo).update(i + 1, hi));
                        lemma_pare_split(s, i as int, r);
                        lemma_pared_trans(first, s, self@, r);
                        Self::lemma_split_keeps_order(s, i as int, r);
                    }
                }
                proof {
                    let t = self@;
                    assert forall|k: int| 0 <= k < t.len() implies clear_of(#[trigger] t[k], r) by {
                        if k < i {
                            assert(clear_of(s[k], r));
                        }
                    }
                }
                break ;
            } else if range.contains_range(self.ranges[i]) {
                // The range to be removed contains the existing range. Then,
                // the existing range must be removed.
                proof {
                    if i + 1 < s.len() {
                        assert(s[i as int].end + 1 < s[i + 1].start);
                    }
                    assert forall|j: int|
                        0 <= j < first.len() && (#[trigger] first[j]).start < r.start && r.end
                            < first[j].end implies false by {
                        if j > i {
                            assert(first[i as int].end + 1 < first[j].start);
                        }
                    }
                }
                self.delete_at(i);
                proof {
                    lemma_pare_drop(s, i as int, r);
                    lemma_pared_trans(first, s, self@, r);
                    Self::lemma_remove_keeps_order(s, i as int);
                    assert forall|k: int| 0 <= k < i implies clear_of(#[trigger] self@[k], r) by {
                        assert(clear_of(s[k], r));
                    }
                }
            } else if self.ranges[i].contains_point(range.start) {
                // The start point of the range to be removed is contained by
                // the existing range. Then, the end point of the existing
                // range must be updated.
                proof {
                    if i + 1 < s.len() {
                        assert(s[i as int].end + 1 < s[i + 1].start);
                    }
                    assert forall|j: int|
                        0 <= j < first.len() && (#[trigger] first[j]).start < r.start && r.end
                            < first[j].end implies false by {
                        if j > i {
                            assert(first[i as int].end + 1 < first[j].start);
                        }
                    }
                }
                self.ranges[i].end = range.start - 1;
                proof {
                    let e = Interval { start: s[i as int].start, end: r.start - 1 };
                    assert(self@ =~= s.update(i as int, e));
                    lemma_pare_narrow(s, i as int, e, r);
                    lemma_pared_trans(first, s, self@, r);
                    Self::lemma_narrow_keeps_order(s, i as int, e);
                    assert forall|k: int| 0 <= k < i + 1 implies clear_of(#[trigger] self@[k], r) by {
                        if k < i {
                            assert(clear_of(s[k], r));
                        }
                    }
                }
                i += 1;
            } else {
                // The end point of the range to be removed is contained by
                // the existing range. Then, the start point of the existing
                // range must be updated.
                proof {
                    if i + 1 < s.len() {
                        assert(s[i as int].end + 1 < s[i + 1].start);
                    }
                    assert forall|j: int|
                        0 <= j < first.len() && (#[trigger] first[j]).start < r.start && r.end
                            < first[j].end implies false by {
                        if j > i {
                            assert(first[i as int].end + 1 < first[j].start);
                        }
                    }
                }
                self.ranges[i].start = range.end + 1;
                proof {
                    let e = Interval { start: r.end + 1, end: s[i as int].end };
                    assert(self@ =~= s.update(i as int, e));
                    lemma_pare_narrow(s, i as int, e, r);
                    lemma_pared_trans(first, s, self@, r);
                    Self::lemma_narrow_keeps_order(s, i as int, e);
                    assert forall|k: int| 0 <= k < i + 1 implies clear_of(#[trigger] self@[k], r) by {
                        if k < i {
                            assert(clear_of(s[k], r));
                        }
                    }
                }
                i += 1;
            }
        }
        proof {
            let t = self@;
            assert forall|p: int|
                self.points().contains(p) == old(self).points().difference(
                    range@.points(),
                ).contains(p) by {
                if covers(t, p) {
                    let k = choose|k: int| 0 <= k < t.len() && (#[trigger] t[k]).contains(p);
                    assert(clear_of(t[k], r));
                    assert(covers(first, p));
                }
                if covers(first, p) && !r.contains(p) {
                    assert(covers(t, p));
                }
            }
            assert(self.points() =~= old(self).points().difference(range@.points()));
            lemma_coalesced_unique(self@, removed(old(self)@, range@));
        }
        Ok(())
    }

    /// Taking an entry out of a coalesced sequence leaves it coalesced.
    proof fn lemma_remove_keeps_order(s: Seq<Interval>, k: int)
        requires
            coalesced(s),
            0 <= k < s.len(),
        ensures
            coalesced(s.remove(k)),
    {
        let t = s.remove(k);
        assert forall|i: int| 0 <= i < t.len() implies (#[trigger] t[i]).valid() by {
            if i < k {
                assert(s[i].valid());
            } else {
                assert(s[i + 1].valid());
            }
        }
        assert forall|i: int, j: int| 0 <= i < j < t.len() implies (#[trigger] t[i]).end + 1 < (
        #[trigger] t[j]).start by {
            let i0 = if i < k { i } else { i + 1 };
            let j0 = if j < k { j } else { j + 1 };
            assert(s[i0].end + 1 < s[j0].start);
        }
    }

    /// Cutting an entry of a coalesced sequence back to a valid part of
    /// itself leaves the sequence coalesced.
    proof fn lemma_narrow_keeps_order(s: Seq<Interval>, k: int, e: Interval)
        requires
            coalesced(s),
            0 <= k < s.len(),
            s[k].start <= e.start <= e.end <= s[k].end,
        ensures
            coalesced(s.update(k, e)),
    {
        let t = s.update(k, e);
        assert(s[k].valid());
        assert forall|i: int| 0 <= i < t.len() implies (#[trigger] t[i]).valid() by {
            if i != k {
                assert(s[i].valid());
            }
        }
        assert forall|i: int, j: int| 0 <= i < j < t.len() implies (#[trigger] t[i]).end + 1 < (
        #[trigger] t[j]).start by {
            assert(s[i].end + 1 < s[j].start);
        }
    }

    /// Splitting an entry of a coalesced sequence around a range that it
    /// holds strictly inside leaves the sequence coalesced.
    proof fn lemma_split_keeps_order(s: Seq<Interval>, k: int, r: Interval)
        requires
            coalesced(s),
            0 <= k < s.len(),
            s[k].start < r.start,
            r.start <= r.end,
            r.end < s[k].end,
        ensures
            coalesced(
                s.insert(k, Interval { start: s[k].start, end: r.start - 1 }).update(
                    k + 1,
                    Interval { start: r.end + 1, end: s[k].end },
                ),
            ),
    {
        let lo = Interval { start: s[k].start, end: r.start - 1 };
        let hi = Interval { start: r.end + 1, end: s[k].end };
        let t = s.insert(k, lo).update(k + 1, hi);
        assert(s[k].valid());
        assert forall|i: int| 0 <= i < t.len() implies (#[trigger] t[i]).valid() by {
            if i < k {
                assert(s[i].valid());
            } else if i > k + 1 {
                assert(s[i - 1].valid());
            }
        }
        assert forall|i: int, j: int| 0 <= i < j < t.len() implies (#[trigger] t[i]).end + 1 < (
        #[trigger] t[j]).start by {
            let i0 = if i <= k { i } else { i - 1 };
            let j0 = if j <= k { j } else { j - 1 };
            if i0 < j0 {
                assert(s[i0].end + 1 < s[j0].start);
            }
        }
    }

    /// `insert` is idempotent: where `once` is what an `insert` of `range`
    /// made of `set`, and `twice` what another `insert` of `range` made of
    /// `once`, whether it went through or was refused, `twice` holds the
    /// ranges of `once`.
    pub proof fn lemma_insert_idempotent(set: RangeSet, range: Range, once: RangeSet, twice: RangeSet)
        requires
            set.wf(),
            range.wf(),
            once.wf(),
            once.points() == set.points().union(range@.points()),
            insert_refused(once@, range@) ==> twice == once,
            !insert_refused(once@, range@) ==> twice.wf() && twice.points() == once.points().union(
                range@.points(),
            ),
        ensures
            twice@ == once@,
    {
        if !insert_refused(once@, range@) {
            assert(twice.points() =~= once.points());
            lemma_coalesced_unique(twice@, once@);
        }
    }

    /// `remove` undoes `insert` on an empty set: the `insert` of `range`
    /// into the empty `set` goes through and gives `inserted`, which holds
    /// `range` alone; the `remove` of `range` from it goes through too and
    /// gives `removed`, which is empty again.
    pub proof fn lemma_insert_remove_empty(
        set: RangeSet,
        range: Range,
        inserted: RangeSet,
        removed: RangeSet,
    )
        requires
            set.wf(),
            set@.len() == 0,
            range.wf(),
            inserted.wf(),
            inserted.points() == set.points().union(range@.points()),
            removed.wf(),
            removed.points() == inserted.points().difference(range@.points()),
        ensures
            !insert_refused(set@, range@),
            inserted@ == seq![range@],
            !remove_refused(inserted@, range@),
            removed@ == Seq::<Interval>::empty(),
    {
        assert(inserted.points() =~= range@.points());
        lemma_single(inserted@, range@);
        assert(removed.points() =~= Set::<int>::empty());
        let none = Seq::<Interval>::empty();
        assert(points_of(none) =~= Set::<int>::empty());
        lemma_coalesced_unique(removed@, none);
    }

    /// Returns the sum of the size of all the ranges in the `RangeSet`.
    pub fn size(&self) -> (n: u64)
        requires
            self.wf(),
            total_len(self@) <= u64::MAX,
        ensures
            n == total_len(self@),
    {
        let mut sum: u64 = 0;
        let mut i: usize = 0;
        while i < self.in_use
            invariant
                self.wf(),
                i <= self.in_use,
                total_len(self@) <= u64::MAX,
                sum == total_len(self@.take(i as int)),
            decreases self.in_use - i,
        {
            proof {
                lemma_total_len_prefix(self@, i as int);
                lemma_total_len_prefix(self@, i + 1);
                assert(self@[i as int] == self.ranges[i as int]@);
            }
            sum = sum + self.ranges[i].size();
            i += 1;
        }
        assert(self@.take(i as int) =~= self@);
        sum
    }
}

impl Default for RangeSet {
    fn default() -> (set: Self)
        ensures
            set.wf(),
            set@ == Seq::<Interval>::empty(),
    {
        Self::new()
    }
}

} // verus!
