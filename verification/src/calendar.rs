//! The days of a range, bucketed by month.

use crate::date::{
    dates_view, lemma_day_number_order, lemma_next_day, month_before, valid_month, Date, MonthKey,
    Ymd,
};
use vstd::prelude::*;

verus! {

/// The day `n` days after `start`.
pub open spec fn day_after(start: Ymd, n: nat) -> Ymd
    decreases n,
{
    if n == 0 {
        start
    } else {
        day_after(start, (n - 1) as nat).next()
    }
}

/// The first `n` days from `start` on.
pub open spec fn days_from(start: Ymd, n: nat) -> Seq<Ymd> {
    Seq::new(n, |i: int| day_after(start, i as nat))
}

/// Every day from `start` to `end`, both included, in order.
pub open spec fn day_span(start: Ymd, end: Ymd) -> Seq<Ymd> {
    days_from(start, (end.day_number() - start.day_number() + 1) as nat)
}

/// A range of days, both ends included. The start is never after the end.
#[derive(Clone, Copy, Debug, PartialEq, Eq, Hash)]
pub struct DateRange {
    start: Date,
    end: Date,
}

impl DateRange {
    #[verifier::type_invariant]
    pub closed spec fn inv(&self) -> bool {
        !self.end@.before(self.start@)
    }

    /// The first day of the range.
    pub closed spec fn first(&self) -> Ymd {
        self.start@
    }

    /// The last day of the range.
    pub closed spec fn last(&self) -> Ymd {
        self.end@
    }

    /// The range from `start` to `end`; none if `start` is after `end`.
    pub fn new(start: Date, end: Date) -> (r: Option<DateRange>)
        ensures
            r is Some <==> !end@.before(start@),
            r matches Some(range) ==> range.first() == start@ && range.last() == end@,
    {
        if end.is_before(&start) {
            None
        } else {
            Some(DateRange { start, end })
        }
    }

    /// The first day of the range.
    pub fn start(&self) -> (r: Date)
        ensures
            r@ == self.first(),
            !self.last().before(self.first()),
    {
        proof {
            use_type_invariant(self);
        }
        self.start
    }

    /// The last day of the range.
    pub fn end(&self) -> (r: Date)
        ensures
            r@ == self.last(),
            !self.last().before(self.first()),
    {
        proof {
            use_type_invariant(self);
        }
        self.end
    }

    /// The days of the range, bucketed by month.
    pub fn months(&self) -> (r: Vec<MonthBucket>)
        ensures
            all_dates(buckets_view(r@)) == day_span(self.first(), self.last()),
            bucketed(buckets_view(r@)),
    {
        build(self.start(), self.end())
    }
}

/// The days of a range that lie in one month, in order.
#[derive(Clone, Debug, PartialEq, Eq)]
pub struct MonthBucket {
    pub key: MonthKey,
    pub dates: Vec<Date>,
}

/// What a [`MonthBucket`] holds.
pub struct BucketView {
    pub key: (int, int),
    pub dates: Seq<Ymd>,
}

impl View for MonthBucket {
    type V = BucketView;

    open spec fn view(&self) -> BucketView {
        BucketView { key: self.key@, dates: dates_view(self.dates@) }
    }
}

/// What a run of buckets holds.
pub open spec fn buckets_view(buckets: Seq<MonthBucket>) -> Seq<BucketView> {
    Seq::new(buckets.len(), |i: int| buckets[i]@)
}

/// The days of all the buckets, bucket after bucket.
pub open spec fn all_dates(buckets: Seq<BucketView>) -> Seq<Ymd>
    decreases buckets.len(),
{
    if buckets.len() == 0 {
        Seq::empty()
    } else {
        all_dates(buckets.drop_last()) + buckets.last().dates
    }
}

/// The bucket is not empty, and each of its days lies in the month of its
/// key.
pub open spec fn keyed(bucket: BucketView) -> bool {
    &&& bucket.dates.len() > 0
    &&& valid_month(bucket.key)
    &&& forall|j: int| 0 <= j < bucket.dates.len() ==> (#[trigger] bucket.dates[j]).month_key()
        == bucket.key
}

/// Each bucket is keyed, and the keys stand in chronological order, so that
/// no month has two buckets.
pub open spec fn bucketed(buckets: Seq<BucketView>) -> bool {
    &&& forall|i: int| 0 <= i < buckets.len() ==> keyed(#[trigger] buckets[i])
    &&& forall|i: int, j: int|
        0 <= i < j < buckets.len() ==> month_before(
            (#[trigger] buckets[i]).key,
            (#[trigger] buckets[j]).key,
        )
}

/// The `n`-th day after a valid day is valid and has the `n`-th day number
/// after it, as far as the calendar reaches.
pub proof fn lemma_day_after(start: Ymd, n: nat)
    requires
        start.valid(),
        exists|end: Ymd| end.valid() && #[trigger] end.day_number() >= start.day_number() + n,
    ensures
        day_after(start, n).valid(),
        day_after(start, n).day_number() == start.day_number() + n,
    decreases n,
{
    if n > 0 {
        let end = choose|end: Ymd| end.valid() && #[trigger] end.day_number() >= start.day_number()
            + n;
        lemma_day_after(start, (n - 1) as nat);
        let d = day_after(start, (n - 1) as nat);
        lemma_day_number_order(d, end);
        lemma_next_day(d);
    }
}

/// The span of a range of valid days starts with the first, ends with the
/// last, and holds valid days whose day numbers grow by one.
pub proof fn lemma_day_span(start: Ymd, end: Ymd)
    requires
        start.valid(),
        end.valid(),
        !end.before(start),
    ensures
        day_span(start, end).len() == end.day_number() - start.day_number() + 1,
        day_span(start, end).len() >= 1,
        day_span(start, end).first() == start,
        day_span(start, end).last() == end,
        forall|i: int|
            0 <= i < day_span(start, end).len() ==> {
                &&& (#[trigger] day_span(start, end)[i]).valid()
                &&& day_span(start, end)[i].day_number() == start.day_number() + i
            },
{
    lemma_day_number_order(start, end);
    let n = end.day_number() - start.day_number() + 1;
    assert forall|i: int| 0 <= i < n implies {
        &&& (#[trigger] day_span(start, end)[i]).valid()
        &&& day_span(start, end)[i].day_number() == start.day_number() + i
    } by {
        lemma_day_after(start, i as nat);
    }
    lemma_day_number_order(day_span(start, end).last(), end);
}

/// Buckets the days from `start` to `end` by month.
///
/// The buckets, taken in order, hold every day from `start` to `end` once and
/// in order; each bucket holds the days of one month, and the months follow
/// each other chronologically.
pub fn build(start: Date, end: Date) -> (r: Vec<MonthBucket>)
    requires
        !end@.before(start@),
    ensures
        all_dates(buckets_view(r@)) == day_span(start@, end@),
        bucketed(buckets_view(r@)),
{
    let mut buckets: Vec<MonthBucket> = Vec::new();
    let mut dates: Vec<Date> = Vec::new();
    let mut key = start.month_key();
    let mut cur = start;
    let ghost mut n: nat = 0;
    proof {
        use_type_invariant(&start);
        use_type_invariant(&end);
    }
    loop
        invariant_except_break
            start@.valid(),
            end@.valid(),
            cur@.valid(),
            !end@.before(cur@),
            cur@ == day_after(start@, n),
            cur@.day_number() == start@.day_number() + n,
            key@ == cur@.month_key(),
            all_dates(buckets_view(buckets@)) + dates_view(dates@) == days_from(start@, n),
            forall|j: int| 0 <= j < dates.len() ==> (#[trigger] dates@[j])@.month_key() == key@,
            bucketed(buckets_view(buckets@)),
            forall|i: int|
                0 <= i < buckets.len() ==> month_before((#[trigger] buckets@[i])@.key, key@),
        ensures
            dates.len() > 0,
            valid_month(key@),
            all_dates(buckets_view(buckets@)) + dates_view(dates@) == day_span(start@, end@),
            forall|j: int| 0 <= j < dates.len() ==> (#[trigger] dates@[j])@.month_key() == key@,
            bucketed(buckets_view(buckets@)),
            forall|i: int|
                0 <= i < buckets.len() ==> month_before((#[trigger] buckets@[i])@.key, key@),
        decreases end@.day_number() - cur@.day_number(),
    {
        let ghost before = dates_view(dates@);
        dates.push(cur);
        proof {
            let earlier = all_dates(buckets_view(buckets@));
            assert(dates_view(dates@) =~= before.push(cur@));
            assert(earlier + before.push(cur@) =~= (earlier + before).push(cur@));
            lemma_day_number_order(cur@, end@);
        }
        if cur.same_day(&end) {
            break ;
        }
        match cur.succ() {
            Some(next) => {
                proof {
                    lemma_next_day(cur@);
                    n = n + 1;
                }
                let next_key = next.month_key();
                if !next_key.same_month(&key) {
                    let ghost done = buckets_view(buckets@);
                    let bucket = MonthBucket { key, dates };
                    buckets.push(bucket);
                    dates = Vec::new();
                    proof {
                        assert(buckets_view(buckets@) =~= done.push(bucket@));
                        assert(buckets_view(buckets@).drop_last() =~= done);
                    }
                    key = next_key;
                }
                cur = next;
            },
            None => {
                // Not reached: a day before `end` is not the calendar's last.
                break ;
            },
        }
    }
    let ghost done = buckets_view(buckets@);
    let bucket = MonthBucket { key, dates };
    buckets.push(bucket);
    proof {
        assert(buckets_view(buckets@) =~= done.push(bucket@));
        assert(buckets_view(buckets@).drop_last() =~= done);
    }
    buckets
}

} // verus!
