//! Spans of days: the first and the last day of a list.
use vstd::prelude::*;
use crate::model::Date;

verus! {

/// A span of days, both ends included.
#[derive(Debug, Clone, Copy, PartialEq, Eq, Structural, Hash)]
pub struct Interval {
    pub start_date: Date,
    pub end_date: Date,
}

/// The smaller of two day numbers.
pub open spec fn earlier(a: i32, b: i32) -> i32 {
    if a <= b { a } else { b }
}

/// The larger of two day numbers.
pub open spec fn later(a: i32, b: i32) -> i32 {
    if a >= b { a } else { b }
}

/// The smallest day number of a list that is not empty.
pub open spec fn lowest(days: Seq<i32>) -> i32
    decreases days.len(),
{
    if days.len() == 0 {
        0
    } else if days.len() == 1 {
        days[0]
    } else {
        earlier(lowest(days.drop_last()), days.last())
    }
}

/// The largest day number of a list that is not empty.
pub open spec fn highest(days: Seq<i32>) -> i32
    decreases days.len(),
{
    if days.len() == 0 {
        0
    } else if days.len() == 1 {
        days[0]
    } else {
        later(highest(days.drop_last()), days.last())
    }
}

/// The span from the first to the last day of a list; none for the empty list.
pub open spec fn span(days: Seq<i32>) -> Option<Interval> {
    if days.len() == 0 {
        None
    } else {
        Some(Interval { start_date: Date { days: lowest(days) }, end_date: Date { days: highest(days) } })
    }
}

/// The span of a single day.
pub open spec fn day_span(d: i32) -> Interval {
    Interval { start_date: Date { days: d }, end_date: Date { days: d } }
}

/// The smallest span that holds two spans.
pub open spec fn join(a: Interval, b: Interval) -> Interval {
    Interval {
        start_date: Date { days: earlier(a.start_date.days, b.start_date.days) },
        end_date: Date { days: later(a.end_date.days, b.end_date.days) },
    }
}

/// The smallest span that holds two spans, each of which may be none.
pub open spec fn merge(a: Option<Interval>, b: Option<Interval>) -> Option<Interval> {
    match (a, b) {
        (None, _) => b,
        (_, None) => a,
        (Some(x), Some(y)) => Some(join(x, y)),
    }
}

/// The lowest day of a list is one of its days and none is below it;
/// likewise the highest.
pub proof fn lemma_lowest_highest(days: Seq<i32>)
    requires
        days.len() > 0,
    ensures
        exists|i: int| 0 <= i < days.len() && #[trigger] days[i] == lowest(days),
        exists|i: int| 0 <= i < days.len() && #[trigger] days[i] == highest(days),
        forall|i: int| 0 <= i < days.len() ==> lowest(days) <= #[trigger] days[i] <= highest(days),
    decreases days.len(),
{
    if days.len() == 1 {
        assert(days[0] == lowest(days));
        assert(days[0] == highest(days));
    } else {
        let front = days.drop_last();
        lemma_lowest_highest(front);
        let a = choose|i: int| 0 <= i < front.len() && #[trigger] front[i] == lowest(front);
        let b = choose|i: int| 0 <= i < front.len() && #[trigger] front[i] == highest(front);
        assert(days[a] == front[a]);
        assert(days[b] == front[b]);
        let last = days.len() - 1;
        if lowest(days) == days.last() {
            assert(days[last] == lowest(days));
        } else {
            assert(days[a] == lowest(days));
        }
        if highest(days) == days.last() {
            assert(days[last] == highest(days));
        } else {
            assert(days[b] == highest(days));
        }
        assert forall|i: int| 0 <= i < days.len() implies lowest(days) <= #[trigger] days[i] <= highest(days) by {
            if i < front.len() {
                assert(days[i] == front[i]);
            }
        }
    }
}

pub proof fn lemma_span_push(days: Seq<i32>, d: i32)
    ensures
        span(days.push(d)) == merge(span(days), Some(day_span(d))),
{
    assert(days.push(d).drop_last() =~= days);
}

pub proof fn lemma_span_add(a: Seq<i32>, b: Seq<i32>)
    ensures
        span(a + b) == merge(span(a), span(b)),
    decreases b.len(),
{
    if b.len() == 0 {
        assert(a + b =~= a);
    } else {
        let front = b.drop_last();
        assert(a + b =~= (a + front).push(b.last()));
        assert(b =~= front.push(b.last()));
        lemma_span_add(a, front);
        lemma_span_push(a + front, b.last());
        lemma_span_push(front, b.last());
    }
}

/// The smallest span that holds two spans, each of which may be none.
pub fn merge_spans(a: Option<Interval>, b: Option<Interval>) -> (r: Option<Interval>)
    ensures
        r == merge(a, b),
{
    match (a, b) {
        (None, _) => b,
        (_, None) => a,
        (Some(x), Some(y)) => {
            let mut r = x;
            r.update_bounds(&y);
            Some(r)
        },
    }
}

impl Interval {
    /// Widens the span so that it holds the other one.
    pub fn update_bounds(&mut self, other: &Interval)
        ensures
            *final(self) == join(*old(self), *other),
    {
        if other.start_date.days < self.start_date.days {
            self.start_date = other.start_date;
        }
        if other.end_date.days > self.end_date.days {
            self.end_date = other.end_date;
        }
    }

    /// Widens the span so that it holds the day.
    pub fn update_bounds_with_date(&mut self, d: &Date)
        ensures
            *final(self) == join(*old(self), day_span(d.days)),
    {
        if d.days < self.start_date.days {
            self.start_date = *d;
        }
        if d.days > self.end_date.days {
            self.end_date = *d;
        }
    }
}

} // verus!
