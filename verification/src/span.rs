use vstd::prelude::*;

verus! {

/// Character range of an expression in the source text; anonymous values
/// carry the empty range.
#[derive(Clone, Copy, PartialEq, Eq, Structural, Debug)]
pub struct Span {
    pub start: usize,
    pub end: usize,
}

impl Span {
    /// The span given to values that no source expression produced.
    pub fn empty() -> (r: Span)
        ensures
            r == (Span { start: 0, end: 0 }),
    {
        Span { start: 0, end: 0 }
    }
}

/// The smallest span covering two spans.
pub open spec fn spec_pair_span(x: Span, y: Span) -> Span {
    Span {
        start: if x.start <= y.start {
            x.start
        } else {
            y.start
        },
        end: if x.end >= y.end {
            x.end
        } else {
            y.end
        },
    }
}

/// The smallest span covering two spans.
pub fn pair_span(x: Span, y: Span) -> (r: Span)
    ensures
        r == spec_pair_span(x, y),
{
    Span {
        start: if x.start <= y.start {
            x.start
        } else {
            y.start
        },
        end: if x.end >= y.end {
            x.end
        } else {
            y.end
        },
    }
}

/// The smallest span that covers every span in the list: its start is the
/// least start and its end is the greatest end. An empty list yields the
/// empty span.
pub fn extend(spans: &Vec<Span>) -> (r: Span)
    ensures
        spans@.len() == 0 ==> r == (Span { start: 0, end: 0 }),
        spans@.len() > 0 ==> {
            &&& exists|i: int| 0 <= i < spans@.len() && r.start == spans@[i].start
            &&& exists|i: int| 0 <= i < spans@.len() && r.end == spans@[i].end
            &&& forall|i: int| 0 <= i < spans@.len() ==> r.start <= spans@[i].start
            &&& forall|i: int| 0 <= i < spans@.len() ==> r.end >= spans@[i].end
        },
{
    if spans.len() == 0 {
        return Span { start: 0, end: 0 };
    }
    let mut start: usize = spans[0].start;
    let mut end: usize = spans[0].end;
    let mut k: usize = 1;
    while k < spans.len()
        invariant
            1 <= k <= spans@.len(),
            exists|i: int| 0 <= i < k && start == spans@[i].start,
            exists|i: int| 0 <= i < k && end == spans@[i].end,
            forall|i: int| 0 <= i < k ==> start <= spans@[i].start,
            forall|i: int| 0 <= i < k ==> end >= spans@[i].end,
        decreases spans@.len() - k,
    {
        if spans[k].start < start {
            start = spans[k].start;
        }
        if spans[k].end > end {
            end = spans[k].end;
        }
        k += 1;
    }
    Span { start, end }
}

} // verus!
