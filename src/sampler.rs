//! A sequence of yardages drawn uniformly from a half-open range, where each
//! accepted value lies at least a minimum gap away from the one before it.
use rand::rngs::ThreadRng;
use std::ops::Range;
use vstd::prelude::*;

use crate::units::{abs_diff_spec, Yards};

verus! {

#[verifier::external_type_specification]
#[verifier::external_body]
pub struct ExThreadRng(ThreadRng);

/// Relies on rand::thread_rng: a handle on the calling thread's generator.
pub assume_specification[ rand::thread_rng ]() -> ThreadRng;

/// Relies on rand's Rng::gen_range over a half-open usize range: a uniform
/// integer draw in `[lo, hi)`. It panics on an empty range, which `requires`
/// leaves out.
#[verifier::external_body]
fn draw_milli(rng: &mut ThreadRng, lo: usize, hi: usize) -> (r: usize)
    requires
        lo < hi,
    ensures
        lo <= r < hi,
{
    rand::Rng::gen_range(rng, lo..hi)
}

/// How many draws one call of `next` makes at most before it gives up. When
/// the range is narrower than twice the gap, a valid next value may not
/// exist at all; this cap turns that endless search into a `None`.
pub const MAX_DRAWS: u64 = 100_000_000;

/// `y` lies in the half-open range `[lo, hi)`.
pub open spec fn within(y: Yards, lo: Yards, hi: Yards) -> bool {
    lo.0 <= y.0 < hi.0
}

/// `y` may follow `last`: there is no previous value, or `y` is at least
/// `min_gap` away from it.
pub open spec fn gap_ok(last: Option<Yards>, y: Yards, min_gap: Yards) -> bool {
    match last {
        None => true,
        Some(l) => abs_diff_spec(l.0 as int, y.0 as int) >= min_gap.0,
    }
}

/// Every value of `ys` lies in `[lo, hi)` and each one after the first is
/// at least `min_gap` away from its predecessor.
pub open spec fn valid_placement(ys: Seq<Yards>, lo: Yards, hi: Yards, min_gap: Yards) -> bool {
    &&& forall|i: int| 0 <= i < ys.len() ==> #[trigger] within(ys[i], lo, hi)
    &&& forall|i: int|
        1 <= i < ys.len() ==> #[trigger] abs_diff_spec(ys[i - 1].0 as int, ys[i].0 as int)
            >= min_gap.0
}

/// Whether a drawn value `y` is accepted after `last`.
pub fn accepts(last: Option<Yards>, y: Yards, min_gap: Yards) -> (r: bool)
    ensures
        r == gap_ok(last, y, min_gap),
{
    match last {
        None => true,
        Some(l) => l.abs_diff(y).0 >= min_gap.0,
    }
}

/// The state of a placement sequence: its range, its gap, the generator it
/// draws from and the last value it produced.
pub struct RandYardsIter {
    pub rng: ThreadRng,
    pub bounds: Range<Yards>,
    pub min_gap: Yards,
    pub last: Option<Yards>,
}

/// A fresh placement sequence over `bounds` with gap `min_gap`. An empty
/// range has no value to draw, so `requires` leaves it out.
pub fn yards_within(bounds: Range<Yards>, min_gap: Yards) -> (r: RandYardsIter)
    requires
        bounds.start.0 < bounds.end.0,
    ensures
        r.wf(),
        r.bounds == bounds,
        r.min_gap == min_gap,
        r.last is None,
{
    RandYardsIter { rng: rand::thread_rng(), bounds, min_gap, last: None }
}

impl RandYardsIter {
    /// The range is not empty.
    pub open spec fn wf(&self) -> bool {
        self.bounds.start.0 < self.bounds.end.0
    }

    /// Draws until a value in range is at least the gap away from the last
    /// one, and produces it. Gives `None`, leaving the sequence as it was,
    /// when `MAX_DRAWS` draws were all rejected. With no previous value, or
    /// a gap of zero, the first draw is always accepted.
    pub fn next(&mut self) -> (r: Option<Yards>)
        requires
            old(self).wf(),
        ensures
            final(self).wf(),
            final(self).bounds == old(self).bounds,
            final(self).min_gap == old(self).min_gap,
            match r {
                Some(y) => {
                    &&& within(y, old(self).bounds.start, old(self).bounds.end)
                    &&& gap_ok(old(self).last, y, old(self).min_gap)
                    &&& final(self).last == Some(y)
                },
                None => final(self).last == old(self).last,
            },
            old(self).last is None || old(self).min_gap.0 == 0 ==> r is Some,
    {
        let mut draws: u64 = 0;
        while draws < MAX_DRAWS
            invariant
                self.wf(),
                self.bounds == old(self).bounds,
                self.min_gap == old(self).min_gap,
                self.last == old(self).last,
                old(self).last is None || old(self).min_gap.0 == 0 ==> draws == 0,
            decreases MAX_DRAWS - draws,
        {
            let y = Yards(draw_milli(&mut self.rng, self.bounds.start.0, self.bounds.end.0));
            if accepts(self.last, y, self.min_gap) {
                self.last = Some(y);
                return Some(y);
            }
            draws = draws + 1;
        }
        None
    }
}

} // verus!
