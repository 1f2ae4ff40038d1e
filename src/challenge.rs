//! Building a challenge: twenty stations placed at sampled distances, named
//! after the range and a short digest of the distances.
use std::ops::Range;
use vstd::prelude::*;
use vstd::string::*;

use crate::naming::{challenge_name, format_name, uid, uid_of};
use crate::sampler::{valid_placement, yards_within};
use crate::units::{milli_meters_of, Meters, Yards};

verus! {

/// Stations in every challenge.
pub const NUM_STATIONS: usize = 20;

/// One target position of a challenge.
pub struct Station {
    pub array_index: usize,
    pub desc: String,
    pub station_num: usize,
    pub skill_type: usize,
    pub num_shots_am: usize,
    pub num_shots_pro: usize,
    pub num_shots_to_use: usize,
    pub trgt_dist_women: Meters,
    pub trgt_dist_am: Meters,
    pub trgt_dist_pro: Meters,
    pub inner_ring_diam_am: Meters,
    pub mid_ring_diam_am: Meters,
    pub outer_ring_diam_am: Meters,
    pub inner_ring_diam_pro: Meters,
    pub mid_ring_diam_pro: Meters,
    pub outer_ring_diam_pro: Meters,
    pub inner_score: usize,
    pub mid_score: usize,
    pub outer_score: usize,
    pub obstacle: usize,
    pub obstacle_dist: Meters,
}

/// A named course of stations.
pub struct FSXChallenge {
    pub name: String,
    pub num_stations: usize,
    pub stations: Vec<Station>,
}

/// The ring diameters and scores that every station of a challenge shares.
pub struct Rings {
    pub inner_ring: Yards,
    pub mid_ring: Yards,
    pub outer_ring: Yards,
    pub inner_score: usize,
    pub mid_score: usize,
    pub outer_score: usize,
}

/// `s` is the station at index `i` for distance `y` with the shared
/// ring diameters and scores `g`.
pub open spec fn station_at(s: Station, i: int, y: Yards, g: Rings) -> bool {
    &&& s.array_index == i
    &&& s.station_num == i + 1
    &&& s.desc@ == seq!['1']
    &&& s.skill_type == 0
    &&& s.num_shots_am == 1
    &&& s.num_shots_pro == 1
    &&& s.num_shots_to_use == 1
    &&& s.trgt_dist_women.0 == milli_meters_of(y.0 as nat)
    &&& s.trgt_dist_am.0 == milli_meters_of(y.0 as nat)
    &&& s.trgt_dist_pro.0 == milli_meters_of(y.0 as nat)
    &&& s.inner_ring_diam_am.0 == milli_meters_of(g.inner_ring.0 as nat)
    &&& s.mid_ring_diam_am.0 == milli_meters_of(g.mid_ring.0 as nat)
    &&& s.outer_ring_diam_am.0 == milli_meters_of(g.outer_ring.0 as nat)
    &&& s.inner_ring_diam_pro.0 == milli_meters_of(g.inner_ring.0 as nat)
    &&& s.mid_ring_diam_pro.0 == milli_meters_of(g.mid_ring.0 as nat)
    &&& s.outer_ring_diam_pro.0 == milli_meters_of(g.outer_ring.0 as nat)
    &&& s.inner_score == g.inner_score
    &&& s.mid_score == g.mid_score
    &&& s.outer_score == g.outer_score
    &&& s.obstacle == 0
    &&& s.obstacle_dist.0 == 0
}

/// The station at index `i` for distance `y`.
fn make_station(i: usize, y: Yards, g: &Rings) -> (s: Station)
    requires
        i < usize::MAX,
    ensures
        station_at(s, i as int, y, *g),
{
    let desc = String::from_str("1");
    proof {
        reveal_strlit("1");
        assert(desc@ =~= seq!['1']);
    }
    Station {
        array_index: i,
        desc,
        station_num: i + 1,
        skill_type: 0,
        num_shots_am: 1,
        num_shots_pro: 1,
        num_shots_to_use: 1,
        trgt_dist_women: y.to_meters(),
        trgt_dist_am: y.to_meters(),
        trgt_dist_pro: y.to_meters(),
        inner_ring_diam_am: g.inner_ring.to_meters(),
        mid_ring_diam_am: g.mid_ring.to_meters(),
        outer_ring_diam_am: g.outer_ring.to_meters(),
        inner_ring_diam_pro: g.inner_ring.to_meters(),
        mid_ring_diam_pro: g.mid_ring.to_meters(),
        outer_ring_diam_pro: g.outer_ring.to_meters(),
        inner_score: g.inner_score,
        mid_score: g.mid_score,
        outer_score: g.outer_score,
        obstacle: 0,
        obstacle_dist: Yards::new(0).to_meters(),
    }
}

/// `c` is the challenge over `dist` whose stations stand at the distances
/// `ys`, in order, with ring diameters and scores `g`.
pub open spec fn is_challenge_of(c: FSXChallenge, dist: Range<Yards>, ys: Seq<Yards>, g: Rings) -> bool {
    &&& c.num_stations == NUM_STATIONS
    &&& c.stations@.len() == ys.len()
    &&& forall|i: int| 0 <= i < ys.len() ==> #[trigger] station_at(c.stations@[i], i, ys[i], g)
    &&& c.name@ == challenge_name(dist.start, dist.end, uid_of(ys))
}

/// The challenge over `dist` with stations at the distances `ys`, in order.
pub fn build_challenge(dist: Range<Yards>, ys: &Vec<Yards>, g: Rings) -> (c: FSXChallenge)
    requires
        ys@.len() == NUM_STATIONS,
    ensures
        is_challenge_of(c, dist, ys@, g),
{
    let mut stations: Vec<Station> = Vec::new();
    let mut i: usize = 0;
    while i < ys.len()
        invariant
            i <= ys@.len() == NUM_STATIONS,
            stations@.len() == i,
            forall|j: int| 0 <= j < i ==> #[trigger] station_at(stations@[j], j, ys@[j], g),
        decreases ys@.len() - i,
    {
        let s = make_station(i, ys[i], &g);
        stations.push(s);
        i = i + 1;
    }
    let name = format_name(dist.start, dist.end, uid(ys));
    FSXChallenge { name, num_stations: NUM_STATIONS, stations }
}

/// Draws `NUM_STATIONS` distances in `[lo, hi)`, each at least `min_gap`
/// from the one before. `None` when the sampler gave up on one of them,
/// which a gap of zero never lets happen.
pub fn draw_yardages(dist: Range<Yards>, min_gap: Yards) -> (r: Option<Vec<Yards>>)
    requires
        dist.start.0 < dist.end.0,
    ensures
        r matches Some(ys) ==> ys@.len() == NUM_STATIONS && valid_placement(
            ys@,
            dist.start,
            dist.end,
            min_gap,
        ),
        min_gap.0 == 0 ==> r is Some,
{
    let lo = dist.start;
    let hi = dist.end;
    let mut it = yards_within(dist, min_gap);
    let mut ys: Vec<Yards> = Vec::new();
    while ys.len() < NUM_STATIONS
        invariant
            it.wf(),
            it.bounds.start == lo,
            it.bounds.end == hi,
            it.min_gap == min_gap,
            ys@.len() <= NUM_STATIONS,
            valid_placement(ys@, lo, hi, min_gap),
            ys@.len() == 0 ==> it.last is None,
            ys@.len() > 0 ==> it.last == Some(ys@.last()),
            min_gap.0 == 0 ==> it.min_gap.0 == 0,
        decreases NUM_STATIONS - ys@.len(),
    {
        match it.next() {
            Some(y) => {
                ys.push(y);
            },
            None => {
                return None;
            },
        }
    }
    Some(ys)
}

/// In a built challenge, each station's three target distances are equal,
/// and so are its amateur and pro ring diameters, ring by ring.
pub proof fn lemma_tier_symmetry(c: FSXChallenge, dist: Range<Yards>, ys: Seq<Yards>, g: Rings, i: int)
    requires
        is_challenge_of(c, dist, ys, g),
        0 <= i < c.stations@.len(),
    ensures
        c.stations@[i].trgt_dist_women == c.stations@[i].trgt_dist_am,
        c.stations@[i].trgt_dist_am == c.stations@[i].trgt_dist_pro,
        c.stations@[i].inner_ring_diam_am == c.stations@[i].inner_ring_diam_pro,
        c.stations@[i].mid_ring_diam_am == c.stations@[i].mid_ring_diam_pro,
        c.stations@[i].outer_ring_diam_am == c.stations@[i].outer_ring_diam_pro,
{
    assert(station_at(c.stations@[i], i, ys[i], g));
}

/// `c` is a challenge over `dist` with ring diameters and scores `g`, whose
/// `NUM_STATIONS` distances lie in the range, each at least `min_gap` from
/// the one before.
pub open spec fn is_placed_challenge(c: FSXChallenge, dist: Range<Yards>, min_gap: Yards, g: Rings) -> bool {
    exists|ys: Seq<Yards>|
        {
            &&& ys.len() == NUM_STATIONS
            &&& valid_placement(ys, dist.start, dist.end, min_gap)
            &&& #[trigger] is_challenge_of(c, dist, ys, g)
        }
}

/// A challenge over `dist` whose `NUM_STATIONS` distances are drawn at
/// random, each at least `min_gap` from the one before, with the given ring
/// diameters and scores on every station. `None` when no valid next distance
/// turned up within the sampler's draw limit, which a gap of zero never
/// lets happen.
pub fn new_random_challenge(
    dist: Range<Yards>,
    min_gap: Yards,
    inner_ring: Yards,
    mid_ring: Yards,
    outer_ring: Yards,
    inner_score: usize,
    mid_score: usize,
    outer_score: usize,
) -> (r: Option<FSXChallenge>)
    requires
        dist.start.0 < dist.end.0,
    ensures
        r matches Some(c) ==> is_placed_challenge(
            c,
            dist,
            min_gap,
            (Rings { inner_ring, mid_ring, outer_ring, inner_score, mid_score, outer_score }),
        ),
        min_gap.0 == 0 ==> r is Some,
{
    let g = Rings { inner_ring, mid_ring, outer_ring, inner_score, mid_score, outer_score };
    let bounds = Range { start: dist.start, end: dist.end };
    match draw_yardages(bounds, min_gap) {
        Some(ys) => {
            let c = build_challenge(dist, &ys, g);
            assert(is_challenge_of(c, dist, ys@, g));
            Some(c)
        },
        None => None,
    }
}

} // verus!
