use fsx_challenge::challenge::{
    build_challenge, draw_yardages, new_random_challenge, FSXChallenge, Rings, NUM_STATIONS,
};
use fsx_challenge::naming::{format_name, round_yards, uid};
use fsx_challenge::units::{Meters, Yards};
use std::hash::{Hash, Hasher};
use std::ops::Range;

fn range(lo: usize, hi: usize) -> Range<Yards> {
    Range { start: Yards::new(lo), end: Yards::new(hi) }
}

fn rings(scores: (usize, usize, usize)) -> Rings {
    Rings {
        inner_ring: Yards::new(8),
        mid_ring: Yards::new(16),
        outer_ring: Yards::new(24),
        inner_score: scores.0,
        mid_score: scores.1,
        outer_score: scores.2,
    }
}

fn fixed_yardages() -> Vec<Yards> {
    (0..20usize).map(|i| Yards(20_000 + (i % 2) * 15_000 + i)).collect()
}

fn random(lo: usize, hi: usize, gap: usize, scores: (usize, usize, usize)) -> FSXChallenge {
    new_random_challenge(
        range(lo, hi),
        Yards::new(gap),
        Yards::new(8),
        Yards::new(16),
        Yards::new(24),
        scores.0,
        scores.1,
        scores.2,
    )
    .expect("a challenge")
}

fn check_stations(c: &FSXChallenge, scores: (usize, usize, usize)) {
    assert_eq!(c.num_stations, NUM_STATIONS);
    assert_eq!(c.stations.len(), 20);
    for (i, s) in c.stations.iter().enumerate() {
        assert_eq!(s.array_index, i);
        assert_eq!(s.station_num, i + 1);
        assert_eq!(s.desc, "1");
        assert_eq!(s.skill_type, 0);
        assert_eq!(s.num_shots_am, 1);
        assert_eq!(s.num_shots_pro, 1);
        assert_eq!(s.num_shots_to_use, 1);
        assert_eq!(s.trgt_dist_women, s.trgt_dist_am);
        assert_eq!(s.trgt_dist_am, s.trgt_dist_pro);
        assert_eq!(s.inner_ring_diam_am, s.inner_ring_diam_pro);
        assert_eq!(s.mid_ring_diam_am, s.mid_ring_diam_pro);
        assert_eq!(s.outer_ring_diam_am, s.outer_ring_diam_pro);
        assert_eq!(s.inner_ring_diam_am, Meters(7_315));
        assert_eq!(s.mid_ring_diam_am, Meters(14_630));
        assert_eq!(s.outer_ring_diam_am, Meters(21_945));
        assert_eq!((s.inner_score, s.mid_score, s.outer_score), scores);
        assert_eq!(s.obstacle, 0);
        assert_eq!(s.obstacle_dist, Meters(0));
    }
}

fn check_distances_in(c: &FSXChallenge, lo: usize, hi: usize) {
    let lo_m = Yards::new(lo).to_meters().0;
    let hi_m = Yards::new(hi).to_meters().0;
    for s in &c.stations {
        assert!(lo_m <= s.trgt_dist_am.0 && s.trgt_dist_am.0 <= hi_m);
    }
}

fn check_placement(ys: &[Yards], lo: usize, hi: usize, gap: usize) {
    assert_eq!(ys.len(), 20);
    for y in ys {
        assert!(Yards::new(lo) <= *y && *y < Yards::new(hi));
    }
    for w in ys.windows(2) {
        assert!(w[0].abs_diff(w[1]) >= Yards::new(gap));
    }
}

fn is_name_shaped(name: &str) -> bool {
    let parts: Vec<&str> = name.split(' ').collect();
    parts.len() == 4
        && !parts[0].is_empty()
        && parts[0].chars().all(|c| c.is_ascii_digit())
        && parts[1] == "-"
        && !parts[2].is_empty()
        && parts[2].chars().all(|c| c.is_ascii_digit())
        && parts[3].len() == 8
        && parts[3].chars().all(|c| c.is_ascii_digit() || ('a'..='f').contains(&c))
}

fn std_digest(ms: &[usize]) -> u32 {
    let mut s = std::collections::hash_map::DefaultHasher::new();
    for m in ms {
        m.hash(&mut s);
    }
    s.finish() as u32
}

#[test]
fn default_query_gives_twenty_spaced_stations() {
    let c = random(20, 40, 10, (5, 3, 1));
    check_stations(&c, (5, 3, 1));
    check_distances_in(&c, 20, 40);
    assert!(c.name.starts_with("20 - 40 "));
    assert!(is_name_shaped(&c.name));
}

#[test]
fn default_query_yardages_keep_range_and_gap() {
    let ys = draw_yardages(range(20, 40), Yards::new(10)).expect("yardages");
    check_placement(&ys, 20, 40, 10);
}

#[test]
fn zero_gap_query_allows_any_neighbour() {
    let ys = draw_yardages(range(50, 60), Yards(0)).expect("yardages");
    check_placement(&ys, 50, 60, 0);
    let c = random(50, 60, 0, (5, 3, 1));
    check_stations(&c, (5, 3, 1));
    check_distances_in(&c, 50, 60);
    assert!(c.name.starts_with("50 - 60 "));
}

#[test]
fn custom_scores_reach_every_station() {
    let c = random(30, 50, 10, (7, 4, 2));
    check_stations(&c, (7, 4, 2));
    assert!(c.name.starts_with("30 - 50 "));
}

#[test]
fn built_challenge_follows_given_yardages() {
    let ys = fixed_yardages();
    let c = build_challenge(range(20, 40), &ys, rings((5, 3, 1)));
    check_stations(&c, (5, 3, 1));
    for (s, y) in c.stations.iter().zip(ys.iter()) {
        assert_eq!(s.trgt_dist_am, y.to_meters());
    }
    assert_eq!(c.stations[0].trgt_dist_am, Meters(18_288));
    assert!(is_name_shaped(&c.name));
}

#[test]
fn name_is_reproducible_from_yardages() {
    let ys = fixed_yardages();
    let a = build_challenge(range(20, 40), &ys, rings((5, 3, 1)));
    let b = build_challenge(range(20, 40), &ys, rings((1, 1, 1)));
    assert_eq!(a.name, b.name);
    assert_eq!(a.name, format!("20 - 40 {:08x}", uid(&ys)));
}

#[test]
fn uid_is_stable_within_a_run() {
    let ys = fixed_yardages();
    assert_eq!(uid(&ys), uid(&ys));
}

#[test]
fn uid_is_low_half_of_std_digest() {
    let ys = fixed_yardages();
    let ms: Vec<usize> = ys.iter().map(|y| y.0).collect();
    assert_eq!(uid(&ys), std_digest(&ms));
}

#[test]
fn uid_depends_on_yardages() {
    let ys = fixed_yardages();
    let mut other = ys.clone();
    other[19] = Yards(other[19].0 + 1);
    assert_ne!(uid(&ys), uid(&other));
}

#[test]
fn format_name_pads_hex_to_eight_digits() {
    assert_eq!(format_name(Yards::new(20), Yards::new(40), 0xab), "20 - 40 000000ab");
    assert_eq!(format_name(Yards(0), Yards::new(7), 0), "0 - 7 00000000");
    assert_eq!(format_name(Yards::new(100), Yards::new(1234), 0xdeadbeef), "100 - 1234 deadbeef");
}

#[test]
fn format_name_rounds_halves_up() {
    assert_eq!(format_name(Yards(20_499), Yards(40_500), 1), "20 - 41 00000001");
    assert_eq!(round_yards(Yards(20_500)), 21);
    assert_eq!(round_yards(Yards(20_499)), 20);
    assert_eq!(round_yards(Yards(999)), 1);
    assert_eq!(round_yards(Yards(usize::MAX)), usize::MAX / 1000 + 1);
}
