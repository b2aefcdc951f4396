use gorillas::city::{
    gorilla_on, make_cityscape_with_seed, make_round, place_gorillas_with_rng, Building,
    GorillaSpot, BOTTOM_LINE, DEFAULT_BUILDING_WIDTH, GORILLA_HEIGHT, GORILLA_X_ADJUST,
    GORILLA_Y_ADJUST,
};
use rand::rngs::SmallRng;
use rand::SeedableRng;

const WINDOW_HEIGHT: i32 = 6;

fn test_buildings() -> Vec<Building> {
    (0..8)
        .map(|index| Building {
            x: 2 + index * 50,
            width: 48,
            height: 80 + index,
            color: 5,
            windows: Vec::new(),
        })
        .collect()
}

fn top(b: &Building) -> i32 {
    BOTTOM_LINE - b.height
}

#[test]
fn seeded_cityscape_is_deterministic() {
    let first = make_cityscape_with_seed(1991);
    let second = make_cityscape_with_seed(1991);

    assert_eq!(first, second);
    assert!(!first.buildings.is_empty());
}

#[test]
fn cityscape_uses_ega_building_and_window_bounds() {
    let round = make_cityscape_with_seed(1991);
    let first = &round.buildings[0];

    assert_eq!(first.x, 2);
    assert!(first.width >= DEFAULT_BUILDING_WIDTH as i32 + 1);
    assert!(first.width <= DEFAULT_BUILDING_WIDTH as i32 * 2);
    assert!(top(first) > GORILLA_HEIGHT);
    assert!(first.windows.iter().all(|window| {
        window.x >= first.x + 3
            && window.x < first.x + first.width - 3
            && window.y >= top(first)
            && window.y + WINDOW_HEIGHT <= BOTTOM_LINE
    }));
}

#[test]
fn cityscape_buildings_are_adjacent_and_fill_the_screen() {
    for seed in [0u64, 1, 7, 1991, 424242] {
        let round = make_cityscape_with_seed(seed);
        let b = &round.buildings;
        for pair in b.windows(2) {
            assert_eq!(pair[1].x, pair[0].x + pair[0].width + 2);
        }
        let last = b.last().unwrap();
        assert!(last.x <= 630 && last.x + last.width + 2 > 630);
        assert!(b.iter().all(|x| (5..=7).contains(&x.color)));
        assert!((-14..=15).contains(&round.wind));
    }
}

#[test]
fn gorillas_use_second_or_third_building_from_edges() {
    let buildings = test_buildings();
    let mut rng = SmallRng::seed_from_u64(4);
    let gorillas = place_gorillas_with_rng(&buildings, &mut rng);
    let left_candidates = [gorilla_on(&buildings, 1), gorilla_on(&buildings, 2)];
    let right_candidates = [
        gorilla_on(&buildings, buildings.len() - 2),
        gorilla_on(&buildings, buildings.len() - 3),
    ];

    assert!(left_candidates.contains(&gorillas[0]));
    assert!(right_candidates.contains(&gorillas[1]));
}

#[test]
fn gorilla_position_uses_original_ega_offsets() {
    let buildings = test_buildings();
    let gorilla = gorilla_on(&buildings, 1);
    let expected_width = buildings[2].x - buildings[1].x;

    assert_eq!(
        gorilla,
        GorillaSpot {
            x_halves: (2 * buildings[1].x + expected_width - 2 * GORILLA_X_ADJUST) as i64,
            y: (top(&buildings[1]) - GORILLA_Y_ADJUST) as i64,
        }
    );
    // The last building counts its two-pixel gap as roof.
    let last = gorilla_on(&buildings, 7);
    assert_eq!(last.x_halves, (2 * buildings[7].x + 48 + 2 - 28) as i64);
}

#[test]
fn few_buildings_use_the_fallback_spots() {
    let buildings: Vec<Building> = test_buildings().into_iter().take(3).collect();
    let mut rng = SmallRng::seed_from_u64(9);
    let spots = place_gorillas_with_rng(&buildings, &mut rng);
    assert_eq!(spots, [GorillaSpot { x_halves: 280, y: 200 }, GorillaSpot { x_halves: 1000, y: 200 }]);
}

#[test]
fn round_layout_places_gorillas_on_the_generated_skyline() {
    let layout = make_round(77);
    let b = &layout.round.buildings;
    assert!(b.len() >= 4);
    let left = [gorilla_on(b, 1), gorilla_on(b, 2)];
    let right = [gorilla_on(b, b.len() - 2), gorilla_on(b, b.len() - 3)];
    assert!(left.contains(&layout.gorillas[0]));
    assert!(right.contains(&layout.gorillas[1]));
}

#[test]
fn building_follows_its_draws() {
    let rolls = vec![1, 2, 3, 4, 1, 2, 3, 4, 2, 2, 2, 2];
    // width 37 + 5 = 42 gives 4 window columns; height 120 + 15 = 135 gives
    // 9 rows: 36 windows, so take enough rolls.
    let mut all = Vec::new();
    for k in 0..36 {
        all.push(rolls[k % rolls.len()]);
    }
    let b = gorillas::city::building_from_draws(100, 15, 5, 120, 2, &all);
    assert_eq!((b.x, b.width, b.height, b.color), (100, 42, 135, 6));
    assert_eq!(b.windows.len(), 36);
    assert!(!b.windows[0].lit);
    assert!(b.windows[1].lit);
    assert!(!b.windows[4].lit);
    assert_eq!((b.windows[0].x, b.windows[0].y), (103, 335 - 132));
    assert_eq!((b.windows[9].x, b.windows[9].y), (113, 335 - 132));
}

#[test]
fn building_at_the_right_edge_is_narrowed() {
    assert_eq!(gorillas::city::building_width(600, 30), 38);
    assert_eq!(gorillas::city::building_width(2, 30), 67);
    assert_eq!(gorillas::city::building_height(-200, 3), 10);
    assert_eq!(gorillas::city::building_height(300, 100), 20);
    assert_eq!(gorillas::city::building_height(130, 7), 137);
}

#[test]
fn wind_follows_its_draws() {
    assert_eq!(gorillas::city::wind_from_draws(7, 2, 0), 2);
    assert_eq!(gorillas::city::wind_from_draws(7, 1, 10), 12);
    assert_eq!(gorillas::city::wind_from_draws(5, 1, 3), -3);
    assert_eq!(gorillas::city::wind_from_draws(1, 1, 10), -14);
    assert_eq!(gorillas::city::wind_from_draws(10, 3, 9), 5);
}

#[test]
fn gorilla_spots_follow_their_draws() {
    let buildings = test_buildings();
    let spots = gorillas::city::gorilla_spots_from_draws(&buildings, 2, 1);
    assert_eq!(spots, [gorilla_on(&buildings, 2), gorilla_on(&buildings, buildings.len() - 2)]);
    let spots = gorillas::city::gorilla_spots_from_draws(&buildings, 1, 2);
    assert_eq!(spots, [gorilla_on(&buildings, 1), gorilla_on(&buildings, buildings.len() - 3)]);
}
