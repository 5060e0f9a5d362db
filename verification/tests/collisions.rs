use puck_duel::collide::{
    collide_corner_puck, collide_goal_post, collide_paddle_puck, rebound_of,
};
use puck_duel::field::{Paddle, Puck};
use puck_duel::motion::{resolve_end_walls, resolve_side_walls};
use puck_duel::step::{resolve_corners, resolve_posts};

#[test]
fn paddle_turns_a_puck_that_closes_in() {
    let pad = Paddle { x: 180_000, y: 520_000, pvx: 0, pvy: 0 };
    let mut puck = Puck { x: 180_000, y: 480_000, vx: 0, vy: 300_000 };
    assert!(collide_paddle_puck(&mut puck, &pad));
    assert_eq!(puck, Puck { x: 180_000, y: 464_000, vx: 0, vy: -300_000 });
}

#[test]
fn paddle_sets_the_puck_back_to_exactly_touching_distance() {
    let pad = Paddle { x: 180_000, y: 520_000, pvx: 0, pvy: 0 };
    let mut puck = Puck { x: 180_000, y: 500_000, vx: 0, vy: 100_000 };
    assert!(collide_paddle_puck(&mut puck, &pad));
    assert_eq!(puck, Puck { x: 180_000, y: 464_000, vx: 0, vy: -100_000 });
    // At that distance the two no longer meet.
    let mut again = puck;
    assert!(!collide_paddle_puck(&mut again, &pad));
    assert_eq!(again, puck);
}

#[test]
fn a_hit_counts_however_slowly_the_puck_comes() {
    // One thousandth of a unit per second outward, along a normal 25.001 long:
    // too slow for the speed along the normal to show, but outward it is.
    let mut puck = Puck { x: 17_000, y: 41_999, vx: -1, vy: 0 };
    assert!(collide_corner_puck(&mut puck, 42_000, 42_000, true));
    assert_eq!(puck, Puck { x: 22_001, y: 42_000, vx: -1, vy: 0 });
    let mut still = Puck { x: 17_000, y: 41_999, vx: 0, vy: 0 };
    assert!(!collide_corner_puck(&mut still, 42_000, 42_000, true));
    let mut inward = Puck { x: 17_000, y: 41_999, vx: 1, vy: 0 };
    assert!(!collide_corner_puck(&mut inward, 42_000, 42_000, true));

    let mut at_post = Puck { x: 125_001, y: 15_000, vx: 0, vy: -1 };
    assert!(collide_goal_post(&mut at_post, 125_000, 0));
    assert_eq!((at_post.vx, at_post.vy), (0, -1));
    let pad = Paddle { x: 180_000, y: 520_000, pvx: 0, pvy: 0 };
    let mut at_paddle = Puck { x: 180_001, y: 480_000, vx: 0, vy: 1 };
    assert!(collide_paddle_puck(&mut at_paddle, &pad));
    assert_eq!((at_paddle.vx, at_paddle.vy), (0, 1));
}

#[test]
fn moving_paddle_adds_its_speed_twice() {
    let pad = Paddle { x: 180_000, y: 520_000, pvx: 0, pvy: -100_000 };
    let mut puck = Puck { x: 180_000, y: 480_000, vx: 0, vy: 300_000 };
    assert!(collide_paddle_puck(&mut puck, &pad));
    assert_eq!(puck, Puck { x: 180_000, y: 464_000, vx: 0, vy: -500_000 });
}

#[test]
fn paddle_pushes_out_a_puck_that_moves_away_but_does_not_turn_it() {
    let pad = Paddle { x: 180_000, y: 520_000, pvx: 0, pvy: 0 };
    let mut puck = Puck { x: 180_000, y: 480_000, vx: 10_000, vy: -300_000 };
    assert!(!collide_paddle_puck(&mut puck, &pad));
    assert_eq!(puck, Puck { x: 180_000, y: 464_000, vx: 10_000, vy: -300_000 });
}

#[test]
fn paddle_misses_a_puck_at_touching_distance() {
    let pad = Paddle { x: 180_000, y: 520_000, pvx: 0, pvy: 0 };
    let mut puck = Puck { x: 180_000, y: 464_000, vx: 0, vy: 300_000 };
    assert!(!collide_paddle_puck(&mut puck, &pad));
    assert_eq!(puck, Puck { x: 180_000, y: 464_000, vx: 0, vy: 300_000 });
    let mut nearer = Puck { x: 180_000, y: 464_001, vx: 0, vy: 300_000 };
    assert!(collide_paddle_puck(&mut nearer, &pad));
}

#[test]
fn paddle_ignores_a_puck_on_its_own_centre() {
    let pad = Paddle { x: 180_000, y: 520_000, pvx: 0, pvy: 0 };
    let mut puck = Puck { x: 180_000, y: 520_000, vx: 7, vy: 9 };
    assert!(!collide_paddle_puck(&mut puck, &pad));
    assert_eq!(puck, Puck { x: 180_000, y: 520_000, vx: 7, vy: 9 });
}

#[test]
fn paddle_on_a_slant_rounds_toward_zero() {
    let pad = Paddle { x: 100_000, y: 400_000, pvx: 0, pvy: 0 };
    let mut puck = Puck { x: 130_000, y: 360_000, vx: -100_000, vy: 100_000 };
    // Offset (30, -40) units, 50 long: the normal is (0.6, -0.8).
    assert!(collide_paddle_puck(&mut puck, &pad));
    assert_eq!(puck.x, 100_000 + 33_600);
    assert_eq!(puck.y, 400_000 - 44_800);
    // Speed along the normal: -60 - 80 = -140 units per second.
    assert_eq!(puck.vx, -100_000 + 2 * 84_000);
    assert_eq!(puck.vy, 100_000 - 2 * 112_000);
}

#[test]
fn corner_sets_the_puck_back_on_the_arc_and_takes_its_share() {
    let mut puck = Puck { x: 17_000, y: 42_000, vx: -100_000, vy: 50_000 };
    assert!(collide_corner_puck(&mut puck, 42_000, 42_000, true));
    assert_eq!(puck, Puck { x: 22_000, y: 42_000, vx: 88_000, vy: 50_000 });
}

#[test]
fn corner_outside_its_zone_does_nothing() {
    let mut puck = Puck { x: 17_000, y: 42_000, vx: -100_000, vy: 50_000 };
    assert!(!collide_corner_puck(&mut puck, 42_000, 42_000, false));
    assert_eq!(puck, Puck { x: 17_000, y: 42_000, vx: -100_000, vy: 50_000 });
}

#[test]
fn corner_leaves_a_puck_within_the_arc() {
    let mut puck = Puck { x: 30_000, y: 26_000, vx: -100_000, vy: -50_000 };
    // 12 and 16 units from the arc's centre: exactly 20 away.
    assert!(!collide_corner_puck(&mut puck, 42_000, 42_000, true));
    assert_eq!(puck, Puck { x: 30_000, y: 26_000, vx: -100_000, vy: -50_000 });
}

#[test]
fn corner_sets_back_but_does_not_turn_a_puck_that_moves_inward() {
    let mut puck = Puck { x: 17_000, y: 42_000, vx: 100_000, vy: 50_000 };
    assert!(!collide_corner_puck(&mut puck, 42_000, 42_000, true));
    assert_eq!(puck, Puck { x: 22_000, y: 42_000, vx: 100_000, vy: 50_000 });
}

#[test]
fn goalpost_turns_a_puck_head_on() {
    let mut puck = Puck { x: 125_000, y: 15_000, vx: 0, vy: -200_000 };
    assert!(collide_goal_post(&mut puck, 125_000, 0));
    assert_eq!(puck, Puck { x: 125_000, y: 20_000, vx: 0, vy: 176_000 });
}

#[test]
fn goalpost_on_a_slant_rounds_toward_zero() {
    let mut puck = Puck { x: 128_000, y: 4_000, vx: -50_000, vy: -50_000 };
    assert!(collide_goal_post(&mut puck, 125_000, 0));
    assert_eq!(puck, Puck { x: 137_000, y: 16_000, vx: 28_960, vy: 55_280 });
}

#[test]
fn goalpost_misses_a_puck_at_touching_distance() {
    let mut puck = Puck { x: 125_000, y: 20_000, vx: 0, vy: -200_000 };
    assert!(!collide_goal_post(&mut puck, 125_000, 0));
    assert_eq!(puck, Puck { x: 125_000, y: 20_000, vx: 0, vy: -200_000 });
}

#[test]
fn rebound_is_one_and_eighty_eight_hundredths() {
    assert_eq!(rebound_of(100_000), 188_000);
    assert_eq!(rebound_of(-200_000), -376_000);
    assert_eq!(rebound_of(1), 1);
    assert_eq!(rebound_of(-1), -1);
    assert_eq!(rebound_of(0), 0);
}

#[test]
fn nothing_reports_a_hit_of_a_puck_in_the_open() {
    let pad = Paddle { x: 180_000, y: 520_000, pvx: 50_000, pvy: -50_000 };
    for x in [20_001i64, 43_000, 180_000, 339_999] {
        for y in [20_001i64, 43_000, 320_000, 440_000, 619_999] {
            let start = Puck { x, y, vx: -300_000, vy: 200_000 };
            if (x < 42_000 || x > 318_000) && (y < 42_000 || y > 598_000) {
                continue;
            }
            let mut puck = start;
            assert!(!resolve_corners(&mut puck));
            assert!(!resolve_side_walls(&mut puck));
            assert!(!resolve_end_walls(&mut puck));
            assert!(!resolve_posts(&mut puck));
            assert!(!collide_paddle_puck(&mut puck, &pad));
            assert_eq!(puck, start);
        }
    }
}

#[test]
fn walls_and_posts_never_report_a_hit_of_a_puck_clear_of_the_walls() {
    for x in [20_001i64, 30_000, 125_000, 235_000, 339_999] {
        for y in [20_001i64, 30_000, 619_999] {
            let start = Puck { x, y, vx: -300_000, vy: -200_000 };
            let mut puck = start;
            assert!(!resolve_side_walls(&mut puck));
            assert!(!resolve_end_walls(&mut puck));
            assert!(!resolve_posts(&mut puck));
            assert_eq!(puck, start);
        }
    }
}

#[test]
fn top_left_corner_acts_only_in_its_own_zone() {
    let mut puck = Puck { x: 21_000, y: 21_000, vx: -100_000, vy: -100_000 };
    assert!(resolve_corners(&mut puck));
    // 21 units off the arc's centre both ways is 29.7 away: the puck is set
    // back to 20 away, and moves inward afterwards.
    assert!(puck.x > 21_000 && puck.y > 21_000);
    assert!(puck.vx > 0 && puck.vy > 0);
    let dx = (42_000 - puck.x) as i128;
    let dy = (42_000 - puck.y) as i128;
    assert!(dx * dx + dy * dy <= 20_000i128 * 20_000);
}

#[test]
fn goalpost_on_a_slant_takes_only_the_speed_along_the_normal() {
    let before = Puck { x: 128_000, y: 4_000, vx: -50_000, vy: -50_000 };
    let mut puck = before;
    assert!(collide_goal_post(&mut puck, 125_000, 0));
    // The normal is (0.6, 0.8): 70 units per second along it come back as 61.6,
    // and the 10 across it stay.
    let along = |p: &Puck| (p.vx * 3_000 + p.vy * 4_000) / 5_000;
    let across = |p: &Puck| (p.vx * -4_000 + p.vy * 3_000) / 5_000;
    assert_eq!(along(&before), -70_000);
    assert_eq!(along(&puck), 61_600);
    assert_eq!(across(&before), 10_000);
    assert_eq!(across(&puck), 10_000);
    assert!(puck.vx * puck.vx + puck.vy * puck.vy <= before.vx * before.vx + before.vy * before.vy);
    let (dx, dy) = (puck.x - 125_000, puck.y);
    assert_eq!(dx * dx + dy * dy, 20_000 * 20_000);
}

#[test]
fn round_rebounds_keep_to_the_restitution_wherever_they_happen() {
    let mut seed: u64 = 9;
    let mut next = move |lo: i64, hi: i64| {
        seed = seed.wrapping_mul(6364136223846793005).wrapping_add(1442695040888963407);
        lo + ((seed >> 33) % (hi - lo) as u64) as i64
    };
    let mut hits = 0;
    for round in 0..20_000 {
        let corner = round % 2 == 0;
        let (cx, cy) = if corner { (42_000, 42_000) } else { (125_000, 0) };
        let before = Puck {
            x: cx + next(-45_000, 45_000),
            y: cy + next(-45_000, 45_000),
            vx: next(-1_500_000, 1_500_000),
            vy: next(-1_500_000, 1_500_000),
        };
        let mut puck = before;
        let hit = if corner {
            collide_corner_puck(&mut puck, cx, cy, true)
        } else {
            collide_goal_post(&mut puck, cx, cy)
        };
        let (dx, dy) = ((before.x - cx) as i128, (before.y - cy) as i128);
        let (ox, oy) = ((puck.x - cx) as i128, (puck.y - cy) as i128);
        let reach: i128 = 20_000;
        let d = ((dx * dx + dy * dy) as f64).sqrt().ceil() as i128;
        if puck.x != before.x || puck.y != before.y {
            // Set back to the circle, never beyond it, and in each coordinate
            // less than a thousandth short of the exact place.
            assert!(ox * ox + oy * oy <= reach * reach, "{:?}", before);
            assert!((ox.abs() + 1) * d > reach * dx.abs() && ox.abs() * d <= reach * dx.abs());
            assert!((oy.abs() + 1) * d > reach * dy.abs() && oy.abs() * d <= reach * dy.abs());
        }
        if !hit {
            assert_eq!((puck.vx, puck.vy), (before.vx, before.vy));
            continue;
        }
        hits += 1;
        let dot = |p: &Puck| (p.vx as i128) * dx + (p.vy as i128) * dy;
        let cross = |p: &Puck| (p.vy as i128) * dx - (p.vx as i128) * dy;
        let sq = |p: &Puck| (p.vx as i128).pow(2) + (p.vy as i128).pow(2);
        assert!(
            100 * (dot(&puck) / d).abs() <= 88 * (dot(&before) / d).abs() + 300,
            "along the normal, from {:?} to {:?}",
            before,
            puck
        );
        assert!((cross(&puck) - cross(&before)).abs() <= dx.abs() + dy.abs(), "{:?}", before);
        assert!(
            sq(&puck) <= sq(&before) + 2 * ((before.vx.abs() + before.vy.abs()) as i128),
            "speed, from {:?} to {:?}",
            before,
            puck
        );
    }
    assert!(hits > 2_000);
}
