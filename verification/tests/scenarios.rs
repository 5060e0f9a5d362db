use puck_duel::field::{Puck, MID_X, MID_Y, PUCK_R};
use puck_duel::game::GameState;

const CENTRE: Puck = Puck { x: MID_X, y: MID_Y, vx: 0, vy: 0 };

#[test]
fn puck_at_rest_in_the_centre_stays_there() {
    for (is_host, is_single) in [(true, false), (true, true)] {
        let mut s = GameState::new(is_host, is_single);
        s.update(16_667, [180_000, 520_000]);
        assert_eq!(s.puck, CENTRE);
        assert_eq!(s.hit, 0);
        assert_eq!(s.wall_hit, 0);
        assert_eq!(s.goal_scored, 0);
        assert_eq!(s.score, [0, 0]);
        assert!(s.prev_auth);
    }
}

#[test]
fn puck_into_the_top_wall_outside_the_goal_is_sent_back() {
    let mut s = GameState::new(true, true);
    s.puck = Puck { x: 60_000, y: 22_000, vx: 0, vy: -300_000 };
    s.update(10_000, [180_000, 520_000]);
    // 3 units of flight carry it to 19, one short of its radius; friction has
    // taken 660 of its speed before the wall gives back 88 hundredths.
    assert_eq!(s.puck, Puck { x: 60_000, y: PUCK_R, vx: 0, vy: 263_419 });
    assert_eq!(s.wall_hit, 1);
    assert_eq!(s.wall_flash, 930_000);
    assert_eq!(s.hit, 0);
    assert_eq!(s.goal_scored, 0);
}

#[test]
fn puck_not_yet_at_the_wall_flies_on() {
    let mut s = GameState::new(true, true);
    s.puck = Puck { x: 60_000, y: 30_000, vx: 0, vy: -300_000 };
    s.update(10_000, [180_000, 520_000]);
    assert_eq!(s.puck, Puck { x: 60_000, y: 27_000, vx: 0, vy: -299_340 });
    assert_eq!(s.wall_hit, 0);
    assert_eq!(s.wall_flash, 0);
}

#[test]
fn puck_through_the_bottom_goal_counts_for_the_top_side() {
    let mut s = GameState::new(true, false);
    s.puck = Puck { x: 180_000, y: 655_000, vx: 0, vy: 600_000 };
    s.update(16_667, [180_000, 520_000]);
    assert_eq!(s.score, [1, 0]);
    assert_eq!(s.goal_scored, 1);
    assert_eq!(s.puck, CENTRE);
    assert_eq!(s.goal_flash, 958_333);
    assert_eq!(s.score_flash, [970_000, 0]);
    assert_eq!(s.wall_hit, 0);

    // The flag is up for that tick only.
    s.update(16_667, [180_000, 520_000]);
    assert_eq!(s.goal_scored, 0);
    assert_eq!(s.score, [1, 0]);
    assert_eq!(s.puck, CENTRE);
    assert_eq!(s.goal_flash, 916_666);
    assert_eq!(s.score_flash, [940_000, 0]);
}

#[test]
fn puck_through_the_top_goal_counts_for_the_bottom_side() {
    let mut s = GameState::new(true, true);
    s.puck = Puck { x: 180_000, y: -15_000, vx: 0, vy: -600_000 };
    s.update(16_667, [180_000, 520_000]);
    assert_eq!(s.score, [0, 1]);
    assert_eq!(s.goal_scored, 1);
    assert_eq!(s.puck, CENTRE);
    assert_eq!(s.score_flash, [0, 970_000]);
}

#[test]
fn puck_just_inside_the_goal_margin_is_still_in_play() {
    let mut s = GameState::new(true, false);
    s.puck = Puck { x: 180_000, y: 660_000, vx: 0, vy: 0 };
    s.update(16_667, [180_000, 520_000]);
    assert_eq!(s.score, [0, 0]);
    assert_eq!(s.goal_scored, 0);
    assert_eq!(s.puck, Puck { x: 180_000, y: 660_000, vx: 0, vy: 0 });
}

#[test]
fn puck_far_from_the_reported_one_is_set_on_it() {
    let mut s = GameState::new(false, false);
    s.puck = Puck { x: 100_000, y: 500_000, vx: 0, vy: 0 };
    s.target_puck = Puck { x: 300_000, y: 500_000, vx: 10_000, vy: -20_000 };
    assert!(!s.auth());
    s.update(16_667, [180_000, 120_000]);
    assert_eq!(s.puck, Puck { x: 300_000, y: 500_000, vx: 10_000, vy: -20_000 });
    assert_eq!(s.score, [0, 0]);
    assert_eq!(s.goal_scored, 0);
    assert!(!s.prev_auth);
}

#[test]
fn puck_near_the_reported_one_is_blended_toward_it() {
    let mut s = GameState::new(false, false);
    s.puck = Puck { x: 100_000, y: 400_000, vx: 0, vy: 0 };
    s.target_puck = Puck { x: 110_000, y: 400_000, vx: 1_000, vy: -2_000 };
    s.update(16_667, [180_000, 120_000]);
    assert_eq!(s.puck, Puck { x: 101_800, y: 400_000, vx: 250, vy: -500 });
    // One more tick: it flies 4 and -8 thousandths, loses nothing to friction
    // at this speed, and closes in again on the 8200 that are left.
    s.update(16_667, [180_000, 120_000]);
    assert_eq!(s.puck.x, 101_804 + (8_196 * 18) / 100);
    assert!(s.puck.x > 101_800 && s.puck.x < 110_000);
}

#[test]
fn puck_on_the_reported_one_is_left_alone() {
    let mut s = GameState::new(false, false);
    s.puck = Puck { x: 100_000, y: 400_000, vx: 0, vy: 0 };
    s.target_puck = Puck { x: 100_900, y: 400_000, vx: 5_000, vy: 0 };
    s.update(16_667, [180_000, 120_000]);
    assert_eq!(s.puck, Puck { x: 100_000, y: 400_000, vx: 0, vy: 0 });
}

#[test]
fn handoff_takes_over_the_reported_puck() {
    // The host was in charge; now the puck is in the upper half.
    let mut s = GameState::new(true, false);
    assert!(s.prev_auth);
    s.puck = Puck { x: 150_000, y: 319_000, vx: 30_000, vy: -400_000 };
    s.target_puck = Puck { x: 152_000, y: 300_000, vx: 0, vy: 0 };
    assert!(!s.auth());
    s.update(16_667, [180_000, 520_000]);
    assert_eq!(s.puck, Puck { x: 152_000, y: 300_000, vx: 0, vy: 0 });
    assert!(!s.prev_auth);
}

#[test]
fn handoff_onto_a_moving_puck_reckons_it_forward() {
    let mut s = GameState::new(true, false);
    s.puck = Puck { x: 150_000, y: 319_000, vx: 30_000, vy: -400_000 };
    s.target_puck = Puck { x: 152_000, y: 300_000, vx: 0, vy: -600_000 };
    s.update(10_000, [180_000, 520_000]);
    // Taken over, flown 6 units up, slowed by friction, and pulled back 18
    // hundredths of the way; the velocity is pulled a quarter of the way.
    let flown_vy = -600_000 + 1_320;
    assert_eq!(s.puck.x, 152_000);
    assert_eq!(s.puck.y, 294_000 + (6_000 * 18) / 100);
    assert_eq!(s.puck.vy, flown_vy + (-1_320 * 25) / 100);
}

#[test]
fn after_an_authoritative_tick_the_speed_is_in_its_band() {
    let starts = [
        Puck { x: 180_000, y: 400_000, vx: 3_000, vy: 4_000 },
        Puck { x: 180_000, y: 400_000, vx: 900_000, vy: 900_000 },
        Puck { x: 100_000, y: 400_000, vx: -50, vy: 20 },
        Puck { x: 30_000, y: 30_000, vx: -700_000, vy: -700_000 },
        Puck { x: 180_000, y: 480_000, vx: 100_000, vy: 500_000 },
    ];
    for start in starts {
        let mut s = GameState::new(true, true);
        s.puck = start;
        for _ in 0..200 {
            s.update(16_667, [150_000, 500_000]);
            let sq = (s.puck.vx as i128) * (s.puck.vx as i128)
                + (s.puck.vy as i128) * (s.puck.vy as i128);
            assert!(
                sq <= 100 * 100 || (160_000i128 * 160_000 <= sq && sq <= 900_000i128 * 900_000),
                "speed squared {} after a tick from {:?}",
                sq,
                start
            );
            assert!(s.is_valid());
        }
    }
}

#[test]
fn slow_puck_is_sped_up_to_the_least_speed() {
    let mut s = GameState::new(true, true);
    s.puck = Puck { x: 180_000, y: 400_000, vx: 30_000, vy: 40_000 };
    s.update(10_000, [180_000, 520_000]);
    // Friction leaves (29_934, 39_912), a speed of 49_890 rounded down.
    assert_eq!(s.puck.vx, (160_000 * 29_934 + 49_889) / 49_890);
    assert_eq!(s.puck.vy, (160_000 * 39_912 + 49_889) / 49_890);
    assert_eq!((s.puck.vx, s.puck.vy), (96_000, 128_000));
}

#[test]
fn score_counts_up_over_several_goals() {
    let mut s = GameState::new(true, true);
    for k in 1..=3u32 {
        s.puck = Puck { x: 180_000, y: 659_000, vx: 0, vy: 500_000 };
        s.update(16_667, [180_000, 520_000]);
        assert_eq!(s.score, [k, 0]);
    }
    s.puck = Puck { x: 180_000, y: -19_000, vx: 0, vy: -500_000 };
    s.update(16_667, [180_000, 520_000]);
    assert_eq!(s.score, [3, 1]);
}
