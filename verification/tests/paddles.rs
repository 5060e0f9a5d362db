use puck_duel::field::{Paddle, Puck};
use puck_duel::game::GameState;
use puck_duel::paddle::{chase, follow, steer};

#[test]
fn own_paddle_follows_the_pointer_at_its_top_speed() {
    let mut p = Paddle { x: 180_000, y: 520_000, pvx: 0, pvy: 0 };
    steer(&mut p, 280_000, 520_000, true, 10_000);
    assert_eq!(p, Paddle { x: 194_000, y: 520_000, pvx: 1_400_000, pvy: 0 });
}

#[test]
fn own_paddle_lands_on_a_pointer_within_reach() {
    let mut p = Paddle { x: 180_000, y: 520_000, pvx: 0, pvy: 0 };
    steer(&mut p, 183_000, 516_000, true, 10_000);
    assert_eq!(p, Paddle { x: 183_000, y: 516_000, pvx: 300_000, pvy: -400_000 });
}

#[test]
fn own_paddle_on_a_slant_keeps_its_course() {
    let mut p = Paddle { x: 100_000, y: 400_000, pvx: 0, pvy: 0 };
    steer(&mut p, 130_000, 440_000, true, 10_000);
    // 14 units along (0.6, 0.8).
    assert_eq!(p, Paddle { x: 108_400, y: 411_200, pvx: 840_000, pvy: 1_120_000 });
}

#[test]
fn own_paddle_that_stands_still_has_no_velocity() {
    let mut p = Paddle { x: 180_000, y: 520_000, pvx: 5, pvy: 5 };
    steer(&mut p, 180_000, 520_000, true, 16_667);
    assert_eq!(p, Paddle { x: 180_000, y: 520_000, pvx: 0, pvy: 0 });
}

#[test]
fn host_paddle_stays_in_the_lower_half() {
    let mut p = Paddle { x: 180_000, y: 340_000, pvx: 0, pvy: 0 };
    steer(&mut p, 180_000, 100_000, true, 10_000);
    assert_eq!(p.y, 338_000);
    assert_eq!(p.pvy, -200_000);
    let mut q = Paddle { x: 40_000, y: 600_000, pvx: 0, pvy: 0 };
    steer(&mut q, -500_000, 900_000, true, 50_000);
    assert_eq!((q.x, q.y), (36_000, 604_000));
}

#[test]
fn guest_paddle_stays_in_the_upper_half() {
    let mut p = Paddle { x: 180_000, y: 300_000, pvx: 0, pvy: 0 };
    steer(&mut p, 180_000, 600_000, false, 10_000);
    assert_eq!(p.y, 302_000);
    let mut q = Paddle { x: 320_000, y: 40_000, pvx: 0, pvy: 0 };
    steer(&mut q, 900_000, -500_000, false, 50_000);
    assert_eq!((q.x, q.y), (324_000, 36_000));
}

#[test]
fn built_in_opponent_chases_a_puck_in_its_half() {
    let mut ai = Paddle { x: 180_000, y: 120_000, pvx: 0, pvy: 0 };
    let puck = Puck { x: 280_000, y: 200_000, vx: 0, vy: 0 };
    chase(&mut ai, &puck, 10_000);
    // 5.5 and 7.15 hundredths of the way to (280, 250).
    assert_eq!(ai, Paddle { x: 185_500, y: 129_295, pvx: 550_000, pvy: 929_500 });
}

#[test]
fn built_in_opponent_chases_a_puck_that_comes_up_fast() {
    let mut ai = Paddle { x: 180_000, y: 120_000, pvx: 0, pvy: 0 };
    let puck = Puck { x: 280_000, y: 500_000, vx: 0, vy: -50_001 };
    chase(&mut ai, &puck, 10_000);
    // The point behind the puck is held at 284.
    assert_eq!((ai.x, ai.y), (185_500, 120_000 + (164_000 * 715) / 10_000));
}

#[test]
fn built_in_opponent_drifts_back_to_its_anchor() {
    let mut ai = Paddle { x: 180_000, y: 210_000, pvx: 0, pvy: 0 };
    let puck = Puck { x: 280_000, y: 500_000, vx: 0, vy: -50_000 };
    chase(&mut ai, &puck, 10_000);
    assert_eq!(ai, Paddle { x: 181_800, y: 207_660, pvx: 180_000, pvy: -234_000 });
}

#[test]
fn other_peers_paddle_follows_its_report() {
    let mut op = Paddle { x: 180_000, y: 120_000, pvx: 0, pvy: 0 };
    follow(&mut op, 280_000, 100_000, 16_667);
    assert_eq!(op, Paddle { x: 265_000, y: 103_000, pvx: 5_099_898, pvy: -1_019_979 });
}

#[test]
fn update_moves_the_right_paddles() {
    let mut host = GameState::new(true, false);
    host.target_opponent = [280_000, 120_000];
    host.update(10_000, [280_000, 520_000]);
    assert_eq!((host.host_paddle.x, host.host_paddle.y), (194_000, 520_000));
    assert_eq!((host.client_paddle.x, host.client_paddle.y), (265_000, 120_000));

    let mut guest = GameState::new(false, false);
    guest.target_opponent = [80_000, 520_000];
    guest.update(10_000, [180_000, 110_000]);
    assert_eq!((guest.client_paddle.x, guest.client_paddle.y), (180_000, 110_000));
    assert_eq!((guest.host_paddle.x, guest.host_paddle.y), (95_000, 520_000));

    let mut alone = GameState::new(true, true);
    alone.puck = Puck { x: 280_000, y: 320_000, vx: 0, vy: 0 };
    alone.update(10_000, [180_000, 520_000]);
    assert_eq!((alone.host_paddle.x, alone.host_paddle.y), (180_000, 520_000));
    assert_eq!((alone.client_paddle.x, alone.client_paddle.y), (181_800, 119_766));
}
