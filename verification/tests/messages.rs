use puck_duel::field::{Paddle, Puck};
use puck_duel::game::{
    counter_of, fade, is_authoritative, pair_of, score_of, GameState, MessageKind, PeerMessage,
    RenderState,
};

fn state_message() -> PeerMessage {
    PeerMessage {
        kind: MessageKind::State,
        paddle: Some([100_000, 500_000]),
        puck: Some([150_000, 400_000]),
        vel: Some([-20_000, 30_000]),
        score: Some([2, 3]),
    }
}

#[test]
fn authority_follows_the_puck() {
    for y in [-1_000_000i64, 0, 319_999, 320_000, 640_000, 9_000_000] {
        assert!(is_authoritative(true, true, y, 640_000));
        assert!(is_authoritative(true, false, y, 640_000));
        let host = is_authoritative(false, true, y, 640_000);
        let guest = is_authoritative(false, false, y, 640_000);
        assert_eq!(host, y >= 320_000);
        assert_eq!(guest, !host);
        assert_eq!(host, is_authoritative(false, true, y, 640_000));
    }
    assert!(is_authoritative(false, true, 3, 5));
    assert!(!is_authoritative(false, true, 2, 5));
    assert!(is_authoritative(false, true, i64::MAX, i64::MAX));
    assert!(!is_authoritative(false, true, i64::MIN, 0));
}

#[test]
fn new_match_starts_in_the_middle() {
    let s = GameState::new(true, false);
    assert_eq!(s.puck, Puck { x: 180_000, y: 320_000, vx: 0, vy: 0 });
    assert_eq!(s.host_paddle, Paddle { x: 180_000, y: 520_000, pvx: 0, pvy: 0 });
    assert_eq!(s.client_paddle, Paddle { x: 180_000, y: 120_000, pvx: 0, pvy: 0 });
    assert_eq!(s.target_opponent, [180_000, 120_000]);
    assert_eq!(s.score, [0, 0]);
    assert!(s.prev_auth && s.is_host && !s.is_single);
    assert!(s.is_valid());
    assert!(s.auth());
    let g = GameState::new(false, false);
    assert_eq!(g.target_opponent, [180_000, 520_000]);
    assert!(!g.prev_auth);
    assert!(!g.auth());
    assert!(GameState::new(false, true).prev_auth);
}

#[test]
fn reset_puts_the_puck_in_the_middle() {
    let mut s = GameState::new(true, false);
    s.puck = Puck { x: 1, y: 2, vx: 3, vy: 4 };
    s.score = [4, 5];
    s.reset_puck();
    assert_eq!(s.puck, Puck { x: 180_000, y: 320_000, vx: 0, vy: 0 });
    assert_eq!(s.score, [4, 5]);
}

#[test]
fn guest_takes_in_the_hosts_state() {
    let mut g = GameState::new(false, false);
    g.apply_net(&state_message());
    assert_eq!(g.target_opponent, [100_000, 500_000]);
    assert_eq!(g.target_puck, Puck { x: 150_000, y: 400_000, vx: -20_000, vy: 30_000 });
    assert_eq!(g.score, [2, 3]);
    assert_eq!(g.puck, Puck { x: 180_000, y: 320_000, vx: 0, vy: 0 });
}

#[test]
fn host_ignores_a_state_and_guest_ignores_an_input() {
    let mut h = GameState::new(true, false);
    let before = h;
    h.apply_net(&state_message());
    assert_eq!(h, before);
    let mut g = GameState::new(false, false);
    let before = g;
    g.apply_net(&PeerMessage { kind: MessageKind::Input, ..state_message() });
    assert_eq!(g, before);
    g.apply_net(&PeerMessage { kind: MessageKind::Other, ..state_message() });
    assert_eq!(g, before);
}

#[test]
fn host_takes_in_the_guests_input() {
    let mut h = GameState::new(true, false);
    let input = PeerMessage {
        kind: MessageKind::Input,
        paddle: Some([90_000, 80_000]),
        puck: None,
        vel: None,
        score: None,
    };
    h.apply_net(&input);
    assert_eq!(h.target_opponent, [90_000, 80_000]);
    assert_eq!(h.target_puck, Puck { x: 180_000, y: 320_000, vx: 0, vy: 0 });
    assert_eq!(h.score, [0, 0]);
    h.apply_net(&PeerMessage { kind: MessageKind::Input, ..state_message() });
    assert_eq!(h.target_puck, Puck { x: 150_000, y: 400_000, vx: -20_000, vy: 30_000 });
    assert_eq!(h.score, [2, 3]);
}

#[test]
fn fields_that_are_missing_leave_what_was_held() {
    let mut g = GameState::new(false, false);
    g.apply_net(&state_message());
    g.apply_net(&PeerMessage {
        kind: MessageKind::State,
        paddle: None,
        puck: Some([1, 2]),
        vel: None,
        score: None,
    });
    assert_eq!(g.target_opponent, [100_000, 500_000]);
    assert_eq!(g.target_puck, Puck { x: 150_000, y: 400_000, vx: -20_000, vy: 30_000 });
    assert_eq!(g.score, [2, 3]);
    g.apply_net(&PeerMessage {
        kind: MessageKind::State,
        paddle: None,
        puck: None,
        vel: Some([1, 2]),
        score: Some([9, 9]),
    });
    assert_eq!(g.target_puck, Puck { x: 150_000, y: 400_000, vx: -20_000, vy: 30_000 });
    assert_eq!(g.score, [9, 9]);
}

#[test]
fn message_out_of_range_is_dropped_whole() {
    let mut g = GameState::new(false, false);
    let before = g;
    let mut m = state_message();
    m.puck = Some([1_000_000_001, 0]);
    assert!(!m.is_in_range());
    g.apply_net(&m);
    assert_eq!(g, before);
    m.puck = Some([1_000_000_000, -1_000_000_000]);
    m.vel = Some([0, -1_000_000_001]);
    g.apply_net(&m);
    assert_eq!(g, before);
    m.vel = Some([0, -1_000_000_000]);
    m.paddle = Some([i64::MIN, 0]);
    g.apply_net(&m);
    assert_eq!(g, before);
    m.paddle = None;
    assert!(m.is_in_range());
    g.apply_net(&m);
    assert_eq!(g.target_puck, Puck { x: 1_000_000_000, y: -1_000_000_000, vx: 0, vy: -1_000_000_000 });
    assert!(g.is_valid());
}

#[test]
fn host_reports_its_whole_state() {
    let mut h = GameState::new(true, false);
    h.puck = Puck { x: 1, y: 2, vx: 3, vy: 4 };
    h.score = [5, 6];
    assert_eq!(
        h.net_msg(),
        Some(PeerMessage {
            kind: MessageKind::State,
            paddle: Some([180_000, 520_000]),
            puck: Some([1, 2]),
            vel: Some([3, 4]),
            score: Some([5, 6]),
        })
    );
}

#[test]
fn guest_reports_the_puck_only_while_in_charge() {
    let mut g = GameState::new(false, false);
    g.puck = Puck { x: 1, y: 320_000, vx: 3, vy: 4 };
    assert_eq!(
        g.net_msg(),
        Some(PeerMessage {
            kind: MessageKind::Input,
            paddle: Some([180_000, 120_000]),
            puck: None,
            vel: None,
            score: None,
        })
    );
    g.puck.y = 319_999;
    g.score = [7, 8];
    assert_eq!(
        g.net_msg(),
        Some(PeerMessage {
            kind: MessageKind::Input,
            paddle: Some([180_000, 120_000]),
            puck: Some([1, 319_999]),
            vel: Some([3, 4]),
            score: Some([7, 8]),
        })
    );
}

#[test]
fn alone_nothing_is_reported() {
    assert_eq!(GameState::new(true, true).net_msg(), None);
    assert_eq!(GameState::new(false, true).net_msg(), None);
}

#[test]
fn what_one_peer_reports_the_other_holds() {
    let mut h = GameState::new(true, false);
    h.puck = Puck { x: 200_000, y: 500_000, vx: -300_000, vy: 100_000 };
    h.score = [1, 2];
    h.update(16_667, [100_000, 500_000]);
    let mut g = GameState::new(false, false);
    g.apply_net(&h.net_msg().unwrap());
    assert_eq!(g.target_puck, h.puck);
    assert_eq!(g.target_opponent, [h.host_paddle.x, h.host_paddle.y]);
    assert_eq!(g.score, h.score);
}

#[test]
fn render_shows_the_state() {
    let mut s = GameState::new(true, false);
    s.puck = Puck { x: 1, y: 2, vx: 3_000, vy: -4_000 };
    s.score = [5, 6];
    s.wall_flash = 7;
    s.goal_flash = 8;
    s.score_flash = [9, 10];
    s.hit = 1;
    s.goal_scored = 1;
    assert_eq!(
        s.to_render(),
        RenderState {
            puck: [1, 2],
            puck_speed: 5_000,
            host_paddle: [180_000, 520_000],
            client_paddle: [180_000, 120_000],
            score: [5, 6],
            wall_flash: 7,
            goal_flash: 8,
            score_flash: [9, 10],
            hit: 1,
            wall_hit: 0,
            goal_scored: 1,
        }
    );
    s.puck.vx = 1;
    s.puck.vy = 1;
    assert_eq!(s.to_render().puck_speed, 1);
}

#[test]
fn effects_fade_to_nothing() {
    assert_eq!(fade(1_000_000, 70_000), 930_000);
    assert_eq!(fade(10, 70_000), 0);
    assert_eq!(fade(70_000, 70_000), 0);
    assert_eq!(fade(0, 0), 0);
    let mut s = GameState::new(true, false);
    s.wall_flash = 1_000_000;
    s.goal_flash = 1_000_000;
    s.score_flash = [1_000_000, 20_000];
    s.update(50_000, [180_000, 520_000]);
    assert_eq!(s.wall_flash, 650_000);
    assert_eq!(s.goal_flash, 875_000);
    assert_eq!(s.score_flash, [910_000, 0]);
}

#[test]
fn state_with_a_number_out_of_range_is_not_valid() {
    let mut s = GameState::new(true, false);
    s.puck.x = 1_000_100_001;
    assert!(!s.is_valid());
    s.puck.x = -1_000_100_000;
    assert!(s.is_valid());
    s.wall_flash = 1_000_001;
    assert!(!s.is_valid());
    s.wall_flash = 0;
    s.target_opponent = [0, 1_000_000_001];
    assert!(!s.is_valid());
    s.target_opponent = [0, 0];
    s.host_paddle.pvx = 2_000_000_000_000_001;
    assert!(!s.is_valid());
}

#[test]
fn field_with_fewer_than_two_entries_counts_as_missing() {
    assert_eq!(pair_of(&vec![]), None);
    assert_eq!(pair_of(&vec![Some(5)]), None);
    assert_eq!(pair_of(&vec![None]), None);
    assert_eq!(score_of(&vec![]), None);
    assert_eq!(score_of(&vec![Some(5)]), None);
}

#[test]
fn entry_that_is_no_number_counts_as_zero() {
    assert_eq!(pair_of(&vec![Some(5), Some(-7)]), Some([5, -7]));
    assert_eq!(pair_of(&vec![None, Some(-7)]), Some([0, -7]));
    assert_eq!(pair_of(&vec![Some(5), None, Some(9)]), Some([5, 0]));
    assert_eq!(pair_of(&vec![Some(i64::MIN), Some(i64::MAX)]), Some([i64::MIN, i64::MAX]));
    assert_eq!(score_of(&vec![Some(2), Some(3)]), Some([2, 3]));
    assert_eq!(score_of(&vec![None, Some(3), Some(4)]), Some([0, 3]));
}

#[test]
fn score_keeps_the_lowest_thirty_two_bits() {
    assert_eq!(counter_of(None), 0);
    assert_eq!(counter_of(Some(0)), 0);
    assert_eq!(counter_of(Some(4_294_967_295)), u32::MAX);
    assert_eq!(counter_of(Some(4_294_967_296)), 0);
    assert_eq!(counter_of(Some(4_294_967_299)), 3);
    assert_eq!(counter_of(Some(u64::MAX)), u32::MAX);
    assert_eq!(score_of(&vec![Some(4_294_967_297), Some(u64::MAX)]), Some([1, u32::MAX]));
}
