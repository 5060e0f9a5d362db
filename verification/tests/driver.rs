use puck_duel::driver::{
    find_latest_in_range, frame_time, set_pointer, start_game, stop_game, GameEngine, Session,
};
use puck_duel::field::Puck;
use puck_duel::game::{GameState, MessageKind, PeerMessage};

fn report(x: i64) -> PeerMessage {
    PeerMessage {
        kind: MessageKind::State,
        paddle: Some([x, 500_000]),
        puck: Some([x, 400_000]),
        vel: Some([0, 0]),
        score: Some([0, 0]),
    }
}

fn session(is_host: bool, is_single: bool) -> Session {
    let mut engine = GameEngine::new();
    start_game(&mut engine, is_host, is_single).unwrap()
}

#[test]
fn step_is_never_longer_than_fifty_milliseconds() {
    assert_eq!(frame_time(0), 1);
    assert_eq!(frame_time(1), 1);
    assert_eq!(frame_time(16_667), 16_667);
    assert_eq!(frame_time(50_000), 50_000);
    assert_eq!(frame_time(50_001), 50_000);
    assert_eq!(frame_time(u64::MAX), 50_000);
}

#[test]
fn engine_starts_one_match_at_a_time() {
    let mut engine = GameEngine::new();
    assert_eq!(engine, GameEngine { running: false, pointer: [180_000, 520_000] });
    set_pointer(&mut engine, 5, 6);
    let first = start_game(&mut engine, false, false);
    assert_eq!(first, Some(Session { game: GameState::new(false, false), net_tick: 0 }));
    assert_eq!(engine, GameEngine { running: true, pointer: [180_000, 120_000] });
    set_pointer(&mut engine, 7, 8);
    assert_eq!(start_game(&mut engine, true, true), None);
    assert_eq!(engine, GameEngine { running: true, pointer: [7, 8] });
    stop_game(&mut engine);
    assert_eq!(engine, GameEngine { running: false, pointer: [7, 8] });
    let again = start_game(&mut engine, true, true);
    assert_eq!(again, Some(Session { game: GameState::new(true, true), net_tick: 0 }));
    assert_eq!(engine.pointer, [180_000, 520_000]);
}

#[test]
fn only_the_last_message_in_range_counts() {
    let mut bad = report(3);
    bad.vel = Some([0, 2_000_000_000]);
    assert_eq!(find_latest_in_range(&vec![]), None);
    assert_eq!(find_latest_in_range(&vec![bad]), None);
    assert_eq!(find_latest_in_range(&vec![report(1), report(2)]), Some(1));
    assert_eq!(find_latest_in_range(&vec![report(1), report(2), bad]), Some(1));
    assert_eq!(find_latest_in_range(&vec![report(1), bad, bad]), Some(0));

    let mut s = session(false, false);
    let frame = s.tick(16_667, &vec![report(100_000), report(200_000), bad], [180_000, 120_000]);
    assert!(frame.is_some());
    assert_eq!(s.game.target_opponent, [200_000, 500_000]);
    assert_eq!(s.game.target_puck, Puck { x: 200_000, y: 400_000, vx: 0, vy: 0 });
}

#[test]
fn older_messages_are_stale() {
    let mut s = session(false, false);
    let mut only_paddle = report(300_000);
    only_paddle.puck = None;
    only_paddle.score = None;
    let mut first = report(100_000);
    first.score = Some([4, 4]);
    s.tick(16_667, &vec![first, only_paddle], [180_000, 120_000]);
    assert_eq!(s.game.target_opponent, [300_000, 500_000]);
    assert_eq!(s.game.target_puck, Puck { x: 180_000, y: 320_000, vx: 0, vy: 0 });
    assert_eq!(s.game.score, [0, 0]);
}

#[test]
fn report_goes_out_every_third_tick() {
    let mut s = session(true, false);
    let mut sent = Vec::new();
    for _ in 0..9 {
        let frame = s.tick(16_667, &vec![], [180_000, 520_000]).unwrap();
        sent.push(frame.outbound.is_some());
        assert_eq!(frame.render, s.game.to_render());
        if let Some(m) = frame.outbound {
            assert_eq!(Some(m), s.game.net_msg());
        }
    }
    assert_eq!(sent, vec![false, false, true, false, false, true, false, false, true]);
}

#[test]
fn report_keeps_its_beat_for_a_thousand_ticks() {
    let mut s = session(false, false);
    for k in 1..=1000u32 {
        let frame = s.tick(16_667, &vec![], [180_000, 120_000]).unwrap();
        assert_eq!(frame.outbound.is_some(), k % 3 == 0, "at tick {}", k);
    }
}

#[test]
fn alone_no_report_goes_out() {
    let mut s = session(true, true);
    for _ in 0..6 {
        let frame = s.tick(16_667, &vec![], [180_000, 520_000]).unwrap();
        assert_eq!(frame.outbound, None);
    }
}

#[test]
fn tick_steps_by_the_capped_time_with_the_pointer_held_in_range() {
    let mut s = session(true, false);
    let mut by_hand = s.game;
    s.tick(3_000_000, &vec![], [i64::MAX, i64::MIN]).unwrap();
    by_hand.update(50_000, [1_000_000_000, -1_000_000_000]);
    assert_eq!(s.game, by_hand);
    assert_eq!((s.game.host_paddle.x, s.game.host_paddle.y), (229_480, 470_486));

    let mut t = session(true, false);
    let mut by_hand = t.game;
    t.tick(0, &vec![], [200_000, 520_000]).unwrap();
    by_hand.update(1, [200_000, 520_000]);
    assert_eq!(t.game, by_hand);
}

#[test]
fn match_ends_when_a_counter_is_full() {
    let mut s = session(false, false);
    let mut full = report(1);
    full.score = Some([u32::MAX, 0]);
    let before = s.game;
    assert_eq!(s.tick(16_667, &vec![full], [180_000, 120_000]), None);
    assert_eq!(s.game.score, [u32::MAX, 0]);
    assert_eq!(s.game.puck, before.puck);
    assert_eq!(s.game.client_paddle, before.client_paddle);
    assert_eq!(s.net_tick, 0);
    assert_eq!(s.tick(16_667, &vec![], [180_000, 120_000]), None);

    let mut t = session(false, false);
    let mut nearly = report(1);
    nearly.score = Some([u32::MAX - 1, u32::MAX - 1]);
    assert!(t.tick(16_667, &vec![nearly], [180_000, 120_000]).is_some());
}
