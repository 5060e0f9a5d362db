use puck_duel::relay::{
    classify_join_reply, command_line, err_line, has_prefix, is_word, joined, new_room_code,
    parse_command, parse_room_reply, rest_of, room_code_of, room_reply, start_line, Command,
    JoinReply,
};

#[test]
fn first_line_says_what_a_peer_wants() {
    assert_eq!(parse_command(b"HOST"), Command::Host);
    assert_eq!(parse_command(b"JOIN:1234"), Command::Join(b"1234".to_vec()));
    assert_eq!(parse_command(b"JOIN:"), Command::Join(Vec::new()));
    assert_eq!(parse_command(b"JOIN: 12 34"), Command::Join(b" 12 34".to_vec()));
    for other in [&b""[..], b"HOS", b"HOSTX", b"host", b"JOIN", b"join:1234", b" HOST", b"ROOM:1"] {
        assert_eq!(parse_command(other), Command::Unknown, "for {:?}", other);
    }
}

#[test]
fn asking_and_reading_agree() {
    assert_eq!(command_line(&Command::Host), Some(b"HOST".to_vec()));
    assert_eq!(command_line(&Command::Join(b"4711".to_vec())), Some(b"JOIN:4711".to_vec()));
    assert_eq!(command_line(&Command::Unknown), None);
    for cmd in [Command::Host, Command::Join(b"0007".to_vec()), Command::Join(Vec::new())] {
        let line = command_line(&cmd).unwrap();
        assert_eq!(parse_command(&line), cmd);
    }
}

#[test]
fn host_is_told_its_room() {
    assert_eq!(room_reply(b"1234"), b"ROOM:1234".to_vec());
    assert_eq!(parse_room_reply(b"ROOM:1234"), Some(b"1234".to_vec()));
    assert_eq!(parse_room_reply(b"ROOM:"), Some(Vec::new()));
    assert_eq!(parse_room_reply(b"ROOM"), None);
    assert_eq!(parse_room_reply(b"room:1234"), None);
    assert_eq!(parse_room_reply(b"START"), None);
    assert_eq!(parse_room_reply(&room_reply(b"9998")), Some(b"9998".to_vec()));
}

#[test]
fn guest_is_told_whether_the_room_was_there() {
    assert_eq!(classify_join_reply(b"START"), JoinReply::Start);
    assert_eq!(classify_join_reply(b"ERR"), JoinReply::NotFound);
    for other in [&b""[..], b"START ", b"ERROR", b"start", b"ROOM:1234"] {
        assert_eq!(classify_join_reply(other), JoinReply::Unexpected);
    }
}

#[test]
fn service_says_start_and_err() {
    assert_eq!(start_line(), b"START".to_vec());
    assert_eq!(err_line(), b"ERR".to_vec());
    assert_eq!(classify_join_reply(&start_line()), JoinReply::Start);
    assert_eq!(classify_join_reply(&err_line()), JoinReply::NotFound);
}

#[test]
fn room_code_has_four_digits() {
    assert_eq!(room_code_of(1000), b"1000".to_vec());
    assert_eq!(room_code_of(9998), b"9998".to_vec());
    assert_eq!(room_code_of(42), b"0042".to_vec());
    assert_eq!(room_code_of(0), b"0000".to_vec());
    assert_eq!(room_code_of(9999), b"9999".to_vec());
    assert_eq!(room_code_of(4071), b"4071".to_vec());
}

#[test]
fn new_rooms_get_different_codes_in_range() {
    let mut seen = Vec::new();
    for _ in 0..300 {
        let code = new_room_code();
        assert_eq!(code.len(), 4);
        let text = String::from_utf8(code.clone()).unwrap();
        let n: u32 = text.parse().unwrap();
        assert!((1000..9999).contains(&n), "room {}", n);
        assert_eq!(room_code_of(n), code);
        if !seen.contains(&n) {
            seen.push(n);
        }
    }
    assert!(seen.len() > 1);
}

#[test]
fn words_and_prefixes() {
    assert!(is_word(b"abc", b"abc"));
    assert!(!is_word(b"abc", b"abd"));
    assert!(!is_word(b"abc", b"ab"));
    assert!(is_word(b"", b""));
    assert!(has_prefix(b"abc", b"ab"));
    assert!(has_prefix(b"abc", b""));
    assert!(has_prefix(b"abc", b"abc"));
    assert!(!has_prefix(b"abc", b"abcd"));
    assert!(!has_prefix(b"abc", b"b"));
    assert_eq!(rest_of(b"abcdef", 2), b"cdef".to_vec());
    assert_eq!(rest_of(b"ab", 2), Vec::<u8>::new());
    assert_eq!(joined(b"ab", b"cd"), b"abcd".to_vec());
    assert_eq!(joined(b"", b""), Vec::<u8>::new());
}
