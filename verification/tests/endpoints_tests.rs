use jeopardy::db::extract_first;
use jeopardy::endpoints::{
    join_parts, new_code, new_uuid, parse_join_path, ws_host, ws_play, EndpointError, ParseError, RoomCodeError,
};

const ID_TEXT: &str = "550e8400-e29b-41d4-a716-446655440000";
const ID_VALUE: u128 = 0x550e8400_e29b_41d4_a716_446655440000;

#[test]
fn extract_first_takes_the_head() {
    assert_eq!(extract_first(vec![3, 1, 2]), Some(3));
    assert_eq!(extract_first(Vec::<u8>::new()), None);
    assert_eq!(extract_first(vec![String::from("only")]), Some(String::from("only")));
}

#[test]
fn join_path_is_split_into_code_id_and_name() {
    let path = format!("123456{}Alice", ID_TEXT);
    let (code, id, name) = parse_join_path(&path).unwrap();
    assert_eq!(code, 123456);
    assert_eq!(id, ID_VALUE);
    assert_eq!(name, "Alice");
}

#[test]
fn join_path_accepts_upper_case_ids_and_unicode_names() {
    let path = format!("000042{}Zoë 🐝", ID_TEXT.to_uppercase());
    let (code, id, name) = parse_join_path(&path).unwrap();
    assert_eq!(code, 42);
    assert_eq!(id, ID_VALUE);
    assert_eq!(name, "Zoë 🐝");
}

#[test]
fn join_path_accepts_a_plus_sign_and_an_empty_name() {
    let path = format!("+12345{}", ID_TEXT);
    let (code, id, name) = parse_join_path(&path).unwrap();
    assert_eq!(code, 12345);
    assert_eq!(id, ID_VALUE);
    assert_eq!(name, "");
}

#[test]
fn join_path_rejects_a_bad_room_code() {
    for code in ["12a456", "-12345", "+-1234", " 12345", "1234 5"] {
        let path = format!("{}{}Bob", code, ID_TEXT);
        assert!(matches!(
            parse_join_path(&path),
            Err(ParseError::RoomCode(RoomCodeError::InvalidDigit))
        ));
    }
}

#[test]
fn join_path_rejects_a_bad_client_id() {
    let no_hyphens = "550e8400xe29b-41d4-a716-446655440000";
    let not_hex = "550e8400-e29b-41d4-a716-44665544000g";
    for id in [no_hyphens, not_hex] {
        let path = format!("123456{}Bob", id);
        let expected = uuid::Uuid::parse_str(id).unwrap_err().to_string();
        assert_eq!(parse_join_path(&path).unwrap_err(), ParseError::ClientId(expected));
    }
}

#[test]
fn room_code_is_checked_before_the_client_id() {
    let path = format!("abcdef{}Bob", "x".repeat(36));
    assert!(matches!(
        parse_join_path(&path),
        Err(ParseError::RoomCode(RoomCodeError::InvalidDigit))
    ));
}

#[test]
fn ws_host_and_ws_play_open_host_and_player_connections() {
    let path = format!("654321{}Carol", ID_TEXT);
    let host = ws_host(&path, 17).unwrap().connect_message();
    assert_eq!(host.room_code, 654321);
    assert_eq!(host.client_id, ID_VALUE);
    assert_eq!(host.client_name, "Carol");
    assert!(host.is_host);
    let player = ws_play(&path, 17).unwrap().connect_message();
    assert_eq!(player.room_code, 654321);
    assert_eq!(player.client_id, ID_VALUE);
    assert!(!player.is_host);
    assert!(ws_host(&format!("65432!{}", ID_TEXT), 0).is_err());
}

#[test]
fn new_codes_have_six_digits() {
    let mut seen = std::collections::HashSet::new();
    for _ in 0..1000 {
        let code = new_code();
        assert!((100_000..1_000_000).contains(&code));
        seen.insert(code);
    }
    assert!(seen.len() > 1);
}

#[test]
fn new_uuids_are_random_version_4() {
    let a = new_uuid();
    let b = new_uuid();
    assert_ne!(a, b);
    for id in [a, b] {
        assert_eq!((id >> 76) & 0xf, 4);
        assert_eq!((id >> 62) & 0x3, 2);
    }
}

#[test]
fn endpoint_errors_start_hidden_from_the_user() {
    let e = EndpointError::from_message("room is full");
    assert_eq!(e.message, "room is full");
    assert!(!e.for_user);
    let e = e.for_user();
    assert_eq!(e.message, "room is full");
    assert!(e.for_user);
}

#[test]
fn join_parts_reports_the_id_error_text() {
    assert_eq!(
        join_parts(7, Ok(9), "n".to_string()).unwrap(),
        (7, 9, "n".to_string())
    );
    assert_eq!(
        join_parts(7, Err("bad id".to_string()), "n".to_string()).unwrap_err(),
        ParseError::ClientId("bad id".to_string())
    );
}
