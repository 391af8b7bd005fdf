use leaderboard::body::{decode_player_body, new_player_from_members, Members, NewPlayer};
use leaderboard::error::ErrorKind;

fn player(username: &str, score: i64) -> NewPlayer {
    NewPlayer { username: username.to_string(), score }
}

#[test]
fn body_with_username_and_score_is_decoded() {
    assert_eq!(
        decode_player_body(br#"{"username":"alice","score":42}"#),
        Ok(player("alice", 42))
    );
    assert_eq!(
        decode_player_body(b" { \"score\" : -7 , \"extra\" : [1,2] , \"username\" : \"b\\u00e9a\" } "),
        Ok(player("b\u{e9}a", -7))
    );
    assert_eq!(decode_player_body(br#"{"username":"","score":0}"#), Ok(player("", 0)));
}

#[test]
fn body_that_is_not_json_is_malformed() {
    for body in [
        &b""[..],
        b"alice",
        b"{",
        br#"{"username":"alice","score":42"#,
        br#"{"username":"alice","score":42} x"#,
        br#"{'username':'alice','score':42}"#,
    ] {
        assert_eq!(decode_player_body(body), Err(ErrorKind::MalformedBody));
    }
}

#[test]
fn body_that_is_not_utf8_is_malformed() {
    assert_eq!(
        decode_player_body(b"{\"username\":\"al\xffce\",\"score\":42}"),
        Err(ErrorKind::MalformedBody)
    );
    assert_eq!(decode_player_body(&[0xff]), Err(ErrorKind::MalformedBody));
}

#[test]
fn body_without_the_two_members_is_malformed() {
    for body in [
        &br#"{"username":"alice"}"#[..],
        br#"{"score":42}"#,
        br#"{}"#,
        br#"[]"#,
        br#"42"#,
        br#""alice""#,
        br#"null"#,
        br#"{"username":7,"score":42}"#,
        br#"{"username":null,"score":42}"#,
        br#"{"username":"alice","score":"42"}"#,
        br#"{"username":"alice","score":4.5}"#,
        br#"{"username":"alice","score":42.0}"#,
        br#"{"username":"alice","score":null}"#,
        br#"{"username":"alice","score":18446744073709551615}"#,
        br#"{"Username":"alice","Score":42}"#,
    ] {
        assert_eq!(decode_player_body(body), Err(ErrorKind::MalformedBody), "for {:?}", body);
    }
}

#[test]
fn score_is_handed_on_as_sent() {
    for score in [
        0i64,
        42,
        -7,
        2147483647,
        -2147483648,
        2147483648,
        -2147483649,
        4294967301,
        i64::MAX,
        i64::MIN,
    ] {
        let body = format!("{{\"username\":\"a\",\"score\":{}}}", score);
        assert_eq!(decode_player_body(body.as_bytes()), Ok(player("a", score)), "for {}", score);
    }
}

#[test]
fn members_make_a_player_only_if_both_are_there() {
    let both = Members { text: Some("bob".to_string()), number: Some(3) };
    assert_eq!(new_player_from_members(Some(both)), Ok(player("bob", 3)));
    let no_text = Members { text: None, number: Some(3) };
    assert_eq!(new_player_from_members(Some(no_text)), Err(ErrorKind::MalformedBody));
    let no_number = Members { text: Some("bob".to_string()), number: None };
    assert_eq!(new_player_from_members(Some(no_number)), Err(ErrorKind::MalformedBody));
    assert_eq!(new_player_from_members(None), Err(ErrorKind::MalformedBody));
    let wide = Members { text: Some("w".to_string()), number: Some(i64::MIN) };
    assert_eq!(new_player_from_members(Some(wide)), Ok(player("w", i64::MIN)));
    let large = Members { text: Some("l".to_string()), number: Some(2147483648) };
    assert_eq!(new_player_from_members(Some(large)), Ok(player("l", 2147483648)));
}

#[test]
fn last_of_repeated_members_counts() {
    let expected = serde_json::from_str::<serde_json::Value>(
        r#"{"username":"a","username":"b","score":1,"score":2}"#,
    )
    .unwrap();
    assert_eq!(
        decode_player_body(br#"{"username":"a","username":"b","score":1,"score":2}"#),
        Ok(player(expected["username"].as_str().unwrap(), expected["score"].as_i64().unwrap()))
    );
}
