use leaderboard::db::driver::{SqlParam, SqlValue};
use leaderboard::db::statements::{
    create_player, delete_player, select_players, select_token, Statement,
};

fn bytes(name: &str, value: &[u8]) -> SqlParam {
    SqlParam { name: name.to_string(), value: SqlValue::Text(value.to_vec()) }
}

fn number(name: &str, value: i64) -> SqlParam {
    SqlParam { name: name.to_string(), value: SqlValue::Int(value) }
}

#[test]
fn token_is_searched_by_its_bytes() {
    assert_eq!(
        select_token(b"XYZ"),
        Statement {
            text: "SELECT token FROM tokens WHERE token = :token".to_string(),
            params: vec![bytes("token", b"XYZ")],
        }
    );
    assert_eq!(select_token(b"").params, vec![bytes("token", b"")]);
}

#[test]
fn listing_is_limited() {
    assert_eq!(
        select_players(15),
        Statement {
            text: "SELECT id, `username`, score FROM top_players LIMIT :limit".to_string(),
            params: vec![number("limit", 15)],
        }
    );
    assert_eq!(select_players(-1).params, vec![number("limit", -1)]);
}

#[test]
fn player_is_removed_by_name() {
    assert_eq!(
        delete_player("alice"),
        Statement {
            text: "DELETE FROM top_players WHERE username = :username".to_string(),
            params: vec![bytes("username", b"alice")],
        }
    );
}

#[test]
fn player_is_created_with_name_and_score() {
    assert_eq!(
        create_player("b\u{e9}a", 42),
        Statement {
            text: "INSERT INTO top_players (username, score) VALUES (:username, :score)".to_string(),
            params: vec![bytes("username", "b\u{e9}a".as_bytes()), number("score", 42)],
        }
    );
}

#[test]
fn every_parameter_of_a_statement_occurs_in_its_text() {
    for statement in
        [select_token(b"t"), select_players(1), delete_player("u"), create_player("u", 1)]
    {
        for (i, p) in statement.params.iter().enumerate() {
            assert!(statement.text.contains(&format!(":{}", p.name)));
            for q in statement.params.iter().skip(i + 1) {
                assert_ne!(p.name, q.name);
            }
        }
    }
}
