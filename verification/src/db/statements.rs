//! The statements that are sent to the database.
//!
//! Each statement is built here, with its text and its named parameters
//! stated exactly, before [`crate::db::connection`] hands it to the driver.

use crate::db::driver::{names_distinct, SqlParam, SqlValue};
use vstd::prelude::*;
use vstd::string::*;

verus! {

/// The value of a parameter as a mathematical value.
pub ghost enum SqlValueView {
    Text(Seq<u8>),
    Int(i64),
}

impl View for SqlValue {
    type V = SqlValueView;

    open spec fn view(&self) -> SqlValueView {
        match *self {
            SqlValue::Text(text) => SqlValueView::Text(text@),
            SqlValue::Int(number) => SqlValueView::Int(number),
        }
    }
}

impl View for SqlParam {
    type V = (Seq<char>, SqlValueView);

    open spec fn view(&self) -> (Seq<char>, SqlValueView) {
        (self.name@, self.value@)
    }
}

/// The parameters as names with values, in order.
pub open spec fn params_view(params: Seq<SqlParam>) -> Seq<(Seq<char>, SqlValueView)> {
    Seq::new(params.len(), |i: int| params[i]@)
}

/// A statement with its named parameters.
#[derive(Debug, PartialEq, Eq)]
pub struct Statement {
    /// The text, in which `:name` stands for the parameter `name`.
    pub text: String,
    /// The parameters; no name occurs twice.
    pub params: Vec<SqlParam>,
}

impl View for Statement {
    type V = (Seq<char>, Seq<(Seq<char>, SqlValueView)>);

    open spec fn view(&self) -> (Seq<char>, Seq<(Seq<char>, SqlValueView)>) {
        (self.text@, params_view(self.params@))
    }
}

impl Statement {
    /// No two parameters of the statement have the same name.
    pub open spec fn wf(&self) -> bool {
        names_distinct(self.params@)
    }
}

/// The search for a token among the known tokens.
pub open spec fn token_search(token: Seq<u8>) -> (Seq<char>, Seq<(Seq<char>, SqlValueView)>) {
    ("SELECT token FROM tokens WHERE token = :token"@, seq![("token"@, SqlValueView::Text(token))])
}

/// The listing of at most `limit` players.
pub open spec fn players_listing(limit: i64) -> (Seq<char>, Seq<(Seq<char>, SqlValueView)>) {
    (
        "SELECT id, `username`, score FROM top_players LIMIT :limit"@,
        seq![("limit"@, SqlValueView::Int(limit))],
    )
}

/// The removal of every player named `username`.
pub open spec fn player_removal(username: Seq<u8>) -> (Seq<char>, Seq<(Seq<char>, SqlValueView)>) {
    (
        "DELETE FROM top_players WHERE username = :username"@,
        seq![("username"@, SqlValueView::Text(username))],
    )
}

/// The creation of the player `username` with `score`.
pub open spec fn player_creation(username: Seq<u8>, score: i64) -> (
    Seq<char>,
    Seq<(Seq<char>, SqlValueView)>,
) {
    (
        "INSERT INTO top_players (username, score) VALUES (:username, :score)"@,
        seq![("username"@, SqlValueView::Text(username)), ("score"@, SqlValueView::Int(score))],
    )
}

/// Builds the search for `token` among the known tokens.
pub fn select_token(token: &[u8]) -> (statement: Statement)
    ensures
        statement@ == token_search(token@),
        statement.wf(),
{
    let mut params: Vec<SqlParam> = Vec::new();
    params.push(
        SqlParam { name: "token".to_owned(), value: SqlValue::Text(vstd::slice::slice_to_vec(token)) },
    );
    let statement = Statement {
        text: "SELECT token FROM tokens WHERE token = :token".to_owned(),
        params,
    };
    assert(params_view(statement.params@) =~= token_search(token@).1);
    statement
}

/// Builds the listing of at most `limit` players.
pub fn select_players(limit: i64) -> (statement: Statement)
    ensures
        statement@ == players_listing(limit),
        statement.wf(),
{
    let mut params: Vec<SqlParam> = Vec::new();
    params.push(SqlParam { name: "limit".to_owned(), value: SqlValue::Int(limit) });
    let statement = Statement {
        text: "SELECT id, `username`, score FROM top_players LIMIT :limit".to_owned(),
        params,
    };
    assert(params_view(statement.params@) =~= players_listing(limit).1);
    statement
}

/// Builds the removal of every player named `username`.
pub fn delete_player(username: &str) -> (statement: Statement)
    ensures
        statement@ == player_removal(username.spec_bytes()),
        statement.wf(),
{
    let mut params: Vec<SqlParam> = Vec::new();
    params.push(
        SqlParam {
            name: "username".to_owned(),
            value: SqlValue::Text(vstd::slice::slice_to_vec(username.as_bytes())),
        },
    );
    let statement = Statement {
        text: "DELETE FROM top_players WHERE username = :username".to_owned(),
        params,
    };
    assert(params_view(statement.params@) =~= player_removal(username.spec_bytes()).1);
    statement
}

/// Builds the creation of the player `username` with `score`.
pub fn create_player(username: &str, score: i64) -> (statement: Statement)
    ensures
        statement@ == player_creation(username.spec_bytes(), score),
        statement.wf(),
{
    let mut params: Vec<SqlParam> = Vec::new();
    params.push(
        SqlParam {
            name: "username".to_owned(),
            value: SqlValue::Text(vstd::slice::slice_to_vec(username.as_bytes())),
        },
    );
    params.push(SqlParam { name: "score".to_owned(), value: SqlValue::Int(score) });
    let statement = Statement {
        text: "INSERT INTO top_players (username, score) VALUES (:username, :score)".to_owned(),
        params,
    };
    proof {
        reveal_strlit("username");
        reveal_strlit("score");
        assert("username"@.len() != "score"@.len());
        assert(params_view(statement.params@) =~= player_creation(username.spec_bytes(), score).1);
    }
    statement
}

} // verus!
