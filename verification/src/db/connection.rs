//! Serving a connection: the store of players and tokens, the responses
//! sent to clients, and the decisions between them.
//!
//! Each function that reaches the database is verified for whatever the
//! database answers. What is made of an answer is decided by functions that
//! take the answer as an argument, and those are specified exactly. Nothing
//! here reads from or writes to a stream: responses are returned as bytes,
//! and [`handle_connection`] tells its caller what to read and what to send.

use crate::body::decode_player_body;
use crate::db::driver::{
    error_text, exec_drop, exec_first_row, exec_map_players, last_insert_id, named_params,
    open_pool, pool_connection,
};
use crate::db::parser::{fields_view, Field};
use crate::db::statements::{create_player, delete_player, select_players, select_token};
use crate::db::session::{
    answer_step, body_step, dispatch, dropped, finished, head_complete, header_line_step, step,
    Action, Event, Session,
};
use crate::decimal::{decimal_digits, push_decimal};
use crate::error::{unauthorized_message, ErrorKind, StorageError};
use crate::handlers::players::{players_view, Player, PlayerView};
use crate::request::{
    collect_headers, headers_of_lines, lines_view, presented_token, presented_token_of,
    read_header, strip_line_end, ParsedRequest, Route,
};
use crate::text::{is_utf8, push_bytes};
use vstd::prelude::*;
use vstd::string::*;

verus! {

/// A result with a storage error, as mathematical values.
pub open spec fn outcome_view<T>(r: Result<T, StorageError>) -> Result<T, (ErrorKind, Seq<char>)> {
    match r {
        Ok(v) => Ok(v),
        Err(e) => Err(e@),
    }
}

/// A list of players or a storage error, as mathematical values.
pub open spec fn players_outcome_view(r: Result<Vec<Player>, StorageError>) -> Result<
    Seq<PlayerView>,
    (ErrorKind, Seq<char>),
> {
    match r {
        Ok(players) => Ok(players_view(players@)),
        Err(e) => Err(e@),
    }
}

/// The text of the failure that stands for a row that could not be read.
pub open spec fn unreadable_row_message() -> Seq<char> {
    "a row of the result could not be read"@
}

/// Whether a token is known, given the first row that the search for it
/// found: known if there is a row. A row that could not be read is a failure
/// of the store.
pub open spec fn token_verdict(row: Result<Option<bool>, (ErrorKind, Seq<char>)>) -> Result<
    bool,
    (ErrorKind, Seq<char>),
> {
    match row {
        Ok(Some(true)) => Ok(true),
        Ok(Some(false)) => Err((ErrorKind::StorageFailure, unreadable_row_message())),
        Ok(None) => Ok(false),
        Err(e) => Err(e),
    }
}

/// What a request may go on with, given the verdict on its token: nothing
/// unless the token is known.
pub open spec fn authorization(verdict: Result<bool, (ErrorKind, Seq<char>)>) -> Result<
    (),
    (ErrorKind, Seq<char>),
> {
    match verdict {
        Ok(true) => Ok(()),
        Ok(false) => Err((ErrorKind::Unauthorized, unauthorized_message())),
        Err(e) => Err(e),
    }
}

/// Whether every row was read.
pub open spec fn all_read(rows: Seq<Option<Player>>) -> bool {
    forall|i: int| 0 <= i < rows.len() ==> (#[trigger] rows[i]) is Some
}

/// The players of rows that were all read, in order.
pub open spec fn players_of_rows(rows: Seq<Option<Player>>) -> Seq<PlayerView> {
    Seq::new(rows.len(), |i: int| rows[i]->0@)
}

/// The text of the failure that stands for a generated id that a player
/// cannot carry.
pub open spec fn unfit_id_message() -> Seq<char> {
    "the generated id does not fit the id of a player"@
}

/// The player that was created, as it is reported back: with the id that
/// the store generated. An id that a player cannot carry, one above the
/// largest `i64`, is a failure of the store.
pub open spec fn created_outcome(generated: u64, username: Seq<char>, score: i64) -> Result<
    PlayerView,
    (ErrorKind, Seq<char>),
> {
    if generated <= i64::MAX {
        Ok(PlayerView { id: generated as i64, username, score })
    } else {
        Err((ErrorKind::StorageFailure, unfit_id_message()))
    }
}

/// The failure of the store that the driver's error stands for.
fn storage_failure(error: &mysql::Error) -> (e: StorageError)
    ensures
        e.kind == ErrorKind::StorageFailure,
{
    StorageError::failure(error_text(error))
}

/// Decides whether a token is known from the first row that the search for
/// it found.
pub fn token_found(row: Result<Option<bool>, StorageError>) -> (verdict: Result<bool, StorageError>)
    ensures
        outcome_view(verdict) == token_verdict(outcome_view(row)),
{
    match row {
        Ok(Some(true)) => Ok(true),
        Ok(Some(false)) => Err(
            StorageError::failure("a row of the result could not be read".to_owned()),
        ),
        Ok(None) => Ok(false),
        Err(e) => Err(e),
    }
}

/// Lets a request go on only if its token is known.
pub fn authorize(verdict: Result<bool, StorageError>) -> (r: Result<(), StorageError>)
    ensures
        outcome_view(r) == authorization(outcome_view(verdict)),
{
    match verdict {
        Ok(true) => Ok(()),
        Ok(false) => Err(StorageError::unauthorized()),
        Err(e) => Err(e),
    }
}

/// The players of the rows of a listing, in order. A row that could not be
/// read makes the listing fail.
pub fn players_from_rows(rows: Vec<Option<Player>>) -> (r: Result<Vec<Player>, StorageError>)
    ensures
        players_outcome_view(r) == if all_read(rows@) {
            Ok::<Seq<PlayerView>, (ErrorKind, Seq<char>)>(players_of_rows(rows@))
        } else {
            Err((ErrorKind::StorageFailure, unreadable_row_message()))
        },
{
    let mut players: Vec<Player> = Vec::new();
    let mut left = rows;
    let n = left.len();
    let mut i: usize = 0;
    while i < n
        invariant
            n == rows@.len(),
            left@.len() == n,
            i <= n,
            forall|k: int| i <= k < n ==> left@[k] == rows@[k],
            forall|k: int| 0 <= k < i ==> (#[trigger] rows@[k]) is Some,
            players@.len() == i,
            forall|k: int| 0 <= k < i ==> (#[trigger] players@[k])@ == rows@[k]->0@,
        decreases n - i,
    {
        let mut row: Option<Player> = None;
        std::mem::swap(&mut left[i], &mut row);
        match row {
            Some(player) => {
                players.push(player);
            },
            None => {
                assert(rows@[i as int] is None);
                return Err(
                    StorageError::failure("a row of the result could not be read".to_owned()),
                );
            },
        }
        i = i + 1;
    }
    assert(players_view(players@) =~= players_of_rows(rows@));
    Ok(players)
}

/// The player that was created, as it is reported back, or the failure
/// that stands for an id that a player cannot carry.
pub fn created_player(generated_id: u64, username: &str, score: i64) -> (r: Result<
    Player,
    StorageError,
>)
    ensures
        match r {
            Ok(player) => created_outcome(generated_id, username@, score) == Ok::<
                PlayerView,
                (ErrorKind, Seq<char>),
            >(player@),
            Err(e) => created_outcome(generated_id, username@, score) == Err::<
                PlayerView,
                (ErrorKind, Seq<char>),
            >(e@),
        },
{
    if generated_id <= 0x7fff_ffff_ffff_ffff {
        Ok(Player::new(generated_id as i64, username.to_owned(), score))
    } else {
        Err(StorageError::failure("the generated id does not fit the id of a player".to_owned()))
    }
}

/// Opens a connection to the database at `database_url`.
///
/// Whether this succeeds is up to the database; a failure is a failure of
/// the store.
pub fn establish_connection(database_url: &str) -> (r: Result<mysql::PooledConn, StorageError>)
    ensures
        r matches Err(e) ==> e.kind == ErrorKind::StorageFailure,
{
    match open_pool(database_url) {
        Ok(pool) => match pool_connection(&pool) {
            Ok(conn) => Ok(conn),
            Err(e) => Err(storage_failure(&e)),
        },
        Err(e) => Err(storage_failure(&e)),
    }
}

/// Asks the store whether it knows `token`.
///
/// The verdict is that of [`token_found`] on the row that the store
/// returned, which is up to the store.
pub fn check_token(conn: &mut mysql::PooledConn, token: &[u8]) -> (verdict: Result<
    bool,
    StorageError,
>)
    ensures
        verdict matches Err(e) ==> e.kind == ErrorKind::StorageFailure,
{
    let statement = select_token(token);
    let row = match exec_first_row(conn, statement.text.as_str(), named_params(&statement.params)) {
        Ok(row) => Ok(row),
        Err(e) => Err(storage_failure(&e)),
    };
    token_found(row)
}

/// Lists up to `limit` players, for everyone.
pub fn fetch_top_players_test(conn: &mut mysql::PooledConn, limit: &i64) -> (r: Result<
    Vec<Player>,
    StorageError,
>)
    ensures
        r matches Err(e) ==> e.kind == ErrorKind::StorageFailure,
{
    let statement = select_players(*limit);
    match exec_map_players(conn, statement.text.as_str(), named_params(&statement.params)) {
        Ok(rows) => players_from_rows(rows),
        Err(e) => Err(storage_failure(&e)),
    }
}

/// Lists up to `limit` players, for holders of a token that the store
/// knows. With any other token the store is not asked for players and the
/// failure is `Unauthorized`.
pub fn fetch_top_players(conn: &mut mysql::PooledConn, token: &[u8], limit: &i64) -> (r: Result<
    Vec<Player>,
    StorageError,
>)
    ensures
        r matches Err(e) ==> e.kind == ErrorKind::StorageFailure || e@ == (
            ErrorKind::Unauthorized,
            unauthorized_message(),
        ),
{
    match authorize(check_token(conn, token)) {
        Ok(()) => fetch_top_players_test(conn, limit),
        Err(e) => Err(e),
    }
}

/// Creates the player `username` with `score`, in place of any player of
/// that name, for holders of a token that the store knows. Reports the
/// player with the id that the store gave it.
pub fn insert_player(
    conn: &mut mysql::PooledConn,
    username: &str,
    score: i64,
    token: &[u8],
) -> (r: Result<Player, StorageError>)
    ensures
        match r {
            Ok(player) => player.username@ == username@ && player.score == score,
            Err(e) => e.kind == ErrorKind::StorageFailure || e@ == (
                ErrorKind::Unauthorized,
                unauthorized_message(),
            ),
        },
{
    match authorize(check_token(conn, token)) {
        Ok(()) => {},
        Err(e) => {
            return Err(e);
        },
    }
    let removal = delete_player(username);
    match exec_drop(conn, removal.text.as_str(), named_params(&removal.params)) {
        Ok(()) => {},
        Err(e) => {
            return Err(storage_failure(&e));
        },
    }
    let creation = create_player(username, score);
    match exec_drop(conn, creation.text.as_str(), named_params(&creation.params)) {
        Ok(()) => {},
        Err(e) => {
            return Err(storage_failure(&e));
        },
    }
    created_player(last_insert_id(conn), username, score)
}

/// Whether the holder of a token may go on, given whether the request
/// presented a token and what the store said of it: only with a token that
/// the store knows. A failure of the store counts as a refusal.
pub open spec fn admitted_by_token(
    presented: bool,
    verdict: Result<bool, (ErrorKind, Seq<char>)>,
) -> bool {
    presented && verdict == Ok::<bool, (ErrorKind, Seq<char>)>(true)
}

/// Decides whether the holder of a token may go on.
pub fn token_accepted(presented: bool, verdict: Result<bool, StorageError>) -> (accepted: bool)
    ensures
        accepted == admitted_by_token(presented, outcome_view(verdict)),
{
    match verdict {
        Ok(known) => presented && known,
        Err(_) => false,
    }
}

/// Reads the headers among `lines` and checks the token they present
/// against the store.
///
/// Each line is given with its line end; the headers end at the first empty
/// line. Returns whether the request may go on: it may not if it presents
/// no `Authorization` header, and otherwise only if the store knows the
/// token, which is up to the store. A line that is not UTF-8 is a malformed
/// request.
pub fn read_and_check_headers(lines: &Vec<Vec<u8>>, conn: &mut mysql::PooledConn) -> (r: Result<
    bool,
    ErrorKind,
>)
    ensures
        match headers_of_lines(lines_view(lines@)) {
            Ok(headers) => r is Ok && (presented_token(headers) is None ==> r == Ok::<
                bool,
                ErrorKind,
            >(false)),
            Err(e) => r == Err::<bool, ErrorKind>(e),
        },
{
    match collect_headers(lines) {
        Ok(headers) => match presented_token_of(&headers) {
            Some(token) => Ok(token_accepted(true, check_token(conn, token.as_slice()))),
            None => Ok(false),
        },
        Err(e) => Err(e),
    }
}

/// A response with a JSON body: the status line, the content type, the
/// length of the body in bytes, an empty line, and the body.
pub open spec fn json_response(status_line: Seq<u8>, body: Seq<u8>) -> Seq<u8> {
    status_line + "\r\nContent-Type: application/json\r\nContent-Length: ".spec_bytes()
        + decimal_digits(body.len()) + "\r\n\r\n".spec_bytes() + body
}

/// The body that lists no player.
pub open spec fn no_players_body() -> Seq<u8> {
    "{\"players\":[]}".spec_bytes()
}

/// The response to a client that was denied admission: framed like every
/// response, with an empty body.
pub open spec fn too_many_requests_response() -> Seq<u8> {
    json_response("HTTP/1.1 429 Too Many Requests".spec_bytes(), Seq::empty())
}

/// Frames a response around a JSON body.
pub fn frame_json_response(status_line: &[u8], body: &[u8]) -> (response: Vec<u8>)
    ensures
        response@ == json_response(status_line@, body@),
{
    let mut response: Vec<u8> = Vec::new();
    push_bytes(&mut response, status_line);
    push_bytes(&mut response, "\r\nContent-Type: application/json\r\nContent-Length: ".as_bytes());
    push_decimal(&mut response, body.len());
    push_bytes(&mut response, "\r\n\r\n".as_bytes());
    push_bytes(&mut response, body);
    assert(response@ =~= json_response(status_line@, body@));
    response
}

/// The bytes of the response that lists players: `players_json` is the JSON
/// text of the list, framed under `status_line`.
pub fn send_players_response(status_line: &str, players_json: &str) -> (response: Vec<u8>)
    ensures
        response@ == json_response(status_line.spec_bytes(), players_json.spec_bytes()),
{
    frame_json_response(status_line.as_bytes(), players_json.as_bytes())
}

/// The bytes of the response to a request that no route takes: an empty
/// list of players, framed under `status_line`.
pub fn send_not_found_response(status_line: &str) -> (response: Vec<u8>)
    ensures
        response@ == json_response(status_line.spec_bytes(), no_players_body()),
{
    frame_json_response(status_line.as_bytes(), "{\"players\":[]}".as_bytes())
}

/// The bytes of the response to a client that was denied admission.
pub fn send_too_many_requests_response() -> (response: Vec<u8>)
    ensures
        response@ == too_many_requests_response(),
{
    let nothing: Vec<u8> = Vec::new();
    frame_json_response("HTTP/1.1 429 Too Many Requests".as_bytes(), nothing.as_slice())
}

/// Ends the connection unserved.
fn drop_connection(reason: ErrorKind) -> (r: (Session, Action))
    ensures
        (r.0@, r.1@) == dropped(reason),
{
    (Session::Closed, Action::Close { failure: Some(reason) })
}

/// Ends the connection after its response.
fn finish_connection() -> (r: (Session, Action))
    ensures
        (r.0@, r.1@) == finished(),
{
    (Session::Closed, Action::Close { failure: None })
}

/// Completes the head: answers a request that no route takes, and asks for
/// the connection to the store for any other.
fn complete_head(request_line: Vec<u8>, headers: Vec<Field>, body_length: usize) -> (r: (
    Session,
    Action,
))
    ensures
        (r.0@, r.1@) == head_complete(request_line@, fields_view(headers@), body_length),
{
    let request = ParsedRequest::new(request_line, headers, body_length);
    match request.route() {
        Route::NotFound => (
            Session::Sending,
            Action::Send { bytes: send_not_found_response("HTTP/1.1 404 NOT FOUND") },
        ),
        _ => (Session::Connecting { request }, Action::Connect),
    }
}

/// Takes one header line.
fn on_header_line(
    request_line: Vec<u8>,
    headers: Vec<Field>,
    body_length: usize,
    raw: Vec<u8>,
) -> (r: (Session, Action))
    ensures
        (r.0@, r.1@) == header_line_step(request_line@, fields_view(headers@), body_length, raw@),
{
    if !is_utf8(raw.as_slice()) {
        return drop_connection(ErrorKind::MalformedRequest);
    }
    let line = strip_line_end(raw.as_slice());
    if line.len() == 0 {
        return complete_head(request_line, headers, body_length);
    }
    let mut known = headers;
    let mut length = body_length;
    match read_header(&mut known, &mut length, line) {
        Ok(()) => (
            Session::Headers { request_line, headers: known, body_length: length },
            Action::ReadLine,
        ),
        Err(e) => drop_connection(e),
    }
}

/// Sends a request where its route says.
fn on_connected(request: ParsedRequest) -> (r: (Session, Action))
    ensures
        (r.0@, r.1@) == dispatch(request@),
{
    match request.route() {
        Route::TopPlayers => {
            let action = Action::FetchTopPlayers { token: request.token(), limit: request.limit() };
            (Session::Listing, action)
        },
        Route::TestPlayers => (
            Session::Listing,
            Action::FetchTestPlayers { limit: request.limit() },
        ),
        Route::CreatePlayer => {
            let length = request.body_length;
            (Session::Body { request }, Action::ReadBody { length })
        },
        Route::NotFound => (
            Session::Sending,
            Action::Send { bytes: send_not_found_response("HTTP/1.1 404 NOT FOUND") },
        ),
    }
}

/// Takes the body of a request that creates a player.
fn on_body(request: ParsedRequest, bytes: Vec<u8>) -> (r: (Session, Action))
    ensures
        (r.0@, r.1@) == body_step(request@, bytes@),
{
    if bytes.len() != request.body_length {
        return drop_connection(ErrorKind::TruncatedBody);
    }
    match decode_player_body(bytes.as_slice()) {
        Ok(player) => (
            Session::Creating,
            Action::InsertPlayer {
                username: player.username,
                score: player.score,
                token: request.token(),
            },
        ),
        Err(e) => drop_connection(e),
    }
}

/// Takes the store's answer.
fn on_answer(result: Result<Vec<Player>, StorageError>) -> (r: (Session, Action))
    ensures
        (r.0@, r.1@) == answer_step(players_outcome_view(result)),
{
    match result {
        Ok(players) => (
            Session::Sending,
            Action::SendPlayers { status_line: "HTTP/1.1 200 OK".to_owned(), players },
        ),
        Err(e) => drop_connection(e.kind),
    }
}

/// Serves one connection, one step at a time.
///
/// Given where the connection stands and what the caller reports, returns
/// where it stands next and what the caller is to do. The caller starts with
/// [`Session::Accepted`] and the verdict of admission control, and goes on
/// until it is told to close. A client that is denied admission gets the
/// fixed response for too many requests; an admitted one has its request
/// read, routed and answered. Whatever else fails on the way closes the
/// connection without a response.
pub fn handle_connection(state: Session, event: Event) -> (r: (Session, Action))
    ensures
        (r.0@, r.1@) == step(state@, event@),
{
    match (state, event) {
        (Session::Accepted, Event::Admission { admitted }) => {
            if admitted {
                (Session::RequestLine, Action::ReadLine)
            } else {
                (Session::Rejected, Action::Send { bytes: send_too_many_requests_response() })
            }
        },
        (Session::Rejected, Event::Sent) => drop_connection(ErrorKind::Throttled),
        (Session::RequestLine, Event::Line { raw }) => {
            if is_utf8(raw.as_slice()) {
                let request_line = vstd::slice::slice_to_vec(strip_line_end(raw.as_slice()));
                let headers: Vec<Field> = Vec::new();
                assert(fields_view(headers@) =~= Seq::<(Seq<u8>, Seq<u8>)>::empty());
                (Session::Headers { request_line, headers, body_length: 0 }, Action::ReadLine)
            } else {
                drop_connection(ErrorKind::MalformedRequest)
            }
        },
        (Session::RequestLine, Event::EndOfStream) => drop_connection(ErrorKind::MalformedRequest),
        (Session::RequestLine, Event::ReadFailed) => drop_connection(ErrorKind::MalformedRequest),
        (Session::Headers { request_line, headers, body_length }, Event::Line { raw }) => {
            on_header_line(request_line, headers, body_length, raw)
        },
        (Session::Headers { request_line, headers, body_length }, Event::EndOfStream) => {
            complete_head(request_line, headers, body_length)
        },
        (Session::Headers { .. }, Event::ReadFailed) => drop_connection(
            ErrorKind::MalformedRequest,
        ),
        (Session::Connecting { request }, Event::Connected { result }) => match result {
            Ok(()) => on_connected(request),
            Err(e) => drop_connection(e.kind),
        },
        (Session::Body { request }, Event::Body { bytes }) => on_body(request, bytes),
        (Session::Body { .. }, Event::EndOfStream) => drop_connection(ErrorKind::TruncatedBody),
        (Session::Body { .. }, Event::ReadFailed) => drop_connection(ErrorKind::TruncatedBody),
        (Session::Listing, Event::Listed { players }) => on_answer(players),
        (Session::Creating, Event::Created { player }) => match player {
            Ok(created) => {
                let mut players: Vec<Player> = Vec::new();
                players.push(created);
                assert(players_view(players@) =~= seq![created@]);
                on_answer(Ok(players))
            },
            Err(e) => on_answer(Err(e)),
        },
        _ => finish_connection(),
    }
}

} // verus!
