//! One connection as a state machine.
//!
//! The machine decides; its caller does the work. The caller starts in
//! [`Session::Accepted`] with the verdict of admission control, performs the
//! [`Action`] that each step returns, and reports what came of it as the
//! next [`Event`], until the action is [`Action::Close`].

use crate::body::player_of_body;
use crate::db::connection::{json_response, no_players_body, too_many_requests_response};
use crate::db::parser::{fields_view, Field};
use crate::error::{ErrorKind, StorageError};
use crate::handlers::players::{players_view, Player, PlayerView};
use crate::request::{
    head_from, headers_after, length_after, line_content, line_end, request_in, request_of,
    ParsedRequest, RequestView, Route,
};
use crate::text::lemma_find_byte_from;
use vstd::prelude::*;
use vstd::string::*;
use vstd::utf8::*;

verus! {

/// Where the serving of a connection stands.
#[derive(Debug, PartialEq, Eq)]
pub enum Session {
    /// Accepted; admission control has not decided yet.
    Accepted,
    /// Denied admission; the response that says so is being sent.
    Rejected,
    /// Admitted; the request line is awaited.
    RequestLine,
    /// The request line is read; header lines are awaited.
    Headers { request_line: Vec<u8>, headers: Vec<Field>, body_length: usize },
    /// The head is read; the connection to the store is awaited.
    Connecting { request: ParsedRequest },
    /// The body of a request that creates a player is awaited.
    Body { request: ParsedRequest },
    /// A listing of players is awaited from the store.
    Listing,
    /// The created player is awaited from the store.
    Creating,
    /// A response is being sent.
    Sending,
    /// Nothing more happens on this connection.
    Closed,
}

/// What the caller reports to the machine.
#[derive(Debug, PartialEq, Eq)]
pub enum Event {
    /// Admission control has decided.
    Admission { admitted: bool },
    /// A line was read; `raw` holds it with its line end.
    Line { raw: Vec<u8> },
    /// The stream ended before what was asked for could be read.
    EndOfStream,
    /// Reading from the stream failed.
    ReadFailed,
    /// The attempt to connect to the store ended.
    Connected { result: Result<(), StorageError> },
    /// The bytes read for the body.
    Body { bytes: Vec<u8> },
    /// The store answered a listing.
    Listed { players: Result<Vec<Player>, StorageError> },
    /// The store answered the creation of a player.
    Created { player: Result<Player, StorageError> },
    /// The response was sent.
    Sent,
}

/// What the machine asks of its caller.
#[derive(Debug, PartialEq, Eq)]
pub enum Action {
    /// Read one line from the stream and report it, or the end of the
    /// stream, or the failure to read.
    ReadLine,
    /// Connect to the store and report the result.
    Connect,
    /// Read exactly `length` bytes from the stream and report them; report
    /// the end of the stream if it has fewer.
    ReadBody { length: usize },
    /// Ask the store for up to `limit` players on behalf of `token`.
    FetchTopPlayers { token: Vec<u8>, limit: i64 },
    /// Ask the store for up to `limit` players.
    FetchTestPlayers { limit: i64 },
    /// Have the store create a player on behalf of `token`.
    InsertPlayer { username: String, score: i64, token: Vec<u8> },
    /// Send the players as JSON under `status_line`, then report `Sent`.
    SendPlayers { status_line: String, players: Vec<Player> },
    /// Send these bytes, then report `Sent`.
    Send { bytes: Vec<u8> },
    /// Close the connection. `failure` is what the connection failed on, if
    /// it was not served.
    Close { failure: Option<ErrorKind> },
}

/// A state as a mathematical value.
pub ghost enum SessionView {
    Accepted,
    Rejected,
    RequestLine,
    Headers { request_line: Seq<u8>, headers: Seq<(Seq<u8>, Seq<u8>)>, body_length: usize },
    Connecting { request: RequestView },
    Body { request: RequestView },
    Listing,
    Creating,
    Sending,
    Closed,
}

/// An event as a mathematical value.
pub ghost enum EventView {
    Admission { admitted: bool },
    Line { raw: Seq<u8> },
    EndOfStream,
    ReadFailed,
    Connected { result: Result<(), (ErrorKind, Seq<char>)> },
    Body { bytes: Seq<u8> },
    Listed { players: Result<Seq<PlayerView>, (ErrorKind, Seq<char>)> },
    Created { player: Result<PlayerView, (ErrorKind, Seq<char>)> },
    Sent,
}

/// An action as a mathematical value.
pub ghost enum ActionView {
    ReadLine,
    Connect,
    ReadBody { length: usize },
    FetchTopPlayers { token: Seq<u8>, limit: i64 },
    FetchTestPlayers { limit: i64 },
    InsertPlayer { username: Seq<char>, score: i64, token: Seq<u8> },
    SendPlayers { status_line: Seq<char>, players: Seq<PlayerView> },
    Send { bytes: Seq<u8> },
    Close { failure: Option<ErrorKind> },
}

impl View for Session {
    type V = SessionView;

    open spec fn view(&self) -> SessionView {
        match *self {
            Session::Accepted => SessionView::Accepted,
            Session::Rejected => SessionView::Rejected,
            Session::RequestLine => SessionView::RequestLine,
            Session::Headers { request_line, headers, body_length } => SessionView::Headers {
                request_line: request_line@,
                headers: fields_view(headers@),
                body_length,
            },
            Session::Connecting { request } => SessionView::Connecting { request: request@ },
            Session::Body { request } => SessionView::Body { request: request@ },
            Session::Listing => SessionView::Listing,
            Session::Creating => SessionView::Creating,
            Session::Sending => SessionView::Sending,
            Session::Closed => SessionView::Closed,
        }
    }
}

impl View for Event {
    type V = EventView;

    open spec fn view(&self) -> EventView {
        match *self {
            Event::Admission { admitted } => EventView::Admission { admitted },
            Event::Line { raw } => EventView::Line { raw: raw@ },
            Event::EndOfStream => EventView::EndOfStream,
            Event::ReadFailed => EventView::ReadFailed,
            Event::Connected { result } => EventView::Connected {
                result: match result {
                    Ok(()) => Ok(()),
                    Err(e) => Err(e@),
                },
            },
            Event::Body { bytes } => EventView::Body { bytes: bytes@ },
            Event::Listed { players } => EventView::Listed {
                players: match players {
                    Ok(listed) => Ok(players_view(listed@)),
                    Err(e) => Err(e@),
                },
            },
            Event::Created { player } => EventView::Created {
                player: match player {
                    Ok(created) => Ok(created@),
                    Err(e) => Err(e@),
                },
            },
            Event::Sent => EventView::Sent,
        }
    }
}

impl View for Action {
    type V = ActionView;

    open spec fn view(&self) -> ActionView {
        match *self {
            Action::ReadLine => ActionView::ReadLine,
            Action::Connect => ActionView::Connect,
            Action::ReadBody { length } => ActionView::ReadBody { length },
            Action::FetchTopPlayers { token, limit } => ActionView::FetchTopPlayers {
                token: token@,
                limit,
            },
            Action::FetchTestPlayers { limit } => ActionView::FetchTestPlayers { limit },
            Action::InsertPlayer { username, score, token } => ActionView::InsertPlayer {
                username: username@,
                score,
                token: token@,
            },
            Action::SendPlayers { status_line, players } => ActionView::SendPlayers {
                status_line: status_line@,
                players: players_view(players@),
            },
            Action::Send { bytes } => ActionView::Send { bytes: bytes@ },
            Action::Close { failure } => ActionView::Close { failure },
        }
    }
}

/// The status line of a response that lists players.
pub open spec fn ok_status_line() -> Seq<char> {
    "HTTP/1.1 200 OK"@
}

/// The response to a request that no route takes.
pub open spec fn not_found_response() -> Seq<u8> {
    json_response("HTTP/1.1 404 NOT FOUND".spec_bytes(), no_players_body())
}

/// The connection ends unserved, for the given reason.
pub open spec fn dropped(reason: ErrorKind) -> (SessionView, ActionView) {
    (SessionView::Closed, ActionView::Close { failure: Some(reason) })
}

/// The connection ends after its response, or after a report that the
/// machine did not ask for.
pub open spec fn finished() -> (SessionView, ActionView) {
    (SessionView::Closed, ActionView::Close { failure: None })
}

/// The step once a request is read: a request that no route takes is
/// answered at once, without the store; for any other the store is
/// connected to.
pub open spec fn route_step(request: RequestView) -> (SessionView, ActionView) {
    if request.route() is NotFound {
        (SessionView::Sending, ActionView::Send { bytes: not_found_response() })
    } else {
        (SessionView::Connecting { request }, ActionView::Connect)
    }
}

/// The step once the head is complete.
pub open spec fn head_complete(
    request_line: Seq<u8>,
    headers: Seq<(Seq<u8>, Seq<u8>)>,
    body_length: usize,
) -> (SessionView, ActionView) {
    route_step(request_of(request_line, headers, body_length))
}

/// The step on a header line. An empty line ends the head; a line that is
/// not UTF-8, or announces a body length that is no number, ends the
/// connection.
pub open spec fn header_line_step(
    request_line: Seq<u8>,
    headers: Seq<(Seq<u8>, Seq<u8>)>,
    body_length: usize,
    raw: Seq<u8>,
) -> (SessionView, ActionView) {
    let line = line_content(raw);
    if !valid_utf8(raw) {
        dropped(ErrorKind::MalformedRequest)
    } else if line.len() == 0 {
        head_complete(request_line, headers, body_length)
    } else {
        match length_after(body_length, line) {
            Ok(length) => (
                SessionView::Headers {
                    request_line,
                    headers: headers_after(headers, line),
                    body_length: length,
                },
                ActionView::ReadLine,
            ),
            Err(e) => dropped(e),
        }
    }
}

/// The step once the store is connected to: the request goes where its
/// route says. In the course of a connection no request without a route
/// gets here.
pub open spec fn dispatch(request: RequestView) -> (SessionView, ActionView) {
    match request.route() {
        Route::TopPlayers => (
            SessionView::Listing,
            ActionView::FetchTopPlayers { token: request.token(), limit: request.limit() },
        ),
        Route::TestPlayers => (
            SessionView::Listing,
            ActionView::FetchTestPlayers { limit: request.limit() },
        ),
        Route::CreatePlayer => (
            SessionView::Body { request },
            ActionView::ReadBody { length: request.body_length },
        ),
        Route::NotFound => (SessionView::Sending, ActionView::Send { bytes: not_found_response() }),
    }
}

/// The step on the body of a request that creates a player. A body shorter
/// or longer than announced, or one that describes no player, ends the
/// connection.
pub open spec fn body_step(request: RequestView, bytes: Seq<u8>) -> (SessionView, ActionView) {
    if bytes.len() != request.body_length {
        dropped(ErrorKind::TruncatedBody)
    } else {
        match player_of_body(bytes) {
            Ok((username, score)) => (
                SessionView::Creating,
                ActionView::InsertPlayer { username, score, token: request.token() },
            ),
            Err(e) => dropped(e),
        }
    }
}

/// The step on the store's answer: the players are sent, or the connection
/// ends without a response.
pub open spec fn answer_step(result: Result<Seq<PlayerView>, (ErrorKind, Seq<char>)>) -> (
    SessionView,
    ActionView,
) {
    match result {
        Ok(players) => (
            SessionView::Sending,
            ActionView::SendPlayers { status_line: ok_status_line(), players },
        ),
        Err(e) => dropped(e.0),
    }
}

/// One step of the machine: the next state and what the caller is to do.
///
/// A report that the state does not wait for closes the connection.
pub open spec fn step(state: SessionView, event: EventView) -> (SessionView, ActionView) {
    match (state, event) {
        (SessionView::Accepted, EventView::Admission { admitted }) => if admitted {
            (SessionView::RequestLine, ActionView::ReadLine)
        } else {
            (SessionView::Rejected, ActionView::Send { bytes: too_many_requests_response() })
        },
        (SessionView::Rejected, EventView::Sent) => dropped(ErrorKind::Throttled),
        (SessionView::RequestLine, EventView::Line { raw }) => if valid_utf8(raw) {
            (
                SessionView::Headers {
                    request_line: line_content(raw),
                    headers: Seq::empty(),
                    body_length: 0,
                },
                ActionView::ReadLine,
            )
        } else {
            dropped(ErrorKind::MalformedRequest)
        },
        (SessionView::RequestLine, EventView::EndOfStream) => dropped(ErrorKind::MalformedRequest),
        (SessionView::RequestLine, EventView::ReadFailed) => dropped(ErrorKind::MalformedRequest),
        (
            SessionView::Headers { request_line, headers, body_length },
            EventView::Line { raw },
        ) => header_line_step(request_line, headers, body_length, raw),
        (
            SessionView::Headers { request_line, headers, body_length },
            EventView::EndOfStream,
        ) => head_complete(request_line, headers, body_length),
        (SessionView::Headers { .. }, EventView::ReadFailed) => dropped(
            ErrorKind::MalformedRequest,
        ),
        (SessionView::Connecting { request }, EventView::Connected { result }) => match result {
            Ok(()) => dispatch(request),
            Err(e) => dropped(e.0),
        },
        (SessionView::Body { request }, EventView::Body { bytes }) => body_step(request, bytes),
        (SessionView::Body { .. }, EventView::EndOfStream) => dropped(ErrorKind::TruncatedBody),
        (SessionView::Body { .. }, EventView::ReadFailed) => dropped(ErrorKind::TruncatedBody),
        (SessionView::Listing, EventView::Listed { players }) => answer_step(players),
        (SessionView::Creating, EventView::Created { player }) => answer_step(
            match player {
                Ok(created) => Ok(seq![created]),
                Err(e) => Err(e),
            },
        ),
        _ => finished(),
    }
}

/// Every response that the machine has sent as bytes is framed: whatever the
/// state and the report, the bytes are a status line, the content type, the
/// exact length of the body, an empty line, and the body.
pub proof fn lemma_sent_bytes_are_framed(state: SessionView, event: EventView)
    ensures
        step(state, event).1 matches ActionView::Send { bytes } ==> exists|
            status_line: Seq<u8>,
            body: Seq<u8>,
        | bytes == #[trigger] json_response(status_line, body),
{
    let action = step(state, event).1;
    if let ActionView::Send { bytes } = action {
        if bytes == too_many_requests_response() {
            assert(bytes == json_response(
                "HTTP/1.1 429 Too Many Requests".spec_bytes(),
                Seq::empty(),
            ));
        } else {
            assert(bytes == json_response(
                "HTTP/1.1 404 NOT FOUND".spec_bytes(),
                no_players_body(),
            ));
        }
    }
}

/// The store is reached only for a request that has a route: whatever the
/// state and the report, the machine asks for the connection to the store
/// only while it holds a request that one of the three routes takes.
pub proof fn lemma_store_is_reached_only_with_a_route(state: SessionView, event: EventView)
    ensures
        step(state, event).1 is Connect ==> (step(state, event).0 matches SessionView::Connecting {
            request,
        } && !(request.route() is NotFound)),
{
}

/// What a caller reports when it is asked for a line and reads `input`
/// from `from`: the line that begins there, or the end of the stream.
pub open spec fn line_event(input: Seq<u8>, from: int) -> EventView {
    if 0 <= from < input.len() {
        EventView::Line { raw: input.subrange(from, line_end(input, from)) }
    } else {
        EventView::EndOfStream
    }
}

/// Where the machine stands, what it asks for and how far `input` is read
/// once it no longer asks for a line, if it is served line by line from
/// `from`.
pub open spec fn after_lines(state: SessionView, input: Seq<u8>, from: int) -> (
    SessionView,
    ActionView,
    int,
)
    decreases input.len() - from,
{
    let (next, action) = step(state, line_event(input, from));
    if 0 <= from < input.len() {
        if action is ReadLine {
            proof {
                lemma_find_byte_from(input, 0x0a, from);
            }
            after_lines(next, input, line_end(input, from))
        } else {
            (next, action, line_end(input, from))
        }
    } else {
        (next, action, input.len() as int)
    }
}

/// What reading a head comes to in the machine: the request is complete
/// and is routed, or the connection is dropped.
pub open spec fn head_outcome(head: Result<(RequestView, int), ErrorKind>) -> (
    SessionView,
    ActionView,
) {
    match head {
        Ok((request, end)) => route_step(request),
        Err(e) => dropped(e),
    }
}

proof fn lemma_header_lines_read(
    input: Seq<u8>,
    from: int,
    request_line: Seq<u8>,
    headers: Seq<(Seq<u8>, Seq<u8>)>,
    body_length: usize,
)
    requires
        0 <= from <= input.len(),
    ensures
        ({
            let state = SessionView::Headers { request_line, headers, body_length };
            let head = head_from(input, from, request_line, headers, body_length);
            let reached = after_lines(state, input, from);
            &&& (reached.0, reached.1) == head_outcome(head)
            &&& head matches Ok((request, end)) ==> reached.2 == end
        }),
    decreases input.len() - from,
{
    if from < input.len() {
        lemma_find_byte_from(input, 0x0a, from);
        let end = line_end(input, from);
        let raw = input.subrange(from, end);
        let line = line_content(raw);
        if valid_utf8(raw) && line.len() > 0 {
            match length_after(body_length, line) {
                Ok(length) => {
                    lemma_header_lines_read(
                        input,
                        end,
                        request_line,
                        headers_after(headers, line),
                        length,
                    );
                },
                Err(e) => {},
            }
        }
    }
}

/// Served line by line, the machine reads a head as the parser of whole
/// inputs does.
///
/// Let the machine wait for the request line and answer every request for a
/// line with the next line of `input`. When it stops asking for lines it
/// has routed the very request that the parser reads from `input` and has
/// read as far as the parser says the head goes; or, where the parser
/// fails, it drops the connection for the same reason.
pub proof fn lemma_machine_reads_heads_as_parser(input: Seq<u8>)
    ensures
        ({
            let reached = after_lines(SessionView::RequestLine, input, 0);
            &&& (reached.0, reached.1) == head_outcome(request_in(input))
            &&& request_in(input) matches Ok((request, end)) ==> reached.2 == end
        }),
{
    if input.len() > 0 {
        lemma_find_byte_from(input, 0x0a, 0);
        let end = line_end(input, 0);
        let raw = input.subrange(0, end);
        if valid_utf8(raw) {
            lemma_header_lines_read(input, end, line_content(raw), Seq::empty(), 0);
        }
    }
}

} // verus!
