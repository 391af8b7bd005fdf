//! The head of a request: its request line and its header lines.
//!
//! A line arrives as it was read from the stream, with its line end. The
//! head ends at the first line that is empty once its line end is taken off,
//! or where the stream ends.

use crate::db::parser::{
    fields_view, find_last, limit_from_value, limit_name, limit_of, lookup_last, parse_query_string,
    query_pairs, query_string, Field,
};
use crate::decimal::{decimal_usize, parse_usize};
use crate::error::ErrorKind;
use crate::text::{
    find_byte, find_byte_from, find_pattern, is_utf8, lemma_find_byte_from, position_of_byte,
    position_of_pattern, starts_with, strip_repeated_prefix, trim_start_matches,
};
use crate::whitespace::{nth_word, trim, trimmed, word};
use vstd::prelude::*;
use vstd::string::*;
use vstd::utf8::*;

verus! {

/// Where a request is sent.
#[derive(Clone, Copy, Debug, PartialEq, Eq, Structural)]
pub enum Route {
    /// `GET /players/top`: the leaderboard, for holders of a token.
    TopPlayers,
    /// `GET /test/players`: the leaderboard, for everyone.
    TestPlayers,
    /// `POST /player`: create or replace a player, for holders of a token.
    CreatePlayer,
    /// Anything else.
    NotFound,
}

/// A line without its line end: without a final line feed and, if it had
/// one, without a carriage return just before it.
pub open spec fn line_content(raw: Seq<u8>) -> Seq<u8> {
    if raw.len() > 0 && raw.last() == 0x0a {
        let cut = raw.drop_last();
        if cut.len() > 0 && cut.last() == 0x0d {
            cut.drop_last()
        } else {
            cut
        }
    } else {
        raw
    }
}

/// What stands between a header's name and its value.
pub open spec fn header_separator() -> Seq<u8> {
    ": ".spec_bytes()
}

/// A header line as name and value, split at its first colon and space. A
/// line without them is no header.
pub open spec fn split_header(line: Seq<u8>) -> Option<(Seq<u8>, Seq<u8>)> {
    let at = find_pattern(line, header_separator());
    if 0 <= at < line.len() {
        Some((line.take(at), line.skip(at + header_separator().len())))
    } else {
        None
    }
}

/// Whether a header line announces the length of the body.
pub open spec fn names_length(line: Seq<u8>) -> bool {
    "Content-Length:".spec_bytes().is_prefix_of(line)
}

/// What stands between the first and the second colon of a line, or after
/// the first if there is no second.
pub open spec fn second_piece(line: Seq<u8>) -> Seq<u8> {
    let first = find_byte(line, 0x3a);
    if 0 <= first < line.len() {
        line.subrange(first + 1, find_byte_from(line, 0x3a, first + 1))
    } else {
        Seq::empty()
    }
}

/// The length that a `Content-Length` line announces, if it writes one.
pub open spec fn announced_length(line: Seq<u8>) -> Option<usize> {
    decimal_usize(trimmed(second_piece(line)))
}

/// The body length known once `line` has been read: the one it announces,
/// the one known before if it announces none, or a failure if it announces
/// one that is no number.
pub open spec fn length_after(length: usize, line: Seq<u8>) -> Result<usize, ErrorKind> {
    if names_length(line) {
        match announced_length(line) {
            Some(n) => Ok(n),
            None => Err(ErrorKind::MalformedRequest),
        }
    } else {
        Ok(length)
    }
}

/// The headers known once `line` has been read.
pub open spec fn headers_after(headers: Seq<(Seq<u8>, Seq<u8>)>, line: Seq<u8>) -> Seq<
    (Seq<u8>, Seq<u8>),
> {
    match split_header(line) {
        Some(header) => headers.push(header),
        None => headers,
    }
}

/// The token of the last `Authorization` header, if there is such a header:
/// the header's value without any leading `Bearer `.
pub open spec fn presented_token(headers: Seq<(Seq<u8>, Seq<u8>)>) -> Option<Seq<u8>> {
    match lookup_last(headers, "Authorization".spec_bytes()) {
        Some(value) => Some(strip_repeated_prefix(value, "Bearer ".spec_bytes())),
        None => None,
    }
}

/// The token that the headers carry: that of the last `Authorization`
/// header, or nothing if there is no such header.
pub open spec fn bearer_token(headers: Seq<(Seq<u8>, Seq<u8>)>) -> Seq<u8> {
    match presented_token(headers) {
        Some(token) => token,
        None => Seq::empty(),
    }
}

/// The lines as byte strings, in order.
pub open spec fn lines_view(lines: Seq<Vec<u8>>) -> Seq<Seq<u8>> {
    Seq::new(lines.len(), |i: int| lines[i]@)
}

/// The headers among the lines from number `from` on, added to `headers`:
/// every line up to the first empty one, or up to the last, that is a
/// header. A line that is not UTF-8 is a failure.
pub open spec fn headers_from(
    lines: Seq<Seq<u8>>,
    from: int,
    headers: Seq<(Seq<u8>, Seq<u8>)>,
) -> Result<Seq<(Seq<u8>, Seq<u8>)>, ErrorKind>
    decreases lines.len() - from,
{
    if from < 0 || from >= lines.len() {
        Ok(headers)
    } else if !valid_utf8(lines[from]) {
        Err(ErrorKind::MalformedRequest)
    } else if line_content(lines[from]).len() == 0 {
        Ok(headers)
    } else {
        headers_from(lines, from + 1, headers_after(headers, line_content(lines[from])))
    }
}

/// The headers among the lines, each line given with its line end.
pub open spec fn headers_of_lines(lines: Seq<Seq<u8>>) -> Result<
    Seq<(Seq<u8>, Seq<u8>)>,
    ErrorKind,
> {
    headers_from(lines, 0, Seq::empty())
}

/// The route of a request line: the first of the three routes whose method
/// and path the line begins with.
pub open spec fn route_of(request_line: Seq<u8>) -> Route {
    if "GET /players/top".spec_bytes().is_prefix_of(request_line) {
        Route::TopPlayers
    } else if "GET /test/players".spec_bytes().is_prefix_of(request_line) {
        Route::TestPlayers
    } else if "POST /player".spec_bytes().is_prefix_of(request_line) {
        Route::CreatePlayer
    } else {
        Route::NotFound
    }
}

/// The word number `n` of a line, or nothing.
pub open spec fn word_or_empty(line: Seq<u8>, n: nat) -> Seq<u8> {
    match word(line, n) {
        Some(w) => w,
        None => Seq::empty(),
    }
}

/// The path of a request target: what stands before its first `?`.
pub open spec fn path_of(target: Seq<u8>) -> Seq<u8> {
    target.take(find_byte(target, 0x3f))
}

/// The parameters of a request target.
pub open spec fn params_of(target: Seq<u8>) -> Seq<(Seq<u8>, Seq<u8>)> {
    match query_string(target) {
        Some(query) => query_pairs(query),
        None => Seq::empty(),
    }
}

/// A request head as a mathematical value.
pub ghost struct RequestView {
    pub request_line: Seq<u8>,
    pub method: Seq<u8>,
    pub path: Seq<u8>,
    pub query_params: Seq<(Seq<u8>, Seq<u8>)>,
    pub headers: Seq<(Seq<u8>, Seq<u8>)>,
    pub body_length: usize,
}

/// The request that a request line, the headers and the body length make.
/// The method is the line's first word, the target its second.
pub open spec fn request_of(
    request_line: Seq<u8>,
    headers: Seq<(Seq<u8>, Seq<u8>)>,
    body_length: usize,
) -> RequestView {
    RequestView {
        request_line,
        method: word_or_empty(request_line, 0),
        path: path_of(word_or_empty(request_line, 1)),
        query_params: params_of(word_or_empty(request_line, 1)),
        headers,
        body_length,
    }
}

/// The head of a request, taken apart.
#[derive(Debug, PartialEq, Eq)]
pub struct ParsedRequest {
    /// The request line as received, without its line end.
    pub request_line: Vec<u8>,
    /// The first word of the request line.
    pub method: Vec<u8>,
    /// The second word of the request line up to its first `?`.
    pub path: Vec<u8>,
    /// The parameters after that `?`, in order.
    pub query_params: Vec<Field>,
    /// The headers in order; names are kept as received.
    pub headers: Vec<Field>,
    /// The length of the body as the headers announce it, zero if they do
    /// not.
    pub body_length: usize,
}

impl View for ParsedRequest {
    type V = RequestView;

    open spec fn view(&self) -> RequestView {
        RequestView {
            request_line: self.request_line@,
            method: self.method@,
            path: self.path@,
            query_params: fields_view(self.query_params@),
            headers: fields_view(self.headers@),
            body_length: self.body_length,
        }
    }
}

impl RequestView {
    /// The route of the request.
    pub open spec fn route(self) -> Route {
        route_of(self.request_line)
    }

    /// The token that the request carries.
    pub open spec fn token(self) -> Seq<u8> {
        bearer_token(self.headers)
    }

    /// The number of players that the request asks for.
    pub open spec fn limit(self) -> i64 {
        limit_from_value(lookup_last(self.query_params, limit_name()))
    }
}

/// Where the line that begins at `from` ends: just after its line feed, or
/// where the input ends if it has none.
pub open spec fn line_end(input: Seq<u8>, from: int) -> int {
    let feed = find_byte_from(input, 0x0a, from);
    if feed < input.len() {
        feed + 1
    } else {
        input.len() as int
    }
}

/// The head that the input holds from `from` on, given what was read before:
/// the request, and where the head ends in the input. Header lines are read
/// up to the first empty line or the end of the input. A line that is not
/// UTF-8, or announces a body length that is no number, is a failure.
pub open spec fn head_from(
    input: Seq<u8>,
    from: int,
    request_line: Seq<u8>,
    headers: Seq<(Seq<u8>, Seq<u8>)>,
    body_length: usize,
) -> Result<(RequestView, int), ErrorKind>
    decreases input.len() - from,
{
    if from < 0 || from >= input.len() {
        Ok((request_of(request_line, headers, body_length), input.len() as int))
    } else {
        let end = line_end(input, from);
        let raw = input.subrange(from, end);
        let line = line_content(raw);
        if !valid_utf8(raw) {
            Err(ErrorKind::MalformedRequest)
        } else if line.len() == 0 {
            Ok((request_of(request_line, headers, body_length), end))
        } else {
            match length_after(body_length, line) {
                Ok(length) => {
                    proof {
                        lemma_find_byte_from(input, 0x0a, from);
                    }
                    head_from(input, end, request_line, headers_after(headers, line), length)
                },
                Err(e) => Err(e),
            }
        }
    }
}

/// The request that the input begins with, and where its head ends in the
/// input. The first line is the request line; an input without any line, or
/// with a first line that is not UTF-8, is a failure.
pub open spec fn request_in(input: Seq<u8>) -> Result<(RequestView, int), ErrorKind> {
    let end = line_end(input, 0);
    let raw = input.subrange(0, end);
    if input.len() == 0 || !valid_utf8(raw) {
        Err(ErrorKind::MalformedRequest)
    } else {
        head_from(input, end, line_content(raw), Seq::empty(), 0)
    }
}

/// The limit of a request is the limit of its target, and the default if
/// the request line has no target.
pub proof fn lemma_limit_is_limit_of_target(
    request_line: Seq<u8>,
    headers: Seq<(Seq<u8>, Seq<u8>)>,
    body_length: usize,
)
    ensures
        request_of(request_line, headers, body_length).limit() == match word(request_line, 1) {
            Some(target) => limit_of(target),
            None => crate::db::parser::DEFAULT_LIMIT,
        },
{
    let target = word_or_empty(request_line, 1);
    if word(request_line, 1) is None {
        assert(find_byte(target, 0x3f) == 0);
    }
}

/// Takes the line end off a line as it was read.
pub fn strip_line_end(raw: &[u8]) -> (line: &[u8])
    ensures
        line@ == line_content(raw@),
{
    let n = raw.len();
    if n > 0 && raw[n - 1] == 0x0a {
        if n > 1 && raw[n - 2] == 0x0d {
            let line = vstd::slice::slice_subrange(raw, 0, n - 2);
            assert(line@ =~= raw@.drop_last().drop_last());
            line
        } else {
            let line = vstd::slice::slice_subrange(raw, 0, n - 1);
            assert(line@ =~= raw@.drop_last());
            line
        }
    } else {
        raw
    }
}

/// A header line as a field, if it has a name and a value.
pub fn parse_header_line(line: &[u8]) -> (header: Option<Field>)
    ensures
        match header {
            Some(h) => split_header(line@) == Some(h@),
            None => split_header(line@) is None,
        },
{
    let separator = ": ".as_bytes();
    let at = position_of_pattern(line, separator);
    if at < line.len() {
        let name = vstd::slice::slice_to_vec(vstd::slice::slice_subrange(line, 0, at));
        let value = vstd::slice::slice_to_vec(
            vstd::slice::slice_subrange(line, at + separator.len(), line.len()),
        );
        assert(name@ =~= line@.take(at as int));
        assert(value@ =~= line@.skip(at + separator.len()));
        Some(Field { name, value })
    } else {
        None
    }
}

/// The body length that a header line announces: `Ok(None)` if the line is
/// no `Content-Length` line, a failure if it is one and writes no length.
pub fn parse_content_length(line: &[u8]) -> (r: Result<Option<usize>, ErrorKind>)
    ensures
        match r {
            Ok(Some(n)) => names_length(line@) && announced_length(line@) == Some(n),
            Ok(None) => !names_length(line@),
            Err(e) => names_length(line@) && announced_length(line@) is None && e
                == ErrorKind::MalformedRequest,
        },
{
    if !starts_with(line, "Content-Length:".as_bytes()) {
        return Ok(None);
    }
    let first = position_of_byte(line, 0x3a, 0);
    let parsed = if first < line.len() {
        let second = position_of_byte(line, 0x3a, first + 1);
        parse_usize(trim(vstd::slice::slice_subrange(line, first + 1, second)))
    } else {
        let nothing = vstd::slice::slice_subrange(line, 0, 0);
        assert(nothing@ =~= Seq::<u8>::empty());
        parse_usize(trim(nothing))
    };
    match parsed {
        Some(n) => Ok(Some(n)),
        None => Err(ErrorKind::MalformedRequest),
    }
}

/// Takes one header line into account: keeps the header if the line is one,
/// and the body length if the line announces it.
pub fn read_header(headers: &mut Vec<Field>, body_length: &mut usize, line: &[u8]) -> (r: Result<
    (),
    ErrorKind,
>)
    ensures
        match r {
            Ok(()) => {
                &&& length_after(*old(body_length), line@) == Ok::<usize, ErrorKind>(
                    *final(body_length),
                )
                &&& fields_view(final(headers)@) == headers_after(fields_view(old(headers)@), line@)
            },
            Err(e) => {
                &&& length_after(*old(body_length), line@) == Err::<usize, ErrorKind>(e)
                &&& final(headers)@ == old(headers)@
                &&& *final(body_length) == *old(body_length)
            },
        },
{
    match parse_content_length(line) {
        Ok(Some(n)) => {
            *body_length = n;
        },
        Ok(None) => {},
        Err(e) => {
            return Err(e);
        },
    }
    let ghost before = fields_view(headers@);
    match parse_header_line(line) {
        Some(header) => {
            headers.push(header);
            assert(fields_view(headers@) =~= before.push(header@));
        },
        None => {},
    }
    Ok(())
}

/// The token of the last `Authorization` header, if there is such a header.
pub fn presented_token_of(headers: &Vec<Field>) -> (token: Option<Vec<u8>>)
    ensures
        match token {
            Some(t) => presented_token(fields_view(headers@)) == Some(t@),
            None => presented_token(fields_view(headers@)) is None,
        },
{
    match find_last(headers, "Authorization".as_bytes()) {
        Some(value) => Some(
            vstd::slice::slice_to_vec(trim_start_matches(value.as_slice(), "Bearer ".as_bytes())),
        ),
        None => None,
    }
}

/// The headers among the lines, each line given with its line end.
pub fn collect_headers(lines: &Vec<Vec<u8>>) -> (r: Result<Vec<Field>, ErrorKind>)
    ensures
        match r {
            Ok(headers) => headers_of_lines(lines_view(lines@)) == Ok::<
                Seq<(Seq<u8>, Seq<u8>)>,
                ErrorKind,
            >(fields_view(headers@)),
            Err(e) => headers_of_lines(lines_view(lines@)) == Err::<
                Seq<(Seq<u8>, Seq<u8>)>,
                ErrorKind,
            >(e),
        },
{
    let mut headers: Vec<Field> = Vec::new();
    let mut i: usize = 0;
    assert(fields_view(headers@) =~= Seq::<(Seq<u8>, Seq<u8>)>::empty());
    while i < lines.len()
        invariant
            i <= lines.len(),
            headers_of_lines(lines_view(lines@)) == headers_from(
                lines_view(lines@),
                i as int,
                fields_view(headers@),
            ),
        decreases lines.len() - i,
    {
        let raw = lines[i].as_slice();
        assert(lines_view(lines@)[i as int] == raw@);
        if !is_utf8(raw) {
            return Err(ErrorKind::MalformedRequest);
        }
        let line = strip_line_end(raw);
        if line.len() == 0 {
            return Ok(headers);
        }
        let ghost before = fields_view(headers@);
        match parse_header_line(line) {
            Some(header) => {
                headers.push(header);
                assert(fields_view(headers@) =~= before.push(header@));
            },
            None => {},
        }
        i = i + 1;
    }
    Ok(headers)
}

/// The token that the headers carry.
pub fn token_of(headers: &Vec<Field>) -> (token: Vec<u8>)
    ensures
        token@ == bearer_token(fields_view(headers@)),
{
    match presented_token_of(headers) {
        Some(token) => token,
        None => Vec::new(),
    }
}

/// The route of a request line.
pub fn route_of_line(request_line: &[u8]) -> (route: Route)
    ensures
        route == route_of(request_line@),
{
    if starts_with(request_line, "GET /players/top".as_bytes()) {
        Route::TopPlayers
    } else if starts_with(request_line, "GET /test/players".as_bytes()) {
        Route::TestPlayers
    } else if starts_with(request_line, "POST /player".as_bytes()) {
        Route::CreatePlayer
    } else {
        Route::NotFound
    }
}

/// Where the line that begins at `from` ends.
pub fn end_of_line(input: &[u8], from: usize) -> (end: usize)
    requires
        from < input.len(),
    ensures
        end == line_end(input@, from as int),
        from < end <= input.len(),
{
    let feed = position_of_byte(input, 0x0a, from);
    if feed < input.len() {
        feed + 1
    } else {
        input.len()
    }
}

/// Reads the head of a request from the beginning of `input`: the request
/// line and the header lines up to the first empty line or the end of the
/// input. Returns the request and where the head ends, which is where a body
/// begins.
///
/// Fails with `MalformedRequest` if the input holds no line, if a line of
/// the head is not UTF-8, or if a `Content-Length` line names no length.
pub fn parse_request(input: &[u8]) -> (r: Result<(ParsedRequest, usize), ErrorKind>)
    ensures
        match r {
            Ok((request, end)) => request_in(input@) == Ok::<(RequestView, int), ErrorKind>(
                (request@, end as int),
            ) && end <= input.len(),
            Err(e) => request_in(input@) == Err::<(RequestView, int), ErrorKind>(e),
        },
{
    if input.len() == 0 {
        return Err(ErrorKind::MalformedRequest);
    }
    let first_end = end_of_line(input, 0);
    let first = vstd::slice::slice_subrange(input, 0, first_end);
    if !is_utf8(first) {
        return Err(ErrorKind::MalformedRequest);
    }
    let request_line = vstd::slice::slice_to_vec(strip_line_end(first));
    let mut headers: Vec<Field> = Vec::new();
    let mut body_length: usize = 0;
    let mut from: usize = first_end;
    assert(fields_view(headers@) =~= Seq::<(Seq<u8>, Seq<u8>)>::empty());
    while from < input.len()
        invariant
            from <= input.len(),
            request_in(input@) == head_from(
                input@,
                from as int,
                request_line@,
                fields_view(headers@),
                body_length,
            ),
        decreases input.len() - from,
    {
        let end = end_of_line(input, from);
        let raw = vstd::slice::slice_subrange(input, from, end);
        if !is_utf8(raw) {
            return Err(ErrorKind::MalformedRequest);
        }
        let line = strip_line_end(raw);
        if line.len() == 0 {
            return Ok((ParsedRequest::new(request_line, headers, body_length), end));
        }
        match read_header(&mut headers, &mut body_length, line) {
            Ok(()) => {},
            Err(e) => {
                return Err(e);
            },
        }
        from = end;
    }
    Ok((ParsedRequest::new(request_line, headers, body_length), from))
}

impl ParsedRequest {
    /// The request that a request line, the headers read after it and the
    /// announced body length make.
    pub fn new(request_line: Vec<u8>, headers: Vec<Field>, body_length: usize) -> (request:
        ParsedRequest)
        ensures
            request@ == request_of(request_line@, fields_view(headers@), body_length),
    {
        let method = match nth_word(request_line.as_slice(), 0) {
            Some(w) => vstd::slice::slice_to_vec(w),
            None => Vec::new(),
        };
        let (path, query_params) = match nth_word(request_line.as_slice(), 1) {
            Some(target) => {
                let mark = position_of_byte(target, 0x3f, 0);
                let path = vstd::slice::slice_to_vec(vstd::slice::slice_subrange(target, 0, mark));
                assert(path@ =~= target@.take(mark as int));
                let params = if mark < target.len() {
                    let query = vstd::slice::slice_subrange(target, mark + 1, target.len());
                    assert(query@ =~= target@.skip(mark + 1));
                    parse_query_string(query)
                } else {
                    let none: Vec<Field> = Vec::new();
                    assert(fields_view(none@) =~= Seq::<(Seq<u8>, Seq<u8>)>::empty());
                    none
                };
                (path, params)
            },
            None => {
                let path: Vec<u8> = Vec::new();
                let none: Vec<Field> = Vec::new();
                assert(fields_view(none@) =~= Seq::<(Seq<u8>, Seq<u8>)>::empty());
                assert(path@ =~= path_of(Seq::<u8>::empty()));
                (path, none)
            },
        };
        ParsedRequest { request_line, method, path, query_params, headers, body_length }
    }

    /// The route of the request.
    pub fn route(&self) -> (route: Route)
        ensures
            route == self@.route(),
    {
        route_of_line(self.request_line.as_slice())
    }

    /// The token that the request carries; empty if it carries none.
    pub fn token(&self) -> (token: Vec<u8>)
        ensures
            token@ == self@.token(),
    {
        token_of(&self.headers)
    }

    /// The number of players that the request asks for.
    pub fn limit(&self) -> (limit: i64)
        ensures
            limit == self@.limit(),
    {
        crate::db::parser::limit_or_default(find_last(&self.query_params, "limit".as_bytes()))
    }
}

} // verus!
