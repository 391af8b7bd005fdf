use leaderboard::db::parser::Field;
use leaderboard::error::ErrorKind;
use leaderboard::request::{
    collect_headers, end_of_line, parse_content_length, parse_header_line, parse_request,
    presented_token_of, read_header, route_of_line, strip_line_end, token_of, ParsedRequest, Route,
};

fn field(name: &str, value: &str) -> Field {
    Field { name: name.as_bytes().to_vec(), value: value.as_bytes().to_vec() }
}

fn request(line: &str, headers: Vec<Field>) -> ParsedRequest {
    ParsedRequest::new(line.as_bytes().to_vec(), headers, 0)
}

#[test]
fn line_end_is_taken_off() {
    assert_eq!(strip_line_end(b"abc\r\n"), b"abc");
    assert_eq!(strip_line_end(b"abc\n"), b"abc");
    assert_eq!(strip_line_end(b"abc"), b"abc");
    assert_eq!(strip_line_end(b"abc\r"), b"abc\r");
    assert_eq!(strip_line_end(b"abc\r\r\n"), b"abc\r");
    assert_eq!(strip_line_end(b"\r\n"), b"");
    assert_eq!(strip_line_end(b"\n"), b"");
    assert_eq!(strip_line_end(b""), b"");
    assert_eq!(strip_line_end(b"abc\n\n"), b"abc\n");
}

#[test]
fn header_is_split_at_the_first_colon_and_space() {
    assert_eq!(parse_header_line(b"Host: example.org"), Some(field("Host", "example.org")));
    assert_eq!(parse_header_line(b"A: b: c"), Some(field("A", "b: c")));
    assert_eq!(parse_header_line(b": v"), Some(field("", "v")));
    assert_eq!(parse_header_line(b"K: "), Some(field("K", "")));
    assert_eq!(parse_header_line(b"Host:example.org"), None);
    assert_eq!(parse_header_line(b"no header"), None);
    assert_eq!(parse_header_line(b""), None);
}

#[test]
fn bearer_token_is_extracted() {
    let headers = vec![field("Host", "x"), field("Authorization", "Bearer XYZ")];
    assert_eq!(token_of(&headers), b"XYZ");
    assert_eq!(presented_token_of(&headers), Some(b"XYZ".to_vec()));
}

#[test]
fn absent_authorization_gives_an_empty_token() {
    let headers = vec![field("Host", "x")];
    assert_eq!(token_of(&headers), b"");
    assert_eq!(presented_token_of(&headers), None);
    assert_eq!(token_of(&vec![]), b"");
}

#[test]
fn token_details() {
    assert_eq!(token_of(&vec![field("Authorization", "XYZ")]), b"XYZ");
    assert_eq!(token_of(&vec![field("Authorization", "Bearer Bearer XYZ")]), b"XYZ");
    assert_eq!(token_of(&vec![field("authorization", "Bearer XYZ")]), b"");
    assert_eq!(
        token_of(&vec![field("Authorization", "Bearer A"), field("Authorization", "Bearer B")]),
        b"B"
    );
    assert_eq!(token_of(&vec![field("Authorization", "Bearer ")]), b"");
}

#[test]
fn content_length_is_read() {
    assert_eq!(parse_content_length(b"Content-Length: 31"), Ok(Some(31)));
    assert_eq!(parse_content_length(b"Content-Length:31"), Ok(Some(31)));
    assert_eq!(parse_content_length(b"Content-Length:  7\t"), Ok(Some(7)));
    assert_eq!(parse_content_length(b"Content-Length: +7"), Ok(Some(7)));
    assert_eq!(parse_content_length(b"Content-Length: 5:6"), Ok(Some(5)));
    assert_eq!(parse_content_length(b"Content-Length:\xc2\xa05"), Ok(Some(5)));
    assert_eq!(parse_content_length(b"Content-Type: text/plain"), Ok(None));
    assert_eq!(parse_content_length(b"content-length: 5"), Ok(None));
    assert_eq!(parse_content_length(b" Content-Length: 5"), Ok(None));
}

#[test]
fn content_length_that_is_no_number_is_malformed() {
    for line in [
        &b"Content-Length: abc"[..],
        b"Content-Length:",
        b"Content-Length: ",
        b"Content-Length: -1",
        b"Content-Length: 1 2",
        b"Content-Length: 99999999999999999999999999",
        b"Content-Length::5",
    ] {
        assert_eq!(parse_content_length(line), Err(ErrorKind::MalformedRequest));
    }
}

#[test]
fn header_lines_accumulate() {
    let mut headers = Vec::new();
    let mut length = 0usize;
    assert_eq!(read_header(&mut headers, &mut length, b"Host: x"), Ok(()));
    assert_eq!(read_header(&mut headers, &mut length, b"Content-Length: 12"), Ok(()));
    assert_eq!(read_header(&mut headers, &mut length, b"garbage"), Ok(()));
    assert_eq!(read_header(&mut headers, &mut length, b"Content-Length:3"), Ok(()));
    assert_eq!(headers, vec![field("Host", "x"), field("Content-Length", "12")]);
    assert_eq!(length, 3);
    assert_eq!(
        read_header(&mut headers, &mut length, b"Content-Length: x"),
        Err(ErrorKind::MalformedRequest)
    );
    assert_eq!(headers.len(), 2);
    assert_eq!(length, 3);
}

#[test]
fn routes() {
    assert_eq!(route_of_line(b"GET /players/top HTTP/1.1"), Route::TopPlayers);
    assert_eq!(route_of_line(b"GET /players/top?limit=5 HTTP/1.1"), Route::TopPlayers);
    assert_eq!(route_of_line(b"GET /players/topmost"), Route::TopPlayers);
    assert_eq!(route_of_line(b"GET /test/players?limit=2 HTTP/1.1"), Route::TestPlayers);
    assert_eq!(route_of_line(b"POST /player HTTP/1.1"), Route::CreatePlayer);
    assert_eq!(route_of_line(b"POST /player"), Route::CreatePlayer);
    assert_eq!(route_of_line(b"GET /unknown/path HTTP/1.1"), Route::NotFound);
    assert_eq!(route_of_line(b"get /players/top HTTP/1.1"), Route::NotFound);
    assert_eq!(route_of_line(b" GET /players/top"), Route::NotFound);
    assert_eq!(route_of_line(b"POST /players/top"), Route::CreatePlayer);
    assert_eq!(route_of_line(b"GET /player"), Route::NotFound);
    assert_eq!(route_of_line(b""), Route::NotFound);
}

#[test]
fn request_is_taken_apart() {
    let r = ParsedRequest::new(
        b"GET /players/top?limit=5&x=y HTTP/1.1".to_vec(),
        vec![field("Authorization", "Bearer XYZ")],
        9,
    );
    assert_eq!(r.request_line, b"GET /players/top?limit=5&x=y HTTP/1.1");
    assert_eq!(r.method, b"GET");
    assert_eq!(r.path, b"/players/top");
    assert_eq!(r.query_params, vec![field("limit", "5"), field("x", "y")]);
    assert_eq!(r.headers, vec![field("Authorization", "Bearer XYZ")]);
    assert_eq!(r.body_length, 9);
    assert_eq!(r.route(), Route::TopPlayers);
    assert_eq!(r.token(), b"XYZ");
    assert_eq!(r.limit(), 5);
}

#[test]
fn request_limit_follows_the_target() {
    assert_eq!(request("GET /players/top?limit=5 HTTP/1.1", vec![]).limit(), 5);
    assert_eq!(request("GET /players/top?limit=abc HTTP/1.1", vec![]).limit(), 15);
    assert_eq!(request("GET /players/top HTTP/1.1", vec![]).limit(), 15);
    assert_eq!(request("GET", vec![]).limit(), 15);
    assert_eq!(request("", vec![]).limit(), 15);
    assert_eq!(request("GET  \t /x?limit=2", vec![]).limit(), 2);
    assert_eq!(request("GET /x ?limit=2", vec![]).limit(), 15);
}

#[test]
fn request_line_without_words() {
    let r = request("   ", vec![]);
    assert_eq!(r.method, b"");
    assert_eq!(r.path, b"");
    assert_eq!(r.query_params, vec![]);
    assert_eq!(r.route(), Route::NotFound);
    let only = request("GET", vec![]);
    assert_eq!(only.method, b"GET");
    assert_eq!(only.path, b"");
}

#[test]
fn headers_are_collected_up_to_the_empty_line() {
    let lines = vec![
        b"Host: x\r\n".to_vec(),
        b"junk\r\n".to_vec(),
        b"Authorization: Bearer T\n".to_vec(),
        b"\r\n".to_vec(),
        b"After: body\r\n".to_vec(),
    ];
    assert_eq!(
        collect_headers(&lines),
        Ok(vec![field("Host", "x"), field("Authorization", "Bearer T")])
    );
    assert_eq!(collect_headers(&vec![]), Ok(vec![]));
    assert_eq!(collect_headers(&vec![b"A: b".to_vec()]), Ok(vec![field("A", "b")]));
}

#[test]
fn header_line_that_is_not_utf8_is_malformed() {
    let lines = vec![b"Host: x\r\n".to_vec(), vec![0x41, 0x3a, 0x20, 0xff, 0x0a]];
    assert_eq!(collect_headers(&lines), Err(ErrorKind::MalformedRequest));
    let after_end = vec![b"\r\n".to_vec(), vec![0xff, 0x0a]];
    assert_eq!(collect_headers(&after_end), Ok(vec![]));
}

#[test]
fn request_is_read_from_a_buffer() {
    let input = b"POST /player HTTP/1.1\r\nHost: x\r\nAuthorization: Bearer XYZ\r\nContent-Length: 31\r\n\r\n{\"username\":\"alice\",\"score\":42}";
    let (request, end) = parse_request(input).unwrap();
    assert_eq!(request.request_line, b"POST /player HTTP/1.1");
    assert_eq!(request.method, b"POST");
    assert_eq!(request.path, b"/player");
    assert_eq!(
        request.headers,
        vec![field("Host", "x"), field("Authorization", "Bearer XYZ"), field("Content-Length", "31")]
    );
    assert_eq!(request.body_length, 31);
    assert_eq!(request.token(), b"XYZ");
    assert_eq!(request.route(), Route::CreatePlayer);
    assert_eq!(&input[end..], b"{\"username\":\"alice\",\"score\":42}");
    assert_eq!(input.len() - end, request.body_length);
}

#[test]
fn request_without_any_line_is_malformed() {
    assert_eq!(parse_request(b""), Err(ErrorKind::MalformedRequest));
}

#[test]
fn request_head_may_end_with_the_input() {
    let (request, end) = parse_request(b"GET /players/top?limit=5").unwrap();
    assert_eq!(request.limit(), 5);
    assert_eq!(request.headers, vec![]);
    assert_eq!(end, 24);
    let (request, end) = parse_request(b"GET /x\nA: b").unwrap();
    assert_eq!(request.headers, vec![field("A", "b")]);
    assert_eq!(end, 11);
    let (request, end) = parse_request(b"\n").unwrap();
    assert_eq!(request.request_line, b"");
    assert_eq!(end, 1);
}

#[test]
fn request_with_a_bad_line_is_malformed() {
    assert_eq!(parse_request(b"GET /\xff\r\n\r\n"), Err(ErrorKind::MalformedRequest));
    assert_eq!(parse_request(b"GET /\r\nA: \xff\r\n\r\n"), Err(ErrorKind::MalformedRequest));
    assert_eq!(
        parse_request(b"GET /\r\nContent-Length: x\r\n\r\n"),
        Err(ErrorKind::MalformedRequest)
    );
    let (request, end) = parse_request(b"GET /\r\n\r\n\xff").unwrap();
    assert_eq!(request.request_line, b"GET /");
    assert_eq!(end, 9);
}

#[test]
fn header_absent_from_a_request_gives_an_empty_token() {
    let (request, _) = parse_request(b"GET /players/top HTTP/1.1\r\nHost: x\r\n\r\n").unwrap();
    assert_eq!(request.token(), b"");
    let (request, _) =
        parse_request(b"GET /players/top HTTP/1.1\r\nAuthorization: Bearer XYZ\r\n\r\n").unwrap();
    assert_eq!(request.token(), b"XYZ");
}

#[test]
fn lines_end_after_their_line_feed() {
    assert_eq!(end_of_line(b"ab\ncd", 0), 3);
    assert_eq!(end_of_line(b"ab\ncd", 2), 3);
    assert_eq!(end_of_line(b"ab\ncd", 3), 5);
    assert_eq!(end_of_line(b"\n\n", 0), 1);
}
