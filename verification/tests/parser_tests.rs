use leaderboard::db::parser::{
    find_last, limit_of_target, parse_pair, parse_query_parameters, parse_query_string, Field,
    DEFAULT_LIMIT,
};
use leaderboard::decimal::{parse_digits, parse_i64, parse_usize, push_decimal};

fn field(name: &str, value: &str) -> Field {
    Field { name: name.as_bytes().to_vec(), value: value.as_bytes().to_vec() }
}

#[test]
fn limit_is_read_from_the_query() {
    assert_eq!(parse_query_parameters("/players/top?limit=5"), 5);
}

#[test]
fn limit_that_is_no_number_gives_the_default() {
    assert_eq!(parse_query_parameters("/players/top?limit=abc"), 15);
}

#[test]
fn target_without_query_gives_the_default() {
    assert_eq!(parse_query_parameters("/players/top"), 15);
    assert_eq!(DEFAULT_LIMIT, 15);
}

#[test]
fn limit_among_other_parameters() {
    assert_eq!(parse_query_parameters("/x?a=1&limit=7&b=2"), 7);
    assert_eq!(parse_query_parameters("/x?a=1&b=2"), 15);
    assert_eq!(parse_query_parameters("/x?"), 15);
    assert_eq!(parse_query_parameters("?limit=3"), 3);
    assert_eq!(parse_query_parameters(""), 15);
}

#[test]
fn last_limit_wins() {
    assert_eq!(parse_query_parameters("/x?limit=1&limit=2"), 2);
    assert_eq!(parse_query_parameters("/x?limit=2&limit=abc"), 15);
    assert_eq!(parse_query_parameters("/x?limit=5&limit="), 15);
}

#[test]
fn pair_without_equals_sign_is_dropped() {
    assert_eq!(parse_query_parameters("/x?limit=4&limit"), 4);
    assert_eq!(parse_query_parameters("/x?limit"), 15);
}

#[test]
fn value_runs_to_the_end_of_the_pair() {
    assert_eq!(parse_query_parameters("/x?limit=5=6"), 15);
    assert_eq!(
        parse_query_string(b"a=b=c"),
        vec![field("a", "b=c")]
    );
}

#[test]
fn query_starts_after_the_first_question_mark() {
    assert_eq!(parse_query_parameters("/x?limit=8?limit=9"), 15);
    assert_eq!(parse_query_parameters("/x?y=1?&limit=9"), 9);
}

#[test]
fn signed_limits() {
    assert_eq!(parse_query_parameters("/x?limit=-3"), -3);
    assert_eq!(parse_query_parameters("/x?limit=+7"), 7);
    assert_eq!(parse_query_parameters("/x?limit=0"), 0);
    assert_eq!(parse_query_parameters("/x?limit=007"), 7);
    assert_eq!(parse_query_parameters("/x?limit=-"), 15);
    assert_eq!(parse_query_parameters("/x?limit=+"), 15);
    assert_eq!(parse_query_parameters("/x?limit=+-1"), 15);
    assert_eq!(parse_query_parameters("/x?limit= 5"), 15);
    assert_eq!(parse_query_parameters("/x?limit=5 "), 15);
}

#[test]
fn limits_at_the_edge_of_i64() {
    assert_eq!(parse_query_parameters("/x?limit=9223372036854775807"), i64::MAX);
    assert_eq!(parse_query_parameters("/x?limit=9223372036854775808"), 15);
    assert_eq!(parse_query_parameters("/x?limit=-9223372036854775808"), i64::MIN);
    assert_eq!(parse_query_parameters("/x?limit=-9223372036854775809"), 15);
    assert_eq!(
        parse_query_parameters("/x?limit=99999999999999999999999999999999999999999999"),
        15
    );
    assert_eq!(
        parse_query_parameters("/x?limit=00000000000000000000000000000000000000000012"),
        12
    );
}

#[test]
fn limit_agrees_with_the_standard_parser() {
    for text in ["5", "-5", "+5", "", "-", "+", "abc", "1e3", "0x10", "12a", "١٢", "9223372036854775807", "-0"] {
        let expected = text.parse::<i64>().unwrap_or(15);
        let target = format!("/players/top?limit={}", text);
        assert_eq!(parse_query_parameters(&target), expected);
        assert_eq!(limit_of_target(target.as_bytes()), expected);
        assert_eq!(parse_i64(text.as_bytes()), text.parse::<i64>().ok());
    }
}

#[test]
fn query_string_is_split_into_pairs() {
    assert_eq!(
        parse_query_string(b"a=1&b=2&&c&=3&d="),
        vec![field("a", "1"), field("b", "2"), field("", "3"), field("d", "")]
    );
    assert_eq!(parse_query_string(b""), vec![]);
    assert_eq!(parse_query_string(b"&"), vec![]);
    assert_eq!(parse_pair(b"k=v"), Some(field("k", "v")));
    assert_eq!(parse_pair(b"kv"), None);
}

#[test]
fn find_last_takes_the_last_of_a_name() {
    let fields = vec![field("a", "1"), field("b", "2"), field("a", "3")];
    assert_eq!(find_last(&fields, b"a"), Some(&b"3".to_vec()));
    assert_eq!(find_last(&fields, b"b"), Some(&b"2".to_vec()));
    assert_eq!(find_last(&fields, b"c"), None);
    assert_eq!(find_last(&fields, b"A"), None);
}

#[test]
fn unsigned_numbers() {
    assert_eq!(parse_usize(b"0"), Some(0));
    assert_eq!(parse_usize(b"42"), Some(42));
    assert_eq!(parse_usize(b"+42"), Some(42));
    assert_eq!(parse_usize(b"-42"), None);
    assert_eq!(parse_usize(b"-0"), None);
    assert_eq!(parse_usize(b""), None);
    assert_eq!(parse_usize(b"4 2"), None);
    assert_eq!(parse_usize(usize::MAX.to_string().as_bytes()), Some(usize::MAX));
    assert_eq!(parse_usize(b"18446744073709551616"), None);
    assert_eq!(parse_digits(b"123", 123), Some(123));
    assert_eq!(parse_digits(b"124", 123), None);
    assert_eq!(parse_digits(b"", 123), None);
}

#[test]
fn decimal_digits_are_written_without_leading_zeros() {
    for n in [0usize, 7, 10, 14, 99, 100, 12345, usize::MAX] {
        let mut out = b"len=".to_vec();
        push_decimal(&mut out, n);
        assert_eq!(out, format!("len={}", n).into_bytes());
        assert_eq!(parse_usize(&out[4..]), Some(n));
    }
}
