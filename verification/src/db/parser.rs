//! The query string of a request target, and the `limit` it may carry.

use crate::decimal::{decimal_i64, parse_i64};
use crate::text::{bytes_equal, find_byte, find_byte_from, position_of_byte};
use vstd::prelude::*;
use vstd::string::*;

verus! {

/// The number of players a listing returns when the request names none.
pub const DEFAULT_LIMIT: i64 = 15;

/// A name with its value: one parameter of a query string, or one header.
#[derive(Debug, PartialEq, Eq)]
pub struct Field {
    pub name: Vec<u8>,
    pub value: Vec<u8>,
}

impl View for Field {
    type V = (Seq<u8>, Seq<u8>);

    open spec fn view(&self) -> (Seq<u8>, Seq<u8>) {
        (self.name@, self.value@)
    }
}

/// The fields as pairs of byte strings, in order.
pub open spec fn fields_view(fields: Seq<Field>) -> Seq<(Seq<u8>, Seq<u8>)> {
    Seq::new(fields.len(), |i: int| fields[i]@)
}

/// The name of the parameter that limits a listing.
pub open spec fn limit_name() -> Seq<u8> {
    "limit".spec_bytes()
}

/// One `name=value` piece of a query string, split at its first `=`. A piece
/// without `=` is no parameter.
pub open spec fn split_pair(piece: Seq<u8>) -> Option<(Seq<u8>, Seq<u8>)> {
    let eq = find_byte(piece, 0x3d);
    if 0 <= eq < piece.len() {
        Some((piece.take(eq), piece.skip(eq + 1)))
    } else {
        None
    }
}

/// The parameters of a query string, in order: its pieces between `&`, each
/// split at its first `=`, those without `=` left out.
pub open spec fn query_pairs(query: Seq<u8>) -> Seq<(Seq<u8>, Seq<u8>)>
    decreases query.len(),
{
    let end = find_byte(query, 0x26);
    let rest = if 0 <= end < query.len() {
        query_pairs(query.skip(end + 1))
    } else {
        Seq::empty()
    };
    match split_pair(query.take(end)) {
        Some(pair) => seq![pair] + rest,
        None => rest,
    }
}

/// The value of the last pair named `name`, if there is one.
pub open spec fn lookup_last(pairs: Seq<(Seq<u8>, Seq<u8>)>, name: Seq<u8>) -> Option<Seq<u8>>
    decreases pairs.len(),
{
    if pairs.len() == 0 {
        None
    } else if pairs.last().0 == name {
        Some(pairs.last().1)
    } else {
        lookup_last(pairs.drop_last(), name)
    }
}

/// The query string of a request target: what follows its first `?`.
pub open spec fn query_string(target: Seq<u8>) -> Option<Seq<u8>> {
    let mark = find_byte(target, 0x3f);
    if 0 <= mark < target.len() {
        Some(target.skip(mark + 1))
    } else {
        None
    }
}

/// The limit that the given value of a `limit` parameter asks for: the
/// number it writes, or the default if there is no value or it writes none.
pub open spec fn limit_from_value(value: Option<Seq<u8>>) -> i64 {
    match value {
        Some(v) => match decimal_i64(v) {
            Some(n) => n,
            None => DEFAULT_LIMIT,
        },
        None => DEFAULT_LIMIT,
    }
}

/// The limit that a request target asks for: the number that its last
/// `limit` parameter writes, or the default if it has no query string, no
/// such parameter, or the parameter writes no number.
pub open spec fn limit_of(target: Seq<u8>) -> i64 {
    match query_string(target) {
        Some(query) => limit_from_value(lookup_last(query_pairs(query), limit_name())),
        None => DEFAULT_LIMIT,
    }
}

/// A search that starts at `from` finds what a search of the rest finds.
pub proof fn lemma_find_byte_skip(s: Seq<u8>, byte: u8, from: int)
    requires
        0 <= from <= s.len(),
    ensures
        find_byte_from(s, byte, from) == from + find_byte(s.skip(from), byte),
{
    lemma_find_byte_within(s, byte, from, 0);
}

proof fn lemma_find_byte_within(s: Seq<u8>, byte: u8, from: int, k: int)
    requires
        0 <= from <= s.len(),
        0 <= k <= s.len() - from,
    ensures
        find_byte_from(s, byte, from + k) == from + find_byte_from(s.skip(from), byte, k),
    decreases s.len() - from - k,
{
    if from + k < s.len() {
        assert(s.skip(from)[k] == s[from + k]);
        if s[from + k] != byte {
            lemma_find_byte_within(s, byte, from, k + 1);
        }
    }
}

/// One piece of a query string as a parameter, if it has an `=`.
pub fn parse_pair(piece: &[u8]) -> (field: Option<Field>)
    ensures
        match field {
            Some(f) => split_pair(piece@) == Some(f@),
            None => split_pair(piece@) is None,
        },
{
    let eq = position_of_byte(piece, 0x3d, 0);
    if eq < piece.len() {
        let name = vstd::slice::slice_to_vec(vstd::slice::slice_subrange(piece, 0, eq));
        let value = vstd::slice::slice_to_vec(
            vstd::slice::slice_subrange(piece, eq + 1, piece.len()),
        );
        assert(name@ =~= piece@.take(eq as int));
        assert(value@ =~= piece@.skip(eq + 1));
        Some(Field { name, value })
    } else {
        None
    }
}

/// The parameters of a query string, in order.
pub fn parse_query_string(query: &[u8]) -> (fields: Vec<Field>)
    ensures
        fields_view(fields@) == query_pairs(query@),
{
    let mut fields: Vec<Field> = Vec::new();
    let mut from: usize = 0;
    assert(query@.skip(0) =~= query@);
    assert(fields_view(fields@) + query_pairs(query@) =~= query_pairs(query@));
    loop
        invariant
            from <= query.len(),
            query_pairs(query@) == fields_view(fields@) + query_pairs(query@.skip(from as int)),
        decreases query.len() - from,
    {
        let end = position_of_byte(query, 0x26, from);
        let piece = vstd::slice::slice_subrange(query, from, end);
        let ghost rest = query@.skip(from as int);
        let ghost before = fields_view(fields@);
        proof {
            lemma_find_byte_skip(query@, 0x26, from as int);
            assert(piece@ =~= rest.take(end - from));
            if end < query.len() {
                assert(rest.skip(end - from + 1) =~= query@.skip(end + 1));
            }
        }
        match parse_pair(piece) {
            Some(field) => {
                fields.push(field);
                proof {
                    assert(fields_view(fields@) =~= before + seq![field@]);
                    let tail = if end < query.len() {
                        query_pairs(query@.skip(end + 1))
                    } else {
                        Seq::empty()
                    };
                    assert(before + (seq![field@] + tail) =~= (before + seq![field@]) + tail);
                }
            },
            None => {},
        }
        if end >= query.len() {
            assert(fields_view(fields@) + Seq::<(Seq<u8>, Seq<u8>)>::empty() =~= fields_view(
                fields@,
            ));
            return fields;
        }
        from = end + 1;
    }
}

/// The value of the last field named `name`, if there is one.
pub fn find_last<'a>(fields: &'a Vec<Field>, name: &[u8]) -> (value: Option<&'a Vec<u8>>)
    ensures
        match value {
            Some(v) => lookup_last(fields_view(fields@), name@) == Some(v@),
            None => lookup_last(fields_view(fields@), name@) is None,
        },
{
    let mut left: usize = fields.len();
    assert(fields_view(fields@).take(left as int) =~= fields_view(fields@));
    while left > 0
        invariant
            left <= fields.len(),
            lookup_last(fields_view(fields@), name@) == lookup_last(
                fields_view(fields@).take(left as int),
                name@,
            ),
        decreases left,
    {
        let ghost seen = fields_view(fields@).take(left as int);
        assert(seen.last() == fields@[left - 1]@);
        assert(seen.drop_last() =~= fields_view(fields@).take(left - 1));
        let field = &fields[left - 1];
        if bytes_equal(field.name.as_slice(), name) {
            return Some(&field.value);
        }
        left = left - 1;
    }
    None
}

/// The limit that the given value of a `limit` parameter asks for.
pub fn limit_or_default(value: Option<&Vec<u8>>) -> (limit: i64)
    ensures
        limit == limit_from_value(
            match value {
                Some(v) => Some(v@),
                None => None,
            },
        ),
{
    match value {
        Some(v) => match parse_i64(v.as_slice()) {
            Some(n) => n,
            None => DEFAULT_LIMIT,
        },
        None => DEFAULT_LIMIT,
    }
}

/// The limit that a request target asks for, given as bytes.
pub fn limit_of_target(target: &[u8]) -> (limit: i64)
    ensures
        limit == limit_of(target@),
{
    let mark = position_of_byte(target, 0x3f, 0);
    if mark < target.len() {
        let query = vstd::slice::slice_subrange(target, mark + 1, target.len());
        assert(query@ =~= target@.skip(mark + 1));
        let fields = parse_query_string(query);
        let value = find_last(&fields, "limit".as_bytes());
        limit_or_default(value)
    } else {
        DEFAULT_LIMIT
    }
}

/// The limit that a request target such as `/players/top?limit=5` asks for:
/// the number that its last `limit` parameter writes, or 15 if it has no
/// query string, no such parameter, or the parameter writes no `i64`.
pub fn parse_query_parameters(path_and_query: &str) -> (limit: i64)
    ensures
        limit == limit_of(path_and_query.spec_bytes()),
{
    limit_of_target(path_and_query.as_bytes())
}

} // verus!
