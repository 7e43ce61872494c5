//! Requests: what a client sent, and how the text of a request is read.

use crate::fields::{put, Fields};
use crate::pattern::{captures, captures_view, find_groups, groups_view};
use crate::text::{
    chars_of, eq_ignore_ascii_case, eq_ignore_case, find_char, join, join_with, position, slice,
    split, split_on, string_of, texts, trim, trimmed,
};
use vstd::prelude::*;

verus! {

/// `c` is a hexadecimal digit: `0` to `9`, `a` to `f` or `A` to `F`.
pub open spec fn is_hex(c: char) -> bool {
    ('0' <= c && c <= '9') || ('a' <= c && c <= 'f') || ('A' <= c && c <= 'F')
}

/// The number that a hexadecimal digit stands for.
pub open spec fn hex_value(c: char) -> int {
    if '0' <= c && c <= '9' {
        c as int - '0' as int
    } else if 'a' <= c && c <= 'f' {
        c as int - 'a' as int + 10
    } else {
        c as int - 'A' as int + 10
    }
}

/// The text that the percent-encoded text `s` stands for from `at` on. A
/// `%` and the two hexadecimal digits after it stand for the character with
/// that number; every other character stands for itself. Where a `%` has no
/// two hexadecimal digits after it, the text stands for nothing.
pub open spec fn url_decoded_from(s: Seq<char>, at: int) -> Option<Seq<char>>
    decreases s.len() - at,
{
    if at < 0 || at >= s.len() {
        Some(Seq::<char>::empty())
    } else if s[at] != '%' {
        match url_decoded_from(s, at + 1) {
            Some(rest) => Some(seq![s[at]] + rest),
            None => None,
        }
    } else if at + 2 < s.len() && is_hex(s[at + 1]) && is_hex(s[at + 2]) {
        match url_decoded_from(s, at + 3) {
            Some(rest) => Some(
                seq![(hex_value(s[at + 1]) * 16 + hex_value(s[at + 2])) as char] + rest,
            ),
            None => None,
        }
    } else {
        None
    }
}

/// The text that the percent-encoded text `s` stands for.
pub open spec fn url_decoded(s: Seq<char>) -> Option<Seq<char>> {
    url_decoded_from(s, 0)
}

/// Decides whether `c` is a hexadecimal digit.
pub fn is_hex_char(c: char) -> (r: bool)
    ensures
        r == is_hex(c),
{
    ('0' <= c && c <= '9') || ('a' <= c && c <= 'f') || ('A' <= c && c <= 'F')
}

fn hex_digit(c: char) -> (r: u8)
    requires
        is_hex(c),
    ensures
        r == hex_value(c),
        r < 16,
{
    let code: u8 = c as u8;
    if '0' <= c && c <= '9' {
        code - 48
    } else if 'a' <= c && c <= 'f' {
        code - 97 + 10
    } else {
        code - 65 + 10
    }
}

/// Decodes a percent-encoded text, character by character.
pub fn decode_chars(s: &Vec<char>) -> (r: Option<Vec<char>>)
    ensures
        match r {
            Some(decoded) => url_decoded(s@) == Some(decoded@),
            None => url_decoded(s@) is None,
        },
{
    let mut out: Vec<char> = Vec::new();
    let mut i: usize = 0;
    assert(url_decoded_from(s@, 0) matches Some(rest) ==> out@ + rest =~= rest);
    while i < s.len()
        invariant
            i <= s.len(),
            url_decoded(s@) == match url_decoded_from(s@, i as int) {
                Some(rest) => Some(out@ + rest),
                None => None,
            },
        decreases s.len() - i,
    {
        let ghost before = out@;
        let c = s[i];
        if c != '%' {
            out.push(c);
            assert(url_decoded_from(s@, i + 1) matches Some(rest) ==> out@ + rest =~= before + (
            seq![c] + rest));
            i += 1;
        } else {
            if s.len() - i < 3 || !is_hex_char(s[i + 1]) || !is_hex_char(s[i + 2]) {
                return None;
            }
            let value: u8 = hex_digit(s[i + 1]) * 16 + hex_digit(s[i + 2]);
            out.push(value as char);
            assert(url_decoded_from(s@, i + 3) matches Some(rest) ==> out@ + rest =~= before + (
            seq![value as char] + rest));
            i += 3;
        }
    }
    assert(out@ + Seq::<char>::empty() =~= out@);
    Some(out)
}

/// Decodes a percent-encoded text: each `%` with two hexadecimal digits
/// becomes the character with that number. A `%` without them fails the
/// whole text.
pub fn decode_url_str(encoded: &str) -> (r: Option<String>)
    ensures
        match r {
            Some(decoded) => url_decoded(encoded@) == Some(decoded@),
            None => url_decoded(encoded@) is None,
        },
{
    let chars = chars_of(encoded);
    match decode_chars(&chars) {
        Some(decoded) => Some(string_of(&decoded)),
        None => None,
    }
}

/// The request methods that are served.
#[derive(Debug, PartialEq, Eq, Structural, Clone, Copy)]
pub enum Method {
    Get,
    Post,
}

/// The method that a word names, whatever the case of its letters.
pub open spec fn method_named(word: Seq<char>) -> Option<Method> {
    if eq_ignore_case(word, "get"@) {
        Some(Method::Get)
    } else if eq_ignore_case(word, "post"@) {
        Some(Method::Post)
    } else {
        None
    }
}

impl Method {
    /// The method that `value` names; the case of its letters does not
    /// count.
    pub fn try_from(value: &str) -> (r: Result<Method, ()>)
        ensures
            match r {
                Ok(method) => method_named(value@) == Some(method),
                Err(_) => method_named(value@) is None,
            },
    {
        let word = chars_of(value);
        if eq_ignore_ascii_case(&word, &chars_of("get")) {
            Ok(Method::Get)
        } else if eq_ignore_ascii_case(&word, &chars_of("post")) {
            Ok(Method::Post)
        } else {
            Err(())
        }
    }

    /// The method's name as it is shown.
    pub open spec fn shown(self) -> Seq<char> {
        match self {
            Method::Get => "Get"@,
            Method::Post => "Post"@,
        }
    }

    /// The method's name as it is shown.
    pub fn name(&self) -> (r: &'static str)
        ensures
            r@ == self.shown(),
    {
        match self {
            Method::Get => "Get",
            Method::Post => "Post",
        }
    }
}

/// Why the text of a request could not be read.
#[derive(Debug, PartialEq, Eq, Structural, Clone, Copy)]
pub enum ParseError {
    /// No request line came, or what came is none.
    NoHttpHeader,
    /// The request line names a method that is not served.
    UnknownMethod,
    /// The form in the body holds a broken percent escape.
    MalformedBody,
}

impl ParseError {
    /// The error in words.
    pub fn message(&self) -> (r: &'static str)
        ensures
            r@ == match self {
                ParseError::NoHttpHeader => "no http header"@,
                ParseError::UnknownMethod => "unknown method"@,
                ParseError::MalformedBody => "malformed body"@,
            },
    {
        match self {
            ParseError::NoHttpHeader => "no http header",
            ParseError::UnknownMethod => "unknown method",
            ParseError::MalformedBody => "malformed body",
        }
    }
}

/// The name and the value of a piece `name=value`, parted at its first
/// `=`; nothing for a piece without one.
pub open spec fn pair_of(piece: Seq<char>) -> Option<(Seq<char>, Seq<char>)> {
    let at = position(piece, '=');
    if at < piece.len() {
        Some((piece.take(at), piece.skip(at + 1)))
    } else {
        None
    }
}

/// The pairs that a list of pieces gives, taken as they stand: a piece
/// without `=` is passed over, and a later value for a name takes the place
/// of the earlier one.
pub open spec fn plain_pairs(pieces: Seq<Seq<char>>) -> Seq<(Seq<char>, Seq<char>)>
    decreases pieces.len(),
{
    if pieces.len() == 0 {
        Seq::<(Seq<char>, Seq<char>)>::empty()
    } else {
        let before = plain_pairs(pieces.drop_last());
        match pair_of(pieces.last()) {
            Some((name, value)) => put(before, name, value),
            None => before,
        }
    }
}

/// The pairs that the pieces of a form give, each name and value
/// percent-decoded; nothing at all where one of them holds a broken escape.
pub open spec fn form_pairs(pieces: Seq<Seq<char>>) -> Option<Seq<(Seq<char>, Seq<char>)>>
    decreases pieces.len(),
{
    if pieces.len() == 0 {
        Some(Seq::<(Seq<char>, Seq<char>)>::empty())
    } else {
        match form_pairs(pieces.drop_last()) {
            None => None,
            Some(before) => match pair_of(pieces.last()) {
                None => Some(before),
                Some((name, value)) => match (url_decoded(name), url_decoded(value)) {
                    (Some(n), Some(v)) => Some(put(before, n, v)),
                    _ => None,
                },
            },
        }
    }
}

/// Parts a piece `name=value` at its first `=`.
pub fn split_pair(piece: &Vec<char>) -> (r: Option<(Vec<char>, Vec<char>)>)
    ensures
        match r {
            Some((name, value)) => pair_of(piece@) == Some((name@, value@)),
            None => pair_of(piece@) is None,
        },
{
    let at = find_char(piece, '=');
    if at < piece.len() {
        let name = slice(piece, 0, at);
        let value = slice(piece, at + 1, piece.len());
        assert(piece@.take(at as int) =~= piece@.subrange(0, at as int));
        assert(piece@.skip(at + 1) =~= piece@.subrange(at + 1, piece@.len() as int));
        Some((name, value))
    } else {
        None
    }
}

/// Reads a query string `name=value&name=value`: the pieces between the
/// `&`, each parted at its first `=` and taken as it stands.
pub fn parse_query(query: &str) -> (r: Fields)
    ensures
        r.pairs() == plain_pairs(split(query@, '&')),
{
    let pieces = split_on(&chars_of(query), '&');
    let mut fields = Fields::new();
    let mut i: usize = 0;
    assert(texts(pieces@).take(0) =~= Seq::<Seq<char>>::empty());
    while i < pieces.len()
        invariant
            i <= pieces.len(),
            fields.pairs() == plain_pairs(texts(pieces@).take(i as int)),
        decreases pieces.len() - i,
    {
        assert(texts(pieces@).take(i + 1).drop_last() =~= texts(pieces@).take(i as int));
        assert(texts(pieces@).take(i + 1).last() == pieces@[i as int]@);
        match split_pair(&chars_of(pieces[i].as_str())) {
            Some((name, value)) => {
                fields.insert(string_of(&name), string_of(&value));
            },
            None => {},
        }
        i += 1;
    }
    assert(texts(pieces@).take(pieces.len() as int) =~= texts(pieces@));
    fields
}

/// Reads a form `name=value&name=value` whose names and values are
/// percent-encoded. One broken escape fails the whole form.
pub fn parse_form(form: &str) -> (r: Option<Fields>)
    ensures
        match r {
            Some(fields) => form_pairs(split(form@, '&')) == Some(fields.pairs()),
            None => form_pairs(split(form@, '&')) is None,
        },
{
    let pieces = split_on(&chars_of(form), '&');
    let mut fields = Fields::new();
    let mut i: usize = 0;
    assert(texts(pieces@).take(0) =~= Seq::<Seq<char>>::empty());
    while i < pieces.len()
        invariant
            i <= pieces.len(),
            texts(pieces@) == split(form@, '&'),
            form_pairs(texts(pieces@).take(i as int)) == Some(fields.pairs()),
        decreases pieces.len() - i,
    {
        assert(texts(pieces@).take(i + 1).drop_last() =~= texts(pieces@).take(i as int));
        assert(texts(pieces@).take(i + 1).last() == pieces@[i as int]@);
        match split_pair(&chars_of(pieces[i].as_str())) {
            Some((name, value)) => {
                match (decode_chars(&name), decode_chars(&value)) {
                    (Some(n), Some(v)) => {
                        fields.insert(string_of(&n), string_of(&v));
                    },
                    _ => {
                        proof {
                            assert(pair_of(pieces@[i as int]@) == Some((name@, value@)));
                            assert(form_pairs(texts(pieces@).take(i + 1)) is None);
                            lemma_form_pairs_stay_broken(texts(pieces@), i + 1);
                        }
                        return None;
                    },
                }
            },
            None => {},
        }
        i += 1;
    }
    assert(texts(pieces@).take(pieces.len() as int) =~= texts(pieces@));
    Some(fields)
}

/// Once the first pieces of a form are broken, the form is.
pub proof fn lemma_form_pairs_stay_broken(pieces: Seq<Seq<char>>, upto: int)
    requires
        0 <= upto <= pieces.len(),
        form_pairs(pieces.take(upto)) is None,
    ensures
        form_pairs(pieces) is None,
    decreases pieces.len(),
{
    if upto < pieces.len() {
        assert(pieces.drop_last().take(upto) =~= pieces.take(upto));
        lemma_form_pairs_stay_broken(pieces.drop_last(), upto);
    } else {
        assert(pieces.take(upto) =~= pieces);
    }
}

/// The name and the value of a header line `Name: value`, parted at its
/// first colon and freed of the white space around them; nothing for a line
/// without a colon.
pub open spec fn header_of(line: Seq<char>) -> Option<(Seq<char>, Seq<char>)> {
    let at = position(line, ':');
    if at < line.len() {
        Some((trim(line.take(at)), trim(line.skip(at + 1))))
    } else {
        None
    }
}

/// Reads one header line.
pub fn parse_header_line(line: &str) -> (r: Option<(String, String)>)
    ensures
        match r {
            Some((name, value)) => header_of(line@) == Some((name@, value@)),
            None => header_of(line@) is None,
        },
{
    let chars = chars_of(line);
    let at = find_char(&chars, ':');
    if at < chars.len() {
        let name = trimmed(&slice(&chars, 0, at));
        let value = trimmed(&slice(&chars, at + 1, chars.len()));
        assert(chars@.take(at as int) =~= chars@.subrange(0, at as int));
        assert(chars@.skip(at + 1) =~= chars@.subrange(at + 1, chars@.len() as int));
        Some((string_of(&name), string_of(&value)))
    } else {
        None
    }
}

/// The expression that a request line has to match. Its first group is the
/// method, its second the path after the leading slash, its third the
/// query string.
pub const REQUEST_LINE: &'static str =
    "(GET|POST) /([^?\\s]*/?)*(?:\\?(\\S+=\\S+)+)? HTTP/1\\.1";

/// What a request line says: the method, the segments of the path and the
/// parameters of the query string.
#[derive(Debug)]
pub struct RequestLine {
    pub method: Method,
    pub url: Vec<String>,
    pub params: Fields,
}

/// The text of group `i`, where the match has such a group and it took
/// part.
pub open spec fn group(groups: Seq<Option<Seq<char>>>, i: int) -> Option<Seq<char>> {
    if 0 <= i < groups.len() {
        groups[i]
    } else {
        None
    }
}

/// The segments of a path: the pieces between its slashes. No path, or an
/// empty one, has no segment.
pub open spec fn segments_of(path: Option<Seq<char>>) -> Seq<Seq<char>> {
    match path {
        Some(p) => if p.len() > 0 {
            split(p, '/')
        } else {
            Seq::<Seq<char>>::empty()
        },
        None => Seq::<Seq<char>>::empty(),
    }
}

/// The parameters of a query string; none where there is no query string.
pub open spec fn params_of(query: Option<Seq<char>>) -> Seq<(Seq<char>, Seq<char>)> {
    match query {
        Some(q) => plain_pairs(split(q, '&')),
        None => Seq::<(Seq<char>, Seq<char>)>::empty(),
    }
}

/// What the groups of a matched request line say.
pub open spec fn request_line_of(found: Option<Seq<Option<Seq<char>>>>) -> Result<
    (Method, Seq<Seq<char>>, Seq<(Seq<char>, Seq<char>)>),
    ParseError,
> {
    match found {
        None => Err(ParseError::NoHttpHeader),
        Some(groups) => match group(groups, 1) {
            None => Err(ParseError::NoHttpHeader),
            Some(word) => match method_named(word) {
                None => Err(ParseError::UnknownMethod),
                Some(method) => Ok(
                    (method, segments_of(group(groups, 2)), params_of(group(groups, 3))),
                ),
            },
        },
    }
}

fn group_at(groups: &Vec<Option<String>>, i: usize) -> (r: Option<&String>)
    ensures
        match r {
            Some(s) => group(groups_view(groups@), i as int) == Some(s@),
            None => group(groups_view(groups@), i as int) is None,
        },
{
    if i < groups.len() {
        groups[i].as_ref()
    } else {
        None
    }
}

/// Reads the groups that the expression `REQUEST_LINE` found in a line:
/// fails with `NoHttpHeader` where nothing was found or no method took
/// part, with `UnknownMethod` where the method is not served, and gives
/// method, segments and parameters otherwise.
pub fn request_line_from_groups(found: &Option<Vec<Option<String>>>) -> (r: Result<
    RequestLine,
    ParseError,
>)
    ensures
        match r {
            Ok(line) => request_line_of(captures_view(*found)) == Ok::<_, ParseError>(
                (line.method, texts(line.url@), line.params.pairs()),
            ),
            Err(e) => request_line_of(captures_view(*found)) == Err::<
                (Method, Seq<Seq<char>>, Seq<(Seq<char>, Seq<char>)>),
                _,
            >(e),
        },
{
    let groups = match found {
        Some(groups) => groups,
        None => {
            return Err(ParseError::NoHttpHeader);
        },
    };
    let word = match group_at(groups, 1) {
        Some(word) => word,
        None => {
            return Err(ParseError::NoHttpHeader);
        },
    };
    let method = match Method::try_from(word.as_str()) {
        Ok(method) => method,
        Err(_) => {
            return Err(ParseError::UnknownMethod);
        },
    };
    let url = match group_at(groups, 2) {
        Some(path) => {
            let chars = chars_of(path.as_str());
            if chars.len() > 0 {
                split_on(&chars, '/')
            } else {
                Vec::new()
            }
        },
        None => Vec::new(),
    };
    let params = match group_at(groups, 3) {
        Some(query) => parse_query(query.as_str()),
        None => Fields::new(),
    };
    assert(texts(url@) =~= segments_of(group(groups_view(groups@), 2)));
    Ok(RequestLine { method, url, params })
}

/// Reads a request line `METHOD /path?query HTTP/1.1`: matches it against
/// `REQUEST_LINE` and reads the groups of the match.
pub fn parse_request_line(line: &str) -> (r: Result<RequestLine, ParseError>)
    ensures
        match r {
            Ok(head) => request_line_of(captures(REQUEST_LINE@, line@)) == Ok::<_, ParseError>(
                (head.method, texts(head.url@), head.params.pairs()),
            ),
            Err(e) => request_line_of(captures(REQUEST_LINE@, line@)) == Err::<
                (Method, Seq<Seq<char>>, Seq<(Seq<char>, Seq<char>)>),
                _,
            >(e),
        },
{
    let found = find_groups(REQUEST_LINE, line);
    request_line_from_groups(&found)
}

/// What a request carries besides its head. Only forms are read.
#[derive(Debug)]
pub enum RequestBody {
    FormUrlEncoded(Fields),
}

/// A request as the client sent it.
#[derive(Debug)]
pub struct Request {
    pub method: Method,
    /// The segments of the path.
    pub url: Vec<String>,
    /// The parameters of the query string, as they stood in it.
    pub params: Fields,
    pub headers: Fields,
    pub body: Option<RequestBody>,
    /// A digest of the address that the request came from.
    pub ip_hash: u64,
}

/// A request as contracts see it.
pub struct RequestView {
    pub method: Method,
    pub url: Seq<Seq<char>>,
    pub params: Map<Seq<char>, Seq<char>>,
    pub headers: Map<Seq<char>, Seq<char>>,
    pub form: Option<Map<Seq<char>, Seq<char>>>,
    pub ip_hash: u64,
}

impl View for Request {
    type V = RequestView;

    open spec fn view(&self) -> RequestView {
        RequestView {
            method: self.method,
            url: texts(self.url@),
            params: self.params@,
            headers: self.headers@,
            form: match self.body {
                Some(RequestBody::FormUrlEncoded(fields)) => Some(fields@),
                None => None,
            },
            ip_hash: self.ip_hash,
        }
    }
}

impl Request {
    /// The request in one line: its method and its path.
    pub fn basic_info(&self) -> (r: String)
        ensures
            r@ == "Request { "@ + self.method.shown() + " "@ + join(texts(self.url@), '/') + " }"@,
    {
        let mut out = String::new();
        out.push_str("Request { ");
        out.push_str(self.method.name());
        out.push_str(" ");
        out.push_str(join_with(&self.url, '/').as_str());
        out.push_str(" }");
        out
    }
}

} // verus!
