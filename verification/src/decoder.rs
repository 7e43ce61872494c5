//! Reading a request off a connection, step by step. The decoder never
//! touches the connection: it says what it wants next, a line or a number
//! of bytes, and takes what the caller read.

use crate::fields::{map_of, Fields};
use crate::number::{parse_number, parse_usize};
use crate::pattern::captures;
use crate::request::{
    form_pairs, header_of, parse_form, parse_header_line, parse_request_line, request_line_of,
    Method, ParseError, Request, RequestBody, RequestView, REQUEST_LINE,
};
use crate::text::{
    blank, chars_of, eq_ignore_ascii_case, eq_ignore_case, is_blank, split, texts, utf8_text,
};
use vstd::prelude::*;

verus! {

/// How far the reading of a request has come.
#[derive(Debug, PartialEq, Eq, Structural, Clone, Copy)]
pub enum Stage {
    /// Nothing was read yet: the request line comes next.
    RequestLine,
    /// The request line was read: header lines come next.
    Headers,
    /// The headers were read and announce a form of so many bytes.
    Body(usize),
    /// The request is complete.
    Done,
    /// The request cannot be read.
    Failed(ParseError),
}

/// What the caller read off the connection.
#[derive(Debug)]
pub enum Event {
    /// One line, with or without its line end.
    Line(String),
    /// The bytes of the body.
    Bytes(Vec<u8>),
    /// Nothing: the stream ended, or reading failed.
    Closed,
}

/// An event as contracts see it.
pub enum EventView {
    Line(Seq<char>),
    Bytes(Seq<u8>),
    Closed,
}

impl View for Event {
    type V = EventView;

    open spec fn view(&self) -> EventView {
        match self {
            Event::Line(line) => EventView::Line(line@),
            Event::Bytes(bytes) => EventView::Bytes(bytes@),
            Event::Closed => EventView::Closed,
        }
    }
}

/// What the decoder asks the caller to read next.
#[derive(Debug, PartialEq, Eq, Structural, Clone, Copy)]
pub enum Want {
    /// One line.
    Line,
    /// Exactly so many bytes.
    Bytes(usize),
    /// Nothing more.
    Nothing,
}

/// A decoder as contracts see it.
pub struct DecoderView {
    pub stage: Stage,
    pub method: Method,
    pub url: Seq<Seq<char>>,
    pub params: Map<Seq<char>, Seq<char>>,
    pub headers: Map<Seq<char>, Seq<char>>,
    pub form: Option<Map<Seq<char>, Seq<char>>>,
}

/// The number of bytes of the form that a request announces: a `POST`
/// whose `Content-Type` is that of a form, whatever the case of its
/// letters, announces what `Content-Length` says, and no bytes where that
/// header is missing. Any other request announces no form, and so does one
/// whose `Content-Length` is no number.
pub open spec fn body_length_of(method: Method, headers: Map<Seq<char>, Seq<char>>) -> Option<
    usize,
> {
    if method == Method::Post && headers.contains_key("Content-Type"@) && eq_ignore_case(
        headers["Content-Type"@],
        "application/x-www-form-urlencoded"@,
    ) {
        if headers.contains_key("Content-Length"@) {
            parse_number(headers["Content-Length"@])
        } else {
            Some(0usize)
        }
    } else {
        None
    }
}

/// The decoder before anything was read.
pub open spec fn start() -> DecoderView {
    DecoderView {
        stage: Stage::RequestLine,
        method: Method::Get,
        url: Seq::<Seq<char>>::empty(),
        params: Map::<Seq<char>, Seq<char>>::empty(),
        headers: Map::<Seq<char>, Seq<char>>::empty(),
        form: None,
    }
}

/// The decoder at the end of the headers: it goes on to the form where one
/// is announced, and is done where none is.
pub open spec fn headers_closed(d: DecoderView) -> DecoderView {
    match body_length_of(d.method, d.headers) {
        Some(n) => DecoderView { stage: Stage::Body(n), ..d },
        None => DecoderView { stage: Stage::Done, ..d },
    }
}

/// The decoder after the request line `line`.
pub open spec fn request_line_read(d: DecoderView, line: Seq<char>) -> DecoderView {
    match request_line_of(captures(REQUEST_LINE@, line)) {
        Ok((method, url, params)) => DecoderView {
            stage: Stage::Headers,
            method: method,
            url: url,
            params: map_of(params),
            ..d
        },
        Err(e) => DecoderView { stage: Stage::Failed(e), ..d },
    }
}

/// The decoder after the header line `line`: a blank line closes the
/// headers, a line `Name: value` adds a header, and any other line is
/// passed over.
pub open spec fn header_line_read(d: DecoderView, line: Seq<char>) -> DecoderView {
    if is_blank(line) {
        headers_closed(d)
    } else {
        match header_of(line) {
            Some((name, value)) => DecoderView { headers: d.headers.insert(name, value), ..d },
            None => d,
        }
    }
}

/// The decoder after the bytes of the body: bytes that are no text leave
/// the request without a form, a form with a broken escape fails the
/// request, and any other form completes it.
pub open spec fn body_read(d: DecoderView, bytes: Seq<u8>) -> DecoderView {
    if vstd::utf8::valid_utf8(bytes) {
        match form_pairs(split(vstd::utf8::decode_utf8(bytes), '&')) {
            Some(pairs) => DecoderView { stage: Stage::Done, form: Some(map_of(pairs)), ..d },
            None => DecoderView { stage: Stage::Failed(ParseError::MalformedBody), ..d },
        }
    } else {
        DecoderView { stage: Stage::Done, ..d }
    }
}

/// The decoder after one event. An event that the stage does not ask for
/// changes nothing; a stream that closes before the request line fails the
/// request, one that closes later ends the part that was being read.
pub open spec fn step_of(d: DecoderView, event: EventView) -> DecoderView {
    match d.stage {
        Stage::RequestLine => match event {
            EventView::Line(line) => request_line_read(d, line),
            EventView::Closed => DecoderView {
                stage: Stage::Failed(ParseError::NoHttpHeader),
                ..d
            },
            EventView::Bytes(_) => d,
        },
        Stage::Headers => match event {
            EventView::Line(line) => header_line_read(d, line),
            EventView::Closed => headers_closed(d),
            EventView::Bytes(_) => d,
        },
        Stage::Body(_) => match event {
            EventView::Bytes(bytes) => body_read(d, bytes),
            EventView::Closed => DecoderView { stage: Stage::Done, ..d },
            EventView::Line(_) => d,
        },
        Stage::Done => d,
        Stage::Failed(_) => d,
    }
}

/// What a decoder in stage `stage` wants next.
pub open spec fn want_of(stage: Stage) -> Want {
    match stage {
        Stage::RequestLine => Want::Line,
        Stage::Headers => Want::Line,
        Stage::Body(n) => Want::Bytes(n),
        Stage::Done => Want::Nothing,
        Stage::Failed(_) => Want::Nothing,
    }
}

/// What comes of a decoder that is asked for its request: the request
/// where it is done, its error where it failed, and `NoHttpHeader` where it
/// still waits for something.
pub open spec fn outcome_of(d: DecoderView, ip_hash: u64) -> Result<RequestView, ParseError> {
    match d.stage {
        Stage::Done => Ok(
            RequestView {
                method: d.method,
                url: d.url,
                params: d.params,
                headers: d.headers,
                form: d.form,
                ip_hash: ip_hash,
            },
        ),
        Stage::Failed(e) => Err(e),
        _ => Err(ParseError::NoHttpHeader),
    }
}

/// Computes `body_length_of`.
pub fn body_length(method: Method, headers: &Fields) -> (r: Option<usize>)
    ensures
        r == body_length_of(method, headers@),
{
    match method {
        Method::Get => {
            return None;
        },
        Method::Post => {},
    }
    let is_form = match headers.get("Content-Type") {
        Some(kind) => eq_ignore_ascii_case(
            &chars_of(kind.as_str()),
            &chars_of("application/x-www-form-urlencoded"),
        ),
        None => false,
    };
    if !is_form {
        return None;
    }
    match headers.get("Content-Length") {
        Some(length) => parse_usize(&chars_of(length.as_str())),
        None => Some(0),
    }
}

/// Reads a request from what a caller reads off a connection.
#[derive(Debug)]
pub struct Decoder {
    stage: Stage,
    method: Method,
    url: Vec<String>,
    params: Fields,
    headers: Fields,
    form: Option<Fields>,
}

impl View for Decoder {
    type V = DecoderView;

    closed spec fn view(&self) -> DecoderView {
        DecoderView {
            stage: self.stage,
            method: self.method,
            url: texts(self.url@),
            params: self.params@,
            headers: self.headers@,
            form: match self.form {
                Some(fields) => Some(fields@),
                None => None,
            },
        }
    }
}

impl Decoder {
    /// A decoder that has read nothing.
    pub fn new() -> (r: Decoder)
        ensures
            r@ == start(),
    {
        let r = Decoder {
            stage: Stage::RequestLine,
            method: Method::Get,
            url: Vec::new(),
            params: Fields::new(),
            headers: Fields::new(),
            form: None,
        };
        assert(texts(r.url@) =~= Seq::<Seq<char>>::empty());
        r
    }

    /// The stage that the reading has come to.
    pub fn stage(&self) -> (r: Stage)
        ensures
            r == self@.stage,
    {
        self.stage
    }

    /// What the caller is to read next.
    pub fn wants(&self) -> (r: Want)
        ensures
            r == want_of(self@.stage),
    {
        match self.stage {
            Stage::RequestLine => Want::Line,
            Stage::Headers => Want::Line,
            Stage::Body(n) => Want::Bytes(n),
            Stage::Done => Want::Nothing,
            Stage::Failed(_) => Want::Nothing,
        }
    }

    fn close_headers(self) -> (r: Decoder)
        ensures
            r@ == headers_closed(self@),
    {
        let stage = match body_length(self.method, &self.headers) {
            Some(n) => Stage::Body(n),
            None => Stage::Done,
        };
        Decoder { stage, ..self }
    }

    fn read_request_line(self, line: &str) -> (r: Decoder)
        ensures
            r@ == request_line_read(self@, line@),
    {
        match parse_request_line(line) {
            Ok(head) => Decoder {
                stage: Stage::Headers,
                method: head.method,
                url: head.url,
                params: head.params,
                ..self
            },
            Err(e) => Decoder { stage: Stage::Failed(e), ..self },
        }
    }

    fn read_header_line(self, line: &str) -> (r: Decoder)
        ensures
            r@ == header_line_read(self@, line@),
    {
        if blank(&chars_of(line)) {
            return self.close_headers();
        }
        match parse_header_line(line) {
            Some((name, value)) => {
                let mut next = self;
                next.headers.insert(name, value);
                next
            },
            None => self,
        }
    }

    fn read_body(self, bytes: &Vec<u8>) -> (r: Decoder)
        ensures
            r@ == body_read(self@, bytes@),
    {
        match utf8_text(bytes.as_slice()) {
            Some(form) => match parse_form(form) {
                Some(fields) => Decoder { stage: Stage::Done, form: Some(fields), ..self },
                None => Decoder { stage: Stage::Failed(ParseError::MalformedBody), ..self },
            },
            None => Decoder { stage: Stage::Done, ..self },
        }
    }

    /// Takes what the caller read and moves on.
    pub fn step(self, event: Event) -> (r: Decoder)
        ensures
            r@ == step_of(self@, event@),
    {
        match self.stage {
            Stage::RequestLine => match event {
                Event::Line(line) => self.read_request_line(line.as_str()),
                Event::Closed => Decoder { stage: Stage::Failed(ParseError::NoHttpHeader), ..self },
                Event::Bytes(_) => self,
            },
            Stage::Headers => match event {
                Event::Line(line) => self.read_header_line(line.as_str()),
                Event::Closed => self.close_headers(),
                Event::Bytes(_) => self,
            },
            Stage::Body(_) => match event {
                Event::Bytes(bytes) => self.read_body(&bytes),
                Event::Closed => Decoder { stage: Stage::Done, ..self },
                Event::Line(_) => self,
            },
            Stage::Done => self,
            Stage::Failed(_) => self,
        }
    }

    /// The request that was read, with the digest of the address it came
    /// from.
    pub fn finish(self, ip_hash: u64) -> (r: Result<Request, ParseError>)
        ensures
            match r {
                Ok(request) => outcome_of(self@, ip_hash) == Ok::<_, ParseError>(request@),
                Err(e) => outcome_of(self@, ip_hash) == Err::<RequestView, _>(e),
            },
    {
        match self.stage {
            Stage::Done => Ok(
                Request {
                    method: self.method,
                    url: self.url,
                    params: self.params,
                    headers: self.headers,
                    body: match self.form {
                        Some(fields) => Some(RequestBody::FormUrlEncoded(fields)),
                        None => None,
                    },
                    ip_hash,
                },
            ),
            Stage::Failed(e) => Err(e),
            _ => Err(ParseError::NoHttpHeader),
        }
    }
}

} // verus!
