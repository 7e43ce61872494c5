//! Responses: what is sent back, and how it is written on the wire.

use crate::fields::Fields;
use crate::number::{decimal, push_decimal};
use crate::text::string_of;
use vstd::prelude::*;
use vstd::string::StrSliceExecFns;

verus! {

/// The status of a response.
#[derive(Clone, Copy, Debug, PartialEq, Eq, Structural)]
pub enum ResponseCode {
    Okay,
    MovedPermanently,
    BadRequest,
    NotFound,
    NotAcceptable,
}

impl ResponseCode {
    /// The status as a number.
    pub open spec fn number_of(self) -> u16 {
        match self {
            ResponseCode::Okay => 200,
            ResponseCode::MovedPermanently => 301,
            ResponseCode::BadRequest => 400,
            ResponseCode::NotFound => 404,
            ResponseCode::NotAcceptable => 406,
        }
    }

    /// The status in words.
    pub open spec fn reason_of(self) -> Seq<char> {
        match self {
            ResponseCode::Okay => "Ok"@,
            ResponseCode::MovedPermanently => "Moved Permanently"@,
            ResponseCode::BadRequest => "Bad Request"@,
            ResponseCode::NotFound => "Not Found"@,
            ResponseCode::NotAcceptable => "Not Acceptable"@,
        }
    }

    /// The status as a number.
    pub fn number(&self) -> (r: u16)
        ensures
            r == self.number_of(),
    {
        match self {
            ResponseCode::Okay => 200,
            ResponseCode::MovedPermanently => 301,
            ResponseCode::BadRequest => 400,
            ResponseCode::NotFound => 404,
            ResponseCode::NotAcceptable => 406,
        }
    }

    /// The status in words.
    pub fn as_reason(&self) -> (r: &'static str)
        ensures
            r@ == self.reason_of(),
    {
        match self {
            ResponseCode::Okay => "Ok",
            ResponseCode::MovedPermanently => "Moved Permanently",
            ResponseCode::BadRequest => "Bad Request",
            ResponseCode::NotFound => "Not Found",
            ResponseCode::NotAcceptable => "Not Acceptable",
        }
    }
}

/// What a response carries.
#[derive(Debug, PartialEq, Eq)]
pub enum ResponseBody {
    Empty,
    Html(String),
    CSS(String),
    JS(String),
    Custom { content_type: String, data: Vec<u8> },
}

/// A body as contracts see it.
pub enum BodyView {
    Empty,
    Html(Seq<char>),
    CSS(Seq<char>),
    JS(Seq<char>),
    Custom { content_type: Seq<char>, data: Seq<u8> },
}

impl View for ResponseBody {
    type V = BodyView;

    open spec fn view(&self) -> BodyView {
        match self {
            ResponseBody::Empty => BodyView::Empty,
            ResponseBody::Html(text) => BodyView::Html(text@),
            ResponseBody::CSS(text) => BodyView::CSS(text@),
            ResponseBody::JS(text) => BodyView::JS(text@),
            ResponseBody::Custom { content_type, data } => BodyView::Custom {
                content_type: content_type@,
                data: data@,
            },
        }
    }
}

impl ResponseBody {
    /// The body is the empty variant. A text without characters is not.
    pub open spec fn empty(self) -> bool {
        self is Empty
    }

    /// The content type that the body is sent under.
    pub open spec fn content_type_of(self) -> Seq<char> {
        match self {
            ResponseBody::Empty => ""@,
            ResponseBody::Html(_) => "text/html;charset=UTF-8"@,
            ResponseBody::CSS(_) => "text/css;charset=UTF-8"@,
            ResponseBody::JS(_) => "text/javascript;charset=UTF-8"@,
            ResponseBody::Custom { content_type, .. } => content_type@,
        }
    }

    /// The bytes of the body: a text in UTF-8, bytes as they are.
    pub open spec fn bytes_of(self) -> Seq<u8> {
        match self {
            ResponseBody::Empty => Seq::<u8>::empty(),
            ResponseBody::Html(text) => vstd::utf8::encode_utf8(text@),
            ResponseBody::CSS(text) => vstd::utf8::encode_utf8(text@),
            ResponseBody::JS(text) => vstd::utf8::encode_utf8(text@),
            ResponseBody::Custom { data, .. } => data@,
        }
    }

    /// Whether the body is the empty variant.
    pub fn is_empty(&self) -> (r: bool)
        ensures
            r == self.empty(),
    {
        match self {
            ResponseBody::Empty => true,
            _ => false,
        }
    }

    /// The content type that the body is sent under.
    pub fn get_content_type(&self) -> (r: String)
        ensures
            r@ == self.content_type_of(),
    {
        match self {
            ResponseBody::Empty => "".to_owned(),
            ResponseBody::Html(_) => "text/html;charset=UTF-8".to_owned(),
            ResponseBody::CSS(_) => "text/css;charset=UTF-8".to_owned(),
            ResponseBody::JS(_) => "text/javascript;charset=UTF-8".to_owned(),
            ResponseBody::Custom { content_type, .. } => content_type.clone(),
        }
    }

    /// The length of the body in bytes.
    pub fn get_length(&self) -> (r: usize)
        ensures
            r == self.bytes_of().len(),
    {
        match self {
            ResponseBody::Empty => 0,
            ResponseBody::Html(s) => s.as_str().as_bytes().len(),
            ResponseBody::CSS(s) => s.as_str().as_bytes().len(),
            ResponseBody::JS(s) => s.as_str().as_bytes().len(),
            ResponseBody::Custom { data, .. } => data.len(),
        }
    }

    /// The bytes of the body.
    pub fn get_bytes(&self) -> (r: &[u8])
        ensures
            r@ == self.bytes_of(),
    {
        match self {
            ResponseBody::Empty => &[],
            ResponseBody::Html(s) => s.as_str().as_bytes(),
            ResponseBody::CSS(s) => s.as_str().as_bytes(),
            ResponseBody::JS(s) => s.as_str().as_bytes(),
            ResponseBody::Custom { data, .. } => data.as_slice(),
        }
    }
}

/// A response: a status, headers of the handler's own, and a body.
#[derive(Debug)]
pub struct Response {
    pub code: ResponseCode,
    pub custom_headers: Option<Fields>,
    pub body: ResponseBody,
}

/// A response as contracts see it.
pub struct ResponseView {
    pub code: ResponseCode,
    pub headers: Option<Seq<(Seq<char>, Seq<char>)>>,
    pub body: BodyView,
}

impl View for Response {
    type V = ResponseView;

    open spec fn view(&self) -> ResponseView {
        ResponseView {
            code: self.code,
            headers: match self.custom_headers {
                Some(fields) => Some(fields.pairs()),
                None => None,
            },
            body: self.body@,
        }
    }
}

/// The status line of a response.
pub open spec fn status_line(code: ResponseCode) -> Seq<char> {
    "HTTP/1.1 "@ + decimal(code.number_of() as nat) + " "@ + code.reason_of() + "\n"@
}

/// One line `Name: value` for each header, in their order.
pub open spec fn header_lines(pairs: Seq<(Seq<char>, Seq<char>)>) -> Seq<char>
    decreases pairs.len(),
{
    if pairs.len() == 0 {
        Seq::<char>::empty()
    } else {
        header_lines(pairs.drop_last()) + pairs.last().0 + ": "@ + pairs.last().1 + "\n"@
    }
}

/// The two lines that announce a body, and the blank line after them.
pub open spec fn content_lines(body: ResponseBody) -> Seq<char> {
    "Content-Type: "@ + body.content_type_of() + "\n"@ + "Content-Length: "@ + decimal(
        body.bytes_of().len(),
    ) + "\n"@ + "\n"@
}

impl Response {
    /// The headers of the handler's own, in their order.
    pub open spec fn own_headers(self) -> Seq<(Seq<char>, Seq<char>)> {
        match self.custom_headers {
            Some(fields) => fields.pairs(),
            None => Seq::<(Seq<char>, Seq<char>)>::empty(),
        }
    }

    /// The lines before the body: the status line, the handler's own
    /// headers and, for a body that is not empty, the lines that announce
    /// it.
    pub open spec fn head(self) -> Seq<char> {
        status_line(self.code) + header_lines(self.own_headers()) + if self.body.empty() {
            Seq::<char>::empty()
        } else {
            content_lines(self.body)
        }
    }

    /// The response as it goes over the wire: the head in UTF-8 and, for a
    /// body that is not empty, its bytes. An empty body sends nothing after
    /// the handler's own headers.
    pub open spec fn wire(self) -> Seq<u8> {
        vstd::utf8::encode_utf8(self.head()) + self.body.bytes_of()
    }

    fn head_text(&self) -> (r: String)
        ensures
            r@ == self.head(),
    {
        let mut out = String::new();
        let mut digits: Vec<char> = Vec::new();
        push_decimal(&mut digits, self.code.number() as usize);
        out.push_str("HTTP/1.1 ");
        out.push_str(string_of(&digits).as_str());
        out.push_str(" ");
        out.push_str(self.code.as_reason());
        out.push_str("\n");
        assert(out@ =~= status_line(self.code));
        match &self.custom_headers {
            Some(fields) => {
                let n = fields.len();
                let mut i: usize = 0;
                assert(fields.pairs().take(0) =~= Seq::<(Seq<char>, Seq<char>)>::empty());
                assert(out@ =~= status_line(self.code) + header_lines(fields.pairs().take(0)));
                while i < n
                    invariant
                        i <= n,
                        n == fields.pairs().len(),
                        out@ == status_line(self.code) + header_lines(fields.pairs().take(i as int)),
                    decreases n - i,
                {
                    let ghost upto = fields.pairs().take(i + 1);
                    assert(upto.drop_last() =~= fields.pairs().take(i as int));
                    assert(upto.last() == fields.pairs()[i as int]);
                    out.push_str(fields.name_at(i).as_str());
                    out.push_str(": ");
                    out.push_str(fields.value_at(i).as_str());
                    out.push_str("\n");
                    assert(out@ =~= status_line(self.code) + header_lines(upto));
                    i += 1;
                }
                assert(fields.pairs().take(n as int) =~= fields.pairs());
            },
            None => {
                assert(out@ =~= status_line(self.code) + header_lines(self.own_headers()));
            },
        }
        if !self.body.is_empty() {
            let ghost before = out@;
            let mut length: Vec<char> = Vec::new();
            push_decimal(&mut length, self.body.get_length());
            out.push_str("Content-Type: ");
            out.push_str(self.body.get_content_type().as_str());
            out.push_str("\n");
            out.push_str("Content-Length: ");
            out.push_str(string_of(&length).as_str());
            out.push_str("\n");
            out.push_str("\n");
            assert(out@ =~= before + content_lines(self.body));
        } else {
            assert(out@ + Seq::<char>::empty() =~= out@);
        }
        out
    }

    /// Writes the response as HTTP/1.1: the status line, the handler's own
    /// headers, and then, only for a body that is not empty, its content
    /// type, its length, a blank line and its bytes.
    pub fn write_html11(&self) -> (r: Vec<u8>)
        ensures
            r@ == self.wire(),
    {
        let head = self.head_text();
        let mut out = head.as_str().as_bytes_vec();
        let body = self.body.get_bytes();
        let mut i: usize = 0;
        assert(body@.take(0) =~= Seq::<u8>::empty());
        assert(out@ =~= vstd::utf8::encode_utf8(head@) + body@.take(0));
        while i < body.len()
            invariant
                i <= body.len(),
                out@ == vstd::utf8::encode_utf8(head@) + body@.take(i as int),
            decreases body.len() - i,
        {
            out.push(body[i]);
            assert(out@ =~= vstd::utf8::encode_utf8(head@) + body@.take(i + 1));
            i += 1;
        }
        assert(body@.take(body.len() as int) =~= body@);
        out
    }
}

} // verus!
