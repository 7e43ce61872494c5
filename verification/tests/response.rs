use shorty::fields::Fields;
use shorty::response::{Response, ResponseBody, ResponseCode};

#[test]
fn codes_have_numbers_and_reasons() {
    assert_eq!(ResponseCode::Okay.number(), 200);
    assert_eq!(ResponseCode::MovedPermanently.number(), 301);
    assert_eq!(ResponseCode::BadRequest.number(), 400);
    assert_eq!(ResponseCode::NotFound.number(), 404);
    assert_eq!(ResponseCode::NotAcceptable.number(), 406);
    assert_eq!(ResponseCode::Okay.as_reason(), "Ok");
    assert_eq!(ResponseCode::MovedPermanently.as_reason(), "Moved Permanently");
    assert_eq!(ResponseCode::BadRequest.as_reason(), "Bad Request");
    assert_eq!(ResponseCode::NotFound.as_reason(), "Not Found");
    assert_eq!(ResponseCode::NotAcceptable.as_reason(), "Not Acceptable");
}

#[test]
fn only_the_empty_variant_is_empty() {
    assert!(ResponseBody::Empty.is_empty());
    assert!(!ResponseBody::Html(String::new()).is_empty());
    assert!(!ResponseBody::CSS("a".to_string()).is_empty());
    assert!(!ResponseBody::JS("a".to_string()).is_empty());
    assert!(!ResponseBody::Custom { content_type: "x/y".to_string(), data: vec![] }.is_empty());
}

#[test]
fn content_types_are_fixed() {
    assert_eq!(ResponseBody::Empty.get_content_type(), "");
    assert_eq!(ResponseBody::Html("a".to_string()).get_content_type(), "text/html;charset=UTF-8");
    assert_eq!(ResponseBody::CSS("a".to_string()).get_content_type(), "text/css;charset=UTF-8");
    assert_eq!(ResponseBody::JS("a".to_string()).get_content_type(), "text/javascript;charset=UTF-8");
    assert_eq!(
        ResponseBody::Custom { content_type: "image/png".to_string(), data: vec![1] }.get_content_type(),
        "image/png"
    );
}

#[test]
fn lengths_are_counted_in_bytes() {
    assert_eq!(ResponseBody::Empty.get_length(), 0);
    assert_eq!(ResponseBody::Html("abc".to_string()).get_length(), 3);
    assert_eq!(ResponseBody::Html("grüße".to_string()).get_length(), 7);
    assert_eq!(ResponseBody::CSS("€".to_string()).get_length(), 3);
    assert_eq!(ResponseBody::JS("".to_string()).get_length(), 0);
    assert_eq!(ResponseBody::Custom { content_type: "x".to_string(), data: vec![0, 1, 2, 3] }.get_length(), 4);
}

#[test]
fn bytes_are_the_text_in_utf8() {
    assert_eq!(ResponseBody::Empty.get_bytes(), b"");
    assert_eq!(ResponseBody::Html("abc".to_string()).get_bytes(), b"abc");
    assert_eq!(ResponseBody::CSS("ü".to_string()).get_bytes(), &[0xc3, 0xbc]);
    assert_eq!(ResponseBody::JS("x()".to_string()).get_bytes(), b"x()");
    assert_eq!(
        ResponseBody::Custom { content_type: "x".to_string(), data: vec![0, 255, 7] }.get_bytes(),
        &[0, 255, 7]
    );
}

#[test]
fn a_page_goes_over_the_wire_with_type_and_length() {
    let r = Response { code: ResponseCode::Okay, custom_headers: None, body: ResponseBody::Html("<p>hi</p>".to_string()) };
    assert_eq!(
        r.write_html11(),
        b"HTTP/1.1 200 Ok\nContent-Type: text/html;charset=UTF-8\nContent-Length: 9\n\n<p>hi</p>".to_vec()
    );
}

#[test]
fn an_empty_body_sends_nothing_after_the_status_line() {
    let r = Response { code: ResponseCode::NotFound, custom_headers: None, body: ResponseBody::Empty };
    assert_eq!(r.write_html11(), b"HTTP/1.1 404 Not Found\n".to_vec());
    let r = Response { code: ResponseCode::NotAcceptable, custom_headers: Some(Fields::new()), body: ResponseBody::Empty };
    assert_eq!(r.write_html11(), b"HTTP/1.1 406 Not Acceptable\n".to_vec());
}

#[test]
fn a_text_without_characters_still_announces_itself() {
    let r = Response { code: ResponseCode::Okay, custom_headers: None, body: ResponseBody::JS(String::new()) };
    assert_eq!(
        r.write_html11(),
        b"HTTP/1.1 200 Ok\nContent-Type: text/javascript;charset=UTF-8\nContent-Length: 0\n\n".to_vec()
    );
}

#[test]
fn own_headers_come_before_the_content_lines() {
    let mut h = Fields::new();
    h.insert("Location".to_string(), "https://example.com".to_string());
    h.insert("Cache-Control".to_string(), "no-cache".to_string());
    let r = Response { code: ResponseCode::MovedPermanently, custom_headers: Some(h), body: ResponseBody::Empty };
    assert_eq!(
        r.write_html11(),
        b"HTTP/1.1 301 Moved Permanently\nLocation: https://example.com\nCache-Control: no-cache\n".to_vec()
    );
    let mut h = Fields::new();
    h.insert("X-A".to_string(), "1".to_string());
    let r = Response {
        code: ResponseCode::BadRequest,
        custom_headers: Some(h),
        body: ResponseBody::Custom { content_type: "application/octet-stream".to_string(), data: vec![0, 159, 255] },
    };
    let mut expected = b"HTTP/1.1 400 Bad Request\nX-A: 1\nContent-Type: application/octet-stream\nContent-Length: 3\n\n".to_vec();
    expected.extend_from_slice(&[0, 159, 255]);
    assert_eq!(r.write_html11(), expected);
}

#[test]
fn the_length_on_the_wire_counts_bytes() {
    let r = Response { code: ResponseCode::Okay, custom_headers: None, body: ResponseBody::CSS("ü{}".to_string()) };
    let mut expected = b"HTTP/1.1 200 Ok\nContent-Type: text/css;charset=UTF-8\nContent-Length: 4\n\n".to_vec();
    expected.extend_from_slice("ü{}".as_bytes());
    assert_eq!(r.write_html11(), expected);
}
