use shorty::fields::Fields;
use shorty::pattern::{find_groups, is_match};
use shorty::request::{
    decode_chars, decode_url_str, is_hex_char, parse_form, parse_header_line, parse_query,
    parse_request_line, request_line_from_groups, Method, ParseError, Request, RequestBody,
    REQUEST_LINE,
};
use shorty::text::chars_of;

fn value<'a>(fields: &'a Fields, key: &str) -> Option<&'a str> {
    fields.get(key).map(|s| s.as_str())
}

#[test]
fn hex_chars_are_recognised() {
    for c in "0123456789abcdefABCDEF".chars() {
        assert!(is_hex_char(c), "{}", c);
    }
    for c in "gG/:@`[{ zZ%٣".chars() {
        assert!(!is_hex_char(c), "{}", c);
    }
}

#[test]
fn percent_escapes_are_decoded() {
    assert_eq!(decode_url_str("a%20b"), Some("a b".to_string()));
    assert_eq!(decode_url_str("https%3A%2F%2Fexample.com"), Some("https://example.com".to_string()));
    assert_eq!(decode_url_str("%3a%3A"), Some("::".to_string()));
    assert_eq!(decode_url_str("plain"), Some("plain".to_string()));
    assert_eq!(decode_url_str(""), Some("".to_string()));
    assert_eq!(decode_url_str("%41%42%43"), Some("ABC".to_string()));
    assert_eq!(decode_url_str("100%25"), Some("100%".to_string()));
    assert_eq!(decode_url_str("%2525"), Some("%25".to_string()));
}

#[test]
fn plus_and_raw_text_stay_as_they_are() {
    assert_eq!(decode_url_str("a+b"), Some("a+b".to_string()));
    assert_eq!(decode_url_str("grüße"), Some("grüße".to_string()));
}

#[test]
fn escapes_above_ascii_give_the_character_of_that_number() {
    assert_eq!(decode_url_str("%E9"), Some("\u{e9}".to_string()));
    assert_eq!(decode_url_str("%C3%A9"), Some("\u{c3}\u{a9}".to_string()));
    assert_eq!(decode_url_str("%00"), Some("\0".to_string()));
    assert_eq!(decode_url_str("%ff"), Some("\u{ff}".to_string()));
}

#[test]
fn broken_escapes_fail_the_whole_text() {
    assert_eq!(decode_url_str("abc%"), None);
    assert_eq!(decode_url_str("abc%4"), None);
    assert_eq!(decode_url_str("%zz"), None);
    assert_eq!(decode_url_str("%4g"), None);
    assert_eq!(decode_url_str("ok%20then%2"), None);
    assert_eq!(decode_url_str("%%20"), None);
    assert_eq!(decode_url_str("%é1"), None);
    assert_eq!(decode_chars(&chars_of("a%2")), None);
    assert_eq!(decode_chars(&chars_of("a%21")), Some(chars_of("a!")));
}

#[test]
fn methods_are_named_in_any_case() {
    assert_eq!(Method::try_from("GET"), Ok(Method::Get));
    assert_eq!(Method::try_from("get"), Ok(Method::Get));
    assert_eq!(Method::try_from("Post"), Ok(Method::Post));
    assert_eq!(Method::try_from("POST"), Ok(Method::Post));
    assert_eq!(Method::try_from("PUT"), Err(()));
    assert_eq!(Method::try_from(""), Err(()));
    assert_eq!(Method::try_from("GETS"), Err(()));
    assert_eq!(Method::Get.name(), "Get");
    assert_eq!(Method::Post.name(), "Post");
}

#[test]
fn parse_errors_have_messages() {
    assert_eq!(ParseError::NoHttpHeader.message(), "no http header");
    assert_eq!(ParseError::UnknownMethod.message(), "unknown method");
    assert_eq!(ParseError::MalformedBody.message(), "malformed body");
}

#[test]
fn query_pairs_are_split_at_the_first_equals_sign() {
    let q = parse_query("a=1&b=2");
    assert_eq!(q.len(), 2);
    assert_eq!(value(&q, "a"), Some("1"));
    assert_eq!(value(&q, "b"), Some("2"));
    let q = parse_query("a=b=c");
    assert_eq!(value(&q, "a"), Some("b=c"));
    let q = parse_query("=x");
    assert_eq!(value(&q, ""), Some("x"));
    let q = parse_query("k=");
    assert_eq!(value(&q, "k"), Some(""));
}

#[test]
fn query_pairs_without_equals_sign_are_dropped() {
    let q = parse_query("a=1&");
    assert_eq!(q.len(), 1);
    assert_eq!(value(&q, "a"), Some("1"));
    let q = parse_query("a=1&b&c=3");
    assert_eq!(q.len(), 2);
    assert_eq!(value(&q, "b"), None);
    assert_eq!(value(&q, "c"), Some("3"));
    assert_eq!(parse_query("").len(), 0);
    assert_eq!(parse_query("&&").len(), 0);
}

#[test]
fn query_values_are_not_decoded_and_later_ones_win() {
    let q = parse_query("a=%20&a=2");
    assert_eq!(q.len(), 1);
    assert_eq!(value(&q, "a"), Some("2"));
    let q = parse_query("long=a%2Fb");
    assert_eq!(value(&q, "long"), Some("a%2Fb"));
}

#[test]
fn forms_are_decoded() {
    let f = parse_form("password=secret&long-url=example.com&short-url=abc").unwrap();
    assert_eq!(f.len(), 3);
    assert_eq!(value(&f, "password"), Some("secret"));
    assert_eq!(value(&f, "long-url"), Some("example.com"));
    assert_eq!(value(&f, "short-url"), Some("abc"));
    let f = parse_form("long-url=https%3A%2F%2Fexample.com%2Fa%3Fb%3Dc&k%3D=v").unwrap();
    assert_eq!(value(&f, "long-url"), Some("https://example.com/a?b=c"));
    assert_eq!(value(&f, "k="), Some("v"));
}

#[test]
fn forms_drop_pieces_without_equals_sign() {
    let f = parse_form("").unwrap();
    assert_eq!(f.len(), 0);
    let f = parse_form("abc&x=1&").unwrap();
    assert_eq!(f.len(), 1);
    assert_eq!(value(&f, "x"), Some("1"));
    let f = parse_form("%zz&x=1").unwrap();
    assert_eq!(f.len(), 1);
}

#[test]
fn a_broken_escape_fails_the_form() {
    assert!(parse_form("a=%zz").is_none());
    assert!(parse_form("a=1&b%2=2").is_none());
    assert!(parse_form("a=1&b=2%").is_none());
    assert!(parse_form("a=%4&b=2").is_none());
}

#[test]
fn header_lines_are_split_at_the_first_colon() {
    assert_eq!(
        parse_header_line("Content-Type: text/html\r\n"),
        Some(("Content-Type".to_string(), "text/html".to_string()))
    );
    assert_eq!(
        parse_header_line("Host: localhost:8080\r\n"),
        Some(("Host".to_string(), "localhost:8080".to_string()))
    );
    assert_eq!(parse_header_line("  X  :  y z  "), Some(("X".to_string(), "y z".to_string())));
    assert_eq!(parse_header_line(":"), Some(("".to_string(), "".to_string())));
    assert_eq!(parse_header_line("Empty:"), Some(("Empty".to_string(), "".to_string())));
}

#[test]
fn header_lines_without_colon_are_none() {
    assert_eq!(parse_header_line("no colon here\r\n"), None);
    assert_eq!(parse_header_line(""), None);
    assert_eq!(parse_header_line("\r\n"), None);
}

#[test]
fn the_pattern_is_matched_by_the_regex_crate() {
    assert!(is_match("^a+$", "aaa"));
    assert!(!is_match("^a+$", "aab"));
    assert!(!is_match("^a+$", "^a+$"));
    assert!(is_match("b", "abc"));
    assert!(!is_match("(", "("));
    let groups = find_groups("(a)(x)?(c)", "zac").unwrap();
    assert_eq!(groups, vec![Some("ac".to_string()), Some("a".to_string()), None, Some("c".to_string())]);
    assert_eq!(find_groups("(a)(b)", "zzz"), None);
    assert_eq!(find_groups("(", "("), None);
}

#[test]
fn request_line_of_the_root_has_no_segments() {
    let line = parse_request_line("GET / HTTP/1.1\r\n").unwrap();
    assert_eq!(line.method, Method::Get);
    assert_eq!(line.url.len(), 0);
    assert_eq!(line.params.len(), 0);
}

#[test]
fn request_line_segments_are_counted() {
    let line = parse_request_line("GET /x HTTP/1.1\r\n").unwrap();
    assert_eq!(line.url, vec!["x".to_string()]);
    let line = parse_request_line("GET /x/y HTTP/1.1\r\n").unwrap();
    assert_eq!(line.url, vec!["x".to_string(), "y".to_string()]);
    let line = parse_request_line("POST /create HTTP/1.1\r\n").unwrap();
    assert_eq!(line.method, Method::Post);
    assert_eq!(line.url, vec!["create".to_string()]);
    let line = parse_request_line("GET /static/css/main.css HTTP/1.1\r\n").unwrap();
    assert_eq!(line.url, vec!["static".to_string(), "css".to_string(), "main.css".to_string()]);
}

#[test]
fn request_line_with_query() {
    let line = parse_request_line("GET /free?short=abc&long=example.com HTTP/1.1\r\n").unwrap();
    assert_eq!(line.method, Method::Get);
    assert_eq!(line.url, vec!["free".to_string()]);
    assert_eq!(value(&line.params, "short"), Some("abc"));
    assert_eq!(value(&line.params, "long"), Some("example.com"));
    let line = parse_request_line("GET /free?short=abc& HTTP/1.1\r\n").unwrap();
    assert_eq!(line.params.len(), 1);
    assert_eq!(value(&line.params, "short"), Some("abc"));
    let line = parse_request_line("GET /?a=1 HTTP/1.1\r\n").unwrap();
    assert_eq!(line.url.len(), 0);
    assert_eq!(value(&line.params, "a"), Some("1"));
}

#[test]
fn lines_that_are_no_request_line_fail() {
    assert_eq!(parse_request_line("").err(), Some(ParseError::NoHttpHeader));
    assert_eq!(parse_request_line("\r\n").err(), Some(ParseError::NoHttpHeader));
    assert_eq!(parse_request_line("PUT /x HTTP/1.1\r\n").err(), Some(ParseError::NoHttpHeader));
    assert_eq!(parse_request_line("GET /x HTTP/1.0\r\n").err(), Some(ParseError::NoHttpHeader));
    assert_eq!(parse_request_line("GET x HTTP/1.1\r\n").err(), Some(ParseError::NoHttpHeader));
    assert_eq!(parse_request_line("get /x HTTP/1.1\r\n").err(), Some(ParseError::NoHttpHeader));
    assert_eq!(parse_request_line("GET /free?short HTTP/1.1\r\n").err(), Some(ParseError::NoHttpHeader));
}

#[test]
fn groups_decide_the_request_line() {
    assert_eq!(request_line_from_groups(&None).err(), Some(ParseError::NoHttpHeader));
    assert_eq!(request_line_from_groups(&Some(vec![])).err(), Some(ParseError::NoHttpHeader));
    let whole = Some("x".to_string());
    assert_eq!(
        request_line_from_groups(&Some(vec![whole.clone(), None])).err(),
        Some(ParseError::NoHttpHeader)
    );
    assert_eq!(
        request_line_from_groups(&Some(vec![whole.clone(), Some("PUT".to_string())])).err(),
        Some(ParseError::UnknownMethod)
    );
    let line = request_line_from_groups(&Some(vec![whole.clone(), Some("post".to_string())])).unwrap();
    assert_eq!(line.method, Method::Post);
    assert_eq!(line.url.len(), 0);
    assert_eq!(line.params.len(), 0);
    let line = request_line_from_groups(&Some(vec![
        whole.clone(),
        Some("GET".to_string()),
        Some("a/b/".to_string()),
        Some("k=v&q".to_string()),
    ]))
    .unwrap();
    assert_eq!(line.method, Method::Get);
    assert_eq!(line.url, vec!["a".to_string(), "b".to_string(), "".to_string()]);
    assert_eq!(line.params.len(), 1);
    assert_eq!(value(&line.params, "k"), Some("v"));
    let line = request_line_from_groups(&Some(vec![whole, Some("GET".to_string()), Some("".to_string()), None])).unwrap();
    assert_eq!(line.url.len(), 0);
}

#[test]
fn the_request_line_pattern_is_accepted() {
    assert!(find_groups(REQUEST_LINE, "GET / HTTP/1.1").is_some());
    let groups = find_groups(REQUEST_LINE, "xx POST /a/b?c=d HTTP/1.1 yy").unwrap();
    assert_eq!(groups.len(), 4);
    assert_eq!(groups[0].as_deref(), Some("POST /a/b?c=d HTTP/1.1"));
    assert_eq!(groups[1].as_deref(), Some("POST"));
    assert_eq!(groups[3].as_deref(), Some("c=d"));
}

#[test]
fn basic_info_shows_method_and_path() {
    let req = Request {
        method: Method::Get,
        url: vec!["a".to_string(), "b".to_string()],
        params: Fields::new(),
        headers: Fields::new(),
        body: None,
        ip_hash: 0,
    };
    assert_eq!(req.basic_info(), "Request { Get a/b }");
    let req = Request {
        method: Method::Post,
        url: vec![],
        params: Fields::new(),
        headers: Fields::new(),
        body: Some(RequestBody::FormUrlEncoded(Fields::new())),
        ip_hash: 0,
    };
    assert_eq!(req.basic_info(), "Request { Post  }");
}

#[test]
fn fields_keep_one_value_per_name_in_order_of_arrival() {
    let mut f = Fields::new();
    assert_eq!(f.len(), 0);
    assert_eq!(f.get("a"), None);
    f.insert("a".to_string(), "1".to_string());
    f.insert("b".to_string(), "2".to_string());
    f.insert("a".to_string(), "3".to_string());
    assert_eq!(f.len(), 2);
    assert_eq!(value(&f, "a"), Some("3"));
    assert_eq!(value(&f, "b"), Some("2"));
    assert_eq!(value(&f, "A"), None);
    assert_eq!(f.name_at(0), "a");
    assert_eq!(f.value_at(0), "3");
    assert_eq!(f.name_at(1), "b");
    assert_eq!(f.value_at(1), "2");
}
