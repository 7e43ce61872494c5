use shorty::database::{Database, Table};
use shorty::fields::Fields;
use shorty::handler::{
    accepts_html, code_of, create_page, created_response, file_kind, fingerprint,
    free_check, gen_free_random_url, home_page, is_reserved, is_well_formed, normalize_long_url,
    not_found_empty, plain_file, random_code, refusal_message, send_404_page,
    send_gen_error_page, static_content,
    submit, text_file, validate_long_url, validate_short_url, verdict, FileKind, HandlerError,
    Refusal, ValidationResult, Verdict, NO_BODY, OUT_OF_CODES, OVER_QUOTA,
};
use shorty::memory::MemoryDB;
use shorty::request::{Method, Request, RequestBody};
use shorty::response::{Response, ResponseBody, ResponseCode};
use shorty::text::chars_of;

const TEMPLATE: &str = "<a href=\"{{short-url}}\">{{short-url}}</a> leads to {{long-url}}";

fn fields(pairs: &[(&str, &str)]) -> Fields {
    let mut f = Fields::new();
    for (k, v) in pairs {
        f.insert(k.to_string(), v.to_string());
    }
    f
}

fn request(method: Method, url: &[&str]) -> Request {
    Request {
        method,
        url: url.iter().map(|s| s.to_string()).collect(),
        params: Fields::new(),
        headers: Fields::new(),
        body: None,
        ip_hash: 0x1234_5678_9abc_def0,
    }
}

fn post(form: &[(&str, &str)]) -> Request {
    let mut r = request(Method::Post, &["create"]);
    r.body = Some(RequestBody::FormUrlEncoded(fields(form)));
    r
}

fn storage() -> MemoryDB {
    let mut db = MemoryDB::new();
    db.add_password("secret");
    db.set_time(1_000_000);
    db
}

fn html(r: &Response) -> &str {
    match &r.body {
        ResponseBody::Html(s) => s.as_str(),
        other => panic!("no html: {:?}", other),
    }
}

fn refused(r: Result<Response, HandlerError>) -> String {
    match r {
        Err(HandlerError::E400(m)) => m,
        other => panic!("not refused: {:?}", other),
    }
}

#[test]
fn reserved_words_are_told_in_any_case() {
    for w in ["create", "free", "delete", "status", "config", "CREATE", "Free", "dElEtE"] {
        assert!(is_reserved(&chars_of(w)), "{}", w);
    }
    for w in ["creates", "fre", "static", "", "abc"] {
        assert!(!is_reserved(&chars_of(w)), "{}", w);
    }
}

#[test]
fn short_codes_need_three_characters_of_the_class() {
    for c in ["abc", "a-b", "a_b", "ABC123", "---", "___", "grüße", "日本語", "abcdefghijklmnopqrstuvwxyz0123456789"] {
        assert!(is_well_formed(c), "{}", c);
    }
    for c in ["", "a", "ab", "éa", "a b", "a/b", "a.b", "abc!", "a|b", "ab\n", "<b>", "a%20", "abc?", "ab#"] {
        assert!(!is_well_formed(c), "{:?}", c);
    }
}

#[test]
fn reserved_words_are_no_short_codes() {
    for c in ["create", "free", "delete", "status", "config", "Create", "FREE", "Config"] {
        assert!(!is_well_formed(c), "{}", c);
    }
    for c in ["created", "freedom", "statuses"] {
        assert!(is_well_formed(c), "{}", c);
    }
}

#[test]
fn validate_asks_the_storage_too() {
    let mut db = storage();
    assert!(validate_short_url("abc", &db));
    db.store_shortened("https://example.com", "abc", 1).unwrap();
    assert!(!validate_short_url("abc", &db));
    assert!(validate_short_url("abd", &db));
    assert!(validate_short_url("ABC", &db));
}

#[test]
fn malformed_codes_are_never_valid_whatever_is_stored() {
    let mut db = storage();
    for c in ["ab", "create", "a b", "a|b", ""] {
        assert!(!validate_short_url(c, &db), "{:?}", c);
    }
    db.store_shortened("https://example.com", "other", 1).unwrap();
    db.store_shortened("https://example.com", "ab", 1).unwrap();
    for c in ["ab", "create", "a b", "a|b", ""] {
        assert!(!validate_short_url(c, &db), "{:?}", c);
    }
}

#[test]
fn validation_result_is_ok_only_when_okay() {
    assert!(ValidationResult::Okay.is_ok());
    assert!(!ValidationResult::NoUrl.is_ok());
    assert!(!ValidationResult::InUse.is_ok());
}

#[test]
fn long_urls_need_three_clean_characters_in_a_row() {
    for l in ["https://example.com", "abc", "<<abc>>", "a<bcd", "\n\n\n", "äöü"] {
        assert_eq!(validate_long_url(l), ValidationResult::Okay, "{:?}", l);
    }
    for l in ["", "a", "ab", "<a>", "ab<cd>ef", "<<<", "a<b>c<d", "é"] {
        assert_eq!(validate_long_url(l), ValidationResult::NoUrl, "{:?}", l);
    }
}

#[test]
fn a_missing_scheme_is_filled_in() {
    assert_eq!(normalize_long_url("example.com"), "https://example.com");
    assert_eq!(normalize_long_url("https://example.com"), "https://example.com");
    assert_eq!(normalize_long_url("http://example.com"), "http://example.com");
    assert_eq!(normalize_long_url("ftp://example.com"), "https://ftp://example.com");
    assert_eq!(normalize_long_url("HTTPS://example.com"), "https://HTTPS://example.com");
    assert_eq!(normalize_long_url(""), "https://");
    assert_eq!(normalize_long_url("http:/x"), "https://http:/x");
}

#[test]
fn the_fingerprint_is_the_lower_half_of_the_digest() {
    assert_eq!(fingerprint(0), 0);
    assert_eq!(fingerprint(0x1234_5678_9abc_def0), 0x9abc_def0);
    assert_eq!(fingerprint(u64::MAX), u32::MAX);
    assert_eq!(fingerprint(0x1_0000_0000), 0);
    assert_eq!(fingerprint(0xffff_ffff), 0xffff_ffff);
}

#[test]
fn draws_spell_codes_from_the_alphabet() {
    assert_eq!(code_of(&vec![0, 25, 26, 51, 52, 61]), "azAZ09");
    assert_eq!(code_of(&vec![62, 63, 123, 124]), "ab9a");
    assert_eq!(code_of(&vec![]), "");
    let all: Vec<usize> = (0..62).collect();
    assert_eq!(code_of(&all), "abcdefghijklmnopqrstuvwxyzABCDEFGHIJKLMNOPQRSTUVWXYZ0123456789");
}

#[test]
fn random_codes_have_five_letters_or_digits() {
    let mut seen = std::collections::HashSet::new();
    for _ in 0..200 {
        let code = random_code();
        assert_eq!(code.chars().count(), 5);
        assert!(code.chars().all(|c| c.is_ascii_alphanumeric()), "{}", code);
        seen.insert(code);
    }
    assert!(seen.len() > 100);
    let letters: std::collections::HashSet<char> = seen.iter().flat_map(|c| c.chars()).collect();
    assert!(letters.len() > 40);
}

#[test]
fn generated_codes_are_valid_before_they_are_stored() {
    let mut db = storage();
    for _ in 0..50 {
        let code = gen_free_random_url(&db).unwrap();
        assert_eq!(code.chars().count(), 5);
        assert!(validate_short_url(&code, &db));
        db.store_shortened("https://example.com", &code, 1).unwrap();
        assert!(!validate_short_url(&code, &db));
    }
    assert_eq!(db.len(), 50);
}

struct Crowded {
    looks: std::cell::Cell<usize>,
}

impl Database for Crowded {
    fn table(&self) -> Table {
        unreachable!()
    }

    fn dependable(&self) -> bool {
        false
    }

    fn store_shortened(&mut self, _long: &str, _short: &str, _owner: u32) -> Result<(), String> {
        Err("crowded".to_string())
    }

    fn forward(&mut self, _short: &str) -> Result<String, ()> {
        Ok("https://example.com".to_string())
    }

    fn peek_long_url(&self, _short: &str) -> Result<String, ()> {
        self.looks.set(self.looks.get() + 1);
        Ok("https://example.com".to_string())
    }

    fn is_password(&self, _pw: &str) -> bool {
        true
    }

    fn urls_stored_last_7_days(&self, _owner: u32) -> u32 {
        0
    }
}

#[test]
fn the_search_gives_up_after_a_hundred_tries() {
    let db = Crowded { looks: std::cell::Cell::new(0) };
    assert_eq!(gen_free_random_url(&db), None);
    assert_eq!(db.looks.get(), 100);
}

#[test]
fn the_search_stops_at_the_first_code_that_is_free() {
    let db = storage();
    for _ in 0..20 {
        let code = gen_free_random_url(&db).unwrap();
        assert!(validate_short_url(&code, &db));
    }
    assert_eq!(db.len(), 0);
}

#[test]
fn create_ends_for_good_where_no_code_is_free() {
    let mut db = Crowded { looks: std::cell::Cell::new(0) };
    let req = post(&[("password", "secret"), ("long-url", "example.com")]);
    match create_page(&req, &mut db, TEMPLATE, "b") {
        Err(HandlerError::Fatal(m)) => assert_eq!(m, OUT_OF_CODES),
        other => panic!("{:?}", other),
    }
    assert_eq!(db.looks.get(), 100);
}

#[test]
fn the_verdict_goes_by_code_and_count() {
    assert_eq!(verdict(true, true, 0), Verdict::Taken);
    assert_eq!(verdict(true, false, 0), Verdict::Taken);
    assert_eq!(verdict(true, true, 1000), Verdict::Taken);
    assert_eq!(verdict(false, false, 0), Verdict::Malformed);
    assert_eq!(verdict(false, false, 1000), Verdict::Malformed);
    assert_eq!(verdict(false, true, 0), Verdict::Store);
    assert_eq!(verdict(false, true, 100), Verdict::Store);
    assert_eq!(verdict(false, true, 101), Verdict::OverQuota);
    assert_eq!(verdict(false, true, u32::MAX), Verdict::OverQuota);
}

#[test]
fn refusals_are_put_in_words() {
    assert_eq!(refusal_message(Refusal::Taken, "abc"), "Short URL abc allready exists.");
    assert_eq!(refusal_message(Refusal::Malformed, "a/b"), "Short URL a/b is not valid.");
    assert_eq!(refusal_message(Refusal::OverQuota, "abc"), OVER_QUOTA);
    assert_eq!(refusal_message(Refusal::Storage("disk full".to_string()), "abc"), "disk full");
    assert_eq!(OVER_QUOTA, "You allready created 100 URLs in the last 7 days... Thats a lot!");
    assert_eq!(NO_BODY, "No body transmitted");
    assert_eq!(OUT_OF_CODES, "Not enough free short urls!");
}

#[test]
fn submit_stores_a_free_code() {
    let mut db = storage();
    assert!(submit(&mut db, "https://example.com", "abc", 9).is_ok());
    let r = db.record("abc").unwrap();
    assert_eq!(r.long, "https://example.com");
    assert_eq!(r.owner, 9);
    assert_eq!(r.redirects, 0);
    assert_eq!(r.created, 1_000_000);
}

#[test]
fn submit_refuses_a_taken_code_and_changes_nothing() {
    let mut db = storage();
    submit(&mut db, "https://a.example", "abc", 9).unwrap();
    assert!(matches!(submit(&mut db, "https://b.example", "abc", 10), Err(Refusal::Taken)));
    assert_eq!(db.len(), 1);
    assert_eq!(db.record("abc").unwrap().long, "https://a.example");
}

#[test]
fn submit_refuses_a_code_that_has_not_the_form() {
    let mut db = storage();
    for code in ["ab", "a/b", "Create", "", "a b", "a|b", "status"] {
        assert!(matches!(submit(&mut db, "https://example.com", code, 9), Err(Refusal::Malformed)), "{:?}", code);
        assert_eq!(db.len(), 0);
    }
    db.store_shortened("https://example.com", "ab", 1).unwrap();
    assert!(matches!(submit(&mut db, "https://example.com", "ab", 9), Err(Refusal::Taken)));
    assert_eq!(db.len(), 1);
}

#[test]
fn a_storage_that_fails_is_reported_with_its_message() {
    struct Failing;
    impl Database for Failing {
        fn table(&self) -> Table {
            unreachable!()
        }
        fn dependable(&self) -> bool {
            false
        }
        fn store_shortened(&mut self, _long: &str, _short: &str, _owner: u32) -> Result<(), String> {
            Err("disk full".to_string())
        }
        fn forward(&mut self, _short: &str) -> Result<String, ()> {
            Err(())
        }
        fn peek_long_url(&self, _short: &str) -> Result<String, ()> {
            Err(())
        }
        fn is_password(&self, _pw: &str) -> bool {
            true
        }
        fn urls_stored_last_7_days(&self, _owner: u32) -> u32 {
            0
        }
    }
    let mut db = Failing;
    match submit(&mut db, "https://example.com", "abc", 9) {
        Err(Refusal::Storage(m)) => assert_eq!(m, "disk full"),
        other => panic!("{:?}", other),
    }
    let req = post(&[("password", "secret"), ("long-url", "example.com"), ("short-url", "abc")]);
    assert_eq!(refused(create_page(&req, &mut db, TEMPLATE, "b")), "disk full");
}

#[test]
fn the_quota_refuses_after_more_than_a_hundred() {
    let mut db = storage();
    for i in 0..101 {
        assert!(submit(&mut db, "https://example.com", &format!("code{}", i), 9).is_ok(), "{}", i);
    }
    assert_eq!(db.urls_stored_last_7_days(9), 101);
    assert!(matches!(submit(&mut db, "https://example.com", "onemore", 9), Err(Refusal::OverQuota)));
    assert_eq!(db.len(), 101);
    assert!(db.record("onemore").is_none());
    assert!(submit(&mut db, "https://example.com", "fresh", 10).is_ok());
    assert!(matches!(submit(&mut db, "https://example.com", "code5", 9), Err(Refusal::Taken)));
}

#[test]
fn the_quota_forgets_what_left_the_window() {
    let mut db = storage();
    for i in 0..101 {
        submit(&mut db, "https://example.com", &format!("code{}", i), 9).unwrap();
    }
    assert!(submit(&mut db, "https://example.com", "later", 9).is_err());
    db.set_time(1_000_000 + shorty::database::QUOTA_WINDOW);
    assert!(submit(&mut db, "https://example.com", "later", 9).is_ok());
}

#[test]
fn create_stores_the_wanted_code() {
    let mut db = storage();
    let req = post(&[("password", "secret"), ("long-url", "example.com"), ("short-url", "abc")]);
    let r = create_page(&req, &mut db, TEMPLATE, "http://sho.rt").unwrap();
    assert_eq!(r.code.number(), 200);
    assert!(r.custom_headers.is_none());
    assert_eq!(
        html(&r),
        "<a href=\"http://sho.rt/abc\">http://sho.rt/abc</a> leads to https://example.com"
    );
    assert!(html(&r).contains("abc"));
    assert!(html(&r).contains("https://example.com"));
    assert_eq!(db.len(), 1);
    let rec = db.record("abc").unwrap();
    assert_eq!(rec.long, "https://example.com");
    assert_eq!(rec.owner, 0x9abc_def0);
    assert_eq!(rec.redirects, 0);
    assert_eq!(db.peek_long_url("abc"), Ok("https://example.com".to_string()));
}

#[test]
fn create_keeps_a_scheme_that_is_there() {
    let mut db = storage();
    let req = post(&[("password", "secret"), ("long-url", "http://example.com/a?b=c"), ("short-url", "abc")]);
    create_page(&req, &mut db, TEMPLATE, "http://sho.rt").unwrap();
    assert_eq!(db.peek_long_url("abc"), Ok("http://example.com/a?b=c".to_string()));
}

#[test]
fn create_without_code_generates_one() {
    let mut db = storage();
    let req = post(&[("password", "secret"), ("long-url", "example.com")]);
    let r = create_page(&req, &mut db, "{{short-url}}", "B").unwrap();
    assert_eq!(db.len(), 1);
    let page = html(&r).to_string();
    assert!(page.starts_with("B/"));
    let code = &page[2..];
    assert_eq!(code.chars().count(), 5);
    assert!(code.chars().all(|c| c.is_ascii_alphanumeric()));
    assert!(is_well_formed(code));
    assert_eq!(db.peek_long_url(code), Ok("https://example.com".to_string()));
    assert!(!validate_short_url(code, &db));
}

#[test]
fn create_refuses_a_taken_code_by_name() {
    let mut db = storage();
    let req = post(&[("password", "secret"), ("long-url", "example.com"), ("short-url", "abc")]);
    create_page(&req, &mut db, TEMPLATE, "http://sho.rt").unwrap();
    let again = post(&[("password", "secret"), ("long-url", "other.example"), ("short-url", "abc")]);
    let m = refused(create_page(&again, &mut db, TEMPLATE, "http://sho.rt"));
    assert_eq!(m, "Short URL abc allready exists.");
    assert!(m.contains("abc"));
    assert_eq!(db.len(), 1);
    assert_eq!(db.peek_long_url("abc"), Ok("https://example.com".to_string()));
    assert_eq!(db.record("abc").unwrap().redirects, 0);
}

#[test]
fn create_refuses_a_wanted_code_that_has_not_the_form() {
    let mut db = storage();
    for code in ["ab", "a/b", "Create", "config", "a b", "", "x|y"] {
        let req = post(&[("password", "secret"), ("long-url", "example.com"), ("short-url", code)]);
        let m = refused(create_page(&req, &mut db, TEMPLATE, "b"));
        assert_eq!(m, format!("Short URL {} is not valid.", code));
        assert_eq!(db.len(), 0);
        assert!(db.record(code).is_none());
    }
    let req = post(&[("password", "secret"), ("long-url", "example.com"), ("short-url", "a-b_c")]);
    assert!(create_page(&req, &mut db, TEMPLATE, "b").is_ok());
    assert_eq!(db.len(), 1);
}

#[test]
fn create_refuses_without_form_password_or_long_url() {
    let mut db = storage();
    let cases: Vec<Request> = vec![
        request(Method::Post, &["create"]),
        request(Method::Get, &["create"]),
        post(&[]),
        post(&[("password", "secret")]),
        post(&[("long-url", "example.com")]),
        post(&[("password", "wrong"), ("long-url", "example.com"), ("short-url", "abc")]),
        post(&[("password", ""), ("long-url", "example.com")]),
        post(&[("Password", "secret"), ("long-url", "example.com")]),
    ];
    for req in &cases {
        assert_eq!(refused(create_page(req, &mut db, TEMPLATE, "b")), "No body transmitted");
        assert_eq!(db.len(), 0);
    }
}

#[test]
fn create_checks_the_long_url_with_its_scheme() {
    let mut db = storage();
    let req = post(&[("password", "secret"), ("long-url", "<<"), ("short-url", "abc")]);
    assert!(create_page(&req, &mut db, TEMPLATE, "b").is_ok());
    assert_eq!(db.peek_long_url("abc"), Ok("https://<<".to_string()));
}

#[test]
fn create_refuses_over_quota() {
    let mut db = storage();
    for i in 0..101 {
        let code = format!("code{}", i);
        let req = post(&[("password", "secret"), ("long-url", "example.com"), ("short-url", &code)]);
        assert!(create_page(&req, &mut db, TEMPLATE, "b").is_ok(), "{}", i);
    }
    let req = post(&[("password", "secret"), ("long-url", "example.com"), ("short-url", "more")]);
    assert_eq!(refused(create_page(&req, &mut db, TEMPLATE, "b")), OVER_QUOTA);
    assert_eq!(db.len(), 101);
    let mut fresh = post(&[("password", "secret"), ("long-url", "example.com"), ("short-url", "more")]);
    fresh.ip_hash = 5;
    assert!(create_page(&fresh, &mut db, TEMPLATE, "b").is_ok());
    assert_eq!(db.len(), 102);
}

#[test]
fn the_created_page_fills_both_places() {
    let r = created_response("{{long-url}}|{{short-url}}|{{long-url}}", "base", "abc", "https://x.y");
    assert_eq!(html(&r), "https://x.y|base/abc|https://x.y");
    assert_eq!(r.code, ResponseCode::Okay);
    let r = created_response("nothing to fill", "base", "abc", "https://x.y");
    assert_eq!(html(&r), "nothing to fill");
    let r = created_response("{{short-url}}", "b", "{{long-url}}", "L");
    assert_eq!(html(&r), "b/L");
}

#[test]
fn the_home_page_is_served_as_html() {
    let r = home_page("<h1>home</h1>".to_string()).unwrap();
    assert_eq!(r.code, ResponseCode::Okay);
    assert!(r.custom_headers.is_none());
    assert_eq!(html(&r), "<h1>home</h1>");
}

#[test]
fn the_error_page_tells_the_reason() {
    let r = send_gen_error_page("<p>{{error}}</p>", "Short URL abc allready exists.");
    assert_eq!(r.code, ResponseCode::BadRequest);
    assert_eq!(html(&r), "<p>Short URL abc allready exists.</p>");
}

#[test]
fn the_not_found_page_tells_the_path() {
    let mut req = request(Method::Get, &["a", "b"]);
    let r = send_404_page(&req, "<p>{{url}}</p>");
    assert_eq!(r.code, ResponseCode::NotFound);
    assert!(r.body.is_empty());
    req.headers = fields(&[("Accept", "text/html")]);
    let r = send_404_page(&req, "<p>{{url}}</p>");
    assert_eq!(r.code, ResponseCode::NotFound);
    assert_eq!(html(&r), "<p>a/b</p>");
    assert_eq!(
        r.write_html11(),
        b"HTTP/1.1 404 Not Found\nContent-Type: text/html;charset=UTF-8\nContent-Length: 10\n\n<p>a/b</p>".to_vec()
    );
    let r = not_found_empty();
    assert_eq!(r.code, ResponseCode::NotFound);
    assert!(r.body.is_empty());
    assert_eq!(r.write_html11(), b"HTTP/1.1 404 Not Found\n".to_vec());
}

#[test]
fn accept_is_searched_for_html() {
    let mut req = request(Method::Get, &["x"]);
    assert!(!accepts_html(&req));
    req.headers = fields(&[("Accept", "text/html,application/xhtml+xml;q=0.9")]);
    assert!(accepts_html(&req));
    req.headers = fields(&[("Accept", "application/json")]);
    assert!(!accepts_html(&req));
    req.headers = fields(&[("accept", "text/html")]);
    assert!(!accepts_html(&req));
    req.headers = fields(&[("Accept", "TEXT/HTML")]);
    assert!(!accepts_html(&req));
}

#[test]
fn the_preview_answers_for_short_codes() {
    let mut db = storage();
    db.store_shortened("https://example.com", "taken", 1).unwrap();
    let mut req = request(Method::Get, &["free"]);
    req.params = fields(&[("short", "abc")]);
    let r = free_check(&req, &db).unwrap();
    assert_eq!(r.code, ResponseCode::Okay);
    assert!(r.body.is_empty());
    for bad in ["taken", "ab", "create", "a b"] {
        req.params = fields(&[("short", bad)]);
        let r = free_check(&req, &db).unwrap();
        assert_eq!(r.code, ResponseCode::NotAcceptable, "{}", bad);
        assert!(r.body.is_empty());
    }
    req.params = Fields::new();
    let r = free_check(&req, &db).unwrap();
    assert_eq!(r.code, ResponseCode::NotAcceptable);
    assert!(r.body.is_empty());
    assert_eq!(db.len(), 1);
}

#[test]
fn the_preview_answers_for_long_urls() {
    let db = storage();
    let mut req = request(Method::Get, &["free"]);
    req.params = fields(&[("long", "example.com")]);
    let r = free_check(&req, &db).unwrap();
    assert_eq!(r.code, ResponseCode::Okay);
    assert!(r.body.is_empty());
    req.params = fields(&[("long", "<>")]);
    let r = free_check(&req, &db).unwrap();
    assert_eq!(r.code, ResponseCode::NotAcceptable);
    assert_eq!(r.body.get_content_type(), "text/plain");
    assert_eq!(r.body.get_bytes(), b"This is no valid url to store.");
    req.params = fields(&[("short", "ab"), ("long", "example.com")]);
    assert_eq!(free_check(&req, &db).unwrap().code, ResponseCode::Okay);
    req.params = fields(&[("short", "abc"), ("long", "<>")]);
    assert_eq!(free_check(&req, &db).unwrap().code, ResponseCode::NotAcceptable);
}

#[test]
fn static_paths_stay_below_the_root() {
    let req = request(Method::Get, &["static", "css", "main.css"]);
    assert_eq!(static_content(&req).unwrap(), "./page/dist/css/main.css");
    let req = request(Method::Get, &["static", "index.html"]);
    assert_eq!(static_content(&req).unwrap(), "./page/dist/index.html");
    let req = request(Method::Get, &["static"]);
    assert_eq!(static_content(&req).unwrap(), "./page/dist/");
    let req = request(Method::Get, &[]);
    assert_eq!(static_content(&req).unwrap(), "./page/dist/");
    let req = request(Method::Get, &["static", "a", "", "b"]);
    assert_eq!(static_content(&req).unwrap(), "./page/dist/a//b");
}

#[test]
fn static_paths_with_two_dots_are_not_found() {
    for url in [vec!["static", ".."], vec!["static", "..", "secret"], vec!["static", "a..b"], vec!["static", "a", "...", "b"]] {
        let req = request(Method::Get, &url);
        assert!(matches!(static_content(&req), Err(HandlerError::E404)), "{:?}", url);
    }
    let req = request(Method::Get, &["static", ".", "."]);
    assert!(static_content(&req).is_ok());
    let req = request(Method::Get, &["..", "a"]);
    assert_eq!(static_content(&req).unwrap(), "./page/dist/a");
}

#[test]
fn files_are_told_apart_by_extension() {
    assert_eq!(file_kind("./page/dist/index.html"), FileKind::Html);
    assert_eq!(file_kind("./page/dist/INDEX.HTML"), FileKind::Html);
    assert_eq!(file_kind("./page/dist/css/main.css"), FileKind::Css);
    assert_eq!(file_kind("./page/dist/app.min.js"), FileKind::Js);
    assert_eq!(file_kind("a.Js"), FileKind::Js);
    assert_eq!(file_kind("./page/dist/logo.png"), FileKind::Other);
    assert_eq!(file_kind("./page/dist/html"), FileKind::Other);
    assert_eq!(file_kind("./page/dist/.html"), FileKind::Other);
    assert_eq!(file_kind("./page.html/readme"), FileKind::Other);
    assert_eq!(file_kind("./page/dist/a."), FileKind::Other);
    assert_eq!(file_kind("./page/dist/..js"), FileKind::Js);
    assert_eq!(file_kind(""), FileKind::Other);
    assert_eq!(file_kind("a.htm"), FileKind::Other);
    for p in ["a.html", "b/.css", "c.d/e.js", "x.tar.gz", "noext", ".hidden", "a.", "dir.css/file"] {
        let ext = std::path::Path::new(p).extension().map(|e| e.to_str().unwrap().to_ascii_lowercase());
        let expected = match ext.as_deref() {
            Some("html") => FileKind::Html,
            Some("css") => FileKind::Css,
            Some("js") => FileKind::Js,
            _ => FileKind::Other,
        };
        assert_eq!(file_kind(p), expected, "{}", p);
    }
}

#[test]
fn files_become_bodies() {
    let r = text_file(FileKind::Html, "<p>".to_string());
    assert_eq!(r.code, ResponseCode::Okay);
    assert_eq!(r.body.get_content_type(), "text/html;charset=UTF-8");
    assert_eq!(r.body.get_bytes(), b"<p>");
    assert_eq!(text_file(FileKind::Css, "a{}".to_string()).body.get_content_type(), "text/css;charset=UTF-8");
    assert_eq!(text_file(FileKind::Js, "x".to_string()).body.get_content_type(), "text/javascript;charset=UTF-8");
    let r = text_file(FileKind::Other, "ü".to_string());
    assert_eq!(r.body.get_content_type(), "text/plain");
    assert_eq!(r.body.get_bytes(), "ü".as_bytes());
    let r = plain_file(vec![0, 1, 255]);
    assert_eq!(r.code, ResponseCode::Okay);
    assert_eq!(r.body.get_content_type(), "text/plain");
    assert_eq!(r.body.get_bytes(), &[0, 1, 255]);
    assert!(!plain_file(vec![]).body.is_empty());
}
