//! Short codes and the handlers of the routes.

use crate::database::{holds, recent_count, reported, stored, Database, Table};
use crate::pattern::{is_match, matching};
use crate::random::random_below;
use crate::request::{Request, RequestBody, RequestView};
use crate::response::{BodyView, Response, ResponseBody, ResponseCode, ResponseView};
use crate::text::{
    chars_of, contains, contains_text, eq_ignore_ascii_case, eq_ignore_case, join, join_with,
    push_all, replace, replaced, starts_with, string_of, texts,
};
use vstd::prelude::*;
use vstd::string::StrSliceExecFns;

verus! {

/// The expression that a short code has to match as a whole: three or more
/// word characters, hyphens or underscores.
pub const SHORT_URL: &'static str = "^[\\w\\-_]{3,}$";

/// The expression that a long URL has to match somewhere: three characters
/// in a row, none of them an angle bracket.
pub const LONG_URL: &'static str = "[^<>]{3,}";

/// The number of tries that the search for a free code gets.
pub const ATTEMPTS: usize = 100;

/// The number of characters of a generated code.
pub const CODE_LENGTH: usize = 5;

/// The number of characters that a generated code is drawn from.
pub const ALPHABET: usize = 62;

/// The number of codes that one fingerprint may have stored inside the
/// window and still store another.
pub const QUOTA: u32 = 100;

/// `code` is one of the words that name a route, whatever the case of its
/// letters.
pub open spec fn reserved(code: Seq<char>) -> bool {
    ||| eq_ignore_case(code, "create"@)
    ||| eq_ignore_case(code, "free"@)
    ||| eq_ignore_case(code, "delete"@)
    ||| eq_ignore_case(code, "status"@)
    ||| eq_ignore_case(code, "config"@)
}

/// `code` has the form of a short code: three characters or more, all of
/// the allowed class, and no reserved word.
pub open spec fn well_formed(code: Seq<char>) -> bool {
    code.len() >= 3 && matching(SHORT_URL@, code) && !reserved(code)
}

/// `code` can be given out: it has the form of a short code and the storage
/// does not hold it.
pub open spec fn usable(code: Seq<char>, table: Table) -> bool {
    well_formed(code) && !holds(table, code)
}

/// Decides `reserved`.
pub fn is_reserved(code: &Vec<char>) -> (r: bool)
    ensures
        r == reserved(code@),
{
    eq_ignore_ascii_case(code, &chars_of("create")) || eq_ignore_ascii_case(
        code,
        &chars_of("free"),
    ) || eq_ignore_ascii_case(code, &chars_of("delete")) || eq_ignore_ascii_case(
        code,
        &chars_of("status"),
    ) || eq_ignore_ascii_case(code, &chars_of("config"))
}

/// Decides whether `short` has the form of a short code.
pub fn is_well_formed(short: &str) -> (r: bool)
    ensures
        r == well_formed(short@),
{
    let code = chars_of(short);
    if code.len() < 3 {
        return false;
    }
    if !is_match(SHORT_URL, short) {
        return false;
    }
    !is_reserved(&code)
}

/// Decides whether `short` can be given out: whether it is three characters
/// or more, all of the allowed class, no reserved word, and not held by the
/// storage.
pub fn validate_short_url<D: Database>(short: &str, db: &D) -> (r: bool)
    ensures
        r == usable(short@, db.table()),
{
    if !is_well_formed(short) {
        return false;
    }
    db.peek_long_url(short).is_err()
}

/// What the check of a long URL found.
#[derive(Debug, PartialEq, Eq, Structural, Clone, Copy)]
pub enum ValidationResult {
    Okay,
    NoUrl,
    InUse,
}

impl ValidationResult {
    /// Whether the check found nothing wrong.
    pub fn is_ok(&self) -> (r: bool)
        ensures
            r == (*self == ValidationResult::Okay),
    {
        match self {
            ValidationResult::Okay => true,
            _ => false,
        }
    }
}

/// `long` can be stored as a long URL: it takes three bytes or more and
/// matches `LONG_URL`.
pub open spec fn long_url_ok(long: Seq<char>) -> bool {
    vstd::utf8::encode_utf8(long).len() >= 3 && matching(LONG_URL@, long)
}

/// Checks a long URL.
pub fn validate_long_url(long: &str) -> (r: ValidationResult)
    ensures
        r == if long_url_ok(long@) {
            ValidationResult::Okay
        } else {
            ValidationResult::NoUrl
        },
{
    if long.as_bytes().len() < 3 || !is_match(LONG_URL, long) {
        return ValidationResult::NoUrl;
    }
    ValidationResult::Okay
}

/// `long` with a scheme: as it is where it opens with `https://` or
/// `http://`, and behind `https://` where it does not.
pub open spec fn with_scheme(long: Seq<char>) -> Seq<char> {
    if "https://"@.is_prefix_of(long) || "http://"@.is_prefix_of(long) {
        long
    } else {
        "https://"@ + long
    }
}

/// Computes `with_scheme`.
pub fn normalize_long_url(long: &str) -> (r: String)
    ensures
        r@ == with_scheme(long@),
{
    let chars = chars_of(long);
    if starts_with(&chars, &chars_of("https://")) || starts_with(&chars, &chars_of("http://")) {
        long.to_owned()
    } else {
        let mut out = "https://".to_owned();
        out.push_str(long);
        out
    }
}

/// The fingerprint that stands for a submitter: the lower half of the
/// digest of the address.
pub open spec fn owner_of(ip_hash: u64) -> u32 {
    (ip_hash % 0x1_0000_0000) as u32
}

/// Computes `owner_of`.
pub fn fingerprint(ip_hash: u64) -> (r: u32)
    ensures
        r == owner_of(ip_hash),
{
    (ip_hash % 0x1_0000_0000) as u32
}

/// The character at place `i` of the alphabet of generated codes: the small
/// letters, the capital letters, the digits.
pub open spec fn alphabet_at(i: int) -> char {
    if i < 26 {
        ('a' as int + i) as char
    } else if i < 52 {
        ('A' as int + i - 26) as char
    } else {
        ('0' as int + i - 52) as char
    }
}

/// `c` is a letter or a digit of ASCII.
pub open spec fn alphanumeric(c: char) -> bool {
    ('a' <= c && c <= 'z') || ('A' <= c && c <= 'Z') || ('0' <= c && c <= '9')
}

/// The code that a list of draws spells: each draw picks a character of the
/// alphabet, counted round.
pub open spec fn code_spelled(draws: Seq<usize>) -> Seq<char> {
    draws.map_values(|d: usize| alphabet_at((d % ALPHABET) as int))
}

/// Every character of the alphabet is a letter or a digit.
pub proof fn lemma_alphabet(i: int)
    requires
        0 <= i < ALPHABET,
    ensures
        alphanumeric(alphabet_at(i)),
{
}

fn alphabet_char(i: usize) -> (c: char)
    requires
        i < ALPHABET,
    ensures
        c == alphabet_at(i as int),
{
    let d: u8 = i as u8;
    if i < 26 {
        (97u8 + d) as char
    } else if i < 52 {
        (65u8 + d - 26) as char
    } else {
        (48u8 + d - 52) as char
    }
}

/// Spells the code of a list of draws.
pub fn code_of(draws: &Vec<usize>) -> (r: String)
    ensures
        r@ == code_spelled(draws@),
{
    let mut out: Vec<char> = Vec::new();
    let mut i: usize = 0;
    while i < draws.len()
        invariant
            i <= draws.len(),
            out@ == code_spelled(draws@.take(i as int)),
        decreases draws.len() - i,
    {
        out.push(alphabet_char(draws[i] % ALPHABET));
        assert(out@ =~= code_spelled(draws@.take(i + 1)));
        i += 1;
    }
    assert(draws@.take(draws.len() as int) =~= draws@);
    string_of(&out)
}

/// `code` looks like a generated code: five letters or digits.
pub open spec fn generated(code: Seq<char>) -> bool {
    code.len() == CODE_LENGTH && forall|i: int| 0 <= i < code.len() ==> alphanumeric(#[trigger] code[i])
}

/// Draws a code of five characters from the alphabet.
pub fn random_code() -> (r: String)
    ensures
        generated(r@),
{
    let mut draws: Vec<usize> = Vec::new();
    while draws.len() < CODE_LENGTH
        invariant
            draws.len() <= CODE_LENGTH,
            forall|i: int| 0 <= i < draws.len() ==> draws@[i] < ALPHABET,
        decreases CODE_LENGTH - draws.len(),
    {
        draws.push(random_below(ALPHABET));
    }
    let code = code_of(&draws);
    proof {
        assert forall|i: int| 0 <= i < code@.len() implies alphanumeric(#[trigger] code@[i]) by {
            lemma_alphabet(draws@[i] as int);
        }
    }
    code
}

/// `tried` are the first attempts of a search that has found nothing yet:
/// generated codes, none of which can be given out.
pub open spec fn all_refused(tried: Seq<Seq<char>>, table: Table) -> bool {
    forall|i: int|
        0 <= i < tried.len() ==> generated(#[trigger] tried[i]) && !usable(tried[i], table)
}

/// `tried` is a search that used up its tries: a hundred generated codes,
/// none of which can be given out.
pub open spec fn exhausted(tried: Seq<Seq<char>>, table: Table) -> bool {
    tried.len() == ATTEMPTS && all_refused(tried, table)
}

/// Looks for a code that can be given out: draws codes until one is usable,
/// a hundred times at most. What it gives is a generated code that can be
/// given out; it gives nothing only where a hundred codes were drawn and
/// none of them could.
pub fn gen_free_random_url<D: Database>(db: &D) -> (r: Option<String>)
    ensures
        match r {
            Some(code) => generated(code@) && usable(code@, db.table()),
            None => exists|tried: Seq<Seq<char>>| #[trigger] exhausted(tried, db.table()),
        },
{
    let mut attempt: usize = 0;
    let ghost mut tried: Seq<Seq<char>> = Seq::empty();
    while attempt < ATTEMPTS
        invariant
            attempt <= ATTEMPTS,
            tried.len() == attempt,
            all_refused(tried, db.table()),
        decreases ATTEMPTS - attempt,
    {
        let code = random_code();
        if validate_short_url(code.as_str(), db) {
            return Some(code);
        }
        proof {
            tried = tried.push(code@);
        }
        attempt += 1;
    }
    assert(exhausted(tried, db.table()));
    None
}

/// How a handler ends where it gives no response of its own.
#[derive(Debug)]
pub enum HandlerError {
    /// Nothing is found under the path.
    E404,
    /// The request is refused, with the reason in words.
    E400(String),
    /// A response that is sent as it is.
    Custom(Response),
    /// The server cannot go on with the request, with the reason in words.
    Fatal(String),
}

/// A handler's error as contracts see it.
pub enum HandlerErrorView {
    E404,
    E400(Seq<char>),
    Custom(ResponseView),
    Fatal(Seq<char>),
}

impl View for HandlerError {
    type V = HandlerErrorView;

    open spec fn view(&self) -> HandlerErrorView {
        match self {
            HandlerError::E404 => HandlerErrorView::E404,
            HandlerError::E400(message) => HandlerErrorView::E400(message@),
            HandlerError::Custom(response) => HandlerErrorView::Custom(response@),
            HandlerError::Fatal(message) => HandlerErrorView::Fatal(message@),
        }
    }
}

/// What a handler gave, as contracts see it.
pub open spec fn outcome_view(r: Result<Response, HandlerError>) -> Result<
    ResponseView,
    HandlerErrorView,
> {
    match r {
        Ok(response) => Ok(response@),
        Err(e) => Err(e@),
    }
}

/// What is said where a request carries no form, or a form without password
/// or long URL, or with a password or a long URL that is not accepted.
pub const NO_BODY: &'static str = "No body transmitted";

/// What is said where a fingerprint has used up its quota.
pub const OVER_QUOTA: &'static str =
    "You allready created 100 URLs in the last 7 days... Thats a lot!";

/// What is said where no free code was found.
pub const OUT_OF_CODES: &'static str = "Not enough free short urls!";

/// What is said where the wanted code is held already.
pub open spec fn taken_message(short: Seq<char>) -> Seq<char> {
    "Short URL "@ + short + " allready exists."@
}

/// What is said where the wanted code has not the form of a short code.
pub open spec fn malformed_message(short: Seq<char>) -> Seq<char> {
    "Short URL "@ + short + " is not valid."@
}

/// What becomes of a submission.
#[derive(Debug, PartialEq, Eq, Structural, Clone, Copy)]
pub enum Verdict {
    /// The code is held already.
    Taken,
    /// The code has not the form of a short code.
    Malformed,
    /// The submitter has stored too many codes of late.
    OverQuota,
    /// The code goes to the storage.
    Store,
}

/// The verdict on a submission whose code is held or not and has the form
/// of a short code or not, from a submitter who stored `count` codes inside
/// the window.
pub open spec fn verdict_of(taken: bool, formed: bool, count: u32) -> Verdict {
    if taken {
        Verdict::Taken
    } else if !formed {
        Verdict::Malformed
    } else if count > QUOTA {
        Verdict::OverQuota
    } else {
        Verdict::Store
    }
}

/// The verdict on the submission of `short` in the name of `owner` to a
/// storage that holds `table`.
pub open spec fn ruling(table: Table, short: Seq<char>, owner: u32) -> Verdict {
    verdict_of(
        holds(table, short),
        well_formed(short),
        reported(recent_count(table.rows, owner, table.now)),
    )
}

/// Decides on a submission: a code that is held is refused as taken; else
/// a code that has not the form of a short code is refused; else a
/// submitter with more than a hundred codes inside the window is refused;
/// else the code is stored.
pub fn verdict(taken: bool, formed: bool, count: u32) -> (r: Verdict)
    ensures
        r == verdict_of(taken, formed, count),
{
    if taken {
        Verdict::Taken
    } else if !formed {
        Verdict::Malformed
    } else if count > QUOTA {
        Verdict::OverQuota
    } else {
        Verdict::Store
    }
}

/// Why a submission was not stored.
#[derive(Debug)]
pub enum Refusal {
    /// The code is held already.
    Taken,
    /// The code has not the form of a short code.
    Malformed,
    /// The submitter has stored too many codes of late.
    OverQuota,
    /// The storage failed, with its message.
    Storage(String),
}

/// A refusal in words.
pub open spec fn refusal_text(refusal: Refusal, short: Seq<char>) -> Seq<char> {
    match refusal {
        Refusal::Taken => taken_message(short),
        Refusal::Malformed => malformed_message(short),
        Refusal::OverQuota => OVER_QUOTA@,
        Refusal::Storage(message) => message@,
    }
}

/// Puts a refusal in words.
pub fn refusal_message(refusal: Refusal, short: &str) -> (r: String)
    ensures
        r@ == refusal_text(refusal, short@),
{
    match refusal {
        Refusal::Taken => {
            let mut out = "Short URL ".to_owned();
            out.push_str(short);
            out.push_str(" allready exists.");
            out
        },
        Refusal::Malformed => {
            let mut out = "Short URL ".to_owned();
            out.push_str(short);
            out.push_str(" is not valid.");
            out
        },
        Refusal::OverQuota => OVER_QUOTA.to_owned(),
        Refusal::Storage(message) => message,
    }
}

/// A submission ended as its ruling has it: stored where the ruling is to
/// store, and refused for the ruling's reason where it is not.
pub open spec fn ruled(r: Result<(), Refusal>, ruling: Verdict) -> bool {
    match r {
        Ok(_) => ruling == Verdict::Store,
        Err(Refusal::Taken) => ruling == Verdict::Taken,
        Err(Refusal::Malformed) => ruling == Verdict::Malformed,
        Err(Refusal::OverQuota) => ruling == Verdict::OverQuota,
        Err(Refusal::Storage(_)) => false,
    }
}

/// Submits `short` for `long` in the name of `owner`: a code that is held is
/// refused as taken, a code that has not the form of a short code is
/// refused, a submitter over the quota is refused, and else the storage is
/// asked to store. Only a success changes the storage. With a dependable
/// storage the submission ends as its ruling has it; any other storage may
/// count nothing where it cannot count, and may fail to store.
pub fn submit<D: Database>(db: &mut D, long: &str, short: &str, owner: u32) -> (r: Result<
    (),
    Refusal,
>)
    ensures
        r matches Err(Refusal::Taken) <==> holds(old(db).table(), short@),
        r matches Err(Refusal::Malformed) <==> !holds(old(db).table(), short@) && !well_formed(
            short@,
        ),
        r matches Err(Refusal::OverQuota) ==> ruling(old(db).table(), short@, owner)
            == Verdict::OverQuota,
        r is Ok ==> well_formed(short@) && final(db).table() == stored(
            old(db).table(),
            long@,
            short@,
            owner,
        ),
        r is Err ==> final(db).table() == old(db).table(),
        old(db).dependable() ==> ruled(r, ruling(old(db).table(), short@, owner)),
        final(db).dependable() == old(db).dependable(),
{
    let taken = db.peek_long_url(short).is_ok();
    let formed = !taken && is_well_formed(short);
    let count = if formed {
        db.urls_stored_last_7_days(owner)
    } else {
        0
    };
    match verdict(taken, formed, count) {
        Verdict::Taken => Err(Refusal::Taken),
        Verdict::Malformed => Err(Refusal::Malformed),
        Verdict::OverQuota => Err(Refusal::OverQuota),
        Verdict::Store => match db.store_shortened(long, short, owner) {
            Ok(_) => Ok(()),
            Err(message) => Err(Refusal::Storage(message)),
        },
    }
}

/// What a form submits.
pub struct Submission {
    pub password: Seq<char>,
    /// The long URL, with a scheme.
    pub long: Seq<char>,
    /// The code that is wanted, if one is.
    pub short: Option<Seq<char>>,
}

/// What the form of a request submits: nothing for a request without form,
/// or whose form lacks the password or the long URL.
pub open spec fn submission_of(req: RequestView) -> Option<Submission> {
    match req.form {
        Some(form) => if form.contains_key("password"@) && form.contains_key("long-url"@) {
            Some(
                Submission {
                    password: form["password"@],
                    long: with_scheme(form["long-url"@]),
                    short: if form.contains_key("short-url"@) {
                        Some(form["short-url"@])
                    } else {
                        None
                    },
                },
            )
        } else {
            None
        },
        None => None,
    }
}

/// The request submits something, under a password that the storage
/// accepts, with a long URL that can be stored.
pub open spec fn admitted(req: RequestView, table: Table) -> bool {
    match submission_of(req) {
        Some(s) => table.passwords.contains(s.password) && long_url_ok(s.long),
        None => false,
    }
}

/// The page that confirms a stored code: the template with the short link
/// and the long URL filled in.
pub open spec fn created_page(
    template: Seq<char>,
    base_url: Seq<char>,
    short: Seq<char>,
    long: Seq<char>,
) -> Seq<char> {
    replace(replace(template, "{{short-url}}"@, base_url + "/"@ + short), "{{long-url}}"@, long)
}

/// A response of the given status that carries a page and no headers of
/// its own.
pub open spec fn page_view(code: ResponseCode, page: Seq<char>) -> ResponseView {
    ResponseView { code: code, headers: None, body: BodyView::Html(page) }
}

/// The submission of `short` for `long` ended as it may: stored, with the
/// page that confirms it, or refused, with the storage as it was.
pub open spec fn stored_or_refused(
    long: Seq<char>,
    short: Seq<char>,
    owner: u32,
    before: Table,
    after: Table,
    template: Seq<char>,
    base_url: Seq<char>,
    outcome: Result<ResponseView, HandlerErrorView>,
) -> bool {
    match outcome {
        Ok(page) => after == stored(before, long, short, owner) && page == page_view(
            ResponseCode::Okay,
            created_page(template, base_url, short, long),
        ),
        Err(HandlerErrorView::E400(_)) => after == before,
        _ => false,
    }
}

/// The submission of `short` for `long` ended as its ruling has it. A code
/// that is held, and a code that has not the form of a short code, are
/// refused with a message that names the code, and nothing is stored. With a
/// dependable storage a submitter over the quota is refused and any other
/// submission is stored and gets the page that confirms it; with any other
/// storage these two end one way or the other.
pub open spec fn code_settled(
    long: Seq<char>,
    short: Seq<char>,
    owner: u32,
    dependable: bool,
    before: Table,
    after: Table,
    template: Seq<char>,
    base_url: Seq<char>,
    outcome: Result<ResponseView, HandlerErrorView>,
) -> bool {
    match ruling(before, short, owner) {
        Verdict::Taken => outcome == Err::<ResponseView, _>(
            HandlerErrorView::E400(taken_message(short)),
        ) && after == before,
        Verdict::Malformed => outcome == Err::<ResponseView, _>(
            HandlerErrorView::E400(malformed_message(short)),
        ) && after == before,
        Verdict::OverQuota => if dependable {
            outcome == Err::<ResponseView, _>(HandlerErrorView::E400(OVER_QUOTA@)) && after
                == before
        } else {
            stored_or_refused(long, short, owner, before, after, template, base_url, outcome)
        },
        Verdict::Store => if dependable {
            outcome == Ok::<_, HandlerErrorView>(
                page_view(ResponseCode::Okay, created_page(template, base_url, short, long)),
            ) && after == stored(before, long, short, owner)
        } else {
            stored_or_refused(long, short, owner, before, after, template, base_url, outcome)
        },
    }
}

/// An admitted submission ended as it may. A wanted code is submitted.
/// Where no code is wanted, either a generated code that can be given out is
/// submitted, or a hundred generated codes were tried, none of which could
/// be given out, and the request ends for good with the storage as it was.
pub open spec fn create_settled(
    s: Submission,
    owner: u32,
    dependable: bool,
    before: Table,
    after: Table,
    template: Seq<char>,
    base_url: Seq<char>,
    outcome: Result<ResponseView, HandlerErrorView>,
) -> bool {
    match s.short {
        Some(short) => code_settled(
            s.long,
            short,
            owner,
            dependable,
            before,
            after,
            template,
            base_url,
            outcome,
        ),
        None => {
            ||| outcome == Err::<ResponseView, _>(HandlerErrorView::Fatal(OUT_OF_CODES@)) && after
                == before && (exists|tried: Seq<Seq<char>>| #[trigger] exhausted(tried, before))
            ||| exists|code: Seq<char>|
                #[trigger] generated(code) && usable(code, before) && code_settled(
                    s.long,
                    code,
                    owner,
                    dependable,
                    before,
                    after,
                    template,
                    base_url,
                    outcome,
                )
        },
    }
}

fn fill(template: &Vec<char>, pattern: &str, with: &Vec<char>) -> (r: Vec<char>)
    ensures
        r@ == replace(template@, pattern@, with@),
{
    replaced(template, &chars_of(pattern), with)
}

/// Renders the page that confirms a stored code.
pub fn created_response(template: &str, base_url: &str, short: &str, long: &str) -> (r: Response)
    ensures
        r@ == page_view(ResponseCode::Okay, created_page(template@, base_url@, short@, long@)),
{
    let mut link = chars_of(base_url);
    link.push('/');
    push_all(&mut link, &chars_of(short));
    assert(link@ =~= base_url@ + "/"@ + short@) by {
        reveal_strlit("/");
        assert("/"@ =~= seq!['/']);
    }
    let page = fill(&fill(&chars_of(template), "{{short-url}}", &link), "{{long-url}}", &chars_of(long));
    Response { code: ResponseCode::Okay, custom_headers: None, body: ResponseBody::Html(string_of(&page)) }
}

fn refuse(message: &str) -> (r: Result<Response, HandlerError>)
    ensures
        outcome_view(r) == Err::<ResponseView, _>(HandlerErrorView::E400(message@)),
{
    Err(HandlerError::E400(message.to_owned()))
}

/// Handles a submission. A request without form, without password or long
/// URL, with a password that is not accepted or a long URL that cannot be
/// stored is refused and changes nothing. Any other request submits the
/// long URL, with a scheme, under the wanted code or a generated one, and
/// gets the page made from `template` and `base_url` where that succeeds.
pub fn create_page<D: Database>(req: &Request, db: &mut D, template: &str, base_url: &str) -> (r:
    Result<Response, HandlerError>)
    ensures
        !admitted(req@, old(db).table()) ==> outcome_view(r) == Err::<ResponseView, _>(
            HandlerErrorView::E400(NO_BODY@),
        ) && final(db).table() == old(db).table(),
        admitted(req@, old(db).table()) ==> create_settled(
            submission_of(req@)->0,
            owner_of(req.ip_hash),
            old(db).dependable(),
            old(db).table(),
            final(db).table(),
            template@,
            base_url@,
            outcome_view(r),
        ),
        final(db).dependable() == old(db).dependable(),
{
    let form = match &req.body {
        Some(RequestBody::FormUrlEncoded(form)) => form,
        None => {
            return refuse(NO_BODY);
        },
    };
    let (password, long) = match (form.get("password"), form.get("long-url")) {
        (Some(password), Some(long)) => (password, normalize_long_url(long.as_str())),
        _ => {
            return refuse(NO_BODY);
        },
    };
    if !db.is_password(password.as_str()) || !validate_long_url(long.as_str()).is_ok() {
        return refuse(NO_BODY);
    }
    let owner = fingerprint(req.ip_hash);
    let short = match form.get("short-url") {
        Some(short) => short.clone(),
        None => match gen_free_random_url(db) {
            Some(code) => code,
            None => {
                return Err(HandlerError::Fatal(OUT_OF_CODES.to_owned()));
            },
        },
    };
    let r = match submit(db, long.as_str(), short.as_str(), owner) {
        Ok(_) => Ok(created_response(template, base_url, short.as_str(), long.as_str())),
        Err(refusal) => Err(HandlerError::E400(refusal_message(refusal, short.as_str()))),
    };
    assert(code_settled(
        long@,
        short@,
        owner,
        old(db).dependable(),
        old(db).table(),
        db.table(),
        template@,
        base_url@,
        outcome_view(r),
    ));
    r
}

/// Serves the home page.
pub fn home_page(page: String) -> (r: Result<Response, HandlerError>)
    ensures
        outcome_view(r) == Ok::<_, HandlerErrorView>(page_view(ResponseCode::Okay, page@)),
{
    Ok(Response { code: ResponseCode::Okay, custom_headers: None, body: ResponseBody::Html(page) })
}

/// Renders the page that tells a refusal: the template with the reason
/// filled in, under status 400.
pub fn send_gen_error_page(template: &str, error: &str) -> (r: Response)
    ensures
        r@ == page_view(ResponseCode::BadRequest, replace(template@, "{{error}}"@, error@)),
{
    let page = fill(&chars_of(template), "{{error}}", &chars_of(error));
    Response {
        code: ResponseCode::BadRequest,
        custom_headers: None,
        body: ResponseBody::Html(string_of(&page)),
    }
}

/// The client takes HTML: its `Accept` header holds `text/html`.
pub open spec fn wants_html(req: RequestView) -> bool {
    req.headers.contains_key("Accept"@) && contains_text(req.headers["Accept"@], "text/html"@)
}

/// Decides whether the client takes HTML.
pub fn accepts_html(req: &Request) -> (r: bool)
    ensures
        r == wants_html(req@),
{
    match req.headers.get("Accept") {
        Some(accept) => contains(&chars_of(accept.as_str()), &chars_of("text/html")),
        None => false,
    }
}

/// The answer that nothing was found: for a client that takes HTML the
/// template with the path filled in, for any other no body at all; status
/// 404 either way.
pub open spec fn not_found_view(req: RequestView, template: Seq<char>) -> ResponseView {
    if wants_html(req) {
        page_view(ResponseCode::NotFound, replace(template, "{{url}}"@, join(req.url, '/')))
    } else {
        ResponseView { code: ResponseCode::NotFound, headers: None, body: BodyView::Empty }
    }
}

/// A response of status 404 without body.
pub fn not_found_empty() -> (r: Response)
    ensures
        r@ == (ResponseView { code: ResponseCode::NotFound, headers: None, body: BodyView::Empty }),
{
    Response { code: ResponseCode::NotFound, custom_headers: None, body: ResponseBody::Empty }
}

/// Answers that nothing was found: with the page made from `template` for
/// a client that takes HTML, and without body for any other.
pub fn send_404_page(req: &Request, template: &str) -> (r: Response)
    ensures
        r@ == not_found_view(req@, template@),
{
    if !accepts_html(req) {
        return not_found_empty();
    }
    let path = join_with(&req.url, '/');
    let page = fill(&chars_of(template), "{{url}}", &chars_of(path.as_str()));
    Response {
        code: ResponseCode::NotFound,
        custom_headers: None,
        body: ResponseBody::Html(string_of(&page)),
    }
}

/// What is said of a long URL that cannot be stored.
pub const NO_VALID_URL: &'static str = "This is no valid url to store.";

/// The answer to a preview. A long URL in the query decides alone: one
/// that can be stored is accepted, any other is refused with a note. Without
/// one, a short code in the query is accepted where it can be given out. A
/// query with neither is refused.
pub open spec fn free_answer(req: RequestView, table: Table) -> ResponseView {
    if req.params.contains_key("long"@) {
        if long_url_ok(req.params["long"@]) {
            ResponseView { code: ResponseCode::Okay, headers: None, body: BodyView::Empty }
        } else {
            ResponseView {
                code: ResponseCode::NotAcceptable,
                headers: None,
                body: BodyView::Custom {
                    content_type: "text/plain"@,
                    data: vstd::utf8::encode_utf8(NO_VALID_URL@),
                },
            }
        }
    } else if req.params.contains_key("short"@) && usable(req.params["short"@], table) {
        ResponseView { code: ResponseCode::Okay, headers: None, body: BodyView::Empty }
    } else {
        ResponseView { code: ResponseCode::NotAcceptable, headers: None, body: BodyView::Empty }
    }
}

/// Answers a preview: whether a short code can be given out, or a long URL
/// stored. Nothing is stored.
pub fn free_check<D: Database>(req: &Request, db: &D) -> (r: Result<Response, HandlerError>)
    ensures
        outcome_view(r) == Ok::<_, HandlerErrorView>(free_answer(req@, db.table())),
{
    let mut code = ResponseCode::NotAcceptable;
    let mut body = ResponseBody::Empty;
    match req.params.get("short") {
        Some(short) => {
            if validate_short_url(short.as_str(), db) {
                code = ResponseCode::Okay;
            }
        },
        None => {},
    }
    match req.params.get("long") {
        Some(long) => match validate_long_url(long.as_str()) {
            ValidationResult::Okay => {
                code = ResponseCode::Okay;
                body = ResponseBody::Empty;
            },
            _ => {
                code = ResponseCode::NotAcceptable;
                body = ResponseBody::Custom {
                    content_type: "text/plain".to_owned(),
                    data: NO_VALID_URL.as_bytes_vec(),
                };
            },
        },
        None => {},
    }
    Ok(Response { code, custom_headers: None, body })
}

/// The directory that static files are served from.
pub const STATIC_ROOT: &'static str = "./page/dist/";

/// The segments of a path after its first.
pub open spec fn rest_of(url: Seq<Seq<char>>) -> Seq<Seq<char>> {
    if url.len() >= 1 {
        url.skip(1)
    } else {
        url
    }
}

/// The file that a static request asks for: the segments after the first,
/// joined by slashes, below the static root. Nothing for a path that holds
/// two dots in a row.
pub open spec fn static_file(req: RequestView) -> Option<Seq<char>> {
    let path = join(rest_of(req.url), '/');
    if contains_text(path, ".."@) {
        None
    } else {
        Some(STATIC_ROOT@ + path)
    }
}

/// Names the file that a static request asks for, and finds nothing for a
/// path that tries to leave the static root.
pub fn static_content(req: &Request) -> (r: Result<String, HandlerError>)
    ensures
        match r {
            Ok(path) => static_file(req@) == Some(path@),
            Err(e) => static_file(req@) is None && e@ == HandlerErrorView::E404,
        },
{
    let mut rest: Vec<String> = Vec::new();
    let mut i: usize = 1;
    assert(texts(rest@) =~= rest_of(texts(req.url@)).take(0));
    while i < req.url.len()
        invariant
            1 <= i,
            i <= req.url.len() || req.url.len() == 0,
            req.url.len() >= 1 ==> texts(rest@) == rest_of(texts(req.url@)).take(i - 1),
            req.url.len() == 0 ==> texts(rest@) == rest_of(texts(req.url@)),
        decreases req.url.len() - i,
    {
        let ghost before = texts(rest@);
        let segment = req.url[i].clone();
        rest.push(segment);
        assert(texts(rest@) =~= before.push(req.url@[i as int]@));
        assert(rest_of(texts(req.url@)).take(i as int) =~= rest_of(texts(req.url@)).take(i - 1).push(
            req.url@[i as int]@,
        ));
        i += 1;
    }
    assert(texts(rest@) =~= rest_of(texts(req.url@)));
    let path = join_with(&rest, '/');
    if contains(&chars_of(path.as_str()), &chars_of("..")) {
        return Err(HandlerError::E404);
    }
    let mut file = STATIC_ROOT.to_owned();
    file.push_str(path.as_str());
    Ok(file)
}

/// The kinds of files that are told apart by their names.
#[derive(Debug, PartialEq, Eq, Structural, Clone, Copy)]
pub enum FileKind {
    Html,
    Css,
    Js,
    Other,
}

/// The position after the last `c` in the first `upto` characters of `s`;
/// zero where there is none.
pub open spec fn after_last(s: Seq<char>, c: char, upto: int) -> int
    decreases upto,
{
    if upto <= 0 || upto > s.len() {
        0
    } else if s[upto - 1] == c {
        upto
    } else {
        after_last(s, c, upto - 1)
    }
}

/// The extension of the file that a path names: what follows the last dot
/// of the text after the last slash. A name without a dot has none, and
/// neither has a name whose only dot stands first.
pub open spec fn extension_of(path: Seq<char>) -> Option<Seq<char>> {
    let name = path.skip(after_last(path, '/', path.len() as int));
    let dot = after_last(name, '.', name.len() as int);
    if dot >= 2 {
        Some(name.skip(dot))
    } else {
        None
    }
}

/// The kind of the file that a path names, by its extension, whatever the
/// case of its letters.
pub open spec fn kind_of(path: Seq<char>) -> FileKind {
    match extension_of(path) {
        Some(ext) => if eq_ignore_case(ext, "html"@) {
            FileKind::Html
        } else if eq_ignore_case(ext, "css"@) {
            FileKind::Css
        } else if eq_ignore_case(ext, "js"@) {
            FileKind::Js
        } else {
            FileKind::Other
        },
        None => FileKind::Other,
    }
}

fn find_after_last(s: &Vec<char>, c: char) -> (r: usize)
    ensures
        r == after_last(s@, c, s@.len() as int),
        r <= s.len(),
{
    let mut upto: usize = s.len();
    while upto > 0 && s[upto - 1] != c
        invariant
            upto <= s.len(),
            after_last(s@, c, s@.len() as int) == after_last(s@, c, upto as int),
        decreases upto,
    {
        upto -= 1;
    }
    upto
}

/// Tells the kind of the file that a path names.
pub fn file_kind(path: &str) -> (r: FileKind)
    ensures
        r == kind_of(path@),
{
    let chars = chars_of(path);
    let start = find_after_last(&chars, '/');
    let name = crate::text::slice(&chars, start, chars.len());
    assert(name@ =~= chars@.skip(start as int));
    let dot = find_after_last(&name, '.');
    if dot < 2 {
        return FileKind::Other;
    }
    let ext = crate::text::slice(&name, dot, name.len());
    assert(ext@ =~= name@.skip(dot as int));
    if eq_ignore_ascii_case(&ext, &chars_of("html")) {
        FileKind::Html
    } else if eq_ignore_ascii_case(&ext, &chars_of("css")) {
        FileKind::Css
    } else if eq_ignore_ascii_case(&ext, &chars_of("js")) {
        FileKind::Js
    } else {
        FileKind::Other
    }
}

/// The body that serves a file which was read as text.
pub open spec fn text_body_of(kind: FileKind, text: Seq<char>) -> BodyView {
    match kind {
        FileKind::Html => BodyView::Html(text),
        FileKind::Css => BodyView::CSS(text),
        FileKind::Js => BodyView::JS(text),
        FileKind::Other => BodyView::Custom {
            content_type: "text/plain"@,
            data: vstd::utf8::encode_utf8(text),
        },
    }
}

/// Serves a file of a kind that is read as text.
pub fn text_file(kind: FileKind, text: String) -> (r: Response)
    ensures
        r@ == (ResponseView {
            code: ResponseCode::Okay,
            headers: None,
            body: text_body_of(kind, text@),
        }),
{
    let body = match kind {
        FileKind::Html => ResponseBody::Html(text),
        FileKind::Css => ResponseBody::CSS(text),
        FileKind::Js => ResponseBody::JS(text),
        FileKind::Other => ResponseBody::Custom {
            content_type: "text/plain".to_owned(),
            data: text.as_str().as_bytes_vec(),
        },
    };
    Response { code: ResponseCode::Okay, custom_headers: None, body }
}

/// Serves a file of any other kind, as plain text.
pub fn plain_file(data: Vec<u8>) -> (r: Response)
    ensures
        r@ == (ResponseView {
            code: ResponseCode::Okay,
            headers: None,
            body: BodyView::Custom { content_type: "text/plain"@, data: data@ },
        }),
{
    Response {
        code: ResponseCode::Okay,
        custom_headers: None,
        body: ResponseBody::Custom { content_type: "text/plain".to_owned(), data },
    }
}

} // verus!
