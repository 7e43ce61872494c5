//! The routes: which handler a request goes to, the redirect of a short
//! code, and what is done with what a handler gave.

use crate::database::{forwarded, peeked, Database};
use crate::fields::{put, Fields};
use crate::handler::{accepts_html, not_found_empty, wants_html, HandlerError, HandlerErrorView};
use crate::request::{Method, Request, RequestView};
use crate::response::{BodyView, Response, ResponseBody, ResponseCode, ResponseView};
use crate::text::{chars_of, eq_ignore_ascii_case, eq_ignore_case};
use vstd::prelude::*;

verus! {

/// Where a request goes.
#[derive(Debug, PartialEq, Eq, Structural, Clone, Copy)]
pub enum Route {
    /// The home page.
    Home,
    /// A submission.
    Create,
    /// A preview.
    FreeCheck,
    /// A static file.
    Static,
    /// The redirect of a short code.
    ShortCode,
    /// Nowhere.
    NotFound,
}

/// The request asks for the home page: `GET` on the empty path.
pub open spec fn is_home(req: RequestView) -> bool {
    req.url.len() == 0 && req.method == Method::Get
}

/// The path has one segment, which is `word` whatever the case of its
/// letters.
pub open spec fn is_word(req: RequestView, word: Seq<char>) -> bool {
    req.url.len() == 1 && eq_ignore_case(req.url[0], word)
}

/// The request asks for a static file: its path has more than one segment,
/// the first of which is `static` whatever the case of its letters.
pub open spec fn is_static(req: RequestView) -> bool {
    req.url.len() > 1 && eq_ignore_case(req.url[0], "static"@)
}

/// Where a request goes: the routes are tried in their order and the first
/// that fits wins. A path of one segment that fits none of them is taken
/// for a short code, and any other path goes nowhere.
pub open spec fn route_of(req: RequestView) -> Route {
    if is_home(req) {
        Route::Home
    } else if is_word(req, "create"@) {
        Route::Create
    } else if is_word(req, "free"@) {
        Route::FreeCheck
    } else if is_static(req) {
        Route::Static
    } else if req.url.len() == 1 {
        Route::ShortCode
    } else {
        Route::NotFound
    }
}

fn first_is(req: &Request, word: &str) -> (r: bool)
    requires
        req.url.len() >= 1,
    ensures
        r == eq_ignore_case(req@.url[0], word@),
{
    eq_ignore_ascii_case(&chars_of(req.url[0].as_str()), &chars_of(word))
}

/// Finds the route of a request.
pub fn route(req: &Request) -> (r: Route)
    ensures
        r == route_of(req@),
{
    let segments = req.url.len();
    if segments == 0 {
        match req.method {
            Method::Get => Route::Home,
            Method::Post => Route::NotFound,
        }
    } else if segments == 1 {
        if first_is(req, "create") {
            Route::Create
        } else if first_is(req, "free") {
            Route::FreeCheck
        } else {
            Route::ShortCode
        }
    } else if first_is(req, "static") {
        Route::Static
    } else {
        Route::NotFound
    }
}

/// The headers of a redirect to `long`: where to go, and that the answer
/// is not to be kept, so that every visit is counted.
pub open spec fn redirect_headers(long: Seq<char>) -> Seq<(Seq<char>, Seq<char>)> {
    seq![("Location"@, long), ("Cache-Control"@, "no-cache"@)]
}

/// The redirect to `long`.
pub open spec fn redirect_view(long: Seq<char>) -> ResponseView {
    ResponseView {
        code: ResponseCode::MovedPermanently,
        headers: Some(redirect_headers(long)),
        body: BodyView::Empty,
    }
}

/// Makes the redirect to `long`.
pub fn redirect_to(long: String) -> (r: Response)
    ensures
        r@ == redirect_view(long@),
{
    let mut headers = Fields::new();
    headers.insert("Location".to_owned(), long);
    headers.insert("Cache-Control".to_owned(), "no-cache".to_owned());
    proof {
        reveal_strlit("Location");
        reveal_strlit("Cache-Control");
        let first = seq![("Location"@, long@)];
        assert(put(Seq::<(Seq<char>, Seq<char>)>::empty(), "Location"@, long@) =~= first);
        assert("Location"@.len() != "Cache-Control"@.len());
        assert(crate::fields::key_index(first, "Cache-Control"@, 1) == 1);
        assert(crate::fields::key_index(first, "Cache-Control"@, 0) == 1);
        assert(put(first, "Cache-Control"@, "no-cache"@) =~= redirect_headers(long@));
    }
    Response {
        code: ResponseCode::MovedPermanently,
        custom_headers: Some(headers),
        body: ResponseBody::Empty,
    }
}

/// Follows the path of a request as a short code. A path of one segment
/// whose code the storage holds gives the redirect to its long URL and
/// counts one redirect more; any other path finds nothing and changes
/// nothing.
pub fn follow<D: Database>(req: &Request, db: &mut D) -> (r: Result<Response, HandlerError>)
    ensures
        match r {
            Ok(response) => req@.url.len() == 1 && final(db).table() == forwarded(
                old(db).table(),
                req@.url[0],
            ) && (peeked(old(db).table(), req@.url[0]) matches Some(long) && response@
                == redirect_view(long)),
            Err(e) => e@ == HandlerErrorView::E404 && final(db).table() == old(db).table() && (
            req@.url.len() == 1 ==> peeked(old(db).table(), req@.url[0]) is None),
        },
{
    if req.url.len() != 1 {
        return Err(HandlerError::E404);
    }
    match db.forward(req.url[0].as_str()) {
        Ok(long) => Ok(redirect_to(long)),
        Err(_) => Err(HandlerError::E404),
    }
}

/// What is to be done with what a handler gave.
#[derive(Debug)]
pub enum Step {
    /// Send this response.
    Send(Response),
    /// Load the page for refusals, fill in this reason, and send it.
    RenderError(String),
    /// Load the page for what is not found, fill in the path, and send it.
    RenderNotFound,
    /// Give up the request for good, with this reason.
    Abort(String),
}

/// A step as contracts see it.
pub enum StepView {
    Send(ResponseView),
    RenderError(Seq<char>),
    RenderNotFound,
    Abort(Seq<char>),
}

impl View for Step {
    type V = StepView;

    open spec fn view(&self) -> StepView {
        match self {
            Step::Send(response) => StepView::Send(response@),
            Step::RenderError(message) => StepView::RenderError(message@),
            Step::RenderNotFound => StepView::RenderNotFound,
            Step::Abort(message) => StepView::Abort(message@),
        }
    }
}

/// What is to be done with what a handler gave: a response is sent, a
/// refusal is rendered, and what was not found is rendered for a client
/// that takes HTML and answered with an empty 404 for any other.
pub open spec fn step_for(outcome: Result<ResponseView, HandlerErrorView>, req: RequestView) -> StepView {
    match outcome {
        Ok(response) => StepView::Send(response),
        Err(HandlerErrorView::E400(message)) => StepView::RenderError(message),
        Err(HandlerErrorView::E404) => if wants_html(req) {
            StepView::RenderNotFound
        } else {
            StepView::Send(
                ResponseView { code: ResponseCode::NotFound, headers: None, body: BodyView::Empty },
            )
        },
        Err(HandlerErrorView::Custom(response)) => StepView::Send(response),
        Err(HandlerErrorView::Fatal(message)) => StepView::Abort(message),
    }
}

/// Decides what is to be done with what a handler gave.
pub fn settle(outcome: Result<Response, HandlerError>, req: &Request) -> (r: Step)
    ensures
        r@ == step_for(crate::handler::outcome_view(outcome), req@),
{
    match outcome {
        Ok(response) => Step::Send(response),
        Err(HandlerError::E400(message)) => Step::RenderError(message),
        Err(HandlerError::E404) => if accepts_html(req) {
            Step::RenderNotFound
        } else {
            Step::Send(not_found_empty())
        },
        Err(HandlerError::Custom(response)) => Step::Send(response),
        Err(HandlerError::Fatal(message)) => Step::Abort(message),
    }
}

} // verus!
