//! Replies: what a handler hands back for the HTTP layer to send.

use vstd::prelude::*;
use crate::templates::{text_of, Page, PageView};

verus! {

/// The status of a reply that is no redirect.
#[derive(Clone, Copy, Debug, PartialEq, Eq, Structural)]
pub enum Status {
    Success,
    BadRequest,
    Unauthorized,
    NotFound,
    PayloadTooLarge,
    InternalServerError,
}

impl Status {
    /// The number of the status.
    pub open spec fn number(&self) -> u16 {
        match self {
            Status::Success => 200,
            Status::BadRequest => 400,
            Status::Unauthorized => 401,
            Status::NotFound => 404,
            Status::PayloadTooLarge => 413,
            Status::InternalServerError => 500,
        }
    }

    /// The number of the status.
    pub fn code(&self) -> (n: u16)
        ensures
            n == self.number(),
    {
        match self {
            Status::Success => 200,
            Status::BadRequest => 400,
            Status::Unauthorized => 401,
            Status::NotFound => 404,
            Status::PayloadTooLarge => 413,
            Status::InternalServerError => 500,
        }
    }
}

/// How a redirect is announced.
#[derive(Clone, Copy, Debug, PartialEq, Eq, Structural)]
pub enum RedirectKind {
    /// For good: the client may remember it.
    Permanent,
    /// To the page that shows the result of a request.
    SeeOther,
}

/// The body of a reply of the programming interface.
#[derive(Debug)]
pub struct ApiBody {
    pub success: bool,
    pub short_url: Option<String>,
    pub qr_code_data: Option<String>,
    pub error: Option<String>,
}

/// A body of the programming interface as contracts see it.
pub struct ApiBodyView {
    pub success: bool,
    pub short_url: Option<Seq<char>>,
    pub qr_code_data: Option<Seq<char>>,
    pub error: Option<Seq<char>>,
}

impl View for ApiBody {
    type V = ApiBodyView;

    open spec fn view(&self) -> ApiBodyView {
        ApiBodyView {
            success: self.success,
            short_url: text_of(self.short_url),
            qr_code_data: text_of(self.qr_code_data),
            error: text_of(self.error),
        }
    }
}

/// What a handler hands back.
#[derive(Debug)]
pub enum Reply {
    /// A text, sent as it is.
    Text { status: Status, body: String },
    /// Markup, sent as it is.
    Html { status: Status, body: String },
    /// A page, to be rendered from its template.
    Page(Page),
    /// A body of the programming interface, to be sent as JSON.
    Json { status: Status, data: ApiBody },
    /// A redirect, with the cookie to set where there is one.
    Redirect { kind: RedirectKind, to: String, cookie: Option<String> },
}

/// A reply as contracts see it.
pub enum ReplyView {
    Text { status: Status, body: Seq<char> },
    Html { status: Status, body: Seq<char> },
    Page(PageView),
    Json { status: Status, data: ApiBodyView },
    Redirect { kind: RedirectKind, to: Seq<char>, cookie: Option<Seq<char>> },
}

impl View for Reply {
    type V = ReplyView;

    open spec fn view(&self) -> ReplyView {
        match self {
            Reply::Text { status, body } => ReplyView::Text { status: *status, body: body@ },
            Reply::Html { status, body } => ReplyView::Html { status: *status, body: body@ },
            Reply::Page(page) => ReplyView::Page(page@),
            Reply::Json { status, data } => ReplyView::Json { status: *status, data: data@ },
            Reply::Redirect { kind, to, cookie } => ReplyView::Redirect {
                kind: *kind,
                to: to@,
                cookie: text_of(*cookie),
            },
        }
    }
}

/// A text reply.
pub fn text(status: Status, body: &str) -> (r: Reply)
    ensures
        r@ == (ReplyView::Text { status, body: body@ }),
{
    Reply::Text { status, body: String::from_str(body) }
}

/// A redirect that sets no cookie.
pub fn redirect(kind: RedirectKind, to: &str) -> (r: Reply)
    ensures
        r@ == (ReplyView::Redirect { kind, to: to@, cookie: None }),
{
    Reply::Redirect { kind, to: String::from_str(to), cookie: None }
}

/// A failure of the programming interface.
pub fn api_error(status: Status, message: &str) -> (r: Reply)
    ensures
        r@ == (ReplyView::Json {
            status,
            data: ApiBodyView {
                success: false,
                short_url: None,
                qr_code_data: None,
                error: Some(message@),
            },
        }),
{
    Reply::Json {
        status,
        data: ApiBody {
            success: false,
            short_url: None,
            qr_code_data: None,
            error: Some(String::from_str(message)),
        },
    }
}

} // verus!
