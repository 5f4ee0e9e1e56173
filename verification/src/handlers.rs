//! The handlers of the service, as functions from the registry and the
//! plain values of a request to a reply.
//!
//! A handler does no input or output. The caller reads the request, moves
//! the bytes of an upload as the upload pipeline decides, and sends the
//! reply.

use vstd::prelude::*;
use crate::auth::{
    account_after_login, login_succeeds, with_session, without_session, AdminAuth, AuthError,
    SALT_LENGTH, TOKEN_LENGTH,
};
use crate::fault::Fault;
use crate::entry::{kind_text, value_text, views, Entry, EntryKind, EntryView};
use crate::files::{extension, path_extension};
use crate::ids::{is_code, is_token};
use crate::links::{absolute, ensure_absolute, is_http, is_http_url, short_link, short_link_of};
use crate::mime::{media_type, media_type_of};
use crate::qr::{data_url, data_url_of, qr_code, qr_image, render_link, try_render};
use crate::registry::Registry;
use crate::reply::{
    api_error, redirect, text, ApiBody, ApiBodyView, RedirectKind, Reply, ReplyView, Status,
};
use crate::resolve::{resolution, resolve_entry, Action, Resolution};
use crate::store::{find, first_entries, has_code, with_entry, without_code, MappingStore};
use crate::submit::{follows_policy, link_problem, outcome_view, registered, SubmitError};
use crate::templates::{
    row_views, text_of, AdminHomeTemplate, AdminItem, AdminItemView, AdminItemsTemplate,
    AdminLoginTemplate, IndexTemplate, Page, PageView, ResultTemplate, ResultView,
};
use crate::text::{
    escape_quotes, from_chars, lowercase, lowered, push_all, push_str, quotes_escaped, same,
    same_str, to_chars, trim, trimmed,
};
use crate::upload::{Rejection, StoredFile};

verus! {

/// How many entries the administration lists.
pub const LIST_LIMIT: usize = 500;

/// The parameters of a request that names a code.
#[derive(Debug)]
pub struct CodeParams {
    pub code: String,
}

/// What the handlers are configured with.
#[derive(Debug)]
pub struct AppState {
    /// Where the registry is persisted.
    pub db_path: String,
    /// The public origin of the service, without a slash at its end.
    pub base_url: String,
}

/// A submitted link.
#[derive(Debug)]
pub struct LinkRequest {
    pub link: String,
    /// `on` where a QR image is asked for.
    pub qr: Option<String>,
}

/// The fields of the login form.
#[derive(Debug)]
pub struct AdminLoginForm {
    pub username: String,
    pub password: String,
}

/// A submission of a link or a file, with its fields read.
#[derive(Debug)]
pub struct Submission {
    /// The link, where the submission holds one.
    pub link: Option<String>,
    /// The file, where the submission holds one: stored, or refused.
    pub file: Option<Result<StoredFile, Rejection>>,
    /// Whether a QR image is asked for.
    pub qr: bool,
}

/// What a handler that takes a submission hands back.
#[derive(Debug)]
pub struct Submitted {
    pub reply: Reply,
    /// The code under which the submission was registered, where it was:
    /// the caller persists the entry of that code.
    pub code: Option<String>,
    /// A stored file that no entry names: the caller removes it.
    pub discard: Option<String>,
}

/// The stored file that is left without an entry where a submission with
/// the file `file` ends under `code`: the file that was stored, where no
/// code was handed out.
pub open spec fn orphan(file: Option<Result<StoredFile, Rejection>>, code: Option<String>)
    -> Option<Seq<char>> {
    match (file, code) {
        (Some(Ok(stored)), None) => Some(stored.generated_name@),
        _ => None,
    }
}

/// The stored file that is left without an entry.
fn orphan_of(file: &Option<Result<StoredFile, Rejection>>, code: &Option<String>) -> (r: Option<
    String,
>)
    ensures
        text_of(r) == orphan(*file, *code),
{
    match (file, code) {
        (Some(Ok(stored)), None) => Some(stored.generated_name.clone()),
        _ => None,
    }
}

/// What the login handler hands back.
#[derive(Debug)]
pub struct LoggedIn {
    pub reply: Reply,
    /// The token of the session that the login opened, where it succeeded.
    pub token: Option<String>,
}

/// What deleting an entry asks of the caller.
#[derive(Debug)]
pub struct Deletion {
    pub reply: Reply,
    /// The entry that left the store, where one did: the caller removes its
    /// row.
    pub entry: Option<Entry>,
    /// The stored file of the entry that was deleted, which the caller
    /// removes.
    pub file: Option<String>,
}

/// The outcome of a registration that a handler reports by `code`.
pub open spec fn reported(code: Option<String>) -> Result<Seq<char>, SubmitError> {
    match code {
        Some(c) => Ok(c@),
        None => Err(SubmitError::CodesExhausted),
    }
}

/// The code of an outcome, where it has one.
pub fn code_of(outcome: Result<String, SubmitError>) -> (code: Option<String>)
    ensures
        text_of(code) == match outcome {
            Ok(c) => Some(c@),
            Err(_) => None,
        },
{
    match outcome {
        Ok(c) => Some(c),
        Err(_) => None,
    }
}

impl AdminLoginForm {
    /// The form of a login request: both fields must be there.
    pub fn from_fields(username: Option<String>, password: Option<String>) -> (r: Result<
        AdminLoginForm,
        AuthError,
    >)
        ensures
            match r {
                Ok(form) => username == Some(form.username) && password == Some(form.password),
                Err(e) => e == AuthError::MissingCredentials && (username is None || password
                    is None),
            },
    {
        match (username, password) {
            (Some(username), Some(password)) => Ok(AdminLoginForm { username, password }),
            _ => Err(AuthError::MissingCredentials),
        }
    }
}

/// The text of a form field: trimmed, and `None` where nothing is left.
pub open spec fn field_text(text: Seq<char>) -> Option<Seq<char>> {
    if trimmed(text).len() == 0 {
        None
    } else {
        Some(trimmed(text))
    }
}

/// A field that asks for something says `true`, in letters of either case
/// and with white space around it or not.
pub open spec fn flag_set(text: Seq<char>) -> bool {
    lowered(trimmed(text)) == lowered("true"@)
}

/// The text of a form field: trimmed, and `None` where nothing is left.
pub fn link_field(text: &str) -> (r: Option<String>)
    ensures
        text_of(r) == field_text(text@),
{
    let t = trim(&to_chars(text));
    if t.len() == 0 {
        None
    } else {
        Some(from_chars(&t))
    }
}

/// Whether a field that asks for a QR image is set.
pub fn qr_flag(text: &str) -> (r: bool)
    ensures
        r == flag_set(text@),
{
    let t = lowercase(&trim(&to_chars(text)));
    let wanted = lowercase(&to_chars("true"));
    same(&t, &wanted)
}

/// The reply for a short code that could not be made.
pub open spec fn exhausted_reply() -> ReplyView {
    ReplyView::Text { status: Status::InternalServerError, body: "Failed to create short link"@ }
}

// ---------------------------------------------------------------------
// Links

/// The body that answers a submitted link.
pub open spec fn link_body(code: Seq<char>, short: Seq<char>, qr_svg: Seq<char>) -> Seq<char> {
    "{\"code\":\""@ + code + "\", \"short\":\""@ + short + "\", \"qr_svg\": \""@ + quotes_escaped(
        qr_svg,
    ) + "\"}"@
}

/// The QR image that goes with a short link: its image where one is asked
/// for, else nothing.
pub open spec fn wanted_qr(base: Seq<char>, short: Seq<char>, want: bool) -> Seq<char> {
    if want {
        qr_image(absolute(base, short))
    } else {
        Seq::empty()
    }
}

/// The reply to a submitted link, for each way its submission can end.
pub open spec fn link_reply(base: Seq<char>, want_qr: bool, outcome: Result<Seq<char>, SubmitError>)
    -> ReplyView {
    match outcome {
        Err(SubmitError::NoInput) => ReplyView::Text {
            status: Status::BadRequest,
            body: "No link provided"@,
        },
        Err(SubmitError::InvalidUrl) => ReplyView::Text {
            status: Status::BadRequest,
            body: "Invalid URL format. Must start with http:// or https://"@,
        },
        Err(SubmitError::CodesExhausted) => exhausted_reply(),
        Ok(code) => ReplyView::Text {
            status: Status::Success,
            body: link_body(
                code,
                short_link_of(base, code),
                wanted_qr(base, short_link_of(base, code), want_qr),
            ),
        },
    }
}

fn wanted_qr_image(base: &str, short: &str, want: bool) -> (svg: String)
    ensures
        svg@ == wanted_qr(base@, short@, want),
{
    if want {
        render_link(base, short)
    } else {
        String::new()
    }
}

/// The reply to a submitted link, once its submission has ended.
pub fn link_reply_for(state: &AppState, want_qr: bool, outcome: &Result<String, SubmitError>) -> (r:
    Reply)
    ensures
        r@ == link_reply(state.base_url@, want_qr, outcome_view(*outcome)),
{
    match outcome {
        Err(SubmitError::NoInput) => text(Status::BadRequest, "No link provided"),
        Err(SubmitError::InvalidUrl) => text(
            Status::BadRequest,
            "Invalid URL format. Must start with http:// or https://",
        ),
        Err(SubmitError::CodesExhausted) => text(
            Status::InternalServerError,
            "Failed to create short link",
        ),
        Ok(code) => {
            let short = short_link(state.base_url.as_str(), code.as_str());
            let qr_svg = wanted_qr_image(state.base_url.as_str(), short.as_str(), want_qr);
            let mut out = to_chars("{\"code\":\"");
            push_str(&mut out, code.as_str());
            push_str(&mut out, "\", \"short\":\"");
            push_str(&mut out, short.as_str());
            push_str(&mut out, "\", \"qr_svg\": \"");
            push_all(&mut out, &escape_quotes(&to_chars(qr_svg.as_str())));
            push_str(&mut out, "\"}");
            Reply::Text { status: Status::Success, body: from_chars(&out) }
        },
    }
}

/// Whether the request asks for a QR image: its field says `on`.
pub open spec fn asks_for_qr(qr: Option<String>) -> bool {
    text_of(qr) == Some("on"@)
}

/// Takes a submitted link: checks it, registers it under a fresh code, and
/// answers with the short link. A link that fails the check is answered
/// with what is wrong with it, and registers nothing.
pub fn link_handler(state: &AppState, store: &mut MappingStore, req: &LinkRequest, now: i64) -> (h:
    Submitted)
    requires
        old(store).wf(),
    ensures
        final(store).wf(),
        match h.code {
            Some(code) => link_problem(req.link@) is None && is_code(code@) && registered(
                old(store).items(),
                final(store).items(),
                Ok(code@),
                EntryKind::Url,
                req.link@,
                now as int,
            ) && h.reply@ == link_reply(state.base_url@, asks_for_qr(req.qr), Ok(code@)),
            None => final(store).items() == old(store).items() && h.reply@ == link_reply(
                state.base_url@,
                asks_for_qr(req.qr),
                Err(
                    match link_problem(req.link@) {
                        Some(e) => e,
                        None => SubmitError::CodesExhausted,
                    },
                ),
            ),
        },
        link_problem(req.link@) is None ==> follows_policy(old(store).items(), reported(h.code)),
        h.discard is None,
{
    let want_qr = match &req.qr {
        Some(q) => same_str(q.as_str(), "on"),
        None => false,
    };
    let outcome = store.submit_link(req.link.as_str(), now);
    let reply = link_reply_for(state, want_qr, &outcome);
    Submitted { reply, code: code_of(outcome), discard: None }
}

// ---------------------------------------------------------------------
// Uploads

/// The body that answers an upload.
pub open spec fn upload_body(code: Seq<char>, short: Seq<char>, file: Seq<char>, qr_svg: Seq<char>)
    -> Seq<char> {
    "{\"code\":\""@ + code + "\", \"short\":\""@ + short + "\", \"file\":\""@ + file
        + "\", \"qr_svg\": \""@ + quotes_escaped(qr_svg) + "\"}"@
}

/// The reply to an upload, for each way the upload and its registration
/// can end.
pub open spec fn upload_reply(
    base: Seq<char>,
    upload: Option<Result<StoredFile, Rejection>>,
    outcome: Result<Seq<char>, SubmitError>,
) -> ReplyView {
    match upload {
        None => ReplyView::Text { status: Status::BadRequest, body: "No file provided"@ },
        Some(Err(Rejection::ExtensionNotAllowed(ext))) => ReplyView::Text {
            status: Status::BadRequest,
            body: "File type '."@ + ext@ + "' not allowed"@,
        },
        Some(Err(Rejection::TooLarge)) => ReplyView::Text {
            status: Status::PayloadTooLarge,
            body: "File too large. Max size: 1024MB"@,
        },
        Some(Err(Rejection::Storage)) => ReplyView::Text {
            status: Status::InternalServerError,
            body: "Failed to save file"@,
        },
        Some(Ok(file)) => match outcome {
            Ok(code) => ReplyView::Text {
                status: Status::Success,
                body: upload_body(
                    code,
                    short_link_of(base, code),
                    file.generated_name@,
                    qr_image(absolute(base, short_link_of(base, code))),
                ),
            },
            Err(_) => exhausted_reply(),
        },
    }
}

/// An upload that was refused is answered by the fault: a fault of the
/// client with a status below 500, a fault of the server with 500.
pub proof fn lemma_refusal_status(
    base: Seq<char>,
    refusal: Rejection,
    outcome: Result<Seq<char>, SubmitError>,
)
    ensures
        upload_reply(base, Some(Err(refusal)), outcome) matches ReplyView::Text { status, .. }
            && (refusal.fault_of() == Fault::Client ==> 400 <= status.number() < 500) && (
        refusal.fault_of() == Fault::Server ==> status.number() == 500),
{
}

/// The reply to an upload, once the upload and its registration have ended.
pub fn upload_reply_for(
    state: &AppState,
    upload: &Option<Result<StoredFile, Rejection>>,
    outcome: &Result<String, SubmitError>,
) -> (r: Reply)
    ensures
        r@ == upload_reply(state.base_url@, *upload, outcome_view(*outcome)),
{
    match upload {
        None => text(Status::BadRequest, "No file provided"),
        Some(Err(Rejection::ExtensionNotAllowed(ext))) => {
            let mut out = to_chars("File type '.");
            push_str(&mut out, ext.as_str());
            push_str(&mut out, "' not allowed");
            Reply::Text { status: Status::BadRequest, body: from_chars(&out) }
        },
        Some(Err(Rejection::TooLarge)) => text(
            Status::PayloadTooLarge,
            "File too large. Max size: 1024MB",
        ),
        Some(Err(Rejection::Storage)) => text(Status::InternalServerError, "Failed to save file"),
        Some(Ok(file)) => match outcome {
            Err(_) => text(Status::InternalServerError, "Failed to create short link"),
            Ok(code) => {
                let short = short_link(state.base_url.as_str(), code.as_str());
                let qr_svg = render_link(state.base_url.as_str(), short.as_str());
                let mut out = to_chars("{\"code\":\"");
                push_str(&mut out, code.as_str());
                push_str(&mut out, "\", \"short\":\"");
                push_str(&mut out, short.as_str());
                push_str(&mut out, "\", \"file\":\"");
                push_str(&mut out, file.generated_name.as_str());
                push_str(&mut out, "\", \"qr_svg\": \"");
                push_all(&mut out, &escape_quotes(&to_chars(qr_svg.as_str())));
                push_str(&mut out, "\"}");
                Reply::Text { status: Status::Success, body: from_chars(&out) }
            },
        },
    }
}

/// Ends an upload: a file that was stored is registered under a fresh code
/// and answered with its short link and QR image; one that was refused is
/// answered with the reason. `upload` is `None` where the request held no
/// file. A file that was stored and could not be registered is handed back
/// for removal.
pub fn upload_handler(
    state: &AppState,
    store: &mut MappingStore,
    upload: &Option<Result<StoredFile, Rejection>>,
    now: i64,
) -> (h: Submitted)
    requires
        old(store).wf(),
    ensures
        final(store).wf(),
        h.reply@ == upload_reply(state.base_url@, *upload, reported(h.code)),
        match h.code {
            Some(code) => *upload matches Some(Ok(file)) && is_code(code@) && registered(
                old(store).items(),
                final(store).items(),
                Ok(code@),
                EntryKind::File,
                file.generated_name@,
                now as int,
            ),
            None => final(store).items() == old(store).items(),
        },
        *upload matches Some(Ok(_)) ==> follows_policy(old(store).items(), reported(h.code)),
        text_of(h.discard) == orphan(*upload, h.code),
{
    let outcome = match upload {
        Some(Ok(file)) => store.submit_file(file, now),
        _ => Err(SubmitError::CodesExhausted),
    };
    let reply = upload_reply_for(state, upload, &outcome);
    let code = code_of(outcome);
    let discard = orphan_of(upload, &code);
    Submitted { reply, code, discard }
}

// ---------------------------------------------------------------------
// The form on the start page

/// The start page.
pub fn index_handler() -> (r: Reply)
    ensures
        r@ == ReplyView::Page(PageView::Index),
{
    Reply::Page(Page::Index(IndexTemplate))
}

/// Where the result page of a code is found.
pub open spec fn result_location(code: Seq<char>, qr: bool) -> Seq<char> {
    "/r/"@ + code + "?qr="@ + if qr {
        "1"@
    } else {
        "0"@
    }
}

/// What a submission asks to register: the file where one was stored,
/// else the link where it names `http` or `https`, else nothing.
pub open spec fn registrable(form: Submission) -> Option<(EntryKind, Seq<char>)> {
    match form.file {
        Some(Ok(file)) => Some((EntryKind::File, file.generated_name@)),
        Some(Err(_)) => None,
        None => match form.link {
            Some(link) => if is_http_url(link@) {
                Some((EntryKind::Url, link@))
            } else {
                None
            },
            None => None,
        },
    }
}

/// What a handler does to the entries for a submission, where it reports
/// `code`: under a code, what the submission asked for is registered;
/// under none, nothing has changed. Where the submission asked for
/// something, the handler has kept to the retry policy.
pub open spec fn submission_effect(
    before: Seq<EntryView>,
    after: Seq<EntryView>,
    form: Submission,
    code: Option<String>,
    now: int,
) -> bool {
    &&& match code {
        Some(c) => match registrable(form) {
            Some((kind, value)) => is_code(c@) && registered(
                before,
                after,
                Ok(c@),
                kind,
                value,
                now,
            ),
            None => false,
        },
        None => after == before,
    }
    &&& registrable(form) is Some ==> follows_policy(before, reported(code))
}

/// The reply to a submission through the form, for each way it can end.
pub open spec fn submit_reply(form: Submission, outcome: Result<Seq<char>, SubmitError>)
    -> ReplyView {
    let done = match outcome {
        Ok(code) => ReplyView::Redirect {
            kind: RedirectKind::SeeOther,
            to: result_location(code, form.qr),
            cookie: None,
        },
        Err(_) => exhausted_reply(),
    };
    match form.file {
        Some(Err(Rejection::ExtensionNotAllowed(_))) => ReplyView::Text {
            status: Status::BadRequest,
            body: "File type not allowed"@,
        },
        Some(Err(Rejection::TooLarge)) => ReplyView::Text {
            status: Status::PayloadTooLarge,
            body: "File too large"@,
        },
        Some(Err(Rejection::Storage)) => ReplyView::Text {
            status: Status::InternalServerError,
            body: "Failed to save file"@,
        },
        Some(Ok(_)) => done,
        None => match form.link {
            Some(link) => if is_http_url(link@) {
                done
            } else {
                ReplyView::Text { status: Status::BadRequest, body: "Invalid URL format"@ }
            },
            None => ReplyView::Text { status: Status::BadRequest, body: "Provide a URL or a file"@ },
        },
    }
}

fn result_redirect(qr: bool, outcome: &Result<String, SubmitError>) -> (r: Reply)
    ensures
        r@ == match outcome_view(*outcome) {
            Ok(code) => ReplyView::Redirect {
                kind: RedirectKind::SeeOther,
                to: result_location(code, qr),
                cookie: None,
            },
            Err(_) => exhausted_reply(),
        },
{
    match outcome {
        Err(_) => text(Status::InternalServerError, "Failed to create short link"),
        Ok(code) => {
            let mut out = to_chars("/r/");
            push_str(&mut out, code.as_str());
            push_str(&mut out, "?qr=");
            if qr {
                push_str(&mut out, "1");
            } else {
                push_str(&mut out, "0");
            }
            Reply::Redirect { kind: RedirectKind::SeeOther, to: from_chars(&out), cookie: None }
        },
    }
}

/// The reply to a submission through the form, once it has ended.
pub fn submit_reply_for(form: &Submission, outcome: &Result<String, SubmitError>) -> (r: Reply)
    ensures
        r@ == submit_reply(*form, outcome_view(*outcome)),
{
    match &form.file {
        Some(Err(Rejection::ExtensionNotAllowed(_))) => text(
            Status::BadRequest,
            "File type not allowed",
        ),
        Some(Err(Rejection::TooLarge)) => text(Status::PayloadTooLarge, "File too large"),
        Some(Err(Rejection::Storage)) => text(Status::InternalServerError, "Failed to save file"),
        Some(Ok(_)) => result_redirect(form.qr, outcome),
        None => match &form.link {
            Some(link) => if is_http(link.as_str()) {
                result_redirect(form.qr, outcome)
            } else {
                text(Status::BadRequest, "Invalid URL format")
            },
            None => text(Status::BadRequest, "Provide a URL or a file"),
        },
    }
}

fn register_submission(store: &mut MappingStore, form: &Submission, now: i64) -> (outcome: Result<
    String,
    SubmitError,
>)
    requires
        old(store).wf(),
    ensures
        final(store).wf(),
        submission_effect(
            old(store).items(),
            final(store).items(),
            *form,
            match outcome {
                Ok(code) => Some(code),
                Err(_) => None,
            },
            now as int,
        ),
{
    match &form.file {
        Some(Ok(file)) => store.submit_file(file, now),
        Some(Err(_)) => Err(SubmitError::NoInput),
        None => match &form.link {
            Some(link) => if is_http(link.as_str()) {
                store.register(EntryKind::Url, link.as_str(), now)
            } else {
                Err(SubmitError::InvalidUrl)
            },
            None => Err(SubmitError::NoInput),
        },
    }
}

/// Takes a submission through the form: a file before a link. What is
/// registered is answered with a redirect to its result page.
pub fn submit_handler(store: &mut MappingStore, form: &Submission, now: i64) -> (h: Submitted)
    requires
        old(store).wf(),
    ensures
        final(store).wf(),
        submission_effect(old(store).items(), final(store).items(), *form, h.code, now as int),
        h.reply@ == submit_reply(*form, reported(h.code)),
        text_of(h.discard) == orphan(form.file, h.code),
{
    let outcome = register_submission(store, form, now);
    let code = code_of(outcome);
    let reply = submit_reply_for(form, &reported_outcome(&code));
    let discard = orphan_of(&form.file, &code);
    Submitted { reply, code, discard }
}

/// The outcome that a handler reports by `code`.
fn reported_outcome(code: &Option<String>) -> (outcome: Result<String, SubmitError>)
    ensures
        outcome_view(outcome) == reported(*code),
{
    match code {
        Some(c) => Ok(c.clone()),
        None => Err(SubmitError::CodesExhausted),
    }
}

/// The QR image on a result page: there where it is asked for and was
/// made.
pub open spec fn shown_qr(base: Seq<char>, short: Seq<char>, show: bool) -> Option<Seq<char>> {
    if wanted_qr(base, short, show).len() == 0 {
        None
    } else {
        Some(wanted_qr(base, short, show))
    }
}

/// The reply to a request for the result page of `code`.
pub open spec fn result_reply(found: bool, base: Seq<char>, code: Seq<char>, show_qr: bool)
    -> ReplyView {
    if !found {
        ReplyView::Html { status: Status::NotFound, body: "<h1>Not found</h1>"@ }
    } else {
        ReplyView::Page(
            PageView::Result(
                ResultView {
                    code,
                    short_link: short_link_of(base, code),
                    qr_svg: shown_qr(base, short_link_of(base, code), show_qr),
                },
            ),
        )
    }
}

/// The result page of a code: its short link, and its QR image where the
/// request's `qr` says `1`. A code that no entry has is not found.
pub fn result_handler(state: &AppState, store: &MappingStore, code: &str, qr: Option<&str>) -> (r:
    Reply)
    requires
        store.wf(),
    ensures
        r@ == result_reply(
            has_code(store.items(), code@),
            state.base_url@,
            code@,
            match qr {
                Some(q) => q@ == "1"@,
                None => false,
            },
        ),
{
    if !store.contains(code) {
        return Reply::Html {
            status: Status::NotFound,
            body: String::from_str("<h1>Not found</h1>"),
        };
    }
    let show = match qr {
        Some(q) => same_str(q, "1"),
        None => false,
    };
    let short = short_link(state.base_url.as_str(), code);
    let svg = wanted_qr_image(state.base_url.as_str(), short.as_str(), show);
    let qr_svg = if svg.as_str().is_empty() {
        None
    } else {
        Some(svg)
    };
    Reply::Page(
        Page::Result(ResultTemplate { code: String::from_str(code), short_link: short, qr_svg }),
    )
}

// ---------------------------------------------------------------------
// Short links

/// The reply that carries out an action.
pub open spec fn action_reply(action: Resolution) -> ReplyView {
    match action {
        Resolution::RedirectPermanent(url) => ReplyView::Redirect {
            kind: RedirectKind::Permanent,
            to: url,
            cookie: None,
        },
        Resolution::RenderPreview(page) => ReplyView::Page(PageView::ImageOg(page)),
        Resolution::RenderFileInfo(page) => ReplyView::Page(PageView::FileInfo(page)),
        Resolution::NotFound => ReplyView::Text { status: Status::NotFound, body: "Not found"@ },
    }
}

/// The reply that carries out an action.
pub fn reply_to(action: Action) -> (r: Reply)
    ensures
        r@ == action_reply(action@),
{
    match action {
        Action::RedirectPermanent(url) => Reply::Redirect {
            kind: RedirectKind::Permanent,
            to: url,
            cookie: None,
        },
        Action::RenderPreview(page) => Reply::Page(Page::ImageOg(page)),
        Action::RenderFileInfo(page) => Reply::Page(Page::FileInfo(page)),
        Action::NotFound => text(Status::NotFound, "Not found"),
    }
}

/// The reply to a request for a short link. What is not found is told
/// apart: a code that stands for nothing, and a stored file that cannot be
/// shown.
pub open spec fn short_reply(entry: Option<EntryView>, accept: Seq<char>, base: Seq<char>)
    -> ReplyView {
    match resolution(entry, accept, base) {
        Resolution::NotFound => match entry {
            Some(_) => ReplyView::Text { status: Status::NotFound, body: "File not found"@ },
            None => ReplyView::Text { status: Status::NotFound, body: "Not found"@ },
        },
        action => action_reply(action),
    }
}

/// Answers a request for a short link.
pub fn short_handler(state: &AppState, store: &MappingStore, code: &str, accept: &str) -> (r: Reply)
    requires
        store.wf(),
    ensures
        r@ == short_reply(find(store.items(), code@), accept@, state.base_url@),
{
    let entry = store.get(code);
    match resolve_entry(entry, accept, state.base_url.as_str()) {
        Action::NotFound => match entry {
            Some(_) => text(Status::NotFound, "File not found"),
            None => text(Status::NotFound, "Not found"),
        },
        action => reply_to(action),
    }
}

// ---------------------------------------------------------------------
// Administration

/// The cookie that carries a session's token.
pub open spec fn session_cookie(token: Seq<char>) -> Seq<char> {
    "ping0_admin="@ + token + "; HttpOnly; SameSite=Lax; Path=/; Max-Age=2592000"@
}

/// The reply that sends a request without a session to the login form.
pub open spec fn to_login() -> ReplyView {
    ReplyView::Redirect { kind: RedirectKind::SeeOther, to: "/admin/login"@, cookie: None }
}

/// The reply to a login, for each way it can end.
pub open spec fn login_reply(outcome: Result<Seq<char>, AuthError>) -> ReplyView {
    match outcome {
        Ok(token) => ReplyView::Redirect {
            kind: RedirectKind::SeeOther,
            to: "/admin"@,
            cookie: Some(session_cookie(token)),
        },
        Err(AuthError::MissingCredentials) => ReplyView::Text {
            status: Status::BadRequest,
            body: "Missing credentials"@,
        },
        Err(_) => ReplyView::Text { status: Status::Unauthorized, body: "Invalid credentials"@ },
    }
}

/// The login form.
pub fn admin_login_get() -> (r: Reply)
    ensures
        r@ == ReplyView::Page(PageView::AdminLogin),
{
    Reply::Page(Page::AdminLogin(AdminLoginTemplate))
}

/// The reply to a login, once it has ended.
pub fn login_reply_for(outcome: &Result<String, AuthError>) -> (r: Reply)
    ensures
        r@ == login_reply(
            match *outcome {
                Ok(token) => Ok(token@),
                Err(e) => Err(e),
            },
        ),
{
    match outcome {
        Err(AuthError::MissingCredentials) => text(Status::BadRequest, "Missing credentials"),
        Err(_) => text(Status::Unauthorized, "Invalid credentials"),
        Ok(token) => {
            let mut out = to_chars("ping0_admin=");
            push_str(&mut out, token.as_str());
            push_str(&mut out, "; HttpOnly; SameSite=Lax; Path=/; Max-Age=2592000");
            Reply::Redirect {
                kind: RedirectKind::SeeOther,
                to: String::from_str("/admin"),
                cookie: Some(from_chars(&out)),
            }
        },
    }
}

/// A login. The first login makes the account; every later one succeeds
/// with the account's credentials only. A login that succeeds opens a
/// session and hands its token to the client as a cookie; one that fails
/// changes nothing.
pub fn admin_login_post(auth: &mut AdminAuth, form: &AdminLoginForm, now: i64) -> (h: LoggedIn)
    requires
        old(auth).wf(),
    ensures
        final(auth).wf(),
        h.token is Some <==> login_succeeds(old(auth).account(), form.username@, form.password@),
        match h.token {
            Some(token) => {
                &&& token@.len() == TOKEN_LENGTH
                &&& is_token(token@)
                &&& final(auth).is_authorized(token@)
                &&& final(auth).sessions() == with_session(
                    old(auth).sessions(),
                    token@,
                    now as int,
                )
                &&& h.reply@ == login_reply(Ok(token@))
                &&& exists|salt: Seq<char>|
                    salt.len() == SALT_LENGTH && is_token(salt) && final(auth).account()
                        == #[trigger] account_after_login(
                        old(auth).account(),
                        form.username@,
                        form.password@,
                        salt,
                    )
            },
            None => {
                &&& h.reply@ == login_reply(Err(AuthError::InvalidCredentials))
                &&& final(auth).account() == old(auth).account()
                &&& final(auth).sessions() == old(auth).sessions()
            },
        },
{
    let outcome = auth.login(form.username.as_str(), form.password.as_str(), now);
    let reply = login_reply_for(&outcome);
    let token = match outcome {
        Ok(t) => Some(t),
        Err(_) => None,
    };
    LoggedIn { reply, token }
}

/// A logout: the session of the token is closed, if it was open, every
/// other session stays open, and the client's cookie is cleared.
pub fn admin_logout(auth: &mut AdminAuth, token: Option<&str>) -> (r: Reply)
    requires
        old(auth).wf(),
    ensures
        final(auth).wf(),
        final(auth).account() == old(auth).account(),
        match token {
            Some(t) => final(auth).sessions() == without_session(old(auth).sessions(), t@)
                && !final(auth).is_authorized(t@),
            None => final(auth).sessions() == old(auth).sessions(),
        },
        r@ == (ReplyView::Redirect {
            kind: RedirectKind::SeeOther,
            to: "/admin/login"@,
            cookie: Some("ping0_admin=; Max-Age=0; Path=/"@),
        }),
{
    auth.logout(token);
    Reply::Redirect {
        kind: RedirectKind::SeeOther,
        to: String::from_str("/admin/login"),
        cookie: Some(String::from_str("ping0_admin=; Max-Age=0; Path=/")),
    }
}

/// Whether a request is the admin's: its token stands for an open session.
pub open spec fn is_admin(auth: AdminAuth, token: Option<&str>) -> bool {
    match token {
        Some(t) => auth.is_authorized(t@),
        None => false,
    }
}

/// The start page of the administration, for the admin only.
pub fn admin_home(auth: &AdminAuth, token: Option<&str>) -> (r: Reply)
    ensures
        r@ == if is_admin(*auth, token) {
            ReplyView::Page(PageView::AdminHome)
        } else {
            to_login()
        },
{
    if auth.check_session(token).is_err() {
        return redirect(RedirectKind::SeeOther, "/admin/login");
    }
    Reply::Page(Page::AdminHome(AdminHomeTemplate))
}

/// The media type that the list shows for an entry: that of a stored file
/// by its extension, none for an address.
pub open spec fn listed_mime(entry: EntryView) -> Option<Seq<char>> {
    match entry.kind {
        EntryKind::Url => None,
        EntryKind::File => match path_extension(entry.value) {
            Some(ext) => Some(media_type(ext)),
            None => None,
        },
    }
}

/// The row that the list shows for an entry.
pub open spec fn row_of(entry: EntryView) -> AdminItemView {
    AdminItemView {
        code: entry.code,
        kind: kind_text(entry.kind),
        value: value_text(entry.kind, entry.value),
        created_at: entry.created_at,
        mime: listed_mime(entry),
    }
}

/// The rows that the list shows for `entries`, in order.
pub open spec fn rows_of(entries: Seq<EntryView>) -> Seq<AdminItemView> {
    Seq::new(entries.len(), |i: int| row_of(entries[i]))
}

/// The row that the list shows for an entry.
pub fn admin_item(entry: &Entry) -> (row: AdminItem)
    ensures
        row@ == row_of(entry@),
{
    let mime = match entry.kind {
        EntryKind::Url => None,
        EntryKind::File => match extension(entry.value.as_str()) {
            Some(ext) => Some(media_type_of(ext.as_str())),
            None => None,
        },
    };
    AdminItem {
        code: entry.code.clone(),
        kind: String::from_str(entry.kind.as_text()),
        value: entry.persisted_value(),
        created_at: entry.created_at,
        mime,
    }
}

/// The list of the newest entries, for the admin only.
pub fn admin_items(registry: &Registry, token: Option<&str>) -> (r: Reply)
    requires
        registry.wf(),
    ensures
        r@ == if is_admin(registry.auth, token) {
            ReplyView::Page(
                PageView::AdminItems(
                    rows_of(first_entries(registry.store.items(), LIST_LIMIT as int)),
                ),
            )
        } else {
            to_login()
        },
{
    if registry.auth.check_session(token).is_err() {
        return redirect(RedirectKind::SeeOther, "/admin/login");
    }
    let entries = registry.store.list(LIST_LIMIT);
    let mut items: Vec<AdminItem> = Vec::new();
    let mut i: usize = 0;
    while i < entries.len()
        invariant
            i <= entries.len(),
            items.len() == i,
            forall|k: int| 0 <= k < i ==> (#[trigger] items@[k])@ == row_of(entries@[k]@),
        decreases entries.len() - i,
    {
        items.push(admin_item(&entries[i]));
        i = i + 1;
    }
    proof {
        assert(row_views(items@) =~= rows_of(views(entries@)));
    }
    Reply::Page(Page::AdminItems(AdminItemsTemplate { items }))
}

/// The stored file that goes with the entry of `code`, if that is a file.
pub open spec fn file_of(items: Seq<EntryView>, code: Seq<char>) -> Option<Seq<char>> {
    match find(items, code) {
        Some(e) => if e.kind == EntryKind::File {
            Some(e.value)
        } else {
            None
        },
        None => None,
    }
}

/// The reply to the admin's request to delete the entry of a code: back to
/// the list where an entry left the store, not found where none had the
/// code.
pub open spec fn deletion_reply(found: bool) -> ReplyView {
    if found {
        ReplyView::Redirect { kind: RedirectKind::SeeOther, to: "/admin/items"@, cookie: None }
    } else {
        ReplyView::Text { status: Status::NotFound, body: "Not found"@ }
    }
}

/// Deletes the entry of a code, for the admin only. The entry leaves the
/// store first; the file that it named is handed to the caller, who removes
/// it and reports with `cleanup_report` where that fails. A code that no
/// entry has is not found, and nothing changes.
pub fn admin_delete_item(registry: &mut Registry, params: &CodeParams, token: Option<&str>) -> (d:
    Deletion)
    requires
        old(registry).wf(),
    ensures
        final(registry).wf(),
        final(registry).auth == old(registry).auth,
        if is_admin(old(registry).auth, token) {
            &&& final(registry).store.items() == without_code(
                old(registry).store.items(),
                params.code@,
            )
            &&& match d.entry {
                Some(e) => find(old(registry).store.items(), params.code@) == Some(e@),
                None => !has_code(old(registry).store.items(), params.code@),
            }
            &&& text_of(d.file) == file_of(old(registry).store.items(), params.code@)
            &&& d.reply@ == deletion_reply(has_code(old(registry).store.items(), params.code@))
        } else {
            &&& final(registry).store.items() == old(registry).store.items()
            &&& d.entry is None
            &&& d.file is None
            &&& d.reply@ == to_login()
        },
{
    if registry.auth.check_session(token).is_err() {
        return Deletion {
            reply: redirect(RedirectKind::SeeOther, "/admin/login"),
            entry: None,
            file: None,
        };
    }
    let entry = match registry.store.delete(params.code.as_str()) {
        Ok(entry) => entry,
        Err(_) => {
            return Deletion { reply: text(Status::NotFound, "Not found"), entry: None, file: None };
        },
    };
    let file = match entry.kind {
        EntryKind::File => Some(entry.value.clone()),
        EntryKind::Url => None,
    };
    Deletion { reply: redirect(RedirectKind::SeeOther, "/admin/items"), entry: Some(entry), file }
}

/// What is reported of the file of a deleted entry: nothing where it was
/// removed, and else that the entry is gone and the file is not.
pub open spec fn cleanup_message(file: Seq<char>, removed: bool) -> Option<Seq<char>> {
    if removed {
        None
    } else {
        Some("Entry deleted, but its file could not be removed: "@ + file)
    }
}

/// The report on the file of a deleted entry.
pub fn cleanup_report(file: &str, removed: bool) -> (r: Option<String>)
    ensures
        text_of(r) == cleanup_message(file@, removed),
{
    if removed {
        None
    } else {
        let mut out = to_chars("Entry deleted, but its file could not be removed: ");
        push_str(&mut out, file);
        Some(from_chars(&out))
    }
}

/// What is reported of a stored file that no entry names: nothing where
/// it was removed, and else that it is left behind.
pub open spec fn discard_message(file: Seq<char>, removed: bool) -> Option<Seq<char>> {
    if removed {
        None
    } else {
        Some("Stored file has no entry and could not be removed: "@ + file)
    }
}

/// The report on a stored file that no entry names.
pub fn discard_report(file: &str, removed: bool) -> (r: Option<String>)
    ensures
        text_of(r) == discard_message(file@, removed),
{
    if removed {
        None
    } else {
        let mut out = to_chars("Stored file has no entry and could not be removed: ");
        push_str(&mut out, file);
        Some(from_chars(&out))
    }
}

// ---------------------------------------------------------------------
// The programming interface

/// The QR image of a short link as a `data:` address: there where it is
/// asked for and can be made.
pub open spec fn qr_data(base: Seq<char>, short: Seq<char>, want: bool) -> Option<Seq<char>> {
    if want {
        match qr_code(absolute(base, short)) {
            Some(svg) => Some(data_url_of(svg)),
            None => None,
        }
    } else {
        None
    }
}

/// A failure of the programming interface.
pub open spec fn api_failure(status: Status, message: Seq<char>) -> ReplyView {
    ReplyView::Json {
        status,
        data: ApiBodyView {
            success: false,
            short_url: None,
            qr_code_data: None,
            error: Some(message),
        },
    }
}

/// The reply of the programming interface to a submission, for each way
/// it can end.
pub open spec fn api_reply(base: Seq<char>, form: Submission, outcome: Result<Seq<char>, SubmitError>)
    -> ReplyView {
    let done = match outcome {
        Ok(code) => ReplyView::Json {
            status: Status::Success,
            data: ApiBodyView {
                success: true,
                short_url: Some(short_link_of(base, code)),
                qr_code_data: qr_data(base, short_link_of(base, code), form.qr),
                error: None,
            },
        },
        Err(_) => api_failure(Status::InternalServerError, "Server error"@),
    };
    match form.file {
        Some(Err(Rejection::ExtensionNotAllowed(_))) => api_failure(
            Status::BadRequest,
            "File type not allowed"@,
        ),
        Some(Err(Rejection::TooLarge)) => api_failure(Status::PayloadTooLarge, "File too large"@),
        Some(Err(Rejection::Storage)) => api_failure(Status::InternalServerError, "Server error"@),
        Some(Ok(_)) => done,
        None => match form.link {
            Some(link) => if is_http_url(link@) {
                done
            } else {
                api_failure(Status::BadRequest, "Invalid URL"@)
            },
            None => api_failure(Status::BadRequest, "Provide content or file"@),
        },
    }
}

fn api_done(state: &AppState, qr: bool, outcome: &Result<String, SubmitError>) -> (r: Reply)
    ensures
        r@ == match outcome_view(*outcome) {
            Ok(code) => ReplyView::Json {
                status: Status::Success,
                data: ApiBodyView {
                    success: true,
                    short_url: Some(short_link_of(state.base_url@, code)),
                    qr_code_data: qr_data(
                        state.base_url@,
                        short_link_of(state.base_url@, code),
                        qr,
                    ),
                    error: None,
                },
            },
            Err(_) => api_failure(Status::InternalServerError, "Server error"@),
        },
{
    match outcome {
        Err(_) => api_error(Status::InternalServerError, "Server error"),
        Ok(code) => {
            let short = short_link(state.base_url.as_str(), code.as_str());
            let qr_code_data = if qr {
                let target = ensure_absolute(state.base_url.as_str(), short.as_str());
                match try_render(target.as_str()) {
                    Some(svg) => Some(data_url(svg.as_str())),
                    None => None,
                }
            } else {
                None
            };
            Reply::Json {
                status: Status::Success,
                data: ApiBody { success: true, short_url: Some(short), qr_code_data, error: None },
            }
        },
    }
}

/// The reply of the programming interface to a submission, once it has
/// ended.
pub fn api_reply_for(state: &AppState, form: &Submission, outcome: &Result<String, SubmitError>)
    -> (r: Reply)
    ensures
        r@ == api_reply(state.base_url@, *form, outcome_view(*outcome)),
{
    match &form.file {
        Some(Err(Rejection::ExtensionNotAllowed(_))) => api_error(
            Status::BadRequest,
            "File type not allowed",
        ),
        Some(Err(Rejection::TooLarge)) => api_error(Status::PayloadTooLarge, "File too large"),
        Some(Err(Rejection::Storage)) => api_error(Status::InternalServerError, "Server error"),
        Some(Ok(_)) => api_done(state, form.qr, outcome),
        None => match &form.link {
            Some(link) => if is_http(link.as_str()) {
                api_done(state, form.qr, outcome)
            } else {
                api_error(Status::BadRequest, "Invalid URL")
            },
            None => api_error(Status::BadRequest, "Provide content or file"),
        },
    }
}

/// Takes a submission through the programming interface: a file before a
/// link. What is registered is answered with its short link, and with its
/// QR image as a `data:` address where that is asked for.
pub fn api_upload(state: &AppState, store: &mut MappingStore, form: &Submission, now: i64) -> (h:
    Submitted)
    requires
        old(store).wf(),
    ensures
        final(store).wf(),
        submission_effect(old(store).items(), final(store).items(), *form, h.code, now as int),
        h.reply@ == api_reply(state.base_url@, *form, reported(h.code)),
        text_of(h.discard) == orphan(form.file, h.code),
{
    let outcome = register_submission(store, form, now);
    let code = code_of(outcome);
    let reply = api_reply_for(state, form, &reported_outcome(&code));
    let discard = orphan_of(&form.file, &code);
    Submitted { reply, code, discard }
}

// ---------------------------------------------------------------------
// Persistence

/// The reply where what a request changed could not be persisted: a
/// failure of the server, in the form of the reply that it takes the place
/// of.
pub open spec fn unsaved_reply(reply: ReplyView) -> ReplyView {
    match reply {
        ReplyView::Json { .. } => api_failure(Status::InternalServerError, "Server error"@),
        _ => ReplyView::Text { status: Status::InternalServerError, body: "Server error"@ },
    }
}

/// The reply where what a request changed could not be persisted.
pub fn unsaved_reply_for(reply: &Reply) -> (r: Reply)
    ensures
        r@ == unsaved_reply(reply@),
{
    match reply {
        Reply::Json { .. } => api_error(Status::InternalServerError, "Server error"),
        _ => text(Status::InternalServerError, "Server error"),
    }
}

/// Ends a submission once the caller has tried to persist its entry. Where
/// that failed, the entry leaves the store again, no code is reported, the
/// reply is a failure of the server, and the file that the entry named is
/// handed back for removal. Else nothing changes.
pub fn confirm_submission(store: &mut MappingStore, handled: Submitted, persisted: bool) -> (h:
    Submitted)
    requires
        old(store).wf(),
    ensures
        final(store).wf(),
        match handled.code {
            Some(code) => if persisted {
                h == handled && final(store).items() == old(store).items()
            } else {
                &&& final(store).items() == without_code(old(store).items(), code@)
                &&& h.code is None
                &&& h.reply@ == unsaved_reply(handled.reply@)
                &&& text_of(h.discard) == file_of(old(store).items(), code@)
            },
            None => h == handled && final(store).items() == old(store).items(),
        },
{
    if persisted {
        return handled;
    }
    let code = match handled.code {
        Some(code) => code,
        None => {
            return Submitted { reply: handled.reply, code: None, discard: handled.discard };
        },
    };
    let discard = match store.delete(code.as_str()) {
        Ok(entry) => match entry.kind {
            EntryKind::File => Some(entry.value),
            EntryKind::Url => None,
        },
        Err(_) => None,
    };
    Submitted { reply: unsaved_reply_for(&handled.reply), code: None, discard }
}

/// Ends a login once the caller has tried to persist its session. Where
/// that failed, the session is closed again, no token is reported, and the
/// reply is a failure of the server. Else nothing changes.
pub fn confirm_login(auth: &mut AdminAuth, handled: LoggedIn, persisted: bool) -> (h: LoggedIn)
    requires
        old(auth).wf(),
    ensures
        final(auth).wf(),
        final(auth).account() == old(auth).account(),
        match handled.token {
            Some(token) => if persisted {
                h == handled && final(auth).sessions() == old(auth).sessions()
            } else {
                &&& final(auth).sessions() == without_session(old(auth).sessions(), token@)
                &&& !final(auth).is_authorized(token@)
                &&& h.token is None
                &&& h.reply@ == unsaved_reply(handled.reply@)
            },
            None => h == handled && final(auth).sessions() == old(auth).sessions(),
        },
{
    if persisted {
        return handled;
    }
    let token = match handled.token {
        Some(token) => token,
        None => {
            return LoggedIn { reply: handled.reply, token: None };
        },
    };
    auth.logout(Some(token.as_str()));
    LoggedIn { reply: unsaved_reply_for(&handled.reply), token: None }
}

/// Ends a deletion once the caller has tried to remove the entry's row.
/// Where that failed, the entry comes back into the store, no file is
/// handed out for removal, and the reply is a failure of the server. Else
/// nothing changes.
pub fn confirm_deletion(store: &mut MappingStore, deletion: Deletion, persisted: bool) -> (d:
    Deletion)
    requires
        old(store).wf(),
    ensures
        final(store).wf(),
        match deletion.entry {
            Some(entry) => if persisted {
                d == deletion && final(store).items() == old(store).items()
            } else {
                &&& final(store).items() == if has_code(old(store).items(), entry@.code) {
                    old(store).items()
                } else {
                    with_entry(old(store).items(), entry@)
                }
                &&& d.entry is None
                &&& d.file is None
                &&& d.reply@ == unsaved_reply(deletion.reply@)
            },
            None => d == deletion && final(store).items() == old(store).items(),
        },
{
    if persisted {
        return deletion;
    }
    let entry = match deletion.entry {
        Some(entry) => entry,
        None => {
            return Deletion { reply: deletion.reply, entry: None, file: deletion.file };
        },
    };
    let _ = store.insert(entry);
    Deletion { reply: unsaved_reply_for(&deletion.reply), entry: None, file: None }
}

/// The reply to a logout whose session could not be removed from where it
/// is persisted: the session stays open, and the server is at fault.
pub fn logout_failed() -> (r: Reply)
    ensures
        r@ == (ReplyView::Text { status: Status::InternalServerError, body: "Server error"@ }),
{
    text(Status::InternalServerError, "Server error")
}

} // verus!
