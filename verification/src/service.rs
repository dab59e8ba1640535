use vstd::prelude::*;
use vstd::string::StrSliceExecFns;
use vstd::utf8::encode_utf8;

use crate::form::{
    field_key, form_outcome, has_key, has_key_once, lemma_accepted_iff_each_field_once,
    parse_form, text_is, urlencoded_pairs, Field, FormData, FormError,
};
use crate::response::{
    content_type_error, content_type_error_text, empty_answer, empty_response, encoding_error,
    encoding_error_text, form_error, overflow_error, overflow_text, parse_error_text,
    payload_error, payload_error_text, text_answer, unknown_length_error, unknown_length_text,
    decimal, Response, BAD_REQUEST, LENGTH_REQUIRED, NOT_FOUND, OK, PAYLOAD_TOO_LARGE,
    UNSUPPORTED_MEDIA_TYPE,
};

verus! {

/// The largest form body, in bytes, that the subscription endpoint reads.
pub const FORM_LIMIT: usize = 16384;

/// The request method, as far as the routes tell methods apart.
#[derive(Debug, Clone, Copy, PartialEq, Eq, Structural)]
pub enum Method {
    Get,
    Post,
    Other,
}

/// The handler that a request reaches.
#[derive(Debug, Clone, Copy, PartialEq, Eq, Structural)]
pub enum Endpoint {
    /// `GET /health_check`
    HealthCheck,
    /// `POST /subscriptions`
    Subscribe,
    /// No route matches.
    NotFound,
}

/// The `Content-Length` header of a request.
#[derive(Debug, Clone, Copy, PartialEq, Eq, Structural)]
pub enum ContentLength {
    /// No such header.
    Absent,
    /// A header that reads as a byte count.
    Valid(usize),
    /// A header that does not read as a byte count.
    Invalid,
}

/// The character set that the request's content type declares.
#[derive(Debug, Clone, Copy, PartialEq, Eq, Structural)]
pub enum Charset {
    /// UTF-8, named or by default.
    Utf8,
    /// A charset parameter that names no known encoding, or a content type
    /// that does not parse.
    Unknown,
    /// Another known encoding.
    Other,
}

/// The body of a request, read up to `FORM_LIMIT` bytes.
#[derive(Debug)]
pub enum Body {
    /// The whole body.
    Complete(Vec<u8>),
    /// The body ran past `FORM_LIMIT` bytes; the count is the size reached
    /// with the piece that ran past, and reading stopped there.
    TooLarge(usize),
    /// Reading the body failed: the status that the read error reports
    /// (`413` for a payload past its size limit, `400` for any other read
    /// error) and its reason.
    Unreadable(u16, String),
}

/// A request as the service sees it.
#[derive(Debug)]
pub struct Request {
    pub method: Method,
    /// The path of the request's URL, as the router matches it.
    pub path: String,
    /// The media type of the `Content-Type` header: what precedes its first
    /// `;`, trimmed; empty where there is no such header.
    pub content_type: String,
    pub charset: Charset,
    pub content_length: ContentLength,
    /// The request body, as received; it is read only where `wants_body`
    /// says so, and is otherwise left empty.
    pub body: Body,
    /// Under `Charset::Other`, the complete body transcoded to UTF-8, or
    /// `None` where it is malformed in its encoding.
    pub transcoded: Option<Vec<u8>>,
}

/// The routes: `GET /health_check` and `POST /subscriptions`; a request
/// that matches neither, by path and method, reaches no handler.
pub open spec fn endpoint_of(method: Method, path: Seq<char>) -> Endpoint {
    if method == Method::Get && path == "/health_check"@ {
        Endpoint::HealthCheck
    } else if method == Method::Post && path == "/subscriptions"@ {
        Endpoint::Subscribe
    } else {
        Endpoint::NotFound
    }
}

/// The code of `c` with `A`..`Z` taken to `a`..`z`.
pub open spec fn ascii_lower_code(c: char) -> u32 {
    if 65 <= (c as u32) <= 90 {
        (c as u32 + 32) as u32
    } else {
        c as u32
    }
}

/// `a` and `b` are equal once ASCII letters are taken to lower case.
pub open spec fn same_ignoring_ascii_case(a: Seq<char>, b: Seq<char>) -> bool {
    &&& a.len() == b.len()
    &&& forall|i: int| 0 <= i < a.len() ==> ascii_lower_code(#[trigger] a[i]) == ascii_lower_code(b[i])
}

/// The media type names url-encoded form data, in any letter case.
pub open spec fn is_form_media_type(ct: Seq<char>) -> bool {
    same_ignoring_ascii_case(ct, "application/x-www-form-urlencoded"@)
}

/// The headers of a subscription let its body be read: the media type, the
/// charset and the length header pass.
pub open spec fn form_head_accepted(req: Request) -> bool {
    &&& is_form_media_type(req.content_type@)
    &&& req.charset != Charset::Unknown
    &&& req.content_length != ContentLength::Invalid
    &&& (req.content_length matches ContentLength::Valid(n) ==> n <= FORM_LIMIT)
}

/// The body is read: the request reaches the subscription endpoint and its
/// headers let the body be read.
pub open spec fn body_wanted(req: Request) -> bool {
    endpoint_of(req.method, req.path@) == Endpoint::Subscribe && form_head_accepted(req)
}

/// The bytes that the form is read from: the complete body, of at most
/// `FORM_LIMIT` bytes, as UTF-8 (transcoded where another encoding was
/// declared); nothing where the body was not read whole or is malformed in
/// its encoding.
pub open spec fn form_bytes(req: Request) -> Option<Seq<u8>> {
    match req.body {
        Body::Complete(b) => if b@.len() > FORM_LIMIT {
            None
        } else {
            match req.charset {
                Charset::Utf8 => Some(b@),
                Charset::Other => match req.transcoded {
                    Some(d) => Some(d@),
                    None => None,
                },
                Charset::Unknown => None,
            }
        },
        _ => None,
    }
}

/// The status of a failed body read: a read error answers `413` when it is
/// a payload past its size limit and `400` otherwise.
pub open spec fn read_error_status(reported: u16) -> u16 {
    if reported == PAYLOAD_TOO_LARGE {
        PAYLOAD_TOO_LARGE
    } else {
        BAD_REQUEST
    }
}

/// The answer to a form read out of a body.
pub open spec fn form_answer(r: Result<(Seq<char>, Seq<char>), FormError>) -> (u16, bool, Seq<u8>) {
    match r {
        Ok(_) => empty_answer(OK),
        Err(e) => text_answer(BAD_REQUEST, parse_error_text(e)),
    }
}

/// The answer to a subscription request, in the order of its checks: the
/// media type and the charset (415), the length header (411), the declared
/// body size (413), then the body as read: larger than the limit (413),
/// unreadable (413 or 400, as the read error reports), malformed in its encoding (400),
/// and the form itself (400 with the reason where it is refused, 200 with
/// no body where it is accepted). Each refusal carries its text.
pub open spec fn subscription_answer(req: Request) -> (u16, bool, Seq<u8>) {
    if !is_form_media_type(req.content_type@) || req.charset == Charset::Unknown {
        text_answer(UNSUPPORTED_MEDIA_TYPE, content_type_error_text())
    } else if req.content_length == ContentLength::Invalid {
        text_answer(LENGTH_REQUIRED, unknown_length_text())
    } else if req.content_length is Valid && req.content_length->0 > FORM_LIMIT {
        text_answer(PAYLOAD_TOO_LARGE, overflow_text(req.content_length->0 as nat, FORM_LIMIT as nat))
    } else {
        match req.body {
            Body::TooLarge(size) => text_answer(
                PAYLOAD_TOO_LARGE,
                overflow_text(size as nat, FORM_LIMIT as nat),
            ),
            Body::Unreadable(status, reason) => text_answer(
                read_error_status(status),
                payload_error_text(reason@),
            ),
            Body::Complete(b) => if b@.len() > FORM_LIMIT {
                text_answer(PAYLOAD_TOO_LARGE, overflow_text(b@.len(), FORM_LIMIT as nat))
            } else {
                match form_bytes(req) {
                    None => text_answer(BAD_REQUEST, encoding_error_text()),
                    Some(bytes) => form_answer(form_outcome(urlencoded_pairs(bytes))),
                }
            },
        }
    }
}

/// The answer that the service gives a request.
pub open spec fn response_answer(req: Request) -> (u16, bool, Seq<u8>) {
    match endpoint_of(req.method, req.path@) {
        Endpoint::HealthCheck => empty_answer(OK),
        Endpoint::Subscribe => subscription_answer(req),
        Endpoint::NotFound => empty_answer(NOT_FOUND),
    }
}

/// Finds the handler that a request reaches.
pub fn route(method: Method, path: &String) -> (e: Endpoint)
    ensures
        e == endpoint_of(method, path@),
{
    if method == Method::Get && text_is(path, "/health_check") {
        Endpoint::HealthCheck
    } else if method == Method::Post && text_is(path, "/subscriptions") {
        Endpoint::Subscribe
    } else {
        Endpoint::NotFound
    }
}

/// The health check: always healthy, with no body.
pub fn health_check() -> (r: Response)
    ensures
        r@ == empty_answer(OK),
{
    empty_response(OK)
}

/// The subscription handler, reached once a form has been read: `200 OK`
/// with no body, whatever the form holds.
pub fn subscribe(_form: &FormData) -> (r: Response)
    ensures
        r@ == empty_answer(OK),
{
    empty_response(OK)
}

fn lower_code(c: char) -> (r: u32)
    ensures
        r == ascii_lower_code(c),
{
    let x = c as u32;
    if 65 <= x && x <= 90 {
        x + 32
    } else {
        x
    }
}

/// Whether a media type names url-encoded form data, in any letter case.
pub fn is_form_content_type(ct: &String) -> (r: bool)
    ensures
        r == is_form_media_type(ct@),
{
    let target = "application/x-www-form-urlencoded";
    let s = ct.as_str();
    let n = s.unicode_len();
    let tn = target.unicode_len();
    if n != tn {
        return false;
    }
    let mut i: usize = 0;
    while i < n
        invariant
            s@ == ct@,
            target@ == "application/x-www-form-urlencoded"@,
            n == s@.len(),
            tn == target@.len(),
            n == tn,
            i <= n,
            forall|k: int| 0 <= k < i ==> ascii_lower_code(#[trigger] s@[k]) == ascii_lower_code(target@[k]),
        decreases n - i,
    {
        let a = s.get_char(i);
        let b = target.get_char(i);
        if lower_code(a) != lower_code(b) {
            assert(ct@[i as int] == a);
            return false;
        }
        i = i + 1;
    }
    true
}

/// Whether the body of a request is to be read: only where it reaches the
/// subscription endpoint and its headers pass.
pub fn wants_body(req: &Request) -> (r: bool)
    ensures
        r == body_wanted(*req),
{
    if route(req.method, &req.path) != Endpoint::Subscribe {
        return false;
    }
    if !is_form_content_type(&req.content_type) || req.charset == Charset::Unknown {
        return false;
    }
    match req.content_length {
        ContentLength::Invalid => false,
        ContentLength::Valid(n) => n <= FORM_LIMIT,
        ContentLength::Absent => true,
    }
}

/// Answers a request that reached the subscription endpoint.
pub fn subscription_response(req: &Request) -> (r: Response)
    ensures
        r@ == subscription_answer(*req),
        form_head_accepted(*req) && form_bytes(*req) == Some(Seq::<u8>::empty()) ==> r@
            == text_answer(BAD_REQUEST, parse_error_text(FormError::MissingField(Field::Email))),
{
    if !is_form_content_type(&req.content_type) || req.charset == Charset::Unknown {
        return content_type_error();
    }
    match req.content_length {
        ContentLength::Invalid => {
            return unknown_length_error();
        },
        ContentLength::Valid(n) => {
            if n > FORM_LIMIT {
                return overflow_error(n, FORM_LIMIT);
            }
        },
        ContentLength::Absent => {},
    }
    match &req.body {
        Body::TooLarge(size) => overflow_error(*size, FORM_LIMIT),
        Body::Unreadable(status, reason) => {
            let status = if *status == PAYLOAD_TOO_LARGE {
                PAYLOAD_TOO_LARGE
            } else {
                BAD_REQUEST
            };
            payload_error(status, reason.as_str())
        },
        Body::Complete(b) => {
            if b.len() > FORM_LIMIT {
                return overflow_error(b.len(), FORM_LIMIT);
            }
            let parsed = match req.charset {
                Charset::Other => match &req.transcoded {
                    Some(d) => parse_form(d.as_slice()),
                    None => {
                        return encoding_error();
                    },
                },
                _ => parse_form(b.as_slice()),
            };
            match parsed {
                Ok(form) => subscribe(&form),
                Err(e) => form_error(e),
            }
        },
    }
}

/// Answers a request: the health check is always healthy, a subscription is
/// answered by `subscription_response`, and any other request is not found;
/// the health check and not-found answers have no body.
pub fn respond(req: &Request) -> (r: Response)
    ensures
        r@ == response_answer(*req),
        body_wanted(*req) && form_bytes(*req) == Some(Seq::<u8>::empty()) ==> r@ == text_answer(
            BAD_REQUEST,
            parse_error_text(FormError::MissingField(Field::Email)),
        ),
{
    match route(req.method, &req.path) {
        Endpoint::HealthCheck => health_check(),
        Endpoint::Subscribe => subscription_response(req),
        Endpoint::NotFound => empty_response(NOT_FOUND),
    }
}

/// A health check is answered `200 OK` with no body, whatever else the
/// request holds.
pub proof fn law_health_check_is_ok(req: Request)
    requires
        req.method == Method::Get,
        req.path@ == "/health_check"@,
    ensures
        response_answer(req) == empty_answer(OK),
{
}

/// A request that matches no route, by path and method, is answered
/// `404 Not Found` with no body.
pub proof fn law_unrouted_is_not_found(req: Request)
    requires
        !(req.method == Method::Get && req.path@ == "/health_check"@),
        !(req.method == Method::Post && req.path@ == "/subscriptions"@),
    ensures
        response_answer(req) == empty_answer(NOT_FOUND),
{
}

/// A subscription whose media type is not url-encoded form data is
/// answered `415 Unsupported Media Type`, whatever its body.
pub proof fn law_other_media_type_is_unsupported(req: Request)
    requires
        req.method == Method::Post,
        req.path@ == "/subscriptions"@,
        !is_form_media_type(req.content_type@),
    ensures
        response_answer(req) == text_answer(UNSUPPORTED_MEDIA_TYPE, content_type_error_text()),
{
}

/// Where the body is not to be read, the answer does not depend on the
/// body: two requests that agree on everything but their bodies get the
/// same answer.
pub proof fn law_unread_body_is_irrelevant(a: Request, b: Request)
    requires
        a.method == b.method,
        a.path@ == b.path@,
        a.content_type@ == b.content_type@,
        a.charset == b.charset,
        a.content_length == b.content_length,
        !body_wanted(a),
    ensures
        response_answer(a) == response_answer(b),
{
}

/// A subscription whose body is read as a form is answered `200 OK` with
/// no body exactly when it sends each of `email` and `name` exactly once,
/// and `400 Bad Request` with the reason otherwise.
pub proof fn law_subscription_answer(req: Request)
    requires
        body_wanted(req),
        form_bytes(req) is Some,
    ensures
        ({
            let pairs = urlencoded_pairs(form_bytes(req)->0);
            if has_key_once(pairs, field_key(Field::Email)) && has_key_once(
                pairs,
                field_key(Field::Name),
            ) {
                response_answer(req) == empty_answer(OK)
            } else {
                response_answer(req).0 == BAD_REQUEST && response_answer(req).1
            }
        }),
{
    lemma_accepted_iff_each_field_once(urlencoded_pairs(form_bytes(req)->0));
}

/// A subscription whose body is read as a form and lacks the `email` or the
/// `name` field is answered `400 Bad Request`.
pub proof fn law_missing_field_is_bad_request(req: Request)
    requires
        body_wanted(req),
        form_bytes(req) is Some,
        !has_key(urlencoded_pairs(form_bytes(req)->0), field_key(Field::Email)) || !has_key(
            urlencoded_pairs(form_bytes(req)->0),
            field_key(Field::Name),
        ),
    ensures
        response_answer(req).0 == BAD_REQUEST,
{
}

/// The url-encoded form media type is recognised exactly: a media type is
/// accepted when it has the length of `application/x-www-form-urlencoded`
/// and agrees with it at every place once `A`..`Z` are taken to `a`..`z`;
/// any other media type (`multipart/form-data`, `text/plain`, the empty
/// one) is not.
pub proof fn law_form_media_type_is_exact(ct: Seq<char>)
    ensures
        is_form_media_type(ct) <==> ({
            let lit = "application/x-www-form-urlencoded"@;
            &&& ct.len() == lit.len()
            &&& forall|i: int|
                0 <= i < ct.len() ==> (if 65 <= (ct[i] as u32) <= 90 {
                    (ct[i] as u32 + 32) as u32
                } else {
                    ct[i] as u32
                }) == (if 65 <= (lit[i] as u32) <= 90 {
                    (lit[i] as u32 + 32) as u32
                } else {
                    lit[i] as u32
                })
        }),
{
}

/// A subscription whose media type is not `application/x-www-form-urlencoded`
/// (up to ASCII letter case) is refused `415` with the text
/// `Content type error.`, whatever else it holds.
pub proof fn law_non_form_media_type_is_refused(req: Request)
    requires
        req.method == Method::Post,
        req.path@ == "/subscriptions"@,
        !({
            let ct = req.content_type@;
            let lit = "application/x-www-form-urlencoded"@;
            &&& ct.len() == lit.len()
            &&& forall|i: int|
                0 <= i < ct.len() ==> (if 65 <= (ct[i] as u32) <= 90 {
                    (ct[i] as u32 + 32) as u32
                } else {
                    ct[i] as u32
                }) == (if 65 <= (lit[i] as u32) <= 90 {
                    (lit[i] as u32 + 32) as u32
                } else {
                    lit[i] as u32
                })
        }),
    ensures
        response_answer(req) == (415u16, true, encode_utf8("Content type error."@)),
{
    law_form_media_type_is_exact(req.content_type@);
}

/// A subscription whose body ran past the limit is never accepted; where
/// its headers let the body be read, whatever its length header says, it is
/// refused `413` with the size that was reached.
pub proof fn law_oversized_body_is_refused(req: Request)
    requires
        req.method == Method::Post,
        req.path@ == "/subscriptions"@,
        req.body is TooLarge,
    ensures
        response_answer(req).0 != 200,
        match req.body {
            Body::TooLarge(size) => ({
                &&& is_form_media_type(req.content_type@)
                &&& req.charset != Charset::Unknown
                &&& (req.content_length == ContentLength::Absent || (req.content_length is Valid
                    && req.content_length->0 <= 16384))
            }) ==> response_answer(req) == (
                413u16,
                true,
                encode_utf8("URL encoded payload is larger ("@) + decimal(size as nat) + encode_utf8(
                    " bytes) than allowed (limit: "@,
                ) + decimal(16384) + encode_utf8(" bytes)."@),
            ),
            _ => true,
        },
{
}

/// Only two things are answered `200 OK`: a health check, and a
/// subscription whose headers pass, whose body was read whole within the
/// limit (and, under another charset, transcoded), and whose form sends
/// each of `email` and `name` exactly once. A `200` answer has no body.
pub proof fn law_ok_only_for_health_or_accepted_form(req: Request)
    requires
        response_answer(req).0 == 200,
    ensures
        (req.method == Method::Get && req.path@ == "/health_check"@) || ({
            &&& req.method == Method::Post
            &&& req.path@ == "/subscriptions"@
            &&& is_form_media_type(req.content_type@)
            &&& req.charset != Charset::Unknown
            &&& req.content_length != ContentLength::Invalid
            &&& (req.content_length is Valid ==> req.content_length->0 <= 16384)
            &&& match req.body {
                Body::Complete(b) => {
                    &&& b@.len() <= 16384
                    &&& req.charset == Charset::Utf8 ==> has_key_once(
                        urlencoded_pairs(b@),
                        "email"@,
                    ) && has_key_once(urlencoded_pairs(b@), "name"@)
                    &&& req.charset == Charset::Other ==> match req.transcoded {
                        Some(d) => has_key_once(urlencoded_pairs(d@), "email"@) && has_key_once(
                            urlencoded_pairs(d@),
                            "name"@,
                        ),
                        None => false,
                    }
                },
                _ => false,
            }
        }),
        !response_answer(req).1,
        response_answer(req).2 == Seq::<u8>::empty(),
{
    if endpoint_of(req.method, req.path@) == Endpoint::Subscribe {
        match form_bytes(req) {
            Some(bytes) => {
                lemma_accepted_iff_each_field_once(urlencoded_pairs(bytes));
            },
            None => {},
        }
    }
}

/// A subscription with an url-encoded media type and a known charset whose
/// `Content-Length` header does not read as a byte count is refused `411`
/// with the text `Payload size is now known.`; one whose header declares
/// more than 16384 bytes is refused `413` with that size, unread.
pub proof fn law_bad_length_header_is_refused(req: Request)
    requires
        req.method == Method::Post,
        req.path@ == "/subscriptions"@,
        is_form_media_type(req.content_type@),
        req.charset != Charset::Unknown,
    ensures
        req.content_length == ContentLength::Invalid ==> response_answer(req) == (
            411u16,
            true,
            encode_utf8("Payload size is now known."@),
        ),
        req.content_length is Valid && req.content_length->0 > 16384 ==> response_answer(req) == (
            413u16,
            true,
            encode_utf8("URL encoded payload is larger ("@) + decimal(req.content_length->0 as nat)
                + encode_utf8(" bytes) than allowed (limit: "@) + decimal(16384) + encode_utf8(
                " bytes)."@,
            ),
        ),
{
}

/// A subscription with an url-encoded media type and an unknown charset is
/// refused `415` with the text `Content type error.`.
pub proof fn law_unknown_charset_is_refused(req: Request)
    requires
        req.method == Method::Post,
        req.path@ == "/subscriptions"@,
        req.charset == Charset::Unknown,
    ensures
        response_answer(req) == (415u16, true, encode_utf8("Content type error."@)),
{
}

/// Each of `email` and `name` is sent at most once among the pairs.
pub open spec fn fields_at_most_once(pairs: Seq<(Seq<char>, Seq<char>)>) -> bool {
    forall|i: int, j: int|
        #![trigger pairs[i], pairs[j]]
        0 <= i < pairs.len() && 0 <= j < pairs.len() && pairs[i].0 == pairs[j].0 && (pairs[i].0
            == "email"@ || pairs[i].0 == "name"@) ==> i == j
}

/// A subscription whose body is read as a form that repeats no field but
/// lacks one is refused `400` with the text naming the missing field:
/// `Parse error: missing field `email`.` where `email` is absent, otherwise
/// `Parse error: missing field `name`.`.
pub proof fn law_missing_field_is_named(req: Request)
    requires
        body_wanted(req),
        form_bytes(req) is Some,
        fields_at_most_once(urlencoded_pairs(form_bytes(req)->0)),
    ensures
        ({
            let pairs = urlencoded_pairs(form_bytes(req)->0);
            let email_sent = exists|i: int| 0 <= i < pairs.len() && #[trigger] pairs[i].0 == "email"@;
            let name_sent = exists|i: int| 0 <= i < pairs.len() && #[trigger] pairs[i].0 == "name"@;
            &&& !email_sent ==> response_answer(req) == (
                400u16,
                true,
                encode_utf8("Parse error: "@) + (encode_utf8("missing field `"@) + encode_utf8(
                    "email"@,
                ) + encode_utf8("`"@)) + encode_utf8("."@),
            )
            &&& email_sent && !name_sent ==> response_answer(req) == (
                400u16,
                true,
                encode_utf8("Parse error: "@) + (encode_utf8("missing field `"@) + encode_utf8(
                    "name"@,
                ) + encode_utf8("`"@)) + encode_utf8("."@),
            )
        }),
{
    let pairs = urlencoded_pairs(form_bytes(req)->0);
    crate::form::lemma_field_keys_differ();
    if crate::form::has_repeat(pairs) {
        let j = choose|j: int| #[trigger] crate::form::repeated_at(pairs, j);
        let i = choose|i: int| #![trigger pairs[i]] 0 <= i < j && pairs[i].0 == pairs[j].0;
        assert(pairs[i].0 == pairs[j].0);
        assert(pairs[j].0 == "email"@ || pairs[j].0 == "name"@);
    }
    if exists|i: int| 0 <= i < pairs.len() && #[trigger] pairs[i].0 == "email"@ {
        let i = choose|i: int| 0 <= i < pairs.len() && #[trigger] pairs[i].0 == "email"@;
        assert(has_key(pairs, field_key(Field::Email)));
    }
    if exists|i: int| 0 <= i < pairs.len() && #[trigger] pairs[i].0 == "name"@ {
        let i = choose|i: int| 0 <= i < pairs.len() && #[trigger] pairs[i].0 == "name"@;
        assert(has_key(pairs, field_key(Field::Name)));
    }
}

} // verus!
