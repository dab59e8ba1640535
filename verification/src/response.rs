use vstd::prelude::*;
use vstd::slice::slice_to_vec;
use vstd::utf8::encode_utf8;

use crate::form::{field_key, Field, FormError};

verus! {

/// `200 OK`
pub const OK: u16 = 200;

/// `400 Bad Request`
pub const BAD_REQUEST: u16 = 400;

/// `404 Not Found`
pub const NOT_FOUND: u16 = 404;

/// `411 Length Required`
pub const LENGTH_REQUIRED: u16 = 411;

/// `413 Payload Too Large`
pub const PAYLOAD_TOO_LARGE: u16 = 413;

/// `415 Unsupported Media Type`
pub const UNSUPPORTED_MEDIA_TYPE: u16 = 415;

/// The answer to a request.
#[derive(Debug)]
pub struct Response {
    pub status: u16,
    /// The body is sent as `text/plain; charset=utf-8`; otherwise the
    /// response has no `Content-Type` header.
    pub plain_text: bool,
    pub body: Vec<u8>,
}

impl View for Response {
    type V = (u16, bool, Seq<u8>);

    open spec fn view(&self) -> (u16, bool, Seq<u8>) {
        (self.status, self.plain_text, self.body@)
    }
}

/// A response with no body.
pub open spec fn empty_answer(status: u16) -> (u16, bool, Seq<u8>) {
    (status, false, Seq::empty())
}

/// An error response: its text, as plain text.
pub open spec fn text_answer(status: u16, text: Seq<u8>) -> (u16, bool, Seq<u8>) {
    (status, true, text)
}

/// The decimal digits of `n`, in ASCII, without leading zeros.
pub open spec fn decimal(n: nat) -> Seq<u8>
    decreases n,
{
    if n < 10 {
        seq![(n + 48) as u8]
    } else {
        decimal(n / 10) + seq![((n % 10) + 48) as u8]
    }
}

/// The text of a refused media type or charset.
pub open spec fn content_type_error_text() -> Seq<u8> {
    encode_utf8("Content type error."@)
}

/// The text of an unreadable `Content-Length` header.
pub open spec fn unknown_length_text() -> Seq<u8> {
    encode_utf8("Payload size is now known."@)
}

/// The text of a body larger than the limit.
pub open spec fn overflow_text(size: nat, limit: nat) -> Seq<u8> {
    encode_utf8("URL encoded payload is larger ("@) + decimal(size) + encode_utf8(
        " bytes) than allowed (limit: "@,
    ) + decimal(limit) + encode_utf8(" bytes)."@)
}

/// The text of a body that is malformed in its declared encoding.
pub open spec fn encoding_error_text() -> Seq<u8> {
    encode_utf8("Encoding error."@)
}

/// The text of a body that could not be read, for the reason given.
pub open spec fn payload_error_text(reason: Seq<char>) -> Seq<u8> {
    encode_utf8("Error that occur during reading payload: "@) + encode_utf8(reason) + encode_utf8(
        "."@,
    )
}

/// How a refused form is described.
pub open spec fn form_error_text(e: FormError) -> Seq<u8> {
    match e {
        FormError::MissingField(f) => encode_utf8("missing field `"@) + encode_utf8(field_key(f))
            + encode_utf8("`"@),
        FormError::DuplicateField(f) => encode_utf8("duplicate field `"@) + encode_utf8(
            field_key(f),
        ) + encode_utf8("`"@),
    }
}

/// The text of a refused form.
pub open spec fn parse_error_text(e: FormError) -> Seq<u8> {
    encode_utf8("Parse error: "@) + form_error_text(e) + encode_utf8("."@)
}

fn push_text(out: &mut Vec<u8>, s: &str)
    ensures
        final(out)@ == old(out)@ + encode_utf8(s@),
{
    let mut v = slice_to_vec(s.as_bytes());
    out.append(&mut v);
}

fn push_decimal(out: &mut Vec<u8>, n: usize)
    ensures
        final(out)@ == old(out)@ + decimal(n as nat),
    decreases n,
{
    if n >= 10 {
        push_decimal(out, n / 10);
    }
    let digit: u8 = (n % 10) as u8 + 48;
    out.push(digit);
    proof {
        assert(decimal(n as nat) == if n < 10 {
            seq![(n + 48) as u8]
        } else {
            decimal((n / 10) as nat) + seq![((n % 10) + 48) as u8]
        });
    }
}

/// A response with no body.
pub fn empty_response(status: u16) -> (r: Response)
    ensures
        r@ == empty_answer(status),
{
    Response { status, plain_text: false, body: Vec::new() }
}

/// The answer to a refused media type or charset.
pub fn content_type_error() -> (r: Response)
    ensures
        r@ == text_answer(UNSUPPORTED_MEDIA_TYPE, content_type_error_text()),
{
    let mut body = Vec::new();
    push_text(&mut body, "Content type error.");
    Response { status: UNSUPPORTED_MEDIA_TYPE, plain_text: true, body }
}

/// The answer to an unreadable `Content-Length` header.
pub fn unknown_length_error() -> (r: Response)
    ensures
        r@ == text_answer(LENGTH_REQUIRED, unknown_length_text()),
{
    let mut body = Vec::new();
    push_text(&mut body, "Payload size is now known.");
    Response { status: LENGTH_REQUIRED, plain_text: true, body }
}

/// The answer to a body of `size` bytes where `limit` are allowed.
pub fn overflow_error(size: usize, limit: usize) -> (r: Response)
    ensures
        r@ == text_answer(PAYLOAD_TOO_LARGE, overflow_text(size as nat, limit as nat)),
{
    let mut body = Vec::new();
    push_text(&mut body, "URL encoded payload is larger (");
    push_decimal(&mut body, size);
    push_text(&mut body, " bytes) than allowed (limit: ");
    push_decimal(&mut body, limit);
    push_text(&mut body, " bytes).");
    Response { status: PAYLOAD_TOO_LARGE, plain_text: true, body }
}

/// The answer to a body that is malformed in its declared encoding.
pub fn encoding_error() -> (r: Response)
    ensures
        r@ == text_answer(BAD_REQUEST, encoding_error_text()),
{
    let mut body = Vec::new();
    push_text(&mut body, "Encoding error.");
    Response { status: BAD_REQUEST, plain_text: true, body }
}

/// The answer to a body that could not be read: the status and the
/// reason are those of the read error.
pub fn payload_error(status: u16, reason: &str) -> (r: Response)
    ensures
        r@ == text_answer(status, payload_error_text(reason@)),
{
    let mut body = Vec::new();
    push_text(&mut body, "Error that occur during reading payload: ");
    push_text(&mut body, reason);
    push_text(&mut body, ".");
    Response { status, plain_text: true, body }
}

/// The answer to a refused form.
pub fn form_error(e: FormError) -> (r: Response)
    ensures
        r@ == text_answer(BAD_REQUEST, parse_error_text(e)),
{
    let mut body = Vec::new();
    push_text(&mut body, "Parse error: ");
    let (lead, f) = match e {
        FormError::MissingField(f) => ("missing field `", f),
        FormError::DuplicateField(f) => ("duplicate field `", f),
    };
    push_text(&mut body, lead);
    let key = match f {
        Field::Email => "email",
        Field::Name => "name",
    };
    push_text(&mut body, key);
    push_text(&mut body, "`");
    push_text(&mut body, ".");
    proof {
        assert(key@ == field_key(f));
        assert(form_error_text(e) == encode_utf8(lead@) + encode_utf8(key@) + encode_utf8("`"@));
    }
    Response { status: BAD_REQUEST, plain_text: true, body }
}

/// The number that a sequence of ASCII decimal digits reads as.
pub open spec fn digits_value(d: Seq<u8>) -> nat
    decreases d.len(),
{
    if d.len() == 0 {
        0
    } else {
        (digits_value(d.drop_last()) * 10 + (d.last() - 48)) as nat
    }
}

/// `decimal(n)` is the usual decimal writing of `n`: ASCII digits only,
/// no leading zero, reading back as `n`.
pub proof fn law_decimal_reads_back(n: nat)
    ensures
        decimal(n).len() >= 1,
        decimal(n).len() == 1 <==> n < 10,
        forall|i: int| 0 <= i < decimal(n).len() ==> 48 <= #[trigger] decimal(n)[i] <= 57,
        decimal(n).len() > 1 ==> decimal(n)[0] != 48,
        digits_value(decimal(n)) == n,
    decreases n,
{
    if n >= 10 {
        law_decimal_reads_back(n / 10);
        let d = decimal(n);
        let p = decimal(n / 10);
        assert(d == p + seq![((n % 10) + 48) as u8]);
        assert(d.drop_last() == p);
        assert(forall|i: int| 0 <= i < p.len() ==> d[i] == p[i]);
        assert(d[0] == p[0]);
        assert(n / 10 >= 1 && (n / 10) * 10 + n % 10 == n) by (nonlinear_arith)
            requires
                n >= 10,
        ;
        if p.len() == 1 {
            assert(n / 10 < 10);
            assert(p == seq![((n / 10) + 48) as u8]);
        }
        assert(d.last() == ((n % 10) + 48) as u8);
        assert(digits_value(d) == digits_value(p) * 10 + (d.last() - 48));
    } else {
        let d = decimal(n);
        assert(d == seq![(n + 48) as u8]);
        assert(d.drop_last() =~= Seq::<u8>::empty());
        assert(digits_value(d) == digits_value(d.drop_last()) * 10 + (d.last() - 48));
    }
}

} // verus!
