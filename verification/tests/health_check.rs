use zero2prod::response::{
    Response, BAD_REQUEST, LENGTH_REQUIRED, NOT_FOUND, OK, PAYLOAD_TOO_LARGE,
    UNSUPPORTED_MEDIA_TYPE,
};
use zero2prod::service::{
    health_check, respond, route, wants_body, Body, Charset, ContentLength, Endpoint, Method,
    Request, FORM_LIMIT,
};

fn request(method: Method, path: &str, content_type: &str, body: &str) -> Request {
    Request {
        method,
        path: path.to_string(),
        content_type: content_type.to_string(),
        charset: Charset::Utf8,
        content_length: ContentLength::Valid(body.len()),
        body: Body::Complete(body.as_bytes().to_vec()),
        transcoded: None,
    }
}

fn form_post(body: &str) -> Request {
    request(Method::Post, "/subscriptions", "application/x-www-form-urlencoded", body)
}

fn assert_empty(response: &Response, status: u16) {
    assert_eq!(response.status, status);
    assert!(!response.plain_text);
    assert!(response.body.is_empty());
}

fn assert_text(response: &Response, status: u16, text: &str) {
    assert_eq!(response.status, status);
    assert!(response.plain_text);
    assert_eq!(String::from_utf8(response.body.clone()).unwrap(), text);
}

#[test]
fn health_check_works() {
    let response = respond(&request(Method::Get, "/health_check", "", ""));
    assert!((200..300).contains(&response.status));
    assert_eq!(Some(0), Some(response.body.len()));
}

#[test]
fn subscribe_returns_a_200_for_valid_form_data() {
    let body = "name=le%20guin&email=ursula_le_guin%40gmail.com";
    let response = respond(&form_post(body));
    assert_eq!(200, response.status);
}

#[test]
fn subscribe_returns_a_400_when_data_is_missing() {
    let test_cases = vec![
        ("name=le%20guin", "missing the email"),
        ("email=ursula_le_guin%40gmail.com", "missing the name"),
        ("", "missing both name and email"),
    ];
    for (invalid_body, error_message) in test_cases {
        let response = respond(&form_post(invalid_body));
        assert_eq!(
            400, response.status,
            "The API did not fail with 400 Bad Request when the payload was {}.",
            error_message
        );
    }
}

#[test]
fn valid_subscription_has_no_body() {
    let body = "name=le%20guin&email=ursula_le_guin%40gmail.com";
    assert_empty(&respond(&form_post(body)), OK);
}

#[test]
fn missing_fields_are_described() {
    assert_text(
        &respond(&form_post("name=le%20guin")),
        BAD_REQUEST,
        "Parse error: missing field `email`.",
    );
    assert_text(
        &respond(&form_post("email=ursula_le_guin%40gmail.com")),
        BAD_REQUEST,
        "Parse error: missing field `name`.",
    );
    assert_text(&respond(&form_post("")), BAD_REQUEST, "Parse error: missing field `email`.");
}

#[test]
fn health_check_ignores_the_request() {
    let req = request(Method::Get, "/health_check", "text/plain", "anything at all");
    assert_empty(&respond(&req), OK);
    assert_empty(&health_check(), OK);
}

#[test]
fn routes_by_method_and_path() {
    assert_eq!(route(Method::Get, &"/health_check".to_string()), Endpoint::HealthCheck);
    assert_eq!(route(Method::Post, &"/subscriptions".to_string()), Endpoint::Subscribe);
    assert_eq!(route(Method::Post, &"/health_check".to_string()), Endpoint::NotFound);
    assert_eq!(route(Method::Get, &"/subscriptions".to_string()), Endpoint::NotFound);
    assert_eq!(route(Method::Get, &"/health_check/".to_string()), Endpoint::NotFound);
    assert_eq!(route(Method::Other, &"/health_check".to_string()), Endpoint::NotFound);
}

#[test]
fn unknown_routes_are_not_found() {
    assert_empty(&respond(&request(Method::Get, "/", "", "")), NOT_FOUND);
    assert_empty(&respond(&request(Method::Post, "/health_check", "", "")), NOT_FOUND);
    let req = request(Method::Get, "/subscriptions", "application/x-www-form-urlencoded", "name=a&email=b");
    assert_empty(&respond(&req), NOT_FOUND);
}

#[test]
fn subscribe_refuses_other_media_types() {
    let req = request(Method::Post, "/subscriptions", "application/json", "name=a&email=b");
    assert_text(&respond(&req), UNSUPPORTED_MEDIA_TYPE, "Content type error.");
    let req = request(Method::Post, "/subscriptions", "", "name=a&email=b");
    assert_text(&respond(&req), UNSUPPORTED_MEDIA_TYPE, "Content type error.");
}

#[test]
fn subscribe_media_type_ignores_letter_case() {
    let req = request(Method::Post, "/subscriptions", "Application/X-WWW-Form-URLEncoded", "name=a&email=b");
    assert_empty(&respond(&req), OK);
}

#[test]
fn subscribe_refuses_unknown_charset() {
    let mut req = form_post("name=a&email=b");
    req.charset = Charset::Unknown;
    assert_text(&respond(&req), UNSUPPORTED_MEDIA_TYPE, "Content type error.");
}

#[test]
fn subscribe_requires_a_readable_length() {
    let mut req = form_post("name=a&email=b");
    req.content_length = ContentLength::Invalid;
    assert_text(&respond(&req), LENGTH_REQUIRED, "Payload size is now known.");
    let mut req = form_post("name=a&email=b");
    req.content_length = ContentLength::Absent;
    assert_empty(&respond(&req), OK);
}

#[test]
fn subscribe_refuses_large_bodies() {
    let mut req = form_post("name=a&email=b");
    req.content_length = ContentLength::Valid(FORM_LIMIT + 1);
    assert_text(
        &respond(&req),
        PAYLOAD_TOO_LARGE,
        "URL encoded payload is larger (16385 bytes) than allowed (limit: 16384 bytes).",
    );
    let mut req = form_post("name=a&email=b");
    req.body = Body::TooLarge(20000);
    assert_text(
        &respond(&req),
        PAYLOAD_TOO_LARGE,
        "URL encoded payload is larger (20000 bytes) than allowed (limit: 16384 bytes).",
    );
    let big = format!("name=a&email=b&pad={}", "x".repeat(FORM_LIMIT));
    let mut req = form_post(&big);
    req.content_length = ContentLength::Absent;
    assert_eq!(respond(&req).status, PAYLOAD_TOO_LARGE);
    let fits = format!("name=a&email=b&pad={}", "x".repeat(FORM_LIMIT - 19));
    assert_eq!(fits.len(), FORM_LIMIT);
    assert_empty(&respond(&form_post(&fits)), OK);
}

#[test]
fn subscribe_reports_unreadable_bodies() {
    let mut req = form_post("name=a&email=b");
    req.body = Body::Unreadable(400, "A payload reached EOF, but is not complete".to_string());
    assert_text(
        &respond(&req),
        BAD_REQUEST,
        "Error that occur during reading payload: A payload reached EOF, but is not complete.",
    );
}

#[test]
fn subscribe_reads_transcoded_bodies() {
    let mut req = form_post("ignored");
    req.charset = Charset::Other;
    req.transcoded = Some(b"name=a&email=b".to_vec());
    assert_empty(&respond(&req), OK);
    let mut req = form_post("name=a&email=b");
    req.charset = Charset::Other;
    req.transcoded = None;
    assert_text(&respond(&req), BAD_REQUEST, "Encoding error.");
}

#[test]
fn subscribe_refuses_repeated_fields() {
    assert_text(
        &respond(&form_post("name=a&email=b&name=c")),
        BAD_REQUEST,
        "Parse error: duplicate field `name`.",
    );
    assert_text(
        &respond(&form_post("email=b&email=b&name=a")),
        BAD_REQUEST,
        "Parse error: duplicate field `email`.",
    );
}

#[test]
fn subscribe_ignores_other_fields() {
    assert_empty(&respond(&form_post("city=x&name=a&&email=b&age=3")), OK);
}

#[test]
fn body_is_read_only_when_the_headers_pass() {
    assert!(wants_body(&form_post("name=a&email=b")));
    assert!(!wants_body(&request(Method::Get, "/health_check", "", "")));
    let req = request(Method::Post, "/subscriptions", "text/plain", "name=a&email=b");
    assert!(!wants_body(&req));
    let mut req = form_post("x");
    req.content_length = ContentLength::Valid(FORM_LIMIT + 1);
    assert!(!wants_body(&req));
    let mut req = form_post("x");
    req.content_length = ContentLength::Invalid;
    assert!(!wants_body(&req));
}
