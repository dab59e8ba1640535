use zero2prod::form::{extract_form, parse_form, Field, FormError};
use zero2prod::service::subscribe;

fn pairs(list: &[(&str, &str)]) -> Vec<(String, String)> {
    list.iter().map(|(k, v)| (k.to_string(), v.to_string())).collect()
}

#[test]
fn parse_form_decodes_the_values() {
    let form = parse_form(b"name=le%20guin&email=ursula_le_guin%40gmail.com").unwrap();
    assert_eq!(form.name, "le guin");
    assert_eq!(form.email, "ursula_le_guin@gmail.com");
}

#[test]
fn parse_form_decodes_plus_and_utf8() {
    let form = parse_form(b"email=a%2Bb%40c.d&name=Ren%C3%A9+Char").unwrap();
    assert_eq!(form.name, "René Char");
    assert_eq!(form.email, "a+b@c.d");
}

#[test]
fn parse_form_reports_the_missing_field() {
    assert_eq!(parse_form(b"name=le%20guin").unwrap_err(), FormError::MissingField(Field::Email));
    assert_eq!(
        parse_form(b"email=ursula_le_guin%40gmail.com").unwrap_err(),
        FormError::MissingField(Field::Name)
    );
    assert_eq!(parse_form(b"").unwrap_err(), FormError::MissingField(Field::Email));
    assert_eq!(parse_form(b"&&&").unwrap_err(), FormError::MissingField(Field::Email));
}

#[test]
fn parse_form_keys_are_decoded() {
    let form = parse_form(b"%65mail=x&na%6De=y").unwrap();
    assert_eq!(form.email, "x");
    assert_eq!(form.name, "y");
}

#[test]
fn parse_form_reports_the_first_repeat() {
    assert_eq!(
        parse_form(b"name=a&name=b&email=c&email=d").unwrap_err(),
        FormError::DuplicateField(Field::Name)
    );
    assert_eq!(
        parse_form(b"email=c&name=a&email=d&name=b").unwrap_err(),
        FormError::DuplicateField(Field::Email)
    );
    assert_eq!(
        parse_form(b"name=a&name=b").unwrap_err(),
        FormError::DuplicateField(Field::Name)
    );
}

#[test]
fn parse_form_empty_values_are_values() {
    let form = parse_form(b"name=&email").unwrap();
    assert_eq!(form.name, "");
    assert_eq!(form.email, "");
}

#[test]
fn extract_form_takes_the_fields() {
    let form = extract_form(&pairs(&[("x", "1"), ("name", "n"), ("email", "e")])).unwrap();
    assert_eq!(form.email, "e");
    assert_eq!(form.name, "n");
}

#[test]
fn extract_form_missing_email_before_name() {
    assert_eq!(extract_form(&pairs(&[])).unwrap_err(), FormError::MissingField(Field::Email));
    assert_eq!(
        extract_form(&pairs(&[("name", "n")])).unwrap_err(),
        FormError::MissingField(Field::Email)
    );
    assert_eq!(
        extract_form(&pairs(&[("email", "e")])).unwrap_err(),
        FormError::MissingField(Field::Name)
    );
}

#[test]
fn extract_form_duplicate_before_missing() {
    assert_eq!(
        extract_form(&pairs(&[("email", "e"), ("email", "f")])).unwrap_err(),
        FormError::DuplicateField(Field::Email)
    );
}

#[test]
fn extract_form_keys_are_case_sensitive() {
    assert_eq!(
        extract_form(&pairs(&[("Email", "e"), ("name", "n")])).unwrap_err(),
        FormError::MissingField(Field::Email)
    );
}

#[test]
fn extract_form_ignores_other_keys() {
    let a = extract_form(&pairs(&[("name", "n"), ("email", "e")])).unwrap();
    let b = extract_form(&pairs(&[("name", "n"), ("email", "e"), ("other", "o")])).unwrap();
    assert_eq!((a.email, a.name), (b.email, b.name));
}

#[test]
fn subscribe_answers_ok() {
    let form = parse_form(b"name=a&email=b").unwrap();
    let response = subscribe(&form);
    assert_eq!(response.status, 200);
    assert!(response.body.is_empty());
}
