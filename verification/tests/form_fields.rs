use zero2prod::form::lookup_last;
use zero2prod::form::parse_pairs;
use zero2prod::form::percent_decode;
use zero2prod::submission::decide_submission;
use zero2prod::submission::SubscribeRejection;

fn decide(body: &[u8]) -> Result<(String, String), SubscribeRejection> {
    let v = decide_submission(&body.to_vec(), "id".to_string(), "ts".to_string())?;
    Ok((v.name, v.email))
}

#[test]
fn percent_decoding_handles_spaces_escapes_and_plus() {
    let decoded = percent_decode(&b"a%20b%2Bc+d".to_vec()).expect("well-formed input");
    assert_eq!(decoded, b"a b+c d".to_vec());
}

#[test]
fn percent_decoding_rejects_bad_and_truncated_escapes() {
    assert!(percent_decode(&b"a%G1b".to_vec()).is_none());
    assert!(percent_decode(&b"abc%2".to_vec()).is_none());
    assert!(percent_decode(&b"abc%".to_vec()).is_none());
}

#[test]
fn pairs_split_on_ampersands_and_skip_empty_segments() {
    let pairs = parse_pairs(&b"a=1&&b=2&".to_vec()).expect("well-formed input");
    assert_eq!(pairs.len(), 2);
    assert_eq!(pairs[0].key, b"a".to_vec());
    assert_eq!(pairs[0].value, b"1".to_vec());
    assert_eq!(pairs[1].key, b"b".to_vec());
    assert_eq!(pairs[1].value, b"2".to_vec());
}

#[test]
fn a_segment_without_equals_has_an_empty_value() {
    let pairs = parse_pairs(&b"flag&a=1".to_vec()).expect("well-formed input");
    assert_eq!(pairs[0].key, b"flag".to_vec());
    assert_eq!(pairs[0].value, b"".to_vec());
}

#[test]
fn a_repeated_key_keeps_its_last_value() {
    let pairs = parse_pairs(&b"a=1&b=2&a=3".to_vec()).expect("well-formed input");
    let found = lookup_last(&pairs, &b"a".to_vec()).expect("key a is present");
    assert_eq!(found, b"3".to_vec());
    let (name, email) =
        decide(b"name=first&email=kept%40example.com&name=second").expect("valid submission");
    assert_eq!(name, "second");
    assert_eq!(email, "kept@example.com");
}

#[test]
fn field_values_may_need_percent_decoding_into_utf8() {
    let (name, email) = decide(b"name=Ren%C3%A9e&email=renee%40example.com")
        .expect("valid submission");
    assert_eq!(name, "Renée");
    assert_eq!(email, "renee@example.com");
}

#[test]
fn unknown_fields_are_ignored() {
    let (name, email) =
        decide(b"name=a&email=b%40c.d&extra=whatever").expect("valid submission");
    assert_eq!(name, "a");
    assert_eq!(email, "b@c.d");
}

#[test]
fn each_rejection_reason_has_an_input_that_yields_it() {
    assert_eq!(decide(b"name=%zz&email=a").unwrap_err(), SubscribeRejection::MalformedBody);
    assert_eq!(decide(b"").unwrap_err(), SubscribeRejection::MissingBoth);
    assert_eq!(decide(b"x=1").unwrap_err(), SubscribeRejection::MissingBoth);
    assert_eq!(decide(b"email=a%40b.c").unwrap_err(), SubscribeRejection::MissingName);
    assert_eq!(decide(b"name=a").unwrap_err(), SubscribeRejection::MissingEmail);
    assert_eq!(decide(b"name=%FF&email=a%40b.c").unwrap_err(), SubscribeRejection::MalformedName);
    assert_eq!(decide(b"name=a&email=%FF").unwrap_err(), SubscribeRejection::MalformedEmail);
    assert_eq!(decide(b"name=&email=a%40b.c").unwrap_err(), SubscribeRejection::EmptyName);
    assert_eq!(decide(b"name=a&email=").unwrap_err(), SubscribeRejection::EmptyEmail);
}
