use serde_json::Value;
use stripe_webhook::classify;
use stripe_webhook::parse_event;
use stripe_webhook::StripeError;
use stripe_webhook::StripeEvent;
use stripe_webhook::StripeEventData;
use stripe_webhook::StripeEventRequest;
use stripe_webhook::StripeListener;

fn listener() -> StripeListener {
    StripeListener::new("k".to_string())
}

#[test]
fn parse_signature_plain_header() {
    let parsed = listener().parse_signature("t=1614556800,v1=abcdef012345");
    assert_eq!(
        parsed,
        Some(("1614556800".to_string(), "abcdef012345".to_string()))
    );
}

#[test]
fn parse_signature_first_t_wins() {
    let parsed = listener().parse_signature("t=1,t=2,v1=aa");
    assert_eq!(parsed, Some(("1".to_string(), "aa".to_string())));
}

#[test]
fn parse_signature_first_v1_wins() {
    let parsed = listener().parse_signature("t=1,v1=aa,v1=bb");
    assert_eq!(parsed, Some(("1".to_string(), "aa".to_string())));
}

#[test]
fn parse_signature_ignores_unknown_keys_and_bad_segments() {
    let parsed = listener().parse_signature("scheme=hmac,junk,=empty,t=9,v0=ff,v1=ab");
    assert_eq!(parsed, Some(("9".to_string(), "ab".to_string())));
}

#[test]
fn parse_signature_keeps_later_equals_in_value() {
    let parsed = listener().parse_signature("t=12=34,v1=aa");
    assert_eq!(parsed, Some(("12=34".to_string(), "aa".to_string())));
}

#[test]
fn parse_signature_empty_values_are_kept() {
    let parsed = listener().parse_signature("t=,v1=");
    assert_eq!(parsed, Some((String::new(), String::new())));
}

#[test]
fn parse_signature_missing_key_is_none() {
    let listener = listener();
    assert_eq!(listener.parse_signature("v1=aa"), None);
    assert_eq!(listener.parse_signature("t=1"), None);
    assert_eq!(listener.parse_signature(""), None);
    assert_eq!(listener.parse_signature("t,v1"), None);
}

#[test]
fn classify_matches_exact_type_strings() {
    let request = |ty: &str| StripeEventRequest {
        id: "evt".to_string(),
        event_type: ty.to_string(),
        data: StripeEventData { object: Value::Null },
    };
    assert!(matches!(
        classify(request("checkout.session.completed")),
        StripeEvent::CheckoutSessionCompleted(Value::Null)
    ));
    assert!(matches!(
        classify(request("customer.subscription.deleted")),
        StripeEvent::CustomerSubscriptionDeleted(Value::Null)
    ));
    assert!(matches!(
        classify(request("checkout.session.completed2")),
        StripeEvent::Unknown(Value::Null)
    ));
    assert!(matches!(
        classify(request("")),
        StripeEvent::Unknown(Value::Null)
    ));
}

#[test]
fn parse_event_reads_fields() {
    let body = "{\"id\":\"evt_9\",\"type\":\"a.b\",\"data\":{\"object\":[1,2]},\"extra\":true}";
    let request = parse_event(body).expect("well-formed event");
    assert_eq!(request.id, "evt_9");
    assert_eq!(request.event_type, "a.b");
    let expected: Value = serde_json::from_str("[1,2]").unwrap();
    assert_eq!(request.data.object, expected);
}

#[test]
fn parse_event_rejects_non_object_fields() {
    assert!(matches!(
        parse_event("{\"id\":\"evt\",\"type\":3,\"data\":{\"object\":{}}}"),
        Err(StripeError::MalformedPayload)
    ));
    assert!(matches!(
        parse_event("{\"id\":\"evt\",\"type\":\"a\",\"data\":7}"),
        Err(StripeError::MalformedPayload)
    ));
    assert!(matches!(parse_event("[]"), Err(StripeError::MalformedPayload)));
}
