use hmac::digest::KeyInit;
use hmac::digest::Update;
use hmac::Hmac;
use hmac::Mac;
use http::header::HeaderName;
use http::header::HeaderValue;
use http::HeaderMap;
use sha2::Sha256;
use stripe_webhook::StripeError;
use stripe_webhook::StripeEvent;
use stripe_webhook::StripeListener;

const SECRET: &str = "whsec_example";
const TIMESTAMP: &str = "1614556800";

fn sign(secret: &str, timestamp: &str, body: &str) -> String {
    let mut mac =
        <Hmac<Sha256> as KeyInit>::new_from_slice(secret.as_bytes()).expect("any key length");
    Update::update(&mut mac, format!("{timestamp}.{body}").as_bytes());
    hex::encode(mac.finalize().into_bytes())
}

fn header_for(secret: &str, timestamp: &str, body: &str) -> String {
    format!("t={timestamp},v1={}", sign(secret, timestamp, body))
}

fn headers_with(value: &str) -> HeaderMap {
    let mut headers = HeaderMap::new();
    headers.insert(
        HeaderName::from_static("stripe-signature"),
        HeaderValue::from_str(value).expect("ascii header"),
    );
    headers
}

const CHECKOUT_BODY: &str = "{\"id\":\"evt_1\",\"type\":\"checkout.session.completed\",\"data\":{\"object\":{\"amount\":42}}}";

#[test]
fn genuine_header_verifies() {
    let listener = StripeListener::new(SECRET.to_string());
    let header = header_for(SECRET, TIMESTAMP, CHECKOUT_BODY);
    assert!(listener.verify_signature(&header, CHECKOUT_BODY));
    assert!(listener.verify_header_value(Some(&header), CHECKOUT_BODY));
}

#[test]
fn uppercase_hex_verifies() {
    let listener = StripeListener::new(SECRET.to_string());
    let header = format!(
        "t={TIMESTAMP},v1={}",
        sign(SECRET, TIMESTAMP, CHECKOUT_BODY).to_uppercase()
    );
    assert!(listener.verify_signature(&header, CHECKOUT_BODY));
}

#[test]
fn bit_flip_in_signature_fails() {
    let listener = StripeListener::new(SECRET.to_string());
    let good = sign(SECRET, TIMESTAMP, CHECKOUT_BODY);
    let mut bytes = hex::decode(&good).unwrap();
    for i in 0..bytes.len() {
        for bit in 0..8 {
            bytes[i] ^= 1 << bit;
            let header = format!("t={TIMESTAMP},v1={}", hex::encode(&bytes));
            assert!(!listener.verify_signature(&header, CHECKOUT_BODY));
            bytes[i] ^= 1 << bit;
        }
    }
}

#[test]
fn changed_timestamp_fails() {
    let listener = StripeListener::new(SECRET.to_string());
    let header = format!("t=1614556801,v1={}", sign(SECRET, TIMESTAMP, CHECKOUT_BODY));
    assert!(!listener.verify_signature(&header, CHECKOUT_BODY));
}

#[test]
fn changed_body_fails() {
    let listener = StripeListener::new(SECRET.to_string());
    let header = header_for(SECRET, TIMESTAMP, CHECKOUT_BODY);
    let altered = CHECKOUT_BODY.replace("42", "43");
    assert!(!listener.verify_signature(&header, &altered));
}

#[test]
fn wrong_secret_fails() {
    let listener = StripeListener::new("whsec_other".to_string());
    let header = header_for(SECRET, TIMESTAMP, CHECKOUT_BODY);
    assert!(!listener.verify_signature(&header, CHECKOUT_BODY));
}

#[test]
fn incorrect_first_v1_fails_despite_correct_second() {
    let listener = StripeListener::new(SECRET.to_string());
    let header = format!(
        "t={TIMESTAMP},v1=deadbeef,v1={}",
        sign(SECRET, TIMESTAMP, CHECKOUT_BODY)
    );
    assert!(!listener.verify_signature(&header, CHECKOUT_BODY));
}

#[test]
fn correct_first_v1_verifies_despite_garbage_second() {
    let listener = StripeListener::new(SECRET.to_string());
    let header = format!(
        "t={TIMESTAMP},v1={},v1=deadbeef",
        sign(SECRET, TIMESTAMP, CHECKOUT_BODY)
    );
    assert!(listener.verify_signature(&header, CHECKOUT_BODY));
}

#[test]
fn missing_timestamp_fails() {
    let listener = StripeListener::new(SECRET.to_string());
    let header = format!("v1={}", sign(SECRET, TIMESTAMP, CHECKOUT_BODY));
    assert!(!listener.verify_signature(&header, CHECKOUT_BODY));
}

#[test]
fn malformed_hex_fails() {
    let listener = StripeListener::new(SECRET.to_string());
    assert!(!listener.verify_signature(&format!("t={TIMESTAMP},v1=xyz"), CHECKOUT_BODY));
    assert!(!listener.verify_signature(&format!("t={TIMESTAMP},v1=abc"), CHECKOUT_BODY));
    assert!(!listener.verify_signature(&format!("t={TIMESTAMP},v1="), CHECKOUT_BODY));
}

#[test]
fn absent_header_fails() {
    let listener = StripeListener::new(SECRET.to_string());
    assert!(!listener.verify_header_value(None, CHECKOUT_BODY));
    let result = listener.process(&HeaderMap::new(), CHECKOUT_BODY);
    assert!(matches!(result, Err(StripeError::AuthenticationFailed)));
}

#[test]
fn process_rejects_bad_signature_without_parsing() {
    let listener = StripeListener::new(SECRET.to_string());
    let headers = headers_with("t=1,v1=deadbeef");
    let result = listener.process(&headers, CHECKOUT_BODY);
    assert!(matches!(result, Err(StripeError::AuthenticationFailed)));
}

#[test]
fn process_classifies_checkout_completed() {
    let listener = StripeListener::new(SECRET.to_string());
    let headers = headers_with(&header_for(SECRET, TIMESTAMP, CHECKOUT_BODY));
    let event = listener.process(&headers, CHECKOUT_BODY).expect("authentic event");
    let body: serde_json::Value = serde_json::from_str(CHECKOUT_BODY).unwrap();
    match event {
        StripeEvent::CheckoutSessionCompleted(object) => {
            assert_eq!(object, body["data"]["object"]);
        }
        _ => panic!("expected the checkout variant"),
    }
}

#[test]
fn process_classifies_subscription_deleted() {
    let body = "{\"id\":\"evt_2\",\"type\":\"customer.subscription.deleted\",\"data\":{\"object\":{\"customer\":\"cus_9\"}}}";
    let listener = StripeListener::new(SECRET.to_string());
    let headers = headers_with(&header_for(SECRET, TIMESTAMP, body));
    let event = listener.process(&headers, body).expect("authentic event");
    let parsed: serde_json::Value = serde_json::from_str(body).unwrap();
    match event {
        StripeEvent::CustomerSubscriptionDeleted(object) => {
            assert_eq!(object, parsed["data"]["object"]);
        }
        _ => panic!("expected the subscription variant"),
    }
}

#[test]
fn process_keeps_unknown_type_as_event() {
    let body = "{\"id\":\"evt_3\",\"type\":\"something.new\",\"data\":{\"object\":{\"n\":1}}}";
    let listener = StripeListener::new(SECRET.to_string());
    let headers = headers_with(&header_for(SECRET, TIMESTAMP, body));
    let event = listener.process(&headers, body).expect("unknown types are not errors");
    let parsed: serde_json::Value = serde_json::from_str(body).unwrap();
    match event {
        StripeEvent::Unknown(object) => {
            assert_eq!(object, parsed["data"]["object"]);
        }
        _ => panic!("expected the unknown variant"),
    }
}

#[test]
fn process_reports_malformed_payload_after_authentication() {
    let listener = StripeListener::new(SECRET.to_string());
    for body in [
        "not json at all",
        "{\"id\":\"evt_4\",\"data\":{\"object\":{}}}",
        "{\"id\":\"evt_4\",\"type\":\"a.b\",\"data\":{}}",
        "{\"id\":7,\"type\":\"a.b\",\"data\":{\"object\":{}}}",
        "{\"id\":\"evt_4\",\"type\":\"a.b\"}",
    ] {
        let headers = headers_with(&header_for(SECRET, TIMESTAMP, body));
        let result = listener.process(&headers, body);
        assert!(matches!(result, Err(StripeError::MalformedPayload)));
    }
}

#[test]
fn header_lookup_is_case_insensitive() {
    let listener = StripeListener::new(SECRET.to_string());
    let headers = headers_with(&header_for(SECRET, TIMESTAMP, CHECKOUT_BODY));
    assert!(listener.process(&headers, CHECKOUT_BODY).is_ok());
}
