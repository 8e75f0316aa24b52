//! The event side: an authenticated body is parsed as JSON and classified
//! by its type string into a closed set of outcomes.
#![allow(unused_imports)]
use vstd::prelude::*;
use vstd::string::*;

verus! {

#[verifier::external_type_specification]
#[verifier::external_body]
pub struct ExValue(serde_json::Value);

/// The two failures the library reports: the request could not be
/// authenticated, or the authenticated body is not a well-formed event.
#[derive(Clone, Copy, Debug, PartialEq, Eq, Structural)]
pub enum StripeError {
    AuthenticationFailed,
    MalformedPayload,
}

/// A classified event: the recognized types, or `Unknown` for any other
/// type string, each carrying the event's inner `data.object` document.
#[derive(Debug)]
pub enum StripeEvent {
    CheckoutSessionCompleted(serde_json::Value),
    CustomerSubscriptionDeleted(serde_json::Value),
    Unknown(serde_json::Value),
}

/// The deserialized body: an identifier, a type string, and the inner
/// payload document.
#[derive(Debug)]
pub struct StripeEventRequest {
    pub id: String,
    pub event_type: String,
    pub data: StripeEventData,
}

/// The `data` member of an event body, holding the opaque `object`.
#[derive(Debug)]
pub struct StripeEventData {
    pub object: serde_json::Value,
}

/// How a type string picks the variant: the two recognized provider
/// types map to their variants, every other string to `Unknown`.
pub open spec fn spec_classify(event_type: Seq<char>, object: serde_json::Value) -> StripeEvent {
    if event_type == "checkout.session.completed"@ {
        StripeEvent::CheckoutSessionCompleted(object)
    } else if event_type == "customer.subscription.deleted"@ {
        StripeEvent::CustomerSubscriptionDeleted(object)
    } else {
        StripeEvent::Unknown(object)
    }
}

/// The document a body parses to, or nothing on malformed JSON: a
/// function of the text alone.
pub uninterp spec fn json_doc_of(s: Seq<char>) -> Option<serde_json::Value>;

/// The member a document holds under a key, or nothing when the key is
/// absent or the document is no object: a function of the two alone.
pub uninterp spec fn json_member_of(v: serde_json::Value, key: Seq<char>) -> Option<
    serde_json::Value,
>;

/// The text of a JSON string, or nothing for any other kind of value: a
/// function of the value alone.
pub uninterp spec fn json_string_of(v: serde_json::Value) -> Option<Seq<char>>;

/// Relies on `serde_json::from_str::<serde_json::Value>`: the body is
/// parsed as one JSON document, `None` on malformed input, and the
/// result depends on the text alone, here named `json_doc_of`.
#[verifier::external_body]
fn json_parse(s: &str) -> (r: Option<serde_json::Value>)
    ensures
        r == json_doc_of(s@),
{
    serde_json::from_str::<serde_json::Value>(s).ok()
}

/// Relies on `serde_json::Value::get`, whose result depends on the
/// document and the key alone, here named `json_member_of`; `Clone`
/// reproduces the member document exactly.
#[verifier::external_body]
fn json_member(v: &serde_json::Value, key: &str) -> (r: Option<serde_json::Value>)
    ensures
        r == json_member_of(*v, key@),
{
    v.get(key).cloned()
}

/// Relies on `serde_json::Value::as_str`, whose result depends on the
/// value alone, here named `json_string_of`: the text of a JSON string,
/// `None` for any other kind of value.
#[verifier::external_body]
fn json_as_string(v: &serde_json::Value) -> (r: Option<String>)
    ensures
        match r {
            Some(s) => json_string_of(*v) == Some(s@),
            None => json_string_of(*v) is None,
        },
{
    v.as_str().map(|s| s.to_owned())
}

/// The fields a well-formed event body carries: its string `id`, its
/// string `type`, and the `object` member under `data`; nothing when any
/// of them is missing or of the wrong kind.
pub open spec fn spec_event_fields(s: Seq<char>) -> Option<
    (Seq<char>, Seq<char>, serde_json::Value),
> {
    match json_doc_of(s) {
        None => None,
        Some(doc) => match (
            json_member_of(doc, "id"@),
            json_member_of(doc, "type"@),
            json_member_of(doc, "data"@),
        ) {
            (Some(id_value), Some(type_value), Some(data_value)) => match (
                json_string_of(id_value),
                json_string_of(type_value),
                json_member_of(data_value, "object"@),
            ) {
                (Some(id), Some(event_type), Some(object)) => Some((id, event_type, object)),
                _ => None,
            },
            _ => None,
        },
    }
}

/// Parses a body into an event request: exactly when the body carries
/// the fields of `spec_event_fields`, they are returned; every failure
/// is the one malformed-payload error.
pub fn parse_event(payload: &str) -> (r: Result<StripeEventRequest, StripeError>)
    ensures
        match spec_event_fields(payload@) {
            Some(f) => r matches Ok(req) && req.id@ == f.0 && req.event_type@ == f.1
                && req.data.object == f.2,
            None => r == Err::<StripeEventRequest, StripeError>(StripeError::MalformedPayload),
        },
{
    let doc = match json_parse(payload) {
        Some(v) => v,
        None => return Err(StripeError::MalformedPayload),
    };
    let id_value = match json_member(&doc, "id") {
        Some(v) => v,
        None => return Err(StripeError::MalformedPayload),
    };
    let id = match json_as_string(&id_value) {
        Some(s) => s,
        None => return Err(StripeError::MalformedPayload),
    };
    let type_value = match json_member(&doc, "type") {
        Some(v) => v,
        None => return Err(StripeError::MalformedPayload),
    };
    let event_type = match json_as_string(&type_value) {
        Some(s) => s,
        None => return Err(StripeError::MalformedPayload),
    };
    let data_value = match json_member(&doc, "data") {
        Some(v) => v,
        None => return Err(StripeError::MalformedPayload),
    };
    let object = match json_member(&data_value, "object") {
        Some(v) => v,
        None => return Err(StripeError::MalformedPayload),
    };
    Ok(StripeEventRequest { id, event_type, data: StripeEventData { object } })
}

/// Maps an event request to its classified event, exactly as
/// `spec_classify` says: the match is on the whole type string, and an
/// unrecognized type is `Unknown`, never a failure.
pub fn classify(req: StripeEventRequest) -> (ev: StripeEvent)
    ensures
        ev == spec_classify(req.event_type@, req.data.object),
{
    let checkout = String::from_str("checkout.session.completed");
    let deleted = String::from_str("customer.subscription.deleted");
    if req.event_type == checkout {
        StripeEvent::CheckoutSessionCompleted(req.data.object)
    } else if req.event_type == deleted {
        StripeEvent::CustomerSubscriptionDeleted(req.data.object)
    } else {
        StripeEvent::Unknown(req.data.object)
    }
}

} // verus!
