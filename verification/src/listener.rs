//! The listener: it owns the shared secret, decides whether a request's
//! signature header authenticates its body, and classifies the body of an
//! authenticated request.
#![allow(unused_imports)]
use vstd::prelude::*;
use vstd::string::*;

use crate::crypto::ct_eq_bytes;
use crate::crypto::hmac_sha256;
use crate::crypto::hmac_sha256_digest;
use crate::event::classify;
use crate::event::parse_event;
use crate::event::spec_classify;
use crate::event::spec_event_fields;
use crate::event::StripeError;
use crate::event::StripeEvent;
use crate::header::key_t;
use crate::header::key_v1;
use crate::header::lemma_first_value_cons;
use crate::header::lemma_first_value_single;
use crate::header::lemma_segment_t;
use crate::header::lemma_segment_v1;
use crate::header::lemma_spec_find_at;
use crate::header::spec_first_value;
use crate::header::spec_parse_signature;
use crate::header::spec_segment_value;
use crate::hexcode::hex_decode;
use crate::hexcode::hex_decode_spec;
use crate::hexcode::hex_encode_spec;
use crate::hexcode::lemma_hex_round_trip;
use crate::hexcode::valid_hex;

verus! {

#[verifier::external_type_specification]
#[verifier::external_body]
#[verifier::reject_recursive_types(T)]
pub struct ExHeaderMap<T>(http::HeaderMap<T>);

#[verifier::external_type_specification]
#[verifier::external_body]
pub struct ExHeaderValue(http::HeaderValue);

/// The text of the map's `Stripe-Signature` entry, or nothing when the
/// entry is absent or not visible ASCII: a function of the map alone.
pub uninterp spec fn stripe_sig_text(headers: http::HeaderMap) -> Option<Seq<char>>;

/// Relies on `http::HeaderMap::get` (the first value under the name,
/// looked up case-insensitively) and `http::HeaderValue::to_str` (`Some`
/// exactly of visible ASCII).  Their composition depends on the map
/// alone, here named `stripe_sig_text`.
#[verifier::external_body]
fn stripe_signature_text(headers: &http::HeaderMap) -> (r: Option<String>)
    ensures
        match r {
            Some(s) => stripe_sig_text(*headers) == Some(s@),
            None => stripe_sig_text(*headers) is None,
        },
{
    headers.get("Stripe-Signature").and_then(|v| v.to_str().ok()).map(|s| s.to_owned())
}

/// The exact byte string that is signed: the timestamp, a literal
/// period, and the unmodified body.
pub open spec fn spec_signed_payload(timestamp: Seq<char>, body: Seq<char>) -> Seq<char> {
    timestamp + seq!['.'] + body
}

/// When a header value authenticates a body under a secret: the header
/// parses to a timestamp and a first `v1` value, that value is
/// well-formed hex, and it decodes to the digest of the signed payload.
pub open spec fn spec_verify_sig(secret: Seq<char>, header: Seq<char>, body: Seq<char>) -> bool {
    match spec_parse_signature(header) {
        Some((timestamp, sig_hex)) => valid_hex(sig_hex) && hex_decode_spec(sig_hex)
            == hmac_sha256(secret, spec_signed_payload(timestamp, body)),
        None => false,
    }
}

/// Authenticates webhook requests against one shared secret and maps
/// their bodies to typed events.  It holds no other state, and the
/// secret is read-only for its lifetime.
pub struct StripeListener {
    secret: String,
}

impl View for StripeListener {
    type V = Seq<char>;

    closed spec fn view(&self) -> Seq<char> {
        self.secret@
    }
}

impl StripeListener {
    /// A listener over the given shared secret.
    pub fn new(secret: String) -> (listener: Self)
        ensures
            listener@ == secret@,
    {
        StripeListener { secret }
    }

    /// Splits the header on commas, each segment at its first `=`, and
    /// keeps the first `t` value and the first `v1` value; both must be
    /// present.  Segments without `=` and unknown keys are ignored.
    pub fn parse_signature(&self, header: &str) -> (r: Option<(String, String)>)
        ensures
            match r {
                Some(p) => spec_parse_signature(header@) == Some((p.0@, p.1@)),
                None => spec_parse_signature(header@) is None,
            },
    {
        let n = header.unicode_len();
        let mut ts: Option<String> = None;
        let mut sig: Option<String> = None;
        let mut pos: usize = 0;
        proof {
            assert(header@.skip(0) =~= header@);
        }
        while pos <= n
            invariant_except_break
                n == header@.len(),
                pos <= n,
                match ts {
                    Some(v) => spec_first_value(header@, key_t()) == Some(v@),
                    None => spec_first_value(header@, key_t()) == spec_first_value(
                        header@.skip(pos as int),
                        key_t(),
                    ),
                },
                match sig {
                    Some(v) => spec_first_value(header@, key_v1()) == Some(v@),
                    None => spec_first_value(header@, key_v1()) == spec_first_value(
                        header@.skip(pos as int),
                        key_v1(),
                    ),
                },
            ensures
                match ts {
                    Some(v) => spec_first_value(header@, key_t()) == Some(v@),
                    None => spec_first_value(header@, key_t()) is None,
                },
                match sig {
                    Some(v) => spec_first_value(header@, key_v1()) == Some(v@),
                    None => spec_first_value(header@, key_v1()) is None,
                },
            decreases n - pos,
        {
            let mut e: usize = pos;
            while e < n && header.get_char(e) != ','
                invariant
                    n == header@.len(),
                    pos <= e <= n,
                    forall|k: int| pos <= k < e ==> header@[k] != ',',
                decreases n - e,
            {
                e = e + 1;
            }
            let mut q: usize = pos;
            while q < e && header.get_char(q) != '='
                invariant
                    n == header@.len(),
                    e <= n,
                    pos <= q <= e,
                    forall|k: int| pos <= k < q ==> header@[k] != '=',
                decreases e - q,
            {
                q = q + 1;
            }
            let ghost u = header@.skip(pos as int);
            let ghost seg = header@.subrange(pos as int, e as int);
            proof {
                assert(!seg.contains(',')) by {
                    assert forall|k: int| 0 <= k < seg.len() implies seg[k] != ',' by {
                        assert(seg[k] == header@[pos + k]);
                    }
                }
                if e < n {
                    assert(u =~= seg + seq![','] + header@.skip(e as int + 1));
                    lemma_first_value_cons(seg, header@.skip(e as int + 1), key_t());
                    lemma_first_value_cons(seg, header@.skip(e as int + 1), key_v1());
                } else {
                    assert(u =~= seg);
                    lemma_first_value_single(seg, key_t());
                    lemma_first_value_single(seg, key_v1());
                }
                if q < e {
                    assert forall|k: int| 0 <= k < q - pos implies seg[k] != '=' by {
                        assert(seg[k] == header@[pos + k]);
                    }
                    assert(seg[q - pos] == header@[q as int]);
                    lemma_spec_find_at(seg, '=', q as int - pos as int);
                    assert(seg.take(q as int - pos as int) =~= header@.subrange(
                        pos as int,
                        q as int,
                    ));
                    assert(seg.skip(q as int - pos as int + 1) =~= header@.subrange(
                        q as int + 1,
                        e as int,
                    ));
                } else {
                    assert forall|k: int| 0 <= k < seg.len() implies seg[k] != '=' by {
                        assert(seg[k] == header@[pos + k]);
                    }
                    lemma_spec_find_at(seg, '=', seg.len() as int);
                    assert(spec_segment_value(seg, key_t()) is None);
                    assert(spec_segment_value(seg, key_v1()) is None);
                }
            }
            if q < e {
                if q - pos == 1 && header.get_char(pos) == 't' {
                    proof {
                        assert(seg.take(1) =~= key_t());
                        assert(key_v1().len() == 2);
                        assert(spec_segment_value(seg, key_v1()) is None);
                    }
                    if ts.is_none() {
                        let value = String::from_str(header.substring_char(q + 1, e));
                        proof {
                            assert(spec_segment_value(seg, key_t()) == Some(value@));
                        }
                        ts = Some(value);
                    }
                } else if q - pos == 2 && header.get_char(pos) == 'v' && header.get_char(pos + 1)
                    == '1' {
                    proof {
                        assert(seg.take(2) =~= key_v1());
                        assert(key_t().len() == 1);
                        assert(spec_segment_value(seg, key_t()) is None);
                    }
                    if sig.is_none() {
                        let value = String::from_str(header.substring_char(q + 1, e));
                        proof {
                            assert(spec_segment_value(seg, key_v1()) == Some(value@));
                        }
                        sig = Some(value);
                    }
                } else {
                    proof {
                        let key = seg.take(q as int - pos as int);
                        assert(key.len() == q - pos);
                        if q - pos == 1 {
                            assert(key[0] == header@[pos as int]);
                            assert(key_t() =~= seq!['t']);
                            assert(key != key_t());
                        } else {
                            assert(key.len() != key_t().len());
                        }
                        if q - pos == 2 {
                            assert(key[0] == header@[pos as int]);
                            assert(key[1] == header@[pos as int + 1]);
                            assert(key_v1() =~= seq!['v', '1']);
                            assert(key != key_v1());
                        } else {
                            assert(key.len() != key_v1().len());
                        }
                        assert(spec_segment_value(seg, key_t()) is None);
                        assert(spec_segment_value(seg, key_v1()) is None);
                    }
                }
            }
            if e == n {
                break ;
            }
            pos = e + 1;
        }
        match (ts, sig) {
            (Some(t), Some(s)) => Some((t, s)),
            _ => None,
        }
    }

    /// Decides whether a signature header authenticates a body under
    /// this listener's secret, exactly as `spec_verify_sig` says.  The
    /// digest comparison runs in constant time.
    pub fn verify_signature(&self, signature_header: &str, payload: &str) -> (valid: bool)
        ensures
            valid == spec_verify_sig(self@, signature_header@, payload@),
    {
        let parsed = self.parse_signature(signature_header);
        let (timestamp, signature_hex) = match parsed {
            Some(p) => p,
            None => {
                return false;
            },
        };
        let ghost timestamp_chars = timestamp@;
        let mut signed_payload = timestamp;
        signed_payload.append(".");
        signed_payload.append(payload);
        proof {
            reveal_strlit(".");
            assert(signed_payload@ =~= spec_signed_payload(timestamp_chars, payload@));
        }
        let expected = hmac_sha256_digest(self.secret.as_str(), signed_payload.as_str());
        let sig_bytes = match hex_decode(signature_hex.as_str()) {
            Some(v) => v,
            None => {
                return false;
            },
        };
        if expected.len() != sig_bytes.len() {
            return false;
        }
        ct_eq_bytes(expected.as_slice(), sig_bytes.as_slice())
    }

    /// The decision for a header that may be absent: a missing header
    /// never authenticates anything.
    pub fn verify_header_value(&self, header: Option<&str>, payload: &str) -> (valid: bool)
        ensures
            header matches Some(h) ==> valid == spec_verify_sig(self@, h@, payload@),
            header is None ==> !valid,
    {
        match header {
            Some(h) => self.verify_signature(h, payload),
            None => false,
        }
    }

    /// Verifies the `Stripe-Signature` header against the raw body and,
    /// only on success, parses the body and classifies the event.  The
    /// one authentication error comes exactly when the header is absent
    /// or does not verify, and the body of such a request is never
    /// parsed; an authenticated body yields its classified event, or the
    /// distinct malformed-payload error.
    pub fn process(&self, headers: &http::HeaderMap, payload: &str) -> (r: Result<
        StripeEvent,
        StripeError,
    >)
        ensures
            r == Err::<StripeEvent, StripeError>(StripeError::AuthenticationFailed) <==> !(
            stripe_sig_text(*headers) matches Some(h) && spec_verify_sig(self@, h, payload@)),
            (stripe_sig_text(*headers) matches Some(h) && spec_verify_sig(self@, h, payload@))
                ==> (match spec_event_fields(payload@) {
                Some(f) => r matches Ok(ev) && ev == spec_classify(f.1, f.2),
                None => r == Err::<StripeEvent, StripeError>(StripeError::MalformedPayload),
            }),
    {
        let header_owned: Option<String> = stripe_signature_text(headers);
        let header_value: Option<&str> = match &header_owned {
            Some(s) => Some(s.as_str()),
            None => None,
        };
        if !self.verify_header_value(header_value, payload) {
            return Err(StripeError::AuthenticationFailed);
        }
        let request = match parse_event(payload) {
            Ok(req) => req,
            Err(e) => {
                return Err(e);
            },
        };
        Ok(classify(request))
    }
}

/// The header a genuine sender builds: the timestamp under `t`, then the
/// lowercase hex of the digest of the signed payload under `v1`.
pub open spec fn spec_genuine_header(secret: Seq<char>, timestamp: Seq<char>, body: Seq<char>) -> Seq<
    char,
> {
    seq!['t', '='] + timestamp + seq![','] + seq!['v', '1', '='] + hex_encode_spec(
        hmac_sha256(secret, spec_signed_payload(timestamp, body)),
    )
}

/// A header of the form `t=<timestamp>,v1=<hex>` parses to exactly that
/// timestamp and that hex value, whatever they hold besides commas.
pub proof fn lemma_parse_timestamp_then_v1(timestamp: Seq<char>, sig_hex: Seq<char>)
    requires
        !timestamp.contains(','),
        !sig_hex.contains(','),
    ensures
        spec_parse_signature(
            seq!['t', '='] + timestamp + seq![','] + seq!['v', '1', '='] + sig_hex,
        ) == Some((timestamp, sig_hex)),
{
    let seg1 = seq!['t', '='] + timestamp;
    let seg2 = seq!['v', '1', '='] + sig_hex;
    let h = seq!['t', '='] + timestamp + seq![','] + seq!['v', '1', '='] + sig_hex;
    assert(h =~= seg1 + seq![','] + seg2);
    assert(!seg1.contains(',')) by {
        assert forall|k: int| 0 <= k < seg1.len() implies seg1[k] != ',' by {
            if k >= 2 {
                assert(seg1[k] == timestamp[k - 2]);
            }
        }
    }
    assert(!seg2.contains(',')) by {
        assert forall|k: int| 0 <= k < seg2.len() implies seg2[k] != ',' by {
            if k >= 3 {
                assert(seg2[k] == sig_hex[k - 3]);
            }
        }
    }
    lemma_segment_t(timestamp);
    lemma_segment_v1(sig_hex);
    lemma_first_value_cons(seg1, seg2, key_t());
    lemma_first_value_cons(seg1, seg2, key_v1());
    lemma_first_value_single(seg2, key_v1());
}

/// A header built from the genuine digest of the signed payload
/// verifies against that secret and body.  A timestamp holding a comma
/// is the one shape left out: the split would cut it apart.
pub proof fn lemma_genuine_header_verifies(secret: Seq<char>, timestamp: Seq<char>, body: Seq<char>)
    requires
        !timestamp.contains(','),
    ensures
        spec_verify_sig(secret, spec_genuine_header(secret, timestamp, body), body),
{
    let digest = hmac_sha256(secret, spec_signed_payload(timestamp, body));
    lemma_hex_round_trip(digest);
    assert(!hex_encode_spec(digest).contains(','));
    lemma_parse_timestamp_then_v1(timestamp, hex_encode_spec(digest));
}

/// A header carrying the hex of any digest other than the genuine one
/// fails: altering the decoded signature in any position breaks
/// verification.
pub proof fn lemma_altered_signature_fails(
    secret: Seq<char>,
    timestamp: Seq<char>,
    body: Seq<char>,
    sig: Seq<u8>,
)
    requires
        !timestamp.contains(','),
        sig != hmac_sha256(secret, spec_signed_payload(timestamp, body)),
    ensures
        !spec_verify_sig(
            secret,
            seq!['t', '='] + timestamp + seq![','] + seq!['v', '1', '='] + hex_encode_spec(sig),
            body,
        ),
{
    lemma_hex_round_trip(sig);
    assert(!hex_encode_spec(sig).contains(','));
    lemma_parse_timestamp_then_v1(timestamp, hex_encode_spec(sig));
}

/// A tampered timestamp or body fails: a header whose signature was
/// computed over one signed payload does not verify a request whose own
/// signed payload digests differently.  Two payloads digesting alike is
/// the one case left out; the digest function is opaque here, so freedom
/// from collisions is the hypothesis, not a conclusion.
pub proof fn lemma_tampered_request_fails(
    secret: Seq<char>,
    signed_timestamp: Seq<char>,
    signed_body: Seq<char>,
    header_timestamp: Seq<char>,
    body: Seq<char>,
)
    requires
        !header_timestamp.contains(','),
        hmac_sha256(secret, spec_signed_payload(header_timestamp, body)) != hmac_sha256(
            secret,
            spec_signed_payload(signed_timestamp, signed_body),
        ),
    ensures
        !spec_verify_sig(
            secret,
            seq!['t', '='] + header_timestamp + seq![','] + seq!['v', '1', '='] + hex_encode_spec(
                hmac_sha256(secret, spec_signed_payload(signed_timestamp, signed_body)),
            ),
            body,
        ),
{
    lemma_altered_signature_fails(
        secret,
        header_timestamp,
        body,
        hmac_sha256(secret, spec_signed_payload(signed_timestamp, signed_body)),
    );
}

/// Only the first `v1` entry is honored: when it does not carry the
/// genuine digest, the header fails, whatever a later `v1` entry holds
/// — even the correct signature.
pub proof fn lemma_first_v1_wins(
    secret: Seq<char>,
    timestamp: Seq<char>,
    body: Seq<char>,
    first_hex: Seq<char>,
    second_hex: Seq<char>,
)
    requires
        !timestamp.contains(','),
        !first_hex.contains(','),
        !(valid_hex(first_hex) && hex_decode_spec(first_hex) == hmac_sha256(
            secret,
            spec_signed_payload(timestamp, body),
        )),
    ensures
        !spec_verify_sig(
            secret,
            seq!['t', '='] + timestamp + seq![','] + seq!['v', '1', '='] + first_hex + seq![',']
                + seq!['v', '1', '='] + second_hex,
            body,
        ),
{
    let seg1 = seq!['t', '='] + timestamp;
    let seg2 = seq!['v', '1', '='] + first_hex;
    let seg3 = seq!['v', '1', '='] + second_hex;
    let h = seq!['t', '='] + timestamp + seq![','] + seq!['v', '1', '='] + first_hex + seq![',']
        + seq!['v', '1', '='] + second_hex;
    assert(h =~= seg1 + seq![','] + (seg2 + seq![','] + seg3));
    assert(!seg1.contains(',')) by {
        assert forall|k: int| 0 <= k < seg1.len() implies seg1[k] != ',' by {
            if k >= 2 {
                assert(seg1[k] == timestamp[k - 2]);
            }
        }
    }
    assert(!seg2.contains(',')) by {
        assert forall|k: int| 0 <= k < seg2.len() implies seg2[k] != ',' by {
            if k >= 3 {
                assert(seg2[k] == first_hex[k - 3]);
            }
        }
    }
    lemma_segment_t(timestamp);
    lemma_segment_v1(first_hex);
    lemma_first_value_cons(seg1, seg2 + seq![','] + seg3, key_t());
    lemma_first_value_cons(seg1, seg2 + seq![','] + seg3, key_v1());
    lemma_first_value_cons(seg2, seg3, key_v1());
}

/// A header in which no segment carries the key `t` fails, however
/// correct its signature entries are.
pub proof fn lemma_missing_timestamp_fails(secret: Seq<char>, header: Seq<char>, body: Seq<char>)
    requires
        spec_first_value(header, key_t()) is None,
    ensures
        !spec_verify_sig(secret, header, body),
{
}

} // verus!
