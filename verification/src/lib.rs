//! Authentication of webhook requests from a payment provider.
//!
//! The core is the signature protocol: the `Stripe-Signature` header is
//! parsed into a timestamp and a hex-encoded digest, the signed payload
//! `"{timestamp}.{body}"` is rebuilt, its keyed HMAC-SHA256 digest is
//! computed, and the two digests are compared in constant time.  An
//! authenticated body is then parsed as JSON and classified into a closed
//! set of typed events.
#![allow(unused_imports)]
use vstd::prelude::*;

pub mod crypto;
pub mod event;
pub mod header;
pub mod hexcode;
pub mod listener;

pub use event::StripeError;
pub use event::StripeEvent;
pub use event::StripeEventData;
pub use event::StripeEventRequest;
pub use event::classify;
pub use event::parse_event;
pub use listener::StripeListener;
