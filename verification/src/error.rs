//! The error type of the firewall client, and the text of each error.

use vstd::prelude::*;
use crate::text::{dec_text, push_dec, push_str};

verus! {

/// Everything that can go wrong while talking to Vultr or detecting the
/// public address.
#[derive(Debug)]
pub enum UpdaterError {
    /// A network request failed.
    Http(reqwest::Error),
    /// A Vultr response could not be decoded.
    Json(serde_json::Error),
    /// Vultr answered with a non-success HTTP status.
    Api { status: u16, message: String },
    /// The public IP address could not be determined.
    IpDetect(String),
}

/// The text of a `reqwest::Error` (its `Display`). Nothing is claimed of
/// the text: it depends on what went wrong inside reqwest.
#[verifier::external_body]
pub(crate) fn reqwest_error_text(e: &reqwest::Error) -> String {
    e.to_string()
}

/// The text of a `serde_json::Error` (its `Display`). Nothing is claimed of
/// the text: it depends on where and how decoding failed.
#[verifier::external_body]
pub(crate) fn json_error_text(e: &serde_json::Error) -> String {
    e.to_string()
}

/// The fixed text that opens the message of each kind of error.
pub open spec fn error_prefix(e: UpdaterError) -> Seq<char> {
    match e {
        UpdaterError::Http(_) => "network request failed: "@,
        UpdaterError::Json(_) => "failed to parse Vultr response: "@,
        UpdaterError::Api { .. } => "Vultr API returned an error (HTTP "@,
        UpdaterError::IpDetect(_) => "could not determine public IP address: "@,
    }
}

/// The whole message of an error whose details are the library's own: API
/// and address-detection errors. Network and decoding errors carry text
/// written by reqwest or serde_json, which is not known here.
pub open spec fn known_message(e: UpdaterError) -> Option<Seq<char>> {
    match e {
        UpdaterError::Api { status, message } => Some(
            error_prefix(e) + dec_text(status as nat) + "): "@ + message@,
        ),
        UpdaterError::IpDetect(m) => Some(error_prefix(e) + m@),
        _ => None,
    }
}

/// What every message of an error satisfies: it opens with the kind's
/// prefix, and it is the known message where there is one.
pub open spec fn is_message_of(text: Seq<char>, e: UpdaterError) -> bool {
    &&& text.len() >= error_prefix(e).len()
    &&& text.take(error_prefix(e).len() as int) == error_prefix(e)
    &&& (known_message(e) matches Some(m) ==> text == m)
}

impl UpdaterError {
    /// The error's human-readable message: a fixed prefix per
    /// kind, then the details; for an API error the HTTP status and the
    /// body that Vultr sent.
    pub fn message(&self) -> (s: String)
        ensures
            is_message_of(s@, *self),
    {
        proof {
            reveal_strlit("network request failed: ");
            reveal_strlit("failed to parse Vultr response: ");
            reveal_strlit("Vultr API returned an error (HTTP ");
            reveal_strlit("could not determine public IP address: ");
            reveal_strlit("): ");
        }
        let mut s = String::new();
        match self {
            UpdaterError::Http(e) => {
                push_str(&mut s, "network request failed: ");
                let detail = reqwest_error_text(e);
                push_str(&mut s, detail.as_str());
            },
            UpdaterError::Json(e) => {
                push_str(&mut s, "failed to parse Vultr response: ");
                let detail = json_error_text(e);
                push_str(&mut s, detail.as_str());
            },
            UpdaterError::Api { status, message } => {
                push_str(&mut s, "Vultr API returned an error (HTTP ");
                push_dec(&mut s, *status as u128);
                push_str(&mut s, "): ");
                push_str(&mut s, message.as_str());
            },
            UpdaterError::IpDetect(m) => {
                push_str(&mut s, "could not determine public IP address: ");
                push_str(&mut s, m.as_str());
            },
        }
        assert(s@.take(error_prefix(*self).len() as int) =~= error_prefix(*self));
        s
    }
}

} // verus!
