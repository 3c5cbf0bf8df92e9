//! What the public-address detection makes of the echo services' replies.
//! Fetching the replies is I/O and stays with the caller; each function
//! here takes what the fetch returned.

use vstd::prelude::*;
use crate::addr::{parse_ipv4, parse_ipv4_text, parse_ipv6, parse_ipv6_text};
use crate::error::UpdaterError;
use crate::text::{push_chars, push_str, trim, trim_ws};

verus! {

/// The public IPv4/IPv6 addresses detected for this machine, as the
/// integer values of the addresses.
///
/// `ipv6` is `None` when the host has no IPv6 connectivity, which is a normal
/// condition rather than an error.
#[derive(Clone, Copy, Debug, PartialEq, Eq, Structural)]
pub struct DetectedIps {
    pub ipv4: Option<u32>,
    pub ipv6: Option<u128>,
}

impl Default for DetectedIps {
    fn default() -> (r: Self)
        ensures
            r.ipv4 is None,
            r.ipv6 is None,
    {
        DetectedIps { ipv4: None, ipv6: None }
    }
}

/// The message for a reply that is not an address of the expected family.
pub open spec fn unparsable_reply_message(family: Seq<char>, reply: Seq<char>) -> Seq<char> {
    "could not parse "@ + family + " response '"@ + reply + "': invalid "@ + family
        + " address syntax"@
}

fn unparsable_reply(family: &str, reply: &[char]) -> (e: UpdaterError)
    ensures
        e matches UpdaterError::IpDetect(m) && m@ == unparsable_reply_message(family@, reply@),
{
    proof {
        reveal_strlit("could not parse ");
        reveal_strlit(" response '");
        reveal_strlit("': invalid ");
        reveal_strlit(" address syntax");
    }
    let mut m = String::new();
    push_str(&mut m, "could not parse ");
    push_str(&mut m, family);
    push_str(&mut m, " response '");
    push_chars(&mut m, reply);
    push_str(&mut m, "': invalid ");
    push_str(&mut m, family);
    push_str(&mut m, " address syntax");
    assert(m@ =~= unparsable_reply_message(family@, reply@));
    UpdaterError::IpDetect(m)
}

/// The IPv4 address in the reply of the IPv4 echo service: the fetch's
/// error as it is, or the reply's text without surrounding whitespace read
/// as a dotted-decimal address, or an `IpDetect` error that quotes it.
pub fn ipv4_from_fetch(fetched: Result<String, UpdaterError>) -> (r: Result<u32, UpdaterError>)
    ensures
        match fetched {
            Err(e) => r matches Err(e2) && e2 == e,
            Ok(text) => match parse_ipv4_text(trim_ws(text@)) {
                Some(a) => r == Ok::<u32, UpdaterError>(a),
                None => r matches Err(UpdaterError::IpDetect(m)) && m@ == unparsable_reply_message(
                    "IPv4"@,
                    trim_ws(text@),
                ),
            },
        },
{
    match fetched {
        Err(e) => Err(e),
        Ok(text) => {
            let t = trim(text.as_str());
            let s = crate::text::string_of(&t);
            match parse_ipv4(s.as_str()) {
                Some(a) => Ok(a),
                None => Err(unparsable_reply("IPv4", &t)),
            }
        },
    }
}

/// The IPv6 address in the reply of the IPv6 echo service: none when the
/// fetch failed (no IPv6 connectivity is a normal condition), else the
/// reply's text without surrounding whitespace read as an IPv6 address, or
/// an `IpDetect` error that quotes it.
pub fn ipv6_from_fetch(fetched: Result<String, UpdaterError>) -> (r: Result<
    Option<u128>,
    UpdaterError,
>)
    ensures
        match fetched {
            Err(_) => r == Ok::<Option<u128>, UpdaterError>(None),
            Ok(text) => match parse_ipv6_text(trim_ws(text@)) {
                Some(a) => r == Ok::<Option<u128>, UpdaterError>(Some(a)),
                None => r matches Err(UpdaterError::IpDetect(m)) && m@ == unparsable_reply_message(
                    "IPv6"@,
                    trim_ws(text@),
                ),
            },
        },
{
    match fetched {
        Err(_) => Ok(None),
        Ok(text) => {
            let t = trim(text.as_str());
            let s = crate::text::string_of(&t);
            match parse_ipv6(s.as_str()) {
                Some(a) => Ok(Some(a)),
                None => Err(unparsable_reply("IPv6", &t)),
            }
        },
    }
}

/// Combines both detections, treating a missing or failed IPv6 address as
/// absence rather than failure.
pub fn detected_from(
    ipv4: Result<u32, UpdaterError>,
    ipv6: Result<Option<u128>, UpdaterError>,
) -> (ips: DetectedIps)
    ensures
        ips.ipv4 == match ipv4 {
            Ok(a) => Some(a),
            Err(_) => None::<u32>,
        },
        ips.ipv6 == match ipv6 {
            Ok(a) => a,
            Err(_) => None::<u128>,
        },
{
    let v4 = match ipv4 {
        Ok(a) => Some(a),
        Err(_) => None,
    };
    let v6 = match ipv6 {
        Ok(a) => a,
        Err(_) => None,
    };
    DetectedIps { ipv4: v4, ipv6: v6 }
}


/// `ips` with the families that the flags exclude dropped: `ipv4_only`
/// drops the IPv6 address, `ipv6_only` drops the IPv4 address.
pub open spec fn restricted(ips: DetectedIps, ipv4_only: bool, ipv6_only: bool) -> DetectedIps {
    DetectedIps {
        ipv4: if ipv6_only {
            None
        } else {
            ips.ipv4
        },
        ipv6: if ipv4_only {
            None
        } else {
            ips.ipv6
        },
    }
}

/// Drops the IPv6 address when only IPv4 is wanted and the IPv4 address
/// when only IPv6 is wanted.
pub fn restrict_families(ips: DetectedIps, ipv4_only: bool, ipv6_only: bool) -> (r: DetectedIps)
    ensures
        r == restricted(ips, ipv4_only, ipv6_only),
{
    let mut r = ips;
    if ipv4_only {
        r.ipv6 = None;
    }
    if ipv6_only {
        r.ipv4 = None;
    }
    r
}

} // verus!
