//! What the reachability probe is run on, and the message it leaves.
use vstd::prelude::*;
use crate::ssh_config::{SshHost, HostView};
use crate::form::{decimal, decimal_chars};
use crate::text::string_from;

verus! {

/// Hostname and port to probe for entry `h`, when it has both.
pub open spec fn probe_target_spec(h: HostView) -> Option<(Seq<char>, u16)> {
    match (h.hostname, h.port) {
        (Some(n), Some(p)) => Some((n, p)),
        _ => None,
    }
}

/// Where to probe entry `h`: its hostname and port, `None` when either is unset.
pub fn probe_target(h: &SshHost) -> (r: Option<(String, u16)>)
    ensures
        match r {
            Some((n, p)) => probe_target_spec(h@) == Some((n@, p)),
            None => probe_target_spec(h@) is None,
        },
{
    match (&h.hostname, h.port) {
        (Some(n), Some(p)) => Some((n.clone(), p)),
        _ => None,
    }
}

pub open spec fn probe_message_spec(hostname: Seq<char>, port: u16, success: bool) -> Seq<char> {
    "Host "@ + hostname + (if success {
        " respondeu na porta "@
    } else {
        " não respondeu na porta "@
    }) + decimal(port as nat)
}

/// The message after probing `hostname` on `port`.
pub fn probe_message(hostname: &str, port: u16, success: bool) -> (r: String)
    ensures
        r@ == probe_message_spec(hostname@, port, success),
{
    let mut r = String::new();
    r.append("Host ");
    r.append(hostname);
    if success {
        r.append(" respondeu na porta ");
    } else {
        r.append(" não respondeu na porta ");
    }
    let digits = string_from(decimal_chars(port).as_slice());
    r.append(digits.as_str());
    assert(r@ =~= probe_message_spec(hostname@, port, success));
    r
}

/// The message for an entry that has no hostname or no port.
pub fn no_target_message() -> (r: String)
    ensures
        r@ == "Host não possui hostname ou porta configurados"@,
{
    String::from_str("Host não possui hostname ou porta configurados")
}

} // verus!
