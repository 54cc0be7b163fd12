//! Checks that a configuration is usable before anything is built from it.

use crate::config::schema::{Config, Destination};
use crate::error::NetflowError;
use crate::ipv4::{parse_ipv4, parse_ipv4_text};
use crate::ipv6::{is_ipv6_text, parse_ipv6};
use crate::text::joined;
use vstd::prelude::*;

verus! {

/// Whether `s` is the text of an IPv4 or an IPv6 address.
pub open spec fn is_ip_text(s: Seq<char>) -> bool {
    parse_ipv4_text(s) is Some || is_ipv6_text(s)
}

/// Whether a configuration is usable: it has at least one flow entry and its
/// destination is an IP address.
pub open spec fn config_valid(config: Config) -> bool {
    config.flows.len() > 0 && is_ip_text(config.destination.ip@)
}

/// Validates the destination of a configuration: its address must be the text of an
/// IPv4 or IPv6 address. Every port is acceptable.
pub fn validate_destination(dest: &Destination) -> (res: Result<(), NetflowError>)
    ensures
        res is Ok <==> is_ip_text(dest.ip@),
        res matches Err(e) ==> e is Validation && e.text() == "Invalid IP address: "@ + dest.ip@,
{
    if parse_ipv4(dest.ip.as_str()).is_some() || parse_ipv6(dest.ip.as_str()) {
        Ok(())
    } else {
        Err(NetflowError::Validation(joined("Invalid IP address: ", dest.ip.as_str())))
    }
}

/// Validates a configuration.
pub fn validate_config(config: &Config) -> (res: Result<(), NetflowError>)
    ensures
        res is Ok <==> config_valid(*config),
        res matches Err(e) ==> e is Validation && e.text() == if config.flows.len() == 0 {
            "Configuration must contain at least one flow"@
        } else {
            "Invalid IP address: "@ + config.destination.ip@
        },
{
    if config.flows.len() == 0 {
        return Err(NetflowError::validation("Configuration must contain at least one flow"));
    }
    validate_destination(&config.destination)
}

} // verus!
