//! The check that a desired configuration passes before any command is
//! built from it.

use crate::config::{ConfigError, ConfigErrorView, Ipv4Config, Ipv4ConfigView};
use crate::subnet::{
    is_digit, is_dotted_quad, is_valid_ip, is_valid_ip_text, lemma_dotted_quad_characters,
};
use vstd::prelude::*;

verus! {

/// The first rule that `cfg` breaks, in the order adapter, address, mask,
/// gateway, primary DNS, secondary DNS; `None` where it breaks none. The
/// adapter, the address and the mask must be given; the other three may be
/// empty. No rule relates two fields.
pub open spec fn validation_failure(cfg: Ipv4ConfigView) -> Option<ConfigErrorView> {
    if cfg.adapter.len() == 0 {
        Some(ConfigErrorView::MissingAdapter)
    } else if cfg.ip.len() == 0 || !is_valid_ip_text(cfg.ip) {
        Some(ConfigErrorView::InvalidAddress)
    } else if cfg.mask.len() == 0 || !is_valid_ip_text(cfg.mask) {
        Some(ConfigErrorView::InvalidMask)
    } else if !is_valid_ip_text(cfg.gateway) {
        Some(ConfigErrorView::InvalidGateway)
    } else if !is_valid_ip_text(cfg.dns1) {
        Some(ConfigErrorView::InvalidDns1)
    } else if !is_valid_ip_text(cfg.dns2) {
        Some(ConfigErrorView::InvalidDns2)
    } else {
        None
    }
}

/// `s` holds decimal digits and dots only, so no character that means
/// anything to a command interpreter.
pub open spec fn is_plain(s: Seq<char>) -> bool {
    forall|i: int| 0 <= i < s.len() ==> #[trigger] s[i] == '.' || is_digit(s[i])
}

/// `cfg` breaks no rule.
pub open spec fn is_valid_config(cfg: Ipv4ConfigView) -> bool {
    validation_failure(cfg) is None
}

/// Checks a desired configuration and reports the first rule it breaks.
pub fn validate_config(cfg: &Ipv4Config) -> (r: Result<(), ConfigError>)
    ensures
        r is Ok <==> validation_failure(cfg@) is None,
        r matches Err(e) ==> validation_failure(cfg@) == Some(e@),
{
    if cfg.adapter.as_str().is_empty() {
        Err(ConfigError::MissingAdapter)
    } else if cfg.ip.as_str().is_empty() || !is_valid_ip(cfg.ip.as_str()) {
        Err(ConfigError::InvalidAddress)
    } else if cfg.mask.as_str().is_empty() || !is_valid_ip(cfg.mask.as_str()) {
        Err(ConfigError::InvalidMask)
    } else if !is_valid_ip(cfg.gateway.as_str()) {
        Err(ConfigError::InvalidGateway)
    } else if !is_valid_ip(cfg.dns1.as_str()) {
        Err(ConfigError::InvalidDns1)
    } else if !is_valid_ip(cfg.dns2.as_str()) {
        Err(ConfigError::InvalidDns2)
    } else {
        Ok(())
    }
}

/// A configuration without an adapter, without an address or without a
/// mask is rejected, and the error names the first of the three that is
/// missing.
pub proof fn lemma_required_fields(cfg: Ipv4ConfigView)
    requires
        cfg.adapter.len() == 0 || cfg.ip.len() == 0 || cfg.mask.len() == 0,
    ensures
        !is_valid_config(cfg),
        cfg.adapter.len() == 0 ==> validation_failure(cfg) == Some(ConfigErrorView::MissingAdapter),
        cfg.adapter.len() > 0 && cfg.ip.len() == 0 ==> validation_failure(cfg) == Some(
            ConfigErrorView::InvalidAddress,
        ),
        cfg.adapter.len() > 0 && is_dotted_quad(cfg.ip) && cfg.mask.len() == 0
            ==> validation_failure(cfg) == Some(ConfigErrorView::InvalidMask),
{
}

/// Gateway and DNS servers may be absent: a configuration with an adapter,
/// an address and a mask is accepted where each of the other three fields
/// is empty or a dotted quad.
pub proof fn lemma_optional_fields(cfg: Ipv4ConfigView)
    requires
        cfg.adapter.len() > 0,
        is_dotted_quad(cfg.ip),
        is_dotted_quad(cfg.mask),
        cfg.gateway.len() == 0 || is_dotted_quad(cfg.gateway),
        cfg.dns1.len() == 0 || is_dotted_quad(cfg.dns1),
        cfg.dns2.len() == 0 || is_dotted_quad(cfg.dns2),
    ensures
        is_valid_config(cfg),
{
}

/// What passes validation holds, besides the adapter's name, decimal
/// digits and dots only.
pub proof fn lemma_valid_fields_are_plain(cfg: Ipv4ConfigView)
    requires
        is_valid_config(cfg),
    ensures
        is_plain(cfg.ip),
        is_plain(cfg.mask),
        is_plain(cfg.gateway),
        is_plain(cfg.dns1),
        is_plain(cfg.dns2),
{
    lemma_dotted_quad_characters(cfg.ip);
    lemma_dotted_quad_characters(cfg.mask);
    if cfg.gateway.len() > 0 {
        lemma_dotted_quad_characters(cfg.gateway);
    }
    if cfg.dns1.len() > 0 {
        lemma_dotted_quad_characters(cfg.dns1);
    }
    if cfg.dns2.len() > 0 {
        lemma_dotted_quad_characters(cfg.dns2);
    }
}

} // verus!
