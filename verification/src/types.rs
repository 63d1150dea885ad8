//! The rules of an access-control list, one by one, and their text form.

use vstd::prelude::*;
use crate::api_key::RateLimit;
use crate::decimal::{decimal, push_decimal};

verus! {

/// The model that a rule speaks of.
#[derive(Debug, Clone)]
pub struct AclRuleTokenModel(pub String);

/// A token budget.
#[derive(Debug, Clone)]
pub struct AclRuleTokenLimit(pub u64);

/// A number of requests.
#[derive(Debug, Clone)]
pub struct AclRuleRequests(pub u32);

/// A window of time, in seconds.
#[derive(Debug, Clone)]
pub struct AclRuleWindowSeconds(pub u32);

/// One rule of an access-control list.
#[derive(Debug, Clone)]
pub enum AclRule {
    /// The model is allowed.
    Model(AclRuleTokenModel),
    /// The model has a token budget.
    TokenLimit(AclRuleTokenModel, AclRuleTokenLimit),
    /// So many requests are allowed in each window.
    RateLimit(AclRuleRequests, AclRuleWindowSeconds),
}

/// The text form of a rule: `model::<model>`, `token::<model>::<limit>` or
/// `rate::<requests>::<seconds>`.
pub open spec fn rule_text(rule: AclRule) -> Seq<char> {
    match rule {
        AclRule::Model(m) => "model::"@ + m.0@,
        AclRule::TokenLimit(m, l) => "token::"@ + m.0@ + "::"@ + decimal(l.0 as nat),
        AclRule::RateLimit(r, w) => "rate::"@ + decimal(r.0 as nat) + "::"@ + decimal(w.0 as nat),
    }
}

impl AclRule {
    /// The text form of the rule.
    pub fn to_string(&self) -> (r: String)
        ensures
            r@ == rule_text(*self),
    {
        match self {
            AclRule::Model(m) => {
                let mut out = "model::".to_owned();
                out.append(m.0.as_str());
                out
            },
            AclRule::TokenLimit(m, l) => {
                let mut out = "token::".to_owned();
                out.append(m.0.as_str());
                out.append("::");
                push_decimal(&mut out, l.0);
                out
            },
            AclRule::RateLimit(r, w) => {
                let mut out = "rate::".to_owned();
                push_decimal(&mut out, r.0 as u64);
                out.append("::");
                push_decimal(&mut out, w.0 as u64);
                out
            },
        }
    }

    /// The rule that allows `model`.
    pub fn model(model: String) -> (r: AclRule)
        ensures
            r == AclRule::Model(AclRuleTokenModel(model)),
    {
        AclRule::Model(AclRuleTokenModel(model))
    }

    /// The rule that gives `model` the budget `limit`.
    pub fn token_limit(model: String, limit: u64) -> (r: AclRule)
        ensures
            r == AclRule::TokenLimit(AclRuleTokenModel(model), AclRuleTokenLimit(limit)),
    {
        AclRule::TokenLimit(AclRuleTokenModel(model), AclRuleTokenLimit(limit))
    }

    /// The rule that allows `requests` requests in each window of
    /// `window_seconds` seconds.
    pub fn rate_limit(requests: u32, window_seconds: u32) -> (r: AclRule)
        ensures
            r == AclRule::RateLimit(
                AclRuleRequests(requests),
                AclRuleWindowSeconds(window_seconds),
            ),
    {
        AclRule::RateLimit(AclRuleRequests(requests), AclRuleWindowSeconds(window_seconds))
    }
}

impl From<String> for AclRule {
    fn from(value: String) -> (r: AclRule) {
        AclRule::model(value)
    }
}

impl vstd::std_specs::convert::FromSpecImpl<String> for AclRule {
    open spec fn obeys_from_spec() -> bool {
        true
    }

    open spec fn from_spec(value: String) -> AclRule {
        AclRule::Model(AclRuleTokenModel(value))
    }
}

impl From<(String, u64)> for AclRule {
    fn from(value: (String, u64)) -> (r: AclRule) {
        AclRule::token_limit(value.0, value.1)
    }
}

impl vstd::std_specs::convert::FromSpecImpl<(String, u64)> for AclRule {
    open spec fn obeys_from_spec() -> bool {
        true
    }

    open spec fn from_spec(value: (String, u64)) -> AclRule {
        AclRule::TokenLimit(AclRuleTokenModel(value.0), AclRuleTokenLimit(value.1))
    }
}

impl From<(u32, u32)> for AclRule {
    fn from(value: (u32, u32)) -> (r: AclRule) {
        AclRule::rate_limit(value.0, value.1)
    }
}

impl vstd::std_specs::convert::FromSpecImpl<(u32, u32)> for AclRule {
    open spec fn obeys_from_spec() -> bool {
        true
    }

    open spec fn from_spec(value: (u32, u32)) -> AclRule {
        AclRule::RateLimit(AclRuleRequests(value.0), AclRuleWindowSeconds(value.1))
    }
}

impl From<RateLimit> for AclRule {
    fn from(value: RateLimit) -> (r: AclRule) {
        AclRule::rate_limit(value.requests, value.window_seconds)
    }
}

impl vstd::std_specs::convert::FromSpecImpl<RateLimit> for AclRule {
    open spec fn obeys_from_spec() -> bool {
        true
    }

    open spec fn from_spec(value: RateLimit) -> AclRule {
        AclRule::RateLimit(
            AclRuleRequests(value.requests),
            AclRuleWindowSeconds(value.window_seconds),
        )
    }
}

} // verus!
