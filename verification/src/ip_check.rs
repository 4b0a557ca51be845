//! Where the public address of the service is asked for, and how it is found
//! in the answer.
use regex::Regex;
use vstd::prelude::*;
use crate::api_proxy::{opt_text, trimmed_or_none};
use crate::error::{info_err, is_info_error, TuliproxError};
use crate::regex_engine::{built_from, compile, regex_accepts, regex_fault};
use crate::text::{concat2, concat3, trim};

verus! {

/// The addresses to ask and the patterns to read the answers with.
#[derive(Debug, Clone)]
pub struct IpCheckConfig {
    /// Address that may answer with both kinds of address.
    pub url: Option<String>,
    /// Address that answers with an IPv4 address.
    pub url_ipv4: Option<String>,
    /// Address that answers with an IPv6 address.
    pub url_ipv6: Option<String>,
    /// Pattern that finds the IPv4 address in an answer.
    pub pattern_ipv4: Option<String>,
    /// Pattern that finds the IPv6 address in an answer.
    pub pattern_ipv6: Option<String>,
    pub t_pattern_ipv4: Option<Regex>,
    pub t_pattern_ipv6: Option<Regex>,
}

pub open spec fn msg_no_url() -> Seq<char> {
    "No url provided!"@
}

/// What the engine says of a pattern it does not accept.
pub open spec fn fault_text(pattern: Seq<char>) -> Seq<char> {
    match regex_fault(pattern) {
        Some(text) => text,
        None => Seq::empty(),
    }
}

/// The message for a pattern the engine does not accept: the pattern, and
/// what the engine says of it.
pub open spec fn msg_invalid_ipv4(pattern: Seq<char>) -> Seq<char> {
    "Invalid IPv4 regex: "@ + pattern + " "@ + fault_text(pattern)
}

/// The message for a pattern the engine does not accept: the pattern, and
/// what the engine says of it.
pub open spec fn msg_invalid_ipv6(pattern: Seq<char>) -> Seq<char> {
    "Invalid IPv6 regex: "@ + pattern + " "@ + fault_text(pattern)
}

/// Whether an optional pattern is one the engine accepts; none is.
pub open spec fn pattern_ok(pattern: Option<String>) -> bool {
    pattern matches Some(p) ==> regex_accepts(p@)
}

/// Whether a compiled pattern is that of the configured text, compiled the
/// plain way.
pub open spec fn compiled_from(compiled: Option<Regex>, pattern: Option<String>) -> bool {
    match pattern {
        Some(p) => compiled matches Some(re) && built_from(re, p@),
        None => true,
    }
}

fn trim_or_none(value: &Option<String>) -> (r: Option<String>)
    ensures
        opt_text(r) == trimmed_or_none(opt_text(*value)),
{
    match value {
        Some(text) => {
            let t = trim(text.as_str());
            if t.as_str().unicode_len() == 0 {
                None
            } else {
                Some(t)
            }
        },
        None => None,
    }
}

impl IpCheckConfig {
    /// The error that keeps the configuration from being prepared, if any: no
    /// address at all, or a pattern the engine does not accept.
    pub open spec fn fault(self) -> Option<Seq<char>> {
        if trimmed_or_none(opt_text(self.url)) is None && trimmed_or_none(opt_text(self.url_ipv4))
            is None && trimmed_or_none(opt_text(self.url_ipv6)) is None {
            Some(msg_no_url())
        } else if !pattern_ok(self.pattern_ipv4) {
            Some(msg_invalid_ipv4(self.pattern_ipv4.unwrap()@))
        } else if !pattern_ok(self.pattern_ipv6) {
            Some(msg_invalid_ipv6(self.pattern_ipv6.unwrap()@))
        } else {
            None
        }
    }

    /// Trims the addresses, drops the empty ones, and compiles the patterns.
    pub fn prepare(&mut self) -> (r: Result<(), TuliproxError>)
        ensures
            opt_text(final(self).url) == trimmed_or_none(opt_text(old(self).url)),
            opt_text(final(self).url_ipv4) == trimmed_or_none(opt_text(old(self).url_ipv4)),
            opt_text(final(self).url_ipv6) == trimmed_or_none(opt_text(old(self).url_ipv6)),
            final(self).pattern_ipv4 == old(self).pattern_ipv4,
            final(self).pattern_ipv6 == old(self).pattern_ipv6,
            match old(self).fault() {
                Some(msg) => is_info_error(r, msg),
                None => r is Ok && compiled_from(final(self).t_pattern_ipv4, final(self).pattern_ipv4)
                    && compiled_from(final(self).t_pattern_ipv6, final(self).pattern_ipv6),
            },
    {
        self.url = trim_or_none(&self.url);
        self.url_ipv4 = trim_or_none(&self.url_ipv4);
        self.url_ipv6 = trim_or_none(&self.url_ipv6);
        if self.url.is_none() && self.url_ipv4.is_none() && self.url_ipv6.is_none() {
            return Err(info_err("No url provided!".to_owned()));
        }
        match &self.pattern_ipv4 {
            Some(pattern) => {
                match compile(pattern.as_str()) {
                    Ok(re) => {
                        self.t_pattern_ipv4 = Some(re);
                    },
                    Err(fault) => {
                        let head = concat3("Invalid IPv4 regex: ", pattern.as_str(), " ");
                        return Err(info_err(concat2(head.as_str(), fault.as_str())));
                    },
                }
            },
            None => {},
        }
        match &self.pattern_ipv6 {
            Some(pattern) => {
                match compile(pattern.as_str()) {
                    Ok(re) => {
                        self.t_pattern_ipv6 = Some(re);
                    },
                    Err(fault) => {
                        let head = concat3("Invalid IPv6 regex: ", pattern.as_str(), " ");
                        return Err(info_err(concat2(head.as_str(), fault.as_str())));
                    },
                }
            },
            None => {},
        }
        Ok(())
    }
}

} // verus!
