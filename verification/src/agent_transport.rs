//! Addressing the update agent over HTTP, and what the exchange reports
//! when it fails.
use vstd::prelude::*;

use crate::text::{chars_of, decimal, decimal_of, extend_chars, extend_str, slice_chars, string_of};

verus! {

/// Header that carries the agent's token.
pub const UPDATE_TOKEN_HEADER: &'static str = "X-PhotoOS-Update-Token";

/// Header that carries the name of an uploaded package.
pub const UPDATE_FILENAME_HEADER: &'static str = "X-PhotoOS-Filename";

/// Why an exchange with the agent failed.
#[derive(Debug, Clone)]
pub enum AgentTransportError {
    Request { message: String },
    File { message: String },
    InvalidJson { status: u16, message: String },
}

pub open spec fn transport_error_text(e: AgentTransportError) -> Seq<char> {
    match e {
        AgentTransportError::Request { message } => "Update Agent request failed: "@ + message@,
        AgentTransportError::File { message } => "Update package file error: "@ + message@,
        AgentTransportError::InvalidJson { status, message } => "Update Agent returned invalid JSON with HTTP "@
            + decimal(status as nat) + ": "@ + message@,
    }
}

impl AgentTransportError {
    /// The text of the error.
    pub fn describe(&self) -> (r: String)
        ensures
            r@ == transport_error_text(*self),
    {
        match self {
            AgentTransportError::Request { message } => {
                let mut out = chars_of("Update Agent request failed: ");
                extend_str(&mut out, message.as_str());
                string_of(&out)
            },
            AgentTransportError::File { message } => {
                let mut out = chars_of("Update package file error: ");
                extend_str(&mut out, message.as_str());
                string_of(&out)
            },
            AgentTransportError::InvalidJson { status, message } => {
                let mut out = chars_of("Update Agent returned invalid JSON with HTTP ");
                let digits = decimal_of(*status as u64);
                extend_chars(&mut out, &digits);
                extend_str(&mut out, ": ");
                extend_str(&mut out, message.as_str());
                string_of(&out)
            },
        }
    }
}

/// `s` without trailing `/`.
pub open spec fn without_trailing_slashes(s: Seq<char>) -> Seq<char>
    decreases s.len(),
{
    if s.len() > 0 && s.last() == '/' {
        without_trailing_slashes(s.drop_last())
    } else {
        s
    }
}

/// `s` without leading `/`.
pub open spec fn without_leading_slashes(s: Seq<char>) -> Seq<char>
    decreases s.len(),
{
    if s.len() > 0 && s[0] == '/' {
        without_leading_slashes(s.drop_first())
    } else {
        s
    }
}

/// The agent's base URL as the transport keeps it: without trailing `/`.
pub fn agent_base_url(base_url: &str) -> (r: String)
    ensures
        r@ == without_trailing_slashes(base_url@),
{
    let c = chars_of(base_url);
    let mut to: usize = c.len();
    assert(c@.subrange(0, to as int) =~= c@);
    while to > 0 && c[to - 1] == '/'
        invariant
            to <= c.len(),
            without_trailing_slashes(c@) == without_trailing_slashes(c@.subrange(0, to as int)),
        decreases to,
    {
        proof {
            assert(c@.subrange(0, to as int).drop_last() =~= c@.subrange(0, to - 1));
        }
        to -= 1;
    }
    string_of(&slice_chars(&c, 0, to))
}

/// The URL of an agent endpoint: the base, `/`, and the path without
/// leading `/`.
pub fn agent_url(base_url: &str, path: &str) -> (r: String)
    ensures
        r@ == base_url@ + "/"@ + without_leading_slashes(path@),
{
    let p = chars_of(path);
    let mut from: usize = 0;
    assert(p@.skip(0) =~= p@);
    while from < p.len() && p[from] == '/'
        invariant
            from <= p.len(),
            without_leading_slashes(p@) == without_leading_slashes(p@.skip(from as int)),
        decreases p.len() - from,
    {
        proof {
            assert(p@.skip(from as int).drop_first() =~= p@.skip(from + 1));
        }
        from += 1;
    }
    let rest = slice_chars(&p, from, p.len());
    assert(p@.skip(from as int) =~= p@.subrange(from as int, p.len() as int));
    let mut out = chars_of(base_url);
    extend_str(&mut out, "/");
    extend_chars(&mut out, &rest);
    string_of(&out)
}

} // verus!
