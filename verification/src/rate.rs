//! Quota metadata carried by response headers.

use vstd::prelude::*;

use reqwest::header::HeaderMap;

use crate::headers::{header_text, text_of};
use crate::text::{eq_ignore_ascii_case, equal_ignoring_ascii_case, parse_u64, parse_u64_spec, trim, trimmed};

verus! {

/// Quota metadata of one response.
#[derive(Debug, Clone, Default, PartialEq, Eq)]
pub struct RateLimit {
    pub limit: Option<u64>,
    pub remaining: Option<u64>,
    pub reset_epoch_seconds: Option<u64>,
    pub unlimited: bool,
    pub cost: Option<u64>,
    pub retry_after: Option<String>,
    pub warning: Option<String>,
    pub tier: Option<String>,
}

/// The content of a `RateLimit`.
pub struct RateLimitView {
    pub limit: Option<u64>,
    pub remaining: Option<u64>,
    pub reset_epoch_seconds: Option<u64>,
    pub unlimited: bool,
    pub cost: Option<u64>,
    pub retry_after: Option<Seq<char>>,
    pub warning: Option<Seq<char>>,
    pub tier: Option<Seq<char>>,
}

pub open spec fn opt_str(o: Option<String>) -> Option<Seq<char>> {
    match o {
        Some(s) => Some(s@),
        None => None,
    }
}

/// The text of a borrowed string, where there is one.
pub open spec fn opt_str_ref(o: Option<&str>) -> Option<Seq<char>> {
    match o {
        Some(s) => Some(s@),
        None => None,
    }
}

impl RateLimit {
    pub open spec fn view(&self) -> RateLimitView {
        RateLimitView {
            limit: self.limit,
            remaining: self.remaining,
            reset_epoch_seconds: self.reset_epoch_seconds,
            unlimited: self.unlimited,
            cost: self.cost,
            retry_after: opt_str(self.retry_after),
            warning: opt_str(self.warning),
            tier: opt_str(self.tier),
        }
    }

    /// A copy with the same content.
    pub fn copy(&self) -> (r: RateLimit)
        ensures
            r.view() == self.view(),
    {
        RateLimit {
            limit: self.limit,
            remaining: self.remaining,
            reset_epoch_seconds: self.reset_epoch_seconds,
            unlimited: self.unlimited,
            cost: self.cost,
            retry_after: copy_text(&self.retry_after),
            warning: copy_text(&self.warning),
            tier: copy_text(&self.tier),
        }
    }
}

pub fn copy_text(o: &Option<String>) -> (r: Option<String>)
    ensures
        opt_str(r) == opt_str(*o),
{
    match o {
        Some(s) => Some(s.clone()),
        None => None,
    }
}

/// `a`, or `b` where `a` is absent.
pub open spec fn first_some<T>(a: Option<T>, b: Option<T>) -> Option<T> {
    if a is Some {
        a
    } else {
        b
    }
}

/// Trimmed text, kept only where something is left.
pub open spec fn nonblank(o: Option<Seq<char>>) -> Option<Seq<char>> {
    match o {
        Some(t) => if trim(t).len() > 0 {
            Some(trim(t))
        } else {
            None
        },
        None => None,
    }
}

pub open spec fn parse_opt(o: Option<Seq<char>>) -> Option<u64> {
    match o {
        Some(t) => parse_u64_spec(t),
        None => None,
    }
}

pub open spec fn unlimited_word() -> Seq<char> {
    seq!['u', 'n', 'l', 'i', 'm', 'i', 't', 'e', 'd']
}

/// What the quota headers of a response say.
pub open spec fn rate_limit_of(h: HeaderMap) -> RateLimitView {
    let limit_text = header_text(h, "x-ratelimit-limit"@);
    RateLimitView {
        unlimited: match limit_text {
            Some(t) => eq_ignore_ascii_case(t, unlimited_word()),
            None => false,
        },
        limit: parse_opt(limit_text),
        remaining: parse_opt(header_text(h, "x-ratelimit-remaining"@)),
        reset_epoch_seconds: parse_opt(header_text(h, "x-ratelimit-reset"@)),
        cost: parse_opt(header_text(h, "x-ratelimit-cost"@)),
        retry_after: nonblank(header_text(h, "retry-after"@)),
        warning: nonblank(
            first_some(header_text(h, "x-ratelimit-warning"@), header_text(h, "x-fair-use-warning"@)),
        ),
        tier: nonblank(
            first_some(header_text(h, "x-ratelimit-tier"@), header_text(h, "x-fair-use-tier"@)),
        ),
    }
}

/// Trimmed text, or `None` where nothing is left.
pub fn nonblank_text(o: Option<String>) -> (r: Option<String>)
    ensures
        opt_str(r) == nonblank(opt_str(o)),
{
    match o {
        Some(t) => {
            let s = trimmed(t.as_str());
            if s.as_str().unicode_len() > 0 {
                Some(s)
            } else {
                None
            }
        },
        None => None,
    }
}

fn parse_text(o: &Option<String>) -> (r: Option<u64>)
    ensures
        r == parse_opt(opt_str(*o)),
{
    match o {
        Some(t) => parse_u64(t.as_str()),
        None => None,
    }
}

fn or_text(a: Option<String>, b: Option<String>) -> (r: Option<String>)
    ensures
        opt_str(r) == first_some(opt_str(a), opt_str(b)),
{
    if a.is_some() {
        a
    } else {
        b
    }
}

/// Reads the quota headers of a response.
pub fn rate_limit_from_headers(headers: &HeaderMap) -> (r: RateLimit)
    ensures
        r.view() == rate_limit_of(*headers),
{
    proof {
        reveal_strlit("x-ratelimit-limit");
        reveal_strlit("x-ratelimit-remaining");
        reveal_strlit("x-ratelimit-reset");
        reveal_strlit("x-ratelimit-cost");
        reveal_strlit("retry-after");
        reveal_strlit("x-ratelimit-warning");
        reveal_strlit("x-fair-use-warning");
        reveal_strlit("x-ratelimit-tier");
        reveal_strlit("x-fair-use-tier");
        reveal_strlit("unlimited");
    }
    let limit_text = text_of(headers, "x-ratelimit-limit");
    let unlimited = match &limit_text {
        Some(t) => equal_ignoring_ascii_case(t.as_str(), "unlimited"),
        None => false,
    };
    assert("unlimited"@ =~= unlimited_word());
    let limit = parse_text(&limit_text);
    let remaining = parse_text(&text_of(headers, "x-ratelimit-remaining"));
    let reset_epoch_seconds = parse_text(&text_of(headers, "x-ratelimit-reset"));
    let cost = parse_text(&text_of(headers, "x-ratelimit-cost"));
    let retry_after = nonblank_text(text_of(headers, "retry-after"));
    let warning = nonblank_text(
        or_text(text_of(headers, "x-ratelimit-warning"), text_of(headers, "x-fair-use-warning")),
    );
    let tier = nonblank_text(
        or_text(text_of(headers, "x-ratelimit-tier"), text_of(headers, "x-fair-use-tier")),
    );
    RateLimit { limit, remaining, reset_epoch_seconds, unlimited, cost, retry_after, warning, tier }
}

} // verus!
