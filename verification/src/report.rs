//! Human-readable lines about quota, request ids and fair use.

use vstd::prelude::*;
use vstd::string::*;

use crate::rate::{opt_str, opt_str_ref, RateLimit, RateLimitView};
use crate::text::{decimal, join, join_strings, push_decimal, strings_view};

verus! {

pub open spec fn cost_phrase(cost: u64) -> Seq<char> {
    "cost "@ + decimal(cost as nat) + " units"@
}

pub open spec fn allowance_phrase(remaining: Option<u64>, limit: Option<u64>) -> Option<Seq<char>> {
    match (remaining, limit) {
        (Some(r), Some(l)) => Some(decimal(r as nat) + "/"@ + decimal(l as nat) + " remaining"@),
        (Some(r), None) => Some(decimal(r as nat) + " remaining"@),
        (None, Some(l)) => Some("limit "@ + decimal(l as nat)),
        (None, None) => None,
    }
}

pub open spec fn push_some(parts: Seq<Seq<char>>, part: Option<Seq<char>>) -> Seq<Seq<char>> {
    match part {
        Some(p) => parts.push(p),
        None => parts,
    }
}

pub open spec fn prefixed(prefix: Seq<char>, o: Option<Seq<char>>) -> Option<Seq<char>> {
    match o {
        Some(t) => Some(prefix + t),
        None => None,
    }
}

pub open spec fn prefixed_number(prefix: Seq<char>, o: Option<u64>) -> Option<Seq<char>> {
    match o {
        Some(n) => Some(prefix + decimal(n as nat)),
        None => None,
    }
}

/// The parts of the `quota:` line, in order.
pub open spec fn quota_details(r: RateLimitView, request_id: Option<Seq<char>>) -> Seq<Seq<char>> {
    let d1 = push_some(
        Seq::empty(),
        match r.cost {
            Some(c) => Some(cost_phrase(c)),
            None => None,
        },
    );
    let d2 = if r.unlimited {
        d1.push("daily unlimited"@)
    } else {
        push_some(d1, allowance_phrase(r.remaining, r.limit))
    };
    let d3 = push_some(d2, prefixed_number("reset epoch "@, r.reset_epoch_seconds));
    let d4 = push_some(d3, prefixed("retry after "@, r.retry_after));
    let d5 = push_some(d4, prefixed("tier "@, r.tier));
    push_some(d5, prefixed("request "@, request_id))
}

/// Whether the headers reported anything about the quota.
pub open spec fn has_quota(r: RateLimitView) -> bool {
    r.unlimited || r.limit is Some || r.remaining is Some || r.cost is Some
        || r.reset_epoch_seconds is Some || r.retry_after is Some || r.tier is Some
}

/// The metadata lines of a response: a `quota:` line where there is quota
/// metadata (it names the request id too), else a `request:` line where there is
/// a request id, then a `warning:` line where there is a warning.
pub open spec fn metadata_lines_of(r: RateLimitView, request_id: Option<Seq<char>>) -> Seq<Seq<char>> {
    let first = if has_quota(r) {
        seq!["quota: "@ + join(quota_details(r, request_id), "; "@)]
    } else {
        match request_id {
            Some(id) => seq!["request: "@ + id],
            None => Seq::empty(),
        }
    };
    push_some(first, prefixed("warning: "@, r.warning))
}

fn with_prefix(prefix: &str, rest: &str) -> (s: String)
    ensures
        s@ == prefix@ + rest@,
{
    let mut s = String::new();
    s.append(prefix);
    s.append(rest);
    s
}

fn with_number(prefix: &str, n: u64) -> (s: String)
    ensures
        s@ == prefix@ + decimal(n as nat),
{
    let mut s = String::new();
    s.append(prefix);
    push_decimal(&mut s, n);
    s
}

/// The cost phrase of a cost, where one is known.
pub(crate) fn cost_text(cost: Option<u64>) -> (r: Option<String>)
    ensures
        opt_str(r) == match cost {
            Some(c) => Some(cost_phrase(c)),
            None => None,
        },
{
    match cost {
        Some(c) => {
            let mut s = String::new();
            s.append("cost ");
            push_decimal(&mut s, c);
            s.append(" units");
            Some(s)
        },
        None => None,
    }
}

/// Adds a part to a list where there is one.
pub(crate) fn push_opt(parts: &mut Vec<String>, part: Option<String>)
    ensures
        strings_view(final(parts)@) == push_some(strings_view(old(parts)@), opt_str(part)),
{
    match part {
        Some(p) => {
            parts.push(p);
            assert(strings_view(parts@) =~= strings_view(old(parts)@).push(p@));
        },
        None => {},
    }
}

/// A text after a prefix, where there is a text.
pub(crate) fn prefixed_text(prefix: &str, o: &Option<String>) -> (r: Option<String>)
    ensures
        opt_str(r) == prefixed(prefix@, opt_str(*o)),
{
    match o {
        Some(t) => Some(with_prefix(prefix, t.as_str())),
        None => None,
    }
}

fn prefixed_number_text(prefix: &str, o: Option<u64>) -> (r: Option<String>)
    ensures
        opt_str(r) == prefixed_number(prefix@, o),
{
    match o {
        Some(n) => Some(with_number(prefix, n)),
        None => None,
    }
}

fn allowance_text(remaining: Option<u64>, limit: Option<u64>) -> (r: Option<String>)
    ensures
        opt_str(r) == allowance_phrase(remaining, limit),
{
    match (remaining, limit) {
        (Some(r), Some(l)) => {
            let mut s = String::new();
            push_decimal(&mut s, r);
            s.append("/");
            push_decimal(&mut s, l);
            s.append(" remaining");
            Some(s)
        },
        (Some(r), None) => {
            let mut s = String::new();
            push_decimal(&mut s, r);
            s.append(" remaining");
            Some(s)
        },
        (None, Some(l)) => Some(with_number("limit ", l)),
        (None, None) => None,
    }
}

/// The lines that describe a response's quota metadata and request id.
pub fn metadata_lines(rate_limit: &RateLimit, request_id: Option<&str>) -> (lines: Vec<String>)
    ensures
        strings_view(lines@) == metadata_lines_of(rate_limit.view(), opt_str_ref(request_id)),
{
    let r = rate_limit;
    let mut lines: Vec<String> = Vec::new();
    let quota = r.unlimited || r.limit.is_some() || r.remaining.is_some() || r.cost.is_some()
        || r.reset_epoch_seconds.is_some() || r.retry_after.is_some() || r.tier.is_some();
    if quota {
        let mut details: Vec<String> = Vec::new();
        assert(strings_view(details@) =~= Seq::<Seq<char>>::empty());
        push_opt(&mut details, cost_text(r.cost));
        if r.unlimited {
            push_opt(&mut details, Some("daily unlimited".to_owned()));
        } else {
            push_opt(&mut details, allowance_text(r.remaining, r.limit));
        }
        push_opt(&mut details, prefixed_number_text("reset epoch ", r.reset_epoch_seconds));
        push_opt(&mut details, prefixed_text("retry after ", &r.retry_after));
        push_opt(&mut details, prefixed_text("tier ", &r.tier));
        let id = match request_id {
            Some(id) => Some(with_prefix("request ", id)),
            None => None,
        };
        push_opt(&mut details, id);
        let joined = join_strings(&details, "; ");
        lines.push(with_prefix("quota: ", joined.as_str()));
    } else {
        match request_id {
            Some(id) => {
                lines.push(with_prefix("request: ", id));
            },
            None => {},
        }
    }
    assert(strings_view(lines@) =~= if has_quota(r.view()) {
        seq!["quota: "@ + join(quota_details(r.view(), opt_str_ref(request_id)), "; "@)]
    } else {
        match opt_str_ref(request_id) {
            Some(id) => seq!["request: "@ + id],
            None => Seq::empty(),
        }
    });
    push_opt(&mut lines, prefixed_text("warning: ", &r.warning));
    lines
}

} // verus!
