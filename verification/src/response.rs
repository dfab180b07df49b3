//! Successful responses and refused requests, as the library reports them.

use vstd::prelude::*;
use vstd::string::*;
use vstd::utf8::{decode_utf8, valid_utf8};

use reqwest::header::HeaderMap;

use crate::fair_use::{
    alternatives_view, body_string, body_string_of, fair_use_from_body, fair_use_of, names_view,
    AlternativeView, FairUse, FairUseAlternative, FairUseView,
};
use crate::headers::{first_header, has_header, header_text, text_of, visible_text};
use crate::json::{json_get, json_str, json_value_of, opt_json_view, parse_json, Json, JsonView};
use crate::rate::{
    first_some, nonblank, nonblank_text, opt_str, rate_limit_from_headers, rate_limit_of, RateLimit,
    RateLimitView,
};
use crate::report::{
    cost_phrase, cost_text, metadata_lines, metadata_lines_of, prefixed, prefixed_number,
    prefixed_text, push_opt, push_some,
};
use crate::text::{decimal, join, join_strings, push_decimal, strings_view};

verus! {

/// A successful JSON response with its quota and request metadata.
#[derive(Debug, Clone)]
pub struct ApiResponse {
    pub body: Json,
    pub rate_limit: RateLimit,
    pub request_id: Option<String>,
}

impl ApiResponse {
    pub fn new(body: Json, rate_limit: RateLimit) -> (r: Self)
        ensures
            r.body == body,
            r.rate_limit == rate_limit,
            r.request_id is None,
    {
        ApiResponse { body, rate_limit, request_id: None }
    }

    /// Replaces the body and keeps the quota and request metadata.
    pub fn with_body(self, body: Json) -> (r: Self)
        ensures
            r.body == body,
            r.rate_limit == self.rate_limit,
            r.request_id == self.request_id,
    {
        ApiResponse { body, ..self }
    }
}

/// A non-successful response of an authenticated API: status, message, the
/// complete body, its metadata and its fair-use details.
#[derive(Debug, Clone)]
pub struct ApiError {
    pub status: u16,
    pub message: String,
    pub body: Json,
    pub rate_limit: RateLimit,
    pub request_id: Option<String>,
    pub fair_use: Option<FairUse>,
}

pub open spec fn opt_fair_use(o: Option<FairUse>) -> Option<FairUseView> {
    match o {
        Some(f) => Some(f.view()),
        None => None,
    }
}

/// The standard reason phrase of a status code, as `StatusCode::canonical_reason` gives it.
pub uninterp spec fn reason_phrase(code: u16) -> Option<Seq<char>>;

/// `StatusCode::from_u16` then `StatusCode::canonical_reason`: a code outside
/// 100..=999 is no status code and has no reason; for the others the result is
/// the reason phrase that `http` lists, where it lists one.
#[verifier::external_body]
fn canonical_reason(code: u16) -> (r: Option<&'static str>)
    ensures
        match r {
            Some(t) => 100 <= code <= 999 && reason_phrase(code) == Some(t@),
            None => reason_phrase(code) is None,
        },
{
    reqwest::StatusCode::from_u16(code).ok().and_then(|status| status.canonical_reason())
}

/// How `StatusCode` displays: the code and its reason phrase; a number that is
/// no status code displays as the number.
pub open spec fn status_text(code: u16) -> Seq<char> {
    if 100 <= code <= 999 {
        decimal(code as nat) + " "@ + match reason_phrase(code) {
            Some(t) => t,
            None => "<unknown status code>"@,
        }
    } else {
        decimal(code as nat)
    }
}

pub fn status_display(code: u16) -> (s: String)
    ensures
        s@ == status_text(code),
{
    let mut s = String::new();
    push_decimal(&mut s, code as u64);
    if 100 <= code && code <= 999 {
        s.append(" ");
        match canonical_reason(code) {
            Some(t) => s.append(t),
            None => s.append("<unknown status code>"),
        }
    }
    s
}

/// The line that offers one alternative.
pub open spec fn alternative_line(a: AlternativeView) -> Seq<char> {
    let label = match first_some(a.label, a.kind) {
        Some(l) => l,
        None => "lower-cost request"@,
    };
    let details = push_some(
        push_some(
            Seq::empty(),
            match a.cost {
                Some(c) => Some(cost_phrase(c)),
                None => None,
            },
        ),
        prefixed("command: "@, a.command),
    );
    if details.len() == 0 {
        "alternative: "@ + label
    } else {
        "alternative: "@ + label + " ("@ + join(details, "; "@) + ")"@
    }
}

/// The parts of the `fair use:` line; cost and remaining units appear only
/// where the headers did not already report them.
pub open spec fn fair_use_summary(r: RateLimitView, f: FairUseView) -> Seq<Seq<char>> {
    let d1 = push_some(Seq::empty(), prefixed("scope "@, f.scope));
    let d2 = if r.cost is None {
        push_some(
            d1,
            match f.cost {
                Some(c) => Some(cost_phrase(c)),
                None => None,
            },
        )
    } else {
        d1
    };
    let d3 = if r.remaining is None {
        push_some(
            d2,
            match f.remaining {
                Some(n) => Some(decimal(n as nat) + " remaining"@),
                None => None,
            },
        )
    } else {
        d2
    };
    push_some(d3, prefixed_number("shortfall "@, f.shortfall))
}

/// All metadata lines of a refused request.
pub open spec fn error_lines_of(
    r: RateLimitView,
    request_id: Option<Seq<char>>,
    fair_use: Option<FairUseView>,
) -> Seq<Seq<char>> {
    let base = metadata_lines_of(r, request_id);
    match fair_use {
        None => base,
        Some(f) => {
            let d = fair_use_summary(r, f);
            let l1 = if d.len() > 0 {
                base.push("fair use: "@ + join(d, "; "@))
            } else {
                base
            };
            let l2 = push_some(l1, prefixed("retry at: "@, f.retry_at));
            l2 + f.alternatives.map_values(|a: AlternativeView| alternative_line(a))
        },
    }
}

/// Each line after a line break.
pub open spec fn line_suffixes(lines: Seq<Seq<char>>) -> Seq<char>
    decreases lines.len(),
{
    if lines.len() == 0 {
        Seq::empty()
    } else {
        line_suffixes(lines.drop_last()) + "\n"@ + lines.last()
    }
}

/// The line that offers one alternative: its label (or kind), then its cost
/// and command where it has them.
pub fn format_alternative(alternative: &FairUseAlternative) -> (s: String)
    ensures
        s@ == alternative_line(alternative.view()),
{
    let mut details: Vec<String> = Vec::new();
    assert(strings_view(details@) =~= Seq::<Seq<char>>::empty());
    push_opt(&mut details, cost_text(alternative.cost));
    push_opt(&mut details, prefixed_text("command: ", &alternative.command));
    let mut s = String::new();
    s.append("alternative: ");
    match &alternative.label {
        Some(l) => s.append(l.as_str()),
        None => match &alternative.kind {
            Some(k) => s.append(k.as_str()),
            None => s.append("lower-cost request"),
        },
    }
    if details.len() > 0 {
        s.append(" (");
        let joined = join_strings(&details, "; ");
        s.append(joined.as_str());
        s.append(")");
    }
    s
}

impl ApiError {
    /// Whether the server refused the request for its rate or quota.
    pub fn is_rate_limited(&self) -> (r: bool)
        ensures
            r == (self.status == 429),
    {
        self.status == 429
    }

    /// The lower-cost alternatives that the server suggested.
    pub fn alternatives(&self) -> (r: &[FairUseAlternative])
        ensures
            r@ == match self.fair_use {
                Some(f) => f.alternatives@,
                None => Seq::empty(),
            },
    {
        match &self.fair_use {
            Some(details) => details.alternatives.as_slice(),
            None => {
                let empty: &[FairUseAlternative] = &[];
                assert(empty@ =~= Seq::<FairUseAlternative>::empty());
                empty
            },
        }
    }

    /// The metadata lines of the refusal, then its fair-use summary, retry
    /// time and alternatives.
    pub fn metadata_lines(&self) -> (lines: Vec<String>)
        ensures
            strings_view(lines@) == error_lines_of(
                self.rate_limit.view(),
                opt_str(self.request_id),
                opt_fair_use(self.fair_use),
            ),
    {
        let request_id: Option<&str> = match &self.request_id {
            Some(id) => Some(id.as_str()),
            None => None,
        };
        let mut lines = metadata_lines(&self.rate_limit, request_id);
        match &self.fair_use {
            None => {},
            Some(f) => {
                let ghost base = strings_view(lines@);
                let mut details: Vec<String> = Vec::new();
                assert(strings_view(details@) =~= Seq::<Seq<char>>::empty());
                push_opt(&mut details, prefixed_text("scope ", &f.scope));
                if self.rate_limit.cost.is_none() {
                    push_opt(&mut details, cost_text(f.cost));
                }
                if self.rate_limit.remaining.is_none() {
                    let remaining = match f.remaining {
                        Some(n) => {
                            let mut s = String::new();
                            push_decimal(&mut s, n);
                            s.append(" remaining");
                            Some(s)
                        },
                        None => None,
                    };
                    push_opt(&mut details, remaining);
                }
                let shortfall = match f.shortfall {
                    Some(n) => {
                        let mut s = String::new();
                        s.append("shortfall ");
                        push_decimal(&mut s, n);
                        Some(s)
                    },
                    None => None,
                };
                push_opt(&mut details, shortfall);
                assert(strings_view(details@) == fair_use_summary(self.rate_limit.view(), f.view()));
                if details.len() > 0 {
                    let joined = join_strings(&details, "; ");
                    let mut line = String::new();
                    line.append("fair use: ");
                    line.append(joined.as_str());
                    lines.push(line);
                    assert(strings_view(lines@) =~= base.push("fair use: "@ + join(strings_view(details@), "; "@)));
                }
                push_opt(&mut lines, prefixed_text("retry at: ", &f.retry_at));
                let ghost before = strings_view(lines@);
                let alts = &f.alternatives;
                let mut i: usize = 0;
                while i < alts.len()
                    invariant
                        i <= alts@.len(),
                        strings_view(lines@) =~= before + alternatives_view(alts@).take(i as int).map_values(
                            |a: AlternativeView| alternative_line(a),
                        ),
                    decreases alts.len() - i,
                {
                    let ghost prev = strings_view(lines@);
                    let line = format_alternative(&alts[i]);
                    lines.push(line);
                    assert(strings_view(lines@) =~= prev.push(line@));
                    let ghost av = alternatives_view(alts@);
                    assert(av[i as int] == alts@[i as int].view());
                    assert(av.take(i + 1).map_values(|a: AlternativeView| alternative_line(a))
                        =~= av.take(i as int).map_values(|a: AlternativeView| alternative_line(a)).push(
                        alternative_line(av[i as int]),
                    ));
                    i = i + 1;
                }
                assert(alternatives_view(alts@).take(i as int) =~= alternatives_view(alts@));
            },
        }
        lines
    }

    /// The status and message, then each metadata line on a line of its own.
    pub fn display_text(&self) -> (s: String)
        ensures
            s@ == status_text(self.status) + ": "@ + self.message@ + line_suffixes(
                error_lines_of(
                    self.rate_limit.view(),
                    opt_str(self.request_id),
                    opt_fair_use(self.fair_use),
                ),
            ),
    {
        let mut s = status_display(self.status);
        s.append(": ");
        s.append(self.message.as_str());
        let lines = self.metadata_lines();
        let ghost head = s@;
        let ghost lv = strings_view(lines@);
        let mut i: usize = 0;
        while i < lines.len()
            invariant
                i <= lines@.len(),
                lv == strings_view(lines@),
                s@ == head + line_suffixes(lv.take(i as int)),
            decreases lines.len() - i,
        {
            assert(lv.take(i + 1).drop_last() =~= lv.take(i as int));
            assert(lv.take(i + 1).last() == lines@[i as int]@);
            s.append("\n");
            s.append(lines[i].as_str());
            i = i + 1;
        }
        assert(lv.take(i as int) =~= lv);
        s
    }
}

/// The metadata lines of a successful response.
pub fn response_metadata_lines(response: &ApiResponse) -> (lines: Vec<String>)
    ensures
        strings_view(lines@) == metadata_lines_of(
            response.rate_limit.view(),
            opt_str(response.request_id),
        ),
{
    let request_id: Option<&str> = match &response.request_id {
        Some(id) => Some(id.as_str()),
        None => None,
    };
    metadata_lines(&response.rate_limit, request_id)
}


/// What `String::from_utf8_lossy` makes of some bytes.
pub uninterp spec fn utf8_lossy(bytes: Seq<u8>) -> Seq<char>;

/// `String::from_utf8_lossy`: valid UTF-8 reads as the text it encodes; other
/// bytes read with replacement characters, which the contract leaves unsaid.
#[verifier::external_body]
fn lossy_text(bytes: &[u8]) -> (s: String)
    ensures
        s@ == utf8_lossy(bytes@),
        valid_utf8(bytes@) ==> s@ == decode_utf8(bytes@),
{
    String::from_utf8_lossy(bytes).into_owned()
}

/// The body of a response: `null` when it is empty, else the JSON value read
/// from it, else its text.
pub open spec fn body_of(bytes: Seq<u8>, parsed: Option<JsonView>) -> JsonView {
    if bytes.len() == 0 {
        JsonView::Null
    } else {
        match parsed {
            Some(v) => v,
            None => JsonView::Str(utf8_lossy(bytes)),
        }
    }
}

/// The body that a response or a refusal carries.
pub open spec fn response_body(r: Result<ApiResponse, ApiError>) -> JsonView {
    match r {
        Ok(response) => response.body.view(),
        Err(e) => e.body.view(),
    }
}

/// The request id that the headers give: `x-request-id`, or where that header
/// is absent `request-id`, trimmed and non-blank.
pub open spec fn request_id_of(h: HeaderMap) -> Option<Seq<char>> {
    nonblank(
        match first_header(h, "x-request-id"@) {
            Some(b) => visible_text(b),
            None => header_text(h, "request-id"@),
        },
    )
}

pub open spec fn is_success(status: u16) -> bool {
    200 <= status < 300
}

pub open spec fn member_str(body: JsonView, key: Seq<char>) -> Option<Seq<char>> {
    match json_get(body, key) {
        Some(v) => json_str(v),
        None => None,
    }
}

/// The message of a refusal: the body's `message`, `error` or `title` string,
/// or the body itself where it is a string, or the status's reason phrase.
pub open spec fn error_message_of(status: u16, body: JsonView) -> Seq<char> {
    let found = first_some(
        first_some(
            first_some(member_str(body, "message"@), member_str(body, "error"@)),
            member_str(body, "title"@),
        ),
        first_some(json_str(body), reason_phrase(status)),
    );
    match found {
        Some(m) => m,
        None => "request failed"@,
    }
}

/// The quota metadata of a refusal: the headers', completed by the body's
/// fair-use cost and remaining units where the headers lack them.
pub open spec fn error_rate_limit_of(r: RateLimitView, fair_use: Option<FairUseView>) -> RateLimitView {
    match fair_use {
        Some(f) => RateLimitView {
            cost: first_some(r.cost, f.cost),
            remaining: first_some(r.remaining, f.remaining),
            ..r
        },
        None => r,
    }
}

pub open spec fn error_request_id_of(h: HeaderMap, body: JsonView) -> Option<Seq<char>> {
    first_some(request_id_of(h), body_string_of(body, seq!["requestId"@, "request_id"@]))
}

fn request_id_from_headers(headers: &HeaderMap) -> (r: Option<String>)
    ensures
        opt_str(r) == request_id_of(*headers),
{
    proof {
        reveal_strlit("x-request-id");
        reveal_strlit("request-id");
    }
    let text = if has_header(headers, "x-request-id") {
        text_of(headers, "x-request-id")
    } else {
        text_of(headers, "request-id")
    };
    nonblank_text(text)
}

fn member_text<'a>(body: &'a Json, key: &str) -> (r: Option<&'a String>)
    ensures
        match r {
            Some(s) => member_str(body.view(), key@) == Some(s@),
            None => member_str(body.view(), key@) is None,
        },
{
    match body.get(key) {
        Some(v) => v.as_str(),
        None => None,
    }
}

fn error_message(status: u16, body: &Json) -> (m: String)
    ensures
        m@ == error_message_of(status, body.view()),
{
    if let Some(m) = member_text(body, "message") {
        return m.clone();
    }
    if let Some(m) = member_text(body, "error") {
        return m.clone();
    }
    if let Some(m) = member_text(body, "title") {
        return m.clone();
    }
    if let Some(m) = body.as_str() {
        return m.clone();
    }
    match canonical_reason(status) {
        Some(reason) => reason.to_owned(),
        None => "request failed".to_owned(),
    }
}

/// Reads a response from its status code, headers, body bytes, and `parsed`,
/// the JSON value read from those bytes where they hold one. A status in
/// 200..=299 gives the body with its metadata; any other status gives an
/// `ApiError` that keeps the complete body.
pub fn read_response(status: u16, headers: &HeaderMap, bytes: &[u8], parsed: Option<Json>) -> (r: Result<ApiResponse, ApiError>)
    ensures
        is_success(status) <==> r is Ok,
        bytes@.len() > 0 && parsed is None && valid_utf8(bytes@) ==> response_body(r)
            == JsonView::Str(decode_utf8(bytes@)),
        match r {
            Ok(response) => {
                &&& response.body.view() == body_of(bytes@, opt_json_view(parsed))
                &&& response.rate_limit.view() == rate_limit_of(*headers)
                &&& opt_str(response.request_id) == request_id_of(*headers)
            },
            Err(e) => {
                let body = body_of(bytes@, opt_json_view(parsed));
                &&& e.status == status
                &&& e.message@ == error_message_of(status, body)
                &&& e.body.view() == body
                &&& opt_fair_use(e.fair_use) == fair_use_of(body)
                &&& e.rate_limit.view() == error_rate_limit_of(rate_limit_of(*headers), fair_use_of(body))
                &&& opt_str(e.request_id) == error_request_id_of(*headers, body)
            },
        },
{
    let mut rate_limit = rate_limit_from_headers(headers);
    let request_id = request_id_from_headers(headers);
    let value = if bytes.len() == 0 {
        Json::Null
    } else {
        match parsed {
            Some(v) => v,
            None => Json::Str(lossy_text(bytes)),
        }
    };
    if !(200 <= status && status < 300) {
        let message = error_message(status, &value);
        let fair_use = fair_use_from_body(&value);
        if let Some(details) = &fair_use {
            if rate_limit.cost.is_none() {
                rate_limit.cost = details.cost;
            }
            if rate_limit.remaining.is_none() {
                rate_limit.remaining = details.remaining;
            }
        }
        let id_names: &[&str] = &["requestId", "request_id"];
        assert(names_view(id_names@) =~= seq!["requestId"@, "request_id"@]);
        let request_id = match request_id {
            Some(id) => Some(id),
            None => body_string(&value, id_names),
        };
        return Err(ApiError { status, message, body: value, rate_limit, request_id, fair_use });
    }
    Ok(ApiResponse { body: value, rate_limit, request_id })
}

/// Reads a response from its status code, headers and body bytes, the body
/// read as JSON where it holds a JSON value. A status in 200..=299 gives the
/// body with its metadata; any other status gives an `ApiError` that keeps the
/// complete body: `null` for an empty one, else its JSON value, else its text.
pub fn read_response_bytes(status: u16, headers: &HeaderMap, bytes: &[u8]) -> (r: Result<ApiResponse, ApiError>)
    ensures
        is_success(status) <==> r is Ok,
        bytes@.len() > 0 && json_value_of(bytes@) is None && valid_utf8(bytes@) ==> response_body(r)
            == JsonView::Str(decode_utf8(bytes@)),
        match r {
            Ok(response) => {
                &&& response.body.view() == body_of(bytes@, json_value_of(bytes@))
                &&& response.rate_limit.view() == rate_limit_of(*headers)
                &&& opt_str(response.request_id) == request_id_of(*headers)
            },
            Err(e) => {
                let body = body_of(bytes@, json_value_of(bytes@));
                &&& e.status == status
                &&& e.message@ == error_message_of(status, body)
                &&& e.body.view() == body
                &&& opt_fair_use(e.fair_use) == fair_use_of(body)
                &&& e.rate_limit.view() == error_rate_limit_of(rate_limit_of(*headers), fair_use_of(body))
                &&& opt_str(e.request_id) == error_request_id_of(*headers, body)
            },
        },
{
    let parsed = if bytes.len() == 0 {
        None
    } else {
        parse_json(bytes)
    };
    read_response(status, headers, bytes, parsed)
}

} // verus!
