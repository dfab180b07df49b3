//! Properties that hold across the library's functions.

use vstd::prelude::*;

use reqwest::header::HeaderMap;

use crate::account::{Account, Config};
use crate::client::{url_of, without_trailing_slashes};
use crate::manpage::{
    failure_line, install_failure_message, manpage_destination_of, run_of, start_of, StepView,
};
use crate::paths::{join_bytes, separator, text_bytes};
use vstd::utf8::{is_ascii_chars, is_ascii_chars_encode_utf8};
use crate::product::{config_file_name, config_path_of, is_config_name, PathError};
use crate::rate::{nonblank, opt_str, rate_limit_of, unlimited_word};
use crate::fair_use::{alternative_of, fair_use_of, AlternativeView, FairUseView};
use crate::json::{json_get, JsonView};
use crate::rate::RateLimitView;
use crate::report::{
    allowance_phrase, cost_phrase, has_quota, metadata_lines_of, prefixed, prefixed_number, push_some,
    quota_details,
};
use crate::response::{alternative_line, error_lines_of, error_message_of};
use crate::text::join;
use crate::session::selected_name;
use crate::text::{
    all_digits, ascii_lower, decimal, digit_char, digit_value, digits_value, eq_ignore_ascii_case,
    is_ascii_digit, is_whitespace, parse_u64_spec, trim, trim_end, trim_start, unsigned_digits,
};

verus! {

proof fn lemma_digit(d: nat)
    requires
        d < 10,
    ensures
        digit_value(digit_char(d)) == d,
{
    let x: u32 = (d + ('0' as u32)) as u32;
    assert(x < 0xD800);
    assert((x as char) as u32 == x);
}

proof fn lemma_decimal(n: nat)
    ensures
        decimal(n).len() > 0,
        all_digits(decimal(n)),
        digits_value(decimal(n)) == n,
    decreases n,
{
    if n < 10 {
        lemma_digit(n);
        assert(decimal(n) == seq![digit_char(n)]);
        assert(decimal(n).drop_last() =~= Seq::<char>::empty());
        assert(digits_value(decimal(n).drop_last()) == 0);
        assert(decimal(n).last() == digit_char(n));
        assert(digits_value(decimal(n)) == digits_value(decimal(n).drop_last()) * 10 + digit_value(decimal(n).last()));
    } else {
        lemma_decimal(n / 10);
        lemma_digit(n % 10);
        let d = decimal(n);
        assert(d.drop_last() =~= decimal(n / 10));
        assert(d.last() == digit_char(n % 10));
        assert(n == (n / 10) * 10 + n % 10) by (nonlinear_arith);
        assert(digits_value(d) == digits_value(d.drop_last()) * 10 + digit_value(d.last()));
        assert forall|i: int| 0 <= i < d.len() implies is_ascii_digit(#[trigger] d[i]) by {
            if i < d.len() - 1 {
                assert(d[i] == decimal(n / 10)[i]);
            }
        }
    }
}

/// A number read back from its decimal rendering is the same number: every
/// count that the metadata lines print parses as the header value it came from.
pub proof fn law_decimal_parses_back(n: u64)
    ensures
        parse_u64_spec(decimal(n as nat)) == Some(n),
{
    lemma_decimal(n as nat);
    let d = decimal(n as nat);
    assert(is_ascii_digit(d[0]));
    assert(unsigned_digits(d) == d);
}

/// An `unlimited` allowance never comes with a numeric limit: the word that
/// marks it does not read as a number.
pub proof fn law_unlimited_has_no_limit(h: HeaderMap)
    ensures
        rate_limit_of(h).unlimited ==> rate_limit_of(h).limit is None,
{
    let r = rate_limit_of(h);
    if r.unlimited {
        let t = crate::headers::header_text(h, "x-ratelimit-limit"@)->0;
        assert(eq_ignore_ascii_case(t, unlimited_word()));
        assert(ascii_lower(t[0] as u32) == ascii_lower(unlimited_word()[0] as u32));
        assert(t[0] == 'u' || t[0] == 'U');
        let d = unsigned_digits(t);
        assert(d == t);
        assert(!is_ascii_digit(d[0]));
    }
}

/// Where exactly one profile is saved, commands that name none use it.
pub proof fn law_sole_profile_is_selected(config: Config)
    requires
        config.accounts@.len() == 1,
    ensures
        selected_name(config, None) is Some,
        config.accounts@.contains_key(selected_name(config, None)->0),
{
    let d = config.accounts@.dom();
    if !(config.active_account is Some && config.accounts@.contains_key(config.active_account->0@)) {
        assert(d.len() > 0);
        assert(d.contains(d.choose()));
    }
}

/// Where several profiles are saved and none of them is active, a command must
/// name one.
pub proof fn law_several_profiles_need_a_choice(config: Config)
    requires
        config.accounts@.len() != 1,
        !(config.active_account is Some && config.accounts@.contains_key(config.active_account->0@)),
    ensures
        selected_name(config, None) is None,
{
}

/// After a login saves a profile and makes it active, commands that name no
/// profile use that profile, with what the login saved.
pub proof fn law_login_then_select(before: Config, after: Config, name: Seq<char>, account: Account)
    requires
        after.accounts@ == before.accounts@.insert(name, account),
        opt_str(after.active_account) == Some(name),
    ensures
        selected_name(after, None) == Some(name),
        after.accounts@[name] == account,
{
    assert(after.accounts@.contains_key(name));
}

/// After a logout the profile is still saved, holds no token, and keeps its API
/// base, email and tier; every other profile is unchanged.
pub proof fn law_logout_keeps_profile(before: Config, after: Config, name: Seq<char>)
    requires
        before.accounts@.contains_key(name),
        after.accounts@ == before.accounts@.insert(
            name,
            Account { token: None, ..before.accounts@[name] },
        ),
    ensures
        after.accounts@.contains_key(name),
        after.accounts@[name].token is None,
        after.accounts@[name].api_base == before.accounts@[name].api_base,
        after.accounts@[name].email == before.accounts@[name].email,
        after.accounts@[name].tier == before.accounts@[name].tier,
        after.accounts@.dom() == before.accounts@.dom(),
        forall|k: Seq<char>| k != name && #[trigger] before.accounts@.contains_key(k) ==> after.accounts@[k] == before.accounts@[k],
{
    assert(after.accounts@.dom() =~= before.accounts@.dom());
}

/// The metadata lines are empty exactly when there is no quota metadata, no
/// request id and no warning; a request id is always reported.
pub proof fn law_metadata_lines_report_everything(r: crate::rate::RateLimitView, request_id: Option<Seq<char>>)
    ensures
        metadata_lines_of(r, request_id).len() == 0 <==> (!has_quota(r) && request_id is None
            && r.warning is None),
        request_id is Some ==> metadata_lines_of(r, request_id).len() > 0,
{
}

/// A base stripped of its trailing `/` does not end with one.
pub proof fn law_base_has_no_trailing_slash(s: Seq<char>)
    ensures
        without_trailing_slashes(s).len() == 0 || without_trailing_slashes(s).last() != '/',
        without_trailing_slashes(without_trailing_slashes(s)) == without_trailing_slashes(s),
    decreases s.len(),
{
    if s.len() > 0 && s.last() == '/' {
        law_base_has_no_trailing_slash(s.drop_last());
    }
}

/// A URL is the base, one `/`, and the path with its own leading `/` if any:
/// the path always follows a single separator.
pub proof fn law_url_single_separator(base: Seq<char>, path: Seq<char>)
    ensures
        url_of(without_trailing_slashes(base), path).len() > without_trailing_slashes(base).len(),
        url_of(without_trailing_slashes(base), path)[without_trailing_slashes(base).len() as int] == '/',
        path.len() > 0 && path[0] == '/' ==> url_of(without_trailing_slashes(base), path)
            == without_trailing_slashes(base) + path,
        !(path.len() > 0 && path[0] == '/') ==> url_of(without_trailing_slashes(base), path)
            == without_trailing_slashes(base) + "/"@ + path,
{
    reveal_strlit("/");
}

/// A configuration file is a dotfile directly in the home directory: its name
/// is `.` and the application name, and none of its bytes is a `/`.
pub proof fn law_config_stays_in_home(app: Seq<char>, home: Seq<u8>)
    requires
        config_path_of(app, Some(home)) is Ok,
    ensures
        config_path_of(app, Some(home)) == Ok::<Seq<u8>, PathError>(
            join_bytes(home, text_bytes(config_file_name(app))),
        ),
        text_bytes(config_file_name(app)).len() == app.len() + 1,
        text_bytes(config_file_name(app))[0] == 46u8,
        forall|i: int|
            0 <= i < text_bytes(config_file_name(app)).len() ==> #[trigger] text_bytes(
                config_file_name(app),
            )[i] != separator(),
{
    reveal_strlit(".");
    let f = config_file_name(app);
    assert(is_ascii_chars(f)) by {
        assert forall|i: int| 0 <= i < f.len() implies '\0' <= #[trigger] f[i] <= '\u{7f}' by {
            if i > 0 {
                assert(f[i] == app[i - 1]);
            }
        }
    }
    is_ascii_chars_encode_utf8(f);
    let b = text_bytes(f);
    assert forall|i: int| 0 <= i < b.len() implies #[trigger] b[i] != separator() by {
        assert(b[i] == f[i] as u8);
        if i > 0 {
            assert(f[i] == app[i - 1]);
        }
    }
}

proof fn lemma_trim_start(s: Seq<char>)
    ensures
        trim_start(s).len() == 0 || !is_whitespace(trim_start(s)[0]),
        trim_start(s).len() <= s.len(),
        trim_start(s) == s.subrange(s.len() - trim_start(s).len(), s.len() as int),
    decreases s.len(),
{
    if s.len() > 0 && is_whitespace(s[0]) {
        lemma_trim_start(s.drop_first());
        let t = trim_start(s.drop_first());
        assert(s.drop_first().subrange(s.len() - 1 - t.len(), s.len() - 1) =~= s.subrange(
            s.len() - t.len(),
            s.len() as int,
        ));
    } else {
        assert(s.subrange(0, s.len() as int) =~= s);
    }
}

proof fn lemma_trim_end(s: Seq<char>)
    ensures
        trim_end(s).len() == 0 || !is_whitespace(trim_end(s).last()),
        trim_end(s).len() <= s.len(),
        trim_end(s) == s.subrange(0, trim_end(s).len() as int),
    decreases s.len(),
{
    if s.len() > 0 && is_whitespace(s.last()) {
        lemma_trim_end(s.drop_last());
        let t = trim_end(s.drop_last());
        assert(s.drop_last().subrange(0, t.len() as int) =~= s.subrange(0, t.len() as int));
    } else {
        assert(s.subrange(0, s.len() as int) =~= s);
    }
}

/// Text that header metadata keeps (retry interval, warning, tier, request id)
/// is never blank and neither starts nor ends with whitespace.
pub proof fn law_kept_text_is_trimmed(o: Option<Seq<char>>)
    ensures
        nonblank(o) matches Some(t) ==> t.len() > 0 && !is_whitespace(t[0]) && !is_whitespace(
            t.last(),
        ),
{
    if let Some(s) = o {
        lemma_trim_start(s);
        let a = trim_start(s);
        lemma_trim_end(a);
        let t = trim(s);
        if t.len() > 0 {
            assert(t == a.subrange(0, t.len() as int));
            assert(t[0] == a[0]);
        }
    }
}


/// The reasons that the first directories failed, one line each: the directory and why.
pub open spec fn failure_lines(directories: Seq<Seq<u8>>, errors: Seq<Seq<char>>) -> Seq<Seq<char>> {
    Seq::new(errors.len(), |j: int| failure_line(directories[j], errors[j]))
}

pub open spec fn as_failures(errors: Seq<Seq<char>>) -> Seq<Result<(), Seq<char>>> {
    errors.map_values(|e: Seq<char>| Err::<(), Seq<char>>(e))
}

/// Over a whole installation: after the first `k` directories failed (for the
/// reasons in `errors`), the state holds exactly those `k` failures in order;
/// the next step installs into directory `k`, and success there ends at
/// `name.1` in that directory, no later directory being touched; once every
/// directory has failed, the installation fails with the advice and one line
/// per directory in order.
pub proof fn law_manual_installation_run(
    name: Seq<char>,
    directories: Seq<Seq<u8>>,
    errors: Seq<Seq<char>>,
)
    requires
        errors.len() <= directories.len(),
    ensures
        run_of(start_of(name, directories), as_failures(errors)).0.failures == failure_lines(
            directories,
            errors,
        ),
        errors.len() < directories.len() ==> run_of(start_of(name, directories), as_failures(errors)).1
            == (StepView::Install {
            directory: directories[errors.len() as int],
            destination: manpage_destination_of(directories[errors.len() as int], name),
        }),
        errors.len() < directories.len() ==> run_of(
            start_of(name, directories),
            as_failures(errors).push(Ok(())),
        ).1 == StepView::Installed(manpage_destination_of(directories[errors.len() as int], name)),
        errors.len() == directories.len() ==> run_of(start_of(name, directories), as_failures(errors)).1
            == StepView::Failed(install_failure_message(name, failure_lines(directories, errors))),
    decreases errors.len(),
{
    let start = start_of(name, directories);
    let outs = as_failures(errors);
    if errors.len() > 0 {
        let front = errors.drop_last();
        law_manual_installation_run(name, directories, front);
        assert(outs.drop_last() =~= as_failures(front));
        assert(outs.last() == Err::<(), Seq<char>>(errors.last()));
        assert(failure_lines(directories, front).push(
            failure_line(directories[front.len() as int], errors.last()),
        ) =~= failure_lines(directories, errors));
    } else {
        assert(failure_lines(directories, errors) =~= Seq::<Seq<char>>::empty());
    }
    let (s, _) = run_of(start, outs);
    assert(s.name == name && s.directories == directories) by {
        lemma_run_keeps(start, outs);
    }
    assert(outs.push(Ok(())).drop_last() =~= outs);
}

proof fn lemma_run_keeps(s: crate::manpage::InstallView, outcomes: Seq<Result<(), Seq<char>>>)
    ensures
        run_of(s, outcomes).0.name == s.name,
        run_of(s, outcomes).0.directories == s.directories,
    decreases outcomes.len(),
{
    if outcomes.len() > 0 {
        lemma_run_keeps(s, outcomes.drop_last());
    }
}

pub open spec fn path_ok(p: Seq<u8>) -> Result<Seq<u8>, PathError> {
    Ok(p)
}

pub open spec fn path_refused() -> Result<Seq<u8>, PathError> {
    Err(PathError::InvalidName)
}

/// With the home directory known, a product's configuration file is `.APP`
/// in it for a name of ASCII letters, digits, `-` and `_`; any other name is refused.
pub proof fn law_config_path_cases(app: Seq<char>, home: Seq<u8>)
    ensures
        is_config_name(app) ==> config_path_of(app, Some(home)) == path_ok(
            join_bytes(home, text_bytes("."@ + app)),
        ),
        !is_config_name(app) ==> config_path_of(app, Some(home)) == path_refused(),
{
}

/// The body has a member `key` whose value is the string `s`.
pub open spec fn string_member(body: JsonView, key: Seq<char>, s: Seq<char>) -> bool {
    json_get(body, key) == Some(JsonView::Str(s))
}

/// The body has no string member `key`.
pub open spec fn no_string_member(body: JsonView, key: Seq<char>) -> bool {
    !(json_get(body, key) matches Some(JsonView::Str(_)))
}

/// The message of a refusal prefers the body's `message` string, whatever
/// `error` or `title` members the body also has; `error` is used only when
/// there is no `message` string, and `title` only when there is neither.
pub proof fn law_refusal_message_precedence(status: u16, body: JsonView, m: Seq<char>)
    ensures
        string_member(body, "message"@, m) ==> error_message_of(status, body) == m,
        no_string_member(body, "message"@) && string_member(body, "error"@, m) ==> error_message_of(
            status,
            body,
        ) == m,
        no_string_member(body, "message"@) && no_string_member(body, "error"@) && string_member(
            body,
            "title"@,
            m,
        ) ==> error_message_of(status, body) == m,
        body == JsonView::Str(m) ==> error_message_of(status, body) == m,
{
}

/// Where the body's `fair_use` member (or, without one, its `fairUse` member)
/// is an object, the alternatives are read from that object: the items of its
/// `alternatives` array, each read as an alternative, in order; a non-empty
/// list of them is always reported.
pub proof fn law_nested_alternatives(body: JsonView, nested: Seq<(Seq<char>, JsonView)>, items: Seq<JsonView>)
    requires
        json_get(body, "fair_use"@) == Some(JsonView::Object(nested)) || (json_get(body, "fair_use"@)
            is None && json_get(body, "fairUse"@) == Some(JsonView::Object(nested))),
        json_get(JsonView::Object(nested), "alternatives"@) == Some(JsonView::Array(items)),
    ensures
        items.len() > 0 ==> fair_use_of(body) is Some,
        fair_use_of(body) matches Some(d) ==> d.alternatives.len() == items.len() && forall|i: int|
            0 <= i < items.len() ==> #[trigger] d.alternatives[i] == alternative_of(items[i]),
{
}

/// Where the body has neither a `fair_use` nor a `fairUse` member, the
/// alternatives are the items of the body's own `alternatives` array, in order.
pub proof fn law_top_level_alternatives(body: JsonView, items: Seq<JsonView>)
    requires
        json_get(body, "fair_use"@) is None,
        json_get(body, "fairUse"@) is None,
        json_get(body, "alternatives"@) == Some(JsonView::Array(items)),
    ensures
        items.len() > 0 ==> fair_use_of(body) is Some,
        fair_use_of(body) matches Some(d) ==> d.alternatives.len() == items.len() && forall|i: int|
            0 <= i < items.len() ==> #[trigger] d.alternatives[i] == alternative_of(items[i]),
{
}

/// The metadata lines of a refusal with fair-use details begin with the
/// response's own metadata lines and end with exactly one `alternative:` line
/// per suggested alternative, in order.
pub proof fn law_refusal_lists_every_alternative(r: RateLimitView, request_id: Option<Seq<char>>, f: FairUseView)
    ensures
        error_lines_of(r, request_id, Some(f)).len() >= metadata_lines_of(r, request_id).len()
            + f.alternatives.len(),
        error_lines_of(r, request_id, Some(f)).subrange(0, metadata_lines_of(r, request_id).len() as int)
            == metadata_lines_of(r, request_id),
        forall|i: int|
            0 <= i < f.alternatives.len() ==> #[trigger] error_lines_of(r, request_id, Some(f))[
                error_lines_of(r, request_id, Some(f)).len() - f.alternatives.len() + i] == alternative_line(
                f.alternatives[i],
            ),
{
    let base = metadata_lines_of(r, request_id);
    let lines = error_lines_of(r, request_id, Some(f));
    assert(lines.subrange(0, base.len() as int) =~= base);
}

/// Whenever the rate limit holds any quota field (unlimited, limit,
/// remaining, cost, reset, retry interval or tier), the first metadata line is
/// the `quota:` line, and each present field has its part in it.
pub proof fn law_quota_fields_are_reported(r: RateLimitView, request_id: Option<Seq<char>>)
    ensures
        (r.unlimited || r.limit is Some || r.remaining is Some || r.cost is Some
            || r.reset_epoch_seconds is Some || r.retry_after is Some || r.tier is Some) ==> {
            &&& metadata_lines_of(r, request_id).len() > 0
            &&& metadata_lines_of(r, request_id)[0] == "quota: "@ + join(quota_details(r, request_id), "; "@)
            &&& (request_id matches Some(id) ==> quota_details(r, request_id).contains("request "@ + id))
        },
        r.retry_after matches Some(t) ==> quota_details(r, request_id).contains("retry after "@ + t),
        r.tier matches Some(t) ==> quota_details(r, request_id).contains("tier "@ + t),
        r.reset_epoch_seconds matches Some(n) ==> quota_details(r, request_id).contains(
            "reset epoch "@ + decimal(n as nat),
        ),
        r.cost matches Some(c) ==> quota_details(r, request_id).contains(cost_phrase(c)),
        r.unlimited ==> quota_details(r, request_id).contains("daily unlimited"@),
{
    let d1 = push_some(
        Seq::empty(),
        match r.cost {
            Some(c) => Some(cost_phrase(c)),
            None => None,
        },
    );
    let d2 = if r.unlimited {
        d1.push("daily unlimited"@)
    } else {
        push_some(d1, allowance_phrase(r.remaining, r.limit))
    };
    let d3 = push_some(d2, prefixed_number("reset epoch "@, r.reset_epoch_seconds));
    let d4 = push_some(d3, prefixed("retry after "@, r.retry_after));
    let d5 = push_some(d4, prefixed("tier "@, r.tier));
    let q = push_some(d5, prefixed("request "@, request_id));
    assert(q == quota_details(r, request_id));
    if let Some(c) = r.cost {
        lemma_pushed(Seq::empty(), cost_phrase(c));
        lemma_kept_through(d1, d2, d3, d4, d5, q, cost_phrase(c));
    }
    if r.unlimited {
        lemma_pushed(d1, "daily unlimited"@);
        lemma_kept_through(d2, d2, d3, d4, d5, q, "daily unlimited"@);
    }
    if let Some(n) = r.reset_epoch_seconds {
        lemma_pushed(d2, "reset epoch "@ + decimal(n as nat));
        lemma_kept_through(d3, d3, d3, d4, d5, q, "reset epoch "@ + decimal(n as nat));
    }
    if let Some(t) = r.retry_after {
        lemma_pushed(d3, "retry after "@ + t);
        lemma_kept_through(d4, d4, d4, d4, d5, q, "retry after "@ + t);
    }
    if let Some(t) = r.tier {
        lemma_pushed(d4, "tier "@ + t);
        lemma_kept_through(d5, d5, d5, d5, d5, q, "tier "@ + t);
    }
    if let Some(id) = request_id {
        lemma_pushed(d5, "request "@ + id);
    }
}

proof fn lemma_pushed(parts: Seq<Seq<char>>, p: Seq<char>)
    ensures
        parts.push(p).contains(p),
        push_some(parts, Some(p)).contains(p),
{
    assert(parts.push(p)[parts.len() as int] == p);
}

/// A part that is in a list stays in it through later additions.
proof fn lemma_kept_through(
    a: Seq<Seq<char>>,
    b: Seq<Seq<char>>,
    c: Seq<Seq<char>>,
    d: Seq<Seq<char>>,
    e: Seq<Seq<char>>,
    f: Seq<Seq<char>>,
    x: Seq<char>,
)
    requires
        a.contains(x),
        a.is_prefix_of(b),
        b.is_prefix_of(c),
        c.is_prefix_of(d),
        d.is_prefix_of(e),
        e.is_prefix_of(f),
    ensures
        f.contains(x),
{
    let i = choose|i: int| 0 <= i < a.len() && a[i] == x;
    assert(f[i] == x);
}

/// A character that `char::is_ascii_alphanumeric` accepts, or `-` or `_`, by
/// its code: `a`-`z` (97-122), `A`-`Z` (65-90), `0`-`9` (48-57), `-` (45), `_` (95).
pub open spec fn name_char(c: char) -> bool {
    let n = c as int;
    (97 <= n && n <= 122) || (65 <= n && n <= 90) || (48 <= n && n <= 57) || n == 45 || n == 95
}

/// Exactly the non-empty names made of ASCII letters, digits, `-` and `_` are
/// accepted, and an accepted name gives `.` and the name in the home directory;
/// every other name is refused as invalid.
pub proof fn law_config_names(app: Seq<char>, home: Seq<u8>)
    ensures
        (app.len() > 0 && forall|i: int| 0 <= i < app.len() ==> #[trigger] name_char(app[i]))
            ==> config_path_of(app, Some(home)) == path_ok(join_bytes(home, text_bytes("."@ + app))),
        !(app.len() > 0 && forall|i: int| 0 <= i < app.len() ==> #[trigger] name_char(app[i]))
            ==> config_path_of(app, Some(home)) == path_refused(),
{
    assert forall|i: int| 0 <= i < app.len() implies (#[trigger] name_char(app[i]) <==> (
    ('a' <= app[i] && app[i] <= 'z') || ('A' <= app[i] && app[i] <= 'Z') || ('0' <= app[i]
        && app[i] <= '9') || app[i] == '-' || app[i] == '_')) by {
        let c = app[i];
        assert(('a' as int) == 97 && ('z' as int) == 122 && ('A' as int) == 65 && ('Z' as int) == 90);
        assert(('0' as int) == 48 && ('9' as int) == 57 && ('-' as int) == 45 && ('_' as int) == 95);
    }
    if app.len() > 0 && forall|i: int| 0 <= i < app.len() ==> #[trigger] name_char(app[i]) {
        assert forall|i: int| 0 <= i < app.len() implies ('a' <= #[trigger] app[i] && app[i] <= 'z')
            || ('A' <= app[i] && app[i] <= 'Z') || ('0' <= app[i] && app[i] <= '9') || app[i] == '-'
            || app[i] == '_' by {
            assert(name_char(app[i]));
        }
        assert(is_config_name(app));
    }
}

} // verus!
