use reqwest::header::HeaderMap;
use somme_cli::fair_use::{alternative_from_value, body_string, fair_use_from_body};
use somme_cli::response::{read_response_bytes, status_display};
use somme_cli::{
    format_alternative, metadata_lines, rate_limit_from_headers, read_response,
    response_metadata_lines, ApiResponse, FairUseAlternative, Json, JsonNumber, RateLimit,
};

fn to_json(value: &serde_json::Value) -> Json {
    match value {
        serde_json::Value::Null => Json::Null,
        serde_json::Value::Bool(b) => Json::Bool(*b),
        serde_json::Value::Number(n) => Json::Number(if let Some(u) = n.as_u64() {
            JsonNumber::Unsigned(u)
        } else if let Some(i) = n.as_i64() {
            JsonNumber::Negative(i)
        } else {
            JsonNumber::Decimal(n.to_string())
        }),
        serde_json::Value::String(s) => Json::Str(s.clone()),
        serde_json::Value::Array(items) => Json::Array(items.iter().map(to_json).collect()),
        serde_json::Value::Object(fields) => Json::Object(
            fields
                .iter()
                .map(|(k, v)| (k.clone(), to_json(v)))
                .collect(),
        ),
    }
}

fn parse(text: &str) -> Option<Json> {
    serde_json::from_str::<serde_json::Value>(text)
        .ok()
        .map(|v| to_json(&v))
}

fn headers(pairs: &[(&'static str, &'static str)]) -> HeaderMap {
    let mut headers = HeaderMap::new();
    for (name, value) in pairs {
        headers.insert(*name, value.parse().unwrap());
    }
    headers
}

#[test]
fn parses_unlimited_admin_headers() {
    let mut headers = reqwest::header::HeaderMap::new();
    headers.insert("x-ratelimit-limit", "unlimited".parse().unwrap());
    headers.insert("x-ratelimit-remaining", "unlimited".parse().unwrap());
    assert!(rate_limit_from_headers(&headers).unlimited);
}

#[test]
fn parses_weighted_response_metadata() {
    let mut headers = reqwest::header::HeaderMap::new();
    headers.insert("x-ratelimit-limit", "2000".parse().unwrap());
    headers.insert("x-ratelimit-remaining", "375".parse().unwrap());
    headers.insert("x-ratelimit-reset", "1786233600".parse().unwrap());
    headers.insert("x-ratelimit-cost", "145".parse().unwrap());
    headers.insert("retry-after", "30".parse().unwrap());
    headers.insert("x-ratelimit-warning", "Quota is low".parse().unwrap());
    headers.insert("x-ratelimit-tier", "claimed".parse().unwrap());
    assert_eq!(
        rate_limit_from_headers(&headers),
        RateLimit {
            limit: Some(2000),
            remaining: Some(375),
            reset_epoch_seconds: Some(1786233600),
            unlimited: false,
            cost: Some(145),
            retry_after: Some("30".into()),
            warning: Some("Quota is low".into()),
            tier: Some("claimed".into()),
        }
    );
}

#[test]
fn header_values_follow_the_parsing_rules_of_the_standard_library() {
    let rate = rate_limit_from_headers(&headers(&[
        ("x-ratelimit-limit", "UnLimited"),
        ("x-ratelimit-remaining", "+12"),
        ("x-ratelimit-reset", "18446744073709551616"),
        ("x-ratelimit-cost", " 5"),
        ("retry-after", "   "),
        ("x-fair-use-warning", "  slow down "),
        ("x-fair-use-tier", "gold"),
    ]));
    assert!(rate.unlimited);
    assert_eq!(rate.limit, None);
    assert_eq!(rate.remaining, Some(12));
    assert_eq!(rate.reset_epoch_seconds, None);
    assert_eq!(rate.cost, None);
    assert_eq!(rate.retry_after, None);
    assert_eq!(rate.warning.as_deref(), Some("slow down"));
    assert_eq!(rate.tier.as_deref(), Some("gold"));
    let max = rate_limit_from_headers(&headers(&[("x-ratelimit-limit", "18446744073709551615")]));
    assert_eq!(max.limit, Some(u64::MAX));
    assert!(!max.unlimited);
    let empty = rate_limit_from_headers(&HeaderMap::new());
    assert_eq!(empty, RateLimit::default());
}

#[test]
fn header_values_outside_visible_ascii_are_not_text() {
    let mut map = HeaderMap::new();
    map.insert(
        "x-ratelimit-tier",
        reqwest::header::HeaderValue::from_bytes("gold\u{e9}".as_bytes()).unwrap(),
    );
    map.insert("x-fair-use-tier", "silver".parse().unwrap());
    assert_eq!(rate_limit_from_headers(&map).tier.as_deref(), Some("silver"));
}

#[test]
fn successful_response_exposes_request_and_quota_metadata() {
    let body = r#"{"ok":true}"#;
    let response = read_response_bytes(
        200,
        &headers(&[
            ("content-type", "application/json"),
            ("x-ratelimit-limit", "1000"),
            ("x-ratelimit-remaining", "975"),
            ("x-ratelimit-cost", "25"),
            ("x-ratelimit-tier", "member"),
            ("x-ratelimit-warning", "Daily allowance is below 20 percent"),
            ("x-request-id", "req_success"),
        ]),
        body.as_bytes())
    .unwrap();
    assert_eq!(
        response.body,
        Json::Object(vec![("ok".to_string(), Json::Bool(true))])
    );
    assert_eq!(response.request_id.as_deref(), Some("req_success"));
    assert_eq!(
        response_metadata_lines(&response),
        vec![
            "quota: cost 25 units; 975/1000 remaining; tier member; request req_success",
            "warning: Daily allowance is below 20 percent",
        ]
    );
}

const REFUSAL: &str = r#"{
    "error": "This request needs 40 units; 20 remain.",
    "code": "quota_exceeded",
    "scope": "daily",
    "cost": 40,
    "remaining": 20,
    "shortfall": 20,
    "retryAt": "2026-08-09T00:00:00Z",
    "requestId": "req_body",
    "alternatives": [{
        "kind": "reduce_limit",
        "label": "Return 25 rows",
        "cost": 10,
        "command": "somme request /entities?limit=25",
        "parameters": { "limit": 25 }
    }]
}"#;

#[test]
fn retains_structured_rate_limit_error_body_and_alternatives() {
    let body = parse(REFUSAL).unwrap();
    let api = read_response_bytes(
        429,
        &headers(&[
            ("content-type", "application/json"),
            ("x-ratelimit-limit", "1000"),
            ("x-ratelimit-remaining", "20"),
            ("x-ratelimit-cost", "40"),
            ("x-request-id", "req_header"),
            ("retry-after", "60"),
        ]),
        REFUSAL.as_bytes())
    .unwrap_err();
    assert_eq!(api.status, 429);
    assert!(api.is_rate_limited());
    assert_eq!(api.body, body);
    assert_eq!(api.request_id.as_deref(), Some("req_header"));
    assert_eq!(api.rate_limit.cost, Some(40));
    assert_eq!(api.rate_limit.retry_after.as_deref(), Some("60"));
    assert_eq!(
        api.fair_use.as_ref().unwrap().scope.as_deref(),
        Some("daily")
    );
    assert_eq!(api.alternatives()[0].cost, Some(10));
    assert_eq!(
        api.alternatives()[0].parameters,
        Some(Json::Object(vec![(
            "limit".to_string(),
            Json::Number(JsonNumber::Unsigned(25))
        )]))
    );
    let rendered = api.display_text();
    assert!(rendered.contains("429 Too Many Requests"));
    assert!(rendered.contains("cost 40 units"));
    assert!(rendered.contains("fair use: scope daily; shortfall 20"));
    assert!(rendered.contains("retry after 60"));
    assert!(rendered.contains("alternative: Return 25 rows (cost 10 units"));
}

#[test]
fn refusal_renders_exactly() {
    let api = read_response_bytes(
        429,
        &headers(&[
            ("x-ratelimit-limit", "1000"),
            ("x-ratelimit-remaining", "20"),
            ("x-ratelimit-cost", "40"),
            ("x-request-id", "req_header"),
            ("retry-after", "60"),
        ]),
        REFUSAL.as_bytes())
    .unwrap_err();
    assert_eq!(api.message, "This request needs 40 units; 20 remain.");
    assert_eq!(
        api.display_text(),
        "429 Too Many Requests: This request needs 40 units; 20 remain.\n\
         quota: cost 40 units; 20/1000 remaining; retry after 60; request req_header\n\
         fair use: scope daily; shortfall 20\n\
         retry at: 2026-08-09T00:00:00Z\n\
         alternative: Return 25 rows (cost 10 units; command: somme request /entities?limit=25)"
    );
}

#[test]
fn refusal_without_headers_takes_cost_remaining_and_request_id_from_the_body() {
    let api = read_response_bytes(429, &HeaderMap::new(), REFUSAL.as_bytes())
        .unwrap_err();
    assert_eq!(api.rate_limit.cost, Some(40));
    assert_eq!(api.rate_limit.remaining, Some(20));
    assert_eq!(api.request_id.as_deref(), Some("req_body"));
    assert_eq!(
        api.metadata_lines(),
        vec![
            "quota: cost 40 units; 20 remaining; request req_body",
            "fair use: scope daily; shortfall 20",
            "retry at: 2026-08-09T00:00:00Z",
            "alternative: Return 25 rows (cost 10 units; command: somme request /entities?limit=25)",
        ]
    );
}

#[test]
fn preserves_non_json_error_bodies() {
    let text = "upstream unavailable";
    let api = read_response_bytes(
        502,
        &headers(&[("content-type", "text/plain")]),
        text.as_bytes())
    .unwrap_err();
    assert_eq!(api.body, Json::Str("upstream unavailable".into()));
    assert_eq!(api.message, "upstream unavailable");
}

#[test]
fn error_message_falls_back_to_the_reason_phrase() {
    let api = read_response_bytes(503, &HeaderMap::new(), b"").unwrap_err();
    assert_eq!(api.body, Json::Null);
    assert_eq!(api.message, "Service Unavailable");
    assert_eq!(api.display_text(), "503 Service Unavailable: Service Unavailable");
    let api = read_response_bytes(599, &HeaderMap::new(), b"[1]").unwrap_err();
    assert_eq!(api.message, "request failed");
    assert_eq!(api.display_text(), "599 <unknown status code>: request failed");
    let titled = r#"{"title":"Bad input","message":7}"#;
    let api = read_response_bytes(400, &HeaderMap::new(), titled.as_bytes()).unwrap_err();
    assert_eq!(api.message, "Bad input");
    assert!(api.fair_use.is_none());
}

#[test]
fn status_display_matches_status_codes() {
    assert_eq!(status_display(200), "200 OK");
    assert_eq!(status_display(429), "429 Too Many Requests");
    assert_eq!(status_display(42), "42");
    assert_eq!(status_display(1000), "1000");
}

#[test]
fn invalid_utf8_bodies_are_kept_as_lossy_text() {
    let bytes = [b'o', b'k', 0xff];
    let api = read_response_bytes(500, &HeaderMap::new(), &bytes).unwrap_err();
    assert_eq!(api.body, Json::Str("ok\u{fffd}".into()));
}

#[test]
fn request_id_falls_back_only_when_the_first_header_is_absent() {
    let r = read_response_bytes(204, &headers(&[("request-id", " req_2 ")]), b"").unwrap();
    assert_eq!(r.request_id.as_deref(), Some("req_2"));
    assert_eq!(r.body, Json::Null);
    let r = read_response_bytes(
        200,
        &headers(&[("x-request-id", "  "), ("request-id", "req_2")]),
        b"",
    )
    .unwrap();
    assert_eq!(r.request_id, None);
    assert_eq!(response_metadata_lines(&r), Vec::<String>::new());
}

#[test]
fn with_body_keeps_metadata() {
    let mut rate = RateLimit::default();
    rate.cost = Some(3);
    let mut response = ApiResponse::new(Json::Null, rate.clone());
    response.request_id = Some("req".into());
    let reshaped = response.with_body(Json::Bool(false));
    assert_eq!(reshaped.body, Json::Bool(false));
    assert_eq!(reshaped.rate_limit, rate);
    assert_eq!(reshaped.request_id.as_deref(), Some("req"));
}

#[test]
fn metadata_lines_cover_each_quota_form() {
    let mut rate = RateLimit::default();
    assert!(metadata_lines(&rate, None).is_empty());
    assert_eq!(metadata_lines(&rate, Some("id")), vec!["request: id"]);
    rate.unlimited = true;
    rate.remaining = Some(5);
    rate.reset_epoch_seconds = Some(0);
    assert_eq!(
        metadata_lines(&rate, None),
        vec!["quota: daily unlimited; reset epoch 0"]
    );
    rate.unlimited = false;
    assert_eq!(
        metadata_lines(&rate, None),
        vec!["quota: 5 remaining; reset epoch 0"]
    );
    let mut limited = RateLimit::default();
    limited.limit = Some(100);
    limited.warning = Some("careful".into());
    assert_eq!(
        metadata_lines(&limited, Some("r")),
        vec!["quota: limit 100; request r", "warning: careful"]
    );
    let mut only_warning = RateLimit::default();
    only_warning.warning = Some("w".into());
    assert_eq!(metadata_lines(&only_warning, None), vec!["warning: w"]);
}

#[test]
fn alternatives_keep_unknown_members_and_accept_plain_labels() {
    let text = r#"{"action":"page","label":7,"params":{"p":2},"cost":-1,"commandHint":"run it","zeta":true}"#;
    let alternative = alternative_from_value(parse(text).unwrap());
    assert_eq!(alternative.kind.as_deref(), Some("page"));
    assert_eq!(alternative.label, None);
    assert_eq!(alternative.cost, None);
    assert_eq!(alternative.command.as_deref(), Some("run it"));
    assert_eq!(
        alternative.parameters,
        Some(Json::Object(vec![("p".into(), Json::Number(JsonNumber::Unsigned(2)))]))
    );
    assert_eq!(
        alternative.extra,
        vec![("zeta".to_string(), Json::Bool(true))]
    );
    assert_eq!(format_alternative(&alternative), "alternative: page (command: run it)");
    let plain = alternative_from_value(Json::Str("Use the cache".into()));
    assert_eq!(plain.label.as_deref(), Some("Use the cache"));
    assert_eq!(format_alternative(&plain), "alternative: Use the cache");
    assert_eq!(
        format_alternative(&FairUseAlternative::default()),
        "alternative: lower-cost request"
    );
}

#[test]
fn fair_use_details_may_be_nested() {
    let text = r#"{"fairUse":{"scope":"minute","retry_at":" soon "},"scope":"daily"}"#;
    let details = fair_use_from_body(&parse(text).unwrap()).unwrap();
    assert_eq!(details.scope.as_deref(), Some("minute"));
    assert_eq!(details.retry_at.as_deref(), Some("soon"));
    let not_object = r#"{"fair_use":3,"fairUse":{"scope":"minute"},"code":"x"}"#;
    let details = fair_use_from_body(&parse(not_object).unwrap()).unwrap();
    assert_eq!(details.scope, None);
    assert_eq!(details.code.as_deref(), Some("x"));
    assert!(fair_use_from_body(&parse(r#"{"message":"no"}"#).unwrap()).is_none());
    assert!(fair_use_from_body(&Json::Str("x".into())).is_none());
    let body = parse(r#"{"requestId":"  ","request_id":"r2"}"#).unwrap();
    assert_eq!(body_string(&body, &["requestId", "request_id"]).as_deref(), Some("r2"));
}

#[test]
fn read_response_takes_the_parsed_value_as_given() {
    let text = r#"{"a":1}"#;
    let as_text = read_response(500, &HeaderMap::new(), text.as_bytes(), None).unwrap_err();
    assert_eq!(as_text.body, Json::Str(text.into()));
    let as_json = read_response(500, &HeaderMap::new(), text.as_bytes(), parse(text)).unwrap_err();
    assert_eq!(as_json.body, parse(text).unwrap());
    assert_eq!(
        read_response_bytes(500, &HeaderMap::new(), text.as_bytes()).unwrap_err().body,
        as_json.body
    );
}

#[test]
fn json_bodies_keep_every_kind_of_value() {
    let text = r#"{"n":null,"t":true,"u":18446744073709551615,"i":-3,"f":1.5,"s":"x","a":[1,[]]}"#;
    let api = read_response_bytes(400, &HeaderMap::new(), text.as_bytes()).unwrap_err();
    assert_eq!(api.body, parse(text).unwrap());
    assert_eq!(
        api.body,
        Json::Object(vec![
            ("a".into(), Json::Array(vec![Json::Number(JsonNumber::Unsigned(1)), Json::Array(vec![])])),
            ("f".into(), Json::Number(JsonNumber::Decimal("1.5".into()))),
            ("i".into(), Json::Number(JsonNumber::Negative(-3))),
            ("n".into(), Json::Null),
            ("s".into(), Json::Str("x".into())),
            ("t".into(), Json::Bool(true)),
            ("u".into(), Json::Number(JsonNumber::Unsigned(u64::MAX))),
        ])
    );
}
