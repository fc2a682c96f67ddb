//! Filters, texts, time zones and the other small parts.

use orion::headers::{FieldName, FieldValue, Headers};
use orion::http_filters::{
    apply_authorization_rules, per_route_http_filters, EventFailure, FilterConfigOverride, FilterDecision,
    FilterOverride, HttpFilter, HttpFilterType, HttpFilterValue, HttpResponse, HttpVersion, RouteFilters,
};
use orion::local_rate_limiter::{
    build_token_bucket, ListenerLocalRateLimit, LocalRateLimit, RateLimitEvent, TokenBucketConfig,
};
use orion::metrics::filters::{init_metrics, FilterMetrics};
use orion::name_table::NameTable;
use orion::partition_key::{
    collect_custom_labels, configured_keys, extract_custom_partition_key, extract_user_partition_key, KeyConfig,
    PartitionKey, SourceHeaderName, SourceHeaderNameOrSni,
};
use orion::runtime::{worker_thread_name, worker_threads, RuntimeId};
use orion::sharded::{one_label, with_label};
use orion::str_pair::StrPair;
use orion::text::{append_signed, decimal_string, find_char, has_prefix, has_suffix, parse_u64, str_eq};
use orion::timezone::{init_tz_cache, local_offset_sec, observes_daylight_saving, LocalOffset, TzPlan, Zone};

const START: u128 = 1_000_000_000_000;
const MS: u128 = 1_000_000;

fn name(text: &str) -> FieldName {
    FieldName::parse(text).unwrap()
}

fn headers(fields: &[(&str, &[u8])]) -> Headers {
    let mut headers = Headers::new();
    for (field, value) in fields {
        headers.append(&name(field), &FieldValue::from_bytes(value.to_vec()).unwrap()).unwrap();
    }
    headers
}

fn response(decision: FilterDecision) -> HttpResponse {
    match decision {
        FilterDecision::DirectResponse(response) => response,
        other => panic!("{other:?}"),
    }
}

#[test]
fn decisions_make_responses() {
    let v = HttpVersion::Http2;
    let made = [
        (response(FilterDecision::internal_server_error("a", v)), 500),
        (response(FilterDecision::bad_request("a", v)), 400),
        (response(FilterDecision::not_found("a", v)), 404),
        (response(FilterDecision::method_not_allowed("a", v)), 405),
        (response(FilterDecision::no_route_found("a", v)), 404),
        (response(FilterDecision::rate_limited("a", None, v)), 429),
        (response(FilterDecision::rate_limited("a", Some(503), v)), 503),
        (response(FilterDecision::unauthorized("a", v)), 401),
    ];
    for (response, status) in &made {
        assert_eq!(response.status, *status);
        assert_eq!(response.body, b"a");
        assert!(response.version == v);
    }
    assert!(matches!(made[4].0.failure, Some(EventFailure::RouteNotFound)));
    assert!(FilterDecision::Continue.headers().is_none());
    assert!(FilterDecision::not_found("a", v).headers().is_some());
    assert!(matches!(apply_authorization_rules(true, None, v), FilterDecision::Continue));
    let denied = response(apply_authorization_rules(false, Some("p".to_owned()), v));
    assert_eq!((denied.status, denied.body.as_slice()), (403, b"RBAC: access denied".as_slice()));
    assert!(matches!(denied.failure, Some(EventFailure::RbacAccessDenied(p)) if p == "p"));
    let denied = response(apply_authorization_rules(false, None, v));
    assert!(matches!(denied.failure, Some(EventFailure::RbacAccessDenied(p)) if p == "unknown"));
}

#[test]
fn routes_change_filters() {
    let filters = vec![
        HttpFilter::from_config("rl".to_owned(), false, HttpFilterType::RateLimit(1)),
        HttpFilter::from_config("rbac".to_owned(), false, HttpFilterType::Rbac(2)),
    ];
    let mut overrides = NameTable::new();
    overrides.insert(
        "rl".to_owned(),
        FilterOverride { disabled: false, filter_settings: Some(FilterConfigOverride::LocalRateLimit(9)) },
    );
    overrides.insert("rbac".to_owned(), FilterOverride { disabled: true, filter_settings: None });
    let routes = vec![
        RouteFilters { route_match: 5, overrides },
        RouteFilters { route_match: 6, overrides: NameTable::new() },
    ];
    let table = per_route_http_filters(&routes, &filters);
    assert_eq!(table.len(), 2);
    let of = |route: u64| &table.iter().find(|(r, _)| *r == route).unwrap().1;
    assert!(matches!(of(5)[0].filter, Some(HttpFilterValue::RateLimit(9))));
    assert!(of(5)[1].disabled);
    assert!(matches!(of(6)[0].filter, Some(HttpFilterValue::RateLimit(1))));
    assert!(!of(6)[1].disabled);
}

#[test]
fn a_local_limit_is_shared_by_runtimes() {
    let config = TokenBucketConfig { max_tokens: 1, tokens_per_fill: 1, fill_interval: 10 * MS };
    let mut limit = LocalRateLimit::new("p".to_owned(), 429, Some(config), 2, START);
    let mut metrics = FilterMetrics::default();
    init_metrics(&mut metrics, &NameTable::new());
    assert!(matches!(limit.run(HttpVersion::Http11, START, &mut metrics, 0), FilterDecision::Continue));
    let decision = limit.run(HttpVersion::Http11, START + 10 * MS, &mut metrics, 0);
    assert_eq!(response(decision).status, 429);
    assert!(matches!(limit.run(HttpVersion::Http11, START + 20 * MS, &mut metrics, 0), FilterDecision::Continue));
    let mut none = LocalRateLimit::new("q".to_owned(), 429, None, 2, START);
    assert!(matches!(none.run(HttpVersion::Http11, START, &mut metrics, 0), FilterDecision::Continue));
    let count = |filter: &str, event: RateLimitEvent| {
        let labels = with_label(&one_label("filter", filter), "result", event.label());
        metrics.local_rate_limit.as_ref().unwrap().value.load(&labels)
    };
    assert_eq!(count("p", RateLimitEvent::Passed), Some(2));
    assert_eq!(count("p", RateLimitEvent::Limited), Some(1));
    assert_eq!(count("p", RateLimitEvent::NotApplicable), None);
    assert_eq!(count("q", RateLimitEvent::NotApplicable), Some(1));
    assert_eq!(RateLimitEvent::Limited.label(), "rate_limited");

    let config = TokenBucketConfig { max_tokens: 2, tokens_per_fill: 1, fill_interval: 10 * MS };
    assert_eq!(build_token_bucket(&config, 1, START).capacity(), 2);
    let mut listener = ListenerLocalRateLimit::new("p".to_owned(), &config, 1, START);
    assert!(listener.allow(START) && listener.allow(START) && !listener.allow(START));
}

#[test]
fn requests_are_put_into_partitions() {
    let fields = headers(&[("x-user", b"u"), ("x-raw", &[0xff])]);
    let sni = Some("sni".to_owned());
    let by_header = SourceHeaderNameOrSni::HeaderName(name("X-User"));
    assert_eq!(extract_user_partition_key(&fields, &sni, Some(&by_header)).as_deref(), Some("u"));
    assert_eq!(extract_user_partition_key(&fields, &sni, Some(&SourceHeaderNameOrSni::Sni)).as_deref(), Some("sni"));
    assert_eq!(extract_user_partition_key(&fields, &sni, None), None);
    let raw = SourceHeaderNameOrSni::HeaderName(name("x-raw"));
    assert_eq!(extract_user_partition_key(&fields, &sni, Some(&raw)), None);
    let source = Some(SourceHeaderName::HeaderName(name("x-user")));
    assert_eq!(extract_custom_partition_key(&fields, &source).as_deref(), Some("u"));
    assert_eq!(extract_custom_partition_key(&fields, &None), None);

    let mut key: PartitionKey<SourceHeaderName> = PartitionKey::new();
    assert!(key.source().is_none() && key.attribute_name().is_none());
    assert_eq!(key.attribute_or("d"), "d");
    key.set_source(SourceHeaderName::HeaderName(name("x-user")));
    key.set_attribute_name("tenant".to_owned());
    let empty: PartitionKey<SourceHeaderName> = PartitionKey::new();
    let labels = collect_custom_labels(&vec![key, empty], &fields);
    assert_eq!(labels, [("tenant".to_owned(), "u".to_owned())]);

    let config = |field: &str, attribute: Option<&str>| KeyConfig {
        source: SourceHeaderName::HeaderName(name(field)),
        attribute_name: attribute.map(|a| a.to_owned()),
    };
    let keys = configured_keys(vec![config("x-user", None), config("x-raw", Some("r"))]);
    assert_eq!(keys.len(), 2);
    assert_eq!(collect_custom_labels(&keys, &fields), [("custom".to_owned(), "u".to_owned())]);
    assert_eq!(keys[1].attribute_name(), Some("r"));
    assert!(PartitionKey::<SourceHeaderName>::configured(None).source().is_none());
}

#[test]
fn runtimes_name_their_workers() {
    assert_eq!(RuntimeId(12).text(), "12");
    assert_eq!(RuntimeId(12).get(), 12);
    assert_eq!(worker_threads(0), 1);
    assert_eq!(worker_threads(4), 4);
    assert_eq!(worker_thread_name("proxy", 1, 3), "proxy");
    assert_eq!(worker_thread_name("proxy", 2, 3), "proxy_3");
}

#[test]
fn numbers_are_written_and_read() {
    assert_eq!(decimal_string(0), "0");
    assert_eq!(decimal_string(u64::MAX), "18446744073709551615");
    assert_eq!(parse_u64("18446744073709551615"), Some(u64::MAX));
    assert_eq!(parse_u64("18446744073709551616"), None);
    assert_eq!(parse_u64(""), None);
    assert_eq!(parse_u64("+7"), Some(7));
    assert_eq!(parse_u64("-7"), None);
    let mut text = String::new();
    append_signed(&mut text, i32::MIN);
    assert_eq!(text, "-2147483648");
    assert!(str_eq("a", "a") && !str_eq("a", "ab"));
    assert!(has_prefix("abc", "ab") && !has_prefix("a", "ab"));
    assert!(has_suffix("abc", "bc") && !has_suffix("c", "bc"));
    assert_eq!(find_char("\u{e4}b.c", '.'), Some(2));
    let pair = StrPair { key: "k", value: "v" };
    assert_eq!(pair, StrPair { key: "k", value: "v" });
}

#[test]
fn local_time_follows_its_zone() {
    // Noon on the first of January and of July of one year.
    let (winter, summer) = (1_704_110_400, 1_719_835_200);
    let berlin = Zone::parse("Europe/Berlin".to_owned()).unwrap();
    assert_eq!(berlin.offset(winter), Some(3600));
    assert_eq!(berlin.offset(summer), Some(7200));
    assert!(observes_daylight_saving(&berlin, 2024));
    let tokyo = Zone::parse("Asia/Tokyo".to_owned()).unwrap();
    assert!(!observes_daylight_saving(&tokyo, 2024));

    let refused = Zone::parse("No/Where".to_owned()).unwrap_err();
    assert!(refused.message().starts_with("Invalid timezone: "));
    assert!(matches!(init_tz_cache("", 2024, winter), Ok(TzPlan::Universal)));
    assert!(matches!(init_tz_cache("UTC", 2024, winter), Ok(TzPlan::Universal)));
    assert!(matches!(init_tz_cache("Asia/Tokyo", 2024, winter), Ok(TzPlan::Constant(32_400))));
    assert!(init_tz_cache("No/Where", 2024, winter).is_err());
    let Ok(TzPlan::Follow(mut follower)) = init_tz_cache("Europe/Berlin", 2024, winter) else {
        panic!("a zone that changes");
    };
    let mut cache = LocalOffset { sec: None };
    follower.tick(&mut cache, summer);
    assert_eq!(local_offset_sec(&cache), Some(7200));
    assert_eq!(follower.prev_offset, 7200);
}
