use notion_site_proxy::config::{CacheConfig, Config, DomainConfig, mapping_is_valid};
use notion_site_proxy::error::ProxyError;
use notion_site_proxy::handler::RequestPlan;
use notion_site_proxy::resolver::{ResolutionCache, Resolver};
use notion_site_proxy::router::{HandlingStrategy, route};

const GUIDE_PAGE: &str = "abcd1234abcd1234abcd1234abcd1234";

fn tenant() -> DomainConfig {
    DomainConfig::new(
        "docs.example.com".to_string(),
        vec![("guide".to_string(), GUIDE_PAGE.to_string())],
    )
}

fn directory() -> Vec<(String, DomainConfig)> {
    vec![("docs.example.com".to_string(), tenant())]
}

fn cache_cfg() -> CacheConfig {
    CacheConfig { max_capacity: 100, time_to_live_secs: 3600 }
}

#[test]
fn resolve_www_equivalence() {
    let mut resolver = Resolver::new(directory(), &cache_cfg());
    let plain = resolver.get_domain_config("docs.example.com", 10).unwrap();
    let www = resolver.get_domain_config("www.docs.example.com", 11).unwrap();
    assert_eq!(plain.my_domain, www.my_domain);
    assert_eq!(plain.slug_to_page, www.slug_to_page);
    assert_eq!(plain.slugs, www.slugs);
    assert_eq!(plain.pages, www.pages);
    assert_eq!(plain.page_to_slug, www.page_to_slug);
}

#[test]
fn resolve_unknown_domain_fails() {
    let mut resolver = Resolver::new(directory(), &cache_cfg());
    match resolver.get_domain_config("nosuch.example.com", 10) {
        Err(ProxyError::DomainNotFound(d)) => assert_eq!(d, "nosuch.example.com"),
        _ => panic!("expected a domain-not-found error"),
    }
    match resolver.get_domain_config("www.nosuch.example.com", 10) {
        Err(ProxyError::DomainNotFound(d)) => assert_eq!(d, "nosuch.example.com"),
        _ => panic!("expected a domain-not-found error"),
    }
}

#[test]
fn resolve_cache_hit_matches_directory() {
    let mut resolver = Resolver::new(directory(), &cache_cfg());
    let first = resolver.get_domain_config("docs.example.com", 10).unwrap();
    // served from the cache now, still the same tenant
    let second = resolver.get_domain_config("docs.example.com", 20).unwrap();
    assert_eq!(first.my_domain, second.my_domain);
    assert_eq!(first.slug_to_page, second.slug_to_page);
    assert_eq!(first.page_to_slug, second.page_to_slug);
}

#[test]
fn cache_expires_entries() {
    let mut cache = ResolutionCache::new(&CacheConfig { max_capacity: 10, time_to_live_secs: 60 });
    let host: Vec<char> = "docs.example.com".chars().collect();
    cache.insert("docs.example.com".to_string(), tenant(), 100);
    assert!(cache.lookup(&host, 159).is_some());
    assert!(cache.lookup(&host, 160).is_none());
    assert!(cache.lookup(&host, 1000).is_none());
}

#[test]
fn cache_evicts_least_recently_inserted() {
    let mut cache = ResolutionCache::new(&CacheConfig { max_capacity: 2, time_to_live_secs: 600 });
    cache.insert("a.example.com".to_string(), tenant(), 10);
    cache.insert("b.example.com".to_string(), tenant(), 11);
    cache.insert("c.example.com".to_string(), tenant(), 12);
    let a: Vec<char> = "a.example.com".chars().collect();
    let b: Vec<char> = "b.example.com".chars().collect();
    let c: Vec<char> = "c.example.com".chars().collect();
    assert!(cache.lookup(&a, 13).is_none());
    assert!(cache.lookup(&b, 13).is_some());
    assert!(cache.lookup(&c, 13).is_some());
}

#[test]
fn cache_reinsert_same_host_keeps_one_entry() {
    let mut cache = ResolutionCache::new(&CacheConfig { max_capacity: 2, time_to_live_secs: 600 });
    cache.insert("a.example.com".to_string(), tenant(), 10);
    cache.insert("a.example.com".to_string(), tenant(), 20);
    cache.insert("b.example.com".to_string(), tenant(), 21);
    let a: Vec<char> = "a.example.com".chars().collect();
    let b: Vec<char> = "b.example.com".chars().collect();
    assert!(cache.lookup(&a, 22).is_some());
    assert!(cache.lookup(&b, 22).is_some());
}

#[test]
fn route_is_deterministic() {
    let cfg = tenant();
    let first = route("GET", "/guide", &cfg);
    let second = route("GET", "/guide", &cfg);
    assert_eq!(first, second);
}

#[test]
fn options_requests_short_circuit() {
    let cfg = tenant();
    assert_eq!(route("OPTIONS", "/guide", &cfg), HandlingStrategy::CorsPreflight);
    assert_eq!(route("OPTIONS", "/api/v3/anything", &cfg), HandlingStrategy::CorsPreflight);
    assert_eq!(route("OPTIONS", "/robots.txt", &cfg), HandlingStrategy::CorsPreflight);
}

#[test]
fn special_paths_route_to_synthetics() {
    let cfg = tenant();
    assert_eq!(route("GET", "/robots.txt", &cfg), HandlingStrategy::RobotsTxt);
    assert_eq!(route("GET", "/sitemap.xml", &cfg), HandlingStrategy::Sitemap);
    assert_eq!(route("GET", "/app-123.js", &cfg), HandlingStrategy::JsAsset);
    assert_eq!(route("GET", "/api/v3/loadPageChunk", &cfg), HandlingStrategy::ApiCall);
    assert_eq!(route("GET", "/anything-else", &cfg), HandlingStrategy::HtmlPassthrough);
}

#[test]
fn slug_routes_to_redirect() {
    let cfg = tenant();
    assert_eq!(
        route("GET", "/guide", &cfg),
        HandlingStrategy::SlugRedirect(GUIDE_PAGE.to_string())
    );
}

#[test]
fn hex_shaped_slug_still_redirects_as_slug() {
    // a configured slug that itself has the shape of a page id
    let hexslug = "0123456789abcdef0123456789abcdef";
    let cfg = DomainConfig::new(
        "docs.example.com".to_string(),
        vec![(hexslug.to_string(), GUIDE_PAGE.to_string())],
    );
    let path = format!("/{hexslug}");
    assert_eq!(
        route("GET", &path, &cfg),
        HandlingStrategy::SlugRedirect(GUIDE_PAGE.to_string())
    );
}

#[test]
fn unknown_page_id_redirects_to_root() {
    let cfg = tenant();
    assert_eq!(
        route("GET", "/deadbeefdeadbeefdeadbeefdeadbeef", &cfg),
        HandlingStrategy::UnknownPageRedirect
    );
}

#[test]
fn known_page_id_passes_through() {
    let cfg = tenant();
    let path = format!("/{GUIDE_PAGE}");
    assert_eq!(route("GET", &path, &cfg), HandlingStrategy::HtmlPassthrough);
}

#[test]
fn non_page_paths_pass_through() {
    let cfg = tenant();
    // 31 hex characters: not a page id
    assert_eq!(
        route("GET", "/deadbeefdeadbeefdeadbeefdeadbee", &cfg),
        HandlingStrategy::HtmlPassthrough
    );
    // 32 characters with an uppercase letter: not a page id
    assert_eq!(
        route("GET", "/Deadbeefdeadbeefdeadbeefdeadbeef", &cfg),
        HandlingStrategy::HtmlPassthrough
    );
}

#[test]
fn plan_slug_redirect_location() {
    let cfg = tenant();
    let config = Config::default();
    let plan = cfg.plan_request(&config.notion, "GET", "/guide", "", &vec![]);
    match plan {
        RequestPlan::Respond(resp) => {
            assert_eq!(resp.status, 301);
            assert_eq!(
                resp.headers,
                vec![(
                    "location".to_string(),
                    format!("https://docs.example.com/{GUIDE_PAGE}")
                )]
            );
            assert_eq!(resp.body, "");
        }
        _ => panic!("expected a local response"),
    }
}

#[test]
fn plan_unknown_page_redirect_location() {
    let cfg = tenant();
    let config = Config::default();
    let plan = cfg.plan_request(
        &config.notion,
        "GET",
        "/deadbeefdeadbeefdeadbeefdeadbeef",
        "",
        &vec![],
    );
    match plan {
        RequestPlan::Respond(resp) => {
            assert_eq!(resp.status, 301);
            assert_eq!(
                resp.headers,
                vec![("location".to_string(), "https://docs.example.com".to_string())]
            );
        }
        _ => panic!("expected a local response"),
    }
}

#[test]
fn plan_cors_preflight() {
    let cfg = tenant();
    let config = Config::default();
    let plan = cfg.plan_request(&config.notion, "OPTIONS", "/guide", "", &vec![]);
    match plan {
        RequestPlan::Respond(resp) => {
            assert_eq!(resp.status, 200);
            assert_eq!(
                resp.headers,
                vec![
                    ("Access-Control-Allow-Origin".to_string(), "*".to_string()),
                    (
                        "Access-Control-Allow-Methods".to_string(),
                        "GET, HEAD, POST, PUT, OPTIONS".to_string()
                    ),
                    ("Access-Control-Allow-Headers".to_string(), "Content-Type".to_string()),
                ]
            );
            assert_eq!(resp.body, "");
        }
        _ => panic!("expected a local response"),
    }
}

#[test]
fn plan_api_call_policies() {
    let cfg = tenant();
    let config = Config::default();
    let plan = cfg.plan_request(
        &config.notion,
        "POST",
        "/api/v3/getPublicPageData",
        "",
        &vec![],
    );
    match plan {
        RequestPlan::FetchApi { url, include_body, headers } => {
            assert_eq!(url, "https://faeton.notion.site/api/v3/getPublicPageData");
            assert!(!include_body);
            assert_eq!(headers[0].0, "content-type");
            assert_eq!(headers[0].1, "application/json;charset=UTF-8");
            assert_eq!(headers[1].0, "user-agent");
        }
        _ => panic!("expected an API fetch plan"),
    }

    let plan = cfg.plan_request(&config.notion, "POST", "/api/v3/loadPageChunk", "x=1", &vec![]);
    match plan {
        RequestPlan::FetchApi { url, include_body, .. } => {
            assert_eq!(url, "https://faeton.notion.site/api/v3/loadPageChunk?x=1");
            assert!(include_body);
        }
        _ => panic!("expected an API fetch plan"),
    }
}

#[test]
fn plan_html_filters_headers() {
    let cfg = tenant();
    let config = Config::default();
    let request_headers = vec![
        ("Host".to_string(), "docs.example.com".to_string()),
        ("accept".to_string(), "text/html".to_string()),
        ("Content-Length".to_string(), "12".to_string()),
        ("cookie".to_string(), "a=b".to_string()),
    ];
    let plan = cfg.plan_request(&config.notion, "GET", "/anything", "", &request_headers);
    match plan {
        RequestPlan::FetchHtml { url, headers } => {
            assert_eq!(url, "https://faeton.notion.site/anything");
            assert_eq!(
                headers,
                vec![
                    ("accept".to_string(), "text/html".to_string()),
                    ("cookie".to_string(), "a=b".to_string()),
                ]
            );
        }
        _ => panic!("expected an HTML fetch plan"),
    }
}

#[test]
fn mapping_validation() {
    let unique = vec![
        ("a".to_string(), "1".to_string()),
        ("b".to_string(), "2".to_string()),
    ];
    assert!(mapping_is_valid(&unique));
    let dup_keys = vec![
        ("a".to_string(), "1".to_string()),
        ("a".to_string(), "2".to_string()),
    ];
    assert!(!mapping_is_valid(&dup_keys));
    let dup_vals = vec![
        ("a".to_string(), "1".to_string()),
        ("b".to_string(), "1".to_string()),
    ];
    assert!(!mapping_is_valid(&dup_vals));
}

#[test]
fn derived_fields_invert_the_mapping() {
    let cfg = DomainConfig::new(
        "docs.example.com".to_string(),
        vec![
            ("guide".to_string(), GUIDE_PAGE.to_string()),
            ("intro".to_string(), "0123456789abcdef0123456789abcdef".to_string()),
        ],
    );
    assert_eq!(cfg.slugs, vec!["guide".to_string(), "intro".to_string()]);
    assert_eq!(
        cfg.pages,
        vec![GUIDE_PAGE.to_string(), "0123456789abcdef0123456789abcdef".to_string()]
    );
    assert_eq!(
        cfg.page_to_slug,
        vec![
            (GUIDE_PAGE.to_string(), "guide".to_string()),
            ("0123456789abcdef0123456789abcdef".to_string(), "intro".to_string()),
        ]
    );
    assert_eq!(cfg.slugs.iter().filter(|s| s.as_str() == "guide").count(), 1);
    assert_eq!(cfg.pages.iter().filter(|p| p.as_str() == GUIDE_PAGE).count(), 1);
}

#[test]
fn config_default_values() {
    let config = Config::default();
    assert_eq!(config.server.host, "0.0.0.0");
    assert_eq!(config.server.port, 3000);
    assert_eq!(config.server.log_level, "info");
    assert_eq!(config.notion.username, "faeton");
    assert!(config.notion.user_agent.starts_with("Mozilla/5.0"));
    assert!(config.domains.is_empty());
    assert_eq!(config.cache.max_capacity, 1000);
    assert_eq!(config.cache.time_to_live_secs, 3600);
}

#[test]
fn error_messages_are_descriptive() {
    assert_eq!(
        ProxyError::DomainNotFound("x.example.com".to_string()).message(),
        "Domain not found: x.example.com"
    );
    assert_eq!(
        ProxyError::UpstreamRequestFailed("timed out".to_string()).message(),
        "HTTP request error: timed out"
    );
    assert_eq!(
        ProxyError::ContentDecodeFailed("bad utf-8".to_string()).message(),
        "Content decode error: bad utf-8"
    );
    assert_eq!(
        ProxyError::Config("missing".to_string()).message(),
        "Configuration error: missing"
    );
    assert_eq!(
        ProxyError::HtmlRewrite("oops".to_string()).message(),
        "HTML rewriting error: oops"
    );
    assert_eq!(
        ProxyError::Internal("boom".to_string()).message(),
        "Internal server error: boom"
    );
}
