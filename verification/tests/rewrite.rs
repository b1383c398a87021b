use notion_site_proxy::config::{Config, DomainConfig};
use notion_site_proxy::responses::{build_upstream_url, strip_security_headers};
use notion_site_proxy::rewriter::{HtmlRewriter, rewrite_js_body};

const GUIDE_PAGE: &str = "abcd1234abcd1234abcd1234abcd1234";

fn tenant() -> DomainConfig {
    DomainConfig::new(
        "docs.example.com".to_string(),
        vec![("guide".to_string(), GUIDE_PAGE.to_string())],
    )
}

fn chars(s: &str) -> Vec<char> {
    s.chars().collect()
}

fn text(v: Vec<char>) -> String {
    v.into_iter().collect()
}

#[test]
fn robots_txt_content() {
    let resp = notion_site_proxy::responses::generate_robots_txt(&tenant());
    assert_eq!(resp.status, 200);
    assert_eq!(resp.headers, vec![("content-type".to_string(), "text/plain".to_string())]);
    assert_eq!(resp.body, "Sitemap: https://docs.example.com/sitemap.xml");
}

#[test]
fn sitemap_content() {
    let resp = notion_site_proxy::responses::generate_sitemap(&tenant());
    assert_eq!(resp.status, 200);
    assert_eq!(resp.headers, vec![("content-type".to_string(), "application/xml".to_string())]);
    assert_eq!(
        resp.body,
        "<?xml version=\"1.0\" encoding=\"UTF-8\"?>\n<urlset xmlns=\"http://www.sitemaps.org/schemas/sitemap/0.9\"><url><loc>https://docs.example.com/guide</loc></url></urlset>"
    );
    assert!(resp.body.contains("<url><loc>https://docs.example.com/guide</loc></url>"));
}

#[test]
fn sitemap_empty_mapping() {
    let cfg = DomainConfig::new("docs.example.com".to_string(), vec![]);
    let resp = notion_site_proxy::responses::generate_sitemap(&cfg);
    assert_eq!(
        resp.body,
        "<?xml version=\"1.0\" encoding=\"UTF-8\"?>\n<urlset xmlns=\"http://www.sitemaps.org/schemas/sitemap/0.9\"></urlset>"
    );
}

#[test]
fn upstream_url_building() {
    let config = Config::default();
    assert_eq!(
        build_upstream_url(&config.notion, "/guide", ""),
        "https://faeton.notion.site/guide"
    );
    assert_eq!(
        build_upstream_url(&config.notion, "/api/v3/x", "a=1&b=2"),
        "https://faeton.notion.site/api/v3/x?a=1&b=2"
    );
}

#[test]
fn meta_pass_rewrites_title_description_and_urls() {
    let mut cfg = tenant();
    cfg.page_title = Some("My Docs".to_string());
    cfg.page_description = Some("Great".to_string());
    let rewriter = HtmlRewriter::new(cfg);
    let input = "<title>Old</title><meta property=\"og:title\" content=\"x\"><meta name=\"twitter:title\" content=\"x\"><meta name=\"description\" content=\"y\"><meta property=\"og:description\" content=\"y\"><meta name=\"twitter:description\" content=\"y\"><meta property=\"og:url\" content=\"u\"><meta name=\"twitter:url\" content=\"u\"><meta name=\"apple-itunes-app\" content=\"z\">";
    let expected = "<title>My Docs</title><title style=\"display:none\">Old</title><meta property=\"og:title\" content=\"My Docs\"><meta name=\"twitter:title\" content=\"My Docs\"><meta name=\"description\" content=\"Great\"><meta property=\"og:description\" content=\"Great\"><meta name=\"twitter:description\" content=\"Great\"><meta property=\"og:url\" content=\"docs.example.com\"><meta name=\"twitter:url\" content=\"docs.example.com\">";
    let out = text(rewriter.rewrite_meta_tags(chars(input)));
    assert_eq!(out, expected);
}

#[test]
fn meta_pass_handles_whitespace_between_attributes() {
    let mut cfg = tenant();
    cfg.page_title = Some("T".to_string());
    let rewriter = HtmlRewriter::new(cfg);
    let input = "<meta  \n property=\"og:title\"  content=\"x\">";
    let out = text(rewriter.rewrite_meta_tags(chars(input)));
    assert_eq!(out, "<meta property=\"og:title\" content=\"T\">");
}

#[test]
fn meta_pass_leaves_reordered_attributes_alone() {
    // textual matching: a tag with the attributes in the other order is
    // not recognized, and stays as it is
    let mut cfg = tenant();
    cfg.page_title = Some("T".to_string());
    let rewriter = HtmlRewriter::new(cfg);
    let input = "<meta content=\"x\" property=\"og:title\">";
    let out = text(rewriter.rewrite_meta_tags(chars(input)));
    assert_eq!(out, input);
}

#[test]
fn meta_pass_stable_on_reapplication() {
    let mut cfg = tenant();
    cfg.page_description = Some("Great".to_string());
    let rewriter = HtmlRewriter::new(cfg);
    let input = "<head><meta name=\"description\" content=\"y\"><meta property=\"og:url\" content=\"u\"></head>";
    let once = text(rewriter.rewrite_meta_tags(chars(input)));
    let twice = text(rewriter.rewrite_meta_tags(chars(&once)));
    assert_eq!(once, twice);
}

#[test]
fn head_injection_adds_font_and_style() {
    let mut cfg = tenant();
    cfg.google_font = Some("Open Sans".to_string());
    let rewriter = HtmlRewriter::new(cfg);
    let out = text(rewriter.inject_head_content(chars("<head><meta charset=\"utf-8\"></head>")));
    assert!(out.starts_with("<head><meta charset=\"utf-8\">"));
    assert!(out.ends_with("</head>"));
    assert!(out.contains("https://fonts.googleapis.com/css?family=Open+Sans:Regular,Bold,Italic&display=swap"));
    assert!(out.contains("font-family: \"Open Sans\" !important;"));
    assert!(out.contains("div.notion-topbar,"));
    assert!(out.contains("display: none !important;"));
    assert!(out.contains(".toggle-mode { display: block !important; }"));
}

#[test]
fn head_injection_without_closing_tag_is_identity() {
    let rewriter = HtmlRewriter::new(tenant());
    let input = "<head><meta charset=\"utf-8\">";
    let out = text(rewriter.inject_head_content(chars(input)));
    assert_eq!(out, input);
}

#[test]
fn body_injection_serializes_mappings() {
    let mut cfg = tenant();
    cfg.custom_script = Some("<script>hello()</script>".to_string());
    let rewriter = HtmlRewriter::new(cfg);
    let out = text(rewriter.inject_body_scripts(chars("<body><p>x</p></body>")));
    assert!(out.starts_with("<body><p>x</p>"));
    assert!(out.ends_with("</body>"));
    assert!(out.contains(&format!("const SLUG_TO_PAGE = {{\"guide\":\"{GUIDE_PAGE}\"}};")));
    assert!(out.contains(&format!("const PAGE_TO_SLUG = {{\"{GUIDE_PAGE}\":\"guide\"}};")));
    assert!(out.contains("const slugs = [\"guide\"];"));
    assert!(out.contains(&format!("const pages = [\"{GUIDE_PAGE}\"];")));
    assert!(out.contains("arguments[1] = arguments[1].replace('docs.example.com', 'docs.example.com.notion.site');"));
    assert!(out.contains("</script><script>hello()</script></body>"));
}

#[test]
fn body_injection_escapes_json_strings() {
    let cfg = DomainConfig::new(
        "docs.example.com".to_string(),
        vec![("a\"b".to_string(), GUIDE_PAGE.to_string())],
    );
    let rewriter = HtmlRewriter::new(cfg);
    let out = text(rewriter.inject_body_scripts(chars("<body></body>")));
    assert!(out.contains(&format!("const SLUG_TO_PAGE = {{\"a\\\"b\":\"{GUIDE_PAGE}\"}};")));
}

#[test]
fn body_injection_without_closing_tag_is_identity() {
    let rewriter = HtmlRewriter::new(tenant());
    let input = "<body><p>x</p>";
    let out = text(rewriter.inject_body_scripts(chars(input)));
    assert_eq!(out, input);
}

#[test]
fn full_rewrite_applies_all_passes() {
    let mut cfg = tenant();
    cfg.page_title = Some("My Docs".to_string());
    let rewriter = HtmlRewriter::new(cfg);
    let input = "<html><head><title>Old</title></head><body><p>x</p></body></html>";
    let out = rewriter.rewrite_html(input);
    assert!(out.contains("<title>My Docs</title><title style=\"display:none\">Old</title>"));
    assert!(out.contains("div.notion-topbar,"));
    assert!(out.contains("const SLUG_TO_PAGE = "));
    assert!(out.contains("</script></body></html>"));
    assert_ne!(out, input);
}

#[test]
fn js_asset_rewrite_replaces_domains() {
    let config = Config::default();
    let cfg = tenant();
    let body = "a='www.notion.so'; b='notion.so'; c='faeton.notion.site'; d='keep.me';";
    let out = rewrite_js_body(body, &config.notion, &cfg);
    assert_eq!(
        out,
        "a='docs.example.com'; b='docs.example.com'; c='docs.example.com'; d='keep.me';"
    );
}

#[test]
fn forced_response_headers() {
    assert_eq!(
        notion_site_proxy::responses::js_response_headers(),
        vec![
            ("content-type".to_string(), "application/javascript".to_string()),
            ("Access-Control-Allow-Origin".to_string(), "*".to_string()),
        ]
    );
    assert_eq!(
        notion_site_proxy::responses::api_response_headers(),
        vec![
            ("Access-Control-Allow-Origin".to_string(), "*".to_string()),
            ("content-type".to_string(), "application/json".to_string()),
        ]
    );
}

#[test]
fn security_headers_are_stripped() {
    let headers = vec![
        ("content-type".to_string(), "text/html".to_string()),
        ("Content-Security-Policy".to_string(), "default-src 'self'".to_string()),
        ("x-content-security-policy".to_string(), "default-src 'self'".to_string()),
        ("cache-control".to_string(), "no-store".to_string()),
    ];
    let kept = strip_security_headers(&headers);
    assert_eq!(
        kept,
        vec![
            ("content-type".to_string(), "text/html".to_string()),
            ("cache-control".to_string(), "no-store".to_string()),
        ]
    );
}
