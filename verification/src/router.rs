//! Request classification: every inbound request is mapped to exactly one
//! handling strategy, as a pure function of method, path and tenant mapping.

use vstd::prelude::*;
use crate::config::{DomainConfig, DomainConfigModel, assoc_get};
use crate::text::{
    is_hex_lower,
    ends_with_lit, ends_with_chars, is_page_id, is_page_id_chars, chars_eq_str, starts_with_lit,
    starts_with_chars, str_to_chars,
};

verus! {

/// The strategy chosen for one request.
#[derive(Debug, PartialEq, Eq)]
pub enum HandlingStrategy {
    /// Answer the CORS preflight locally.
    CorsPreflight,
    /// Serve the synthesized robots.txt.
    RobotsTxt,
    /// Serve the synthesized sitemap.
    Sitemap,
    /// Forward and rewrite a script asset.
    JsAsset,
    /// Forward an API call.
    ApiCall,
    /// Redirect a configured slug to its page id.
    SlugRedirect(String),
    /// Redirect an unknown page id to the tenant root.
    UnknownPageRedirect,
    /// Forward, rewrite and return HTML content.
    HtmlPassthrough,
}

/// The mathematical form of a `HandlingStrategy`.
pub enum StrategyModel {
    CorsPreflight,
    RobotsTxt,
    Sitemap,
    JsAsset,
    ApiCall,
    SlugRedirect(Seq<char>),
    UnknownPageRedirect,
    HtmlPassthrough,
}

impl View for HandlingStrategy {
    type V = StrategyModel;

    open spec fn view(&self) -> StrategyModel {
        match self {
            HandlingStrategy::CorsPreflight => StrategyModel::CorsPreflight,
            HandlingStrategy::RobotsTxt => StrategyModel::RobotsTxt,
            HandlingStrategy::Sitemap => StrategyModel::Sitemap,
            HandlingStrategy::JsAsset => StrategyModel::JsAsset,
            HandlingStrategy::ApiCall => StrategyModel::ApiCall,
            HandlingStrategy::SlugRedirect(p) => StrategyModel::SlugRedirect(p@),
            HandlingStrategy::UnknownPageRedirect => StrategyModel::UnknownPageRedirect,
            HandlingStrategy::HtmlPassthrough => StrategyModel::HtmlPassthrough,
        }
    }
}

/// True when the strategy forwards the request to the upstream host.
pub open spec fn forwards_upstream(s: StrategyModel) -> bool {
    s is JsAsset || s is ApiCall || s is HtmlPassthrough
}

/// The request path with its one leading `/` removed; empty when the path
/// does not start with `/`.
pub open spec fn route_candidate(path: Seq<char>) -> Seq<char> {
    if path.len() >= 1 && path[0] == '/' {
        path.skip(1)
    } else {
        Seq::<char>::empty()
    }
}

/// The classification decision tree, first match wins: CORS preflight,
/// synthetic robots/sitemap, script assets, API calls, configured slugs,
/// unknown page ids, and HTML passthrough for everything else.
pub open spec fn route_model(method: Seq<char>, path: Seq<char>, cfg: DomainConfigModel)
    -> StrategyModel {
    if method == "OPTIONS"@ {
        StrategyModel::CorsPreflight
    } else if path == "/robots.txt"@ {
        StrategyModel::RobotsTxt
    } else if path == "/sitemap.xml"@ {
        StrategyModel::Sitemap
    } else if starts_with_lit(path, "/app"@) && ends_with_lit(path, ".js"@) {
        StrategyModel::JsAsset
    } else if starts_with_lit(path, "/api"@) {
        StrategyModel::ApiCall
    } else {
        let candidate = route_candidate(path);
        match assoc_get(cfg.slug_to_page, candidate) {
            Some(page) => StrategyModel::SlugRedirect(page),
            None => {
                if is_page_id(candidate) && !cfg.pages.contains(candidate) {
                    StrategyModel::UnknownPageRedirect
                } else {
                    StrategyModel::HtmlPassthrough
                }
            },
        }
    }
}

/// Classifies one request. The result is exactly `route_model` of the
/// method, the path and the tenant's mapping: classification is total and
/// depends on nothing else.
pub fn route(method: &str, path: &str, config: &DomainConfig) -> (r: HandlingStrategy)
    ensures
        r@ == route_model(method@, path@, config@),
{
    let m = str_to_chars(method);
    if chars_eq_str(m.as_slice(), "OPTIONS") {
        return HandlingStrategy::CorsPreflight;
    }
    let p = str_to_chars(path);
    let ps = p.as_slice();
    if chars_eq_str(ps, "/robots.txt") {
        return HandlingStrategy::RobotsTxt;
    }
    if chars_eq_str(ps, "/sitemap.xml") {
        return HandlingStrategy::Sitemap;
    }
    let app_prefix = str_to_chars("/app");
    let js_suffix = str_to_chars(".js");
    if starts_with_chars(ps, app_prefix.as_slice()) && ends_with_chars(ps, js_suffix.as_slice()) {
        return HandlingStrategy::JsAsset;
    }
    let api_prefix = str_to_chars("/api");
    if starts_with_chars(ps, api_prefix.as_slice()) {
        return HandlingStrategy::ApiCall;
    }
    let candidate: &[char] = if p.len() >= 1 && ps[0] == '/' {
        &ps[1..ps.len()]
    } else {
        &ps[0..0]
    };
    proof {
        assert(candidate@ =~= route_candidate(path@));
    }
    if let Some(page) = config.slug_lookup(candidate) {
        return HandlingStrategy::SlugRedirect(page.clone());
    }
    if is_page_id_chars(candidate) && !config.pages_contain(candidate) {
        return HandlingStrategy::UnknownPageRedirect;
    }
    HandlingStrategy::HtmlPassthrough
}

/// Classification is deterministic: equal inputs yield equal strategies.
pub proof fn lemma_route_deterministic(
    m1: Seq<char>,
    p1: Seq<char>,
    c1: DomainConfigModel,
    m2: Seq<char>,
    p2: Seq<char>,
    c2: DomainConfigModel,
)
    requires
        m1 == m2,
        p1 == p2,
        c1 == c2,
    ensures
        route_model(m1, p1, c1) == route_model(m2, p2, c2),
{
}

/// An OPTIONS request is always answered locally with the CORS preflight:
/// it is never forwarded to the upstream host.
pub proof fn lemma_options_never_forwarded(
    method: Seq<char>,
    path: Seq<char>,
    cfg: DomainConfigModel,
)
    requires
        method == "OPTIONS"@,
    ensures
        route_model(method, path, cfg) == StrategyModel::CorsPreflight,
        !forwards_upstream(route_model(method, path, cfg)),
{
}

/// A request path whose candidate is a configured slug is never classified
/// as an unknown page id, even when the slug itself has the shape of one.
pub proof fn lemma_slug_never_unknown(method: Seq<char>, path: Seq<char>, cfg: DomainConfigModel)
    requires
        assoc_get(cfg.slug_to_page, route_candidate(path)) is Some,
    ensures
        route_model(method, path, cfg) != StrategyModel::UnknownPageRedirect,
{
}

/// A request whose candidate has the shape of a page id but is neither a
/// configured slug nor a known page is redirected to the tenant root; a
/// candidate that is a known page never takes that redirect.
pub proof fn lemma_unknown_page_redirect(method: Seq<char>, path: Seq<char>, cfg: DomainConfigModel)
    requires
        method != "OPTIONS"@,
        is_page_id(route_candidate(path)),
        !cfg.pages.contains(route_candidate(path)),
        assoc_get(cfg.slug_to_page, route_candidate(path)) is None,
    ensures
        route_model(method, path, cfg) == StrategyModel::UnknownPageRedirect,
{
    let candidate = route_candidate(path);
    reveal_strlit("/robots.txt");
    reveal_strlit("/sitemap.xml");
    reveal_strlit("/app");
    reveal_strlit("/api");
    assert(candidate.len() == 32);
    if path == "/robots.txt"@ {
        assert(path.len() == 11);
        assert(candidate.len() <= 11);
        assert(false);
    }
    if path == "/sitemap.xml"@ {
        assert(path.len() == 12);
        assert(candidate.len() <= 12);
        assert(false);
    }
    if starts_with_lit(path, "/app"@) {
        assert(path.subrange(0, 4)[0] == path[0]);
        assert(path.subrange(0, 4)[2] == path[2]);
        assert(path[0] == '/' && path[2] == 'p');
        assert(candidate == path.skip(1));
        assert(candidate[1] == path[2]);
        assert(is_hex_lower(candidate[1]));
        assert(false);
    }
    if starts_with_lit(path, "/api"@) {
        assert(path.subrange(0, 4)[0] == path[0]);
        assert(path.subrange(0, 4)[2] == path[2]);
        assert(path[0] == '/' && path[2] == 'p');
        assert(candidate == path.skip(1));
        assert(candidate[1] == path[2]);
        assert(is_hex_lower(candidate[1]));
        assert(false);
    }
}

/// A candidate that is one of the tenant's known page ids never triggers
/// the unknown-page redirect.
pub proof fn lemma_known_page_not_redirected(
    method: Seq<char>,
    path: Seq<char>,
    cfg: DomainConfigModel,
)
    requires
        cfg.pages.contains(route_candidate(path)),
    ensures
        route_model(method, path, cfg) != StrategyModel::UnknownPageRedirect,
{
}

} // verus!
