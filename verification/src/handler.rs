//! The per-request plan: classification plus everything that can be
//! decided and synthesized before any upstream call is made.

use vstd::prelude::*;
use crate::config::{DomainConfig, NotionConfig};
use crate::responses::{
    SyntheticResponse, api_body_forwarded, api_includes_body, api_request_headers,
    build_upstream_url, generate_robots_txt, generate_sitemap, handle_cors_preflight, kept_pairs,
    redirect_response, request_header_dropped, robots_body_model, root_redirect_location,
    root_redirect_location_model, sitemap_body_model, slug_redirect_location,
    slug_redirect_location_model, upstream_url_model, filter_request_headers,
};
use crate::router::{HandlingStrategy, StrategyModel, route, route_model};

verus! {

/// What the proxy does with one classified request: answer it locally, or
/// forward it with the stated policy and post-process the result.
pub enum RequestPlan {
    /// Answer locally with this response; no upstream call.
    Respond(SyntheticResponse),
    /// Fetch the script asset at `url` and rewrite its body.
    FetchJs { url: String },
    /// Forward the API call to `url` with the forced headers, with the
    /// client body only when `include_body` holds.
    FetchApi { url: String, include_body: bool, headers: Vec<(String, String)> },
    /// Forward to `url` with the filtered client headers, then rewrite the
    /// returned HTML.
    FetchHtml { url: String, headers: Vec<(String, String)> },
}

impl DomainConfig {
    /// Builds the plan for one request. Local answers carry exactly the
    /// synthesized responses; forwarded requests carry the upstream URL
    /// (path and query preserved) and the per-strategy header and body
    /// policies. Which arm is taken is exactly the classification.
    pub fn plan_request(
        &self,
        notion: &NotionConfig,
        method: &str,
        path: &str,
        query: &str,
        request_headers: &Vec<(String, String)>,
    ) -> (r: RequestPlan)
        ensures
            method@ == "OPTIONS"@ ==> r is Respond,
            (route_model(method@, path@, self@) is CorsPreflight ==> (r matches
                RequestPlan::Respond(resp) && resp.status == 200 && resp.body@ == ""@)),
            (route_model(method@, path@, self@) is RobotsTxt ==> (r matches RequestPlan::Respond(
                resp,
            ) && resp.status == 200 && resp.body@ == robots_body_model(self@.my_domain))),
            (route_model(method@, path@, self@) is Sitemap ==> (r matches RequestPlan::Respond(
                resp,
            ) && resp.status == 200 && resp.body@ == sitemap_body_model(
                self@.my_domain,
                self@.slugs,
            ))),
            (route_model(method@, path@, self@) matches StrategyModel::SlugRedirect(page) ==> (r
                matches RequestPlan::Respond(resp) && resp.status == 301
                && resp.headers.deep_view() == seq![
                ("location"@, slug_redirect_location_model(self@.my_domain, page)),
            ] && resp.body@ == ""@)),
            (route_model(method@, path@, self@) is UnknownPageRedirect ==> (r matches
                RequestPlan::Respond(resp) && resp.status == 301 && resp.headers.deep_view()
                == seq![("location"@, root_redirect_location_model(self@.my_domain))]
                && resp.body@ == ""@)),
            (route_model(method@, path@, self@) is JsAsset ==> (r matches RequestPlan::FetchJs {
                url } && url@ == upstream_url_model(notion.username@, path@, query@))),
            (route_model(method@, path@, self@) is ApiCall ==> (r matches RequestPlan::FetchApi {
                url, include_body, headers } && url@ == upstream_url_model(
                notion.username@,
                path@,
                query@,
            ) && include_body == api_body_forwarded(url@) && headers.deep_view() == seq![
                ("content-type"@, "application/json;charset=UTF-8"@),
                ("user-agent"@, notion.user_agent@),
            ])),
            (route_model(method@, path@, self@) is HtmlPassthrough ==> (r matches
                RequestPlan::FetchHtml { url, headers } && url@ == upstream_url_model(
                notion.username@,
                path@,
                query@,
            ) && headers.deep_view() == kept_pairs(
                request_headers.deep_view(),
                |n: Seq<char>| !request_header_dropped(n),
            ))),
    {
        let strategy = route(method, path, self);
        match strategy {
            HandlingStrategy::CorsPreflight => RequestPlan::Respond(handle_cors_preflight()),
            HandlingStrategy::RobotsTxt => RequestPlan::Respond(generate_robots_txt(self)),
            HandlingStrategy::Sitemap => RequestPlan::Respond(generate_sitemap(self)),
            HandlingStrategy::SlugRedirect(page) => {
                let loc = slug_redirect_location(self, page.as_str());
                RequestPlan::Respond(redirect_response(loc.as_str()))
            },
            HandlingStrategy::UnknownPageRedirect => {
                let loc = root_redirect_location(self);
                RequestPlan::Respond(redirect_response(loc.as_str()))
            },
            HandlingStrategy::JsAsset => RequestPlan::FetchJs {
                url: build_upstream_url(notion, path, query),
            },
            HandlingStrategy::ApiCall => {
                let url = build_upstream_url(notion, path, query);
                let include_body = api_includes_body(url.as_str());
                RequestPlan::FetchApi { url, include_body, headers: api_request_headers(notion) }
            },
            HandlingStrategy::HtmlPassthrough => RequestPlan::FetchHtml {
                url: build_upstream_url(notion, path, query),
                headers: filter_request_headers(request_headers),
            },
        }
    }
}

} // verus!
