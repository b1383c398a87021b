//! Locally synthesized responses and the forwarding policies: CORS
//! preflight, robots.txt, the sitemap, redirects, upstream URL building,
//! and header filtering for forwarded requests and responses.

use vstd::prelude::*;
use vstd::string::{StrSliceExecFns, StringExecFns};
use crate::config::{DomainConfig, NotionConfig, PairSeq};
use crate::text::{ascii_lower_chars, ascii_lower_seq, chars_eq_str, contains_chars, contains_lit,
    str_to_chars};

verus! {

/// A response built locally: status, headers in order, and a text body.
pub struct SyntheticResponse {
    pub status: u16,
    pub headers: Vec<(String, String)>,
    pub body: String,
}

/// The response to a CORS preflight: 200, permissive CORS headers, and an
/// empty body; no upstream call is involved.
pub fn handle_cors_preflight() -> (r: SyntheticResponse)
    ensures
        r.status == 200u16,
        r.headers.deep_view() =~~= seq![
            ("Access-Control-Allow-Origin"@, "*"@),
            ("Access-Control-Allow-Methods"@, "GET, HEAD, POST, PUT, OPTIONS"@),
            ("Access-Control-Allow-Headers"@, "Content-Type"@),
        ],
        r.body@ == ""@,
{
    let mut headers: Vec<(String, String)> = Vec::new();
    headers.push(
        (String::from_str("Access-Control-Allow-Origin"), String::from_str("*")),
    );
    headers.push(
        (
            String::from_str("Access-Control-Allow-Methods"),
            String::from_str("GET, HEAD, POST, PUT, OPTIONS"),
        ),
    );
    headers.push(
        (String::from_str("Access-Control-Allow-Headers"), String::from_str("Content-Type")),
    );
    SyntheticResponse { status: 200, headers, body: String::from_str("") }
}

/// The robots.txt body: a single sitemap line for the tenant's domain.
pub open spec fn robots_body_model(domain: Seq<char>) -> Seq<char> {
    "Sitemap: https://"@ + domain + "/sitemap.xml"@
}

/// The synthesized robots.txt response: 200, plain text, and the sitemap
/// line pointing at the tenant's domain.
pub fn generate_robots_txt(config: &DomainConfig) -> (r: SyntheticResponse)
    ensures
        r.status == 200u16,
        r.headers.deep_view() =~~= seq![("content-type"@, "text/plain"@)],
        r.body@ == robots_body_model(config@.my_domain),
{
    let mut body = String::new();
    body.append("Sitemap: https://");
    body.append(config.my_domain.as_str());
    body.append("/sitemap.xml");
    let mut headers: Vec<(String, String)> = Vec::new();
    headers.push((String::from_str("content-type"), String::from_str("text/plain")));
    SyntheticResponse { status: 200, headers, body }
}

/// One sitemap entry: the location of one slug under the tenant's domain.
pub open spec fn sitemap_entry_model(domain: Seq<char>, slug: Seq<char>) -> Seq<char> {
    "<url><loc>https://"@ + domain + "/"@ + slug + "</loc></url>"@
}

/// The concatenated sitemap entries for `slugs`, in order.
pub open spec fn sitemap_urls_model(domain: Seq<char>, slugs: Seq<Seq<char>>) -> Seq<char>
    decreases slugs.len(),
{
    if slugs.len() == 0 {
        Seq::<char>::empty()
    } else {
        sitemap_entry_model(domain, slugs[0]) + sitemap_urls_model(domain, slugs.drop_first())
    }
}

/// The whole sitemap document for a tenant.
pub open spec fn sitemap_body_model(domain: Seq<char>, slugs: Seq<Seq<char>>) -> Seq<char> {
    "<?xml version=\"1.0\" encoding=\"UTF-8\"?>\n<urlset xmlns=\"http://www.sitemaps.org/schemas/sitemap/0.9\">"@
        + sitemap_urls_model(domain, slugs) + "</urlset>"@
}

/// Appending one slug appends one entry at the end of the generated urls.
proof fn lemma_sitemap_urls_snoc(domain: Seq<char>, slugs: Seq<Seq<char>>, slug: Seq<char>)
    ensures
        sitemap_urls_model(domain, slugs.push(slug)) == sitemap_urls_model(domain, slugs)
            + sitemap_entry_model(domain, slug),
    decreases slugs.len(),
{
    if slugs.len() == 0 {
        let pushed = slugs.push(slug);
        assert(pushed.drop_first() =~= Seq::<Seq<char>>::empty());
        assert(pushed[0] == slug);
        assert(sitemap_urls_model(domain, Seq::<Seq<char>>::empty()) == Seq::<char>::empty());
        assert(sitemap_urls_model(domain, pushed) == sitemap_entry_model(domain, slug)
            + sitemap_urls_model(domain, pushed.drop_first()));
        assert(sitemap_entry_model(domain, slug) + Seq::<char>::empty() =~= sitemap_entry_model(
            domain,
            slug,
        ));
        assert(sitemap_urls_model(domain, slugs) + sitemap_entry_model(domain, slug)
            =~= sitemap_entry_model(domain, slug));
    } else {
        lemma_sitemap_urls_snoc(domain, slugs.drop_first(), slug);
        assert(slugs.push(slug).drop_first() =~= slugs.drop_first().push(slug));
        assert(slugs.push(slug)[0] == slugs[0]);
        assert(sitemap_entry_model(domain, slugs[0]) + (sitemap_urls_model(
            domain,
            slugs.drop_first(),
        ) + sitemap_entry_model(domain, slug)) =~= (sitemap_entry_model(domain, slugs[0])
            + sitemap_urls_model(domain, slugs.drop_first())) + sitemap_entry_model(domain, slug));
    }
}

/// The synthesized sitemap response: 200, XML, one entry per slug in the
/// order the slugs are listed.
pub fn generate_sitemap(config: &DomainConfig) -> (r: SyntheticResponse)
    ensures
        r.status == 200u16,
        r.headers.deep_view() =~~= seq![("content-type"@, "application/xml"@)],
        r.body@ == sitemap_body_model(config@.my_domain, config@.slugs),
{
    let mut body = String::new();
    body.append(
        "<?xml version=\"1.0\" encoding=\"UTF-8\"?>\n<urlset xmlns=\"http://www.sitemaps.org/schemas/sitemap/0.9\">",
    );
    let ghost domain = config@.my_domain;
    let ghost slugs = config@.slugs;
    let ghost header =
        "<?xml version=\"1.0\" encoding=\"UTF-8\"?>\n<urlset xmlns=\"http://www.sitemaps.org/schemas/sitemap/0.9\">"@;
    proof {
        assert(slugs.subrange(0, 0) =~= Seq::<Seq<char>>::empty());
    }
    let n = config.slugs.len();
    let mut i: usize = 0;
    while i < n
        invariant
            n == config.slugs@.len(),
            slugs == config@.slugs,
            domain == config@.my_domain,
            slugs.len() == n,
            0 <= i <= n,
            body@ == header + sitemap_urls_model(domain, slugs.subrange(0, i as int)),
        decreases n - i,
    {
        body.append("<url><loc>https://");
        body.append(config.my_domain.as_str());
        body.append("/");
        body.append(config.slugs[i].as_str());
        body.append("</loc></url>");
        proof {
            lemma_sitemap_urls_snoc(domain, slugs.subrange(0, i as int), slugs[i as int]);
            assert(slugs.subrange(0, i as int).push(slugs[i as int]) =~= slugs.subrange(
                0,
                i + 1,
            ));
            assert(body@ =~= header + sitemap_urls_model(domain, slugs.subrange(0, i + 1)));
        }
        i = i + 1;
    }
    proof {
        assert(slugs.subrange(0, n as int) =~= slugs);
    }
    body.append("</urlset>");
    proof {
        assert(body@ =~= sitemap_body_model(domain, slugs));
    }
    let mut headers: Vec<(String, String)> = Vec::new();
    headers.push((String::from_str("content-type"), String::from_str("application/xml")));
    SyntheticResponse { status: 200, headers, body }
}

/// A permanent redirect to `location`: 301, one location header, no body.
pub fn redirect_response(location: &str) -> (r: SyntheticResponse)
    ensures
        r.status == 301u16,
        r.headers.deep_view() =~~= seq![("location"@, location@)],
        r.body@ == ""@,
{
    let mut headers: Vec<(String, String)> = Vec::new();
    headers.push((String::from_str("location"), String::from_str(location)));
    SyntheticResponse { status: 301, headers, body: String::from_str("") }
}

/// Where a configured slug redirects: the page id under the tenant domain.
pub open spec fn slug_redirect_location_model(domain: Seq<char>, page_id: Seq<char>) -> Seq<char> {
    "https://"@ + domain + "/"@ + page_id
}

/// Builds the redirect target for a configured slug.
pub fn slug_redirect_location(config: &DomainConfig, page_id: &str) -> (r: String)
    ensures
        r@ == slug_redirect_location_model(config@.my_domain, page_id@),
{
    let mut out = String::new();
    out.append("https://");
    out.append(config.my_domain.as_str());
    out.append("/");
    out.append(page_id);
    out
}

/// Where an unknown page id redirects: the bare tenant root.
pub open spec fn root_redirect_location_model(domain: Seq<char>) -> Seq<char> {
    "https://"@ + domain
}

/// Builds the redirect target for an unknown page id.
pub fn root_redirect_location(config: &DomainConfig) -> (r: String)
    ensures
        r@ == root_redirect_location_model(config@.my_domain),
{
    let mut out = String::new();
    out.append("https://");
    out.append(config.my_domain.as_str());
    out
}

/// The upstream URL for a request: account and upstream host, with the
/// path and any query string preserved unchanged.
pub open spec fn upstream_url_model(username: Seq<char>, path: Seq<char>, query: Seq<char>)
    -> Seq<char> {
    "https://"@ + username + ".notion.site"@ + path + (if query.len() == 0 {
        Seq::<char>::empty()
    } else {
        "?"@ + query
    })
}

/// Builds the upstream URL for a request.
pub fn build_upstream_url(notion: &NotionConfig, path: &str, query: &str) -> (r: String)
    ensures
        r@ == upstream_url_model(notion.username@, path@, query@),
{
    let mut out = String::new();
    out.append("https://");
    out.append(notion.username.as_str());
    out.append(".notion.site");
    out.append(path);
    if query.unicode_len() != 0 {
        out.append("?");
        out.append(query);
    }
    proof {
        if query@.len() == 0 {
            assert(out@ =~= upstream_url_model(notion.username@, path@, query@));
        } else {
            assert(out@ =~= upstream_url_model(notion.username@, path@, query@));
        }
    }
    out
}

/// True when the forwarded API request carries the client body: every
/// endpoint but the read-only public-page-data one.
pub open spec fn api_body_forwarded(url: Seq<char>) -> bool {
    !contains_lit(url, "/api/v3/getPublicPageData"@)
}

/// Decides whether the client body is forwarded for the given upstream URL.
pub fn api_includes_body(url: &str) -> (r: bool)
    ensures
        r == api_body_forwarded(url@),
{
    let u = str_to_chars(url);
    let pat = str_to_chars("/api/v3/getPublicPageData");
    !contains_chars(u.as_slice(), pat.as_slice())
}

/// The headers forced onto a forwarded API request: JSON content type and
/// the configured upstream user agent, overriding client values.
pub fn api_request_headers(notion: &NotionConfig) -> (r: Vec<(String, String)>)
    ensures
        r.deep_view() =~~= seq![
            ("content-type"@, "application/json;charset=UTF-8"@),
            ("user-agent"@, notion.user_agent@),
        ],
{
    let mut headers: Vec<(String, String)> = Vec::new();
    headers.push(
        (String::from_str("content-type"), String::from_str("application/json;charset=UTF-8")),
    );
    headers.push((String::from_str("user-agent"), notion.user_agent.clone()));
    headers
}

/// The headers forced onto an API response: permissive CORS and JSON.
pub fn api_response_headers() -> (r: Vec<(String, String)>)
    ensures
        r.deep_view() =~~= seq![
            ("Access-Control-Allow-Origin"@, "*"@),
            ("content-type"@, "application/json"@),
        ],
{
    let mut headers: Vec<(String, String)> = Vec::new();
    headers.push((String::from_str("Access-Control-Allow-Origin"), String::from_str("*")));
    headers.push((String::from_str("content-type"), String::from_str("application/json")));
    headers
}

/// The headers set on a rewritten script-asset response.
pub fn js_response_headers() -> (r: Vec<(String, String)>)
    ensures
        r.deep_view() =~~= seq![
            ("content-type"@, "application/javascript"@),
            ("Access-Control-Allow-Origin"@, "*"@),
        ],
{
    let mut headers: Vec<(String, String)> = Vec::new();
    headers.push((String::from_str("content-type"), String::from_str("application/javascript")));
    headers.push((String::from_str("Access-Control-Allow-Origin"), String::from_str("*")));
    headers
}

/// True when a client header is dropped before forwarding: `host` and
/// `content-length` would conflict with the new target.
pub open spec fn request_header_dropped(name: Seq<char>) -> bool {
    ascii_lower_seq(name) == "host"@ || ascii_lower_seq(name) == "content-length"@
}

/// True when a response header blocks script injection and is stripped:
/// the content security policy and its legacy alias.
pub open spec fn security_header_dropped(name: Seq<char>) -> bool {
    ascii_lower_seq(name) == "content-security-policy"@ || ascii_lower_seq(name)
        == "x-content-security-policy"@
}

/// The pairs of `h` whose names `keep` accepts, in order.
pub open spec fn kept_pairs(h: PairSeq, keep: spec_fn(Seq<char>) -> bool) -> PairSeq
    decreases h.len(),
{
    if h.len() == 0 {
        Seq::<(Seq<char>, Seq<char>)>::empty()
    } else {
        (if keep(h[0].0) {
            seq![h[0]]
        } else {
            Seq::<(Seq<char>, Seq<char>)>::empty()
        }) + kept_pairs(h.drop_first(), keep)
    }
}

/// Appending a pair appends it to the kept pairs exactly when its name is
/// accepted.
proof fn lemma_kept_pairs_snoc(h: PairSeq, keep: spec_fn(Seq<char>) -> bool, p: (Seq<char>, Seq<char>))
    ensures
        keep(p.0) ==> kept_pairs(h.push(p), keep) == kept_pairs(h, keep) + seq![p],
        !keep(p.0) ==> kept_pairs(h.push(p), keep) == kept_pairs(h, keep),
    decreases h.len(),
{
    if h.len() == 0 {
        let pushed = h.push(p);
        assert(pushed.drop_first() =~= Seq::<(Seq<char>, Seq<char>)>::empty());
        assert(pushed[0] == p);
        assert(kept_pairs(Seq::<(Seq<char>, Seq<char>)>::empty(), keep) == Seq::<(
            Seq<char>,
            Seq<char>,
        )>::empty());
        if keep(p.0) {
            assert(kept_pairs(pushed, keep) == seq![p] + kept_pairs(pushed.drop_first(), keep));
            assert(seq![p] + Seq::<(Seq<char>, Seq<char>)>::empty() =~= seq![p]);
            assert(kept_pairs(h, keep) + seq![p] =~= seq![p]);
        } else {
            assert(kept_pairs(pushed, keep) == Seq::<(Seq<char>, Seq<char>)>::empty()
                + kept_pairs(pushed.drop_first(), keep));
            assert(Seq::<(Seq<char>, Seq<char>)>::empty() + Seq::<(
                Seq<char>,
                Seq<char>,
            )>::empty() =~= kept_pairs(h, keep));
        }
    } else {
        lemma_kept_pairs_snoc(h.drop_first(), keep, p);
        assert(h.push(p).drop_first() =~= h.drop_first().push(p));
        assert(h.push(p)[0] == h[0]);
        if keep(p.0) {
            assert((if keep(h[0].0) {
                seq![h[0]]
            } else {
                Seq::<(Seq<char>, Seq<char>)>::empty()
            }) + (kept_pairs(h.drop_first(), keep) + seq![p]) =~= ((if keep(h[0].0) {
                seq![h[0]]
            } else {
                Seq::<(Seq<char>, Seq<char>)>::empty()
            }) + kept_pairs(h.drop_first(), keep)) + seq![p]);
        }
    }
}

/// Keeps the client headers that are forwarded upstream: everything but
/// `host` and `content-length`, compared case-insensitively.
pub fn filter_request_headers(headers: &Vec<(String, String)>) -> (r: Vec<(String, String)>)
    ensures
        r.deep_view() == kept_pairs(
            headers.deep_view(),
            |n: Seq<char>| !request_header_dropped(n),
        ),
{
    let ghost keep = |n: Seq<char>| !request_header_dropped(n);
    let mut r: Vec<(String, String)> = Vec::new();
    let n = headers.len();
    let mut i: usize = 0;
    while i < n
        invariant
            n == headers@.len(),
            0 <= i <= n,
            r.deep_view() == kept_pairs(headers.deep_view().subrange(0, i as int), keep),
            keep == (|n: Seq<char>| !request_header_dropped(n)),
        decreases n - i,
    {
        let name_chars = str_to_chars(headers[i].0.as_str());
        let lowered = ascii_lower_chars(name_chars.as_slice());
        let dropped = chars_eq_str(lowered.as_slice(), "host") || chars_eq_str(
            lowered.as_slice(),
            "content-length",
        );
        proof {
            assert(headers.deep_view()[i as int] == (headers@[i as int].0@, headers@[
                i as int].1@));
            lemma_kept_pairs_snoc(
                headers.deep_view().subrange(0, i as int),
                keep,
                headers.deep_view()[i as int],
            );
            assert(headers.deep_view().subrange(0, i as int).push(headers.deep_view()[i as int])
                =~= headers.deep_view().subrange(0, i + 1));
        }
        if !dropped {
            r.push((headers[i].0.clone(), headers[i].1.clone()));
            proof {
                assert(r.deep_view() =~~= kept_pairs(
                    headers.deep_view().subrange(0, i + 1),
                    keep,
                ));
            }
        }
        i = i + 1;
    }
    proof {
        assert(headers.deep_view().subrange(0, n as int) =~= headers.deep_view());
    }
    r
}

/// Keeps the upstream response headers that are passed back to the client:
/// everything but the security headers that would block script injection.
pub fn strip_security_headers(headers: &Vec<(String, String)>) -> (r: Vec<(String, String)>)
    ensures
        r.deep_view() == kept_pairs(
            headers.deep_view(),
            |n: Seq<char>| !security_header_dropped(n),
        ),
{
    let ghost keep = |n: Seq<char>| !security_header_dropped(n);
    let mut r: Vec<(String, String)> = Vec::new();
    let n = headers.len();
    let mut i: usize = 0;
    while i < n
        invariant
            n == headers@.len(),
            0 <= i <= n,
            r.deep_view() == kept_pairs(headers.deep_view().subrange(0, i as int), keep),
            keep == (|n: Seq<char>| !security_header_dropped(n)),
        decreases n - i,
    {
        let name_chars = str_to_chars(headers[i].0.as_str());
        let lowered = ascii_lower_chars(name_chars.as_slice());
        let dropped = chars_eq_str(lowered.as_slice(), "content-security-policy") || chars_eq_str(
            lowered.as_slice(),
            "x-content-security-policy",
        );
        proof {
            assert(headers.deep_view()[i as int] == (headers@[i as int].0@, headers@[
                i as int].1@));
            lemma_kept_pairs_snoc(
                headers.deep_view().subrange(0, i as int),
                keep,
                headers.deep_view()[i as int],
            );
            assert(headers.deep_view().subrange(0, i as int).push(headers.deep_view()[i as int])
                =~= headers.deep_view().subrange(0, i + 1));
        }
        if !dropped {
            r.push((headers[i].0.clone(), headers[i].1.clone()));
            proof {
                assert(r.deep_view() =~~= kept_pairs(
                    headers.deep_view().subrange(0, i + 1),
                    keep,
                ));
            }
        }
        i = i + 1;
    }
    proof {
        assert(headers.deep_view().subrange(0, n as int) =~= headers.deep_view());
    }
    r
}

} // verus!
