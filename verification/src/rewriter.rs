//! The content rewriter: metadata substitution, head injection and body
//! script injection, each an exact text transformation over the document.

use vstd::prelude::*;
use crate::config::{DomainConfig, DomainConfigModel, NotionConfig};
use crate::json::{json_arr_chars, json_arr_model, json_obj_chars, json_obj_model};
use crate::text::{CharClass, Pattern, PatternModel, chars_to_string, class_holds, contains_lit, content_attr,
    lemma_lit_replace_absent, lemma_replace_from_segment,
    is_pattern_ws, lemma_run_at_exact, match_len_at, meta_content_match_at, meta_open, push_all,
    replace_all, replace_all_model, replace_from, run_at, str_to_chars};

verus! {

/// `s` with every occurrence of the literal `pat` replaced by `rep`.
pub open spec fn lit_replaced(s: Seq<char>, pat: Seq<char>, rep: Seq<char>) -> Seq<char> {
    replace_all_model(PatternModel::Literal(pat), s, rep)
}

/// The canonical form a content substitution writes: the meta tag with the
/// given key and the new content value.
pub open spec fn meta_content_rep(key: Seq<char>, value: Seq<char>) -> Seq<char> {
    "<meta "@ + key + " content=\""@ + value + "\""@
}

/// `s` with the content of every meta tag carrying `key` replaced by
/// `value`, the whole tag head rewritten to its canonical form.
pub open spec fn meta_replaced(s: Seq<char>, key: Seq<char>, value: Seq<char>) -> Seq<char> {
    replace_all_model(PatternModel::MetaContent(key), s, meta_content_rep(key, value))
}

/// `s` with every meta tag carrying `key` removed.
pub open spec fn tag_removed(s: Seq<char>, key: Seq<char>) -> Seq<char> {
    replace_all_model(PatternModel::MetaTag(key), s, Seq::<char>::empty())
}

/// Appends the characters of `s` to `out`.
fn append_lit(out: &mut Vec<char>, s: &str)
    ensures
        final(out)@ == old(out)@ + s@,
{
    let c = str_to_chars(s);
    push_all(out, c.as_slice());
}

/// Copies a character slice into a vector.
fn chars_vec(s: &[char]) -> (r: Vec<char>)
    ensures
        r@ == s@,
{
    let mut r: Vec<char> = Vec::new();
    push_all(&mut r, s);
    proof {
        assert(Seq::<char>::empty() + s@ =~= s@);
    }
    r
}

/// Replaces every occurrence of the literal `pat` in `text` with `rep`.
pub fn replace_literal_chars(text: &[char], pat: &[char], rep: &[char]) -> (out: Vec<char>)
    ensures
        out@ == lit_replaced(text@, pat@, rep@),
{
    let p = Pattern::Literal(chars_vec(pat));
    replace_all(&p, text, rep)
}

/// Replaces every occurrence of the literal `pat` in `text` with `rep`.
fn replace_literal(text: &[char], pat: &str, rep: &[char]) -> (out: Vec<char>)
    ensures
        out@ == lit_replaced(text@, pat@, rep@),
{
    let p = Pattern::Literal(str_to_chars(pat));
    replace_all(&p, text, rep)
}

/// Rewrites the content of every meta tag carrying `key` to `value`.
fn replace_meta_content(text: &[char], key: &str, value: &[char]) -> (out: Vec<char>)
    ensures
        out@ == meta_replaced(text@, key@, value@),
{
    let keyc = str_to_chars(key);
    let mut rep: Vec<char> = Vec::new();
    append_lit(&mut rep, "<meta ");
    push_all(&mut rep, keyc.as_slice());
    append_lit(&mut rep, " content=\"");
    push_all(&mut rep, value);
    append_lit(&mut rep, "\"");
    proof {
        assert(rep@ =~= meta_content_rep(key@, value@));
    }
    let p = Pattern::MetaContent(keyc);
    replace_all(&p, text, rep.as_slice())
}

/// Removes every meta tag carrying `key`.
fn remove_meta_tag(text: &[char], key: &str) -> (out: Vec<char>)
    ensures
        out@ == tag_removed(text@, key@),
{
    let p = Pattern::MetaTag(str_to_chars(key));
    let rep: Vec<char> = Vec::new();
    replace_all(&p, text, rep.as_slice())
}

/// The duplicate-title insertion: the configured title followed by the
/// original title element, visually suppressed.
pub open spec fn title_rep(title: Seq<char>) -> Seq<char> {
    "<title>"@ + title + "</title><title style=\"display:none\">"@
}

/// The title substitutions: the title element, then the open-graph and
/// twitter title tags.
pub open spec fn title_applied(s: Seq<char>, title: Seq<char>) -> Seq<char> {
    meta_replaced(
        meta_replaced(
            lit_replaced(s, "<title>"@, title_rep(title)),
            "property=\"og:title\""@,
            title,
        ),
        "name=\"twitter:title\""@,
        title,
    )
}

/// The description substitutions: the plain, open-graph and twitter
/// description tags, each independently.
pub open spec fn desc_applied(s: Seq<char>, desc: Seq<char>) -> Seq<char> {
    meta_replaced(
        meta_replaced(
            meta_replaced(s, "name=\"description\""@, desc),
            "property=\"og:description\""@,
            desc,
        ),
        "name=\"twitter:description\""@,
        desc,
    )
}

/// The metadata pass: title and description substitutions where
/// configured, the URL tags rewritten to the tenant domain
/// unconditionally, and the app-banner tag removed.
pub open spec fn meta_pass_model(cfg: DomainConfigModel, s: Seq<char>) -> Seq<char> {
    let s1 = match cfg.page_title {
        Some(t) => title_applied(s, t),
        None => s,
    };
    let s2 = match cfg.page_description {
        Some(d) => desc_applied(s1, d),
        None => s1,
    };
    let s3 = meta_replaced(
        meta_replaced(s2, "property=\"og:url\""@, cfg.my_domain),
        "name=\"twitter:url\""@,
        cfg.my_domain,
    );
    tag_removed(s3, "name=\"apple-itunes-app\""@)
}

/// The font name as it appears in the font-service URL: spaces become `+`.
pub open spec fn plus_spaces(f: Seq<char>) -> Seq<char> {
    f.map(|i: int, c: char| if c == ' ' { '+' } else { c })
}

/// The stylesheet link and global style for a configured font family.
pub open spec fn font_head_model(f: Seq<char>) -> Seq<char> {
    "<link href=\"https://fonts.googleapis.com/css?family="@ + plus_spaces(f) + ":Regular,Bold,Italic&display=swap\" rel=\"stylesheet\">\n<style>* { font-family: \""@ + f + "\" !important; }</style>"@
}

/// The style block hiding the upstream top navigation while keeping the
/// theme toggle visible.
pub open spec fn topbar_style() -> Seq<char> {
    "\n<style>\ndiv.notion-topbar,\ndiv.notion-topbar-mobile { display: none !important; }\ndiv.notion-topbar > div > div:nth-child(1n).toggle-mode,\ndiv.notion-topbar-mobile > div:nth-child(1n).toggle-mode { display: block !important; }\n</style>\n"@
}

/// Everything the head pass accumulates: the optional font content and
/// the navigation style block.
pub open spec fn head_content_model(cfg: DomainConfigModel) -> Seq<char> {
    (match cfg.google_font {
        Some(f) => font_head_model(f),
        None => Seq::<char>::empty(),
    }) + topbar_style()
}

/// The head pass: the accumulated content is inserted immediately before
/// the closing head tag; a document without one is returned unmodified.
pub open spec fn head_pass_model(cfg: DomainConfigModel, s: Seq<char>) -> Seq<char> {
    lit_replaced(s, "</head>"@, head_content_model(cfg) + "</head>"@)
}

/// The tenant domain with the upstream suffix removed: the bare name used
/// by the in-page network interception.
pub open spec fn domain_brand(domain: Seq<char>) -> Seq<char> {
    lit_replaced(domain, ".notion.site"@, Seq::<char>::empty())
}

/// The injected body script: the serialized mappings, the client
/// synchronization routine, and the tenant's custom script verbatim.
pub open spec fn body_script_model(cfg: DomainConfigModel) -> Seq<char> {
    "\n<script>\nwindow.CONFIG = window.CONFIG || {};\nwindow.CONFIG.domainBaseUrl = location.origin;\nconst SLUG_TO_PAGE = "@ + json_obj_model(cfg.slug_to_page) + ";\nconst PAGE_TO_SLUG = "@ + json_obj_model(cfg.page_to_slug)
        + ";\nconst slugs = "@ + json_arr_model(cfg.slugs) + ";\nconst pages = "@ + json_arr_model(cfg.pages)
        + ";\nconst el = document.createElement('div');\nlet redirected = false;\nfunction getPage() { return location.pathname.slice(-32); }\nfunction getSlug() { return location.pathname.slice(1); }\nfunction updateSlug() {\n  const slug = PAGE_TO_SLUG[getPage()];\n  if (slug != null) history.replaceState(history.state, '', '/' + slug);\n}\n"@
        + "function onDark() {\n  el.innerHTML = '<div title=\"Change to Light Mode\" style=\"margin: auto 14px 0 0; min-width: 0;\"><div role=\"button\" tabindex=\"0\" style=\"user-select: none; transition: background 120ms ease-in; cursor: pointer; border-radius: 44px;\"><div style=\"display: flex; height: 14px; width: 26px; border-radius: 44px; padding: 2px; background: rgb(46, 170, 220); transition: background 200ms ease, box-shadow 200ms ease;\"><div style=\"width: 14px; height: 14px; border-radius: 44px; background: white; transition: transform 200ms ease-out, background 200ms ease-out; transform: translateX(12px);\"></div></div></div></div>';\n  document.body.classList.add('dark');\n  if (window.__console && window.__console.environment && window.__console.environment.ThemeStore) {\n    window.__console.environment.ThemeStore.setState({ mode: 'dark' });\n  }\n}\n"@
        + "function onLight() {\n  el.innerHTML = '<div title=\"Change to Dark Mode\" style=\"margin: auto 14px 0 0; min-width: 0;\"><div role=\"button\" tabindex=\"0\" style=\"user-select: none; transition: background 120ms ease-in; cursor: pointer; border-radius: 44px;\"><div style=\"display: flex; height: 14px; width: 26px; border-radius: 44px; padding: 2px; background: rgba(135, 131, 120, 0.3); transition: background 200ms ease, box-shadow 200ms ease;\"><div style=\"width: 14px; height: 14px; border-radius: 44px; background: white; transition: transform 200ms ease-out, background 200ms ease-out; transform: translateX(0);\"></div></div></div></div>';\n  document.body.classList.remove('dark');\n  if (window.__console && window.__console.environment && window.__console.environment.ThemeStore) {\n    window.__console.environment.ThemeStore.setState({ mode: 'light' });\n  }\n}\n"@
        + "function toggle() {\n  document.body.classList.contains('dark') ? onLight() : onDark();\n}\nfunction addDarkModeButton(device) {\n  const nav = device === 'web' ? document.querySelector('.notion-topbar').firstChild : document.querySelector('.notion-topbar-mobile');\n  el.className = 'toggle-mode';\n  el.addEventListener('click', toggle);\n  nav.appendChild(el);\n  if (window.matchMedia && window.matchMedia('(prefers-color-scheme: dark)').matches) {\n    onDark();\n  } else {\n    onLight();\n  }\n  window.matchMedia('(prefers-color-scheme: dark)').addEventListener('change', toggle);\n}\n"@
        + "const observer = new MutationObserver(function() {\n  if (redirected) return;\n  const nav = document.querySelector('.notion-topbar');\n  const mobileNav = document.querySelector('.notion-topbar-mobile');\n  if ((nav && nav.firstChild && nav.firstChild.firstChild) || (mobileNav && mobileNav.firstChild)) {\n    redirected = true;\n    updateSlug();\n    addDarkModeButton(nav ? 'web' : 'mobile');\n    const onpopstate = window.onpopstate;\n    window.onpopstate = function() {\n      if (slugs.includes(getSlug())) {\n        const page = SLUG_TO_PAGE[getSlug()];\n        if (page) history.replaceState(history.state, 'bypass', '/' + page);\n      }\n      onpopstate.apply(this, arguments);\n      updateSlug();\n    };\n  }\n});\nobserver.observe(document.querySelector('#notion-app'), { childList: true, subtree: true });\n"@
        + "const originalReplaceState = window.history.replaceState;\nwindow.history.replaceState = function(state) {\n  if (arguments[1] !== 'bypass' && slugs.includes(getSlug())) return;\n  return originalReplaceState.apply(window.history, arguments);\n};\nconst originalPushState = window.history.pushState;\nwindow.history.pushState = function(state) {\n  const dest = new URL(location.protocol + '//' + location.host + arguments[2]);\n  const id = dest.pathname.slice(-32);\n  if (pages.includes(id)) arguments[2] = '/' + PAGE_TO_SLUG[id];\n  return originalPushState.apply(window.history, arguments);\n};\n"@
        + "const open = window.XMLHttpRequest.prototype.open;\nwindow.XMLHttpRequest.prototype.open = function() {\n  arguments[1] = arguments[1].replace('"@ + cfg.my_domain + "', '"@ + domain_brand(cfg.my_domain) + ".notion.site');\n  return open.apply(this, arguments);\n};\n</script>"@ + (
    match cfg.custom_script {
        Some(c) => c,
        None => Seq::<char>::empty(),
    })
}

/// The body pass: the script content is inserted immediately before the
/// closing body tag; a document without one is returned unmodified.
pub open spec fn body_pass_model(cfg: DomainConfigModel, s: Seq<char>) -> Seq<char> {
    lit_replaced(s, "</body>"@, body_script_model(cfg) + "</body>"@)
}

/// The whole rewrite: the metadata pass, then the head pass, then the
/// body pass.
pub open spec fn rewrite_model(cfg: DomainConfigModel, s: Seq<char>) -> Seq<char> {
    body_pass_model(cfg, head_pass_model(cfg, meta_pass_model(cfg, s)))
}

/// Computes `plus_spaces(text@)`.
fn plus_spaces_chars(text: &[char]) -> (out: Vec<char>)
    ensures
        out@ == plus_spaces(text@),
{
    let n = text.len();
    let mut out: Vec<char> = Vec::new();
    let mut i: usize = 0;
    while i < n
        invariant
            n == text@.len(),
            0 <= i <= n,
            out@ == plus_spaces(text@.subrange(0, i as int)),
        decreases n - i,
    {
        let c = text[i];
        if c == ' ' {
            out.push('+');
        } else {
            out.push(c);
        }
        proof {
            assert(out@ =~= plus_spaces(text@.subrange(0, i + 1)));
        }
        i = i + 1;
    }
    proof {
        assert(text@.subrange(0, n as int) =~= text@);
    }
    out
}

/// Converts string pairs to character-vector pairs with the same contents.
fn pairs_to_chars(v: &Vec<(String, String)>) -> (r: Vec<(Vec<char>, Vec<char>)>)
    ensures
        r.deep_view() == v.deep_view(),
{
    let mut r: Vec<(Vec<char>, Vec<char>)> = Vec::new();
    let n = v.len();
    let mut i: usize = 0;
    while i < n
        invariant
            n == v@.len(),
            0 <= i <= n,
            r@.len() == i,
            forall|k: int| 0 <= k < i ==> r.deep_view()[k] == v.deep_view()[k],
        decreases n - i,
    {
        let a = str_to_chars(v[i].0.as_str());
        let b = str_to_chars(v[i].1.as_str());
        proof {
            assert(v.deep_view()[i as int] == (v@[i as int].0@, v@[i as int].1@));
        }
        r.push((a, b));
        i = i + 1;
    }
    proof {
        assert(r.deep_view() =~~= v.deep_view());
    }
    r
}

/// Converts strings to character vectors with the same contents.
fn strings_to_chars(v: &Vec<String>) -> (r: Vec<Vec<char>>)
    ensures
        r.deep_view() == v.deep_view(),
{
    let mut r: Vec<Vec<char>> = Vec::new();
    let n = v.len();
    let mut i: usize = 0;
    while i < n
        invariant
            n == v@.len(),
            0 <= i <= n,
            r@.len() == i,
            forall|k: int| 0 <= k < i ==> r.deep_view()[k] == v.deep_view()[k],
        decreases n - i,
    {
        let a = str_to_chars(v[i].as_str());
        r.push(a);
        i = i + 1;
    }
    proof {
        assert(r.deep_view() =~~= v.deep_view());
    }
    r
}

/// Rewrites HTML documents for one tenant.
pub struct HtmlRewriter {
    pub config: DomainConfig,
}

impl HtmlRewriter {
    /// A rewriter for the given tenant.
    pub fn new(config: DomainConfig) -> (r: Self)
        ensures
            r.config == config,
    {
        HtmlRewriter { config }
    }

    /// The metadata pass over one document.
    pub fn rewrite_meta_tags(&self, html: Vec<char>) -> (out: Vec<char>)
        ensures
            out@ == meta_pass_model(self.config@, html@),
    {
        let s1: Vec<char> = match &self.config.page_title {
            Some(title) => {
                let t = str_to_chars(title.as_str());
                let mut rep: Vec<char> = Vec::new();
                append_lit(&mut rep, "<title>");
                push_all(&mut rep, t.as_slice());
                append_lit(&mut rep, "</title><title style=\"display:none\">");
                proof {
                    assert(rep@ =~= title_rep(title@));
                }
                let c1 = replace_literal(html.as_slice(), "<title>", rep.as_slice());
                let c2 = replace_meta_content(
                    c1.as_slice(),
                    "property=\"og:title\"",
                    t.as_slice(),
                );
                replace_meta_content(c2.as_slice(), "name=\"twitter:title\"", t.as_slice())
            },
            None => html,
        };
        let s2: Vec<char> = match &self.config.page_description {
            Some(desc) => {
                let d = str_to_chars(desc.as_str());
                let c1 = replace_meta_content(s1.as_slice(), "name=\"description\"", d.as_slice());
                let c2 = replace_meta_content(
                    c1.as_slice(),
                    "property=\"og:description\"",
                    d.as_slice(),
                );
                replace_meta_content(c2.as_slice(), "name=\"twitter:description\"", d.as_slice())
            },
            None => s1,
        };
        let dom = str_to_chars(self.config.my_domain.as_str());
        let s3 = replace_meta_content(s2.as_slice(), "property=\"og:url\"", dom.as_slice());
        let s4 = replace_meta_content(s3.as_slice(), "name=\"twitter:url\"", dom.as_slice());
        remove_meta_tag(s4.as_slice(), "name=\"apple-itunes-app\"")
    }

    /// The head injection pass over one document.
    pub fn inject_head_content(&self, html: Vec<char>) -> (out: Vec<char>)
        ensures
            out@ == head_pass_model(self.config@, html@),
    {
        let mut content: Vec<char> = Vec::new();
        if let Some(font) = &self.config.google_font {
            let f = str_to_chars(font.as_str());
            let plussed = plus_spaces_chars(f.as_slice());
            append_lit(&mut content, "<link href=\"https://fonts.googleapis.com/css?family=");
            push_all(&mut content, plussed.as_slice());
            append_lit(&mut content, ":Regular,Bold,Italic&display=swap\" rel=\"stylesheet\">\n<style>* { font-family: \"");
            push_all(&mut content, f.as_slice());
            append_lit(&mut content, "\" !important; }</style>");
        }
        append_lit(&mut content, "\n<style>\ndiv.notion-topbar,\ndiv.notion-topbar-mobile { display: none !important; }\ndiv.notion-topbar > div > div:nth-child(1n).toggle-mode,\ndiv.notion-topbar-mobile > div:nth-child(1n).toggle-mode { display: block !important; }\n</style>\n");
        proof {
            assert(content@ =~= head_content_model(self.config@));
        }
        append_lit(&mut content, "</head>");
        replace_literal(html.as_slice(), "</head>", content.as_slice())
    }

    /// The body injection pass over one document.
    pub fn inject_body_scripts(&self, html: Vec<char>) -> (out: Vec<char>)
        ensures
            out@ == body_pass_model(self.config@, html@),
    {
        let mut s: Vec<char> = Vec::new();
        append_lit(&mut s, "\n<script>\nwindow.CONFIG = window.CONFIG || {};\nwindow.CONFIG.domainBaseUrl = location.origin;\nconst SLUG_TO_PAGE = ");
        let stp = pairs_to_chars(&self.config.slug_to_page);
        let stp_json = json_obj_chars(&stp);
        push_all(&mut s, stp_json.as_slice());
        append_lit(&mut s, ";\nconst PAGE_TO_SLUG = ");
        let pts = pairs_to_chars(&self.config.page_to_slug);
        let pts_json = json_obj_chars(&pts);
        push_all(&mut s, pts_json.as_slice());
        append_lit(&mut s, ";\nconst slugs = ");
        let sl = strings_to_chars(&self.config.slugs);
        let sl_json = json_arr_chars(&sl);
        push_all(&mut s, sl_json.as_slice());
        append_lit(&mut s, ";\nconst pages = ");
        let pg = strings_to_chars(&self.config.pages);
        let pg_json = json_arr_chars(&pg);
        push_all(&mut s, pg_json.as_slice());
        append_lit(&mut s, ";\nconst el = document.createElement('div');\nlet redirected = false;\nfunction getPage() { return location.pathname.slice(-32); }\nfunction getSlug() { return location.pathname.slice(1); }\nfunction updateSlug() {\n  const slug = PAGE_TO_SLUG[getPage()];\n  if (slug != null) history.replaceState(history.state, '', '/' + slug);\n}\n");
        append_lit(&mut s, "function onDark() {\n  el.innerHTML = '<div title=\"Change to Light Mode\" style=\"margin: auto 14px 0 0; min-width: 0;\"><div role=\"button\" tabindex=\"0\" style=\"user-select: none; transition: background 120ms ease-in; cursor: pointer; border-radius: 44px;\"><div style=\"display: flex; height: 14px; width: 26px; border-radius: 44px; padding: 2px; background: rgb(46, 170, 220); transition: background 200ms ease, box-shadow 200ms ease;\"><div style=\"width: 14px; height: 14px; border-radius: 44px; background: white; transition: transform 200ms ease-out, background 200ms ease-out; transform: translateX(12px);\"></div></div></div></div>';\n  document.body.classList.add('dark');\n  if (window.__console && window.__console.environment && window.__console.environment.ThemeStore) {\n    window.__console.environment.ThemeStore.setState({ mode: 'dark' });\n  }\n}\n");
        append_lit(&mut s, "function onLight() {\n  el.innerHTML = '<div title=\"Change to Dark Mode\" style=\"margin: auto 14px 0 0; min-width: 0;\"><div role=\"button\" tabindex=\"0\" style=\"user-select: none; transition: background 120ms ease-in; cursor: pointer; border-radius: 44px;\"><div style=\"display: flex; height: 14px; width: 26px; border-radius: 44px; padding: 2px; background: rgba(135, 131, 120, 0.3); transition: background 200ms ease, box-shadow 200ms ease;\"><div style=\"width: 14px; height: 14px; border-radius: 44px; background: white; transition: transform 200ms ease-out, background 200ms ease-out; transform: translateX(0);\"></div></div></div></div>';\n  document.body.classList.remove('dark');\n  if (window.__console && window.__console.environment && window.__console.environment.ThemeStore) {\n    window.__console.environment.ThemeStore.setState({ mode: 'light' });\n  }\n}\n");
        append_lit(&mut s, "function toggle() {\n  document.body.classList.contains('dark') ? onLight() : onDark();\n}\nfunction addDarkModeButton(device) {\n  const nav = device === 'web' ? document.querySelector('.notion-topbar').firstChild : document.querySelector('.notion-topbar-mobile');\n  el.className = 'toggle-mode';\n  el.addEventListener('click', toggle);\n  nav.appendChild(el);\n  if (window.matchMedia && window.matchMedia('(prefers-color-scheme: dark)').matches) {\n    onDark();\n  } else {\n    onLight();\n  }\n  window.matchMedia('(prefers-color-scheme: dark)').addEventListener('change', toggle);\n}\n");
        append_lit(&mut s, "const observer = new MutationObserver(function() {\n  if (redirected) return;\n  const nav = document.querySelector('.notion-topbar');\n  const mobileNav = document.querySelector('.notion-topbar-mobile');\n  if ((nav && nav.firstChild && nav.firstChild.firstChild) || (mobileNav && mobileNav.firstChild)) {\n    redirected = true;\n    updateSlug();\n    addDarkModeButton(nav ? 'web' : 'mobile');\n    const onpopstate = window.onpopstate;\n    window.onpopstate = function() {\n      if (slugs.includes(getSlug())) {\n        const page = SLUG_TO_PAGE[getSlug()];\n        if (page) history.replaceState(history.state, 'bypass', '/' + page);\n      }\n      onpopstate.apply(this, arguments);\n      updateSlug();\n    };\n  }\n});\nobserver.observe(document.querySelector('#notion-app'), { childList: true, subtree: true });\n");
        append_lit(&mut s, "const originalReplaceState = window.history.replaceState;\nwindow.history.replaceState = function(state) {\n  if (arguments[1] !== 'bypass' && slugs.includes(getSlug())) return;\n  return originalReplaceState.apply(window.history, arguments);\n};\nconst originalPushState = window.history.pushState;\nwindow.history.pushState = function(state) {\n  const dest = new URL(location.protocol + '//' + location.host + arguments[2]);\n  const id = dest.pathname.slice(-32);\n  if (pages.includes(id)) arguments[2] = '/' + PAGE_TO_SLUG[id];\n  return originalPushState.apply(window.history, arguments);\n};\n");
        append_lit(&mut s, "const open = window.XMLHttpRequest.prototype.open;\nwindow.XMLHttpRequest.prototype.open = function() {\n  arguments[1] = arguments[1].replace('");
        let dom = str_to_chars(self.config.my_domain.as_str());
        push_all(&mut s, dom.as_slice());
        append_lit(&mut s, "', '");
        let none: Vec<char> = Vec::new();
        let brand = replace_literal(dom.as_slice(), ".notion.site", none.as_slice());
        push_all(&mut s, brand.as_slice());
        append_lit(&mut s, ".notion.site');\n  return open.apply(this, arguments);\n};\n</script>");
        if let Some(cs) = &self.config.custom_script {
            let csc = str_to_chars(cs.as_str());
            push_all(&mut s, csc.as_slice());
        }
        proof {
            assert(s@ =~= body_script_model(self.config@));
        }
        append_lit(&mut s, "</body>");
        replace_literal(html.as_slice(), "</body>", s.as_slice())
    }

    /// Rewrites one HTML document: the metadata pass, then the head pass,
    /// then the body pass.
    pub fn rewrite_html(&self, html: &str) -> (r: String)
        ensures
            r@ == rewrite_model(self.config@, html@),
    {
        let chars = str_to_chars(html);
        let m = self.rewrite_meta_tags(chars);
        let h = self.inject_head_content(m);
        let b = self.inject_body_scripts(h);
        chars_to_string(b.as_slice())
    }
}

/// A document without a closing head tag is returned unmodified by the
/// head pass.
pub proof fn lemma_head_pass_identity(cfg: DomainConfigModel, s: Seq<char>)
    requires
        !contains_lit(s, "</head>"@),
    ensures
        head_pass_model(cfg, s) == s,
{
    lemma_lit_replace_absent(s, "</head>"@, head_content_model(cfg) + "</head>"@);
}

/// A document without a closing body tag is returned unmodified by the
/// body pass.
pub proof fn lemma_body_pass_identity(cfg: DomainConfigModel, s: Seq<char>)
    requires
        !contains_lit(s, "</body>"@),
    ensures
        body_pass_model(cfg, s) == s,
{
    lemma_lit_replace_absent(s, "</body>"@, body_script_model(cfg) + "</body>"@);
}

/// Where the canonical tag stands, the pattern matches it exactly: the
/// match starts at its first character and spans precisely the tag.
proof fn lemma_canonical_match_at(s: Seq<char>, i: int, key: Seq<char>, value: Seq<char>)
    requires
        key.len() >= 1,
        !is_pattern_ws(key[0]),
        forall|k: int| 0 <= k < value.len() ==> value[k] != '"',
        0 <= i,
        i + meta_content_rep(key, value).len() <= s.len(),
        s.subrange(i, i + meta_content_rep(key, value).len()) == meta_content_rep(key, value),
    ensures
        meta_content_match_at(key, s, i) == Some(meta_content_rep(key, value).len() as int),
{
    let rep = meta_content_rep(key, value);
    reveal_strlit("<meta ");
    reveal_strlit(" content=\"");
    reveal_strlit("\"");
    let klen = key.len() as int;
    let vlen = value.len() as int;
    assert("<meta "@.len() == 6);
    assert(" content=\""@.len() == 10);
    assert("\""@.len() == 1);
    assert(rep.len() == 17 + klen + vlen);
    let rlen = rep.len() as int;

    assert(s.subrange(i, i + rlen)[5] == s[i + 5]);
    assert(rep[5] == ' ');
    assert(s.subrange(i, i + rlen)[6] == s[i + 6]);
    assert(rep[6] == key[0]);
    assert(s.subrange(i, i + rlen)[6 + klen] == s[i + 6 + klen]);
    assert(rep[6 + klen] == ' ');
    assert(s.subrange(i, i + rlen)[7 + klen] == s[i + 7 + klen]);
    assert(rep[7 + klen] == 'c');
    assert(s.subrange(i, i + rlen)[16 + klen + vlen] == s[i + 16 + klen + vlen]);
    assert(rep[16 + klen + vlen] == '"');

    assert(s.subrange(i, i + 5) =~= meta_open()) by {
        assert forall|t: int| 0 <= t < 5 implies s.subrange(i, i + 5)[t] == meta_open()[t] by {
            assert(s.subrange(i, i + 5)[t] == s[i + t]);
            assert(s.subrange(i, i + rlen)[t] == s[i + t]);
        }
    }
    lemma_run_at_exact(s, i + 5, i + 6, CharClass::PatternWs);
    assert(run_at(s, i + 5, CharClass::PatternWs) == 1);

    assert(s.subrange(i + 6, i + 6 + klen) =~= key) by {
        assert forall|t: int| 0 <= t < klen implies s.subrange(i + 6, i + 6 + klen)[t] == key[t] by {
            assert(s.subrange(i + 6, i + 6 + klen)[t] == s[i + 6 + t]);
            assert(s.subrange(i, i + rlen)[6 + t] == s[i + 6 + t]);
            assert(rep[6 + t] == key[t]);
        }
    }

    lemma_run_at_exact(s, i + 6 + klen, i + 7 + klen, CharClass::PatternWs);
    assert(run_at(s, i + 6 + klen, CharClass::PatternWs) == 1);

    assert(s.subrange(i + 7 + klen, i + 16 + klen) =~= content_attr()) by {
        assert forall|t: int| 0 <= t < 9 implies s.subrange(i + 7 + klen, i + 16 + klen)[t]
            == content_attr()[t] by {
            assert(s.subrange(i + 7 + klen, i + 16 + klen)[t] == s[i + 7 + klen + t]);
            assert(s.subrange(i, i + rlen)[7 + klen + t] == s[i + 7 + klen + t]);
            assert(rep[7 + klen + t] == " content=\""@[1 + t]);
        }
    }

    assert forall|k: int| i + 16 + klen <= k < i + 16 + klen + vlen implies class_holds(
        CharClass::NotQuote,
        #[trigger] s[k],
    ) by {
        assert(s.subrange(i, i + rlen)[k - i] == s[k]);
        assert(rep[k - i] == value[k - i - 16 - klen]);
    }
    lemma_run_at_exact(s, i + 16 + klen, i + 16 + klen + vlen, CharClass::NotQuote);
    assert(run_at(s, i + 16 + klen, CharClass::NotQuote) == vlen);
}

/// The content substitution is idempotent on every document whose only
/// markup is a tag already in canonical form: around such a tag, text
/// free of `<` is never matched, so a second application changes
/// nothing. This is the sense in which the title and description
/// substitutions are stable under re-application.
#[verifier::rlimit(50)]
pub proof fn lemma_meta_substitution_idempotent(
    before: Seq<char>,
    after: Seq<char>,
    key: Seq<char>,
    value: Seq<char>,
)
    requires
        key.len() >= 1,
        !is_pattern_ws(key[0]),
        forall|i: int| 0 <= i < value.len() ==> value[i] != '"',
        forall|i: int| 0 <= i < before.len() ==> before[i] != '<',
        forall|i: int| 0 <= i < after.len() ==> after[i] != '<',
    ensures
        meta_replaced(before + meta_content_rep(key, value) + after, key, value) == before
            + meta_content_rep(key, value) + after,
{
    let rep = meta_content_rep(key, value);
    let s = before + rep + after;
    let p = PatternModel::MetaContent(key);
    let alen = before.len() as int;
    let rlen = rep.len() as int;
    let n = s.len() as int;
    assert(rlen >= 1 && rep[0] == '<') by {
        reveal_strlit("<meta ");
        assert("<meta "@.len() == 6);
        assert("<meta "@[0] == '<');
    }

    // no match can start inside the surrounding text: a match starts at `<`
    assert forall|k: int| 0 <= k < alen implies #[trigger] match_len_at(p, s, k) is None by {
        if meta_content_match_at(key, s, k) is Some {
            assert(s.subrange(k, k + 5)[0] == s[k]);
            assert(s[k] == before[k]);
        }
    }
    assert forall|k: int| alen + rlen <= k < n implies #[trigger] match_len_at(p, s, k) is None by {
        if meta_content_match_at(key, s, k) is Some {
            assert(s.subrange(k, k + 5)[0] == s[k]);
            assert(s[k] == after[k - alen - rlen]);
        }
    }

    // the canonical tag matches exactly where it stands
    assert(s.subrange(alen, alen + rlen) =~= rep);
    lemma_canonical_match_at(s, alen, key, value);
    assert(match_len_at(p, s, alen) == Some(rlen));

    // assemble: copy `before`, replace the tag with itself, copy `after`
    lemma_replace_from_segment(p, s, rep, 0, alen);
    assert(replace_from(p, s, rep, alen) == rep + replace_from(p, s, rep, alen + rlen));
    lemma_replace_from_segment(p, s, rep, alen + rlen, n);
    assert(replace_from(p, s, rep, n) == Seq::<char>::empty());
    assert(s.subrange(0, alen) =~= before);
    assert(s.subrange(alen + rlen, n) =~= after);
    assert(before + (rep + (after + Seq::<char>::empty())) =~= before + rep + after);
}

/// A script-asset body with every reference to the upstream's public
/// domain, bare brand name, and account domain replaced by the tenant
/// domain, in that order.
pub open spec fn js_body_model(body: Seq<char>, username: Seq<char>, domain: Seq<char>)
    -> Seq<char> {
    lit_replaced(
        lit_replaced(lit_replaced(body, "www.notion.so"@, domain), "notion.so"@, domain),
        username + ".notion.site"@,
        domain,
    )
}

/// Rewrites a fetched script asset for the tenant.
pub fn rewrite_js_body(body: &str, notion: &NotionConfig, config: &DomainConfig) -> (r: String)
    ensures
        r@ == js_body_model(body@, notion.username@, config@.my_domain),
{
    let b = str_to_chars(body);
    let dom = str_to_chars(config.my_domain.as_str());
    let c1 = replace_literal(b.as_slice(), "www.notion.so", dom.as_slice());
    let c2 = replace_literal(c1.as_slice(), "notion.so", dom.as_slice());
    let mut account = str_to_chars(notion.username.as_str());
    append_lit(&mut account, ".notion.site");
    let c3 = replace_literal_chars(c2.as_slice(), account.as_slice(), dom.as_slice());
    chars_to_string(c3.as_slice())
}

} // verus!
