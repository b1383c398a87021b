//! Configuration data model: server, upstream and cache settings, and the
//! per-tenant `DomainConfig` with its slug/page mappings and derived fields.

use vstd::prelude::*;
use vstd::string::StringExecFns;
use crate::text::chars_eq_str;

verus! {

/// A slug-to-page association, as a sequence of (key, value) pairs.
pub type PairSeq = Seq<(Seq<char>, Seq<char>)>;

/// All keys of `m` are distinct.
pub open spec fn keys_unique(m: PairSeq) -> bool {
    forall|i: int, j: int| 0 <= i < j < m.len() ==> (#[trigger] m[i]).0 != (#[trigger] m[j]).0
}

/// All values of `m` are distinct.
pub open spec fn vals_unique(m: PairSeq) -> bool {
    forall|i: int, j: int| 0 <= i < j < m.len() ==> (#[trigger] m[i]).1 != (#[trigger] m[j]).1
}

/// The value bound to `k` by the first pair of `m` that carries it.
pub open spec fn assoc_get(m: PairSeq, k: Seq<char>) -> Option<Seq<char>>
    decreases m.len(),
{
    if m.len() == 0 {
        None
    } else if m[0].0 == k {
        Some(m[0].1)
    } else {
        assoc_get(m.drop_first(), k)
    }
}

/// The keys of `m`, in order.
pub open spec fn keys_of(m: PairSeq) -> Seq<Seq<char>> {
    m.map(|i: int, p: (Seq<char>, Seq<char>)| p.0)
}

/// The values of `m`, in order.
pub open spec fn vals_of(m: PairSeq) -> Seq<Seq<char>> {
    m.map(|i: int, p: (Seq<char>, Seq<char>)| p.1)
}

/// `m` with every pair flipped: the value-to-key mapping.
pub open spec fn invert(m: PairSeq) -> PairSeq {
    m.map(|i: int, p: (Seq<char>, Seq<char>)| (p.1, p.0))
}

/// Network binding and logging settings.
pub struct ServerConfig {
    pub host: String,
    pub port: u16,
    pub log_level: String,
}

/// Upstream account settings shared by all tenants.
pub struct NotionConfig {
    pub username: String,
    pub user_agent: String,
}

/// Bounds of the tenant-resolution cache.
#[derive(Clone, Copy)]
pub struct CacheConfig {
    pub max_capacity: u64,
    pub time_to_live_secs: u64,
}

/// One tenant: a custom domain, its slug/page mapping, optional branding,
/// and fields derived from the mapping.
pub struct DomainConfig {
    pub my_domain: String,
    pub slug_to_page: Vec<(String, String)>,
    pub page_title: Option<String>,
    pub page_description: Option<String>,
    pub google_font: Option<String>,
    pub custom_script: Option<String>,
    pub page_to_slug: Vec<(String, String)>,
    pub slugs: Vec<String>,
    pub pages: Vec<String>,
}

/// The mathematical form of a `DomainConfig`.
#[verifier::ext_equal]
pub struct DomainConfigModel {
    pub my_domain: Seq<char>,
    pub slug_to_page: PairSeq,
    pub page_title: Option<Seq<char>>,
    pub page_description: Option<Seq<char>>,
    pub google_font: Option<Seq<char>>,
    pub custom_script: Option<Seq<char>>,
    pub page_to_slug: PairSeq,
    pub slugs: Seq<Seq<char>>,
    pub pages: Seq<Seq<char>>,
}

impl View for DomainConfig {
    type V = DomainConfigModel;

    open spec fn view(&self) -> DomainConfigModel {
        DomainConfigModel {
            my_domain: self.my_domain@,
            slug_to_page: self.slug_to_page.deep_view(),
            page_title: self.page_title.deep_view(),
            page_description: self.page_description.deep_view(),
            google_font: self.google_font.deep_view(),
            custom_script: self.custom_script.deep_view(),
            page_to_slug: self.page_to_slug.deep_view(),
            slugs: self.slugs.deep_view(),
            pages: self.pages.deep_view(),
        }
    }
}

impl DomainConfigModel {
    /// The slug/page mapping is a bijection: keys and values each unique.
    pub open spec fn mapping_wf(self) -> bool {
        keys_unique(self.slug_to_page) && vals_unique(self.slug_to_page)
    }

    /// The derived fields mirror the slug/page mapping.
    pub open spec fn derived_ok(self) -> bool {
        &&& self.page_to_slug == invert(self.slug_to_page)
        &&& self.slugs == keys_of(self.slug_to_page)
        &&& self.pages == vals_of(self.slug_to_page)
    }
}

/// The whole configuration: a static tenant directory plus shared settings.
pub struct Config {
    pub server: ServerConfig,
    pub notion: NotionConfig,
    pub domains: Vec<(String, DomainConfig)>,
    pub cache: CacheConfig,
}

/// Copies a vector of string pairs, preserving its contents.
fn clone_string_pairs(v: &Vec<(String, String)>) -> (r: Vec<(String, String)>)
    ensures
        r.deep_view() == v.deep_view(),
{
    let mut r: Vec<(String, String)> = Vec::new();
    let mut i: usize = 0;
    while i < v.len()
        invariant
            0 <= i <= v@.len(),
            r@.len() == i,
            forall|k: int| 0 <= k < i ==> r.deep_view()[k] == v.deep_view()[k],
        decreases v@.len() - i,
    {
        let s0 = v[i].0.clone();
        let s1 = v[i].1.clone();
        proof {
            assert(v.deep_view()[i as int] == (v@[i as int].0@, v@[i as int].1@));
        }
        r.push((s0, s1));
        i = i + 1;
    }
    proof {
        assert(r.deep_view() =~~= v.deep_view());
    }
    r
}

/// Copies a vector of strings, preserving its contents.
fn clone_strings(v: &Vec<String>) -> (r: Vec<String>)
    ensures
        r.deep_view() == v.deep_view(),
{
    let mut r: Vec<String> = Vec::new();
    let mut i: usize = 0;
    while i < v.len()
        invariant
            0 <= i <= v@.len(),
            r@.len() == i,
            forall|k: int| 0 <= k < i ==> r.deep_view()[k] == v.deep_view()[k],
        decreases v@.len() - i,
    {
        r.push(v[i].clone());
        i = i + 1;
    }
    proof {
        assert(r.deep_view() =~~= v.deep_view());
    }
    r
}

/// Copies an optional string, preserving its contents.
fn clone_opt_string(v: &Option<String>) -> (r: Option<String>)
    ensures
        r.deep_view() == v.deep_view(),
{
    match v {
        Some(s) => Some(s.clone()),
        None => None,
    }
}

impl Clone for DomainConfig {
    /// The copy has the same model.
    fn clone(&self) -> (r: Self)
        ensures
            r@ == self@,
    {
        let r = DomainConfig {
            my_domain: self.my_domain.clone(),
            slug_to_page: clone_string_pairs(&self.slug_to_page),
            page_title: clone_opt_string(&self.page_title),
            page_description: clone_opt_string(&self.page_description),
            google_font: clone_opt_string(&self.google_font),
            custom_script: clone_opt_string(&self.custom_script),
            page_to_slug: clone_string_pairs(&self.page_to_slug),
            slugs: clone_strings(&self.slugs),
            pages: clone_strings(&self.pages),
        };
        proof {
            assert(r@ =~~= self@);
        }
        r
    }
}

impl DomainConfig {
    /// A tenant with the given domain and mapping, branding unset, and the
    /// derived fields already computed.
    pub fn new(my_domain: String, slug_to_page: Vec<(String, String)>) -> (r: Self)
        requires
            keys_unique(slug_to_page.deep_view()),
            vals_unique(slug_to_page.deep_view()),
        ensures
            r@.my_domain == my_domain@,
            r@.slug_to_page == slug_to_page.deep_view(),
            r@.page_title is None,
            r@.page_description is None,
            r@.google_font is None,
            r@.custom_script is None,
            r@.mapping_wf(),
            r@.derived_ok(),
    {
        let mut config = DomainConfig {
            my_domain,
            slug_to_page,
            page_title: None,
            page_description: None,
            google_font: None,
            custom_script: None,
            page_to_slug: Vec::new(),
            slugs: Vec::new(),
            pages: Vec::new(),
        };
        config.compute_derived_fields();
        config
    }

    /// Recomputes `page_to_slug`, `slugs` and `pages` from `slug_to_page`;
    /// every other field is unchanged.
    pub fn compute_derived_fields(&mut self)
        ensures
            final(self)@.my_domain == old(self)@.my_domain,
            final(self)@.slug_to_page == old(self)@.slug_to_page,
            final(self)@.page_title == old(self)@.page_title,
            final(self)@.page_description == old(self)@.page_description,
            final(self)@.google_font == old(self)@.google_font,
            final(self)@.custom_script == old(self)@.custom_script,
            final(self)@.derived_ok(),
    {
        self.page_to_slug.clear();
        self.slugs.clear();
        self.pages.clear();

        let ghost m = self.slug_to_page.deep_view();
        let mut i: usize = 0;
        while i < self.slug_to_page.len()
            invariant
                0 <= i <= m.len(),
                m == self.slug_to_page.deep_view(),
                m.len() == self.slug_to_page@.len(),
                self.page_to_slug@.len() == i,
                self.slugs@.len() == i,
                self.pages@.len() == i,
                forall|k: int|
                    0 <= k < i ==> self.page_to_slug.deep_view()[k] == (m[k].1, m[k].0),
                forall|k: int| 0 <= k < i ==> self.slugs.deep_view()[k] == m[k].0,
                forall|k: int| 0 <= k < i ==> self.pages.deep_view()[k] == m[k].1,
                self.my_domain == old(self).my_domain,
                self.slug_to_page == old(self).slug_to_page,
                self.page_title == old(self).page_title,
                self.page_description == old(self).page_description,
                self.google_font == old(self).google_font,
                self.custom_script == old(self).custom_script,
            decreases m.len() - i,
        {
            let slug = self.slug_to_page[i].0.clone();
            let page = self.slug_to_page[i].1.clone();
            proof {
                assert(m[i as int] == (self.slug_to_page@[i as int].0@, self.slug_to_page@[
                    i as int].1@));
            }
            let slug2 = slug.clone();
            let page2 = page.clone();
            let ghost slugs0 = self.slugs;
            let ghost pages0 = self.pages;
            let ghost pts0 = self.page_to_slug;
            self.slugs.push(slug2);
            self.pages.push(page2);
            self.page_to_slug.push((page, slug));
            proof {
                assert forall|k: int| 0 <= k < i + 1 implies self.slugs.deep_view()[k] == m[k].0 by {
                    if k < i {
                        assert(self.slugs@[k] == slugs0@[k]);
                        assert(slugs0.deep_view()[k] == m[k].0);
                    } else {
                        assert(self.slugs@[k] == slug2);
                    }
                }
                assert forall|k: int| 0 <= k < i + 1 implies self.pages.deep_view()[k] == m[k].1 by {
                    if k < i {
                        assert(self.pages@[k] == pages0@[k]);
                        assert(pages0.deep_view()[k] == m[k].1);
                    } else {
                        assert(self.pages@[k] == page2);
                    }
                }
                assert forall|k: int| 0 <= k < i + 1 implies self.page_to_slug.deep_view()[k] == (
                m[k].1, m[k].0) by {
                    if k < i {
                        assert(self.page_to_slug@[k] == pts0@[k]);
                        assert(pts0.deep_view()[k] == (m[k].1, m[k].0));
                    } else {
                        assert(self.page_to_slug@[k] == (page, slug));
                    }
                }
            }
            i = i + 1;
        }
        proof {
            assert(self.page_to_slug.deep_view() =~~= invert(m));
            assert(self.slugs.deep_view() =~~= keys_of(m));
            assert(self.pages.deep_view() =~~= vals_of(m));
        }
    }

    /// The page id that `candidate` is mapped to as a slug, if any.
    pub fn slug_lookup(&self, candidate: &[char]) -> (r: Option<&String>)
        ensures
            match r {
                Some(page) => assoc_get(self@.slug_to_page, candidate@) == Some(page@),
                None => assoc_get(self@.slug_to_page, candidate@) is None,
            },
    {
        let n = self.slug_to_page.len();
        proof {
            assert(self@.slug_to_page.skip(0) =~= self@.slug_to_page);
        }
        let mut i: usize = 0;
        while i < n
            invariant
                n == self.slug_to_page@.len(),
                0 <= i <= n,
                assoc_get(self@.slug_to_page, candidate@) == assoc_get(
                    self@.slug_to_page.skip(i as int),
                    candidate@,
                ),
            decreases n - i,
        {
            proof {
                assert(self@.slug_to_page.skip(i as int).drop_first() =~= self@.slug_to_page.skip(
                    i + 1,
                ));
            }
            if chars_eq_str(candidate, self.slug_to_page[i].0.as_str()) {
                return Some(&self.slug_to_page[i].1);
            }
            i = i + 1;
        }
        proof {
            assert(self@.slug_to_page.skip(n as int) =~= Seq::<(Seq<char>, Seq<char>)>::empty());
        }
        None
    }

    /// True when `candidate` is one of the tenant's known page ids.
    pub fn pages_contain(&self, candidate: &[char]) -> (r: bool)
        ensures
            r == self@.pages.contains(candidate@),
    {
        let n = self.pages.len();
        let mut i: usize = 0;
        while i < n
            invariant
                n == self.pages@.len(),
                0 <= i <= n,
                forall|k: int| 0 <= k < i ==> self@.pages[k] != candidate@,
            decreases n - i,
        {
            if chars_eq_str(candidate, self.pages[i].as_str()) {
                proof {
                    assert(self@.pages[i as int] == candidate@);
                }
                return true;
            }
            i = i + 1;
        }
        false
    }
}

/// True when the given mapping has unique keys and unique values, as the
/// tenant invariant requires; checks what `DomainConfig::new` assumes.
pub fn mapping_is_valid(slug_to_page: &Vec<(String, String)>) -> (r: bool)
    ensures
        r == (keys_unique(slug_to_page.deep_view()) && vals_unique(slug_to_page.deep_view())),
{
    let n = slug_to_page.len();
    let mut i: usize = 0;
    while i < n
        invariant
            n == slug_to_page@.len(),
            0 <= i <= n,
            forall|a: int, b: int|
                0 <= a < b < i ==> (#[trigger] slug_to_page.deep_view()[a]).0 != (
                #[trigger] slug_to_page.deep_view()[b]).0,
            forall|a: int, b: int|
                0 <= a < b < i ==> (#[trigger] slug_to_page.deep_view()[a]).1 != (
                #[trigger] slug_to_page.deep_view()[b]).1,
        decreases n - i,
    {
        let mut j: usize = 0;
        while j < i
            invariant
                n == slug_to_page@.len(),
                0 <= j <= i < n,
                forall|a: int|
                    0 <= a < j ==> (#[trigger] slug_to_page.deep_view()[a]).0
                        != slug_to_page.deep_view()[i as int].0,
                forall|a: int|
                    0 <= a < j ==> (#[trigger] slug_to_page.deep_view()[a]).1
                        != slug_to_page.deep_view()[i as int].1,
            decreases i - j,
        {
            if slug_to_page[j].0.eq(&slug_to_page[i].0) {
                proof {
                    assert((slug_to_page.deep_view()[j as int]).0 == (slug_to_page.deep_view()[
                        i as int]).0);
                }
                return false;
            }
            if slug_to_page[j].1.eq(&slug_to_page[i].1) {
                proof {
                    assert((slug_to_page.deep_view()[j as int]).1 == (slug_to_page.deep_view()[
                        i as int]).1);
                }
                return false;
            }
            j = j + 1;
        }
        i = i + 1;
    }
    true
}

/// The first pair with a given unique key binds it.
proof fn lemma_assoc_get_at(m: PairSeq, i: int)
    requires
        keys_unique(m),
        0 <= i < m.len(),
    ensures
        assoc_get(m, m[i].0) == Some(m[i].1),
    decreases i,
{
    if i > 0 {
        assert(m[0].0 != m[i].0);
        assert(m.drop_first()[i - 1] == m[i]);
        assert forall|a: int, b: int| 0 <= a < b < m.drop_first().len() implies (
        #[trigger] m.drop_first()[a]).0 != (#[trigger] m.drop_first()[b]).0 by {
            assert(m.drop_first()[a] == m[a + 1]);
            assert(m.drop_first()[b] == m[b + 1]);
        }
        lemma_assoc_get_at(m.drop_first(), i - 1);
    }
}

/// For every slug `s` mapped to page `p` in a well-formed tenant with its
/// derived fields computed: `page_to_slug` maps `p` back to `s`, `s`
/// stands in `slugs` exactly once, and `p` stands in `pages` exactly once.
pub proof fn lemma_mapping_inverse(cfg: DomainConfigModel, i: int)
    requires
        cfg.mapping_wf(),
        cfg.derived_ok(),
        0 <= i < cfg.slug_to_page.len(),
    ensures
        assoc_get(cfg.page_to_slug, cfg.slug_to_page[i].1) == Some(cfg.slug_to_page[i].0),
        cfg.slugs[i] == cfg.slug_to_page[i].0,
        cfg.pages[i] == cfg.slug_to_page[i].1,
        forall|j: int|
            0 <= j < cfg.slugs.len() && j != i ==> #[trigger] cfg.slugs[j] != cfg.slug_to_page[i].0,
        forall|j: int|
            0 <= j < cfg.pages.len() && j != i ==> #[trigger] cfg.pages[j] != cfg.slug_to_page[i].1,
{
    let m = cfg.slug_to_page;
    let inv = invert(m);
    assert forall|a: int, b: int| 0 <= a < b < inv.len() implies (#[trigger] inv[a]).0 != (
    #[trigger] inv[b]).0 by {
        assert(inv[a] == (m[a].1, m[a].0));
        assert(inv[b] == (m[b].1, m[b].0));
    }
    assert(inv[i] == (m[i].1, m[i].0));
    lemma_assoc_get_at(inv, i);
    assert forall|j: int| 0 <= j < cfg.slugs.len() && j != i implies #[trigger] cfg.slugs[j]
        != m[i].0 by {
        assert(cfg.slugs[j] == m[j].0);
        if j < i {
            assert(m[j].0 != m[i].0);
        } else {
            assert(m[i].0 != m[j].0);
        }
    }
    assert forall|j: int| 0 <= j < cfg.pages.len() && j != i implies #[trigger] cfg.pages[j]
        != m[i].1 by {
        assert(cfg.pages[j] == m[j].1);
        if j < i {
            assert(m[j].1 != m[i].1);
        } else {
            assert(m[i].1 != m[j].1);
        }
    }
}

/// The user-agent header value sent upstream when none is configured.
pub open spec fn default_user_agent() -> Seq<char> {
    "Mozilla/5.0 (Macintosh; Intel Mac OS X 10_12_6) AppleWebKit/537.36 (KHTML, like Gecko) Chrome/80.0.3987.163 Safari/537.36"@
}

impl Default for Config {
    /// The built-in configuration: local binding, a default upstream account,
    /// an empty tenant directory, and moderate cache bounds.
    fn default() -> (r: Self)
        ensures
            r.server.host@ == "0.0.0.0"@,
            r.server.port == 3000u16,
            r.server.log_level@ == "info"@,
            r.notion.username@ == "faeton"@,
            r.notion.user_agent@ == default_user_agent(),
            r.domains@.len() == 0,
            r.cache.max_capacity == 1000u64,
            r.cache.time_to_live_secs == 3600u64,
    {
        Config {
            server: ServerConfig {
                host: String::from_str("0.0.0.0"),
                port: 3000,
                log_level: String::from_str("info"),
            },
            notion: NotionConfig {
                username: String::from_str("faeton"),
                user_agent: String::from_str(
                    "Mozilla/5.0 (Macintosh; Intel Mac OS X 10_12_6) AppleWebKit/537.36 (KHTML, like Gecko) Chrome/80.0.3987.163 Safari/537.36",
                ),
            },
            domains: Vec::new(),
            cache: CacheConfig { max_capacity: 1000, time_to_live_secs: 3600 },
        }
    }
}

} // verus!
