//! What the front end shows of crates.io: search hits, a crate's detail page,
//! the request addresses, and download counts.

use vstd::prelude::*;
use crate::text::{concat, decimal, decimal_string, push_str, string_of};

verus! {

broadcast use vstd::string::group_string_axioms;

/// One search hit.
#[derive(Debug, Clone, Default)]
pub struct CrateInfo {
    pub name: String,
    pub version: String,
    pub description: String,
    pub downloads: u64,
}

/// A crate's detail page.
#[derive(Debug, Clone, Default)]
pub struct CrateDetail {
    pub name: String,
    pub version: String,
    pub description: String,
    pub authors: Vec<String>,
    pub deps: Vec<DepInfo>,
    pub repository: String,
}

/// One dependency listed on a detail page.
#[derive(Debug, Clone)]
pub struct DepInfo {
    pub name: String,
    pub req: String,
}

// ── Responses, as crates.io sends them ────────────────────────

/// One entry of a search response.
pub struct SearchItem {
    pub name: String,
    pub newest_version: String,
    pub description: Option<String>,
    pub downloads: u64,
}

/// The `crate` part of a crate's metadata response.
pub struct MetaCrate {
    pub name: String,
    pub description: Option<String>,
    pub repository: Option<String>,
    pub newest_version: String,
}

/// One owner of a crate.
pub struct Owner {
    pub name: Option<String>,
    pub login: String,
}

/// One entry of a version's dependency list.
pub struct DepItem {
    pub crate_id: String,
    pub req: String,
    pub kind: String,
}

/// The text of an optional string, empty when absent.
pub open spec fn or_empty(s: Option<String>) -> Seq<char> {
    match s {
        Some(x) => x@,
        None => Seq::empty(),
    }
}

fn take_or_empty(s: Option<String>) -> (res: String)
    ensures
        res@ == or_empty(s),
{
    match s {
        Some(x) => x,
        None => String::new(),
    }
}

/// How a search hit is shown: its newest version, and an empty description when it has none.
pub open spec fn info_matches(item: SearchItem, info: CrateInfo) -> bool {
    &&& info.name@ == item.name@
    &&& info.version@ == item.newest_version@
    &&& info.description@ == or_empty(item.description)
    &&& info.downloads == item.downloads
}

/// The search hits, in the order crates.io returned them.
pub fn crate_infos(items: Vec<SearchItem>) -> (res: Vec<CrateInfo>)
    ensures
        res@.len() == items@.len(),
        forall|i: int| 0 <= i < items@.len() ==> info_matches(#[trigger] items@[i], res@[i]),
{
    let ghost orig = items@;
    let mut items = items;
    let mut rev: Vec<CrateInfo> = Vec::new();
    while items.len() > 0
        invariant
            items@.len() + rev@.len() == orig.len(),
            items@ == orig.take(items@.len() as int),
            forall|i: int| 0 <= i < rev@.len() ==> info_matches(orig[orig.len() - 1 - i], #[trigger] rev@[i]),
        decreases items.len(),
    {
        let it = items.pop().unwrap();
        assert(it == orig[items@.len() as int]);
        rev.push(CrateInfo {
            name: it.name,
            version: it.newest_version,
            description: take_or_empty(it.description),
            downloads: it.downloads,
        });
        assert(items@ =~= orig.take(items@.len() as int));
    }
    let mut res: Vec<CrateInfo> = Vec::new();
    while rev.len() > 0
        invariant
            rev@.len() + res@.len() == orig.len(),
            forall|i: int| 0 <= i < rev@.len() ==> info_matches(orig[orig.len() - 1 - i], #[trigger] rev@[i]),
            forall|i: int| 0 <= i < res@.len() ==> info_matches(orig[i], #[trigger] res@[i]),
        decreases rev.len(),
    {
        let x = rev.pop().unwrap();
        res.push(x);
    }
    res
}

/// The author shown for an owner: the display name, or else the login.
pub open spec fn owner_label(o: Owner) -> Seq<char> {
    match o.name {
        Some(n) => n@,
        None => o.login@,
    }
}

/// Whether a dependency is a normal one (dev and build dependencies are not listed).
pub open spec fn is_normal_dep(d: DepItem) -> bool {
    d.kind@ == "normal"@ || d.kind@.len() == 0
}

/// The listed dependencies of a version, in the order crates.io returned them.
pub open spec fn listed_deps(ds: Seq<DepItem>) -> Seq<(Seq<char>, Seq<char>)> {
    ds.filter_map(|d: DepItem| if is_normal_dep(d) { Some((d.crate_id@, d.req@)) } else { None })
}

/// An element that `f` maps to something appears in `s.filter_map(f)`.
pub proof fn lemma_filter_map_keeps<A, B>(s: Seq<A>, f: spec_fn(A) -> Option<B>, j: int)
    requires
        0 <= j < s.len(),
        f(s[j]) is Some,
    ensures
        s.filter_map(f).contains(f(s[j]).unwrap()),
    decreases s.len(),
{
    let rest = s.drop_last();
    if j == s.len() - 1 {
        assert(s.filter_map(f) == rest.filter_map(f) + seq![f(s.last()).unwrap()]);
        assert(s.filter_map(f)[rest.filter_map(f).len() as int] == f(s[j]).unwrap());
    } else {
        lemma_filter_map_keeps(rest, f, j);
        assert(rest[j] == s[j]);
        let k = choose|k: int| 0 <= k < rest.filter_map(f).len() && rest.filter_map(f)[k] == f(s[j]).unwrap();
        match f(s.last()) {
            Some(x) => {
                assert(s.filter_map(f) == rest.filter_map(f) + seq![x]);
                assert(s.filter_map(f)[k] == f(s[j]).unwrap());
            },
            None => {
                assert(s.filter_map(f) == rest.filter_map(f));
            },
        }
    }
}

/// Whether `x` is the name and requirement of an item of `ds` whose kind is
/// `normal` or empty.
pub open spec fn from_normal_item(ds: Seq<DepItem>, x: (Seq<char>, Seq<char>)) -> bool {
    exists|j: int|
        0 <= j < ds.len() && (ds[j].kind@ == "normal"@ || ds[j].kind@.len() == 0) && x == (#[trigger] ds[j].crate_id@, ds[j].req@)
}

/// A detail page lists a crate's normal dependencies only: every listed
/// dependency is the name and requirement of an item of kind `normal` (or of no
/// kind), and every such item is listed; build and dev dependencies never are.
pub proof fn law_only_normal_deps_listed(ds: Seq<DepItem>)
    ensures
        forall|k: int| 0 <= k < listed_deps(ds).len() ==> from_normal_item(ds, #[trigger] listed_deps(ds)[k]),
        forall|j: int| 0 <= j < ds.len() && (ds[j].kind@ == "normal"@ || ds[j].kind@.len() == 0)
            ==> listed_deps(ds).contains((#[trigger] ds[j].crate_id@, ds[j].req@)),
{
    let f = |d: DepItem| if is_normal_dep(d) { Some((d.crate_id@, d.req@)) } else { None };
    assert(listed_deps(ds) == ds.filter_map(f));
    assert forall|k: int| 0 <= k < listed_deps(ds).len() implies from_normal_item(ds, #[trigger] listed_deps(ds)[k]) by {
        let x = listed_deps(ds)[k];
        assert(ds.filter_map(f).contains(x));
        ds.lemma_filter_map_contains(f, x);
        let t = choose|t: DepItem| #[trigger] ds.contains(t) && f(t) == Some(x);
        let j = choose|j: int| 0 <= j < ds.len() && ds[j] == t;
        assert(ds[j] == t);
        assert(is_normal_dep(t));
        assert(x == (ds[j].crate_id@, ds[j].req@));
    }
    assert forall|j: int| 0 <= j < ds.len() && (ds[j].kind@ == "normal"@ || ds[j].kind@.len() == 0)
        implies listed_deps(ds).contains((#[trigger] ds[j].crate_id@, ds[j].req@)) by {
        lemma_filter_map_keeps(ds, f, j);
    }
}

/// A crate's detail page from its metadata and owners, the version asked for,
/// and that version's dependency list (`None` when it could not be read, which
/// shows no dependencies).
pub fn crate_detail(krate: MetaCrate, owners: Vec<Owner>, deps: Option<Vec<DepItem>>, version: &str) -> (res: CrateDetail)
    ensures
        res.name@ == krate.name@,
        res.version@ == version@,
        res.description@ == or_empty(krate.description),
        res.repository@ == or_empty(krate.repository),
        res.authors@.map_values(|a: String| a@) == owners@.map_values(|o: Owner| owner_label(o)),
        res.deps@.map_values(|d: DepInfo| (d.name@, d.req@)) == listed_deps(
            match deps { Some(v) => v@, None => Seq::empty() },
        ),
{
    let mut authors: Vec<String> = Vec::new();
    let mut i: usize = 0;
    while i < owners.len()
        invariant
            0 <= i <= owners@.len(),
            authors@.map_values(|a: String| a@) == owners@.take(i as int).map_values(|o: Owner| owner_label(o)),
        decreases owners.len() - i,
    {
        let label = match &owners[i].name {
            Some(n) => n.clone(),
            None => owners[i].login.clone(),
        };
        assert(label@ == owner_label(owners@[i as int]));
        let ghost before = authors@;
        authors.push(label);
        assert(owners@.take(i + 1) =~= owners@.take(i as int).push(owners@[i as int]));
        assert(authors@.map_values(|a: String| a@) =~= before.map_values(|a: String| a@).push(label@));
        i += 1;
        assert(authors@.map_values(|a: String| a@) =~= owners@.take(i as int).map_values(|o: Owner| owner_label(o)));
    }
    assert(owners@.take(owners@.len() as int) =~= owners@);
    let ds: Vec<DepItem> = match deps {
        Some(v) => v,
        None => Vec::new(),
    };
    let ghost f = |d: DepItem| if is_normal_dep(d) { Some((d.crate_id@, d.req@)) } else { None };
    let normal = string_of("normal");
    let normal_chars = crate::text::chars_of(normal.as_str());
    let mut listed: Vec<DepInfo> = Vec::new();
    let mut j: usize = 0;
    while j < ds.len()
        invariant
            0 <= j <= ds@.len(),
            normal_chars@ == "normal"@,
            f == (|d: DepItem| if is_normal_dep(d) { Some((d.crate_id@, d.req@)) } else { None }),
            listed@.map_values(|d: DepInfo| (d.name@, d.req@)) == ds@.take(j as int).filter_map(f),
        decreases ds.len() - j,
    {
        let ghost before = listed@;
        assert(ds@.take(j + 1).drop_last() =~= ds@.take(j as int));
        assert(ds@.take(j + 1).last() == ds@[j as int]);
        let kind = crate::text::chars_of(ds[j].kind.as_str());
        if kind.len() == 0 || crate::workspace::chars_equal(&kind, &normal_chars) {
            listed.push(DepInfo { name: ds[j].crate_id.clone(), req: ds[j].req.clone() });
            assert(listed@.map_values(|d: DepInfo| (d.name@, d.req@)) =~= before.map_values(
                |d: DepInfo| (d.name@, d.req@),
            ).push((ds@[j as int].crate_id@, ds@[j as int].req@)));
        }
        j += 1;
    }
    assert(ds@.take(ds@.len() as int) =~= ds@);
    CrateDetail {
        name: krate.name,
        version: string_of(version),
        description: take_or_empty(krate.description),
        authors,
        deps: listed,
        repository: take_or_empty(krate.repository),
    }
}

// ── Request addresses ─────────────────────────────────────────

/// The search endpoint.
pub fn search_url() -> (res: &'static str)
    ensures
        res@ == "https://crates.io/api/v1/crates"@,
{
    "https://crates.io/api/v1/crates"
}

/// The query parameters of a search: the query text and the page size.
pub fn search_params(query: &str, limit: usize) -> (res: Vec<(String, String)>)
    ensures
        res@.len() == 2,
        res@[0].0@ == "q"@,
        res@[0].1@ == query@,
        res@[1].0@ == "per_page"@,
        res@[1].1@ == decimal(limit as nat),
{
    let mut res: Vec<(String, String)> = Vec::new();
    res.push((string_of("q"), string_of(query)));
    res.push((string_of("per_page"), decimal_string(limit as u64)));
    res
}

/// The address of a crate's metadata.
pub fn crate_url(name: &str) -> (res: String)
    ensures
        res@ == "https://crates.io/api/v1/crates/"@ + name@,
{
    concat("https://crates.io/api/v1/crates/", name)
}

/// The address of one version's dependency list.
pub fn dependencies_url(name: &str, version: &str) -> (res: String)
    ensures
        res@ == "https://crates.io/api/v1/crates/"@ + name@ + "/"@ + version@ + "/dependencies"@,
{
    let mut s = crate_url(name);
    push_str(&mut s, "/");
    push_str(&mut s, version);
    push_str(&mut s, "/dependencies");
    s
}

/// The identification sent with every request.
pub fn user_agent() -> (res: &'static str)
    ensures
        res@ == "cargo-tui/0.1.0 (github.com/cet-t/cargo-tui)"@,
{
    "cargo-tui/0.1.0 (github.com/cet-t/cargo-tui)"
}

// ── Download counts ───────────────────────────────────────────

/// The unit a download count is shown in.
#[derive(Debug, Clone, Copy, PartialEq, Eq, Structural)]
pub enum DownloadScale {
    /// Shown as the plain number.
    Units,
    /// Shown in thousands with one decimal, suffix `K`.
    Thousands,
    /// Shown in millions with one decimal, suffix `M`.
    Millions,
    /// Shown in billions with one decimal, suffix `B`.
    Billions,
}

/// The unit for a count: billions from 10^9, millions from 10^6, thousands from 10^3.
pub open spec fn scale_of(n: u64) -> DownloadScale {
    if n >= 1_000_000_000 {
        DownloadScale::Billions
    } else if n >= 1_000_000 {
        DownloadScale::Millions
    } else if n >= 1_000 {
        DownloadScale::Thousands
    } else {
        DownloadScale::Units
    }
}

/// The unit a download count is shown in.
pub fn download_scale(n: u64) -> (res: DownloadScale)
    ensures
        res == scale_of(n),
{
    if n >= 1_000_000_000 {
        DownloadScale::Billions
    } else if n >= 1_000_000 {
        DownloadScale::Millions
    } else if n >= 1_000 {
        DownloadScale::Thousands
    } else {
        DownloadScale::Units
    }
}

} // verus!
