//! The project being worked on: its dependency list, read from the manifest,
//! and its runnable targets, read from `cargo metadata`.

use vstd::prelude::*;
use std::path::PathBuf;
use crate::text::{chars_of, string_of};

verus! {

broadcast use vstd::string::group_string_axioms;

/// Paths are carried through the library unchanged; nothing here looks inside one.
#[verifier::external_type_specification]
#[verifier::external_body]
pub struct ExPathBuf(PathBuf);

/// Which Cargo.toml dependency section a crate belongs to.
#[derive(Debug, Clone, Copy, PartialEq, Eq, Structural)]
pub enum DepKind {
    Normal,
    Dev,
    Build,
}

/// The position of a section in the manifest's conventional order.
pub open spec fn kind_rank(k: DepKind) -> nat {
    match k {
        DepKind::Normal => 0,
        DepKind::Dev => 1,
        DepKind::Build => 2,
    }
}

/// The section header for a kind, as written in Cargo.toml.
pub open spec fn section_name(k: DepKind) -> Seq<char> {
    match k {
        DepKind::Normal => "dependencies"@,
        DepKind::Dev => "dev-dependencies"@,
        DepKind::Build => "build-dependencies"@,
    }
}

/// The `cargo add` / `cargo remove` flag for a kind (none for normal dependencies).
pub open spec fn flag_name(k: DepKind) -> Option<Seq<char>> {
    match k {
        DepKind::Normal => None,
        DepKind::Dev => Some("--dev"@),
        DepKind::Build => Some("--build"@),
    }
}

impl DepKind {
    /// Section header as written in Cargo.toml.
    pub fn section(self) -> (res: &'static str)
        ensures
            res@ == section_name(self),
    {
        match self {
            DepKind::Normal => "dependencies",
            DepKind::Dev => "dev-dependencies",
            DepKind::Build => "build-dependencies",
        }
    }

    /// The `cargo add` / `cargo remove` flag for this section (none for normal).
    pub fn flag(self) -> (res: Option<&'static str>)
        ensures
            match (res, flag_name(self)) {
                (Some(f), Some(g)) => f@ == g,
                (None, None) => true,
                _ => false,
            },
    {
        match self {
            DepKind::Normal => None,
            DepKind::Dev => Some("--dev"),
            DepKind::Build => Some("--build"),
        }
    }
}

/// One dependency of the project.
#[derive(Debug, Clone)]
pub struct Dep {
    pub name: String,
    pub version: String,
    pub kind: DepKind,
}

impl View for Dep {
    type V = (DepKind, Seq<char>, Seq<char>);

    open spec fn view(&self) -> (DepKind, Seq<char>, Seq<char>) {
        (self.kind, self.name@, self.version@)
    }
}

/// Kind of a runnable cargo target.
#[derive(Debug, Clone, Copy, PartialEq, Eq, Structural)]
pub enum RunKind {
    Bin,
    Example,
}

/// A runnable target (binary or example) discovered in the workspace.
#[derive(Debug, Clone)]
pub struct RunTarget {
    pub package: String,
    pub name: String,
    pub kind: RunKind,
}

impl View for RunTarget {
    type V = (Seq<char>, Seq<char>, RunKind);

    open spec fn view(&self) -> (Seq<char>, Seq<char>, RunKind) {
        (self.package@, self.name@, self.kind)
    }
}

/// What the front end knows about the project it was started in.
#[derive(Debug)]
pub struct WorkspaceInfo {
    pub name: String,
    pub root: PathBuf,
    pub deps: Vec<Dep>,
    pub targets: Vec<RunTarget>,
}

// ── Manifest ─────────────────────────────────────────────────

/// A value in a dependency table of the manifest, as far as it matters here:
/// a plain version string, an inline table (with the string values it holds;
/// `None` for an entry whose value is not a string), or anything else.
pub enum TomlItem {
    Str(String),
    Table(Vec<(String, Option<String>)>),
    Other,
}

/// The parts of a Cargo.toml that the front end reads. Each dependency section
/// lists its entries in the order the manifest holds them.
pub struct Manifest {
    pub package_name: Option<String>,
    pub dependencies: Option<Vec<(String, TomlItem)>>,
    pub dev_dependencies: Option<Vec<(String, TomlItem)>>,
    pub build_dependencies: Option<Vec<(String, TomlItem)>>,
}

/// The value stored under `key` in an inline table: the first entry with that key.
pub open spec fn table_lookup(t: Seq<(String, Option<String>)>, key: Seq<char>) -> Option<Option<String>>
    decreases t.len(),
{
    if t.len() == 0 {
        None
    } else if t[0].0@ == key {
        Some(t[0].1)
    } else {
        table_lookup(t.drop_first(), key)
    }
}

/// The version requirement a dependency entry declares: the string itself, the
/// table's `version` string (`*` when there is none), or nothing for other values.
pub open spec fn item_version(v: TomlItem) -> Option<Seq<char>> {
    match v {
        TomlItem::Str(s) => Some(s@),
        TomlItem::Table(t) => Some(
            match table_lookup(t@, "version"@) {
                Some(Some(s)) => s@,
                _ => "*"@,
            },
        ),
        TomlItem::Other => None,
    }
}

/// The dependencies one section declares, in manifest order.
pub open spec fn section_deps(kind: DepKind, entries: Seq<(String, TomlItem)>) -> Seq<(DepKind, Seq<char>, Seq<char>)> {
    entries.filter_map(
        |e: (String, TomlItem)|
            match item_version(e.1) {
                Some(v) => Some((kind, e.0@, v)),
                None => None,
            },
    )
}

/// The entries of an optional section.
pub open spec fn opt_entries(s: Option<Vec<(String, TomlItem)>>) -> Seq<(String, TomlItem)> {
    match s {
        Some(v) => v@,
        None => Seq::empty(),
    }
}

/// All dependencies the manifest declares, section by section.
pub open spec fn declared_deps(m: Manifest) -> Seq<(DepKind, Seq<char>, Seq<char>)> {
    section_deps(DepKind::Normal, opt_entries(m.dependencies))
        + section_deps(DepKind::Dev, opt_entries(m.dev_dependencies))
        + section_deps(DepKind::Build, opt_entries(m.build_dependencies))
}

/// Strict lexicographic order of character sequences by code point (the order
/// of `str`'s `Ord`, which compares the UTF-8 bytes).
pub open spec fn chars_lt(a: Seq<char>, b: Seq<char>) -> bool
    decreases a.len(),
{
    if a.len() == 0 {
        b.len() > 0
    } else if b.len() == 0 {
        false
    } else if (a[0] as u32) < (b[0] as u32) {
        true
    } else if a[0] == b[0] {
        chars_lt(a.drop_first(), b.drop_first())
    } else {
        false
    }
}

/// Order of dependencies in the list: by section, then by name.
pub open spec fn dep_lt(a: (DepKind, Seq<char>, Seq<char>), b: (DepKind, Seq<char>, Seq<char>)) -> bool {
    kind_rank(a.0) < kind_rank(b.0) || (kind_rank(a.0) == kind_rank(b.0) && chars_lt(a.1, b.1))
}

/// No later dependency orders before an earlier one.
pub open spec fn deps_sorted(s: Seq<(DepKind, Seq<char>, Seq<char>)>) -> bool {
    forall|i: int, j: int| 0 <= i < j < s.len() ==> !dep_lt(#[trigger] s[j], #[trigger] s[i])
}

pub proof fn lemma_chars_lt_asym(a: Seq<char>, b: Seq<char>)
    ensures
        chars_lt(a, b) ==> !chars_lt(b, a),
    decreases a.len(),
{
    if a.len() > 0 && b.len() > 0 && a[0] == b[0] {
        lemma_chars_lt_asym(a.drop_first(), b.drop_first());
    }
}

pub proof fn lemma_chars_lt_trans(a: Seq<char>, b: Seq<char>, c: Seq<char>)
    requires
        chars_lt(a, b),
        chars_lt(b, c),
    ensures
        chars_lt(a, c),
    decreases a.len(),
{
    if a.len() > 0 && b.len() > 0 && c.len() > 0 && a[0] == b[0] && b[0] == c[0] {
        lemma_chars_lt_trans(a.drop_first(), b.drop_first(), c.drop_first());
    }
}

pub proof fn lemma_dep_lt_asym_trans(a: (DepKind, Seq<char>, Seq<char>), b: (DepKind, Seq<char>, Seq<char>), c: (DepKind, Seq<char>, Seq<char>))
    ensures
        dep_lt(a, b) ==> !dep_lt(b, a),
        dep_lt(a, b) && dep_lt(b, c) ==> dep_lt(a, c),
{
    lemma_chars_lt_asym(a.1, b.1);
    if dep_lt(a, b) && dep_lt(b, c) && kind_rank(a.0) == kind_rank(b.0) && kind_rank(b.0) == kind_rank(c.0) {
        lemma_chars_lt_trans(a.1, b.1, c.1);
    }
}

/// A dependency as text: section, name, version.
pub type DepView = (DepKind, Seq<char>, Seq<char>);

/// Each dependency orders strictly before every later one.
pub open spec fn deps_strictly_sorted(s: Seq<DepView>) -> bool {
    forall|i: int, j: int| 0 <= i < j < s.len() ==> dep_lt(#[trigger] s[i], #[trigger] s[j])
}

/// No two entries of a section have the same name (as in TOML, whose keys are unique).
pub open spec fn names_distinct(es: Seq<(String, TomlItem)>) -> bool {
    forall|i: int, j: int| 0 <= i < j < es.len() ==> (#[trigger] es[i]).0@ != (#[trigger] es[j]).0@
}

/// Every dependency section of the manifest names each crate once.
pub open spec fn manifest_names_distinct(m: Manifest) -> bool {
    &&& names_distinct(opt_entries(m.dependencies))
    &&& names_distinct(opt_entries(m.dev_dependencies))
    &&& names_distinct(opt_entries(m.build_dependencies))
}

/// Two different names are ordered one way or the other.
pub proof fn lemma_chars_lt_total(a: Seq<char>, b: Seq<char>)
    requires
        a != b,
    ensures
        chars_lt(a, b) || chars_lt(b, a),
    decreases a.len(),
{
    if a.len() == 0 {
        if b.len() == 0 {
            assert(a =~= b);
        }
    } else if b.len() == 0 {
    } else if a[0] == b[0] {
        assert(a =~= seq![a[0]] + a.drop_first());
        assert(b =~= seq![b[0]] + b.drop_first());
        assert(a.drop_first() != b.drop_first());
        lemma_chars_lt_total(a.drop_first(), b.drop_first());
    } else {
        lemma_char_u32_injective(a[0], b[0]);
    }
}

/// Different characters have different code points.
proof fn lemma_char_u32_injective(x: char, y: char)
    requires
        x != y,
    ensures
        (x as u32) != (y as u32),
{
    vstd::utf8::char_u32_cast(x, x as u32);
    vstd::utf8::char_u32_cast(y, y as u32);
}

/// Two dependencies that differ in section or name are ordered one way or the other.
pub proof fn lemma_dep_lt_total(a: DepView, b: DepView)
    requires
        a.0 != b.0 || a.1 != b.1,
    ensures
        dep_lt(a, b) || dep_lt(b, a),
{
    if kind_rank(a.0) == kind_rank(b.0) {
        assert(a.0 == b.0);
        lemma_chars_lt_total(a.1, b.1);
    }
}

/// Where inserting `d` into `s` keeps the order stable: just before the first
/// entry that orders after it (after all entries that do not).
pub open spec fn insert_pos(s: Seq<DepView>, d: DepView) -> int
    decreases s.len(),
{
    if s.len() == 0 {
        0
    } else if dep_lt(d, s[0]) {
        0
    } else {
        1 + insert_pos(s.drop_first(), d)
    }
}

/// The stable position lies within the sequence.
pub proof fn lemma_insert_pos_bounds(s: Seq<DepView>, d: DepView)
    ensures
        0 <= insert_pos(s, d) <= s.len(),
    decreases s.len(),
{
    if s.len() > 0 && !dep_lt(d, s[0]) {
        lemma_insert_pos_bounds(s.drop_first(), d);
    }
}

/// `acc` with the `items` inserted one after the other, each at its stable position.
pub open spec fn sorted_into(acc: Seq<DepView>, items: Seq<DepView>) -> Seq<DepView>
    decreases items.len(),
{
    if items.len() == 0 {
        acc
    } else {
        let t = sorted_into(acc, items.drop_last());
        t.insert(insert_pos(t, items.last()), items.last())
    }
}

/// The stable sort of `s` by section and name: entries that tie keep their order.
pub open spec fn stable_sorted(s: Seq<DepView>) -> Seq<DepView> {
    sorted_into(Seq::empty(), s)
}

pub proof fn lemma_sorted_into_concat(acc: Seq<DepView>, a: Seq<DepView>, b: Seq<DepView>)
    ensures
        sorted_into(acc, a + b) == sorted_into(sorted_into(acc, a), b),
    decreases b.len(),
{
    if b.len() == 0 {
        assert(a + b =~= a);
    } else {
        assert((a + b).drop_last() =~= a + b.drop_last());
        assert((a + b).last() == b.last());
        lemma_sorted_into_concat(acc, a, b.drop_last());
    }
}

/// `a < b` in the order of `chars_lt`.
fn chars_less(a: &Vec<char>, b: &Vec<char>) -> (res: bool)
    ensures
        res == chars_lt(a@, b@),
{
    let mut i: usize = 0;
    assert(a@.skip(0) =~= a@ && b@.skip(0) =~= b@);
    while i < a.len() && i < b.len() && a[i] == b[i]
        invariant
            0 <= i <= a@.len(),
            i <= b@.len(),
            a@.subrange(0, i as int) == b@.subrange(0, i as int),
            chars_lt(a@, b@) == chars_lt(a@.skip(i as int), b@.skip(i as int)),
        decreases a.len() - i,
    {
        assert(a@.skip(i as int).drop_first() =~= a@.skip(i + 1));
        assert(b@.skip(i as int).drop_first() =~= b@.skip(i + 1));
        i += 1;
    }
    if i == a.len() {
        i < b.len()
    } else if i == b.len() {
        false
    } else {
        (a[i] as u32) < (b[i] as u32)
    }
}

fn dep_less(a: &Dep, b: &Dep) -> (res: bool)
    ensures
        res == dep_lt(a@, b@),
{
    let ra: u8 = match a.kind { DepKind::Normal => 0, DepKind::Dev => 1, DepKind::Build => 2 };
    let rb: u8 = match b.kind { DepKind::Normal => 0, DepKind::Dev => 1, DepKind::Build => 2 };
    if ra < rb {
        true
    } else if ra == rb {
        chars_less(&chars_of(a.name.as_str()), &chars_of(b.name.as_str()))
    } else {
        false
    }
}

/// Inserts `d` after every entry that does not order after it.
fn insert_sorted(v: &mut Vec<Dep>, d: Dep)
    requires
        deps_sorted(old(v)@.map_values(|x: Dep| x@)),
    ensures
        deps_sorted(final(v)@.map_values(|x: Dep| x@)),
        final(v)@.map_values(|x: Dep| x@).to_multiset() == old(v)@.map_values(|x: Dep| x@).to_multiset().insert(d@),
        final(v)@.map_values(|x: Dep| x@) == old(v)@.map_values(|x: Dep| x@).insert(
            insert_pos(old(v)@.map_values(|x: Dep| x@), d@),
            d@,
        ),
        deps_strictly_sorted(old(v)@.map_values(|x: Dep| x@)) && (forall|i: int|
            0 <= i < old(v)@.len() ==> (#[trigger] old(v)@[i]).kind != d.kind || old(v)@[i].name@ != d.name@)
            ==> deps_strictly_sorted(final(v)@.map_values(|x: Dep| x@)),
{
    let ghost s = old(v)@.map_values(|x: Dep| x@);
    let mut p: usize = 0;
    assert(s.skip(0) =~= s);
    while p < v.len() && !dep_less(&d, &v[p])
        invariant
            0 <= p <= v@.len(),
            v@ == old(v)@,
            s == old(v)@.map_values(|x: Dep| x@),
            forall|i: int| 0 <= i < p ==> !dep_lt(d@, #[trigger] v@[i]@),
            insert_pos(s, d@) == p + insert_pos(s.skip(p as int), d@),
        decreases v.len() - p,
    {
        assert(s.skip(p as int)[0] == s[p as int]);
        assert(s.skip(p as int).drop_first() =~= s.skip(p + 1));
        p += 1;
    }
    if p < v.len() {
        assert(s.skip(p as int)[0] == s[p as int]);
    }
    v.insert(p, d);
    let ghost t = v@.map_values(|x: Dep| x@);
    assert(t =~= s.insert(p as int, d@));
    assert forall|i: int, j: int| 0 <= i < j < t.len() implies !dep_lt(#[trigger] t[j], #[trigger] t[i]) by {
        if i < p && j == p {
            assert(t[i] == s[i]);
        } else if i == p && j > p {
            assert(t[j] == s[j - 1]);
            assert(p < s.len());
            lemma_dep_lt_asym_trans(s[j - 1], d@, s[p as int]);
            lemma_dep_lt_asym_trans(d@, s[p as int], s[j - 1]);
            if j - 1 > p {
                assert(!dep_lt(s[j - 1], s[p as int]));
            }
        } else if j < p {
            assert(t[i] == s[i] && t[j] == s[j]);
        } else if i < p && j > p {
            assert(t[i] == s[i] && t[j] == s[j - 1]);
        } else {
            assert(t[i] == s[i - 1] && t[j] == s[j - 1]);
        }
    }
    proof {
        vstd::seq_lib::to_multiset_insert(s, p as int, d@);
        if deps_strictly_sorted(s) && (forall|i: int|
            0 <= i < old(v)@.len() ==> (#[trigger] old(v)@[i]).kind != d.kind || old(v)@[i].name@ != d.name@) {
            assert forall|i: int, j: int| 0 <= i < j < t.len() implies dep_lt(#[trigger] t[i], #[trigger] t[j]) by {
                if i < p && j == p {
                    assert(t[i] == s[i]);
                    assert(s[i] == old(v)@[i]@);
                    lemma_dep_lt_total(s[i], d@);
                } else if i == p && j > p {
                    assert(t[j] == s[j - 1]);
                    assert(p < s.len());
                    assert(dep_lt(d@, s[p as int]));
                    if j - 1 > p {
                        assert(dep_lt(s[p as int], s[j - 1]));
                        lemma_dep_lt_asym_trans(d@, s[p as int], s[j - 1]);
                    }
                } else if j < p {
                    assert(t[i] == s[i] && t[j] == s[j]);
                } else if i < p && j > p {
                    assert(t[i] == s[i] && t[j] == s[j - 1]);
                } else {
                    assert(t[i] == s[i - 1] && t[j] == s[j - 1]);
                }
            }
        }
    }
}

/// The version string of a table entry `version`, or `*`.
fn table_version(t: &Vec<(String, Option<String>)>) -> (res: String)
    ensures
        res@ == (match table_lookup(t@, "version"@) {
            Some(Some(s)) => s@,
            _ => "*"@,
        }),
{
    let key = chars_of("version");
    let mut i: usize = 0;
    assert(t@.skip(0) =~= t@);
    while i < t.len()
        invariant
            0 <= i <= t@.len(),
            key@ == "version"@,
            table_lookup(t@, "version"@) == table_lookup(t@.skip(i as int), "version"@),
        decreases t.len() - i,
    {
        assert(t@.skip(i as int).drop_first() =~= t@.skip(i + 1));
        let k = chars_of(t[i].0.as_str());
        if chars_equal(&k, &key) {
            return match &t[i].1 {
                Some(s) => s.clone(),
                None => string_of("*"),
            };
        }
        i += 1;
    }
    string_of("*")
}

/// Whether two character vectors are equal.
pub fn chars_equal(a: &Vec<char>, b: &Vec<char>) -> (res: bool)
    ensures
        res == (a@ == b@),
{
    if a.len() != b.len() {
        return false;
    }
    let mut i: usize = 0;
    while i < a.len()
        invariant
            a@.len() == b@.len(),
            0 <= i <= a@.len(),
            forall|j: int| 0 <= j < i ==> a@[j] == b@[j],
        decreases a.len() - i,
    {
        if a[i] != b[i] {
            return false;
        }
        i += 1;
    }
    assert(a@ =~= b@);
    true
}

/// The entries of a section can be added to `out` keeping it strictly sorted:
/// `out` is, its entries come from earlier sections, and the section names each
/// crate once.
pub open spec fn section_fresh(out: Seq<Dep>, kind: DepKind, entries: Seq<(String, TomlItem)>) -> bool {
    &&& deps_strictly_sorted(out.map_values(|x: Dep| x@))
    &&& forall|k: int| 0 <= k < out.len() ==> kind_rank((#[trigger] out[k]).kind) < kind_rank(kind)
    &&& names_distinct(entries)
}

/// A dependency comes from an earlier section, or is one of the first `i` entries of this one.
pub open spec fn from_before(x: Dep, kind: DepKind, entries: Seq<(String, TomlItem)>, i: int) -> bool {
    ||| kind_rank(x.kind) < kind_rank(kind)
    ||| x.kind == kind && exists|m: int| 0 <= m < i && entries[m].0@ == #[trigger] x.name@
}

/// Appends the dependencies one section declares to `out`, keeping it sorted.
fn add_section(out: &mut Vec<Dep>, kind: DepKind, section: &Option<Vec<(String, TomlItem)>>)
    requires
        deps_sorted(old(out)@.map_values(|x: Dep| x@)),
    ensures
        deps_sorted(final(out)@.map_values(|x: Dep| x@)),
        final(out)@.map_values(|x: Dep| x@) == sorted_into(
            old(out)@.map_values(|x: Dep| x@),
            section_deps(kind, opt_entries(*section)),
        ),
        final(out)@.map_values(|x: Dep| x@).to_multiset()
            == old(out)@.map_values(|x: Dep| x@).to_multiset().add(section_deps(kind, opt_entries(*section)).to_multiset()),
        section_fresh(old(out)@, kind, opt_entries(*section)) ==> {
            &&& deps_strictly_sorted(final(out)@.map_values(|x: Dep| x@))
            &&& forall|k: int| 0 <= k < final(out)@.len() ==> kind_rank((#[trigger] final(out)@[k]).kind) <= kind_rank(kind)
        },
{
    broadcast use vstd::seq_lib::group_to_multiset_ensures;
    if let Some(entries) = section {
        let mut i: usize = 0;
        while i < entries.len()
            invariant
                0 <= i <= entries@.len(),
                opt_entries(*section) == entries@,
                deps_sorted(out@.map_values(|x: Dep| x@)),
                out@.map_values(|x: Dep| x@) == sorted_into(
                    old(out)@.map_values(|x: Dep| x@),
                    section_deps(kind, entries@.take(i as int)),
                ),
                out@.map_values(|x: Dep| x@).to_multiset()
                    == old(out)@.map_values(|x: Dep| x@).to_multiset().add(section_deps(kind, entries@.take(i as int)).to_multiset()),
                section_fresh(old(out)@, kind, entries@) ==> {
                    &&& deps_strictly_sorted(out@.map_values(|x: Dep| x@))
                    &&& forall|k: int| 0 <= k < out@.len() ==> from_before(#[trigger] out@[k], kind, entries@, i as int)
                },
            decreases entries.len() - i,
        {
            let ghost before = section_deps(kind, entries@.take(i as int));
            assert(entries@.take(i + 1).drop_last() =~= entries@.take(i as int));
            let version: Option<String> = match &entries[i].1 {
                TomlItem::Str(s) => Some(s.clone()),
                TomlItem::Table(t) => Some(table_version(t)),
                TomlItem::Other => None,
            };
            if let Some(v) = version {
                let d = Dep { name: entries[i].0.clone(), version: v, kind };
                let ghost dv = d@;
                assert((before + seq![dv]).drop_last() =~= before);
                assert((before + seq![dv]).last() == dv);
                let ghost out_before = out@;
                proof {
                    if section_fresh(old(out)@, kind, entries@) {
                        assert forall|k: int| 0 <= k < out_before.len() implies (#[trigger] out_before[k]).kind != d.kind
                            || out_before[k].name@ != d.name@ by {
                            assert(from_before(out_before[k], kind, entries@, i as int));
                            if out_before[k].kind == kind {
                                let m = choose|m: int| 0 <= m < i && entries@[m].0@ == #[trigger] out_before[k].name@;
                                assert(entries@[m].0@ != entries@[i as int].0@);
                            }
                        }
                    }
                }
                insert_sorted(out, d);
                proof {
                    if section_fresh(old(out)@, kind, entries@) {
                        let ob = out_before.map_values(|x: Dep| x@);
                        let p = insert_pos(ob, dv);
                        lemma_insert_pos_bounds(ob, dv);
                        assert(out@.map_values(|x: Dep| x@) == ob.insert(p, dv));
                        assert forall|k: int| 0 <= k < out@.len() implies from_before(#[trigger] out@[k], kind, entries@, i + 1) by {
                            assert(out@[k]@ == out@.map_values(|x: Dep| x@)[k]);
                            if k < p {
                                assert(ob.insert(p, dv)[k] == ob[k]);
                                assert(out@[k]@ == out_before[k]@);
                                assert(from_before(out_before[k], kind, entries@, i as int));
                            } else if k == p {
                                assert(out@[k]@ == dv);
                                assert(entries@[i as int].0@ == out@[k].name@);
                            } else {
                                assert(ob.insert(p, dv)[k] == ob[k - 1]);
                                assert(out@[k]@ == out_before[k - 1]@);
                                assert(from_before(out_before[k - 1], kind, entries@, i as int));
                            }
                        }
                    }
                }
                assert(section_deps(kind, entries@.take(i + 1)) =~= before + seq![d@]);
                proof {
                    assert(before + seq![d@] =~= before.push(d@));
                    vstd::seq_lib::to_multiset_build(before, d@);
                    assert(out@.map_values(|x: Dep| x@).to_multiset() =~= old(out)@.map_values(|x: Dep| x@).to_multiset().add(
                        section_deps(kind, entries@.take(i + 1)).to_multiset()));
                }
            } else {
                assert(section_deps(kind, entries@.take(i + 1)) =~= before);
                proof {
                    if section_fresh(old(out)@, kind, entries@) {
                        assert forall|k: int| 0 <= k < out@.len() implies from_before(#[trigger] out@[k], kind, entries@, i + 1) by {
                            assert(from_before(out@[k], kind, entries@, i as int));
                        }
                    }
                }
            }
            i += 1;
        }
        assert(entries@.take(entries@.len() as int) =~= entries@);
    } else {
        assert(section_deps(kind, Seq::<(String, TomlItem)>::empty()) =~= Seq::empty());
    }
}

/// The project's dependencies as the manifest declares them: every entry with a
/// version string or table, ordered by section (normal, dev, build) and then by
/// name, so that the grouped view is stable.
pub fn manifest_deps(m: &Manifest) -> (res: Vec<Dep>)
    ensures
        res@.map_values(|x: Dep| x@) == stable_sorted(declared_deps(*m)),
        deps_sorted(res@.map_values(|x: Dep| x@)),
        res@.map_values(|x: Dep| x@).to_multiset() == declared_deps(*m).to_multiset(),
        manifest_names_distinct(*m) ==> deps_strictly_sorted(res@.map_values(|x: Dep| x@)),
{
    broadcast use vstd::seq_lib::group_to_multiset_ensures;
    let mut out: Vec<Dep> = Vec::new();
    assert(out@.map_values(|x: Dep| x@) =~= Seq::empty());
    add_section(&mut out, DepKind::Normal, &m.dependencies);
    let ghost after_normal = out@;
    add_section(&mut out, DepKind::Dev, &m.dev_dependencies);
    let ghost after_dev = out@;
    add_section(&mut out, DepKind::Build, &m.build_dependencies);
    proof {
        if manifest_names_distinct(*m) {
            assert(section_fresh(Seq::<Dep>::empty(), DepKind::Normal, opt_entries(m.dependencies)));
            assert(section_fresh(after_normal, DepKind::Dev, opt_entries(m.dev_dependencies)));
            assert(section_fresh(after_dev, DepKind::Build, opt_entries(m.build_dependencies)));
        }
    }
    proof {
        let a = section_deps(DepKind::Normal, opt_entries(m.dependencies));
        let b = section_deps(DepKind::Dev, opt_entries(m.dev_dependencies));
        let c = section_deps(DepKind::Build, opt_entries(m.build_dependencies));
        vstd::seq_lib::lemma_multiset_commutative(a, b);
        vstd::seq_lib::lemma_multiset_commutative(a + b, c);
        let e = Seq::<DepView>::empty();
        assert(sorted_into(e, Seq::<DepView>::empty()) == e);
        assert(Seq::<DepView>::empty() + a =~= a);
        lemma_sorted_into_concat(e, Seq::<DepView>::empty(), a);
        lemma_sorted_into_concat(e, a, b);
        lemma_sorted_into_concat(e, a + b, c);
    }
    out
}

// ── cargo metadata ───────────────────────────────────────────

/// A JSON document as `cargo metadata` prints it. Numbers are kept only as a
/// marker: nothing here reads their value.
pub enum JsonValue {
    Null,
    Bool(bool),
    Number,
    Str(String),
    Array(Vec<JsonValue>),
    Object(Vec<(String, JsonValue)>),
}

/// The value of the first member named `key`.
pub open spec fn members_lookup(es: Seq<(String, JsonValue)>, key: Seq<char>) -> Option<JsonValue>
    decreases es.len(),
{
    if es.len() == 0 {
        None
    } else if es[0].0@ == key {
        Some(es[0].1)
    } else {
        members_lookup(es.drop_first(), key)
    }
}

/// `value.get(key)`: the member of an object, nothing for other values.
pub open spec fn json_get(v: JsonValue, key: Seq<char>) -> Option<JsonValue> {
    match v {
        JsonValue::Object(es) => members_lookup(es@, key),
        _ => None,
    }
}

/// The string a value holds, if it is one.
pub open spec fn json_str(v: Option<JsonValue>) -> Option<Seq<char>> {
    match v {
        Some(JsonValue::Str(s)) => Some(s@),
        _ => None,
    }
}

/// The elements of a value, if it is an array.
pub open spec fn json_array(v: Option<JsonValue>) -> Option<Seq<JsonValue>> {
    match v {
        Some(JsonValue::Array(a)) => Some(a@),
        _ => None,
    }
}

/// Whether some element of `ks` is the string `name`.
pub open spec fn has_str(ks: Seq<JsonValue>, name: Seq<char>) -> bool {
    exists|i: int| 0 <= i < ks.len() && json_str(Some(#[trigger] ks[i])) == Some(name)
}

/// The kind of a target: a binary if its `kind` list names `bin`, otherwise an
/// example if it names `example`; other targets (libraries, tests, …) are not runnable.
pub open spec fn target_kind(t: JsonValue) -> Option<RunKind> {
    match json_array(json_get(t, "kind"@)) {
        Some(ks) => if has_str(ks, "bin"@) {
            Some(RunKind::Bin)
        } else if has_str(ks, "example"@) {
            Some(RunKind::Example)
        } else {
            None
        },
        None => None,
    }
}

/// The runnable target a target entry describes, if it is runnable and named.
pub open spec fn target_entry(pkg: Seq<char>, t: JsonValue) -> Option<(Seq<char>, Seq<char>, RunKind)> {
    match (target_kind(t), json_str(json_get(t, "name"@))) {
        (Some(k), Some(n)) => Some((pkg, n, k)),
        _ => None,
    }
}

/// The runnable targets of one package, in the order it lists them; the
/// package name is empty when the entry has none.
pub open spec fn package_targets(p: JsonValue) -> Seq<(Seq<char>, Seq<char>, RunKind)> {
    let name = match json_str(json_get(p, "name"@)) {
        Some(n) => n,
        None => Seq::empty(),
    };
    match json_array(json_get(p, "targets"@)) {
        Some(ts) => ts.filter_map(|t: JsonValue| target_entry(name, t)),
        None => Seq::empty(),
    }
}

/// The sequences one after the other.
pub open spec fn concat_all<T>(ss: Seq<Seq<T>>) -> Seq<T>
    decreases ss.len(),
{
    if ss.len() == 0 {
        Seq::empty()
    } else {
        concat_all(ss.drop_last()) + ss.last()
    }
}

/// All runnable targets the metadata lists, package by package.
pub open spec fn metadata_targets(meta: JsonValue) -> Seq<(Seq<char>, Seq<char>, RunKind)> {
    match json_array(json_get(meta, "packages"@)) {
        Some(ps) => concat_all(ps.map_values(|p: JsonValue| package_targets(p))),
        None => Seq::empty(),
    }
}

/// Whether `kinds` holds the string `k`.
pub open spec fn names_kind(kinds: Seq<JsonValue>, k: Seq<char>) -> bool {
    exists|i: int| 0 <= i < kinds.len() && (#[trigger] kinds[i] matches JsonValue::Str(s) && s@ == k)
}

/// A target is runnable only for what its `kind` list says: a binary when the
/// list holds `"bin"`, otherwise an example when it holds `"example"`; a target
/// whose kinds are only others (`lib`, `test`, `bench`, `custom-build`, …) is
/// not runnable.
pub proof fn law_target_kind_follows_kind_list(t: JsonValue)
    ensures
        ({
            let kinds = match json_get(t, "kind"@) {
                Some(JsonValue::Array(a)) => a@,
                _ => Seq::<JsonValue>::empty(),
            };
            &&& target_kind(t) == Some(RunKind::Bin) <==> names_kind(kinds, "bin"@)
            &&& target_kind(t) == Some(RunKind::Example) <==> (names_kind(kinds, "example"@) && !names_kind(kinds, "bin"@))
            &&& target_kind(t) is None <==> (!names_kind(kinds, "bin"@) && !names_kind(kinds, "example"@))
        }),
{
    let kinds = match json_get(t, "kind"@) {
        Some(JsonValue::Array(a)) => a@,
        _ => Seq::<JsonValue>::empty(),
    };
    match json_array(json_get(t, "kind"@)) {
        Some(ks) => {
            assert(ks == kinds);
            lemma_has_str_names_kind(ks, "bin"@);
            lemma_has_str_names_kind(ks, "example"@);
        },
        None => {
            assert(kinds.len() == 0);
        },
    }
}

proof fn lemma_has_str_names_kind(ks: Seq<JsonValue>, k: Seq<char>)
    ensures
        has_str(ks, k) <==> names_kind(ks, k),
{
    if has_str(ks, k) {
        let i = choose|i: int| 0 <= i < ks.len() && json_str(Some(#[trigger] ks[i])) == Some(k);
        assert(ks[i] matches JsonValue::Str(s) && s@ == k);
    }
    if names_kind(ks, k) {
        let i = choose|i: int| 0 <= i < ks.len() && (#[trigger] ks[i] matches JsonValue::Str(s) && s@ == k);
        assert(json_str(Some(ks[i])) == Some(k));
    }
}

/// An element of one of the sequences is an element of their concatenation, and back.
proof fn lemma_concat_all_member<T>(ss: Seq<Seq<T>>, x: T)
    ensures
        concat_all(ss).contains(x) ==> exists|i: int| 0 <= i < ss.len() && (#[trigger] ss[i]).contains(x),
    decreases ss.len(),
{
    if ss.len() > 0 && concat_all(ss).contains(x) {
        let init = ss.drop_last();
        let c = concat_all(init);
        let k = choose|k: int| 0 <= k < concat_all(ss).len() && concat_all(ss)[k] == x;
        if k < c.len() {
            assert(c[k] == x);
            assert(c.contains(x));
            lemma_concat_all_member(init, x);
            let i = choose|i: int| 0 <= i < init.len() && (#[trigger] init[i]).contains(x);
            assert(ss[i] == init[i]);
        } else {
            assert(ss.last()[k - c.len()] == x);
            assert(ss[ss.len() - 1].contains(x));
        }
    }
}

/// Whether `r` is the runnable target that target `t` of a package named
/// `pkg` (empty when the package has no name) describes: same package, same
/// name, and a kind its `kind` list names.
pub open spec fn describes(pkg: Seq<char>, t: JsonValue, r: (Seq<char>, Seq<char>, RunKind)) -> bool {
    let kinds = match json_get(t, "kind"@) {
        Some(JsonValue::Array(a)) => a@,
        _ => Seq::<JsonValue>::empty(),
    };
    &&& r.0 == pkg
    &&& json_get(t, "name"@) matches Some(JsonValue::Str(n)) && n@ == r.1
    &&& r.2 == RunKind::Bin ==> names_kind(kinds, "bin"@)
    &&& r.2 == RunKind::Example ==> names_kind(kinds, "example"@)
}

/// Every runnable target found in `cargo metadata` output is described by one
/// target of one package there: it has that target's name, its package's name,
/// and a kind that the target's `kind` list names (`bin` or `example`).
pub proof fn law_metadata_targets_come_from_targets(meta: JsonValue, r: (Seq<char>, Seq<char>, RunKind))
    requires
        metadata_targets(meta).contains(r),
    ensures
        json_get(meta, "packages"@) matches Some(JsonValue::Array(ps)) && exists|p: int|
            0 <= p < ps@.len() && (json_get(#[trigger] ps@[p], "targets"@) matches Some(JsonValue::Array(ts))
                && exists|j: int|
                0 <= j < ts@.len() && describes(
                    match json_get(ps@[p], "name"@) {
                        Some(JsonValue::Str(n)) => n@,
                        _ => Seq::empty(),
                    },
                    #[trigger] ts@[j],
                    r,
                )),
{
    let ps = json_array(json_get(meta, "packages"@)).unwrap();
    let all = ps.map_values(|p: JsonValue| package_targets(p));
    lemma_concat_all_member(all, r);
    let p = choose|p: int| 0 <= p < all.len() && (#[trigger] all[p]).contains(r);
    let pk = ps[p];
    assert(all[p] == package_targets(pk));
    let name = match json_str(json_get(pk, "name"@)) {
        Some(n) => n,
        None => Seq::empty(),
    };
    let ts = json_array(json_get(pk, "targets"@)).unwrap();
    let f = |t: JsonValue| target_entry(name, t);
    assert(package_targets(pk) == ts.filter_map(f));
    ts.lemma_filter_map_contains(f, r);
    let t = choose|t: JsonValue| #[trigger] ts.contains(t) && f(t) == Some(r);
    let j = choose|j: int| 0 <= j < ts.len() && ts[j] == t;
    law_target_kind_follows_kind_list(t);
    assert(describes(name, ts[j], r));
}

fn json_member<'a>(v: &'a JsonValue, key: &str) -> (res: Option<&'a JsonValue>)
    ensures
        match res {
            Some(r) => json_get(*v, key@) == Some(*r),
            None => json_get(*v, key@) is None,
        },
{
    match v {
        JsonValue::Object(es) => {
            let k = chars_of(key);
            let mut i: usize = 0;
            assert(es@.skip(0) =~= es@);
            while i < es.len()
                invariant
                    0 <= i <= es@.len(),
                    k@ == key@,
                    *v == JsonValue::Object(*es),
                    members_lookup(es@, key@) == members_lookup(es@.skip(i as int), key@),
                decreases es.len() - i,
            {
                assert(es@.skip(i as int).drop_first() =~= es@.skip(i + 1));
                if chars_equal(&chars_of(es[i].0.as_str()), &k) {
                    assert(es@.skip(i as int)[0] == es@[i as int]);
                    assert(es@[i as int].0@ == key@);
                    assert(members_lookup(es@.skip(i as int), key@) == Some(es@[i as int].1));
                    assert(json_get(*v, key@) == Some(es@[i as int].1));
                    return Some(&es[i].1);
                }
                i += 1;
            }
            None
        },
        _ => None,
    }
}

fn json_as_str(v: Option<&JsonValue>) -> (res: Option<&String>)
    ensures
        match res {
            Some(s) => json_str(match v { Some(x) => Some(*x), None => None }) == Some(s@),
            None => json_str(match v { Some(x) => Some(*x), None => None }) is None,
        },
{
    match v {
        Some(JsonValue::Str(s)) => Some(s),
        _ => None,
    }
}

fn json_as_array(v: Option<&JsonValue>) -> (res: Option<&Vec<JsonValue>>)
    ensures
        match res {
            Some(a) => json_array(match v { Some(x) => Some(*x), None => None }) == Some(a@),
            None => json_array(match v { Some(x) => Some(*x), None => None }) is None,
        },
{
    match v {
        Some(JsonValue::Array(a)) => Some(a),
        _ => None,
    }
}

fn contains_str(ks: &Vec<JsonValue>, name: &str) -> (res: bool)
    ensures
        res == has_str(ks@, name@),
{
    let n = chars_of(name);
    let mut i: usize = 0;
    while i < ks.len()
        invariant
            0 <= i <= ks@.len(),
            n@ == name@,
            forall|j: int| 0 <= j < i ==> json_str(Some(#[trigger] ks@[j])) != Some(name@),
        decreases ks.len() - i,
    {
        if let JsonValue::Str(s) = &ks[i] {
            if chars_equal(&chars_of(s.as_str()), &n) {
                assert(json_str(Some(ks@[i as int])) == Some(name@));
                return true;
            }
        }
        i += 1;
    }
    false
}

fn kind_of_target(t: &JsonValue) -> (res: Option<RunKind>)
    ensures
        res == target_kind(*t),
{
    match json_as_array(json_member(t, "kind")) {
        Some(ks) => if contains_str(ks, "bin") {
            Some(RunKind::Bin)
        } else if contains_str(ks, "example") {
            Some(RunKind::Example)
        } else {
            None
        },
        None => None,
    }
}

/// The runnable targets (binaries and examples) of every package that
/// `cargo metadata` lists, in the order it lists them. A document without a
/// `packages` array yields none; a package without a name gets an empty one;
/// a package without a `targets` array, and a target without a name or with no
/// runnable kind, are skipped.
pub fn metadata_run_targets(meta: &JsonValue) -> (res: Vec<RunTarget>)
    ensures
        res@.map_values(|t: RunTarget| t@) == metadata_targets(*meta),
{
    let mut out: Vec<RunTarget> = Vec::new();
    let pkgs = match json_as_array(json_member(meta, "packages")) {
        Some(ps) => ps,
        None => {
            assert(out@.map_values(|t: RunTarget| t@) =~= Seq::empty());
            return out;
        },
    };
    let ghost all = pkgs@.map_values(|p: JsonValue| package_targets(p));
    let mut i: usize = 0;
    while i < pkgs.len()
        invariant
            0 <= i <= pkgs@.len(),
            all == pkgs@.map_values(|p: JsonValue| package_targets(p)),
            out@.map_values(|t: RunTarget| t@) == concat_all(all.take(i as int)),
        decreases pkgs.len() - i,
    {
        let pkg = &pkgs[i];
        let pkg_name: String = match json_as_str(json_member(pkg, "name")) {
            Some(n) => n.clone(),
            None => String::new(),
        };
        let ghost start = out@.map_values(|t: RunTarget| t@);
        let ghost f = |t: JsonValue| target_entry(pkg_name@, t);
        if let Some(ts) = json_as_array(json_member(pkg, "targets")) {
            let mut j: usize = 0;
            while j < ts.len()
                invariant
                    0 <= j <= ts@.len(),
                    f == (|t: JsonValue| target_entry(pkg_name@, t)),
                    out@.map_values(|t: RunTarget| t@) == start + ts@.take(j as int).filter_map(f),
                decreases ts.len() - j,
            {
                assert(ts@.take(j + 1).drop_last() =~= ts@.take(j as int));
                assert(ts@.take(j + 1).last() == ts@[j as int]);
                let ghost prev = ts@.take(j as int).filter_map(f);
                let ghost out_before = out@;
                let t = &ts[j];
                let kind = kind_of_target(t);
                let name = json_as_str(json_member(t, "name"));
                match (kind, name) {
                    (Some(k), Some(n)) => {
                        out.push(RunTarget { package: pkg_name.clone(), name: n.clone(), kind: k });
                        assert(f(ts@[j as int]) == Some((pkg_name@, n@, k)));
                        assert(out@.map_values(|t: RunTarget| t@) =~= out_before.map_values(|t: RunTarget| t@).push((pkg_name@, n@, k)));
                        assert(ts@.take(j + 1).filter_map(f) == prev + seq![(pkg_name@, n@, k)]);
                    },
                    _ => {
                        assert(f(ts@[j as int]) is None);
                        assert(ts@.take(j + 1).filter_map(f) == prev);
                    },
                }
                j += 1;
                assert(out@.map_values(|t: RunTarget| t@) =~= start + ts@.take(j as int).filter_map(f));
            }
            assert(ts@.take(ts@.len() as int) =~= ts@);
        }
        assert(all.take(i + 1).drop_last() =~= all.take(i as int));
        assert(package_targets(pkgs@[i as int]) == all[i as int]);
        i += 1;
        assert(out@.map_values(|t: RunTarget| t@) =~= concat_all(all.take(i as int)));
    }
    assert(all.take(pkgs@.len() as int) =~= all);
    out
}

/// A JSON document as `serde_json` parses it; the library reads it only as a `JsonValue`.
#[verifier::external_type_specification]
#[verifier::external_body]
pub struct ExSerdeJsonValue(serde_json::Value);

/// What `serde_json::from_slice::<serde_json::Value>` makes of these bytes, taken
/// one for one as a `JsonValue`; `None` where the bytes are not a JSON document.
pub uninterp spec fn json_of(bytes: Seq<u8>) -> Option<JsonValue>;

/// `serde_json::Value` taken one for one as a `JsonValue`: each variant to the
/// variant of the same name, numbers to the bare marker, members in the order the
/// parsed value lists them.
#[verifier::external_body]
fn json_value(v: serde_json::Value) -> JsonValue {
    match v {
        serde_json::Value::Null => JsonValue::Null,
        serde_json::Value::Bool(b) => JsonValue::Bool(b),
        serde_json::Value::Number(_) => JsonValue::Number,
        serde_json::Value::String(s) => JsonValue::Str(s),
        serde_json::Value::Array(a) => JsonValue::Array(a.into_iter().map(json_value).collect()),
        serde_json::Value::Object(m) => JsonValue::Object(m.into_iter().map(|(k, v)| (k, json_value(v))).collect()),
    }
}

/// `serde_json::from_slice::<serde_json::Value>`, its result taken as a
/// `JsonValue` (`None` for a parse error). The result is named by `json_of`: it
/// depends on the bytes alone; what the JSON grammar makes of them is not
/// spelled out here.
#[verifier::external_body]
pub fn parse_json(bytes: &[u8]) -> (res: Option<JsonValue>)
    ensures
        res == json_of(bytes@),
{
    serde_json::from_slice::<serde_json::Value>(bytes).ok().map(json_value)
}

/// The runnable targets that the output of `cargo metadata` lists: those of the
/// JSON document it holds, or none when it holds no JSON document.
pub fn metadata_output_targets(stdout: &[u8]) -> (res: Vec<RunTarget>)
    ensures
        res@.map_values(|t: RunTarget| t@) == match json_of(stdout@) {
            Some(v) => metadata_targets(v),
            None => Seq::empty(),
        },
{
    match parse_json(stdout) {
        Some(v) => metadata_run_targets(&v),
        None => {
            let res: Vec<RunTarget> = Vec::new();
            assert(res@.map_values(|t: RunTarget| t@) =~= Seq::empty());
            res
        },
    }
}

// ── Finding the project root ─────────────────────────────────

/// One step of the walk up from the start directory to the project root.
#[derive(Debug)]
pub enum RootStep {
    /// This directory holds the manifest: it is the root.
    Found(PathBuf),
    /// It does not; look in its parent next.
    Up(PathBuf),
    /// It does not, and it has no parent: there is no project here.
    NotFound,
}

/// What the walk up to the project root does at `dir`, given whether `dir`
/// holds a `Cargo.toml` and what its parent directory is: stop there if it
/// holds one, otherwise go on to the parent, or give up at the top of the file
/// system where there is no parent.
pub fn root_step(dir: PathBuf, has_manifest: bool, parent: Option<PathBuf>) -> (res: RootStep)
    ensures
        res == if has_manifest {
            RootStep::Found(dir)
        } else {
            match parent {
                Some(p) => RootStep::Up(p),
                None => RootStep::NotFound,
            }
        },
{
    if has_manifest {
        return RootStep::Found(dir);
    }
    match parent {
        Some(p) => RootStep::Up(p),
        None => RootStep::NotFound,
    }
}

/// The project's name: the package name from the manifest, or else the name of
/// the directory that holds it.
pub open spec fn project_name(m: Manifest, dir_name: Seq<char>) -> Seq<char> {
    match m.package_name {
        Some(n) => n@,
        None => dir_name,
    }
}

/// Assembles what the front end knows about a project from its manifest, the
/// name of its directory, its location and its runnable targets.
pub fn workspace_info(m: &Manifest, dir_name: String, root: PathBuf, targets: Vec<RunTarget>) -> (res: WorkspaceInfo)
    ensures
        res.name@ == project_name(*m, dir_name@),
        res.root == root,
        res.targets == targets,
        res.deps@.map_values(|x: Dep| x@) == stable_sorted(declared_deps(*m)),
        deps_sorted(res.deps@.map_values(|x: Dep| x@)),
        res.deps@.map_values(|x: Dep| x@).to_multiset() == declared_deps(*m).to_multiset(),
        manifest_names_distinct(*m) ==> deps_strictly_sorted(res.deps@.map_values(|x: Dep| x@)),
{
    let name = match &m.package_name {
        Some(n) => n.clone(),
        None => dir_name,
    };
    WorkspaceInfo { name, root, deps: manifest_deps(m), targets }
}

} // verus!
