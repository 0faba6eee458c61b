//! The in-memory package registry: a mapping from package name to installed
//! package record. A registry is loaded from, and flushed back to, one
//! backing file by the embedding program; between load and flush every
//! operation here is purely in memory.

use vstd::prelude::*;
use vstd::string::{StrSliceExecFns, StringExecFns};
use crate::backends::{BackendConfig, BackendConfigView, DockerConfig, DockerConfigView};
use crate::format::{
    drop_blanks, key_backend, key_commit, key_dockerfile, key_max_replica, key_path, key_protocol,
    key_scoped, key_url, line_wf, non_blank, parse_doc, parse_doc_lines, parse_rows, print_lines,
    print_lines_string, split_lines, word_docker, word_local, word_mcp, Line, LineView, Value,
    ValueView, lemma_doc_round_trip,
};
use crate::text::{commit_id_seq, hex_digit, is_commit_id, str_eq, value_char, value_str_ok};
use crate::types::{
    package_wf, EndpointConfig, EndpointConfigView, Package, PackageConfig, PackageConfigView,
    PackageView, Protocol,
};

verus! {

/// The mapping a sequence of package records denotes: later records win,
/// though a well-formed registry never holds two records of one name.
pub open spec fn seq_to_map(s: Seq<PackageView>) -> Map<Seq<char>, PackageView>
    decreases s.len(),
{
    if s.len() == 0 {
        Map::empty()
    } else {
        seq_to_map(s.drop_last()).insert(s.last().name, s.last())
    }
}

/// Well-formedness of a registry's record sequence: every record is
/// well-formed and no name occurs twice.
pub open spec fn registry_entries_wf(s: Seq<PackageView>) -> bool {
    &&& forall|i: int| 0 <= i < s.len() ==> package_wf(#[trigger] s[i])
    &&& forall|i: int, j: int| 0 <= i < j < s.len() ==> s[i].name != s[j].name
}

/// A name is in the denoted mapping exactly when some record bears it.
pub proof fn lemma_seq_to_map_domain(s: Seq<PackageView>)
    ensures
        forall|n: Seq<char>|
            #[trigger] seq_to_map(s).contains_key(n) <==> exists|i: int|
                0 <= i < s.len() && #[trigger] s[i].name == n,
    decreases s.len(),
{
    if s.len() > 0 {
        let dl = s.drop_last();
        lemma_seq_to_map_domain(dl);
        assert(seq_to_map(s) == seq_to_map(dl).insert(s.last().name, s.last()));
        assert forall|n: Seq<char>| #[trigger] seq_to_map(s).contains_key(n) implies exists|i: int|
            0 <= i < s.len() && #[trigger] s[i].name == n by {
            if n == s.last().name {
                assert(s[s.len() - 1].name == n);
            } else {
                assert(seq_to_map(dl).contains_key(n));
                let i = choose|i: int| 0 <= i < dl.len() && #[trigger] dl[i].name == n;
                assert(dl[i] == s[i]);
                assert(s[i].name == n);
            }
        }
        assert forall|n: Seq<char>| (exists|i: int| 0 <= i < s.len() && #[trigger] s[i].name == n)
            implies #[trigger] seq_to_map(s).contains_key(n) by {
            let i = choose|i: int| 0 <= i < s.len() && #[trigger] s[i].name == n;
            if i < s.len() - 1 {
                assert(dl[i] == s[i]);
                assert(dl[i].name == n);
                assert(seq_to_map(dl).contains_key(n));
            }
        }
    }
}

/// With unique names, the mapping sends each record's name to that record.
pub proof fn lemma_seq_to_map_index(s: Seq<PackageView>, i: int)
    requires
        forall|k: int, j: int| 0 <= k < j < s.len() ==> s[k].name != s[j].name,
        0 <= i < s.len(),
    ensures
        seq_to_map(s).contains_key(s[i].name),
        seq_to_map(s)[s[i].name] == s[i],
    decreases s.len(),
{
    if i < s.len() - 1 {
        lemma_seq_to_map_index(s.drop_last(), i);
        assert(s.drop_last()[i] == s[i]);
        assert(s[i].name != s.last().name);
    }
}

/// Removing record `i` removes exactly its name from the denoted mapping.
pub proof fn lemma_seq_to_map_remove(s: Seq<PackageView>, i: int)
    requires
        forall|k: int, j: int| 0 <= k < j < s.len() ==> s[k].name != s[j].name,
        0 <= i < s.len(),
    ensures
        seq_to_map(s.remove(i)) == seq_to_map(s).remove(s[i].name),
    decreases s.len(),
{
    if i == s.len() - 1 {
        assert(s.remove(i) =~= s.drop_last());
        lemma_seq_to_map_domain(s.drop_last());
        assert forall|j: int| 0 <= j < s.drop_last().len() implies s.drop_last()[j].name != s[i].name by {
            assert(s.drop_last()[j] == s[j]);
        }
        assert(!seq_to_map(s.drop_last()).contains_key(s[i].name));
        assert(seq_to_map(s).remove(s[i].name) =~= seq_to_map(s.drop_last()));
    } else {
        let t = s.remove(i);
        assert(t.len() == s.len() - 1);
        assert(t.last() == s.last());
        assert(t.drop_last() =~= s.drop_last().remove(i));
        lemma_seq_to_map_remove(s.drop_last(), i);
        assert(s.drop_last()[i] == s[i]);
        assert(s[i].name != s.last().name);
        assert(seq_to_map(t) == seq_to_map(s.drop_last()).remove(s[i].name).insert(
            s.last().name,
            s.last(),
        ));
        assert(seq_to_map(s.drop_last()).remove(s[i].name).insert(s.last().name, s.last()) =~= seq_to_map(
            s.drop_last(),
        ).insert(s.last().name, s.last()).remove(s[i].name));
    }
}

/// Appending a record inserts its name into the denoted mapping.
pub proof fn lemma_seq_to_map_push(s: Seq<PackageView>, p: PackageView)
    ensures
        seq_to_map(s.push(p)) == seq_to_map(s).insert(p.name, p),
{
    assert(s.push(p).drop_last() =~= s);
    assert(s.push(p).last() == p);
}

/// The durable mapping from package name to installed package record,
/// held in memory between one load and one flush of the backing file.
#[derive(Debug)]
pub struct PackageMap {
    entries: Vec<Package>,
}

impl View for PackageMap {
    type V = Map<Seq<char>, PackageView>;

    open spec fn view(&self) -> Map<Seq<char>, PackageView> {
        seq_to_map(self.entries_view())
    }
}

impl PackageMap {
    /// The record sequence in storage order: what the backing file holds.
    pub closed spec fn entries_view(&self) -> Seq<PackageView> {
        self.entries@.map_values(|p: Package| p@)
    }

    pub open spec fn wf(&self) -> bool {
        registry_entries_wf(self.entries_view())
    }

    /// An empty registry: no package is installed.
    pub fn new() -> (r: Self)
        ensures
            r@ == Map::<Seq<char>, PackageView>::empty(),
            r.wf(),
            r.entries_view() == Seq::<PackageView>::empty(),
    {
        let r = Self { entries: Vec::new() };
        proof {
            assert(r.entries_view() =~= Seq::<PackageView>::empty());
        }
        r
    }

    pub(crate) fn from_entries(entries: Vec<Package>) -> (r: Self)
        requires
            registry_entries_wf(entries@.map_values(|p: Package| p@)),
        ensures
            r.wf(),
            r.entries_view() == entries@.map_values(|p: Package| p@),
    {
        Self { entries }
    }

    pub(crate) fn entries(&self) -> (r: &Vec<Package>)
        ensures
            r@.map_values(|p: Package| p@) == self.entries_view(),
    {
        &self.entries
    }

    /// The index of the record named `name`, if any.
    fn find(&self, name: &str) -> (r: Option<usize>)
        ensures
            match r {
                Some(i) => i < self.entries_view().len() && self.entries_view()[i as int].name
                    == name@,
                None => forall|i: int|
                    0 <= i < self.entries_view().len() ==> (#[trigger] self.entries_view()[i]).name
                        != name@,
            },
    {
        let n = self.entries.len();
        let mut i: usize = 0;
        while i < n
            invariant
                n == self.entries@.len(),
                0 <= i <= n,
                self.entries_view().len() == n,
                forall|j: int|
                    0 <= j < i ==> (#[trigger] self.entries_view()[j]).name != name@,
            decreases n - i,
        {
            if str_eq(self.entries[i].name().as_str(), name) {
                assert(self.entries_view()[i as int].name == name@);
                return Some(i);
            }
            assert(self.entries_view()[i as int].name != name@);
            i += 1;
        }
        None
    }

    /// Whether a package of this name is installed.
    pub fn contains(&self, name: &str) -> (r: bool)
        ensures
            r == self@.contains_key(name@),
    {
        proof {
            lemma_seq_to_map_domain(self.entries_view());
        }
        match self.find(name) {
            Some(_) => true,
            None => false,
        }
    }

    /// The installed record of this name, if any.
    pub fn get(&self, name: &str) -> (r: Option<&Package>)
        requires
            self.wf(),
        ensures
            match r {
                Some(p) => self@.contains_key(name@) && p@ == self@[name@],
                None => !self@.contains_key(name@),
            },
    {
        proof {
            lemma_seq_to_map_domain(self.entries_view());
        }
        match self.find(name) {
            Some(i) => {
                proof {
                    lemma_seq_to_map_index(self.entries_view(), i as int);
                }
                Some(&self.entries[i])
            },
            None => None,
        }
    }

    /// Install or replace a record, purely in memory; the previous record of
    /// the same name, if any, is handed back.
    pub fn add(&mut self, package: Package) -> (r: Option<Package>)
        requires
            old(self).wf(),
            package_wf(package@),
        ensures
            final(self).wf(),
            final(self)@ == old(self)@.insert(package@.name, package@),
            match r {
                Some(p) => old(self)@.contains_key(package@.name) && p@ == old(self)@[package@.name],
                None => !old(self)@.contains_key(package@.name),
            },
    {
        proof {
            lemma_seq_to_map_domain(self.entries_view());
        }
        let ghost s0 = self.entries_view();
        match self.find(package.name().as_str()) {
            Some(i) => {
                proof {
                    lemma_seq_to_map_index(s0, i as int);
                    lemma_seq_to_map_remove(s0, i as int);
                }
                let prev = self.entries.remove(i);
                let ghost s1 = self.entries_view();
                proof {
                    assert(s1 =~= s0.remove(i as int));
                    lemma_seq_to_map_push(s1, package@);
                }
                self.entries.push(package);
                proof {
                    assert(self.entries_view() =~= s1.push(package@));
                    assert(self@ =~= old(self)@.insert(package@.name, package@));
                    assert forall|k: int, j: int|
                        0 <= k < j < self.entries_view().len() implies self.entries_view()[k].name
                        != self.entries_view()[j].name by {
                        if j < self.entries_view().len() - 1 {
                            assert(s1[k] == if k < i { s0[k] } else { s0[k + 1] });
                        } else {
                            assert(self.entries_view()[k] == s1[k]);
                        }
                    }
                }
                Some(prev)
            },
            None => {
                proof {
                    lemma_seq_to_map_push(s0, package@);
                }
                self.entries.push(package);
                proof {
                    assert(self.entries_view() =~= s0.push(package@));
                }
                None
            },
        }
    }

    /// Uninstall a record, purely in memory; the removed record, if any, is
    /// handed back.
    pub fn remove(&mut self, name: &str) -> (r: Option<Package>)
        requires
            old(self).wf(),
        ensures
            final(self).wf(),
            final(self)@ == old(self)@.remove(name@),
            match r {
                Some(p) => old(self)@.contains_key(name@) && p@ == old(self)@[name@],
                None => !old(self)@.contains_key(name@) && final(self)@ == old(self)@,
            },
    {
        proof {
            lemma_seq_to_map_domain(self.entries_view());
        }
        let ghost s0 = self.entries_view();
        match self.find(name) {
            Some(i) => {
                proof {
                    lemma_seq_to_map_index(s0, i as int);
                    lemma_seq_to_map_remove(s0, i as int);
                }
                let prev = self.entries.remove(i);
                proof {
                    assert(self.entries_view() =~= s0.remove(i as int));
                }
                Some(prev)
            },
            None => {
                proof {
                    assert(self@.remove(name@) =~= self@);
                }
                None
            },
        }
    }
}

/// The two lines an endpoint serializes to.
pub open spec fn endpoint_lines(e: EndpointConfigView) -> Seq<LineView> {
    seq![
        LineView::Entry(key_path(), ValueView::Text(e.path)),
        LineView::Entry(key_protocol(), ValueView::Text(word_mcp())),
    ]
}

/// The lines a backend configuration serializes to.
pub open spec fn backend_lines(b: BackendConfigView) -> Seq<LineView> {
    match b {
        BackendConfigView::Local => seq![
            LineView::Entry(key_backend(), ValueView::Text(word_local())),
        ],
        BackendConfigView::Docker(d) => seq![
            LineView::Entry(key_backend(), ValueView::Text(word_docker())),
            LineView::Entry(key_dockerfile(), ValueView::Text(d.dockerfile)),
            LineView::Entry(key_scoped(), ValueView::Flag(d.scoped)),
            LineView::Entry(key_max_replica(), ValueView::Int(d.max_replica)),
        ],
    }
}

/// The block of lines one package record serializes to: a header bearing its
/// name, then its fields in canonical order.
pub open spec fn package_lines(p: PackageView) -> Seq<LineView> {
    seq![
        LineView::Header(p.name),
        LineView::Entry(key_url(), ValueView::Text(p.url)),
        LineView::Entry(key_commit(), ValueView::Text(p.commit)),
    ] + backend_lines(p.config.backend) + endpoint_lines(p.config.endpoint)
}

/// The lines of a whole registry: one block per record, in storage order.
pub open spec fn registry_lines(ps: Seq<PackageView>) -> Seq<LineView>
    decreases ps.len(),
{
    if ps.len() == 0 {
        Seq::empty()
    } else {
        package_lines(ps[0]) + registry_lines(ps.skip(1))
    }
}

/// The canonical text of a registry.
pub open spec fn registry_text(ps: Seq<PackageView>) -> Seq<char> {
    print_lines(registry_lines(ps))
}

/// Read an endpoint out of two lines starting at `i`.
pub open spec fn try_endpoint_at(ls: Seq<LineView>, i: int) -> Option<EndpointConfigView> {
    if 0 <= i && i + 2 <= ls.len() {
        match (ls[i], ls[i + 1]) {
            (LineView::Entry(k1, ValueView::Text(pth)), LineView::Entry(k2, ValueView::Text(w))) => {
                if k1 == key_path() && k2 == key_protocol() && w == word_mcp() {
                    Some(EndpointConfigView { path: pth, protocol: Protocol::MCP })
                } else {
                    None
                }
            },
            _ => None,
        }
    } else {
        None
    }
}

/// Read one package block from the front of `ls`: the record and how many
/// lines it spans.
pub open spec fn try_package(ls: Seq<LineView>) -> Option<(PackageView, int)> {
    if ls.len() >= 4 {
        match (ls[0], ls[1], ls[2], ls[3]) {
            (
                LineView::Header(n),
                LineView::Entry(k1, ValueView::Text(u)),
                LineView::Entry(k2, ValueView::Text(c)),
                LineView::Entry(k3, ValueView::Text(b)),
            ) => {
                if k1 == key_url() && k2 == key_commit() && k3 == key_backend() && u.len() > 0
                    && commit_id_seq(c) {
                    if b == word_local() {
                        match try_endpoint_at(ls, 4) {
                            Some(e) => Some(
                                (
                                    PackageView {
                                        name: n,
                                        url: u,
                                        commit: c,
                                        config: PackageConfigView {
                                            backend: BackendConfigView::Local,
                                            endpoint: e,
                                        },
                                    },
                                    6,
                                ),
                            ),
                            None => None,
                        }
                    } else if b == word_docker() {
                        if ls.len() >= 7 {
                            match (ls[4], ls[5], ls[6]) {
                                (
                                    LineView::Entry(k4, ValueView::Text(df)),
                                    LineView::Entry(k5, ValueView::Flag(sc)),
                                    LineView::Entry(k6, ValueView::Int(mr)),
                                ) => {
                                    if k4 == key_dockerfile() && k5 == key_scoped() && k6
                                        == key_max_replica() && mr >= 1 {
                                        match try_endpoint_at(ls, 7) {
                                            Some(e) => Some(
                                                (
                                                    PackageView {
                                                        name: n,
                                                        url: u,
                                                        commit: c,
                                                        config: PackageConfigView {
                                                            backend: BackendConfigView::Docker(
                                                                DockerConfigView {
                                                                    dockerfile: df,
                                                                    scoped: sc,
                                                                    max_replica: mr,
                                                                },
                                                            ),
                                                            endpoint: e,
                                                        },
                                                    },
                                                    9,
                                                ),
                                            ),
                                            None => None,
                                        }
                                    } else {
                                        None
                                    }
                                },
                                _ => None,
                            }
                        } else {
                            None
                        }
                    } else {
                        None
                    }
                } else {
                    None
                }
            },
            _ => None,
        }
    } else {
        None
    }
}

/// Read all package blocks.
pub open spec fn parse_packages(ls: Seq<LineView>) -> Option<Seq<PackageView>>
    decreases ls.len(),
{
    if ls.len() == 0 {
        Some(Seq::empty())
    } else {
        match try_package(ls) {
            Some((p, k)) => {
                if 1 <= k <= ls.len() {
                    match parse_packages(ls.skip(k)) {
                        Some(t) => Some(seq![p] + t),
                        None => None,
                    }
                } else {
                    None
                }
            },
            None => None,
        }
    }
}

pub open spec fn unique_names(ps: Seq<PackageView>) -> bool {
    forall|i: int, j: int| 0 <= i < j < ps.len() ==> ps[i].name != ps[j].name
}

/// What a registry file's text denotes: its records, in file order, names
/// unique.
pub open spec fn parse_registry_spec(text: Seq<char>) -> Option<Seq<PackageView>> {
    match parse_doc(text) {
        Some(ls) => match parse_packages(non_blank(ls)) {
            Some(ps) => if unique_names(ps) {
                Some(ps)
            } else {
                None
            },
            None => None,
        },
        None => None,
    }
}

/// Every line of a well-formed record's block may be printed canonically.
proof fn lemma_package_lines_wf(p: PackageView)
    requires
        package_wf(p),
    ensures
        forall|i: int|
            0 <= i < package_lines(p).len() ==> line_wf(#[trigger] package_lines(p)[i]) && !(
            package_lines(p)[i] is Blank),
{
    assert forall|c: char| hex_digit(c) implies value_char(c) by {}
    assert(value_str_ok(p.commit)) by {
        assert(forall|i: int| 0 <= i < p.commit.len() ==> value_char(#[trigger] p.commit[i]));
    }
    let ls = package_lines(p);
    assert forall|i: int| 0 <= i < ls.len() implies line_wf(#[trigger] ls[i]) && !(ls[i] is Blank) by {
        match p.config.backend {
            BackendConfigView::Local => {
                assert(ls[0] == LineView::Header(p.name));
                assert(ls[1] == LineView::Entry(key_url(), ValueView::Text(p.url)));
                assert(ls[2] == LineView::Entry(key_commit(), ValueView::Text(p.commit)));
                assert(ls[3] == LineView::Entry(key_backend(), ValueView::Text(word_local())));
                assert(ls[4] == LineView::Entry(key_path(), ValueView::Text(p.config.endpoint.path)));
                assert(ls[5] == LineView::Entry(key_protocol(), ValueView::Text(word_mcp())));
            },
            BackendConfigView::Docker(d) => {
                assert(ls[0] == LineView::Header(p.name));
                assert(ls[1] == LineView::Entry(key_url(), ValueView::Text(p.url)));
                assert(ls[2] == LineView::Entry(key_commit(), ValueView::Text(p.commit)));
                assert(ls[3] == LineView::Entry(key_backend(), ValueView::Text(word_docker())));
                assert(ls[4] == LineView::Entry(key_dockerfile(), ValueView::Text(d.dockerfile)));
                assert(ls[5] == LineView::Entry(key_scoped(), ValueView::Flag(d.scoped)));
                assert(ls[6] == LineView::Entry(key_max_replica(), ValueView::Int(d.max_replica)));
                assert(ls[7] == LineView::Entry(key_path(), ValueView::Text(p.config.endpoint.path)));
                assert(ls[8] == LineView::Entry(key_protocol(), ValueView::Text(word_mcp())));
            },
        }
    }
}

/// Every line of a well-formed registry's text may be printed canonically.
proof fn lemma_registry_lines_wf(ps: Seq<PackageView>)
    requires
        forall|i: int| 0 <= i < ps.len() ==> package_wf(#[trigger] ps[i]),
    ensures
        forall|i: int|
            0 <= i < registry_lines(ps).len() ==> line_wf(#[trigger] registry_lines(ps)[i]) && !(
            registry_lines(ps)[i] is Blank),
    decreases ps.len(),
{
    if ps.len() > 0 {
        lemma_package_lines_wf(ps[0]);
        assert forall|i: int| 0 <= i < ps.skip(1).len() implies package_wf(
            #[trigger] ps.skip(1)[i],
        ) by {
            assert(ps.skip(1)[i] == ps[i + 1]);
        }
        lemma_registry_lines_wf(ps.skip(1));
        let ls = registry_lines(ps);
        let a = package_lines(ps[0]);
        let b = registry_lines(ps.skip(1));
        assert forall|i: int| 0 <= i < ls.len() implies line_wf(#[trigger] ls[i]) && !(ls[i]
            is Blank) by {
            if i < a.len() {
                assert(ls[i] == a[i]);
            } else {
                assert(ls[i] == b[i - a.len()]);
            }
        }
    }
}

/// The parser reads one printed block back as the record it printed.
proof fn lemma_try_package_of_lines(p: PackageView, rest: Seq<LineView>)
    requires
        package_wf(p),
    ensures
        try_package(package_lines(p) + rest) == Some((p, package_lines(p).len() as int)),
{
    let a = package_lines(p);
    let ls = a + rest;
    assert forall|i: int| 0 <= i < a.len() implies ls[i] == a[i] by {}
    match p.config.backend {
        BackendConfigView::Local => {
            assert(a.len() == 6);
            assert(ls[0] == LineView::Header(p.name));
            assert(ls[1] == LineView::Entry(key_url(), ValueView::Text(p.url)));
            assert(ls[2] == LineView::Entry(key_commit(), ValueView::Text(p.commit)));
            assert(ls[3] == LineView::Entry(key_backend(), ValueView::Text(word_local())));
            assert(ls[4] == LineView::Entry(key_path(), ValueView::Text(p.config.endpoint.path)));
            assert(ls[5] == LineView::Entry(key_protocol(), ValueView::Text(word_mcp())));
            assert(word_local() != word_docker());
            assert(try_endpoint_at(ls, 4) == Some(p.config.endpoint));
        },
        BackendConfigView::Docker(d) => {
            assert(a.len() == 9);
            assert(ls[0] == LineView::Header(p.name));
            assert(ls[1] == LineView::Entry(key_url(), ValueView::Text(p.url)));
            assert(ls[2] == LineView::Entry(key_commit(), ValueView::Text(p.commit)));
            assert(ls[3] == LineView::Entry(key_backend(), ValueView::Text(word_docker())));
            assert(ls[4] == LineView::Entry(key_dockerfile(), ValueView::Text(d.dockerfile)));
            assert(ls[5] == LineView::Entry(key_scoped(), ValueView::Flag(d.scoped)));
            assert(ls[6] == LineView::Entry(key_max_replica(), ValueView::Int(d.max_replica)));
            assert(ls[7] == LineView::Entry(key_path(), ValueView::Text(p.config.endpoint.path)));
            assert(ls[8] == LineView::Entry(key_protocol(), ValueView::Text(word_mcp())));
            assert(word_docker() != word_local());
            assert(try_endpoint_at(ls, 7) == Some(p.config.endpoint));
        },
    }
}

/// The parser reads a printed registry's lines back as its records.
proof fn lemma_parse_packages_of_registry(ps: Seq<PackageView>)
    requires
        forall|i: int| 0 <= i < ps.len() ==> package_wf(#[trigger] ps[i]),
    ensures
        parse_packages(registry_lines(ps)) == Some(ps),
    decreases ps.len(),
{
    if ps.len() == 0 {
        assert(registry_lines(ps) =~= Seq::<LineView>::empty());
    } else {
        let a = package_lines(ps[0]);
        let rest = registry_lines(ps.skip(1));
        let ls = registry_lines(ps);
        assert(ls == a + rest);
        lemma_try_package_of_lines(ps[0], rest);
        assert(try_package(ls) == Some((ps[0], a.len() as int)));
        assert(ls.skip(a.len() as int) =~= rest);
        assert forall|i: int| 0 <= i < ps.skip(1).len() implies package_wf(
            #[trigger] ps.skip(1)[i],
        ) by {
            assert(ps.skip(1)[i] == ps[i + 1]);
        }
        lemma_parse_packages_of_registry(ps.skip(1));
        assert(seq![ps[0]] + ps.skip(1) =~= ps);
    }
}

/// Blocks serialize record by record.
proof fn lemma_registry_lines_concat(a: Seq<PackageView>, b: Seq<PackageView>)
    ensures
        registry_lines(a + b) == registry_lines(a) + registry_lines(b),
    decreases a.len(),
{
    if a.len() == 0 {
        assert(a + b =~= b);
        assert(registry_lines(a) =~= Seq::<LineView>::empty());
        assert(Seq::<LineView>::empty() + registry_lines(b) =~= registry_lines(b));
    } else {
        assert((a + b)[0] == a[0]);
        assert((a + b).skip(1) =~= a.skip(1) + b);
        lemma_registry_lines_concat(a.skip(1), b);
        assert(package_lines(a[0]) + (registry_lines(a.skip(1)) + registry_lines(b)) =~= (
        package_lines(a[0]) + registry_lines(a.skip(1))) + registry_lines(b));
    }
}

/// One more record appends its block.
proof fn lemma_registry_lines_snoc(ps: Seq<PackageView>, i: int)
    requires
        0 <= i < ps.len(),
    ensures
        registry_lines(ps.take(i + 1)) == registry_lines(ps.take(i)) + package_lines(ps[i]),
{
    assert(ps.take(i + 1) =~= ps.take(i) + seq![ps[i]]);
    lemma_registry_lines_concat(ps.take(i), seq![ps[i]]);
    assert(seq![ps[i]].skip(1) =~= Seq::<PackageView>::empty());
    assert(seq![ps[i]][0] == ps[i]);
    assert(registry_lines(Seq::<PackageView>::empty()) == Seq::<LineView>::empty());
    assert(registry_lines(seq![ps[i]]) == package_lines(ps[i]) + Seq::<LineView>::empty());
    assert(package_lines(ps[i]) + Seq::<LineView>::empty() =~= package_lines(ps[i]));
}

/// The block of lines one record prints as.
fn package_to_lines(p: &Package) -> (r: Vec<Line>)
    ensures
        r@.map_values(|l: Line| l@) == package_lines(p@),
{
    proof {
        reveal_strlit("url");
        reveal_strlit("commit");
        reveal_strlit("backend");
        reveal_strlit("dockerfile");
        reveal_strlit("scoped");
        reveal_strlit("max_replica");
        reveal_strlit("path");
        reveal_strlit("protocol");
        reveal_strlit("Local");
        reveal_strlit("Docker");
        reveal_strlit("MCP");
        assert("url"@ =~= key_url());
        assert("commit"@ =~= key_commit());
        assert("backend"@ =~= key_backend());
        assert("dockerfile"@ =~= key_dockerfile());
        assert("scoped"@ =~= key_scoped());
        assert("max_replica"@ =~= key_max_replica());
        assert("path"@ =~= key_path());
        assert("protocol"@ =~= key_protocol());
        assert("Local"@ =~= word_local());
        assert("Docker"@ =~= word_docker());
        assert("MCP"@ =~= word_mcp());
    }
    let mut v: Vec<Line> = Vec::new();
    v.push(Line::Header(p.name().clone()));
    v.push(Line::Entry(String::from_str("url"), Value::Text(p.url().clone())));
    v.push(Line::Entry(String::from_str("commit"), Value::Text(p.commit().clone())));
    match p.config().backend() {
        BackendConfig::Local => {
            v.push(Line::Entry(String::from_str("backend"), Value::Text(String::from_str("Local"))));
        },
        BackendConfig::Docker(d) => {
            v.push(
                Line::Entry(String::from_str("backend"), Value::Text(String::from_str("Docker"))),
            );
            v.push(Line::Entry(String::from_str("dockerfile"), Value::Text(d.dockerfile().clone())));
            v.push(Line::Entry(String::from_str("scoped"), Value::Flag(d.scoped())));
            v.push(Line::Entry(String::from_str("max_replica"), Value::Int(d.max_replica())));
        },
    }
    v.push(Line::Entry(String::from_str("path"), Value::Text(p.config().endpoint().path().clone())));
    v.push(Line::Entry(String::from_str("protocol"), Value::Text(String::from_str("MCP"))));
    proof {
        match p@.config.backend {
            BackendConfigView::Local => {
                assert(v@.map_values(|l: Line| l@) =~= package_lines(p@));
            },
            BackendConfigView::Docker(d) => {
                assert(v@.map_values(|l: Line| l@) =~= package_lines(p@));
            },
        }
    }
    v
}

/// Read an endpoint out of two lines starting at `i`.
fn take_endpoint(lines: &Vec<Line>, i: usize) -> (r: Option<EndpointConfig>)
    requires
        i <= lines@.len(),
        forall|j: int| 0 <= j < lines@.len() ==> crate::format::line_sane(#[trigger] lines@[j]@),
    ensures
        match r {
            Some(e) => try_endpoint_at(lines@.map_values(|l: Line| l@), i as int) == Some(e@)
                && value_str_ok(e@.path),
            None => try_endpoint_at(lines@.map_values(|l: Line| l@), i as int) is None,
        },
{
    proof {
        reveal_strlit("path");
        reveal_strlit("protocol");
        reveal_strlit("MCP");
        assert("path"@ =~= key_path());
        assert("protocol"@ =~= key_protocol());
        assert("MCP"@ =~= word_mcp());
    }
    if lines.len() < 2 || i > lines.len() - 2 {
        return None;
    }
    let pth = match &lines[i] {
        Line::Entry(k, Value::Text(v)) => {
            if !str_eq(k.as_str(), "path") {
                return None;
            }
            proof {
                assert(crate::format::line_sane(lines@[i as int]@));
            }
            v.clone()
        },
        _ => {
            return None;
        },
    };
    match &lines[i + 1] {
        Line::Entry(k, Value::Text(w)) => {
            if !str_eq(k.as_str(), "protocol") || !str_eq(w.as_str(), "MCP") {
                return None;
            }
        },
        _ => {
            return None;
        },
    }
    Some(EndpointConfig::new(pth, Protocol::MCP))
}

/// Read one record's block starting at `i`: the record and the lines spanned.
fn take_package(lines: &Vec<Line>, i: usize) -> (r: Option<(Package, usize)>)
    requires
        i <= lines@.len(),
        forall|j: int|
            0 <= j < lines@.len() ==> crate::format::line_sane(#[trigger] lines@[j]@),
    ensures
        match r {
            Some(pk) => {
                &&& try_package(lines@.map_values(|l: Line| l@).skip(i as int)) == Some(
                    (pk.0@, pk.1 as int),
                )
                &&& package_wf(pk.0@)
                &&& 1 <= pk.1
                &&& i + pk.1 <= lines@.len()
            },
            None => try_package(lines@.map_values(|l: Line| l@).skip(i as int)) is None,
        },
{
    let ghost lv = lines@.map_values(|l: Line| l@);
    let ghost u = lv.skip(i as int);
    proof {
        reveal_strlit("url");
        reveal_strlit("commit");
        reveal_strlit("backend");
        reveal_strlit("dockerfile");
        reveal_strlit("scoped");
        reveal_strlit("max_replica");
        reveal_strlit("Local");
        reveal_strlit("Docker");
        assert("url"@ =~= key_url());
        assert("commit"@ =~= key_commit());
        assert("backend"@ =~= key_backend());
        assert("dockerfile"@ =~= key_dockerfile());
        assert("scoped"@ =~= key_scoped());
        assert("max_replica"@ =~= key_max_replica());
        assert("Local"@ =~= word_local());
        assert("Docker"@ =~= word_docker());
        assert(forall|j: int| 0 <= j < u.len() ==> #[trigger] u[j] == lv[i + j]);
    }
    let n = lines.len();
    if n - i < 4 {
        return None;
    }
    let name = match &lines[i] {
        Line::Header(nm) => nm.clone(),
        _ => {
            return None;
        },
    };
    let url = match &lines[i + 1] {
        Line::Entry(k, Value::Text(v)) => {
            if !str_eq(k.as_str(), "url") {
                return None;
            }
            v.clone()
        },
        _ => {
            return None;
        },
    };
    let commit = match &lines[i + 2] {
        Line::Entry(k, Value::Text(v)) => {
            if !str_eq(k.as_str(), "commit") {
                return None;
            }
            v.clone()
        },
        _ => {
            return None;
        },
    };
    let bword = match &lines[i + 3] {
        Line::Entry(k, Value::Text(v)) => {
            if !str_eq(k.as_str(), "backend") {
                return None;
            }
            v.clone()
        },
        _ => {
            return None;
        },
    };
    if url.as_str().is_empty() {
        return None;
    }
    if !is_commit_id(commit.as_str()) {
        return None;
    }
    if str_eq(bword.as_str(), "Local") {
        let ep = match take_endpoint(lines, i + 4) {
            Some(e) => e,
            None => {
                proof {
                    assert(try_endpoint_at(u, 4) == try_endpoint_at(lv, i + 4));
                }
                return None;
            },
        };
        proof {
            assert(try_endpoint_at(u, 4) == try_endpoint_at(lv, i + 4));
            assert(lv[i as int] == lines@[i as int]@);
            assert(crate::format::line_sane(lines@[i as int]@));
            assert(crate::format::line_sane(lines@[i + 1]@));
            assert(i + 6 <= lv.len()) by {
                if i + 6 > lv.len() {
                    assert(try_endpoint_at(lv, i + 4) is None);
                }
            }
        }
        let pkg = Package::new(
            name,
            url,
            commit,
            PackageConfig::new(BackendConfig::Local, ep),
        );
        proof {
            assert(u.len() >= 4);
            assert(u[0] == LineView::Header(pkg@.name));
            assert(u[1] == LineView::Entry(key_url(), ValueView::Text(pkg@.url)));
            assert(u[2] == LineView::Entry(key_commit(), ValueView::Text(pkg@.commit)));
            assert(u[3] == LineView::Entry(key_backend(), ValueView::Text(word_local())));
            assert(try_package(u) == Some((pkg@, 6int)));
        }
        Some((pkg, 6))
    } else if str_eq(bword.as_str(), "Docker") {
        if n - i < 7 {
            return None;
        }
        let dockerfile = match &lines[i + 4] {
            Line::Entry(k, Value::Text(v)) => {
                if !str_eq(k.as_str(), "dockerfile") {
                    return None;
                }
                v.clone()
            },
            _ => {
                return None;
            },
        };
        let scoped = match &lines[i + 5] {
            Line::Entry(k, Value::Flag(b)) => {
                if !str_eq(k.as_str(), "scoped") {
                    return None;
                }
                *b
            },
            _ => {
                return None;
            },
        };
        let max_replica = match &lines[i + 6] {
            Line::Entry(k, Value::Int(m)) => {
                if !str_eq(k.as_str(), "max_replica") {
                    return None;
                }
                *m
            },
            _ => {
                return None;
            },
        };
        if max_replica < 1 {
            return None;
        }
        let ep = match take_endpoint(lines, i + 7) {
            Some(e) => e,
            None => {
                proof {
                    assert(try_endpoint_at(u, 7) == try_endpoint_at(lv, i + 7));
                }
                return None;
            },
        };
        proof {
            assert(try_endpoint_at(u, 7) == try_endpoint_at(lv, i + 7));
            assert(lv[i as int] == lines@[i as int]@);
            assert(crate::format::line_sane(lines@[i as int]@));
            assert(crate::format::line_sane(lines@[i + 1]@));
            assert(crate::format::line_sane(lines@[i + 4]@));
            assert(i + 9 <= lv.len()) by {
                if i + 9 > lv.len() {
                    assert(try_endpoint_at(lv, i + 7) is None);
                }
            }
        }
        let pkg = Package::new(
            name,
            url,
            commit,
            PackageConfig::new(
                BackendConfig::Docker(DockerConfig::new(dockerfile, scoped, max_replica)),
                ep,
            ),
        );
        Some((pkg, 9))
    } else {
        None
    }
}

/// Whether two records share a name.
fn names_unique(entries: &Vec<Package>) -> (r: bool)
    ensures
        r == unique_names(entries@.map_values(|p: Package| p@)),
{
    let ghost pv = entries@.map_values(|p: Package| p@);
    let n = entries.len();
    let mut i: usize = 0;
    while i < n
        invariant
            n == entries@.len(),
            0 <= i <= n,
            pv == entries@.map_values(|p: Package| p@),
            forall|a: int, b: int| 0 <= a < b < i ==> pv[a].name != pv[b].name,
        decreases n - i,
    {
        let mut j: usize = 0;
        while j < i
            invariant
                n == entries@.len(),
                0 <= j <= i < n,
                pv == entries@.map_values(|p: Package| p@),
                forall|a: int, b: int| 0 <= a < b < i ==> pv[a].name != pv[b].name,
                forall|b: int| 0 <= b < j ==> pv[b].name != pv[i as int].name,
            decreases i - j,
        {
            if str_eq(entries[j].name().as_str(), entries[i].name().as_str()) {
                proof {
                    assert(pv[j as int].name == pv[i as int].name);
                    assert(!unique_names(pv));
                }
                return false;
            }
            j += 1;
        }
        i += 1;
    }
    true
}

/// The round-trip law of the registry file: parsing the canonical text of a
/// well-formed registry yields exactly the records that were printed,
/// field for field and in order. Together with the contracts of `to_text`
/// and `from_text` this is what makes the flush-on-close, load-on-open
/// persistence cycle lossless.
pub proof fn lemma_registry_round_trip(ps: Seq<PackageView>)
    requires
        registry_entries_wf(ps),
    ensures
        parse_registry_spec(registry_text(ps)) == Some(ps),
{
    lemma_registry_lines_wf(ps);
    lemma_doc_round_trip(registry_lines(ps));
    crate::format::lemma_non_blank_id(registry_lines(ps));
    lemma_parse_packages_of_registry(ps);
}

/// Law: installing a record makes exactly it visible under its name,
/// whatever the registry held before.
pub proof fn lemma_add_then_contains(m: Map<Seq<char>, PackageView>, p: PackageView)
    ensures
        m.insert(p.name, p).contains_key(p.name),
        m.insert(p.name, p)[p.name] == p,
{
}

/// Law: a registry file with zero entries opens as the empty mapping, which
/// contains no name at all.
pub proof fn lemma_empty_registry(text: Seq<char>)
    requires
        text.len() == 0,
    ensures
        parse_registry_spec(text) == Some(Seq::<PackageView>::empty()),
        forall|n: Seq<char>| !seq_to_map(Seq::<PackageView>::empty()).contains_key(n),
{
    assert(split_lines(text) =~= Seq::<Seq<char>>::empty());
    assert(parse_rows(Seq::<Seq<char>>::empty()) == Some(Seq::<LineView>::empty()));
    assert(non_blank(Seq::<LineView>::empty()) =~= Seq::<LineView>::empty());
    assert(parse_packages(Seq::<LineView>::empty()) == Some(Seq::<PackageView>::empty()));
    assert(seq_to_map(Seq::<PackageView>::empty()) =~= Map::<Seq<char>, PackageView>::empty());
}

impl PackageMap {
    /// Serialize this registry to its canonical text, the form the backing
    /// file holds.
    pub fn to_text(&self) -> (r: String)
        ensures
            r@ == registry_text(self.entries_view()),
    {
        let ghost pv = self.entries_view();
        let n = self.entries.len();
        let mut lines: Vec<Line> = Vec::new();
        let mut i: usize = 0;
        proof {
            assert(pv.take(0) =~= Seq::<PackageView>::empty());
            assert(lines@.map_values(|l: Line| l@) =~= registry_lines(pv.take(0)));
        }
        while i < n
            invariant
                n == self.entries@.len(),
                0 <= i <= n,
                pv == self.entries_view(),
                pv.len() == n,
                lines@.map_values(|l: Line| l@) == registry_lines(pv.take(i as int)),
            decreases n - i,
        {
            let ghost before = lines@.map_values(|l: Line| l@);
            let mut pl = package_to_lines(&self.entries[i]);
            let ghost plv = pl@.map_values(|l: Line| l@);
            lines.append(&mut pl);
            proof {
                assert(lines@.map_values(|l: Line| l@) =~= before + plv);
                lemma_registry_lines_snoc(pv, i as int);
                assert(pv[i as int] == self.entries@[i as int]@);
            }
            i += 1;
        }
        proof {
            assert(pv.take(n as int) =~= pv);
        }
        print_lines_string(&lines)
    }

    /// Parse a registry from the text of its backing file. The text must be
    /// the canonical key/value document, possibly interleaved with blank and
    /// comment lines; names must be unique.
    #[verifier::loop_isolation(false)]
    pub fn from_text(text: &str) -> (r: Result<PackageMap, String>)
        ensures
            match r {
                Ok(m) => parse_registry_spec(text@) == Some(m.entries_view()) && m.wf(),
                Err(_) => parse_registry_spec(text@) is None,
            },
    {
        let all = match parse_doc_lines(text) {
            Some(v) => v,
            None => {
                return Err(String::from_str("a line is not well-formed"));
            },
        };
        proof {
            crate::format::lemma_parse_rows_sane(crate::format::split_lines(text@));
            crate::format::lemma_non_blank_sane(all@.map_values(|l: Line| l@));
        }
        let lines = drop_blanks(&all);
        let ghost mv = lines@.map_values(|l: Line| l@);
        proof {
            assert(forall|j: int| 0 <= j < mv.len() ==> crate::format::line_sane(#[trigger] mv[j]));
            assert(forall|j: int| 0 <= j < lines@.len() ==> lines@[j]@ == mv[j]);
            assert(mv.skip(0) =~= mv);
            if parse_packages(mv) is Some {
                let t = parse_packages(mv).unwrap();
                assert(Seq::<PackageView>::empty() + t =~= t);
            }
        }
        let n = lines.len();
        let mut entries: Vec<Package> = Vec::new();
        let mut i: usize = 0;
        proof {
            assert(entries@.map_values(|p: Package| p@) =~= Seq::<PackageView>::empty());
        }
        while i < n
            invariant
                n == lines@.len(),
                0 <= i <= n,
                mv == lines@.map_values(|l: Line| l@),
                forall|j: int| 0 <= j < mv.len() ==> crate::format::line_sane(#[trigger] mv[j]),
                forall|j: int| 0 <= j < lines@.len() ==> #[trigger] lines@[j]@ == mv[j],
                forall|j: int| 0 <= j < entries@.len() ==> package_wf(#[trigger] entries@[j]@),
                ({
                    let done = entries@.map_values(|p: Package| p@);
                    match parse_packages(mv.skip(i as int)) {
                        Some(t) => parse_packages(mv) == Some(done + t),
                        None => parse_packages(mv) is None,
                    }
                }),
            decreases n - i,
        {
            match take_package(&lines, i) {
                None => {
                    return Err(String::from_str("a package block is not well-formed"));
                },
                Some((p, k)) => {
                    let ghost done0 = entries@.map_values(|q: Package| q@);
                    proof {
                        assert(mv.skip(i as int).skip(k as int) =~= mv.skip(i + k));
                        match parse_packages(mv.skip(i + k)) {
                            Some(t) => {
                                assert(parse_packages(mv.skip(i as int)) == Some(seq![p@] + t));
                                assert(done0 + (seq![p@] + t) =~= done0.push(p@) + t);
                            },
                            None => {},
                        }
                    }
                    entries.push(p);
                    proof {
                        assert(entries@.map_values(|q: Package| q@) =~= done0.push(p@));
                    }
                    i += k;
                },
            }
        }
        proof {
            assert(mv.skip(n as int) =~= Seq::<LineView>::empty());
            assert(parse_packages(Seq::<LineView>::empty()) == Some(Seq::<PackageView>::empty()));
            let done = entries@.map_values(|p: Package| p@);
            assert(done + Seq::<PackageView>::empty() =~= done);
        }
        if !names_unique(&entries) {
            return Err(String::from_str("two records share a name"));
        }
        proof {
            let pvs = entries@.map_values(|p: Package| p@);
            assert forall|j: int| 0 <= j < pvs.len() implies package_wf(#[trigger] pvs[j]) by {
                assert(pvs[j] == entries@[j]@);
            }
        }
        Ok(PackageMap::from_entries(entries))
    }
}

} // verus!
