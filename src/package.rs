use std::cmp::Ordering;

use vstd::prelude::*;
use vstd::std_specs::cmp::PartialEqSpec;

use crate::error::BldrError;
use crate::text::{
    count_char, lemma_split_on_join, lemma_split_on_len, lemma_split_on_single, split_on,
    split_str, strip_back, strip_back_str, text_eq, trim_str, trimmed,
};
use crate::version::{
    compare_text, compare_text_from, lemma_text_reflexive, lemma_version_order_reflexive,
    valid_version, version_order, version_sort,
};

verus! {

/// Root of the installed-package tree.
pub const PACKAGE_HOME: &'static str = "/opt/bldr/pkgs";

/// Root of the per-service directories.
pub const SERVICE_HOME: &'static str = "/opt/bldr/srvc";

/// Where downloaded archives are kept.
pub const PACKAGE_CACHE: &'static str = "/opt/bldr/cache/pkgs";

/// Keyring directory used to decrypt and verify archives.
pub const GPG_CACHE: &'static str = "/opt/bldr/cache/gpg";

/// `a/b`.
pub open spec fn joined(a: Seq<char>, b: Seq<char>) -> Seq<char> {
    a + seq!['/'] + b
}

/// Appends `/` and `b` to `a`.
pub fn join(a: String, b: &str) -> (r: String)
    ensures
        r@ == joined(a@, b@),
{
    let r = a.concat("/").concat(b);
    proof {
        reveal_strlit("/");
        assert(r@ =~= joined(a@, b@));
    }
    r
}

/// A package, identified by derivation, name, version and release.
#[derive(Debug)]
pub struct Package {
    pub derivation: String,
    pub name: String,
    pub version: String,
    pub release: String,
    pub deps: Option<Vec<Package>>,
}

/// Two packages have the same four coordinates.
pub open spec fn same_coords(a: Package, b: Package) -> bool {
    &&& a.derivation@ == b.derivation@
    &&& a.name@ == b.name@
    &&& a.version@ == b.version@
    &&& a.release@ == b.release@
}

/// How two packages are ordered: not at all across names; by version, then
/// by release, otherwise. The derivation takes no part.
pub open spec fn package_order(a: Package, b: Package) -> Option<Ordering> {
    if a.name@ != b.name@ {
        None
    } else if !(valid_version(a.version@) && valid_version(b.version@)) {
        None
    } else if version_order(a.version@, b.version@) == Ordering::Equal {
        Some(compare_text_from(a.release@, b.release@, 0))
    } else {
        Some(version_order(a.version@, b.version@))
    }
}

/// The four trimmed fields of an identity string, if it has exactly four.
pub open spec fn parse_ident(s: Seq<char>) -> Option<Seq<Seq<char>>> {
    let items = split_on(s, '/');
    if items.len() == 4 {
        Some(seq![trimmed(items[0]), trimmed(items[1]), trimmed(items[2]), trimmed(items[3])])
    } else {
        None
    }
}

/// The coordinates of a package, in order.
pub open spec fn coords(p: Package) -> Seq<Seq<char>> {
    seq![p.derivation@, p.name@, p.version@, p.release@]
}

/// A coordinate field that survives being written into an identity string
/// and read back: no `/` in it and no surrounding whitespace.
pub open spec fn clean_field(f: Seq<char>) -> bool {
    !f.contains('/') && trimmed(f) == f
}

/// `path` lies under `root`, segment by segment, with four more segments after it.
pub open spec fn under_root(path: Seq<char>, root: Seq<char>) -> bool {
    let s = split_on(path, '/');
    let r = split_on(root, '/');
    &&& s.len() >= r.len() + 4
    &&& forall|i: int| 0 <= i < r.len() ==> s[i] == r[i]
}

/// The four trimmed segments of `path` that follow those of `root`.
pub open spec fn coords_under_root(path: Seq<char>, root: Seq<char>) -> Seq<Seq<char>> {
    let s = split_on(path, '/');
    let k = split_on(root, '/').len() as int;
    seq![trimmed(s[k]), trimmed(s[k + 1]), trimmed(s[k + 2]), trimmed(s[k + 3])]
}

/// `p` is installed under derivation `d` and name `n`, and version `v` if given.
pub open spec fn is_candidate(p: Package, d: Seq<char>, n: Seq<char>, v: Option<Seq<char>>) -> bool {
    &&& p.name@ == n
    &&& p.derivation@ == d
    &&& v matches Some(x) ==> p.version@ == x
}

/// The newest candidate, folding left: a later candidate replaces the
/// current winner only where the winner orders strictly below it.
pub open spec fn latest_of(ps: Seq<Package>, d: Seq<char>, n: Seq<char>, v: Option<Seq<char>>) -> Option<
    Package,
>
    decreases ps.len(),
{
    if ps.len() == 0 {
        None
    } else {
        let w = latest_of(ps.drop_last(), d, n, v);
        let b = ps.last();
        if !is_candidate(b, d, n, v) {
            w
        } else {
            match w {
                None => Some(b),
                Some(a) => if package_order(a, b) == Some(Ordering::Less) {
                    Some(b)
                } else {
                    Some(a)
                },
            }
        }
    }
}

/// There is a winner exactly when there is a candidate, and the winner is one.
pub proof fn lemma_latest_of_candidate(
    ps: Seq<Package>,
    d: Seq<char>,
    n: Seq<char>,
    v: Option<Seq<char>>,
)
    ensures
        latest_of(ps, d, n, v) is Some <==> exists|i: int|
            0 <= i < ps.len() && is_candidate(#[trigger] ps[i], d, n, v),
        latest_of(ps, d, n, v) matches Some(w) ==> is_candidate(w, d, n, v) && ps.contains(w),
    decreases ps.len(),
{
    if ps.len() > 0 {
        let q = ps.drop_last();
        lemma_latest_of_candidate(q, d, n, v);
        if exists|i: int| 0 <= i < q.len() && is_candidate(#[trigger] q[i], d, n, v) {
            let i = choose|i: int| 0 <= i < q.len() && is_candidate(#[trigger] q[i], d, n, v);
            assert(ps[i] == q[i]);
        }
        if exists|i: int| 0 <= i < ps.len() && is_candidate(#[trigger] ps[i], d, n, v) {
            let i = choose|i: int| 0 <= i < ps.len() && is_candidate(#[trigger] ps[i], d, n, v);
            if i < ps.len() - 1 {
                assert(q[i] == ps[i]);
            }
        }
        if let Some(w) = latest_of(ps, d, n, v) {
            if w == ps.last() {
                assert(ps[ps.len() - 1] == w);
            } else {
                let j = choose|j: int| 0 <= j < q.len() && q[j] == w;
                assert(ps[j] == w);
            }
        }
    }
}

/// The text `derivation/name/version/release` of a package.
pub open spec fn ident_text(p: Package) -> Seq<char> {
    p.derivation@ + seq!['/'] + p.name@ + seq!['/'] + p.version@ + seq!['/'] + p.release@
}

impl PartialEq for Package {
    fn eq(&self, other: &Package) -> (r: bool) {
        if self.derivation != other.derivation {
            false
        } else if self.name != other.name {
            false
        } else if self.version != other.version {
            false
        } else {
            self.release == other.release
        }
    }
}

impl vstd::std_specs::cmp::PartialEqSpecImpl for Package {
    open spec fn obeys_eq_spec() -> bool {
        true
    }

    open spec fn eq_spec(&self, other: &Package) -> bool {
        same_coords(*self, *other)
    }
}

impl PartialOrd for Package {
    fn partial_cmp(&self, other: &Package) -> (r: Option<Ordering>) {
        if self.name != other.name {
            return None;
        }
        match version_sort(self.version.as_str(), other.version.as_str()) {
            Ok(Ordering::Equal) => Some(compare_text(self.release.as_str(), other.release.as_str())),
            Ok(o) => Some(o),
            Err(_) => None,
        }
    }
}

impl vstd::std_specs::cmp::PartialOrdSpecImpl for Package {
    open spec fn obeys_partial_cmp_spec() -> bool {
        true
    }

    open spec fn partial_cmp_spec(&self, other: &Package) -> Option<Ordering> {
        package_order(*self, *other)
    }
}

impl Package {
    pub fn new(deriv: String, name: String, version: String, release: String) -> (r: Self)
        ensures
            r.derivation == deriv,
            r.name == name,
            r.version == version,
            r.release == release,
            r.deps is None,
    {
        Package { derivation: deriv, name: name, version: version, release: release, deps: None }
    }

    /// Appends a dependency, starting the list if there is none yet.
    pub fn add_dep(&mut self, dep: Package)
        ensures
            final(self).derivation == old(self).derivation,
            final(self).name == old(self).name,
            final(self).version == old(self).version,
            final(self).release == old(self).release,
            match old(self).deps {
                Some(d) => final(self).deps matches Some(n) && n@ == d@.push(dep),
                None => final(self).deps matches Some(n) && n@ == seq![dep],
            },
    {
        match self.deps.take() {
            Some(mut d) => {
                d.push(dep);
                self.deps = Some(d);
            },
            None => {
                self.deps = Some(vec![dep]);
            },
        }
    }

    /// Parses `derivation/name/version/release`, trimming each field.
    ///
    /// Fails with `InvalidPackageIdent` exactly where `id` has not three `/`.
    pub fn from_ident(id: &str) -> (r: Result<Package, BldrError>)
        ensures
            r is Ok <==> count_char(id@, '/') == 3,
            match r {
                Ok(p) => parse_ident(id@) == Some(coords(p)) && p.deps is None,
                Err(e) => {
                    &&& parse_ident(id@) is None
                    &&& e matches BldrError::InvalidPackageIdent(s) && s@ == id@
                },
            },
    {
        proof {
            lemma_split_on_len(id@, '/');
        }
        let items = split_str(id, '/');
        if items.len() != 4 {
            return Err(BldrError::InvalidPackageIdent(String::from_str(id)));
        }
        Ok(
            Package::new(
                trim_str(items[0].as_str()),
                trim_str(items[1].as_str()),
                trim_str(items[2].as_str()),
                trim_str(items[3].as_str()),
            ),
        )
    }

    /// Reads the coordinates from a path inside the installed tree.
    ///
    /// Fails with `PackageLoad` where the path does not lie under it with
    /// four segments to spare.
    pub fn from_path(spath: &str) -> (r: Result<Package, BldrError>)
        ensures
            match r {
                Ok(p) => {
                    &&& under_root(spath@, PACKAGE_HOME@)
                    &&& coords(p) == coords_under_root(spath@, PACKAGE_HOME@)
                    &&& p.deps is None
                },
                Err(e) => {
                    &&& !under_root(spath@, PACKAGE_HOME@)
                    &&& e matches BldrError::PackageLoad(s) && s@ == spath@
                },
            },
    {
        let items = split_str(spath, '/');
        let root = split_str(PACKAGE_HOME, '/');
        let k = root.len();
        if items.len() < 4 || items.len() - 4 < k {
            return Err(BldrError::PackageLoad(String::from_str(spath)));
        }
        let mut i: usize = 0;
        while i < k
            invariant
                k == root@.len(),
                k + 4 <= items@.len(),
                i <= k,
                items@.len() == split_on(spath@, '/').len(),
                root@.len() == split_on(PACKAGE_HOME@, '/').len(),
                forall|j: int| 0 <= j < items@.len() ==> #[trigger] items@[j]@ == split_on(spath@, '/')[j],
                forall|j: int|
                    0 <= j < root@.len() ==> #[trigger] root@[j]@ == split_on(PACKAGE_HOME@, '/')[j],
                forall|j: int|
                    0 <= j < i ==> split_on(spath@, '/')[j] == #[trigger] split_on(PACKAGE_HOME@, '/')[j],
            decreases k - i,
        {
            if items[i] != root[i] {
                assert(items@[i as int]@ != root@[i as int]@);
                return Err(BldrError::PackageLoad(String::from_str(spath)));
            }
            i = i + 1;
        }
        let p = Package::new(
            trim_str(items[k].as_str()),
            trim_str(items[k + 1].as_str()),
            trim_str(items[k + 2].as_str()),
            trim_str(items[k + 3].as_str()),
        );
        assert(coords(p) =~= coords_under_root(spath@, PACKAGE_HOME@));
        Ok(p)
    }

    /// The newest installed package of derivation `deriv` and name `pkg` (and
    /// version `ver`, if given) among `candidates`, the packages found by
    /// walking the installed tree, in the order found.
    ///
    /// Fails with `PackageNotFound` exactly where none matches.
    pub fn latest(deriv: &str, pkg: &str, ver: Option<&str>, candidates: &Vec<Package>) -> (r: Result<
        Package,
        BldrError,
    >)
        ensures
            r is Ok <==> exists|i: int|
                0 <= i < candidates@.len() && is_candidate(
                    #[trigger] candidates@[i],
                    deriv@,
                    pkg@,
                    match ver {
                        Some(v) => Some(v@),
                        None => None,
                    },
                ),
            match r {
                Ok(p) => {
                    let w = latest_of(
                        candidates@,
                        deriv@,
                        pkg@,
                        match ver {
                            Some(v) => Some(v@),
                            None => None,
                        },
                    );
                    &&& w matches Some(w) && coords(p) == coords(w)
                    &&& p.deps is None
                },
                Err(e) => e matches BldrError::PackageNotFound(d, n, v) && d@ == deriv@ && n@ == pkg@
                    && match (v, ver) {
                    (Some(x), Some(y)) => x@ == y@,
                    (None, None) => true,
                    _ => false,
                },
            },
    {
        let ghost gv: Option<Seq<char>> = match ver {
            Some(v) => Some(v@),
            None => None,
        };
        let mut winner: Option<usize> = None;
        let mut i: usize = 0;
        while i < candidates.len()
            invariant
                i <= candidates@.len(),
                gv == match ver {
                    Some(v) => Some(v@),
                    None => None::<Seq<char>>,
                },
                match winner {
                    None => latest_of(candidates@.take(i as int), deriv@, pkg@, gv) is None,
                    Some(w) => w < i && latest_of(candidates@.take(i as int), deriv@, pkg@, gv)
                        == Some(candidates@[w as int]),
                },
            decreases candidates@.len() - i,
        {
            let b = &candidates[i];
            proof {
                assert(candidates@.take(i as int + 1).drop_last() =~= candidates@.take(i as int));
            }
            let hit = text_eq(b.name.as_str(), pkg) && text_eq(b.derivation.as_str(), deriv)
                && match ver {
                Some(v) => text_eq(b.version.as_str(), v),
                None => true,
            };
            if hit {
                match winner {
                    None => {
                        winner = Some(i);
                    },
                    Some(w) => {
                        match candidates[w].partial_cmp(b) {
                            Some(Ordering::Less) => {
                                winner = Some(i);
                            },
                            _ => {},
                        }
                    },
                }
            }
            i = i + 1;
        }
        proof {
            assert(candidates@.take(candidates@.len() as int) =~= candidates@);
            lemma_latest_of_candidate(candidates@, deriv@, pkg@, gv);
        }
        match winner {
            Some(w) => {
                let a = &candidates[w];
                Ok(
                    Package::new(
                        a.derivation.clone(),
                        a.name.clone(),
                        a.version.clone(),
                        a.release.clone(),
                    ),
                )
            },
            None => Err(
                BldrError::PackageNotFound(
                    String::from_str(deriv),
                    String::from_str(pkg),
                    match ver {
                        Some(v) => Some(String::from_str(v)),
                        None => None,
                    },
                ),
            ),
        }
    }

    /// The ports and tokens a package exposes, given the contents of its
    /// `EXPOSES` file: split at spaces, each without trailing newlines.
    /// Without the file there are none.
    pub fn exposes(contents: Option<&str>) -> (r: Vec<String>)
        ensures
            match contents {
                None => r@.len() == 0,
                Some(c) => {
                    &&& r@.len() == split_on(c@, ' ').len()
                    &&& forall|i: int|
                        0 <= i < r@.len() ==> #[trigger] r@[i]@ == strip_back(split_on(c@, ' ')[i], '\n')
                },
            },
    {
        match contents {
            None => Vec::new(),
            Some(c) => {
                let items = split_str(c, ' ');
                let mut out: Vec<String> = Vec::new();
                let mut i: usize = 0;
                while i < items.len()
                    invariant
                        i <= items@.len(),
                        out@.len() == i,
                        items@.len() == split_on(c@, ' ').len(),
                        forall|j: int|
                            0 <= j < items@.len() ==> #[trigger] items@[j]@ == split_on(c@, ' ')[j],
                        forall|j: int|
                            0 <= j < i ==> #[trigger] out@[j]@ == strip_back(split_on(c@, ' ')[j], '\n'),
                    decreases items@.len() - i,
                {
                    out.push(strip_back_str(items[i].as_str(), '\n'));
                    i = i + 1;
                }
                out
            },
        }
    }

    /// Elects the leader of a service topology; a single-node topology
    /// always succeeds.
    pub fn topology_leader() -> (r: Result<(), BldrError>)
        ensures
            r is Ok,
    {
        Ok(())
    }

    /// The text `derivation/name/version/release`.
    pub fn ident(&self) -> (r: String)
        ensures
            r@ == ident_text(*self),
    {
        let r = join(
            join(join(self.derivation.clone(), self.name.as_str()), self.version.as_str()),
            self.release.as_str(),
        );
        assert(r@ =~= ident_text(*self));
        r
    }

    /// The package's directory in the installed tree.
    pub fn path(&self) -> (r: String)
        ensures
            r@ == joined(PACKAGE_HOME@, ident_text(*self)),
    {
        let id = self.ident();
        join(String::from_str(PACKAGE_HOME), id.as_str())
    }

    /// A path inside the package's directory.
    pub fn join_path(&self, join_to: &str) -> (r: String)
        ensures
            r@ == joined(joined(PACKAGE_HOME@, ident_text(*self)), join_to@),
    {
        join(self.path(), join_to)
    }

    /// The package's service directory.
    pub fn srvc_path(&self) -> (r: String)
        ensures
            r@ == joined(SERVICE_HOME@, self.name@),
    {
        join(String::from_str(SERVICE_HOME), self.name.as_str())
    }

    /// A path inside the package's service directory.
    pub fn srvc_join_path(&self, join_to: &str) -> (r: String)
        ensures
            r@ == joined(joined(SERVICE_HOME@, self.name@), join_to@),
    {
        join(self.srvc_path(), join_to)
    }

    /// Where the package's archive is cached:
    /// `<cache>/<derivation>-<name>-<version>-<release>.bldr`.
    pub fn cache_file(&self) -> (r: String)
        ensures
            r@ == joined(
                PACKAGE_CACHE@,
                self.derivation@ + seq!['-'] + self.name@ + seq!['-'] + self.version@ + seq!['-']
                    + self.release@ + ".bldr"@,
            ),
    {
        let f = self.derivation.clone().concat("-").concat(self.name.as_str()).concat("-").concat(
            self.version.as_str(),
        ).concat("-").concat(self.release.as_str()).concat(".bldr");
        proof {
            reveal_strlit("-");
        }
        let r = join(String::from_str(PACKAGE_CACHE), f.as_str());
        assert(r@ =~= joined(
            PACKAGE_CACHE@,
            self.derivation@ + seq!['-'] + self.name@ + seq!['-'] + self.version@ + seq!['-']
                + self.release@ + ".bldr"@,
        ));
        r
    }
}


/// Packages are equal exactly when all four coordinates are; dependencies
/// play no part.
pub proof fn lemma_package_eq_coords(a: Package, b: Package)
    ensures
        a.eq_spec(&b) <==> coords(a) == coords(b),
{
    if coords(a) == coords(b) {
        assert(coords(a)[0] == coords(b)[0] && coords(a)[1] == coords(b)[1]);
        assert(coords(a)[2] == coords(b)[2] && coords(a)[3] == coords(b)[3]);
    }
}

/// Packages of different names have no order; packages that differ only in
/// derivation compare as equal.
pub proof fn lemma_package_order_derivation_blind(a: Package, b: Package)
    ensures
        a.name@ != b.name@ ==> package_order(a, b) is None,
        a.name@ == b.name@ && a.version@ == b.version@ && a.release@ == b.release@ && valid_version(
            a.version@,
        ) ==> package_order(a, b) == Some(Ordering::Equal),
{
    lemma_version_order_reflexive(a.version@);
    lemma_text_reflexive(a.release@, 0);
}

/// Reading back the identity string of a package with clean fields gives
/// its coordinates.
pub proof fn lemma_ident_round_trip(p: Package)
    requires
        clean_field(p.derivation@),
        clean_field(p.name@),
        clean_field(p.version@),
        clean_field(p.release@),
    ensures
        parse_ident(ident_text(p)) == Some(coords(p)),
{
    lemma_fields_round_trip(p.derivation@, p.name@, p.version@, p.release@);
}

/// Reading back four clean fields joined by `/` gives the fields.
pub proof fn lemma_fields_round_trip(d: Seq<char>, n: Seq<char>, v: Seq<char>, r: Seq<char>)
    requires
        clean_field(d),
        clean_field(n),
        clean_field(v),
        clean_field(r),
    ensures
        parse_ident(d + seq!['/'] + n + seq!['/'] + v + seq!['/'] + r) == Some(seq![d, n, v, r]),
{
    lemma_split_on_single(d, '/');
    lemma_split_on_single(n, '/');
    lemma_split_on_single(v, '/');
    lemma_split_on_single(r, '/');
    lemma_split_on_join(d, n, '/');
    lemma_split_on_join(d + seq!['/'] + n, v, '/');
    lemma_split_on_join(d + seq!['/'] + n + seq!['/'] + v, r, '/');
    let t = d + seq!['/'] + n + seq!['/'] + v + seq!['/'] + r;
    assert(split_on(t, '/') =~= seq![d, n, v, r]);
    assert(parse_ident(t) =~= Some(seq![d, n, v, r]));
}

/// `bldr/bldr/1.0.0/20150521131555` parses into exactly its four fields.
pub proof fn lemma_ident_example()
    ensures
        parse_ident("bldr/bldr/1.0.0/20150521131555"@) == Some(
            seq!["bldr"@, "bldr"@, "1.0.0"@, "20150521131555"@],
        ),
{
    reveal_strlit("bldr/bldr/1.0.0/20150521131555");
    reveal_strlit("bldr");
    reveal_strlit("1.0.0");
    reveal_strlit("20150521131555");
    let (d, v, r) = ("bldr"@, "1.0.0"@, "20150521131555"@);
    assert("bldr/bldr/1.0.0/20150521131555"@ =~= d + seq!['/'] + d + seq!['/'] + v + seq!['/'] + r);
    assert(!d.contains('/'));
    assert(!v.contains('/'));
    assert(!r.contains('/'));
    assert(trimmed(d) == d);
    assert(trimmed(v) == v);
    assert(trimmed(r) == r);
    lemma_fields_round_trip(d, d, v, r);
}

} // verus!
