use vstd::prelude::*;

use crate::error::BldrError;
use crate::package::{
    clean_field, coords, ident_text, lemma_fields_round_trip, lemma_ident_round_trip, parse_ident,
    Package,
};
use crate::text::{split_on, split_str, text_eq, trimmed};

verus! {

/// The named metadata entries that a package archive may hold.
#[derive(Debug, Clone, Copy, PartialEq, Eq, Structural)]
pub enum MetaFile {
    CFlags,
    Deps,
    Exposes,
    Ident,
    LdRunPath,
    LdFlags,
    Manifest,
    Path,
}

/// The entry name of each metadata file inside an archive.
pub open spec fn meta_name(f: MetaFile) -> Seq<char> {
    match f {
        MetaFile::CFlags => "CFLAGS"@,
        MetaFile::Deps => "DEPS"@,
        MetaFile::Exposes => "EXPOSES"@,
        MetaFile::Ident => "IDENT"@,
        MetaFile::LdRunPath => "LD_RUN_PATH"@,
        MetaFile::LdFlags => "LDFLAGS"@,
        MetaFile::Manifest => "MANIFEST"@,
        MetaFile::Path => "PATH"@,
    }
}

impl MetaFile {
    /// The entry name of this metadata file.
    pub fn name(&self) -> (r: &'static str)
        ensures
            r@ == meta_name(*self),
    {
        match self {
            MetaFile::CFlags => "CFLAGS",
            MetaFile::Deps => "DEPS",
            MetaFile::Exposes => "EXPOSES",
            MetaFile::Ident => "IDENT",
            MetaFile::LdRunPath => "LD_RUN_PATH",
            MetaFile::LdFlags => "LDFLAGS",
            MetaFile::Manifest => "MANIFEST",
            MetaFile::Path => "PATH",
        }
    }
}

/// What compiling `pattern` with `regex::Regex::new` and testing `text` with
/// `is_match` gives: `None` where the pattern does not compile.
pub uninterp spec fn regex_search(pattern: Seq<char>, text: Seq<char>) -> Option<bool>;

/// A character that regex syntax takes literally.
pub open spec fn plain_char(c: char) -> bool {
    ||| 'a' <= c <= 'z'
    ||| 'A' <= c <= 'Z'
    ||| '0' <= c <= '9'
    ||| c == '_'
    ||| c == ':'
    ||| c == ' '
}

/// A short pattern of characters that regex syntax takes literally.
pub open spec fn plain_pattern(p: Seq<char>) -> bool {
    &&& 0 < p.len() <= 100
    &&& forall|i: int| 0 <= i < p.len() ==> plain_char(#[trigger] p[i])
}

/// `p` occurs somewhere in `t`.
pub open spec fn occurs_in(p: Seq<char>, t: Seq<char>) -> bool {
    exists|i: int| 0 <= i && i + p.len() <= t.len() && #[trigger] t.subrange(i, i + p.len()) == p
}

/// Relies on `regex::Regex::new`, which fails on an invalid or oversized
/// pattern, and `Regex::is_match`, which tells whether the pattern matches
/// anywhere in the text. A short pattern of letters, digits, `_`, `:` and
/// spaces is valid, far below the default size limit, and matches exactly
/// where it occurs.
#[verifier::external_body]
fn regex_is_match(pattern: &str, text: &str) -> (r: Option<bool>)
    ensures
        r == regex_search(pattern@, text@),
        plain_pattern(pattern@) ==> r == Some(occurs_in(pattern@, text@)),
{
    match regex::Regex::new(pattern) {
        Ok(re) => Some(re.is_match(text)),
        Err(_) => None,
    }
}

/// The last segment of `segs` that is neither empty nor `.`.
pub open spec fn last_named(segs: Seq<Seq<char>>) -> Option<Seq<char>>
    decreases segs.len(),
{
    if segs.len() == 0 {
        None
    } else if segs.last().len() == 0 || segs.last() == "."@ {
        last_named(segs.drop_last())
    } else {
        Some(segs.last())
    }
}

/// The final component of a path, as `std::path::Path::file_name` gives it:
/// empty and `.` segments do not count, and a path that ends in `..`, or
/// has no other segment, has none.
pub open spec fn path_file_name(p: Seq<char>) -> Option<Seq<char>> {
    match last_named(split_on(p, '/')) {
        Some(l) => if l == ".."@ {
            None
        } else {
            Some(l)
        },
        None => None,
    }
}

/// The message by which the extractor reports an entry missing.
pub open spec fn not_found_pattern(f: MetaFile) -> Seq<char> {
    meta_name(f) + ": Not found in archive"@
}

proof fn lemma_not_found_pattern_plain(f: MetaFile)
    ensures
        plain_pattern(not_found_pattern(f)),
{
    reveal_strlit(": Not found in archive");
    reveal_strlit("CFLAGS");
    reveal_strlit("DEPS");
    reveal_strlit("EXPOSES");
    reveal_strlit("IDENT");
    reveal_strlit("LD_RUN_PATH");
    reveal_strlit("LDFLAGS");
    reveal_strlit("MANIFEST");
    reveal_strlit("PATH");
    let p = not_found_pattern(f);
    let k = meta_name(f).len();
    assert forall|i: int| 0 <= i < p.len() implies plain_char(#[trigger] p[i]) by {
        if i < k {
            assert(p[i] == meta_name(f)[i]);
        } else {
            assert(p[i] == ": Not found in archive"@[i - k]);
        }
    }
}

/// The result of extracting one metadata entry: its text where the
/// extractor succeeded; where it failed, `MetaFileNotFound` if its error
/// output reports the entry missing (`reported_missing`), else
/// `ArchiveReadFailed` with that output.
pub open spec fn metadata_outcome(
    file: MetaFile,
    exited_ok: bool,
    stdout: String,
    stderr: String,
    reported_missing: Option<bool>,
) -> Result<String, BldrError> {
    if exited_ok {
        Ok(stdout)
    } else if reported_missing == Some(true) {
        Err(BldrError::MetaFileNotFound(file))
    } else {
        Err(BldrError::ArchiveReadFailed(stderr))
    }
}

/// The identities read from the lines of a `DEPS` entry; lines that do
/// not parse are skipped.
pub open spec fn parsed_deps(lines: Seq<Seq<char>>) -> Seq<Seq<Seq<char>>>
    decreases lines.len(),
{
    if lines.len() == 0 {
        Seq::empty()
    } else {
        let prev = parsed_deps(lines.drop_last());
        match parse_ident(lines.last()) {
            Some(c) => prev.push(c),
            None => prev,
        }
    }
}

/// `v` holds, in order, packages with the coordinates `cs` and no deps.
pub open spec fn packages_with_coords(v: Seq<Package>, cs: Seq<Seq<Seq<char>>>) -> bool {
    &&& v.len() == cs.len()
    &&& forall|i: int| 0 <= i < v.len() ==> coords(#[trigger] v[i]) == cs[i] && v[i].deps is None
}

/// What `deps` yields for a given read of the `DEPS` entry.
pub open spec fn deps_contract(read: Result<String, BldrError>, r: Result<Option<Vec<Package>>, BldrError>) -> bool {
    match read {
        Ok(body) => r matches Ok(Some(v)) && packages_with_coords(v@, parsed_deps(split_on(body@, '\n'))),
        Err(BldrError::MetaFileNotFound(_)) => r == Ok::<Option<Vec<Package>>, BldrError>(None),
        Err(e) => r == Err::<Option<Vec<Package>>, BldrError>(e),
    }
}

/// The dependency identities of a successful read of `DEPS`; none otherwise.
pub open spec fn listed_deps(read: Result<String, BldrError>) -> Seq<Seq<Seq<char>>> {
    match read {
        Ok(text) => parsed_deps(split_on(text@, '\n')),
        Err(_) => Seq::empty(),
    }
}

/// What `package` yields for given reads of the `IDENT` and `DEPS` entries.
pub open spec fn package_contract(
    ident: Result<String, BldrError>,
    deps: Result<String, BldrError>,
    r: Result<Package, BldrError>,
) -> bool {
    match ident {
        Err(e) => r == Err::<Package, BldrError>(e),
        Ok(body) => match parse_ident(body@) {
            None => r matches Err(BldrError::InvalidPackageIdent(s)) && s@ == body@,
            Some(c) => match deps {
                Err(e) => if e is MetaFileNotFound {
                    r matches Ok(p) && coords(p) == c && p.deps is None
                } else {
                    r == Err::<Package, BldrError>(e)
                },
                Ok(text) => {
                    let ds = parsed_deps(split_on(text@, '\n'));
                    r matches Ok(p) && coords(p) == c && if ds.len() == 0 {
                        p.deps is None
                    } else {
                        p.deps matches Some(v) && packages_with_coords(v@, ds)
                    }
                },
            },
        },
    }
}

/// A signed, compressed package archive on disk.
#[derive(Debug)]
pub struct PackageArchive {
    pub path: String,
}

impl PackageArchive {
    pub fn new(path: String) -> (r: Self)
        ensures
            r.path == path,
    {
        PackageArchive { path: path }
    }

    /// The archive's file name; `None` where its path has no final component.
    pub fn file_name(&self) -> (r: Option<String>)
        ensures
            match r {
                Some(s) => path_file_name(self.path@) == Some(s@),
                None => path_file_name(self.path@) is None,
            },
    {
        let segs = split_str(self.path.as_str(), '/');
        let ghost ss = split_on(self.path@, '/');
        let mut i: usize = segs.len();
        proof {
            reveal_strlit(".");
            reveal_strlit("..");
            assert(ss.take(i as int) =~= ss);
        }
        while i > 0
            invariant
                ss == split_on(self.path@, '/'),
                i <= segs@.len(),
                segs@.len() == ss.len(),
                forall|j: int| 0 <= j < segs@.len() ==> #[trigger] segs@[j]@ == ss[j],
                last_named(ss) == last_named(ss.take(i as int)),
            decreases i,
        {
            let seg = segs[i - 1].as_str();
            proof {
                assert(ss.take(i as int).drop_last() =~= ss.take(i as int - 1));
                assert(ss.take(i as int).last() == seg@);
            }
            if seg.unicode_len() != 0 && !text_eq(seg, ".") {
                if text_eq(seg, "..") {
                    return None;
                }
                return Some(String::from_str(seg));
            }
            i = i - 1;
        }
        None
    }

    /// The result of extracting a metadata entry, given whether the
    /// extractor exited successfully, its output streams, and whether its
    /// error output reports the entry missing.
    pub fn metadata_result(
        file: MetaFile,
        exited_ok: bool,
        stdout: String,
        stderr: String,
        reported_missing: Option<bool>,
    ) -> (r: Result<String, BldrError>)
        ensures
            r == metadata_outcome(file, exited_ok, stdout, stderr, reported_missing),
    {
        if exited_ok {
            Ok(stdout)
        } else {
            match reported_missing {
                Some(true) => Err(BldrError::MetaFileNotFound(file)),
                _ => Err(BldrError::ArchiveReadFailed(stderr)),
            }
        }
    }

    /// The result of extracting a metadata entry, given whether the
    /// extractor exited successfully and its output streams; a failure is
    /// a missing entry where the error output matches
    /// `<ENTRY>: Not found in archive`.
    pub fn read_metadata(file: MetaFile, exited_ok: bool, stdout: String, stderr: String) -> (r:
        Result<String, BldrError>)
        ensures
            exited_ok ==> r == Ok::<String, BldrError>(stdout),
            !exited_ok && occurs_in(not_found_pattern(file), stderr@) ==> r == Err::<String, BldrError>(
                BldrError::MetaFileNotFound(file),
            ),
            !exited_ok && !occurs_in(not_found_pattern(file), stderr@) ==> r == Err::<
                String,
                BldrError,
            >(BldrError::ArchiveReadFailed(stderr)),
            r == metadata_outcome(
                file,
                exited_ok,
                stdout,
                stderr,
                if exited_ok {
                    None
                } else {
                    regex_search(not_found_pattern(file), stderr@)
                },
            ),
    {
        if exited_ok {
            return Self::metadata_result(file, exited_ok, stdout, stderr, None);
        }
        let pattern = String::from_str(file.name()).concat(": Not found in archive");
        proof {
            lemma_not_found_pattern_plain(file);
        }
        let missing = regex_is_match(pattern.as_str(), stderr.as_str());
        Self::metadata_result(file, exited_ok, stdout, stderr, missing)
    }

    /// The dependencies listed in a read of the `DEPS` entry, one identity
    /// per line, skipping lines that do not parse. A missing entry gives
    /// `None`; any other failure of the read is passed on.
    pub fn deps(read: Result<String, BldrError>) -> (r: Result<Option<Vec<Package>>, BldrError>)
        ensures
            deps_contract(read, r),
    {
        match read {
            Ok(body) => {
                let lines = split_str(body.as_str(), '\n');
                let ghost ls = split_on(body@, '\n');
                let mut deps: Vec<Package> = Vec::new();
                let mut i: usize = 0;
                while i < lines.len()
                    invariant
                        i <= lines@.len(),
                        lines@.len() == ls.len(),
                        forall|j: int| 0 <= j < lines@.len() ==> #[trigger] lines@[j]@ == ls[j],
                        packages_with_coords(deps@, parsed_deps(ls.take(i as int))),
                    decreases lines@.len() - i,
                {
                    proof {
                        assert(ls.take(i as int + 1).drop_last() =~= ls.take(i as int));
                    }
                    match Package::from_ident(lines[i].as_str()) {
                        Ok(p) => {
                            deps.push(p);
                        },
                        Err(_) => {},
                    }
                    i = i + 1;
                }
                proof {
                    assert(ls.take(lines@.len() as int) =~= ls);
                }
                Ok(Some(deps))
            },
            Err(BldrError::MetaFileNotFound(_)) => Ok(None),
            Err(e) => Err(e),
        }
    }

    /// The package an archive holds, from reads of its `IDENT` and `DEPS`
    /// entries: the identity parsed from `IDENT`, with the dependencies of
    /// `DEPS` where it lists any.
    pub fn package(ident: Result<String, BldrError>, deps: Result<String, BldrError>) -> (r: Result<
        Package,
        BldrError,
    >)
        ensures
            package_contract(ident, deps, r),
    {
        let body = match ident {
            Ok(b) => b,
            Err(e) => return Err(e),
        };
        let mut package = match Package::from_ident(body.as_str()) {
            Ok(p) => p,
            Err(e) => return Err(e),
        };
        let ghost c = coords(package);
        let ghost ds = listed_deps(deps);
        match Self::deps(deps) {
            Ok(Some(list)) => {
                let mut i: usize = 0;
                while i < list.len()
                    invariant
                        i <= list@.len(),
                        packages_with_coords(list@, ds),
                        coords(package) == c,
                        i == 0 ==> package.deps is None,
                        i > 0 ==> (package.deps matches Some(v) && packages_with_coords(
                            v@,
                            ds.take(i as int),
                        )),
                    decreases list@.len() - i,
                {
                    let d = Package::new(
                        list[i].derivation.clone(),
                        list[i].name.clone(),
                        list[i].version.clone(),
                        list[i].release.clone(),
                    );
                    let ghost before = package.deps;
                    package.add_dep(d);
                    proof {
                        assert(coords(d) =~= ds[i as int]);
                        let v = package.deps->0;
                        if i > 0 {
                            assert(v@ == before->0@.push(d));
                        }
                        assert forall|j: int| 0 <= j < v@.len() implies coords(#[trigger] v@[j])
                            == ds.take(i as int + 1)[j] && v@[j].deps is None by {
                            if j < i {
                                assert(v@[j] == before->0@[j]);
                            }
                        }
                    }
                    i = i + 1;
                }
                proof {
                    assert(ds.take(list@.len() as int) =~= ds);
                }
                Ok(package)
            },
            Ok(None) => Ok(package),
            Err(e) => Err(e),
        }
    }

    /// The package that unpacking yields: `UnpackFailed` where extraction
    /// failed, else the package read back from the installed metadata.
    pub fn unpack(extracted: bool, ident: Result<String, BldrError>, deps: Result<String, BldrError>) -> (r:
        Result<Package, BldrError>)
        ensures
            !extracted ==> r == Err::<Package, BldrError>(BldrError::UnpackFailed),
            extracted ==> package_contract(ident, deps, r),
    {
        if !extracted {
            return Err(BldrError::UnpackFailed);
        }
        Self::package(ident, deps)
    }
}

/// An archive whose `IDENT` entry is the identity text of a package with
/// clean fields reads back as a package with the same coordinates, whatever
/// its `DEPS` entry holds, unless reading `DEPS` failed other than by its
/// absence; the dependencies are those `DEPS` lists.
pub proof fn lemma_archive_round_trip(
    p: Package,
    ident: String,
    deps: Result<String, BldrError>,
    r: Result<Package, BldrError>,
)
    requires
        clean_field(p.derivation@),
        clean_field(p.name@),
        clean_field(p.version@),
        clean_field(p.release@),
        ident@ == ident_text(p),
        deps matches Err(e) ==> e is MetaFileNotFound,
        package_contract(Ok(ident), deps, r),
    ensures
        r matches Ok(q) && coords(q) == coords(p),
        r matches Ok(q) && (q.deps matches Some(v) ==> packages_with_coords(v@, listed_deps(deps))),
        deps is Err ==> (r matches Ok(q) && q.deps is None),
{
    lemma_ident_round_trip(p);
}

/// An archive whose `IDENT` entry is `acme/web/1.2.3/20230101000000` and
/// which has no `DEPS` entry reads back as that package, with no deps.
pub proof fn lemma_archive_example(ident: String, deps: Result<String, BldrError>, r: Result<Package, BldrError>)
    requires
        ident@ == "acme/web/1.2.3/20230101000000"@,
        deps matches Err(e) && e is MetaFileNotFound,
        package_contract(Ok(ident), deps, r),
    ensures
        r matches Ok(q) && q.derivation@ == "acme"@ && q.name@ == "web"@ && q.version@ == "1.2.3"@
            && q.release@ == "20230101000000"@ && q.deps is None,
{
    reveal_strlit("acme/web/1.2.3/20230101000000");
    reveal_strlit("acme");
    reveal_strlit("web");
    reveal_strlit("1.2.3");
    reveal_strlit("20230101000000");
    let (d, n, v, rel) = ("acme"@, "web"@, "1.2.3"@, "20230101000000"@);
    assert(ident@ =~= d + seq!['/'] + n + seq!['/'] + v + seq!['/'] + rel);
    assert(!d.contains('/'));
    assert(!n.contains('/'));
    assert(!v.contains('/'));
    assert(!rel.contains('/'));
    assert(trimmed(d) == d);
    assert(trimmed(n) == n);
    assert(trimmed(v) == v);
    assert(trimmed(rel) == rel);
    lemma_fields_round_trip(d, n, v, rel);
}

} // verus!
