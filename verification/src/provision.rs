//! Bundled-interpreter provisioning decisions.
//!
//! Obtaining the bundled interpreter means choosing what to download and
//! where to find it inside what was fetched.  Those decisions are pure:
//! classifying the build target, selecting the release asset that fits it,
//! and locating a package inside a repository index read as JSON lines.  The
//! downloading and unpacking around them is I/O and stays outside the
//! library.

use vstd::prelude::*;
use vstd::string::*;
use crate::text::{
    find_at,
    spec_contains,
    spec_ends_with,
    lower_chars,
    lemma_find_at,
    contains_str,
    ends_with_str,
    ascii_lower,
    str_eq,
    find_from,
};

verus! {

/// Classifies the build target: the architecture as reported by the
/// toolchain, and the C library flavour — `musl` exactly when the target
/// environment says so, `gnu` otherwise.
pub fn detect_target(arch: &str, target_env: &str) -> (r: (String, String))
    requires
        arch@ == "x86_64"@ || arch@ == "aarch64"@,
    ensures
        r.0@ == arch@,
        target_env@ == "musl"@ ==> r.1@ == "musl"@,
        target_env@ != "musl"@ ==> r.1@ == "gnu"@,
{
    let flavour: &str = if str_eq(target_env, "musl") {
        "musl"
    } else {
        "gnu"
    };
    (arch.to_owned(), flavour.to_owned())
}

/// One downloadable asset of an interpreter release: its file name and its
/// download address.
pub struct Asset {
    pub name: String,
    pub url: String,
}

/// The plan for obtaining the bundled interpreter: which asset to download.
/// The name is kept in its lowered form, as the selection saw it.
#[derive(Debug)]
pub struct ProvisionPlan {
    pub asset_name: String,
    pub asset_url: String,
}

/// Whether an asset of this name fits a Linux target of the given
/// architecture and C library: judged on the lowered name, it must mention
/// the platform and the architecture, mention `musl` exactly when the target
/// does, and be a `.tar.xz` or `.txz` archive.
pub open spec fn asset_matches(name: Seq<char>, arch: Seq<char>, env: Seq<char>) -> bool {
    let lname = lower_chars(name);
    &&& spec_contains(lname, "linux"@)
    &&& spec_contains(lname, arch)
    &&& (if env == "musl"@ {
        spec_contains(lname, "musl"@)
    } else {
        !spec_contains(lname, "musl"@)
    })
    &&& (spec_ends_with(lname, ".tar.xz"@) || spec_ends_with(lname, ".txz"@))
}

/// The first fitting asset, as its lowered name and its address.
pub open spec fn spec_select(assets: Seq<Asset>, arch: Seq<char>, env: Seq<char>) -> Option<
    (Seq<char>, Seq<char>),
>
    decreases assets.len(),
{
    if assets.len() == 0 {
        None
    } else if asset_matches(assets[0].name@, arch, env) {
        Some((lower_chars(assets[0].name@), assets[0].url@))
    } else {
        spec_select(assets.drop_first(), arch, env)
    }
}

/// When the first `p` assets do not fit, selection looks past them.
proof fn lemma_select_skip(assets: Seq<Asset>, arch: Seq<char>, env: Seq<char>, p: int)
    requires
        0 <= p <= assets.len(),
        forall|j: int| 0 <= j < p ==> !asset_matches((#[trigger] assets[j]).name@, arch, env),
    ensures
        spec_select(assets, arch, env) == spec_select(assets.skip(p), arch, env),
    decreases p,
{
    if p > 0 {
        assert(!asset_matches(assets[0].name@, arch, env));
        assert forall|j: int| 0 <= j < p - 1 implies !asset_matches(
            (#[trigger] assets.drop_first()[j]).name@,
            arch,
            env,
        ) by {
            assert(assets.drop_first()[j] == assets[j + 1]);
        }
        lemma_select_skip(assets.drop_first(), arch, env, p - 1);
        assert(assets.drop_first().skip(p - 1) =~= assets.skip(p));
    } else {
        assert(assets.skip(0) =~= assets);
    }
}

/// Selects the first release asset fitting the target, yielding its lowered
/// name and its download address.
pub fn select_asset(assets: &Vec<Asset>, arch: &str, env: &str) -> (r: Option<(String, String)>)
    ensures
        r is Some <==> spec_select(assets@, arch@, env@) is Some,
        r matches Some(p) ==> spec_select(assets@, arch@, env@) matches Some(sel) && p.0@ == sel.0
            && p.1@ == sel.1,
{
    let mut i: usize = 0;
    while i < assets.len()
        invariant
            0 <= i <= assets@.len(),
            forall|j: int| 0 <= j < i ==> !asset_matches((#[trigger] assets@[j]).name@, arch@, env@),
        decreases assets@.len() - i,
    {
        let lname = ascii_lower(assets[i].name.as_str());
        let fits = contains_str(lname.as_str(), "linux") && contains_str(lname.as_str(), arch) && (
        if str_eq(env, "musl") {
            contains_str(lname.as_str(), "musl")
        } else {
            !contains_str(lname.as_str(), "musl")
        }) && (ends_with_str(lname.as_str(), ".tar.xz") || ends_with_str(lname.as_str(), ".txz"));
        if fits {
            proof {
                lemma_select_skip(assets@, arch@, env@, i as int);
                assert(assets@.skip(i as int)[0] == assets@[i as int]);
            }
            return Some((lname, assets[i].url.clone()));
        }
        i = i + 1;
    }
    proof {
        lemma_select_skip(assets@, arch@, env@, assets@.len() as int);
        assert(assets@.skip(assets@.len() as int).len() == 0);
    }
    None
}

/// Decides how to provision the bundled interpreter for a Linux target:
/// the first release asset fitting the architecture and C library flavour,
/// or an error naming the target when none fits.  Downloading the chosen
/// asset and unpacking the interpreter out of it is the caller's I/O.
pub fn provision_fish(assets: &Vec<Asset>, arch: &str, env: &str) -> (r: Result<
    ProvisionPlan,
    String,
>)
    ensures
        r is Ok <==> spec_select(assets@, arch@, env@) is Some,
        r matches Ok(p) ==> spec_select(assets@, arch@, env@) matches Some(sel) && p.asset_name@
            == sel.0 && p.asset_url@ == sel.1,
{
    match select_asset(assets, arch, env) {
        Some((name, url)) => Ok(ProvisionPlan { asset_name: name, asset_url: url }),
        None => {
            let mut m = "No matching fish asset found for ".to_owned();
            m.append(arch);
            m.append("-");
            m.append(env);
            m.append(" on Linux");
            Err(m)
        },
    }
}

/// A package repository index read as JSON lines, one record per line.
pub struct PkgRepoIndex {
    lines: Vec<String>,
}

/// The record marker naming a package.
pub open spec fn spec_name_query(pkg: Seq<char>) -> Seq<char> {
    "\"name\":\""@ + pkg + "\""@
}

/// The field marker a package path follows.
pub open spec fn path_marker() -> Seq<char> {
    "\"path\":\""@
}

/// The path field of a record line: what stands after the first path marker,
/// up to the next quote (or the end of the line when none follows).
pub open spec fn spec_extract_path(line: Seq<char>) -> Option<Seq<char>> {
    let i = find_at(line, path_marker(), 0);
    if i < 0 {
        None
    } else {
        let start = i + path_marker().len();
        let j = find_at(line, "\""@, start);
        if j < 0 {
            Some(line.subrange(start, line.len() as int))
        } else {
            Some(line.subrange(start, j))
        }
    }
}

/// The path of the named package: the extracted path field of the first line
/// whose record names it — which may be absent when that line carries no
/// path field.
pub open spec fn spec_find_package(lines: Seq<Seq<char>>, pkg: Seq<char>) -> Option<Seq<char>>
    decreases lines.len(),
{
    if lines.len() == 0 {
        None
    } else if spec_contains(lines[0], spec_name_query(pkg)) {
        spec_extract_path(lines[0])
    } else {
        spec_find_package(lines.drop_first(), pkg)
    }
}

/// When the first `p` lines do not name the package, the search looks past
/// them.
proof fn lemma_find_package_skip(lines: Seq<Seq<char>>, pkg: Seq<char>, p: int)
    requires
        0 <= p <= lines.len(),
        forall|j: int| 0 <= j < p ==> !spec_contains(#[trigger] lines[j], spec_name_query(pkg)),
    ensures
        spec_find_package(lines, pkg) == spec_find_package(lines.skip(p), pkg),
    decreases p,
{
    if p > 0 {
        assert(!spec_contains(lines[0], spec_name_query(pkg)));
        assert forall|j: int| 0 <= j < p - 1 implies !spec_contains(
            #[trigger] lines.drop_first()[j],
            spec_name_query(pkg),
        ) by {
            assert(lines.drop_first()[j] == lines[j + 1]);
        }
        lemma_find_package_skip(lines.drop_first(), pkg, p - 1);
        assert(lines.drop_first().skip(p - 1) =~= lines.skip(p));
    } else {
        assert(lines.skip(0) =~= lines);
    }
}

impl PkgRepoIndex {
    /// The lines of the index.
    pub closed spec fn lines_view(self) -> Seq<Seq<char>> {
        self.lines.deep_view()
    }

    /// An index over the given lines.
    pub fn new(lines: Vec<String>) -> (r: Self)
        ensures
            r.lines_view() == lines.deep_view(),
    {
        PkgRepoIndex { lines }
    }

    /// Extracts the path field of one record line.
    fn extract_path(line: &str) -> (r: Option<String>)
        ensures
            r is Some <==> spec_extract_path(line@) is Some,
            r matches Some(p) ==> spec_extract_path(line@) matches Some(sp) && p@ == sp,
    {
        let llen = line.unicode_len();
        let marker = "\"path\":\"";
        let mlen = marker.unicode_len();
        match find_from(line, marker, 0) {
            None => None,
            Some(i) => {
                proof {
                    lemma_find_at(line@, marker@, 0);
                }
                let start = i + mlen;
                let end = match find_from(line, "\"", start) {
                    Some(j) => {
                        proof {
                            lemma_find_at(line@, "\""@, start as int);
                        }
                        j
                    },
                    None => line.unicode_len(),
                };
                Some(line.substring_char(start, end).to_owned())
            },
        }
    }

    /// Finds the path of the named package: scans the lines in order for the
    /// first record naming the package and extracts its path field.
    pub fn find_package_path(&self, package_name: &str) -> (r: Option<String>)
        ensures
            r is Some <==> spec_find_package(self.lines_view(), package_name@) is Some,
            r matches Some(p) ==> spec_find_package(self.lines_view(), package_name@) matches Some(
                sp,
            ) && p@ == sp,
    {
        let ghost lines = self.lines_view();
        let mut query = "\"name\":\"".to_owned();
        query.append(package_name);
        query.append("\"");
        proof {
            assert(query@ =~= spec_name_query(package_name@));
        }
        let mut i: usize = 0;
        while i < self.lines.len()
            invariant
                0 <= i <= lines.len(),
                lines == self.lines_view(),
                lines.len() == self.lines@.len(),
                query@ == spec_name_query(package_name@),
                forall|j: int|
                    0 <= j < i ==> !spec_contains(
                        #[trigger] lines[j],
                        spec_name_query(package_name@),
                    ),
            decreases lines.len() - i,
        {
            proof {
                assert(lines[i as int] == self.lines@[i as int]@);
            }
            if contains_str(self.lines[i].as_str(), query.as_str()) {
                proof {
                    lemma_find_package_skip(lines, package_name@, i as int);
                    assert(lines.skip(i as int)[0] == lines[i as int]);
                }
                return Self::extract_path(self.lines[i].as_str());
            }
            i = i + 1;
        }
        proof {
            lemma_find_package_skip(lines, package_name@, lines.len() as int);
        }
        None
    }
}

} // verus!
