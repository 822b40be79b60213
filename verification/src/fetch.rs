//! Source acquisition planning: classifying each declared source as
//! remote or local, deciding between the shared cache and a fresh
//! fetch, and planning how each source enters the work directory.
use vstd::prelude::*;

use crate::paths::{filename_spec, get_filename, has_filename, is_remote_source, is_remote_spec,
    is_tar_file, is_tar_name};
use crate::recipe::Package;

verus! {

/// A source that cannot be handled: a remote source without a usable
/// file name.
#[derive(Debug)]
pub struct InvalidSource {
    pub source: String,
}

/// What the fetcher does for one declared source.
#[derive(Debug)]
pub enum FetchDecision {
    /// A local in-tree file: nothing to fetch.
    Local,
    /// A remote source already present in the shared cache: reuse it,
    /// trusting content by presence until checksum verification.
    Reuse { filepath: String },
    /// A remote source to fetch into the shared cache.
    Fetch { url: String, filepath: String },
}

/// The shared-cache path of a remote source: `sources/` plus the
/// source's file name.
pub open spec fn cache_path_spec(source: Seq<char>) -> Seq<char> {
    "sources/"@ + filename_spec(source)
}

/// The cache path a remote source downloads to, or `None` when the
/// source has no usable file name.
pub fn source_cache_path(source: &str) -> (r: Option<String>)
    ensures
        r is Some <==> has_filename(source@),
        r matches Some(f) ==> f@ == cache_path_spec(source@),
{
    match get_filename(source) {
        Some(name) => {
            let mut f = String::from_str("sources/");
            f.append(name.as_str());
            proof {
                assert(f@ =~= cache_path_spec(source@));
            }
            Some(f)
        },
        None => None,
    }
}

/// The decision `r` is right for `source`: local sources need nothing,
/// a cached remote source is reused, and any other remote source is
/// fetched from its URL into the shared cache.
pub open spec fn fetch_decision_matches(source: Seq<char>, cached: bool, r: FetchDecision) -> bool {
    if !is_remote_spec(source) {
        r is Local
    } else if cached {
        r matches FetchDecision::Reuse { filepath } && filepath@ == cache_path_spec(source)
    } else {
        r matches FetchDecision::Fetch { url, filepath } && url@ == source && filepath@
            == cache_path_spec(source)
    }
}

/// Decides how one declared source is acquired.  `cached` reports
/// whether the source's cache path already holds a file.
pub fn plan_source_fetch(source: &str, cached: bool) -> (r: Result<FetchDecision, InvalidSource>)
    ensures
        r is Ok <==> (!is_remote_spec(source@) || has_filename(source@)),
        r matches Ok(d) ==> fetch_decision_matches(source@, cached, d),
        r matches Err(e) ==> e.source@ == source@ && is_remote_spec(source@) && !has_filename(
            source@,
        ),
{
    if !is_remote_source(source) {
        return Ok(FetchDecision::Local);
    }
    match source_cache_path(source) {
        None => Err(InvalidSource { source: String::from_str(source) }),
        Some(filepath) => {
            if cached {
                Ok(FetchDecision::Reuse { filepath })
            } else {
                Ok(FetchDecision::Fetch { url: String::from_str(source), filepath })
            }
        },
    }
}

/// The quiet fetch command of one remote source, downloading into the
/// shared cache directory.
pub open spec fn wget_command_spec(url: Seq<char>) -> Seq<char> {
    "wget -q \""@ + url + "\" -P \"sources\""@
}

/// Builds the fetch command of one remote source.
pub fn wget_command(url: &str) -> (r: String)
    ensures
        r@ == wget_command_spec(url@),
{
    let mut r = String::from_str("wget -q \"");
    r.append(url);
    r.append("\" -P \"sources\"");
    proof {
        assert(r@ =~= wget_command_spec(url@));
    }
    r
}

/// How one declared source enters the work directory.
#[derive(Debug)]
pub enum ExtractAction {
    /// A remote tar archive: unpack it into the work directory,
    /// stripping the archive's single top-level directory.
    Untar { archive: String, dest: String },
    /// Any other remote file: copy it from the shared cache.
    CopyRemote { from: String, to: String },
    /// A local file: copy it from the recipe's own directory.
    CopyLocal { from: String, to: String },
}

/// The unpack command of one cached tar archive.
pub open spec fn untar_command_spec(archive: Seq<char>, dest: Seq<char>) -> Seq<char> {
    "tar -xf "@ + archive + " -C "@ + dest + " --strip-components=1"@
}

/// Builds the unpack command of one cached tar archive.
pub fn untar_command(archive: &str, dest: &str) -> (r: String)
    ensures
        r@ == untar_command_spec(archive@, dest@),
{
    let mut r = String::from_str("tar -xf ");
    r.append(archive);
    r.append(" -C ");
    r.append(dest);
    r.append(" --strip-components=1");
    proof {
        assert(r@ =~= untar_command_spec(archive@, dest@));
    }
    r
}

/// The action `a` is right for source `i` of the recipe: remote tar
/// archives are unpacked from the cache into the work directory, other
/// remote files are copied from the cache, and local files are copied
/// from the recipe's directory.
pub open spec fn extract_action_matches(p: Package, work_dir: Seq<char>, i: int, a: ExtractAction)
    -> bool {
    let source = p.sources.deep_view()[i];
    let fname = filename_spec(source);
    if is_remote_spec(source) {
        if is_tar_name(fname) {
            a matches ExtractAction::Untar { archive, dest } && archive@ == cache_path_spec(source)
                && dest@ == work_dir
        } else {
            a matches ExtractAction::CopyRemote { from, to } && from@ == cache_path_spec(source)
                && to@ == work_dir + "/"@ + fname
        }
    } else {
        a matches ExtractAction::CopyLocal { from, to } && from@ == "pkgs/"@ + p.name@ + "/"@
            + fname && to@ == work_dir + "/"@ + fname
    }
}

/// The error names source `i`: it has no usable file name and every
/// earlier source has one.
pub open spec fn invalid_source_at(p: Package, i: int, e: InvalidSource) -> bool {
    &&& 0 <= i < p.sources.deep_view().len()
    &&& !has_filename(p.sources.deep_view()[i])
    &&& forall|j: int| 0 <= j < i ==> has_filename(#[trigger] p.sources.deep_view()[j])
    &&& e.source@ == p.sources.deep_view()[i]
}

/// The error names the first source without a usable file name.
pub open spec fn invalid_source(p: Package, e: InvalidSource) -> bool {
    exists|i: int| invalid_source_at(p, i, e)
}

/// Plans how every declared source enters the work directory, in
/// source order, failing fast on the first source without a usable
/// file name.
pub fn plan_extract(p: &Package, work_dir: &str) -> (r: Result<Vec<ExtractAction>, InvalidSource>)
    ensures
        r is Ok <==> forall|i: int|
            0 <= i < p.sources.deep_view().len() ==> has_filename(
                #[trigger] p.sources.deep_view()[i],
            ),
        r matches Ok(v) ==> v@.len() == p.sources.deep_view().len() && forall|i: int|
            0 <= i < v@.len() ==> extract_action_matches(*p, work_dir@, i, #[trigger] v@[i]),
        r matches Err(e) ==> invalid_source(*p, e),
{
    let ghost sv = p.sources.deep_view();
    let mut out: Vec<ExtractAction> = Vec::new();
    let mut i: usize = 0;
    while i < p.sources.len()
        invariant
            i <= sv.len(),
            sv == p.sources.deep_view(),
            out@.len() == i,
            forall|j: int| 0 <= j < i ==> has_filename(#[trigger] sv[j]),
            forall|j: int|
                0 <= j < i ==> extract_action_matches(*p, work_dir@, j, #[trigger] out@[j]),
        decreases sv.len() - i,
    {
        proof {
            assert(sv[i as int] == p.sources@[i as int]@);
        }
        let source = &p.sources[i];
        let fname = match get_filename(source.as_str()) {
            Some(f) => f,
            None => {
                let e = InvalidSource { source: source.clone() };
                proof {
                    assert(invalid_source_at(*p, i as int, e));
                    assert(invalid_source(*p, e));
                }
                return Err(e);
            },
        };
        let action = if is_remote_source(source.as_str()) {
            let mut cache = String::from_str("sources/");
            cache.append(fname.as_str());
            proof {
                assert(cache@ =~= cache_path_spec(sv[i as int]));
            }
            if is_tar_file(fname.as_str()) {
                ExtractAction::Untar { archive: cache, dest: String::from_str(work_dir) }
            } else {
                let mut to = String::from_str(work_dir);
                to.append("/");
                to.append(fname.as_str());
                proof {
                    assert(to@ =~= work_dir@ + "/"@ + filename_spec(sv[i as int]));
                }
                ExtractAction::CopyRemote { from: cache, to }
            }
        } else {
            let mut from = String::from_str("pkgs/");
            from.append(p.name.as_str());
            from.append("/");
            from.append(fname.as_str());
            let mut to = String::from_str(work_dir);
            to.append("/");
            to.append(fname.as_str());
            proof {
                assert(from@ =~= "pkgs/"@ + p.name@ + "/"@ + filename_spec(sv[i as int]));
                assert(to@ =~= work_dir@ + "/"@ + filename_spec(sv[i as int]));
            }
            ExtractAction::CopyLocal { from, to }
        };
        out.push(action);
        i = i + 1;
    }
    Ok(out)
}

} // verus!
