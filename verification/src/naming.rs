//! Deterministic naming: the staging pair, the distribution archive and
//! its sidecars, the well-known directories, and the shell commands the
//! driver hands to the sandbox.
use vstd::prelude::*;

use crate::recipe::Package;

verus! {

/// The directory recipes live under, one subdirectory per package.
pub fn pkgs_dir() -> (r: &'static str)
    ensures
        r@ == "pkgs"@,
{
    "pkgs"
}

/// The file name of a recipe script inside its package directory.
pub fn script_name() -> (r: &'static str)
    ensures
        r@ == "build.sh"@,
{
    "build.sh"
}

/// The shared cache directory downloaded sources land in.
pub fn sources_dir() -> (r: &'static str)
    ensures
        r@ == "sources"@,
{
    "sources"
}

/// The directory finished distribution archives land in.
pub fn dist_dir() -> (r: &'static str)
    ensures
        r@ == "dist"@,
{
    "dist"
}

/// The mirror table file.
pub fn mirror_file() -> (r: &'static str)
    ensures
        r@ == "mirrors.txt"@,
{
    "mirrors.txt"
}

/// The flat installed-package database the pre-build dependency check
/// reads.
pub fn local_db_path() -> (r: &'static str)
    ensures
        r@ == "/var/lib/fpm/local/db"@,
{
    "/var/lib/fpm/local/db"
}

/// The staging pair of one package: the work directory sources are
/// extracted into, and the destination root the stages install into.
pub open spec fn staging_dirs_spec(package_name: Seq<char>) -> (Seq<char>, Seq<char>) {
    ("/tmp/work-"@ + package_name, "/tmp/pkg-"@ + package_name)
}

/// Derives the staging pair `(work_dir, pkg_dir)` of one package.
pub fn get_dirs(package_name: &str) -> (r: (String, String))
    ensures
        r.0@ == staging_dirs_spec(package_name@).0,
        r.1@ == staging_dirs_spec(package_name@).1,
{
    let work = String::from_str("/tmp/work-").concat(package_name);
    let pkg = String::from_str("/tmp/pkg-").concat(package_name);
    (work, pkg)
}

/// `name-version-release`: the stem the archive and its sidecars share.
pub open spec fn output_name_spec(p: Package) -> Seq<char> {
    p.name@ + "-"@ + p.version@ + "-"@ + p.release@
}

/// Builds the archive stem `name-version-release` of a recipe.
pub fn output_name(p: &Package) -> (r: String)
    ensures
        r@ == output_name_spec(*p),
{
    let mut r = String::new();
    r.append(p.name.as_str());
    r.append("-");
    r.append(p.version.as_str());
    r.append("-");
    r.append(p.release.as_str());
    proof {
        assert(r@ =~= output_name_spec(*p));
    }
    r
}

/// The distribution archive path of a recipe.
pub open spec fn dist_filepath_spec(p: Package) -> Seq<char> {
    "dist/"@ + output_name_spec(p) + ".tar.zst"@
}

/// Builds the distribution archive path `dist/name-version-release.tar.zst`.
pub fn get_dist_filepath(p: &Package) -> (r: String)
    ensures
        r@ == dist_filepath_spec(*p),
{
    let stem = output_name(p);
    let mut r = String::from_str("dist/");
    r.append(stem.as_str());
    r.append(".tar.zst");
    proof {
        assert(r@ =~= dist_filepath_spec(*p));
    }
    r
}

/// The metadata sidecar path of a recipe.
pub open spec fn metadata_path_spec(p: Package) -> Seq<char> {
    "dist/"@ + p.name@ + ".meta"@
}

/// Builds the metadata sidecar path `dist/name.meta`.
pub fn metadata_path(p: &Package) -> (r: String)
    ensures
        r@ == metadata_path_spec(*p),
{
    let mut r = String::from_str("dist/");
    r.append(p.name.as_str());
    r.append(".meta");
    proof {
        assert(r@ =~= metadata_path_spec(*p));
    }
    r
}

/// The metadata sidecar content: name, version and release, one per
/// line.
pub open spec fn metadata_content_spec(p: Package) -> Seq<char> {
    p.name@ + "\n"@ + p.version@ + "\n"@ + p.release@ + "\n"@
}

/// Builds the metadata sidecar content of a recipe.
pub fn metadata_content(p: &Package) -> (r: String)
    ensures
        r@ == metadata_content_spec(*p),
{
    let mut r = String::new();
    r.append(p.name.as_str());
    r.append("\n");
    r.append(p.version.as_str());
    r.append("\n");
    r.append(p.release.as_str());
    r.append("\n");
    proof {
        assert(r@ =~= metadata_content_spec(*p));
    }
    r
}

/// The shell command that packs the staging destination into the
/// distribution archive with a streaming compressor.
pub open spec fn archive_command_spec(p: Package, pkg_dir: Seq<char>) -> Seq<char> {
    "tar -Izstd -cf 'dist/"@ + output_name_spec(p) + ".tar.zst' -C '"@ + pkg_dir + "' ."@
}

/// Builds the archive-creation shell command of a recipe.
pub fn archive_command(p: &Package, pkg_dir: &str) -> (r: String)
    ensures
        r@ == archive_command_spec(*p, pkg_dir@),
{
    let stem = output_name(p);
    let mut r = String::from_str("tar -Izstd -cf 'dist/");
    r.append(stem.as_str());
    r.append(".tar.zst' -C '");
    r.append(pkg_dir);
    r.append("' .");
    proof {
        assert(r@ =~= archive_command_spec(*p, pkg_dir@));
    }
    r
}

/// The shell command that produces the armored detached signature of
/// the distribution archive.
pub open spec fn sign_command_spec(p: Package) -> Seq<char> {
    "gpg --detach-sign --armor --output 'dist/"@ + output_name_spec(p) + ".tar.zst.asc' 'dist/"@
        + output_name_spec(p) + ".tar.zst'"@
}

/// Builds the archive-signing shell command of a recipe.
pub fn sign_command(p: &Package) -> (r: String)
    ensures
        r@ == sign_command_spec(*p),
{
    let stem = output_name(p);
    let mut r = String::from_str("gpg --detach-sign --armor --output 'dist/");
    r.append(stem.as_str());
    r.append(".tar.zst.asc' 'dist/");
    r.append(stem.as_str());
    r.append(".tar.zst'");
    proof {
        assert(r@ =~= sign_command_spec(*p));
    }
    r
}

/// One path under another: `base/rel`.
pub open spec fn join_path_spec(base: Seq<char>, rel: Seq<char>) -> Seq<char> {
    base + "/"@ + rel
}

/// Joins a relative path onto a base directory with a single `/`.
pub fn join_path(base: &str, rel: &str) -> (r: String)
    ensures
        r@ == join_path_spec(base@, rel@),
{
    let mut r = String::from_str(base);
    r.append("/");
    r.append(rel);
    proof {
        assert(r@ =~= join_path_spec(base@, rel@));
    }
    r
}

} // verus!
