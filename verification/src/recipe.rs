//! Recipes: the declarative description of one package, assembled from
//! the raw variable expansions that the recipe evaluator returns.
use vstd::prelude::*;

use crate::mirror::{pairs_view, resolve_all_spec, resolve_mirrors};
use crate::text::{split_whitespace, split_whitespace_spec};

verus! {

/// The metadata of one package: identity, sources with their declared
/// checksums, and dependency information.
///
/// The checksum lists are positionally aligned with `sources`; they need
/// not have equal length, and verification only applies up to the length
/// of each list.
#[derive(Debug)]
pub struct Package {
    pub name: String,
    pub version: String,
    pub release: String,
    pub sources: Vec<String>,
    pub sha256sums: Vec<String>,
    pub sha512sums: Vec<String>,
    pub b2sums: Vec<String>,
    pub validpgpkeys: Vec<String>,
    pub provides: Vec<String>,
    pub dependencies: Vec<String>,
}

impl Package {
    /// Assembles a recipe from the raw variable expansions of the recipe
    /// script: list fields are split on whitespace, and the mirror table
    /// is applied to every source.
    #[allow(clippy::too_many_arguments)]
    pub fn from_vars(
        name: &str,
        version: &str,
        release: &str,
        sources: &str,
        sha256sums: &str,
        sha512sums: &str,
        b2sums: &str,
        validpgpkeys: &str,
        provides: &str,
        dependencies: &str,
        mirrors: &Vec<(String, String)>,
    ) -> (r: Package)
        ensures
            r.name@ == name@,
            r.version@ == version@,
            r.release@ == release@,
            r.sources.deep_view() == resolve_all_spec(
                split_whitespace_spec(sources@),
                pairs_view(mirrors@),
            ),
            r.sha256sums.deep_view() == split_whitespace_spec(sha256sums@),
            r.sha512sums.deep_view() == split_whitespace_spec(sha512sums@),
            r.b2sums.deep_view() == split_whitespace_spec(b2sums@),
            r.validpgpkeys.deep_view() == split_whitespace_spec(validpgpkeys@),
            r.provides.deep_view() == split_whitespace_spec(provides@),
            r.dependencies.deep_view() == split_whitespace_spec(dependencies@),
    {
        let raw_sources = split_whitespace(sources);
        Package {
            name: String::from_str(name),
            version: String::from_str(version),
            release: String::from_str(release),
            sources: resolve_mirrors(&raw_sources, mirrors),
            sha256sums: split_whitespace(sha256sums),
            sha512sums: split_whitespace(sha512sums),
            b2sums: split_whitespace(b2sums),
            validpgpkeys: split_whitespace(validpgpkeys),
            provides: split_whitespace(provides),
            dependencies: split_whitespace(dependencies),
        }
    }
}

} // verus!
