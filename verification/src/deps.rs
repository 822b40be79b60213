//! Dependency checking: the strict pre-build check against the
//! installed-package database, and the best-effort static audit across
//! every recipe.  The two deliberately read different data sources and
//! are not unified.
use vstd::prelude::*;

use crate::recipe::Package;
use crate::text::{split_char_spec, split_on_char};

verus! {

/// A database line satisfies a dependency when it has at least two
/// comma-separated fields and its first field is the dependency's name.
pub open spec fn line_matches(l: Seq<char>, dep: Seq<char>) -> bool {
    split_char_spec(l, ',').len() >= 2 && split_char_spec(l, ',')[0] == dep
}

/// Some line of the database records the dependency as installed.
pub open spec fn dep_installed_lines(lines: Seq<Seq<char>>, dep: Seq<char>) -> bool {
    exists|k: int| 0 <= k < lines.len() && line_matches(#[trigger] lines[k], dep)
}

/// The dependency is recorded in the database text.
pub open spec fn dep_installed(db: Seq<char>, dep: Seq<char>) -> bool {
    dep_installed_lines(split_char_spec(db, '\n'), dep)
}

/// Whether the database lines record `dep` as installed.
fn dep_is_installed(lines: &Vec<String>, dep: &String) -> (r: bool)
    ensures
        r == dep_installed_lines(lines.deep_view(), dep@),
{
    let ghost ls = lines.deep_view();
    let mut k: usize = 0;
    while k < lines.len()
        invariant
            k <= ls.len(),
            ls == lines.deep_view(),
            forall|j: int| 0 <= j < k ==> !line_matches(#[trigger] ls[j], dep@),
        decreases ls.len() - k,
    {
        proof {
            assert(ls[k as int] == lines@[k as int]@);
        }
        let fields = split_on_char(lines[k].as_str(), ',');
        if fields.len() >= 2 {
            proof {
                assert(fields.deep_view()[0] == fields@[0]@);
            }
            if fields[0] == *dep {
                proof {
                    assert(line_matches(ls[k as int], dep@));
                }
                return true;
            }
        }
        k = k + 1;
    }
    false
}

/// The first dependency of a recipe that the installed-package database
/// does not record.
#[derive(Debug)]
pub struct MissingDependency {
    pub name: String,
}

/// The error names dependency index `i`: it is not installed, and every
/// dependency before it is.
pub open spec fn missing_dep_at(
    deps: Seq<Seq<char>>,
    db: Seq<char>,
    i: int,
    e: MissingDependency,
) -> bool {
    &&& 0 <= i < deps.len()
    &&& !dep_installed(db, deps[i])
    &&& forall|j: int| 0 <= j < i ==> dep_installed(db, #[trigger] deps[j])
    &&& e.name@ == deps[i]
}

/// The error names the first missing dependency.
pub open spec fn missing_dep(deps: Seq<Seq<char>>, db: Seq<char>, e: MissingDependency) -> bool {
    exists|i: int| missing_dep_at(deps, db, i, e)
}

/// The strict pre-build check: every dependency must be recorded in the
/// flat installed-package database; the first missing one fails the
/// whole build at once.
pub fn verify_installed(deps: &Vec<String>, db: &str) -> (r: Result<(), MissingDependency>)
    ensures
        r is Ok <==> forall|i: int|
            0 <= i < deps.deep_view().len() ==> dep_installed(db@, #[trigger] deps.deep_view()[i]),
        r matches Err(e) ==> missing_dep(deps.deep_view(), db@, e),
{
    let lines = split_on_char(db, '\n');
    let ghost dv = deps.deep_view();
    let mut i: usize = 0;
    while i < deps.len()
        invariant
            i <= dv.len(),
            dv == deps.deep_view(),
            lines.deep_view() == split_char_spec(db@, '\n'),
            forall|j: int| 0 <= j < i ==> dep_installed(db@, #[trigger] dv[j]),
        decreases dv.len() - i,
    {
        proof {
            assert(dv[i as int] == deps@[i as int]@);
        }
        if !dep_is_installed(&lines, &deps[i]) {
            let e = MissingDependency { name: deps[i].clone() };
            proof {
                assert(missing_dep_at(dv, db@, i as int, e));
                assert(missing_dep(dv, db@, e));
            }
            return Err(e);
        }
        i = i + 1;
    }
    Ok(())
}

/// How one dependency of one recipe is satisfied in the static audit.
#[derive(Debug)]
pub enum DepStatus {
    /// Another recipe's `name` equals the dependency.
    ByName,
    /// No recipe is named so, but one lists the dependency among its
    /// `provides`; the last such recipe wins.
    ByProvides { provider: String },
    /// No recipe satisfies the dependency; reported, never fatal.
    Missing,
}

/// The audit's result for one dependency of one recipe.
#[derive(Debug)]
pub struct DepFinding {
    pub dep: String,
    pub status: DepStatus,
}

/// The audit's result for one recipe: one finding per dependency, in
/// order, and a warning when the recipe declares none.
#[derive(Debug)]
pub struct PackageAudit {
    pub package: String,
    pub findings: Vec<DepFinding>,
    pub no_dependencies: bool,
}

/// Some recipe in the scan is named `name`.
pub open spec fn has_name(pkgs: Seq<Package>, name: Seq<char>) -> bool {
    exists|k: int| 0 <= k < pkgs.len() && (#[trigger] pkgs[k]).name@ == name
}

/// Recipe `p` lists `cap` among its `provides`.
pub open spec fn provides_contains(p: Package, cap: Seq<char>) -> bool {
    exists|j: int|
        0 <= j < p.provides.deep_view().len() && #[trigger] p.provides.deep_view()[j] == cap
}

/// The index of the last recipe providing `cap`, or `-1` when none
/// does: on provides collisions the last writer wins.
pub open spec fn find_last_provider(pkgs: Seq<Package>, cap: Seq<char>) -> int
    decreases pkgs.len(),
{
    if pkgs.len() == 0 {
        -1
    } else if provides_contains(pkgs.last(), cap) {
        pkgs.len() - 1
    } else {
        find_last_provider(pkgs.drop_last(), cap)
    }
}

/// The status `st` is the audit's verdict on dependency `dep`:
/// satisfied by name when some recipe is named so; otherwise satisfied
/// by the last provider when one exists; otherwise missing.
pub open spec fn status_matches(pkgs: Seq<Package>, dep: Seq<char>, st: DepStatus) -> bool {
    if has_name(pkgs, dep) {
        st is ByName
    } else if find_last_provider(pkgs, dep) >= 0 {
        st matches DepStatus::ByProvides { provider } && provider@ == pkgs[find_last_provider(
            pkgs,
            dep,
        )].name@
    } else {
        st is Missing
    }
}

/// Whether some recipe of the scan is named `name`.
fn scan_has_name(pkgs: &Vec<Package>, name: &String) -> (r: bool)
    ensures
        r == has_name(pkgs@, name@),
{
    let mut k: usize = 0;
    while k < pkgs.len()
        invariant
            k <= pkgs@.len(),
            forall|j: int| 0 <= j < k ==> (#[trigger] pkgs@[j]).name@ != name@,
        decreases pkgs@.len() - k,
    {
        if pkgs[k].name == *name {
            return true;
        }
        k = k + 1;
    }
    false
}

/// Whether one recipe provides `cap`.
fn package_provides(p: &Package, cap: &String) -> (r: bool)
    ensures
        r == provides_contains(*p, cap@),
{
    let mut j: usize = 0;
    while j < p.provides.len()
        invariant
            j <= p.provides@.len(),
            forall|i: int| 0 <= i < j ==> #[trigger] p.provides.deep_view()[i] != cap@,
        decreases p.provides@.len() - j,
    {
        proof {
            assert(p.provides.deep_view()[j as int] == p.provides@[j as int]@);
        }
        if p.provides[j] == *cap {
            return true;
        }
        j = j + 1;
    }
    false
}

/// The last recipe of the scan providing `cap`, if any.
fn scan_last_provider(pkgs: &Vec<Package>, cap: &String) -> (r: Option<usize>)
    ensures
        r matches Some(k) ==> k < pkgs@.len() && k == find_last_provider(pkgs@, cap@),
        r is None <==> find_last_provider(pkgs@, cap@) == -1,
{
    let mut k: usize = pkgs.len();
    proof {
        assert(pkgs@.subrange(0, pkgs@.len() as int) =~= pkgs@);
    }
    while k > 0
        invariant
            k <= pkgs@.len(),
            find_last_provider(pkgs@, cap@) == find_last_provider(
                pkgs@.subrange(0, k as int),
                cap@,
            ),
        decreases k,
    {
        proof {
            let part = pkgs@.subrange(0, k as int);
            assert(part.last() == pkgs@[k - 1]);
            assert(part.drop_last() =~= pkgs@.subrange(0, k - 1));
        }
        if package_provides(&pkgs[k - 1], cap) {
            return Some(k - 1);
        }
        k = k - 1;
    }
    proof {
        assert(pkgs@.subrange(0, 0) =~= Seq::<Package>::empty());
    }
    None
}

/// The audit's verdict on one dependency.
fn audit_dep(pkgs: &Vec<Package>, dep: &String) -> (r: DepStatus)
    ensures
        status_matches(pkgs@, dep@, r),
{
    if scan_has_name(pkgs, dep) {
        DepStatus::ByName
    } else {
        match scan_last_provider(pkgs, dep) {
            Some(k) => DepStatus::ByProvides { provider: pkgs[k].name.clone() },
            None => DepStatus::Missing,
        }
    }
}

/// The audit of one recipe is faithful: one finding per dependency, in
/// order, each with the audit's verdict, and the zero-dependency
/// warning exactly when the recipe declares no dependency.
pub open spec fn package_audit_matches(pkgs: Seq<Package>, p: Package, a: PackageAudit) -> bool {
    &&& a.package@ == p.name@
    &&& a.no_dependencies == (p.dependencies@.len() == 0)
    &&& a.findings@.len() == p.dependencies@.len()
    &&& forall|j: int|
        0 <= j < p.dependencies@.len() ==> (#[trigger] a.findings@[j]).dep@
            == p.dependencies.deep_view()[j] && status_matches(
            pkgs,
            p.dependencies.deep_view()[j],
            a.findings@[j].status,
        )
}

/// The best-effort static audit: every recipe is audited against every
/// other, missing dependencies are reported but never abort the scan,
/// and a recipe without dependencies is only warned about.
pub fn audit_all(pkgs: &Vec<Package>) -> (r: Vec<PackageAudit>)
    ensures
        r@.len() == pkgs@.len(),
        forall|i: int|
            0 <= i < pkgs@.len() ==> package_audit_matches(pkgs@, pkgs@[i], #[trigger] r@[i]),
{
    let mut out: Vec<PackageAudit> = Vec::new();
    let mut i: usize = 0;
    while i < pkgs.len()
        invariant
            i <= pkgs@.len(),
            out@.len() == i,
            forall|j: int|
                0 <= j < i ==> package_audit_matches(pkgs@, pkgs@[j], #[trigger] out@[j]),
        decreases pkgs@.len() - i,
    {
        let p = &pkgs[i];
        let mut findings: Vec<DepFinding> = Vec::new();
        let mut j: usize = 0;
        while j < p.dependencies.len()
            invariant
                j <= p.dependencies@.len(),
                findings@.len() == j,
                forall|m: int|
                    0 <= m < j ==> (#[trigger] findings@[m]).dep@
                        == p.dependencies.deep_view()[m] && status_matches(
                        pkgs@,
                        p.dependencies.deep_view()[m],
                        findings@[m].status,
                    ),
            decreases p.dependencies@.len() - j,
        {
            proof {
                assert(p.dependencies.deep_view()[j as int] == p.dependencies@[j as int]@);
            }
            let status = audit_dep(pkgs, &p.dependencies[j]);
            findings.push(DepFinding { dep: p.dependencies[j].clone(), status });
            j = j + 1;
        }
        let audit = PackageAudit {
            package: p.name.clone(),
            findings,
            no_dependencies: p.dependencies.len() == 0,
        };
        out.push(audit);
        i = i + 1;
    }
    out
}

} // verus!
