use fpm::deps::{audit_all, verify_installed, DepStatus};
use fpm::mirror::{parse_mirror_table, resolve_mirrors, resolve_source};
use fpm::paths::{get_filename, is_remote_source, is_signature_file, is_tar_file};
use fpm::recipe::Package;
use fpm::text::{replace_all, split_on_char, split_whitespace, to_lower};

fn strings(items: &[&str]) -> Vec<String> {
    items.iter().map(|s| s.to_string()).collect()
}

fn pairs(items: &[(&str, &str)]) -> Vec<(String, String)> {
    items.iter().map(|(a, b)| (a.to_string(), b.to_string())).collect()
}

#[test]
fn split_whitespace_drops_empty_tokens() {
    let r = split_whitespace("  one\ttwo \n three  ");
    assert_eq!(r, strings(&["one", "two", "three"]));
    let r = split_whitespace("");
    assert!(r.is_empty());
    let r = split_whitespace("   \t\n");
    assert!(r.is_empty());
}

#[test]
fn split_on_char_keeps_empty_fields() {
    let r = split_on_char("a,,b,", ',');
    assert_eq!(r, strings(&["a", "", "b", ""]));
    let r = split_on_char("", ',');
    assert_eq!(r, strings(&[""]));
}

#[test]
fn replace_all_is_literal_and_left_to_right() {
    assert_eq!(replace_all("aaa", "aa", "b"), "ba");
    assert_eq!(replace_all("hello world", "o", "0"), "hell0 w0rld");
    assert_eq!(replace_all("abc", "", "x"), "abc");
    assert_eq!(replace_all("abc", "zz", "x"), "abc");
}

#[test]
fn to_lower_folds_ascii_only() {
    assert_eq!(to_lower("AbC123"), "abc123");
    assert_eq!(to_lower("DEADBEEF"), "deadbeef");
}

#[test]
fn mirror_resolution_applies_pairs_in_order() {
    let table = pairs(&[("https://old.example", "https://mirror.example"), ("mirror", "m2")]);
    let r = resolve_source("https://old.example/pkg.tar.gz", &table);
    assert_eq!(r, "https://m2.example/pkg.tar.gz");
}

#[test]
fn mirror_resolution_identity_without_table() {
    let sources = strings(&["https://x/a.tar.gz", "local.patch"]);
    let r = resolve_mirrors(&sources, &Vec::new());
    assert_eq!(r, sources);
}

#[test]
fn mirror_resolution_idempotent_when_no_pattern_survives() {
    let table = pairs(&[("https://a.example", "https://b.example")]);
    let sources = strings(&["https://a.example/p.tar.gz"]);
    let once = resolve_mirrors(&sources, &table);
    let twice = resolve_mirrors(&once, &table);
    assert_eq!(once, twice);
    assert_eq!(once, strings(&["https://b.example/p.tar.gz"]));
}

#[test]
fn mirror_resolution_not_idempotent_when_output_recreates_pattern() {
    // The replacement re-creates the pattern, so a second pass changes
    // the result again.
    let table = pairs(&[("ab", "a")]);
    let sources = strings(&["abb"]);
    let once = resolve_mirrors(&sources, &table);
    assert_eq!(once, strings(&["ab"]));
    let twice = resolve_mirrors(&once, &table);
    assert_eq!(twice, strings(&["a"]));
    assert_ne!(once, twice);
}

#[test]
fn mirror_table_parses_nonempty_lines() {
    let r = parse_mirror_table("p1 r1\n\np2 r2\n").unwrap();
    assert_eq!(r, pairs(&[("p1", "r1"), ("p2", "r2")]));
}

#[test]
fn mirror_table_refuses_malformed_line() {
    let e = parse_mirror_table("p1 r1\nonly-one-field\n").unwrap_err();
    assert_eq!(e.line, 1);
    let e = parse_mirror_table("a b c\n").unwrap_err();
    assert_eq!(e.line, 0);
}

#[test]
fn get_filename_takes_final_component() {
    assert_eq!(get_filename("https://x/a.tar.gz"), Some("a.tar.gz".to_string()));
    assert_eq!(get_filename("dir/sub/file.txt"), Some("file.txt".to_string()));
    assert_eq!(get_filename("bare"), Some("bare".to_string()));
    assert_eq!(get_filename("dir/"), Some("dir".to_string()));
    assert_eq!(get_filename(""), None);
    assert_eq!(get_filename("a/.."), None);
    assert_eq!(get_filename("a/."), None);
    assert_eq!(get_filename("///"), None);
}

#[test]
fn tar_and_signature_names_recognised_by_extension() {
    assert!(is_tar_file("a.tar.gz"));
    assert!(is_tar_file("a.tar.zst"));
    assert!(is_tar_file("a.tgz"));
    assert!(is_tar_file("a.tar.xz"));
    assert!(!is_tar_file("a.zip"));
    assert!(!is_tar_file("a.tar"));
    assert!(is_signature_file("a.tar.gz.asc"));
    assert!(is_signature_file("a.sig"));
    assert!(!is_signature_file("a.tar.gz"));
}

#[test]
fn remote_sources_look_like_urls() {
    assert!(is_remote_source("https://x/a.tar.gz"));
    assert!(is_remote_source("http://x/a"));
    assert!(!is_remote_source("local-file.patch"));
}

#[test]
fn package_from_vars_splits_lists_and_resolves_mirrors() {
    let table = pairs(&[("https://slow.example", "https://fast.example")]);
    let p = Package::from_vars(
        "tool",
        "1.2",
        "3",
        "https://slow.example/t.tar.gz extra.patch",
        "abc def",
        "",
        "SKIP",
        "",
        "virt-tool",
        "libc zlib",
        &table,
    );
    assert_eq!(p.name, "tool");
    assert_eq!(p.version, "1.2");
    assert_eq!(p.release, "3");
    assert_eq!(p.sources, strings(&["https://fast.example/t.tar.gz", "extra.patch"]));
    assert_eq!(p.sha256sums, strings(&["abc", "def"]));
    assert!(p.sha512sums.is_empty());
    assert_eq!(p.b2sums, strings(&["SKIP"]));
    assert_eq!(p.provides, strings(&["virt-tool"]));
    assert_eq!(p.dependencies, strings(&["libc", "zlib"]));
}

#[test]
fn installed_dependencies_verify_against_flat_db() {
    let db = "libc,1.0\nzlib,2.1\n";
    assert!(verify_installed(&strings(&["libc", "zlib"]), db).is_ok());
    assert!(verify_installed(&Vec::new(), db).is_ok());
}

#[test]
fn first_missing_dependency_fails_fast() {
    let db = "libc,1.0\n";
    let e = verify_installed(&strings(&["libc", "absent", "alsoabsent"]), db).unwrap_err();
    assert_eq!(e.name, "absent");
}

#[test]
fn db_record_needs_two_fields() {
    // A record with only a name field does not count as installed.
    let db = "libc\n";
    let e = verify_installed(&strings(&["libc"]), db).unwrap_err();
    assert_eq!(e.name, "libc");
}

fn recipe(name: &str, provides: &[&str], dependencies: &[&str]) -> Package {
    Package::from_vars(
        name,
        "1",
        "1",
        "",
        "",
        "",
        "",
        "",
        &provides.join(" "),
        &dependencies.join(" "),
        &Vec::new(),
    )
}

#[test]
fn audit_reports_name_provides_and_missing() {
    let pkgs = vec![
        recipe("alpha", &[], &["beta", "virt", "ghost"]),
        recipe("beta", &[], &[]),
        recipe("gamma", &["virt"], &["alpha"]),
    ];
    let report = audit_all(&pkgs);
    assert_eq!(report.len(), 3);
    let a = &report[0];
    assert_eq!(a.package, "alpha");
    assert!(!a.no_dependencies);
    assert_eq!(a.findings.len(), 3);
    assert_eq!(a.findings[0].dep, "beta");
    assert!(matches!(a.findings[0].status, DepStatus::ByName));
    assert_eq!(a.findings[1].dep, "virt");
    match &a.findings[1].status {
        DepStatus::ByProvides { provider } => assert_eq!(provider, "gamma"),
        _ => panic!("expected ByProvides"),
    }
    assert!(matches!(a.findings[2].status, DepStatus::Missing));
    assert!(report[1].no_dependencies);
}

#[test]
fn audit_provides_collision_last_writer_wins() {
    let pkgs = vec![
        recipe("first", &["virt"], &[]),
        recipe("second", &["virt"], &[]),
        recipe("user", &[], &["virt"]),
    ];
    let report = audit_all(&pkgs);
    match &report[2].findings[0].status {
        DepStatus::ByProvides { provider } => assert_eq!(provider, "second"),
        _ => panic!("expected ByProvides"),
    }
}

#[test]
fn chars_to_string_rebuilds_the_sequence() {
    let v = vec!['a', 'b', 'c'];
    assert_eq!(fpm::text::chars_to_string(&v), "abc");
    assert_eq!(fpm::text::chars_to_string(&Vec::new()), "");
}
