use fpm::fetch::{
    plan_extract, plan_source_fetch, source_cache_path, untar_command, wget_command,
    ExtractAction, FetchDecision,
};
use fpm::naming::{
    archive_command, get_dirs, get_dist_filepath, join_path, metadata_content, metadata_path,
    output_name, sign_command,
};
use fpm::recipe::Package;
use fpm::script::{new_script_content, update_script_content};
use fpm::stage::compose_stage_command;

fn recipe(name: &str, version: &str, release: &str, sources: &str) -> Package {
    Package::from_vars(name, version, release, sources, "", "", "", "", "", "", &Vec::new())
}

#[test]
fn staging_pair_derived_from_package_name() {
    let (work, pkg) = get_dirs("tool");
    assert_eq!(work, "/tmp/work-tool");
    assert_eq!(pkg, "/tmp/pkg-tool");
}

#[test]
fn archive_names_follow_name_version_release() {
    let p = recipe("tool", "1.2", "3", "");
    assert_eq!(output_name(&p), "tool-1.2-3");
    assert_eq!(get_dist_filepath(&p), "dist/tool-1.2-3.tar.zst");
    assert_eq!(metadata_path(&p), "dist/tool.meta");
}

#[test]
fn metadata_sidecar_holds_identity_one_per_line() {
    let p = recipe("tool", "1.2", "3", "");
    assert_eq!(metadata_content(&p), "tool\n1.2\n3\n");
}

#[test]
fn archive_and_sign_commands_are_exact() {
    let p = recipe("tool", "1.2", "3", "");
    assert_eq!(
        archive_command(&p, "/tmp/pkg-tool"),
        "tar -Izstd -cf 'dist/tool-1.2-3.tar.zst' -C '/tmp/pkg-tool' ."
    );
    assert_eq!(
        sign_command(&p),
        "gpg --detach-sign --armor --output 'dist/tool-1.2-3.tar.zst.asc' 'dist/tool-1.2-3.tar.zst'"
    );
}

#[test]
fn stage_command_sources_recipe_and_guards_missing_functions() {
    let cmd = compose_stage_command("tool", "build", "/tmp/work-tool", "/tmp/pkg-tool");
    assert_eq!(
        cmd,
        "touch '.env.sh' && source '.env.sh'; source 'pkgs/tool/build.sh'; \
export pkgdir='/tmp/pkg-tool'; cd /tmp/work-tool; \
if declare -F build >/dev/null; then build; fi"
    );
}

#[test]
fn join_path_inserts_one_separator() {
    assert_eq!(join_path("/dest", "usr/bin/tool"), "/dest/usr/bin/tool");
}

#[test]
fn remote_sources_cache_under_their_file_name() {
    assert_eq!(
        source_cache_path("https://x/a.tar.gz"),
        Some("sources/a.tar.gz".to_string())
    );
    assert_eq!(source_cache_path("https://x/.."), None);
}

#[test]
fn fetch_decisions_cover_local_cached_and_fresh() {
    assert!(matches!(plan_source_fetch("local.patch", false), Ok(FetchDecision::Local)));
    match plan_source_fetch("https://x/a.tar.gz", true) {
        Ok(FetchDecision::Reuse { filepath }) => assert_eq!(filepath, "sources/a.tar.gz"),
        _ => panic!("expected reuse of the cached file"),
    }
    match plan_source_fetch("https://x/a.tar.gz", false) {
        Ok(FetchDecision::Fetch { url, filepath }) => {
            assert_eq!(url, "https://x/a.tar.gz");
            assert_eq!(filepath, "sources/a.tar.gz");
        },
        _ => panic!("expected a fresh fetch"),
    }
    let e = plan_source_fetch("https://x/..", false).unwrap_err();
    assert_eq!(e.source, "https://x/..");
}

#[test]
fn fetch_and_untar_commands_are_exact() {
    assert_eq!(
        wget_command("https://x/a.tar.gz"),
        "wget -q \"https://x/a.tar.gz\" -P \"sources\""
    );
    assert_eq!(
        untar_command("sources/a.tar.gz", "/tmp/work-tool"),
        "tar -xf sources/a.tar.gz -C /tmp/work-tool --strip-components=1"
    );
}

#[test]
fn extract_plan_distinguishes_tars_plain_remotes_and_locals() {
    let p = recipe("tool", "1", "1", "https://x/a.tar.gz https://x/raw.bin local.patch");
    let plan = plan_extract(&p, "/tmp/work-tool").unwrap();
    assert_eq!(plan.len(), 3);
    match &plan[0] {
        ExtractAction::Untar { archive, dest } => {
            assert_eq!(archive, "sources/a.tar.gz");
            assert_eq!(dest, "/tmp/work-tool");
        },
        _ => panic!("expected an unpack action"),
    }
    match &plan[1] {
        ExtractAction::CopyRemote { from, to } => {
            assert_eq!(from, "sources/raw.bin");
            assert_eq!(to, "/tmp/work-tool/raw.bin");
        },
        _ => panic!("expected a cache copy"),
    }
    match &plan[2] {
        ExtractAction::CopyLocal { from, to } => {
            assert_eq!(from, "pkgs/tool/local.patch");
            assert_eq!(to, "/tmp/work-tool/local.patch");
        },
        _ => panic!("expected a local copy"),
    }
}

#[test]
fn extract_plan_refuses_source_without_file_name() {
    let p = recipe("tool", "1", "1", "https://x/a.tar.gz https://x/..");
    let e = plan_extract(&p, "/tmp/work-tool").unwrap_err();
    assert_eq!(e.source, "https://x/..");
}

#[test]
fn new_script_template_declares_the_package() {
    assert_eq!(
        new_script_content("tool"),
        "name=\"tool\"\nversion=\"\"\nrelease=\"\"\nsources=()\n"
    );
}

#[test]
fn update_fills_placeholder_lines_only() {
    let content = "name=\"tool\"\nversion=*\nrelease=*\nsources=()\n";
    assert_eq!(
        update_script_content(content, "2.0"),
        "name=\"tool\"\nversion=\"2.0\"\nrelease=\"1\"\nsources=()\n"
    );
    let untouched = "name=\"tool\"\nversion=\"1\"\n";
    assert_eq!(update_script_content(untouched, "2.0"), untouched);
}
