use fpm::hashes::{
    check_sum, check_sums, compute_digest, hash_to_hex, Algorithm, FetchedSource,
};
use fpm::recipe::Package;
use fpm::signatures::pair_signatures;

const ABC_SHA256: &str = "ba7816bf8f01cfea414140de5dae2223b00361a396177a9cb410ff61f20015ad";
const ABC_SHA512: &str = "ddaf35a193617abacc417349ae20413112e6fa4e89a97ea20a9eeee64b55d39a\
2192992a274fc1a836ba3c23a3feebbd454d4423643ce80e2a9ac94fa54ca49f";
const ABC_BLAKE2B: &str = "ba80a53f981c4d0d6a2797b69f12f6e94c212f14685ac4b74b12bb6fdbffa2d1\
7d87c5392aab792dc252d5de4533cc9518d38aa8dbf1925ab92386edd4009923";

fn strings(items: &[&str]) -> Vec<String> {
    items.iter().map(|s| s.to_string()).collect()
}

#[test]
fn hex_rendering_is_lowercase_two_digits_per_byte() {
    assert_eq!(hash_to_hex(&[0xbe, 0xef]), "beef");
    assert_eq!(hash_to_hex(&[0x00, 0x0f, 0xa0]), "000fa0");
    assert_eq!(hash_to_hex(&[]), "");
}

#[test]
fn digests_match_known_vectors() {
    let data = b"abc".to_vec();
    assert_eq!(hash_to_hex(&compute_digest(&data, Algorithm::Sha256)), ABC_SHA256);
    assert_eq!(hash_to_hex(&compute_digest(&data, Algorithm::Sha512)), ABC_SHA512);
    assert_eq!(hash_to_hex(&compute_digest(&data, Algorithm::Blake2)), ABC_BLAKE2B);
}

#[test]
fn correct_digest_passes() {
    assert!(check_sum(b"abc", ABC_SHA256, Algorithm::Sha256));
}

#[test]
fn digest_comparison_is_case_insensitive() {
    let upper = ABC_SHA256.to_uppercase();
    assert!(check_sum(b"abc", &upper, Algorithm::Sha256));
}

#[test]
fn flipped_digest_fails() {
    // Flip the first hex digit of the correct digest.
    let mut wrong = String::from("c");
    wrong.push_str(&ABC_SHA256[1..]);
    assert!(!check_sum(b"abc", &wrong, Algorithm::Sha256));
    assert!(!check_sum(b"abc", "deadbeef", Algorithm::Sha256));
}

#[test]
fn skip_sentinel_passes_regardless_of_content() {
    assert!(check_sum(b"abc", "SKIP", Algorithm::Sha256));
    assert!(check_sum(b"anything else", "SKIP", Algorithm::Blake2));
    // The sentinel is exact: its lowercase form is an ordinary mismatch.
    assert!(!check_sum(b"abc", "skip", Algorithm::Sha256));
}

fn recipe_with_sums(sha256: &[&str], sha512: &[&str], b2: &[&str]) -> Package {
    Package::from_vars(
        "t",
        "1",
        "1",
        "",
        &sha256.join(" "),
        &sha512.join(" "),
        &b2.join(" "),
        "",
        "",
        "",
        &Vec::new(),
    )
}

fn fetched(name: &str, data: &[u8]) -> FetchedSource {
    FetchedSource { path: name.to_string(), data: data.to_vec() }
}

#[test]
fn check_sums_aligns_positionally() {
    let p = recipe_with_sums(&[ABC_SHA256], &[], &[]);
    let files = vec![fetched("sources/a", b"abc"), fetched("sources/b", b"unchecked")];
    // Only index 0 has a declared sum; index 1 is beyond the list.
    assert!(check_sums(&files, &p).is_ok());
}

#[test]
fn check_sums_skips_empty_entries() {
    // An empty entry cannot be written inside a whitespace-separated
    // list, so build the recipe directly with an empty middle entry.
    let mut p = recipe_with_sums(&[], &[], &[]);
    p.sha256sums = strings(&["", ABC_SHA256]);
    let files = vec![fetched("sources/x", b"whatever"), fetched("sources/a", b"abc")];
    assert!(check_sums(&files, &p).is_ok());
}

#[test]
fn check_sums_reports_first_mismatch() {
    let p = recipe_with_sums(&["deadbeef", ABC_SHA256], &[], &[]);
    let files = vec![fetched("sources/bad", b"abc"), fetched("sources/good", b"abc")];
    let e = check_sums(&files, &p).unwrap_err();
    assert_eq!(e.file, "sources/bad");
    assert_eq!(e.expected, "deadbeef");
    assert_eq!(e.actual, ABC_SHA256);
}

#[test]
fn check_sums_checks_all_families() {
    let p = recipe_with_sums(&[ABC_SHA256], &[ABC_SHA512], &["SKIP"]);
    let files = vec![fetched("sources/a", b"abc")];
    assert!(check_sums(&files, &p).is_ok());
    let p = recipe_with_sums(&[ABC_SHA256], &["0000"], &[]);
    let e = check_sums(&files, &p).unwrap_err();
    assert_eq!(e.expected, "0000");
    assert_eq!(e.actual, ABC_SHA512);
}

#[test]
fn signatures_pair_with_their_base_name() {
    let files = strings(&["sources/a.tar.gz", "sources/a.tar.gz.asc", "sources/b.patch"]);
    let pairs = pair_signatures(&files).unwrap();
    assert_eq!(pairs.len(), 1);
    assert_eq!(pairs[0].signature, "sources/a.tar.gz.asc");
    assert_eq!(pairs[0].source, "sources/a.tar.gz");
}

#[test]
fn unmatched_signature_is_refused() {
    let files = strings(&["sources/other.tar.gz", "sources/lost.tar.gz.sig"]);
    let e = pair_signatures(&files).unwrap_err();
    assert_eq!(e.signature, "sources/lost.tar.gz.sig");
}

#[test]
fn no_signatures_pairs_nothing() {
    let files = strings(&["sources/a.tar.gz", "sources/b.patch"]);
    let pairs = pair_signatures(&files).unwrap();
    assert!(pairs.is_empty());
}
