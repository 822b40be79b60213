//! Integrity verification: digests of source files under the three
//! supported algorithms, hex rendering, and the checksum comparison
//! rules (positional alignment, the `SKIP` sentinel, case-insensitive
//! hex comparison).
use vstd::prelude::*;

use crate::recipe::Package;
use crate::text::{lower_char, lower_seq, to_lower};

verus! {

/// The checksum algorithm families a recipe may declare sums under.
#[derive(Clone, Copy, Debug, PartialEq, Eq, Structural)]
pub enum Algorithm {
    Sha256,
    Sha512,
    Blake2,
}

/// The SHA-256 digest of a byte sequence.
pub uninterp spec fn sha256_of(data: Seq<u8>) -> Seq<u8>;

/// The SHA-512 digest of a byte sequence.
pub uninterp spec fn sha512_of(data: Seq<u8>) -> Seq<u8>;

/// The BLAKE2b-512 digest of a byte sequence.
pub uninterp spec fn blake2b_of(data: Seq<u8>) -> Seq<u8>;

/// Relies on sha2::Sha256 through digest::Digest::digest: the digest is a
/// function of the input bytes alone, 32 bytes long.
#[verifier::external_body]
fn sha256_digest(data: &[u8]) -> (r: Vec<u8>)
    ensures
        r@ == sha256_of(data@),
        r@.len() == 32,
{
    <sha2::Sha256 as sha2::Digest>::digest(data).to_vec()
}

/// Relies on sha2::Sha512 through digest::Digest::digest: the digest is a
/// function of the input bytes alone, 64 bytes long.
#[verifier::external_body]
fn sha512_digest(data: &[u8]) -> (r: Vec<u8>)
    ensures
        r@ == sha512_of(data@),
        r@.len() == 64,
{
    <sha2::Sha512 as sha2::Digest>::digest(data).to_vec()
}

/// Relies on blake2::Blake2b512 through digest::Digest::digest: the
/// digest is a function of the input bytes alone, 64 bytes long.
#[verifier::external_body]
fn blake2b_digest(data: &[u8]) -> (r: Vec<u8>)
    ensures
        r@ == blake2b_of(data@),
        r@.len() == 64,
{
    <blake2::Blake2b512 as blake2::Digest>::digest(data).to_vec()
}

/// The digest of `data` under the given algorithm family.
pub open spec fn digest_spec(algo: Algorithm, data: Seq<u8>) -> Seq<u8> {
    match algo {
        Algorithm::Sha256 => sha256_of(data),
        Algorithm::Sha512 => sha512_of(data),
        Algorithm::Blake2 => blake2b_of(data),
    }
}

/// Computes the digest of `data` under the given algorithm family.
pub fn compute_digest(data: &[u8], algo: Algorithm) -> (r: Vec<u8>)
    ensures
        r@ == digest_spec(algo, data@),
        r@.len() == 32 || r@.len() == 64,
{
    match algo {
        Algorithm::Sha256 => sha256_digest(data),
        Algorithm::Sha512 => sha512_digest(data),
        Algorithm::Blake2 => blake2b_digest(data),
    }
}

/// The lowercase hex character for a value below 16; values above are
/// never produced by `hex_of`.
pub open spec fn hex_digit(n: u8) -> char {
    if n == 0 {
        '0'
    } else if n == 1 {
        '1'
    } else if n == 2 {
        '2'
    } else if n == 3 {
        '3'
    } else if n == 4 {
        '4'
    } else if n == 5 {
        '5'
    } else if n == 6 {
        '6'
    } else if n == 7 {
        '7'
    } else if n == 8 {
        '8'
    } else if n == 9 {
        '9'
    } else if n == 10 {
        'a'
    } else if n == 11 {
        'b'
    } else if n == 12 {
        'c'
    } else if n == 13 {
        'd'
    } else if n == 14 {
        'e'
    } else {
        'f'
    }
}

/// The lowercase hex rendering of a byte sequence: two digits per byte,
/// high nibble first.
pub open spec fn hex_of(data: Seq<u8>) -> Seq<char>
    decreases data.len(),
{
    if data.len() == 0 {
        Seq::empty()
    } else {
        seq![hex_digit(data.first() / 16), hex_digit(data.first() % 16)] + hex_of(
            data.drop_first(),
        )
    }
}

/// Executable counterpart of `hex_digit`.
fn hex_digit_exec(n: u8) -> (r: char)
    ensures
        r == hex_digit(n),
{
    if n == 0 {
        '0'
    } else if n == 1 {
        '1'
    } else if n == 2 {
        '2'
    } else if n == 3 {
        '3'
    } else if n == 4 {
        '4'
    } else if n == 5 {
        '5'
    } else if n == 6 {
        '6'
    } else if n == 7 {
        '7'
    } else if n == 8 {
        '8'
    } else if n == 9 {
        '9'
    } else if n == 10 {
        'a'
    } else if n == 11 {
        'b'
    } else if n == 12 {
        'c'
    } else if n == 13 {
        'd'
    } else if n == 14 {
        'e'
    } else {
        'f'
    }
}

/// Renders a digest as lowercase hex, two digits per byte.
pub fn hash_to_hex(bytes: &[u8]) -> (r: String)
    ensures
        r@ == hex_of(bytes@),
{
    let n = bytes.len();
    let mut r = String::new();
    let mut i: usize = 0;
    proof {
        assert(bytes@.skip(0) =~= bytes@);
    }
    while i < n
        invariant
            i <= n,
            n == bytes@.len(),
            r@ + hex_of(bytes@.skip(i as int)) == hex_of(bytes@),
        decreases n - i,
    {
        let b = bytes[i];
        proof {
            assert(bytes@.skip(i as int).len() == n - i);
            assert(bytes@.skip(i as int).first() == bytes@[i as int]);
            assert(bytes@.skip(i as int).drop_first() =~= bytes@.skip(i + 1));
            assert(hex_of(bytes@.skip(i as int)) == seq![
                hex_digit(bytes@[i as int] / 16),
                hex_digit(bytes@[i as int] % 16),
            ] + hex_of(bytes@.skip(i + 1)));
        }
        let hi = hex_digit_exec(b / 16);
        let lo = hex_digit_exec(b % 16);
        crate::text::push_char(&mut r, hi);
        crate::text::push_char(&mut r, lo);
        proof {
            assert(r@ + hex_of(bytes@.skip(i + 1)) =~= (r@.drop_last().drop_last() + hex_of(
                bytes@.skip(i as int),
            )));
        }
        i = i + 1;
    }
    proof {
        assert(bytes@.skip(n as int) =~= Seq::<u8>::empty());
        assert(hex_of(Seq::<u8>::empty()) == Seq::<char>::empty());
        assert(r@ + Seq::<char>::empty() =~= r@);
    }
    r
}

/// A declared checksum accepts a digest when it is the sentinel `SKIP`,
/// or when it equals the digest's hex rendering up to ASCII case.
pub open spec fn sum_matches(digest: Seq<u8>, expected: Seq<char>) -> bool {
    expected == "SKIP"@ || lower_seq(expected) == hex_of(digest)
}

/// Compares a declared checksum against a digest already computed.
pub fn sum_matches_digest(digest: &Vec<u8>, expected: &str) -> (r: bool)
    ensures
        r == sum_matches(digest@, expected@),
{
    let e = String::from_str(expected);
    let sentinel = String::from_str("SKIP");
    if e == sentinel {
        true
    } else {
        let hex = hash_to_hex(digest.as_slice());
        let low = to_lower(expected);
        low == hex
    }
}

/// Verifies one source file's content against one declared checksum
/// under one algorithm family.
pub fn check_sum(data: &[u8], expected: &str, algo: Algorithm) -> (r: bool)
    ensures
        r == sum_matches(digest_spec(algo, data@), expected@),
{
    let digest = compute_digest(data, algo);
    sum_matches_digest(&digest, expected)
}

/// One fetched source: its path and its content.
#[derive(Debug)]
pub struct FetchedSource {
    pub path: String,
    pub data: Vec<u8>,
}

/// A mismatch between a declared checksum and the computed digest.
#[derive(Debug)]
pub struct ChecksumMismatch {
    pub file: String,
    pub expected: String,
    pub actual: String,
}

/// The sum list a recipe declares under one algorithm family.
pub open spec fn algo_sums(p: Package, algo: Algorithm) -> Seq<Seq<char>> {
    match algo {
        Algorithm::Sha256 => p.sha256sums.deep_view(),
        Algorithm::Sha512 => p.sha512sums.deep_view(),
        Algorithm::Blake2 => p.b2sums.deep_view(),
    }
}

/// A sum list applies to source index `i` when it has a nonempty entry
/// there; a missing or empty entry skips verification for that source.
pub open spec fn entry_applicable(sums: Seq<Seq<char>>, i: int) -> bool {
    0 <= i < sums.len() && sums[i].len() > 0
}

/// Source `i` passes one algorithm family: the family either does not
/// apply at `i`, or its declared sum accepts the digest of `data`.
pub open spec fn algo_ok(p: Package, data: Seq<u8>, algo: Algorithm, i: int) -> bool {
    entry_applicable(algo_sums(p, algo), i) ==> sum_matches(
        digest_spec(algo, data),
        algo_sums(p, algo)[i],
    )
}

/// Source `i` passes all three algorithm families.
pub open spec fn file_passes(p: Package, data: Seq<u8>, i: int) -> bool {
    algo_ok(p, data, Algorithm::Sha256, i) && algo_ok(p, data, Algorithm::Sha512, i) && algo_ok(
        p,
        data,
        Algorithm::Blake2,
        i,
    )
}

/// Every fetched source passes every applicable declared checksum.
pub open spec fn all_sums_pass(files: Seq<FetchedSource>, p: Package) -> bool {
    forall|i: int| 0 <= i < files.len() ==> file_passes(p, (#[trigger] files[i]).data@, i)
}

/// The first algorithm family, in checking order, that fails at `i`.
pub open spec fn first_failing_algo(p: Package, data: Seq<u8>, i: int) -> Algorithm {
    if !algo_ok(p, data, Algorithm::Sha256, i) {
        Algorithm::Sha256
    } else if !algo_ok(p, data, Algorithm::Sha512, i) {
        Algorithm::Sha512
    } else {
        Algorithm::Blake2
    }
}

/// The error `e` describes the first checksum failure in the batch: it
/// is at source `i`, every earlier source passes, and the error carries
/// that source's path, the declared sum of the first failing family, and
/// the computed digest's hex rendering.
pub open spec fn checksum_failure_at(
    files: Seq<FetchedSource>,
    p: Package,
    i: int,
    e: ChecksumMismatch,
) -> bool {
    &&& 0 <= i < files.len()
    &&& !file_passes(p, files[i].data@, i)
    &&& forall|j: int| 0 <= j < i ==> file_passes(p, (#[trigger] files[j]).data@, j)
    &&& e.file@ == files[i].path@
    &&& e.expected@ == algo_sums(p, first_failing_algo(p, files[i].data@, i))[i]
    &&& e.actual@ == hex_of(digest_spec(first_failing_algo(p, files[i].data@, i), files[i].data@))
}

/// The error `e` describes the first checksum failure somewhere in the
/// batch.
pub open spec fn checksum_failure(files: Seq<FetchedSource>, p: Package, e: ChecksumMismatch) -> bool {
    exists|i: int| checksum_failure_at(files, p, i, e)
}

/// Verifies every fetched source against the recipe's declared checksum
/// lists, positionally aligned, failing fast on the first mismatch.
pub fn check_sums(files: &Vec<FetchedSource>, p: &Package) -> (r: Result<(), ChecksumMismatch>)
    ensures
        r is Ok <==> all_sums_pass(files@, *p),
        r matches Err(e) ==> checksum_failure(files@, *p, e),
{
    let mut i: usize = 0;
    while i < files.len()
        invariant
            i <= files@.len(),
            forall|j: int| 0 <= j < i ==> file_passes(*p, (#[trigger] files@[j]).data@, j),
        decreases files@.len() - i,
    {
        let f = &files[i];
        if i < p.sha256sums.len() && p.sha256sums[i].as_str().unicode_len() > 0 {
            proof {
                assert(algo_sums(*p, Algorithm::Sha256)[i as int] == p.sha256sums@[i as int]@);
            }
            let digest = compute_digest(f.data.as_slice(), Algorithm::Sha256);
            if !sum_matches_digest(&digest, p.sha256sums[i].as_str()) {
                let e = ChecksumMismatch {
                    file: f.path.clone(),
                    expected: p.sha256sums[i].clone(),
                    actual: hash_to_hex(digest.as_slice()),
                };
                proof {
                    assert(checksum_failure_at(files@, *p, i as int, e));
                    assert(checksum_failure(files@, *p, e));
                }
                return Err(e);
            }
        }
        if i < p.sha512sums.len() && p.sha512sums[i].as_str().unicode_len() > 0 {
            proof {
                assert(algo_sums(*p, Algorithm::Sha512)[i as int] == p.sha512sums@[i as int]@);
            }
            let digest = compute_digest(f.data.as_slice(), Algorithm::Sha512);
            if !sum_matches_digest(&digest, p.sha512sums[i].as_str()) {
                let e = ChecksumMismatch {
                    file: f.path.clone(),
                    expected: p.sha512sums[i].clone(),
                    actual: hash_to_hex(digest.as_slice()),
                };
                proof {
                    assert(checksum_failure_at(files@, *p, i as int, e));
                    assert(checksum_failure(files@, *p, e));
                }
                return Err(e);
            }
        }
        if i < p.b2sums.len() && p.b2sums[i].as_str().unicode_len() > 0 {
            proof {
                assert(algo_sums(*p, Algorithm::Blake2)[i as int] == p.b2sums@[i as int]@);
            }
            let digest = compute_digest(f.data.as_slice(), Algorithm::Blake2);
            if !sum_matches_digest(&digest, p.b2sums[i].as_str()) {
                let e = ChecksumMismatch {
                    file: f.path.clone(),
                    expected: p.b2sums[i].clone(),
                    actual: hash_to_hex(digest.as_slice()),
                };
                proof {
                    assert(checksum_failure_at(files@, *p, i as int, e));
                    assert(checksum_failure(files@, *p, e));
                }
                return Err(e);
            }
        }
        proof {
            assert(file_passes(*p, files@[i as int].data@, i as int));
        }
        i = i + 1;
    }
    Ok(())
}

/// Lower-casing a hex rendering changes nothing: every character
/// `hex_of` produces is already lowercase.
pub proof fn lemma_lower_hex(data: Seq<u8>)
    ensures
        lower_seq(hex_of(data)) == hex_of(data),
    decreases data.len(),
{
    if data.len() == 0 {
        assert(lower_seq(hex_of(data)) =~= hex_of(data));
    } else {
        lemma_lower_hex(data.drop_first());
        let pair = seq![hex_digit(data.first() / 16), hex_digit(data.first() % 16)];
        assert(lower_char(hex_digit(data.first() / 16)) == hex_digit(data.first() / 16));
        assert(lower_char(hex_digit(data.first() % 16)) == hex_digit(data.first() % 16));
        assert(lower_seq(pair + hex_of(data.drop_first())) =~= lower_seq(pair) + lower_seq(
            hex_of(data.drop_first()),
        ));
        assert(lower_seq(pair) =~= pair);
    }
}

/// The digest's own hex rendering always passes, whatever its case: a
/// correct declared checksum is accepted.
pub proof fn lemma_correct_sum_passes(data: Seq<u8>, algo: Algorithm)
    ensures
        sum_matches(digest_spec(algo, data), hex_of(digest_spec(algo, data))),
{
    lemma_lower_hex(digest_spec(algo, data));
}

/// The sentinel `SKIP` passes whatever the file's content.
pub proof fn lemma_skip_passes(digest: Seq<u8>)
    ensures
        sum_matches(digest, "SKIP"@),
{
}

/// A declared checksum that is not the sentinel and differs from the
/// digest's hex rendering after case folding is rejected.
pub proof fn lemma_wrong_sum_fails(digest: Seq<u8>, expected: Seq<char>)
    requires
        expected != "SKIP"@,
        lower_seq(expected) != hex_of(digest),
    ensures
        !sum_matches(digest, expected),
{
}

} // verus!
