//! Detached-signature pairing: fetched files are partitioned into
//! signature files and candidate sources by extension, and every
//! signature must find the source sharing its base name before the
//! external verification check can be invoked on the pairing.
use vstd::prelude::*;

use crate::paths::{filename_spec, get_filename, has_filename, is_signature_file,
    is_signature_name};

verus! {

/// One signature file paired with the source it signs.
#[derive(Debug)]
pub struct SignaturePairing {
    pub signature: String,
    pub source: String,
}

/// A signature file for which no fetched source shares the base name.
#[derive(Debug)]
pub struct UnmatchedSignature {
    pub signature: String,
}

/// The base name a signature file signs: the file name of the path
/// with its four-character signature extension removed.
pub open spec fn sig_base(path: Seq<char>) -> Seq<char> {
    if path.len() >= 4 {
        filename_spec(path.take(path.len() - 4))
    } else {
        filename_spec(path)
    }
}

/// File `j` is a source candidate for the base name: not itself a
/// signature, and its file name equals the base.
pub open spec fn matches_sig(files: Seq<Seq<char>>, j: int, base: Seq<char>) -> bool {
    &&& 0 <= j < files.len()
    &&& !is_signature_name(files[j])
    &&& has_filename(files[j])
    &&& filename_spec(files[j]) == base
}

/// Some fetched file is a source candidate for the base name.
pub open spec fn has_source_match(files: Seq<Seq<char>>, base: Seq<char>) -> bool {
    exists|j: int| matches_sig(files, j, base)
}

/// `f` is the first source candidate for the base name, in file order.
pub open spec fn first_match(files: Seq<Seq<char>>, base: Seq<char>, f: Seq<char>) -> bool {
    exists|j: int|
        #[trigger] matches_sig(files, j, base) && files[j] == f && (forall|j2: int|
            0 <= j2 < j ==> !matches_sig(files, j2, base))
}

/// The signature files of the batch, in file order.
pub open spec fn sig_list(files: Seq<Seq<char>>) -> Seq<Seq<char>>
    decreases files.len(),
{
    if files.len() == 0 {
        Seq::empty()
    } else {
        (if is_signature_name(files[0]) {
            seq![files[0]]
        } else {
            Seq::<Seq<char>>::empty()
        }) + sig_list(files.drop_first())
    }
}

/// The error names signature index `m` of the batch: it has no source
/// candidate, and every earlier signature has one.
pub open spec fn unmatched_at(files: Seq<Seq<char>>, m: int, e: UnmatchedSignature) -> bool {
    &&& 0 <= m < sig_list(files).len()
    &&& !has_source_match(files, sig_base(sig_list(files)[m]))
    &&& forall|m2: int|
        0 <= m2 < m ==> has_source_match(files, sig_base(#[trigger] sig_list(files)[m2]))
    &&& e.signature@ == sig_list(files)[m]
}

/// The error names the first signature without a source candidate.
pub open spec fn unmatched_signature(files: Seq<Seq<char>>, e: UnmatchedSignature) -> bool {
    exists|m: int| unmatched_at(files, m, e)
}

/// Finds the first source candidate for a base name, in file order.
fn find_source(files: &Vec<String>, base: &String) -> (r: Option<usize>)
    ensures
        r is Some <==> has_source_match(files.deep_view(), base@),
        r matches Some(j) ==> j < files@.len() && matches_sig(files.deep_view(), j as int, base@)
            && (forall|j2: int| 0 <= j2 < j ==> !matches_sig(files.deep_view(), j2, base@)),
{
    let ghost fv = files.deep_view();
    let mut j: usize = 0;
    while j < files.len()
        invariant
            j <= fv.len(),
            fv == files.deep_view(),
            forall|j2: int| 0 <= j2 < j ==> !matches_sig(fv, j2, base@),
        decreases fv.len() - j,
    {
        proof {
            assert(fv[j as int] == files@[j as int]@);
        }
        if !is_signature_file(files[j].as_str()) {
            match get_filename(files[j].as_str()) {
                Some(name) => {
                    if name == *base {
                        proof {
                            assert(matches_sig(fv, j as int, base@));
                        }
                        return Some(j);
                    }
                },
                None => {},
            }
        }
        j = j + 1;
    }
    None
}

/// Pairs every signature file of the batch with the first source file
/// sharing its base name, in file order; the first signature without a
/// matching source refuses the batch.
pub fn pair_signatures(files: &Vec<String>) -> (r: Result<Vec<SignaturePairing>, UnmatchedSignature>)
    ensures
        r matches Ok(v) ==> {
            let fv = files.deep_view();
            &&& v@.len() == sig_list(fv).len()
            &&& forall|m: int|
                0 <= m < v@.len() ==> (#[trigger] v@[m]).signature@ == sig_list(fv)[m]
                    && first_match(fv, sig_base(sig_list(fv)[m]), v@[m].source@)
            &&& forall|m: int|
                0 <= m < sig_list(fv).len() ==> has_source_match(
                    fv,
                    sig_base(#[trigger] sig_list(fv)[m]),
                )
        },
        r matches Err(e) ==> unmatched_signature(files.deep_view(), e),
{
    let ghost fv = files.deep_view();
    let mut out: Vec<SignaturePairing> = Vec::new();
    let mut i: usize = 0;
    proof {
        assert(fv.skip(0) =~= fv);
        assert(Seq::<Seq<char>>::empty() + sig_list(fv) =~= sig_list(fv));
    }
    while i < files.len()
        invariant
            i <= fv.len(),
            fv == files.deep_view(),
            out@.len() + sig_list(fv.skip(i as int)).len() == sig_list(fv).len(),
            forall|m: int|
                0 <= m < out@.len() ==> (#[trigger] out@[m]).signature@ == sig_list(fv)[m]
                    && first_match(fv, sig_base(sig_list(fv)[m]), out@[m].source@),
            forall|m: int|
                0 <= m < out@.len() ==> has_source_match(
                    fv,
                    sig_base(#[trigger] sig_list(fv)[m]),
                ),
            sig_list(fv) == sig_list(fv).subrange(0, out@.len() as int) + sig_list(
                fv.skip(i as int),
            ),
        decreases fv.len() - i,
    {
        proof {
            assert(fv[i as int] == files@[i as int]@);
            assert(fv.skip(i as int).len() == fv.len() - i);
            assert(fv.skip(i as int)[0] == fv[i as int]);
            assert(fv.skip(i as int).drop_first() =~= fv.skip(i + 1));
        }
        if is_signature_file(files[i].as_str()) {
            proof {
                assert(sig_list(fv.skip(i as int)) == seq![fv[i as int]] + sig_list(
                    fv.skip(i + 1),
                ));
                assert(sig_list(fv)[out@.len() as int] == fv[i as int]);
            }
            let n = files[i].as_str().unicode_len();
            proof {
                reveal_strlit(".sig");
                reveal_strlit(".asc");
            }
            let base_path = files[i].as_str().substring_char(0, n - 4);
            proof {
                assert(base_path@ =~= fv[i as int].take(fv[i as int].len() - 4));
            }
            let mut found: Option<usize> = None;
            match get_filename(base_path) {
                Some(base) => {
                    proof {
                        assert(base@ == sig_base(fv[i as int]));
                    }
                    found = find_source(files, &base);
                    proof {
                        if found is None {
                            assert(!has_source_match(fv, sig_base(fv[i as int])));
                        } else {
                            let j = found->Some_0;
                            assert(matches_sig(fv, j as int, sig_base(fv[i as int])));
                            assert(first_match(fv, sig_base(fv[i as int]), fv[j as int]));
                            assert(has_source_match(fv, sig_base(fv[i as int])));
                        }
                    }
                },
                None => {
                    proof {
                        let b = sig_base(fv[i as int]);
                        assert(forall|j: int| !matches_sig(fv, j, b));
                        assert(!has_source_match(fv, sig_base(fv[i as int])));
                    }
                },
            };
            match found {
                Some(j) => {
                    let pairing = SignaturePairing {
                        signature: files[i].clone(),
                        source: files[j].clone(),
                    };
                    let ghost m = out@.len() as int;
                    out.push(pairing);
                    proof {
                        assert(matches_sig(fv, j as int, sig_base(fv[i as int])));
                        assert(first_match(fv, sig_base(sig_list(fv)[m]), out@[m].source@));
                        assert(sig_list(fv).subrange(0, m) + sig_list(fv.skip(i as int))
                            =~= sig_list(fv).subrange(0, m + 1) + sig_list(fv.skip(i + 1)));
                    }
                },
                None => {
                    let e = UnmatchedSignature { signature: files[i].clone() };
                    proof {
                        assert(unmatched_at(fv, out@.len() as int, e));
                        assert(unmatched_signature(fv, e));
                    }
                    return Err(e);
                },
            }
        } else {
            proof {
                assert(sig_list(fv.skip(i as int)) == sig_list(fv.skip(i + 1)));
            }
        }
        i = i + 1;
    }
    proof {
        assert(fv.skip(fv.len() as int).len() == 0);
        assert(sig_list(fv.skip(fv.len() as int)) == Seq::<Seq<char>>::empty());
    }
    Ok(out)
}

} // verus!
