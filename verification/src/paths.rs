//! Source path classification: final path components, archive and
//! signature name recognition, and the remote/local source distinction.
use vstd::prelude::*;

use crate::text::{contains_seq, contains_str, ends_with_seq, ends_with_str};

verus! {

/// `s` with every trailing `'/'` removed.
pub open spec fn strip_trailing_slashes(s: Seq<char>) -> Seq<char>
    decreases s.len(),
{
    if s.len() > 0 && s.last() == '/' {
        strip_trailing_slashes(s.drop_last())
    } else {
        s
    }
}

/// The maximal suffix of `s` that holds no `'/'`.
pub open spec fn after_last_slash(s: Seq<char>) -> Seq<char>
    decreases s.len(),
{
    if s.len() == 0 {
        s
    } else if s.last() == '/' {
        Seq::empty()
    } else {
        after_last_slash(s.drop_last()).push(s.last())
    }
}

/// The final path component of `s`: the part after the last `'/'`, with
/// trailing slashes ignored.
pub open spec fn filename_spec(s: Seq<char>) -> Seq<char> {
    after_last_slash(strip_trailing_slashes(s))
}

/// A final component counts as a file name unless it is empty, `.` or `..`.
pub open spec fn has_filename(s: Seq<char>) -> bool {
    filename_spec(s).len() > 0 && filename_spec(s) != seq!['.'] && filename_spec(s) != seq![
        '.',
        '.',
    ]
}

/// Returns the final path component of `filepath`, or `None` when the
/// path has none (it is empty, all slashes, or ends in `.` or `..`).
pub fn get_filename(filepath: &str) -> (r: Option<String>)
    ensures
        r is Some <==> has_filename(filepath@),
        r matches Some(f) ==> f@ == filename_spec(filepath@),
{
    let n = filepath.unicode_len();
    let mut end: usize = n;
    proof {
        assert(filepath@.subrange(0, n as int) =~= filepath@);
    }
    while end > 0 && filepath.get_char(end - 1) == '/'
        invariant
            end <= n,
            n == filepath@.len(),
            strip_trailing_slashes(filepath@) == strip_trailing_slashes(
                filepath@.subrange(0, end as int),
            ),
        decreases end,
    {
        proof {
            let t = filepath@.subrange(0, end as int);
            assert(t.last() == filepath@[end - 1]);
            assert(t.drop_last() =~= filepath@.subrange(0, end - 1));
        }
        end = end - 1;
    }
    proof {
        let t = filepath@.subrange(0, end as int);
        if end > 0 {
            assert(t.last() == filepath@[end - 1]);
        }
        assert(strip_trailing_slashes(t) == t);
    }
    let ghost t = filepath@.subrange(0, end as int);
    let mut start: usize = end;
    while start > 0 && filepath.get_char(start - 1) != '/'
        invariant
            start <= end <= n,
            n == filepath@.len(),
            t == filepath@.subrange(0, end as int),
            after_last_slash(t) == after_last_slash(filepath@.subrange(0, start as int))
                + filepath@.subrange(start as int, end as int),
        decreases start,
    {
        proof {
            let u = filepath@.subrange(0, start as int);
            assert(u.last() == filepath@[start - 1]);
            assert(u.drop_last() =~= filepath@.subrange(0, start - 1));
            assert(after_last_slash(u) == after_last_slash(filepath@.subrange(0, start - 1)).push(
                filepath@[start - 1],
            ));
            assert(after_last_slash(filepath@.subrange(0, start - 1)).push(filepath@[start - 1])
                + filepath@.subrange(start as int, end as int) =~= after_last_slash(
                filepath@.subrange(0, start - 1),
            ) + filepath@.subrange(start - 1, end as int));
        }
        start = start - 1;
    }
    proof {
        let u = filepath@.subrange(0, start as int);
        if start > 0 {
            assert(u.last() == filepath@[start - 1]);
            assert(after_last_slash(u) == Seq::<char>::empty());
            assert(Seq::<char>::empty() + filepath@.subrange(start as int, end as int)
                =~= filepath@.subrange(start as int, end as int));
        } else {
            assert(u =~= Seq::<char>::empty());
            assert(after_last_slash(Seq::<char>::empty()) + filepath@.subrange(
                start as int,
                end as int,
            ) =~= filepath@.subrange(start as int, end as int));
        }
        assert(filename_spec(filepath@) == filepath@.subrange(start as int, end as int));
    }
    let len = end - start;
    if len == 0 {
        return None;
    }
    if len == 1 && filepath.get_char(start) == '.' {
        proof {
            assert(filepath@.subrange(start as int, end as int) =~= seq!['.']);
        }
        return None;
    }
    if len == 2 && filepath.get_char(start) == '.' && filepath.get_char(start + 1) == '.' {
        proof {
            assert(filepath@.subrange(start as int, end as int) =~= seq!['.', '.']);
        }
        return None;
    }
    proof {
        let name = filepath@.subrange(start as int, end as int);
        if name == seq!['.'] {
            assert(name.len() == 1 && name[0] == '.');
        }
        if name == seq!['.', '.'] {
            assert(name.len() == 2 && name[0] == '.' && name[1] == '.');
        }
    }
    let name = filepath.substring_char(start, end);
    Some(String::from_str(name))
}

/// A file name that looks like a compressed tar archive.
pub open spec fn is_tar_name(s: Seq<char>) -> bool {
    ends_with_seq(s, ".tar.bz2"@) || ends_with_seq(s, ".tar.gz"@) || ends_with_seq(s, ".tar.lz4"@)
        || ends_with_seq(s, ".tar.xz"@) || ends_with_seq(s, ".tar.zst"@) || ends_with_seq(
        s,
        ".tgz"@,
    )
}

/// Whether `filename` names a compressed tar archive, by its extension.
pub fn is_tar_file(filename: &str) -> (r: bool)
    ensures
        r == is_tar_name(filename@),
{
    ends_with_str(filename, ".tar.bz2") || ends_with_str(filename, ".tar.gz") || ends_with_str(
        filename,
        ".tar.lz4",
    ) || ends_with_str(filename, ".tar.xz") || ends_with_str(filename, ".tar.zst")
        || ends_with_str(filename, ".tgz")
}

/// A file name that looks like a detached signature.
pub open spec fn is_signature_name(s: Seq<char>) -> bool {
    ends_with_seq(s, ".sig"@) || ends_with_seq(s, ".asc"@)
}

/// Whether `filename` names a detached signature, by its extension.
pub fn is_signature_file(filename: &str) -> (r: bool)
    ensures
        r == is_signature_name(filename@),
{
    ends_with_str(filename, ".sig") || ends_with_str(filename, ".asc")
}

/// A source string that is fetched over the network rather than copied
/// from the recipe's own directory.
pub open spec fn is_remote_spec(s: Seq<char>) -> bool {
    contains_seq(s, "http"@)
}

/// Whether `source` is a remote source (a URL-looking string).
pub fn is_remote_source(source: &str) -> (r: bool)
    ensures
        r == is_remote_spec(source@),
{
    contains_str(source, "http")
}

} // verus!
