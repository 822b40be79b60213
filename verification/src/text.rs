//! Character and string utilities shared by the parsing code: whitespace
//! classification, splitting, substring search and replacement, and
//! ASCII case folding.
use vstd::prelude::*;

verus! {

/// The whitespace characters recognised when splitting recipe list
/// fields and table files.
pub open spec fn is_space_char(c: char) -> bool {
    c == ' ' || c == '\t' || c == '\r' || c == '\n'
}

/// Executable counterpart of `is_space_char`.
pub fn is_space(c: char) -> (r: bool)
    ensures
        r == is_space_char(c),
{
    c == ' ' || c == '\t' || c == '\r' || c == '\n'
}

/// Appends one character to a `String`.
///
/// Relies on `String::push`: appends the character to the end of the string.
#[verifier::external_body]
pub fn push_char(s: &mut String, c: char)
    ensures
        final(s)@ == old(s)@.push(c),
{
    s.push(c);
}

/// Builds a `String` whose view equals the given character sequence.
pub fn chars_to_string(v: &Vec<char>) -> (r: String)
    ensures
        r@ == v@,
{
    let mut r = String::new();
    let mut i: usize = 0;
    while i < v.len()
        invariant
            i <= v@.len(),
            r@ == v@.subrange(0, i as int),
        decreases v@.len() - i,
    {
        push_char(&mut r, v[i]);
        assert(v@.subrange(0, i as int).push(v@[i as int]) =~= v@.subrange(0, i + 1));
        i = i + 1;
    }
    assert(v@.subrange(0, v@.len() as int) =~= v@);
    r
}

/// The pattern `pat` occurs in `s` at position `i`.
pub open spec fn occurs_at(s: Seq<char>, pat: Seq<char>, i: int) -> bool {
    0 <= i && i + pat.len() <= s.len() && s.subrange(i, i + pat.len()) == pat
}

/// The pattern `pat` occurs somewhere in `s`.
pub open spec fn contains_seq(s: Seq<char>, pat: Seq<char>) -> bool {
    exists|i: int| occurs_at(s, pat, i)
}

/// `s` ends with `suffix`.
pub open spec fn ends_with_seq(s: Seq<char>, suffix: Seq<char>) -> bool {
    suffix.len() <= s.len() && s.subrange(s.len() - suffix.len(), s.len() as int) == suffix
}

/// `s` starts with `prefix`.
pub open spec fn starts_with_seq(s: Seq<char>, prefix: Seq<char>) -> bool {
    prefix.len() <= s.len() && s.subrange(0, prefix.len() as int) == prefix
}

/// Compares `pat` against the characters of `s` starting at `i`.
pub fn match_at(s: &str, pat: &str, i: usize) -> (r: bool)
    requires
        i + pat@.len() <= s@.len(),
    ensures
        r == occurs_at(s@, pat@, i as int),
{
    let n = s.unicode_len();
    let m = pat.unicode_len();
    let mut j: usize = 0;
    while j < m
        invariant
            j <= m,
            m == pat@.len(),
            n == s@.len(),
            i + m <= s@.len(),
            forall|k: int| 0 <= k < j ==> s@[i + k] == pat@[k],
        decreases m - j,
    {
        if s.get_char(i + j) != pat.get_char(j) {
            assert(s@.subrange(i as int, i + m) != pat@) by {
                assert(s@.subrange(i as int, i + m)[j as int] != pat@[j as int]);
            }
            return false;
        }
        j = j + 1;
    }
    assert(s@.subrange(i as int, i + m) =~= pat@);
    true
}

/// Whether `pat` occurs anywhere in `s`.
pub fn contains_str(s: &str, pat: &str) -> (r: bool)
    ensures
        r == contains_seq(s@, pat@),
{
    let n = s.unicode_len();
    let m = pat.unicode_len();
    if m > n {
        assert(forall|i: int| !occurs_at(s@, pat@, i));
        return false;
    }
    if m == 0 {
        assert(s@.subrange(0, 0) =~= pat@);
        assert(occurs_at(s@, pat@, 0));
        return true;
    }
    let last = n - m;
    let mut i: usize = 0;
    while i <= last
        invariant
            1 <= m <= n,
            n == s@.len(),
            m == pat@.len(),
            last == n - m,
            i <= last + 1,
            forall|j: int| 0 <= j < i ==> !occurs_at(s@, pat@, j),
        decreases last + 1 - i,
    {
        if match_at(s, pat, i) {
            return true;
        }
        i = i + 1;
    }
    assert(i == last + 1);
    assert(forall|j: int| !occurs_at(s@, pat@, j)) by {
        assert(forall|j: int| occurs_at(s@, pat@, j) ==> 0 <= j <= last);
    }
    false
}

/// Whether `s` ends with `suffix`.
pub fn ends_with_str(s: &str, suffix: &str) -> (r: bool)
    ensures
        r == ends_with_seq(s@, suffix@),
{
    let n = s.unicode_len();
    let m = suffix.unicode_len();
    if m > n {
        return false;
    }
    match_at(s, suffix, n - m)
}

/// Whether `s` starts with `prefix`.
pub fn starts_with_str(s: &str, prefix: &str) -> (r: bool)
    ensures
        r == starts_with_seq(s@, prefix@),
{
    let n = s.unicode_len();
    let m = prefix.unicode_len();
    if m > n {
        return false;
    }
    match_at(s, prefix, 0)
}

/// ASCII lower-casing of one character; anything but `'A'..'Z'` is kept.
pub open spec fn lower_char(c: char) -> char {
    match c {
        'A' => 'a',
        'B' => 'b',
        'C' => 'c',
        'D' => 'd',
        'E' => 'e',
        'F' => 'f',
        'G' => 'g',
        'H' => 'h',
        'I' => 'i',
        'J' => 'j',
        'K' => 'k',
        'L' => 'l',
        'M' => 'm',
        'N' => 'n',
        'O' => 'o',
        'P' => 'p',
        'Q' => 'q',
        'R' => 'r',
        'S' => 's',
        'T' => 't',
        'U' => 'u',
        'V' => 'v',
        'W' => 'w',
        'X' => 'x',
        'Y' => 'y',
        'Z' => 'z',
        _ => c,
    }
}

/// ASCII lower-casing of a character sequence.
pub open spec fn lower_seq(s: Seq<char>) -> Seq<char> {
    s.map_values(|c: char| lower_char(c))
}

/// ASCII lower-casing of a string.
pub fn to_lower(s: &str) -> (r: String)
    ensures
        r@ == lower_seq(s@),
{
    let n = s.unicode_len();
    let mut r = String::new();
    let mut i: usize = 0;
    while i < n
        invariant
            i <= n,
            n == s@.len(),
            r@ =~= lower_seq(s@).subrange(0, i as int),
        decreases n - i,
    {
        let c = s.get_char(i);
        let lc = match c {
            'A' => 'a',
            'B' => 'b',
            'C' => 'c',
            'D' => 'd',
            'E' => 'e',
            'F' => 'f',
            'G' => 'g',
            'H' => 'h',
            'I' => 'i',
            'J' => 'j',
            'K' => 'k',
            'L' => 'l',
            'M' => 'm',
            'N' => 'n',
            'O' => 'o',
            'P' => 'p',
            'Q' => 'q',
            'R' => 'r',
            'S' => 's',
            'T' => 't',
            'U' => 'u',
            'V' => 'v',
            'W' => 'w',
            'X' => 'x',
            'Y' => 'y',
            'Z' => 'z',
            _ => c,
        };
        assert(lc == lower_char(c));
        push_char(&mut r, lc);
        i = i + 1;
    }
    assert(lower_seq(s@).subrange(0, n as int) =~= lower_seq(s@));
    r
}

/// Splitting on whitespace, carrying the token built so far: tokens are
/// maximal runs of non-whitespace characters, and no empty token is kept.
pub open spec fn split_ws_rec(s: Seq<char>, cur: Seq<char>) -> Seq<Seq<char>>
    decreases s.len(),
{
    if s.len() == 0 {
        if cur.len() == 0 {
            Seq::empty()
        } else {
            seq![cur]
        }
    } else if is_space_char(s[0]) {
        if cur.len() == 0 {
            split_ws_rec(s.drop_first(), Seq::empty())
        } else {
            seq![cur] + split_ws_rec(s.drop_first(), Seq::empty())
        }
    } else {
        split_ws_rec(s.drop_first(), cur.push(s[0]))
    }
}

/// The whitespace-separated tokens of `s`, in order.
pub open spec fn split_whitespace_spec(s: Seq<char>) -> Seq<Seq<char>> {
    split_ws_rec(s, Seq::empty())
}

/// Splits `s` into its whitespace-separated tokens.
pub fn split_whitespace(s: &str) -> (r: Vec<String>)
    ensures
        r.deep_view() == split_whitespace_spec(s@),
{
    let n = s.unicode_len();
    let mut r: Vec<String> = Vec::new();
    let mut start: usize = 0;
    let mut in_tok: bool = false;
    let mut i: usize = 0;
    proof {
        assert(s@.skip(0) =~= s@);
        assert(r.deep_view() =~= Seq::<Seq<char>>::empty());
        assert(Seq::<Seq<char>>::empty() + split_whitespace_spec(s@) =~= split_whitespace_spec(
            s@,
        ));
    }
    while i < n
        invariant
            i <= n,
            n == s@.len(),
            in_tok ==> start < i,
            r.deep_view() + split_ws_rec(
                s@.skip(i as int),
                (if in_tok {
                    s@.subrange(start as int, i as int)
                } else {
                    Seq::<char>::empty()
                }),
            ) == split_whitespace_spec(s@),
        decreases n - i,
    {
        let ghost cur: Seq<char> = if in_tok {
            s@.subrange(start as int, i as int)
        } else {
            Seq::<char>::empty()
        };
        proof {
            assert(s@.skip(i as int).len() == n - i);
            assert(s@.skip(i as int)[0] == s@[i as int]);
            assert(s@.skip(i as int).drop_first() =~= s@.skip(i + 1));
        }
        let c = s.get_char(i);
        if is_space(c) {
            if in_tok {
                let tok = s.substring_char(start, i);
                let towned = String::from_str(tok);
                proof {
                    assert(split_ws_rec(s@.skip(i as int), cur) == seq![cur] + split_ws_rec(
                        s@.skip(i + 1),
                        Seq::<char>::empty(),
                    ));
                }
                let ghost old_dv = r.deep_view();
                r.push(towned);
                proof {
                    assert(r.deep_view() =~= old_dv.push(cur));
                    assert(old_dv.push(cur) =~= old_dv + seq![cur]);
                    assert(r.deep_view() + split_ws_rec(s@.skip(i + 1), Seq::<char>::empty())
                        =~= old_dv + split_ws_rec(s@.skip(i as int), cur));
                }
                in_tok = false;
            } else {
                proof {
                    assert(split_ws_rec(s@.skip(i as int), cur) == split_ws_rec(
                        s@.skip(i + 1),
                        Seq::<char>::empty(),
                    ));
                }
            }
        } else {
            if !in_tok {
                start = i;
                in_tok = true;
                proof {
                    assert(cur.push(s@[i as int]) =~= s@.subrange(start as int, i + 1));
                }
            } else {
                proof {
                    assert(cur.push(s@[i as int]) =~= s@.subrange(start as int, i + 1));
                }
            }
            proof {
                assert(split_ws_rec(s@.skip(i as int), cur) == split_ws_rec(
                    s@.skip(i + 1),
                    cur.push(s@[i as int]),
                ));
            }
        }
        i = i + 1;
    }
    assert(s@.skip(n as int) =~= Seq::<char>::empty());
    if in_tok {
        let tok = s.substring_char(start, n);
        let towned = String::from_str(tok);
        let ghost cur: Seq<char> = s@.subrange(start as int, n as int);
        let ghost old_dv = r.deep_view();
        r.push(towned);
        proof {
            assert(split_ws_rec(Seq::<char>::empty(), cur) == seq![cur]);
            assert(r.deep_view() =~= old_dv.push(cur));
            assert(old_dv.push(cur) =~= old_dv + seq![cur]);
        }
    } else {
        proof {
            assert(split_ws_rec(Seq::<char>::empty(), Seq::<char>::empty())
                == Seq::<Seq<char>>::empty());
            assert(r.deep_view() + Seq::<Seq<char>>::empty() =~= r.deep_view());
        }
    }
    r
}

/// Splitting on a separator character, keeping empty fields: the result
/// always has one more element than `s` has separators.
pub open spec fn split_char_rec(s: Seq<char>, sep: char, cur: Seq<char>) -> Seq<Seq<char>>
    decreases s.len(),
{
    if s.len() == 0 {
        seq![cur]
    } else if s[0] == sep {
        seq![cur] + split_char_rec(s.drop_first(), sep, Seq::empty())
    } else {
        split_char_rec(s.drop_first(), sep, cur.push(s[0]))
    }
}

/// The fields of `s` between occurrences of `sep`, in order, empties kept.
pub open spec fn split_char_spec(s: Seq<char>, sep: char) -> Seq<Seq<char>> {
    split_char_rec(s, sep, Seq::empty())
}

/// Splits `s` on every occurrence of `sep`, keeping empty fields.
pub fn split_on_char(s: &str, sep: char) -> (r: Vec<String>)
    ensures
        r.deep_view() == split_char_spec(s@, sep),
{
    let n = s.unicode_len();
    let mut r: Vec<String> = Vec::new();
    let mut start: usize = 0;
    let mut i: usize = 0;
    proof {
        assert(s@.skip(0) =~= s@);
        assert(s@.subrange(0, 0) =~= Seq::<char>::empty());
        assert(r.deep_view() =~= Seq::<Seq<char>>::empty());
        assert(Seq::<Seq<char>>::empty() + split_char_spec(s@, sep) =~= split_char_spec(s@, sep));
    }
    while i < n
        invariant
            start <= i <= n,
            n == s@.len(),
            r.deep_view() + split_char_rec(
                s@.skip(i as int),
                sep,
                s@.subrange(start as int, i as int),
            ) == split_char_spec(s@, sep),
        decreases n - i,
    {
        let ghost cur: Seq<char> = s@.subrange(start as int, i as int);
        proof {
            assert(s@.skip(i as int).len() == n - i);
            assert(s@.skip(i as int)[0] == s@[i as int]);
            assert(s@.skip(i as int).drop_first() =~= s@.skip(i + 1));
        }
        let c = s.get_char(i);
        if c == sep {
            let tok = s.substring_char(start, i);
            let towned = String::from_str(tok);
            proof {
                assert(split_char_rec(s@.skip(i as int), sep, cur) == seq![cur]
                    + split_char_rec(s@.skip(i + 1), sep, Seq::<char>::empty()));
            }
            let ghost old_dv = r.deep_view();
            r.push(towned);
            proof {
                assert(r.deep_view() =~= old_dv.push(cur));
                assert(old_dv.push(cur) =~= old_dv + seq![cur]);
                assert(r.deep_view() + split_char_rec(s@.skip(i + 1), sep, Seq::<char>::empty())
                    =~= old_dv + split_char_rec(s@.skip(i as int), sep, cur));
            }
            start = i + 1;
            proof {
                assert(s@.subrange(start as int, i + 1) =~= Seq::<char>::empty());
            }
        } else {
            proof {
                assert(cur.push(s@[i as int]) =~= s@.subrange(start as int, i + 1));
                assert(split_char_rec(s@.skip(i as int), sep, cur) == split_char_rec(
                    s@.skip(i + 1),
                    sep,
                    cur.push(s@[i as int]),
                ));
            }
        }
        i = i + 1;
    }
    let tok = s.substring_char(start, n);
    let towned = String::from_str(tok);
    let ghost cur: Seq<char> = s@.subrange(start as int, n as int);
    let ghost old_dv = r.deep_view();
    r.push(towned);
    proof {
        assert(s@.skip(n as int) =~= Seq::<char>::empty());
        assert(split_char_rec(Seq::<char>::empty(), sep, cur) == seq![cur]);
        assert(r.deep_view() =~= old_dv.push(cur));
        assert(old_dv.push(cur) =~= old_dv + seq![cur]);
    }
    r
}

/// Left-to-right, non-overlapping literal replacement of `pat` by `rep`.
/// An empty pattern replaces nothing.
pub open spec fn replace_all_spec(s: Seq<char>, pat: Seq<char>, rep: Seq<char>) -> Seq<char>
    decreases s.len(),
{
    if pat.len() == 0 || s.len() < pat.len() {
        s
    } else if s.subrange(0, pat.len() as int) == pat {
        rep + replace_all_spec(s.skip(pat.len() as int), pat, rep)
    } else {
        seq![s[0]] + replace_all_spec(s.skip(1), pat, rep)
    }
}

/// Replaces every non-overlapping occurrence of `pat` in `s` by `rep`,
/// scanning left to right.
pub fn replace_all(s: &str, pat: &str, rep: &str) -> (r: String)
    ensures
        r@ == replace_all_spec(s@, pat@, rep@),
{
    let n = s.unicode_len();
    let m = pat.unicode_len();
    if m == 0 {
        return String::from_str(s);
    }
    let mut out = String::new();
    let mut i: usize = 0;
    proof {
        assert(s@.skip(0) =~= s@);
        assert(Seq::<char>::empty() + replace_all_spec(s@, pat@, rep@) =~= replace_all_spec(
            s@,
            pat@,
            rep@,
        ));
    }
    while i < n
        invariant
            i <= n,
            n == s@.len(),
            m == pat@.len(),
            1 <= m,
            out@ + replace_all_spec(s@.skip(i as int), pat@, rep@) == replace_all_spec(
                s@,
                pat@,
                rep@,
            ),
        decreases n - i,
    {
        proof {
            assert(s@.skip(i as int).len() == n - i);
        }
        if m <= n - i && match_at(s, pat, i) {
            proof {
                assert(s@.skip(i as int).subrange(0, m as int) =~= s@.subrange(i as int, i + m));
                assert(s@.skip(i as int).skip(m as int) =~= s@.skip(i + m));
                assert(replace_all_spec(s@.skip(i as int), pat@, rep@) == rep@
                    + replace_all_spec(s@.skip(i + m), pat@, rep@));
            }
            out.append(rep);
            i = i + m;
        } else {
            proof {
                assert(s@.skip(i as int)[0] == s@[i as int]);
                assert(s@.skip(i as int).skip(1) =~= s@.skip(i + 1));
                if s@.skip(i as int).len() < m {
                    assert(replace_all_spec(s@.skip(i as int), pat@, rep@) == s@.skip(i as int));
                    assert(s@.skip(i as int) =~= seq![s@[i as int]] + s@.skip(i + 1));
                    assert(replace_all_spec(s@.skip(i + 1), pat@, rep@) == s@.skip(i + 1));
                } else {
                    assert(s@.skip(i as int).subrange(0, m as int) =~= s@.subrange(i as int, i + m));
                    assert(s@.skip(i as int).subrange(0, m as int) != pat@);
                    assert(replace_all_spec(s@.skip(i as int), pat@, rep@) == seq![s@[i as int]]
                        + replace_all_spec(s@.skip(i + 1), pat@, rep@));
                }
            }
            let c = s.get_char(i);
            push_char(&mut out, c);
            proof {
                assert(out@ =~= (out@.drop_last() + seq![s@[i as int]]));
            }
            i = i + 1;
        }
    }
    proof {
        assert(s@.skip(n as int) =~= Seq::<char>::empty());
        assert(replace_all_spec(Seq::<char>::empty(), pat@, rep@) =~= Seq::<char>::empty());
        assert(out@ + Seq::<char>::empty() =~= out@);
    }
    out
}

/// Fields joined back with the separator between them.
pub open spec fn join_char(ls: Seq<Seq<char>>, sep: char) -> Seq<char>
    decreases ls.len(),
{
    if ls.len() == 0 {
        Seq::empty()
    } else if ls.len() == 1 {
        ls[0]
    } else {
        ls[0] + seq![sep] + join_char(ls.drop_first(), sep)
    }
}

/// Splitting always yields at least one field.
pub proof fn lemma_split_rec_len(s: Seq<char>, sep: char, cur: Seq<char>)
    ensures
        split_char_rec(s, sep, cur).len() >= 1,
    decreases s.len(),
{
    if s.len() == 0 {
    } else if s[0] == sep {
    } else {
        lemma_split_rec_len(s.drop_first(), sep, cur.push(s[0]));
    }
}

/// Joining a nonempty field list after a prepended field inserts one
/// separator.
pub proof fn lemma_join_prepend(x: Seq<char>, ls: Seq<Seq<char>>, sep: char)
    requires
        ls.len() >= 1,
    ensures
        join_char(seq![x] + ls, sep) == x + seq![sep] + join_char(ls, sep),
{
    let whole = seq![x] + ls;
    assert(whole.len() >= 2);
    assert(whole[0] == x);
    assert(whole.drop_first() =~= ls);
}

/// Joining the fields of a split with the same separator rebuilds the
/// original text exactly.
pub proof fn lemma_split_join_rec(s: Seq<char>, sep: char, cur: Seq<char>)
    ensures
        join_char(split_char_rec(s, sep, cur), sep) == cur + s,
    decreases s.len(),
{
    if s.len() == 0 {
        assert(join_char(seq![cur], sep) == cur);
        assert(cur + s =~= cur);
    } else if s[0] == sep {
        lemma_split_rec_len(s.drop_first(), sep, Seq::empty());
        lemma_split_join_rec(s.drop_first(), sep, Seq::empty());
        lemma_join_prepend(cur, split_char_rec(s.drop_first(), sep, Seq::empty()), sep);
        assert(Seq::<char>::empty() + s.drop_first() =~= s.drop_first());
        assert(cur + seq![sep] + s.drop_first() =~= cur + s);
    } else {
        lemma_split_join_rec(s.drop_first(), sep, cur.push(s[0]));
        assert(cur.push(s[0]) + s.drop_first() =~= cur + s);
    }
}

/// Splitting on a separator and joining the fields again is the
/// identity on any text.
pub proof fn lemma_split_join_inverse(s: Seq<char>, sep: char)
    ensures
        join_char(split_char_spec(s, sep), sep) == s,
{
    lemma_split_join_rec(s, sep, Seq::empty());
    assert(Seq::<char>::empty() + s =~= s);
}

/// Appending a field to a join adds one separator before it, unless the
/// join was empty.
pub proof fn lemma_join_push(ls: Seq<Seq<char>>, x: Seq<char>, sep: char)
    ensures
        join_char(ls.push(x), sep) == if ls.len() == 0 {
            x
        } else {
            join_char(ls, sep) + seq![sep] + x
        },
    decreases ls.len(),
{
    if ls.len() == 0 {
        assert(ls.push(x).len() == 1);
        assert(ls.push(x)[0] == x);
    } else if ls.len() == 1 {
        assert(ls.push(x).len() == 2);
        assert(ls.push(x)[0] == ls[0]);
        assert(ls.push(x).drop_first() =~= seq![x]);
        assert(join_char(seq![x], sep) == x);
    } else {
        lemma_join_push(ls.drop_first(), x, sep);
        assert(ls.push(x).drop_first() =~= ls.drop_first().push(x));
        assert(ls.push(x)[0] == ls[0]);
        assert(ls[0] + seq![sep] + (join_char(ls.drop_first(), sep) + seq![sep] + x) =~= (ls[0]
            + seq![sep] + join_char(ls.drop_first(), sep)) + seq![sep] + x);
    }
}

/// A pattern that occurs nowhere in `s` is not replaced: `replace_all`
/// leaves such an `s` unchanged.
pub proof fn lemma_replace_absent(s: Seq<char>, pat: Seq<char>, rep: Seq<char>)
    requires
        pat.len() > 0,
        !contains_seq(s, pat),
    ensures
        replace_all_spec(s, pat, rep) == s,
    decreases s.len(),
{
    if s.len() < pat.len() {
    } else if s.subrange(0, pat.len() as int) == pat {
        assert(occurs_at(s, pat, 0));
    } else {
        assert(!contains_seq(s.skip(1), pat)) by {
            if contains_seq(s.skip(1), pat) {
                let i = choose|i: int| occurs_at(s.skip(1), pat, i);
                assert(s.subrange(i + 1, i + 1 + pat.len()) =~= s.skip(1).subrange(
                    i,
                    i + pat.len(),
                ));
                assert(occurs_at(s, pat, i + 1));
            }
        }
        lemma_replace_absent(s.skip(1), pat, rep);
        assert(seq![s[0]] + s.skip(1) =~= s);
    }
}

} // verus!
