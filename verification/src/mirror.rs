//! Mirror resolution: rewriting source URLs through an ordered table of
//! literal `pattern -> replacement` substitutions, and parsing that table
//! from its plaintext file format.
use vstd::prelude::*;

use crate::text::{
    contains_seq, lemma_replace_absent, replace_all, replace_all_spec, split_char_spec,
    split_on_char, split_whitespace, split_whitespace_spec,
};

verus! {

/// The views of an executable mirror table.
pub open spec fn pairs_view(table: Seq<(String, String)>) -> Seq<(Seq<char>, Seq<char>)> {
    table.map_values(|p: (String, String)| (p.0@, p.1@))
}

/// One source string after every substitution of the table, applied in
/// table order; later pairs see the result of earlier ones.
pub open spec fn resolve_one_spec(s: Seq<char>, table: Seq<(Seq<char>, Seq<char>)>) -> Seq<char>
    decreases table.len(),
{
    if table.len() == 0 {
        s
    } else {
        resolve_one_spec(replace_all_spec(s, table[0].0, table[0].1), table.drop_first())
    }
}

/// All sources after mirror resolution, in order.
pub open spec fn resolve_all_spec(
    sources: Seq<Seq<char>>,
    table: Seq<(Seq<char>, Seq<char>)>,
) -> Seq<Seq<char>> {
    sources.map_values(|s: Seq<char>| resolve_one_spec(s, table))
}

/// Applies every mirror substitution of `table`, in order, to `source`.
pub fn resolve_source(source: &str, table: &Vec<(String, String)>) -> (r: String)
    ensures
        r@ == resolve_one_spec(source@, pairs_view(table@)),
{
    let ghost tview = pairs_view(table@);
    let mut cur = String::from_str(source);
    let mut j: usize = 0;
    proof {
        assert(tview.skip(0) =~= tview);
    }
    while j < table.len()
        invariant
            j <= table@.len(),
            tview == pairs_view(table@),
            resolve_one_spec(source@, tview) == resolve_one_spec(cur@, tview.skip(j as int)),
        decreases table@.len() - j,
    {
        proof {
            assert(tview.skip(j as int).len() == tview.len() - j);
            assert(tview.skip(j as int)[0] == tview[j as int]);
            assert(tview.skip(j as int).drop_first() =~= tview.skip(j + 1));
        }
        let next = replace_all(cur.as_str(), table[j].0.as_str(), table[j].1.as_str());
        cur = next;
        j = j + 1;
    }
    proof {
        assert(tview.skip(tview.len() as int).len() == 0);
    }
    cur
}

/// Applies the mirror table to every source, in order.
pub fn resolve_mirrors(sources: &Vec<String>, table: &Vec<(String, String)>) -> (r: Vec<String>)
    ensures
        r.deep_view() == resolve_all_spec(sources.deep_view(), pairs_view(table@)),
{
    let mut r: Vec<String> = Vec::new();
    let mut i: usize = 0;
    while i < sources.len()
        invariant
            i <= sources@.len(),
            r.deep_view() =~= resolve_all_spec(sources.deep_view(), pairs_view(table@)).subrange(
                0,
                i as int,
            ),
        decreases sources@.len() - i,
    {
        let resolved = resolve_source(sources[i].as_str(), table);
        let ghost old_dv = r.deep_view();
        r.push(resolved);
        proof {
            assert(r.deep_view() =~= old_dv.push(resolved@));
            assert(r.deep_view() =~= resolve_all_spec(
                sources.deep_view(),
                pairs_view(table@),
            ).subrange(0, i + 1));
        }
        i = i + 1;
    }
    proof {
        let full = resolve_all_spec(sources.deep_view(), pairs_view(table@));
        assert(full.subrange(0, full.len() as int) =~= full);
    }
    r
}

/// A nonempty line of the mirror table file that does not hold exactly
/// two whitespace-separated fields, by line index.
#[derive(Debug)]
pub struct MirrorFormatError {
    pub line: usize,
}

/// Every nonempty line of the file holds exactly a pattern and a
/// replacement.
pub open spec fn table_ok(content: Seq<char>) -> bool {
    forall|k: int|
        0 <= k < split_char_spec(content, '\n').len() && (#[trigger] split_char_spec(
            content,
            '\n',
        )[k]).len() > 0 ==> split_whitespace_spec(split_char_spec(content, '\n')[k]).len() == 2
}

/// The pairs declared by a sequence of lines, empty lines skipped.
pub open spec fn table_of_lines(ls: Seq<Seq<char>>) -> Seq<(Seq<char>, Seq<char>)>
    decreases ls.len(),
{
    if ls.len() == 0 {
        Seq::empty()
    } else if ls[0].len() == 0 {
        table_of_lines(ls.drop_first())
    } else {
        seq![
            (split_whitespace_spec(ls[0])[0], split_whitespace_spec(ls[0])[1]),
        ] + table_of_lines(ls.drop_first())
    }
}

/// The mirror table declared by the file `content`.
pub open spec fn mirror_table_spec(content: Seq<char>) -> Seq<(Seq<char>, Seq<char>)> {
    table_of_lines(split_char_spec(content, '\n'))
}

/// Parses the mirror table file: one `pattern replacement` pair per
/// nonempty line, whitespace-separated; any other shape is refused,
/// naming the first offending line.
pub fn parse_mirror_table(content: &str) -> (r: Result<Vec<(String, String)>, MirrorFormatError>)
    ensures
        r is Ok <==> table_ok(content@),
        r matches Ok(t) ==> pairs_view(t@) == mirror_table_spec(content@),
        r matches Err(e) ==> {
            let ls = split_char_spec(content@, '\n');
            &&& e.line < ls.len()
            &&& ls[e.line as int].len() > 0
            &&& split_whitespace_spec(ls[e.line as int]).len() != 2
            &&& forall|j: int|
                0 <= j < e.line && (#[trigger] ls[j]).len() > 0 ==> split_whitespace_spec(
                    ls[j],
                ).len() == 2
        },
{
    let lines = split_on_char(content, '\n');
    let ghost ls = split_char_spec(content@, '\n');
    let mut table: Vec<(String, String)> = Vec::new();
    let mut i: usize = 0;
    proof {
        assert(ls.skip(0) =~= ls);
        assert(pairs_view(table@) =~= Seq::<(Seq<char>, Seq<char>)>::empty());
        assert(Seq::<(Seq<char>, Seq<char>)>::empty() + table_of_lines(ls) =~= table_of_lines(ls));
    }
    while i < lines.len()
        invariant
            lines.deep_view() == ls,
            ls == split_char_spec(content@, '\n'),
            i <= ls.len(),
            pairs_view(table@) + table_of_lines(ls.skip(i as int)) == table_of_lines(ls),
            forall|j: int|
                0 <= j < i && (#[trigger] ls[j]).len() > 0 ==> split_whitespace_spec(ls[j]).len()
                    == 2,
        decreases ls.len() - i,
    {
        proof {
            assert(lines.deep_view()[i as int] == lines@[i as int]@);
            assert(ls.skip(i as int).len() == ls.len() - i);
            assert(ls.skip(i as int)[0] == ls[i as int]);
            assert(ls.skip(i as int).drop_first() =~= ls.skip(i + 1));
        }
        if lines[i].as_str().unicode_len() == 0 {
            proof {
                assert(table_of_lines(ls.skip(i as int)) == table_of_lines(ls.skip(i + 1)));
            }
        } else {
            let parts = split_whitespace(lines[i].as_str());
            if parts.len() != 2 {
                return Err(MirrorFormatError { line: i });
            }
            proof {
                assert(table_of_lines(ls.skip(i as int)) == seq![
                    (split_whitespace_spec(ls[i as int])[0], split_whitespace_spec(
                        ls[i as int],
                    )[1]),
                ] + table_of_lines(ls.skip(i + 1)));
                assert(parts.deep_view()[0] == parts@[0]@);
                assert(parts.deep_view()[1] == parts@[1]@);
            }
            let p0 = parts[0].clone();
            let p1 = parts[1].clone();
            let ghost old_pairs = pairs_view(table@);
            table.push((p0, p1));
            proof {
                assert(pairs_view(table@) =~= old_pairs.push(
                    (split_whitespace_spec(ls[i as int])[0], split_whitespace_spec(
                        ls[i as int],
                    )[1]),
                ));
                assert(pairs_view(table@) + table_of_lines(ls.skip(i + 1)) =~= old_pairs
                    + table_of_lines(ls.skip(i as int)));
            }
        }
        i = i + 1;
    }
    proof {
        assert(ls.skip(ls.len() as int).len() == 0);
        assert(table_of_lines(ls.skip(ls.len() as int)) == Seq::<(Seq<char>, Seq<char>)>::empty());
        assert(pairs_view(table@) + Seq::<(Seq<char>, Seq<char>)>::empty() =~= pairs_view(table@));
    }
    Ok(table)
}

/// A string in which no pattern of the table occurs is left unchanged by
/// the whole table.
pub proof fn lemma_resolve_fixed(t: Seq<char>, table: Seq<(Seq<char>, Seq<char>)>)
    requires
        forall|k: int| 0 <= k < table.len() ==> (#[trigger] table[k]).0.len() > 0,
        forall|k: int| 0 <= k < table.len() ==> !contains_seq(t, (#[trigger] table[k]).0),
    ensures
        resolve_one_spec(t, table) == t,
    decreases table.len(),
{
    if table.len() > 0 {
        lemma_replace_absent(t, table[0].0, table[0].1);
        assert(forall|k: int|
            0 <= k < table.drop_first().len() ==> (#[trigger] table.drop_first()[k]) == table[k
                + 1]);
        lemma_resolve_fixed(t, table.drop_first());
    }
}

/// Mirror resolution is idempotent on a source whenever no pattern of the
/// table occurs in the already-resolved result — that is, whenever no
/// replacement's output (or the surrounding text it lands in) re-creates
/// a pattern.
pub proof fn lemma_resolve_idempotent(s: Seq<char>, table: Seq<(Seq<char>, Seq<char>)>)
    requires
        forall|k: int| 0 <= k < table.len() ==> (#[trigger] table[k]).0.len() > 0,
        forall|k: int|
            0 <= k < table.len() ==> !contains_seq(
                resolve_one_spec(s, table),
                (#[trigger] table[k]).0,
            ),
    ensures
        resolve_one_spec(resolve_one_spec(s, table), table) == resolve_one_spec(s, table),
{
    lemma_resolve_fixed(resolve_one_spec(s, table), table);
}

/// Resolving every source twice with one table gives what resolving once
/// gives, whenever no pattern of the table survives into any resolved
/// source.
pub proof fn lemma_resolve_mirrors_idempotent(
    sources: Seq<Seq<char>>,
    table: Seq<(Seq<char>, Seq<char>)>,
)
    requires
        forall|k: int| 0 <= k < table.len() ==> (#[trigger] table[k]).0.len() > 0,
        forall|i: int, k: int|
            0 <= i < sources.len() && 0 <= k < table.len() ==> !contains_seq(
                #[trigger] resolve_one_spec(sources[i], table),
                (#[trigger] table[k]).0,
            ),
    ensures
        resolve_all_spec(resolve_all_spec(sources, table), table) == resolve_all_spec(
            sources,
            table,
        ),
{
    let once = resolve_all_spec(sources, table);
    assert forall|i: int| 0 <= i < once.len() implies #[trigger] resolve_one_spec(once[i], table)
        == once[i] by {
        lemma_resolve_idempotent(sources[i], table);
    }
    assert(resolve_all_spec(once, table) =~= once);
}

} // verus!
