//! Recipe script maintenance: the template a new recipe starts from,
//! and the line-based fill-in of placeholder version and release
//! fields.
use vstd::prelude::*;

use crate::text::{join_char, lemma_join_push, push_char, split_char_spec, split_on_char};

verus! {

/// The template content of a fresh recipe script.
pub open spec fn new_script_spec(package: Seq<char>) -> Seq<char> {
    "name=\""@ + package + "\"\nversion=\"\"\nrelease=\"\"\nsources=()\n"@
}

/// Builds the template content of a fresh recipe script for a package.
pub fn new_script_content(package: &str) -> (r: String)
    ensures
        r@ == new_script_spec(package@),
{
    let mut r = String::from_str("name=\"");
    r.append(package);
    r.append("\"\nversion=\"\"\nrelease=\"\"\nsources=()\n");
    proof {
        assert(r@ =~= new_script_spec(package@));
    }
    r
}

/// One line after the placeholder fill-in: a bare `version=*` line gets
/// the given version, a bare `release=*` line gets release `1`, and any
/// other line is kept as it is.
pub open spec fn updated_line(l: Seq<char>, version: Seq<char>) -> Seq<char> {
    if l == "version=*"@ {
        "version=\""@ + version + "\""@
    } else if l == "release=*"@ {
        "release=\"1\""@
    } else {
        l
    }
}

/// The script content after the placeholder fill-in, line by line.
pub open spec fn update_script_spec(content: Seq<char>, version: Seq<char>) -> Seq<char> {
    join_char(
        split_char_spec(content, '\n').map_values(|l: Seq<char>| updated_line(l, version)),
        '\n',
    )
}

/// Fills the placeholder `version=*` and `release=*` lines of a recipe
/// script with the given version and release `1`, keeping every other
/// line unchanged.
pub fn update_script_content(content: &str, version: &str) -> (r: String)
    ensures
        r@ == update_script_spec(content@, version@),
{
    let lines = split_on_char(content, '\n');
    let ghost mapped = split_char_spec(content@, '\n').map_values(
        |l: Seq<char>| updated_line(l, version@),
    );
    let mut out = String::new();
    let mut i: usize = 0;
    proof {
        assert(mapped.subrange(0, 0) =~= Seq::<Seq<char>>::empty());
    }
    while i < lines.len()
        invariant
            i <= lines@.len(),
            lines.deep_view() == split_char_spec(content@, '\n'),
            mapped == split_char_spec(content@, '\n').map_values(
                |l: Seq<char>| updated_line(l, version@),
            ),
            out@ == join_char(mapped.subrange(0, i as int), '\n'),
        decreases lines@.len() - i,
    {
        proof {
            assert(lines.deep_view()[i as int] == lines@[i as int]@);
            assert(mapped[i as int] == updated_line(lines@[i as int]@, version@));
        }
        if i > 0 {
            push_char(&mut out, '\n');
        }
        let line = &lines[i];
        let version_placeholder = String::from_str("version=*");
        let release_placeholder = String::from_str("release=*");
        if *line == version_placeholder {
            let mut repl = String::from_str("version=\"");
            repl.append(version);
            repl.append("\"");
            proof {
                assert(repl@ =~= updated_line(lines@[i as int]@, version@));
            }
            out.append(repl.as_str());
        } else if *line == release_placeholder {
            out.append("release=\"1\"");
        } else {
            out.append(line.as_str());
        }
        proof {
            lemma_join_push(mapped.subrange(0, i as int), mapped[i as int], '\n');
            assert(mapped.subrange(0, i as int).push(mapped[i as int]) =~= mapped.subrange(
                0,
                i + 1,
            ));
        }
        i = i + 1;
    }
    proof {
        crate::text::lemma_split_rec_len(content@, '\n', Seq::<char>::empty());
        assert(mapped.subrange(0, mapped.len() as int) =~= mapped);
    }
    out
}

} // verus!
