//! The sandboxed stage runner's verifiable core: the fixed lifecycle
//! stages, the composite shell command a stage runs under, and the
//! classification protocol for the child's stderr stream.
use vstd::prelude::*;

use crate::text::{is_space, is_space_char, starts_with_seq, starts_with_str};

verus! {

/// The lifecycle stages of one build, in their fixed order.
#[derive(Clone, Copy, Debug, PartialEq, Eq, Structural)]
pub enum Stage {
    Prepare,
    Build,
    Test,
    Package,
}

/// The recipe function name a stage invokes.
pub open spec fn stage_name_spec(stage: Stage) -> Seq<char> {
    match stage {
        Stage::Prepare => "prepare"@,
        Stage::Build => "build"@,
        Stage::Test => "test"@,
        Stage::Package => "package"@,
    }
}

/// Returns the recipe function name of a stage.
pub fn stage_name(stage: Stage) -> (r: &'static str)
    ensures
        r@ == stage_name_spec(stage),
{
    match stage {
        Stage::Prepare => "prepare",
        Stage::Build => "build",
        Stage::Test => "test",
        Stage::Package => "package",
    }
}

/// Only the `package` stage runs under the privilege-emulation wrapper,
/// so that it can stage files with arbitrary ownership metadata.
pub open spec fn uses_fakeroot_spec(stage: Stage) -> bool {
    stage is Package
}

/// Whether a stage runs under the privilege-emulation wrapper.
pub fn uses_fakeroot(stage: Stage) -> (r: bool)
    ensures
        r == uses_fakeroot_spec(stage),
{
    match stage {
        Stage::Package => true,
        _ => false,
    }
}

/// The composite shell command of one stage: source the optional
/// environment file, source the recipe script, export the staging
/// destination, enter the work directory, and invoke the stage function
/// only if the recipe defines it (absence is a no-op).
pub open spec fn stage_command_spec(
    package_name: Seq<char>,
    function_name: Seq<char>,
    work_dir: Seq<char>,
    pkg_dir: Seq<char>,
) -> Seq<char> {
    "touch '.env.sh' && source '.env.sh'; source 'pkgs/"@ + package_name + "/build.sh'; export pkgdir='"@
        + pkg_dir + "'; cd "@ + work_dir + "; if declare -F "@ + function_name
        + " >/dev/null; then "@ + function_name + "; fi"@
}

/// Builds the composite shell command for one stage of one package.
pub fn compose_stage_command(
    package_name: &str,
    function_name: &str,
    work_dir: &str,
    pkg_dir: &str,
) -> (r: String)
    ensures
        r@ == stage_command_spec(package_name@, function_name@, work_dir@, pkg_dir@),
{
    let mut r = String::from_str("touch '.env.sh' && source '.env.sh'; source 'pkgs/");
    r.append(package_name);
    r.append("/build.sh'; export pkgdir='");
    r.append(pkg_dir);
    r.append("'; cd ");
    r.append(work_dir);
    r.append("; if declare -F ");
    r.append(function_name);
    r.append(" >/dev/null; then ");
    r.append(function_name);
    r.append("; fi");
    r
}

/// How one line of the child's stderr stream is rendered.
#[derive(Debug)]
pub enum LineClass {
    /// A trace line: the shell is about to execute this command; shown
    /// as the current-command indicator.
    Command { command: String },
    /// A bare continuation-trace line, suppressed.
    Noise,
    /// Any other stderr line, rendered as a warning or error.
    Message,
}

/// The shell's trace marker: `"+ "`.
pub open spec fn trace_marker() -> Seq<char> {
    seq!['+', ' ']
}

/// `s` with every leading repetition of the trace marker removed.
pub open spec fn strip_trace_markers(s: Seq<char>) -> Seq<char>
    decreases s.len(),
{
    if starts_with_seq(s, trace_marker()) {
        strip_trace_markers(s.skip(2))
    } else {
        s
    }
}

/// `s` without leading whitespace.
pub open spec fn trim_start_spec(s: Seq<char>) -> Seq<char>
    decreases s.len(),
{
    if s.len() > 0 && is_space_char(s[0]) {
        trim_start_spec(s.drop_first())
    } else {
        s
    }
}

/// `s` without trailing whitespace.
pub open spec fn trim_end_spec(s: Seq<char>) -> Seq<char>
    decreases s.len(),
{
    if s.len() > 0 && is_space_char(s.last()) {
        trim_end_spec(s.drop_last())
    } else {
        s
    }
}

/// `s` without leading or trailing whitespace.
pub open spec fn trim_spec(s: Seq<char>) -> Seq<char> {
    trim_end_spec(trim_start_spec(s))
}

/// Removes leading and trailing whitespace.
pub fn trim(s: &str) -> (r: String)
    ensures
        r@ == trim_spec(s@),
{
    let n = s.unicode_len();
    let mut a: usize = 0;
    proof {
        assert(s@.skip(0) =~= s@);
    }
    while a < n && is_space(s.get_char(a))
        invariant
            a <= n,
            n == s@.len(),
            trim_start_spec(s@) == trim_start_spec(s@.skip(a as int)),
        decreases n - a,
    {
        proof {
            assert(s@.skip(a as int).len() == n - a);
            assert(s@.skip(a as int)[0] == s@[a as int]);
            assert(s@.skip(a as int).drop_first() =~= s@.skip(a + 1));
        }
        a = a + 1;
    }
    proof {
        assert(s@.skip(a as int).len() == n - a);
        if a < n {
            assert(s@.skip(a as int)[0] == s@[a as int]);
        }
        assert(trim_start_spec(s@.skip(a as int)) == s@.skip(a as int));
        assert(s@.skip(a as int) =~= s@.subrange(a as int, n as int));
    }
    let mut b: usize = n;
    while b > a && is_space(s.get_char(b - 1))
        invariant
            a <= b <= n,
            n == s@.len(),
            trim_start_spec(s@) == s@.subrange(a as int, n as int),
            trim_end_spec(s@.subrange(a as int, n as int)) == trim_end_spec(
                s@.subrange(a as int, b as int),
            ),
        decreases b,
    {
        proof {
            let t = s@.subrange(a as int, b as int);
            assert(t.last() == s@[b - 1]);
            assert(t.drop_last() =~= s@.subrange(a as int, b - 1));
        }
        b = b - 1;
    }
    proof {
        let t = s@.subrange(a as int, b as int);
        if b > a {
            assert(t.last() == s@[b - 1]);
        }
        assert(trim_end_spec(t) == t);
    }
    let out = s.substring_char(a, b);
    String::from_str(out)
}

/// Classifies one line of the child's stderr stream: a line beginning
/// with the trace marker is the command about to run (with all markers
/// and surrounding whitespace stripped); a line beginning with a bare
/// `+` is suppressed continuation noise; anything else is a message.
pub fn classify_stderr_line(line: &str) -> (r: LineClass)
    ensures
        starts_with_seq(line@, trace_marker()) ==> (r matches LineClass::Command { command }
            && command@ == trim_spec(strip_trace_markers(line@))),
        !starts_with_seq(line@, trace_marker()) && line@.len() > 0 && line@[0] == '+' ==> r
            is Noise,
        !starts_with_seq(line@, trace_marker()) && !(line@.len() > 0 && line@[0] == '+') ==> r
            is Message,
{
    let n = line.unicode_len();
    proof {
        vstd::prelude::reveal_strlit("+ ");
        assert("+ "@ =~= trace_marker());
    }
    if starts_with_str(line, "+ ") {
        let mut start: usize = 0;
        proof {
            assert(line@.skip(0) =~= line@);
        }
        while n - start >= 2 && line.get_char(start) == '+' && line.get_char(start + 1) == ' '
            invariant
                start <= n,
                n == line@.len(),
                strip_trace_markers(line@) == strip_trace_markers(line@.skip(start as int)),
            decreases n - start,
        {
            proof {
                let t = line@.skip(start as int);
                assert(t.len() == n - start);
                assert(t[0] == line@[start as int]);
                assert(t[1] == line@[start + 1]);
                assert(t.subrange(0, 2) =~= trace_marker());
                assert(starts_with_seq(t, trace_marker()));
                assert(t.skip(2) =~= line@.skip(start + 2));
            }
            start = start + 2;
        }
        proof {
            let t = line@.skip(start as int);
            if starts_with_seq(t, trace_marker()) {
                assert(t[0] == line@[start as int]);
                assert(t[1] == line@[start + 1]);
            }
            assert(strip_trace_markers(t) == t);
        }
        let rest = line.substring_char(start, n);
        proof {
            assert(line@.skip(start as int) =~= line@.subrange(start as int, n as int));
        }
        let command = trim(rest);
        LineClass::Command { command }
    } else if n > 0 && line.get_char(0) == '+' {
        LineClass::Noise
    } else {
        LineClass::Message
    }
}

} // verus!
