//! The decision core of the command launcher: which prompts to ask,
//! which backend to spawn, how the collected stream becomes the final
//! summary, and how a requested working directory is sanitized. The
//! process, PTY and channel plumbing belong to the caller.

use vstd::prelude::*;
use crate::shell::ShellKind;
use crate::text::{
    chars_eq, chars_to_string, int_rep, i32_to_string, lower_chars, lower_seq, str_to_chars,
    trim_chars, trim_seq,
};

verus! {

/// The wall-clock ceiling for one command, in seconds.
pub const COMMAND_TIMEOUT_SECS: u64 = 120;

/// Arguments of the execute_command tool call.
#[derive(Debug, Clone)]
pub struct Args {
    pub command: String,
    pub cwd: Option<String>,
}

/// Which stream a chunk came from.
#[derive(Debug, Clone, Copy, PartialEq, Eq, Structural)]
pub enum StreamKind {
    Stdout,
    Stderr,
}

/// A borrowed view of one chunk, as handed to the per-chunk callback.
#[derive(Debug, Clone, Copy)]
pub struct StreamChunk<'a> {
    pub kind: StreamKind,
    pub data: &'a [u8],
}

/// One message from a stream-reader task to the collector.
#[derive(Debug)]
pub enum StreamMessage {
    Stdout(Vec<u8>),
    Stderr(Vec<u8>),
    Error(String),
}

/// The bytes the stdout messages among the first `upto` contribute,
/// in arrival order.
pub open spec fn stdout_concat(msgs: Seq<StreamMessage>, upto: int) -> Seq<u8>
    decreases upto when 0 <= upto <= msgs.len()
{
    if upto <= 0 {
        Seq::empty()
    } else {
        stdout_concat(msgs, upto - 1) + (match msgs[upto - 1] {
            StreamMessage::Stdout(c) => c@,
            _ => Seq::empty(),
        })
    }
}

/// The bytes the stderr messages among the first `upto` contribute.
pub open spec fn stderr_concat(msgs: Seq<StreamMessage>, upto: int) -> Seq<u8>
    decreases upto when 0 <= upto <= msgs.len()
{
    if upto <= 0 {
        Seq::empty()
    } else {
        stderr_concat(msgs, upto - 1) + (match msgs[upto - 1] {
            StreamMessage::Stderr(c) => c@,
            _ => Seq::empty(),
        })
    }
}

/// The accumulated output of one execution.
#[derive(Debug)]
pub struct CollectedStreams {
    pub stdout: Vec<u8>,
    pub stderr: Vec<u8>,
}

/// Drain the messages of one execution in arrival order, accumulating
/// the two buffers; an error message aborts the collection with that
/// error. The two buffers are exactly the concatenations of the
/// chunks of their streams, so the per-chunk callback — driven by the
/// caller on the same messages — sees exactly what the buffers hold.
pub fn collect_stream_messages(msgs: &Vec<StreamMessage>) -> (r: Result<CollectedStreams, String>)
    ensures
        match r {
            Ok(c) => (forall|j: int|
                0 <= j < msgs@.len() ==> !(#[trigger] msgs@[j] is Error)) && c.stdout@
                == stdout_concat(msgs@, msgs@.len() as int) && c.stderr@ == stderr_concat(
                msgs@,
                msgs@.len() as int,
            ),
            Err(e) => exists|j: int|
                {
                    &&& 0 <= j < msgs@.len()
                    &&& (#[trigger] msgs@[j]) matches StreamMessage::Error(m) && e@ == m@
                    &&& forall|k: int| 0 <= k < j ==> !(#[trigger] msgs@[k] is Error)
                },
        },
{
    let mut stdout: Vec<u8> = Vec::new();
    let mut stderr: Vec<u8> = Vec::new();
    let mut i: usize = 0;
    while i < msgs.len()
        invariant
            i <= msgs@.len(),
            stdout@ == stdout_concat(msgs@, i as int),
            stderr@ == stderr_concat(msgs@, i as int),
            forall|k: int| 0 <= k < i ==> !(#[trigger] msgs@[k] is Error),
        decreases msgs@.len() - i,
    {
        match &msgs[i] {
            StreamMessage::Stdout(chunk) => {
                let mut j: usize = 0;
                while j < chunk.len()
                    invariant
                        j <= chunk@.len(),
                        stdout@ == stdout_concat(msgs@, i as int) + chunk@.subrange(0, j as int),
                        i < msgs@.len(),
                        msgs@[i as int] matches StreamMessage::Stdout(c) && c@ == chunk@,
                    decreases chunk@.len() - j,
                {
                    stdout.push(chunk[j]);
                    j = j + 1;
                    proof {
                        assert(stdout@ =~= stdout_concat(msgs@, i as int) + chunk@.subrange(
                            0,
                            j as int,
                        ));
                    }
                }
                proof {
                    assert(chunk@.subrange(0, chunk@.len() as int) =~= chunk@);
                    assert(stdout@ =~= stdout_concat(msgs@, i as int + 1));
                    assert(stderr@ =~= stderr_concat(msgs@, i as int + 1));
                }
            },
            StreamMessage::Stderr(chunk) => {
                let mut j: usize = 0;
                while j < chunk.len()
                    invariant
                        j <= chunk@.len(),
                        stderr@ == stderr_concat(msgs@, i as int) + chunk@.subrange(0, j as int),
                        i < msgs@.len(),
                        msgs@[i as int] matches StreamMessage::Stderr(c) && c@ == chunk@,
                    decreases chunk@.len() - j,
                {
                    stderr.push(chunk[j]);
                    j = j + 1;
                    proof {
                        assert(stderr@ =~= stderr_concat(msgs@, i as int) + chunk@.subrange(
                            0,
                            j as int,
                        ));
                    }
                }
                proof {
                    assert(chunk@.subrange(0, chunk@.len() as int) =~= chunk@);
                    assert(stdout@ =~= stdout_concat(msgs@, i as int + 1));
                    assert(stderr@ =~= stderr_concat(msgs@, i as int + 1));
                }
            },
            StreamMessage::Error(m) => {
                return Err(String::from_str(m.as_str()));
            },
        }
        i = i + 1;
    }
    Ok(CollectedStreams { stdout, stderr })
}

/// What `String::from_utf8_lossy` returns on the given bytes.
pub uninterp spec fn utf8_lossy(bytes: Seq<u8>) -> Seq<char>;

/// Relies on `String::from_utf8_lossy`: ASCII bytes decode to
/// themselves; invalid sequences become replacement characters.
#[verifier::external_body]
fn bytes_to_string_lossy(bytes: &Vec<u8>) -> (r: String)
    ensures
        r@ == utf8_lossy(bytes@),
        (forall|i: int| 0 <= i < bytes@.len() ==> bytes@[i] < 128) ==> r@ == bytes@.map(
            |_i: int, b: u8| b as char,
        ),
{
    String::from_utf8_lossy(bytes).into_owned()
}

/// One output section of the summary: the text, with a newline added
/// when it does not already end in one.
pub open spec fn summary_section(text: Seq<char>) -> Seq<char> {
    if text.len() > 0 && text.last() == '\n' {
        text
    } else {
        text + "\n"@
    }
}

/// The plain-text summary of one execution.
pub open spec fn summary_spec(code: int, stdout: Seq<char>, stderr: Seq<char>) -> Seq<char> {
    "Exit code: "@ + int_rep(code) + "\n--- stdout ---\n"@ + summary_section(stdout)
        + "--- stderr ---\n"@ + summary_section(stderr)
}

/// Format the final summary: exit code, then the stdout and stderr
/// sections, each with a trailing newline ensured.
pub fn format_summary(code: i32, stdout: &str, stderr: &str) -> (r: String)
    ensures
        r@ == summary_spec(code as int, stdout@, stderr@),
{
    let mut s = String::from_str("Exit code: ");
    s.append(i32_to_string(code).as_str());
    s.append("\n--- stdout ---\n");
    s.append(stdout);
    let out_chars = str_to_chars(stdout);
    if !(out_chars.len() > 0 && out_chars[out_chars.len() - 1] == '\n') {
        s.append("\n");
    }
    s.append("--- stderr ---\n");
    s.append(stderr);
    let err_chars = str_to_chars(stderr);
    if !(err_chars.len() > 0 && err_chars[err_chars.len() - 1] == '\n') {
        s.append("\n");
    }
    proof {
        assert(s@ =~= summary_spec(code as int, stdout@, stderr@));
    }
    s
}

/// Format the summary straight from the collected byte streams, as
/// the launcher reports one execution. For all-ASCII streams the
/// summary text is pinned byte for byte.
pub fn summarize_streams(code: i32, streams: &CollectedStreams) -> (r: String)
    ensures
        r@ == summary_spec(
            code as int,
            utf8_lossy(streams.stdout@),
            utf8_lossy(streams.stderr@),
        ),
        (forall|i: int| 0 <= i < streams.stdout@.len() ==> streams.stdout@[i] < 128) && (forall|
            i: int,
        | 0 <= i < streams.stderr@.len() ==> streams.stderr@[i] < 128) ==> r@ == summary_spec(
            code as int,
            streams.stdout@.map(|_i: int, b: u8| b as char),
            streams.stderr@.map(|_i: int, b: u8| b as char),
        ),
{
    let stdout = bytes_to_string_lossy(&streams.stdout);
    let stderr = bytes_to_string_lossy(&streams.stderr);
    format_summary(code, stdout.as_str(), stderr.as_str())
}

/// Whether the POSIX launcher should try a PTY first: an explicit
/// force flag, or an attached terminal with no explicit disable flag.
pub fn should_use_pty(force: bool, disable: bool, stdout_is_tty: bool) -> (r: bool)
    ensures
        r == (force || (!disable && stdout_is_tty)),
{
    force || (!disable && stdout_is_tty)
}

/// The argument vectors tried for one shell target, in order: each
/// candidate is a program followed by its arguments, ending with the
/// command itself.
pub open spec fn shell_invocations_spec(shell: ShellKind, command: Seq<char>) -> Seq<
    Seq<Seq<char>>,
> {
    match shell {
        ShellKind::Posix => seq![seq!["sh"@, "-lc"@, command]],
        ShellKind::CmdExe => seq![seq!["cmd.exe"@, "/d"@, "/s"@, "/c"@, command]],
        ShellKind::PowerShell => seq![
            seq!["pwsh"@, "-NoLogo"@, "-NoProfile"@, "-Command"@, command],
            seq!["powershell"@, "-NoLogo"@, "-NoProfile"@, "-Command"@, command],
        ],
    }
}

/// Build the candidate command lines for one shell target.
pub fn shell_invocations(shell: ShellKind, command: &str) -> (r: Vec<Vec<String>>)
    ensures
        r.deep_view() == shell_invocations_spec(shell, command@),
{
    let mut candidates: Vec<Vec<String>> = Vec::new();
    match shell {
        ShellKind::Posix => {
            let mut argv: Vec<String> = Vec::new();
            argv.push(String::from_str("sh"));
            argv.push(String::from_str("-lc"));
            argv.push(String::from_str(command));
            candidates.push(argv);
            proof {
                assert(candidates.deep_view() =~~= shell_invocations_spec(shell, command@));
            }
        },
        ShellKind::CmdExe => {
            let mut argv: Vec<String> = Vec::new();
            argv.push(String::from_str("cmd.exe"));
            argv.push(String::from_str("/d"));
            argv.push(String::from_str("/s"));
            argv.push(String::from_str("/c"));
            argv.push(String::from_str(command));
            candidates.push(argv);
            proof {
                assert(candidates.deep_view() =~~= shell_invocations_spec(shell, command@));
            }
        },
        ShellKind::PowerShell => {
            let mut first: Vec<String> = Vec::new();
            first.push(String::from_str("pwsh"));
            first.push(String::from_str("-NoLogo"));
            first.push(String::from_str("-NoProfile"));
            first.push(String::from_str("-Command"));
            first.push(String::from_str(command));
            candidates.push(first);
            let mut second: Vec<String> = Vec::new();
            second.push(String::from_str("powershell"));
            second.push(String::from_str("-NoLogo"));
            second.push(String::from_str("-NoProfile"));
            second.push(String::from_str("-Command"));
            second.push(String::from_str(command));
            candidates.push(second);
            proof {
                assert(candidates.deep_view() =~~= shell_invocations_spec(shell, command@));
            }
        },
    }
    candidates
}

/// The two child-process backends.
#[derive(Debug, Clone, Copy, PartialEq, Eq, Structural)]
pub enum ChildBackend {
    /// A pseudo-terminal child with one combined output stream.
    Pty,
    /// A plain piped child with separate stdout and stderr.
    Pipes,
}

/// Pick the backend: only a POSIX target with PTY enabled gets a PTY
/// child; `cmd.exe` and PowerShell children are always piped.
pub fn select_backend(shell: ShellKind, use_pty: bool) -> (r: ChildBackend)
    ensures
        r == (if shell is Posix && use_pty {
            ChildBackend::Pty
        } else {
            ChildBackend::Pipes
        }),
{
    match shell {
        ShellKind::Posix => if use_pty {
            ChildBackend::Pty
        } else {
            ChildBackend::Pipes
        },
        _ => ChildBackend::Pipes,
    }
}

/// The prompts one execution needs before spawning.
#[derive(Debug, Clone, Copy)]
pub struct ConfirmationPlan {
    /// Warn that the working directory lies outside the home directory.
    pub warn_outside_home: bool,
    /// Ask before proceeding outside the home directory.
    pub ask_outside_home: bool,
    /// Ask before executing at all.
    pub ask_execute: bool,
}

/// Decide which prompts to issue: the outside-home warning is always
/// printed when it applies; its confirmation and the execute
/// confirmation are skipped only under auto-approval, except that a
/// command needing confirmation is always asked about.
pub fn confirmation_plan(needs_confirmation: bool, auto_yes: bool, cwd_outside_home: bool) -> (r:
    ConfirmationPlan)
    ensures
        r.warn_outside_home == cwd_outside_home,
        r.ask_outside_home == (cwd_outside_home && !auto_yes),
        r.ask_execute == (needs_confirmation || !auto_yes),
{
    ConfirmationPlan {
        warn_outside_home: cwd_outside_home,
        ask_outside_home: cwd_outside_home && !auto_yes,
        ask_execute: needs_confirmation || !auto_yes,
    }
}

/// Whether an interactive reply means yes.
pub fn is_yes(input: &str) -> (r: bool)
    ensures
        r == (lower_seq(trim_seq(input@)) == "y"@ || lower_seq(trim_seq(input@)) == "yes"@),
{
    let chars = str_to_chars(input);
    let lowered = lower_chars(&trim_chars(&chars));
    chars_eq(&lowered, &str_to_chars("y")) || chars_eq(&lowered, &str_to_chars("yes"))
}

/// The components of a relative request with `.` segments dropped,
/// over the first `i` components.
pub open spec fn real_comps_upto(cs: Seq<Seq<char>>, i: int) -> Seq<Seq<char>>
    decreases i when 0 <= i <= cs.len()
{
    if i <= 0 {
        Seq::empty()
    } else {
        let prev = real_comps_upto(cs, i - 1);
        if cs[i - 1] == "."@ {
            prev
        } else {
            prev.push(cs[i - 1])
        }
    }
}

/// Whether a relative request contains a parent-directory segment.
pub open spec fn relative_escapes(comps: Seq<Seq<char>>) -> bool {
    exists|k: int| 0 <= k < comps.len() && #[trigger] comps[k] == ".."@
}

/// Where a requested working directory may land: inside the base
/// directory, or back on the base itself when the request escapes it.
pub open spec fn sanitize_cwd_spec(
    requested: Option<Seq<char>>,
    base: Seq<char>,
    canonical_requested: Option<Seq<char>>,
) -> (Seq<char>, bool) {
    match requested {
        None => (base, false),
        Some(raw) => {
            let t = trim_seq(raw);
            if t.len() == 0 {
                (base, false)
            } else if t[0] == '/' {
                match canonical_requested {
                    Some(c) => if crate::perms::path_starts_with(c, base) {
                        (c, false)
                    } else {
                        (base, true)
                    },
                    None => (base, true),
                }
            } else {
                let cs = crate::perms::path_comps(t);
                let kept = real_comps_upto(cs, cs.len() as int);
                if relative_escapes(cs) {
                    (base, true)
                } else if kept.len() == 0 {
                    (base, false)
                } else {
                    (base + "/"@ + crate::perms::join_comps(kept), false)
                }
            }
        },
    }
}

/// Sanitize the requested working directory against a base directory.
/// An absolute request must canonicalize (the caller supplies that
/// form) to a path under the base; a relative one may not contain
/// parent-directory segments and has its `.` segments dropped.
/// Anything else falls back to the base, with the second component
/// reporting the fallback.
pub fn sanitize_cwd_path(
    requested: Option<&str>,
    base: &str,
    canonical_requested: Option<&str>,
) -> (r: (String, bool))
    ensures
        (r.0@, r.1) == sanitize_cwd_spec(
            match requested {
                Some(s) => Some(s@),
                None => None,
            },
            base@,
            match canonical_requested {
                Some(s) => Some(s@),
                None => None,
            },
        ),
{
    let raw = match requested {
        None => {
            return (String::from_str(base), false);
        },
        Some(raw) => raw,
    };
    let t = trim_chars(&str_to_chars(raw));
    if t.len() == 0 {
        return (String::from_str(base), false);
    }
    if t[0] == '/' {
        match canonical_requested {
            Some(c) => {
                let base_vec = singleton_root(base);
                let inside = crate::perms::is_within_allowed(c, &base_vec);
                proof {
                    assert(base_vec.deep_view()[0] == base@);
                    if crate::perms::path_starts_with(c@, base@) {
                        assert(crate::perms::within_any_root(c@, base_vec.deep_view()));
                    }
                }
                if inside {
                    return (String::from_str(c), false);
                }
                return (String::from_str(base), true);
            },
            None => {
                return (String::from_str(base), true);
            },
        }
    }
    let comps = crate::perms::comps_of_chars(&t);
    let ghost cs = crate::perms::path_comps(trim_seq(raw@));
    let dot = str_to_chars(".");
    let dotdot = str_to_chars("..");
    let mut kept: Vec<Vec<char>> = Vec::new();
    let mut k: usize = 0;
    while k < comps.len()
        invariant
            k <= comps@.len(),
            dot@ == "."@,
            dotdot@ == ".."@,
            comps.deep_view() == cs,
            cs.len() == comps@.len(),
            cs == crate::perms::path_comps(trim_seq(raw@)),
            trim_seq(raw@).len() > 0,
            trim_seq(raw@)[0] != '/',
            match requested {
                Some(s) => s@ == raw@,
                None => false,
            },
            kept.deep_view() == real_comps_upto(cs, k as int),
            forall|j: int| 0 <= j < k ==> cs[j] != ".."@,
        decreases comps@.len() - k,
    {
        let ghost pre = kept.deep_view();
        proof {
            assert(comps.deep_view()[k as int] == comps@[k as int]@);
        }
        if chars_eq(&comps[k], &dotdot) {
            proof {
                assert(cs[k as int] == ".."@);
                assert(relative_escapes(cs));
            }
            return (String::from_str(base), true);
        }
        if chars_eq(&comps[k], &dot) {
            // a current-directory segment is dropped
        } else {
            kept.push(crate::text::subvec(&comps[k], 0, comps[k].len()));
            proof {
                assert(comps@[k as int]@.subrange(0, comps@[k as int]@.len() as int) =~=
                    comps@[k as int]@);
                assert(kept.deep_view() =~~= pre.push(cs[k as int]));
            }
        }
        k = k + 1;
    }
    proof {
        assert(!relative_escapes(cs));
    }
    if kept.len() == 0 {
        proof {
            assert(kept.deep_view().len() == 0);
        }
        return (String::from_str(base), false);
    }
    let mut joined = str_to_chars(base);
    joined.push('/');
    let ghost mid = joined@;
    let mut out_tail: Vec<char> = Vec::new();
    crate::perms::join_comps_exec(&kept, &mut out_tail);
    crate::text::append_chars(&mut joined, &out_tail);
    proof {
        reveal_strlit("/");
        assert(mid =~= base@ + "/"@);
        assert(joined@ =~= base@ + "/"@ + crate::perms::join_comps(
            real_comps_upto(cs, cs.len() as int),
        ));
    }
    (chars_to_string(&joined), false)
}

/// A one-element root list.
fn singleton_root(base: &str) -> (r: Vec<String>)
    ensures
        r.deep_view().len() == 1,
        r.deep_view()[0] == base@,
{
    let mut v: Vec<String> = Vec::new();
    v.push(String::from_str(base));
    v
}

} // verus!
