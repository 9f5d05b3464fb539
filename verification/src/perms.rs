//! Command-safety classifier and path-containment guard.
//!
//! `ensure_safe_command` classifies one shell command against a policy:
//! it is either allowed outright, allowed pending confirmation (when it
//! uses shell control operators), or rejected with a typed error.
//! The path guard decides whether a lexically normalized path stays
//! inside the allowed roots; the caller supplies the canonical forms,
//! since the library itself never touches the filesystem.

use vstd::prelude::*;
use crate::text::{
    append_chars, contains_seq, contains_string, contains_sub, lower_seq, lower_chars,
    starts_with_seq, str_eq, str_to_chars, chars_to_string, subvec, trim_chars, trim_seq,
};

verus! {

/// Cap read_file size to 1 MiB.
pub const READ_FILE_MAX_BYTES: usize = 1024 * 1024;

/// The classifier's verdict for a command that is not rejected.
#[derive(Debug, Clone, PartialEq, Eq)]
pub enum CommandDisposition {
    Allowed,
    NeedsConfirmation { reason: String },
}

/// The program named by a rejected command; callers may offer to add it
/// to the allowlist and retry.
#[derive(Debug, Clone)]
pub struct CommandNotAllowedError {
    pub program: String,
}

impl CommandNotAllowedError {
    pub fn new(program: String) -> (r: Self)
        ensures
            r.program == program,
    {
        CommandNotAllowedError { program }
    }

    /// A printable description of the error.
    pub fn message(&self) -> (r: String)
        ensures
            r@ == "Command '"@ + self.program@ + "' is not in the qa allowlist"@,
    {
        let mut s = String::from_str("Command '");
        s.append(self.program.as_str());
        s.append("' is not in the qa allowlist");
        s
    }
}

/// Why a command was rejected.
#[derive(Debug, Clone)]
pub enum CommandError {
    /// The command was empty or whitespace-only.
    EmptyCommand,
    /// Shell-word tokenization failed on one of the segments.
    ParseFailure,
    /// A segment's program is neither builtin-safe nor custom-allowed.
    NotAllowed(CommandNotAllowedError),
    /// `find` with a delete/exec action.
    FindUnsafeAction,
    /// `sed` with an in-place edit flag.
    SedInPlace,
    /// The raw text contains a global wipe pattern (`rm -rf /`).
    DestructiveWipe,
    /// The raw text invokes `sudo`.
    SudoBlocked,
    /// The raw text contains a disk-destroying pattern (`mkfs`, `dd if=`).
    DiskOperation,
}

/// The classification policy: an explicit bypass switch and the
/// user-maintained allowlist, threaded into every classifier call.
pub struct CommandPolicy {
    /// When set, the classifier short-circuits to `Allowed`. Opt-in and loud.
    pub allow_unsafe: bool,
    /// Extra program names the user has explicitly trusted.
    pub custom_allowlist: Vec<String>,
}

impl CommandPolicy {
    /// The default policy: no bypass, no custom entries.
    pub fn new() -> (r: Self)
        ensures
            !r.allow_unsafe,
            r.custom_allowlist@.len() == 0,
    {
        CommandPolicy { allow_unsafe: false, custom_allowlist: Vec::new() }
    }
}

/// Replace the custom allowlist of a policy.
pub fn set_custom_allowlist(policy: &mut CommandPolicy, commands: Vec<String>)
    ensures
        final(policy).custom_allowlist == commands,
        final(policy).allow_unsafe == old(policy).allow_unsafe,
{
    policy.custom_allowlist = commands;
}

/// Empty the custom allowlist of a policy.
pub fn clear_custom_allowlist(policy: &mut CommandPolicy)
    ensures
        final(policy).custom_allowlist@.len() == 0,
        final(policy).allow_unsafe == old(policy).allow_unsafe,
{
    policy.custom_allowlist = Vec::new();
}

/// What `shell_words::split` returns on a given line, when it succeeds.
pub uninterp spec fn shell_tokens(s: Seq<char>) -> Option<Seq<Seq<char>>>;

/// Relies on `shell_words::split`: POSIX-style word splitting of one
/// command line; `None` stands for its parse error.
#[verifier::external_body]
fn split_shell_words(s: &str) -> (r: Option<Vec<String>>)
    ensures
        match r {
            Some(v) => shell_tokens(s@) == Some(v.deep_view()),
            None => shell_tokens(s@) is None,
        },
{
    match shell_words::split(s) {
        Ok(v) => Some(v),
        Err(_) => None,
    }
}

/// The builtin set of read-only or diagnostic programs.
pub open spec fn is_builtin_safe_name(p: Seq<char>) -> bool {
    ||| p == "awk"@
    ||| p == "cat"@
    ||| p == "cut"@
    ||| p == "df"@
    ||| p == "du"@
    ||| p == "env"@
    ||| p == "echo"@
    ||| p == "find"@
    ||| p == "grep"@
    ||| p == "head"@
    ||| p == "ls"@
    ||| p == "pwd"@
    ||| p == "rg"@
    ||| p == "sed"@
    ||| p == "sort"@
    ||| p == "stat"@
    ||| p == "tail"@
    ||| p == "tree"@
    ||| p == "uniq"@
    ||| p == "wc"@
}

/// Whether a program name is in the builtin safe set.
pub fn is_builtin_safe(p: &str) -> (r: bool)
    ensures
        r == is_builtin_safe_name(p@),
{
    str_eq(p, "awk") || str_eq(p, "cat") || str_eq(p, "cut") || str_eq(p, "df") || str_eq(p, "du")
        || str_eq(p, "env") || str_eq(p, "echo") || str_eq(p, "find") || str_eq(p, "grep")
        || str_eq(p, "head") || str_eq(p, "ls") || str_eq(p, "pwd") || str_eq(p, "rg") || str_eq(
        p,
        "sed",
    ) || str_eq(p, "sort") || str_eq(p, "stat") || str_eq(p, "tail") || str_eq(p, "tree")
        || str_eq(p, "uniq") || str_eq(p, "wc")
}

/// Quote-aware scan for shell control operators: a newline, backtick,
/// `$(`, or one of `& | ; > <` outside quotes, honouring backslash
/// escapes outside single quotes.
pub open spec fn has_control_from(
    s: Seq<char>,
    i: int,
    esc: bool,
    sgl: bool,
    dbl: bool,
) -> bool
    decreases s.len() - i when 0 <= i <= s.len()
{
    if i >= s.len() {
        false
    } else if esc {
        has_control_from(s, i + 1, false, sgl, dbl)
    } else {
        let c = s[i];
        if c == '\\' {
            has_control_from(s, i + 1, !sgl, sgl, dbl)
        } else if c == '\'' {
            has_control_from(s, i + 1, false, if !dbl { !sgl } else { sgl }, dbl)
        } else if c == '"' {
            has_control_from(s, i + 1, false, sgl, if !sgl { !dbl } else { dbl })
        } else if (c == '\n' || c == '`') && !sgl && !dbl {
            true
        } else if c == '$' && !sgl && i + 1 < s.len() && s[i + 1] == '(' {
            true
        } else if (c == '&' || c == '|' || c == ';' || c == '>' || c == '<') && !sgl && !dbl {
            true
        } else {
            has_control_from(s, i + 1, false, sgl, dbl)
        }
    }
}

/// Whether the command contains an unquoted control operator.
pub open spec fn has_control_operators(s: Seq<char>) -> bool {
    has_control_from(s, 0, false, false, false)
}

/// Quote-aware scan deciding whether the command contains a shell
/// control operator outside quotes.
pub fn contains_control_operators(v: &Vec<char>) -> (r: bool)
    ensures
        r == has_control_operators(v@),
{
    let n = v.len();
    let mut i: usize = 0;
    let mut esc = false;
    let mut sgl = false;
    let mut dbl = false;
    while i < n
        invariant
            i <= n,
            n == v@.len(),
            has_control_operators(v@) == has_control_from(v@, i as int, esc, sgl, dbl),
        decreases n - i,
    {
        let c = v[i];
        if esc {
            esc = false;
        } else if c == '\\' {
            esc = !sgl;
        } else if c == '\'' {
            if !dbl {
                sgl = !sgl;
            }
        } else if c == '"' {
            if !sgl {
                dbl = !dbl;
            }
        } else if (c == '\n' || c == '`') && !sgl && !dbl {
            return true;
        } else if c == '$' && !sgl && i + 1 < n && v[i + 1] == '(' {
            return true;
        } else if (c == '&' || c == '|' || c == ';' || c == '>' || c == '<') && !sgl && !dbl {
            return true;
        }
        i = i + 1;
    }
    false
}

/// Split the command on unquoted `| & ; \n`, collapsing a doubled
/// operator into one split point.
pub open spec fn split_segments_from(
    s: Seq<char>,
    i: int,
    start: int,
    esc: bool,
    sgl: bool,
    dbl: bool,
) -> Seq<Seq<char>>
    decreases s.len() - i when 0 <= start <= i <= s.len()
{
    if i >= s.len() {
        seq![s.subrange(start, s.len() as int)]
    } else if esc {
        split_segments_from(s, i + 1, start, false, sgl, dbl)
    } else {
        let c = s[i];
        if c == '\\' {
            split_segments_from(s, i + 1, start, !sgl, sgl, dbl)
        } else if c == '\'' {
            split_segments_from(s, i + 1, start, false, if !dbl { !sgl } else { sgl }, dbl)
        } else if c == '"' {
            split_segments_from(s, i + 1, start, false, sgl, if !sgl { !dbl } else { dbl })
        } else if c == '\n' && !sgl && !dbl {
            seq![s.subrange(start, i)] + split_segments_from(s, i + 1, i + 1, false, sgl, dbl)
        } else if (c == '|' || c == '&' || c == ';') && !sgl && !dbl {
            let j = if i + 1 < s.len() && s[i + 1] == c {
                i + 2
            } else {
                i + 1
            };
            seq![s.subrange(start, i)] + split_segments_from(s, j, j, false, sgl, dbl)
        } else {
            split_segments_from(s, i + 1, start, false, sgl, dbl)
        }
    }
}

/// The ordered sub-command segments of a command.
pub open spec fn split_segments_spec(s: Seq<char>) -> Seq<Seq<char>> {
    split_segments_from(s, 0, 0, false, false, false)
}

/// Split a command into sub-command segments on unquoted operators.
pub fn split_command_segments(v: &Vec<char>) -> (r: Vec<Vec<char>>)
    ensures
        r.deep_view() == split_segments_spec(v@),
{
    let n = v.len();
    let mut segments: Vec<Vec<char>> = Vec::new();
    let mut i: usize = 0;
    let mut start: usize = 0;
    let mut esc = false;
    let mut sgl = false;
    let mut dbl = false;
    while i < n
        invariant
            start <= i <= n,
            n == v@.len(),
            split_segments_spec(v@) == segments.deep_view() + split_segments_from(
                v@,
                i as int,
                start as int,
                esc,
                sgl,
                dbl,
            ),
        decreases n - i,
    {
        let ghost pre = segments.deep_view();
        let ghost i0 = i as int;
        let ghost start0 = start as int;
        let c = v[i];
        if esc {
            esc = false;
            i = i + 1;
        } else if c == '\\' {
            esc = !sgl;
            i = i + 1;
        } else if c == '\'' {
            if !dbl {
                sgl = !sgl;
            }
            i = i + 1;
        } else if c == '"' {
            if !sgl {
                dbl = !dbl;
            }
            i = i + 1;
        } else if c == '\n' && !sgl && !dbl {
            segments.push(subvec(v, start, i));
            i = i + 1;
            start = i;
            proof {
                let sub = v@.subrange(start0, i0);
                let rest = split_segments_from(v@, i0 + 1, i0 + 1, false, sgl, dbl);
                assert(segments.deep_view() =~~= pre.push(sub));
                assert(pre.push(sub) + rest =~~= pre + (seq![sub] + rest));
            }
        } else if (c == '|' || c == '&' || c == ';') && !sgl && !dbl {
            let j = if i + 1 < n && v[i + 1] == c {
                i + 2
            } else {
                i + 1
            };
            segments.push(subvec(v, start, i));
            i = j;
            start = j;
            proof {
                let sub = v@.subrange(start0, i0);
                let rest = split_segments_from(v@, i as int, i as int, false, sgl, dbl);
                assert(segments.deep_view() =~~= pre.push(sub));
                assert(pre.push(sub) + rest =~~= pre + (seq![sub] + rest));
            }
        } else {
            i = i + 1;
        }
    }
    let ghost pre = segments.deep_view();
    segments.push(subvec(v, start, n));
    proof {
        let sub = v@.subrange(start as int, n as int);
        assert(segments.deep_view() =~~= pre.push(sub));
        assert(pre.push(sub) =~~= pre + seq![sub]);
        assert(segments.deep_view() =~~= split_segments_spec(v@));
    }
    segments
}

/// The verdicts the classifier can reach, at the specification level.
pub ghost enum SpecVerdict {
    Allowed,
    NeedsConfirmation,
    RejectEmpty,
    RejectParse,
    RejectProgram(Seq<char>),
    RejectFind,
    RejectSed,
    RejectWipe,
    RejectSudo,
    RejectDisk,
}

/// `find` actions that delete or execute.
pub open spec fn is_find_forbidden_name(t: Seq<char>) -> bool {
    t == "-delete"@ || t == "-exec"@ || t == "-execdir"@ || t == "-ok"@ || t == "-okdir"@
}

pub open spec fn find_forbidden_token(toks: Seq<Seq<char>>) -> bool {
    exists|k: int| 0 <= k < toks.len() && is_find_forbidden_name(#[trigger] toks[k])
}

pub open spec fn sed_inplace_token(toks: Seq<Seq<char>>) -> bool {
    exists|k: int| 0 <= k < toks.len() && starts_with_seq(#[trigger] toks[k], "-i"@)
}

/// The verdict one segment contributes: `None` when the segment passes
/// (or is empty), `Some(rejection)` otherwise.
pub open spec fn segment_verdict(custom: Seq<Seq<char>>, seg: Seq<char>) -> Option<SpecVerdict> {
    let st = trim_seq(seg);
    if st.len() == 0 {
        None
    } else {
        match shell_tokens(st) {
            None => Some(SpecVerdict::RejectParse),
            Some(toks) => if toks.len() == 0 {
                None
            } else {
                let prog = toks[0];
                let builtin = is_builtin_safe_name(prog);
                let custom_ok = custom.contains(prog);
                if !builtin && !custom_ok {
                    Some(SpecVerdict::RejectProgram(prog))
                } else if builtin && !custom_ok {
                    if prog == "find"@ && find_forbidden_token(toks) {
                        Some(SpecVerdict::RejectFind)
                    } else if prog == "sed"@ && sed_inplace_token(toks) {
                        Some(SpecVerdict::RejectSed)
                    } else {
                        None
                    }
                } else {
                    None
                }
            },
        }
    }
}

/// The first rejection among the segments from index `i` on.
pub open spec fn first_segment_verdict(
    custom: Seq<Seq<char>>,
    segs: Seq<Seq<char>>,
    i: int,
) -> Option<SpecVerdict>
    decreases segs.len() - i when 0 <= i <= segs.len()
{
    if i >= segs.len() {
        None
    } else {
        match segment_verdict(custom, segs[i]) {
            Some(v) => Some(v),
            None => first_segment_verdict(custom, segs, i + 1),
        }
    }
}

pub open spec fn any_nonempty_segment(segs: Seq<Seq<char>>) -> bool {
    exists|j: int| 0 <= j < segs.len() && trim_seq(#[trigger] segs[j]).len() > 0
}

/// The reason attached to a confirmation-needing disposition.
pub open spec fn control_operator_reason() -> Seq<char> {
    "Command uses shell control operators (pipelines, redirection, chaining)."@
}

/// The full classification pipeline, as a function of the policy and
/// the raw command text.
pub open spec fn classify_spec(
    allow_unsafe: bool,
    custom: Seq<Seq<char>>,
    cmd: Seq<char>,
) -> SpecVerdict {
    if allow_unsafe {
        SpecVerdict::Allowed
    } else {
        let t = trim_seq(cmd);
        if t.len() == 0 {
            SpecVerdict::RejectEmpty
        } else {
            let segs = split_segments_spec(t);
            match first_segment_verdict(custom, segs, 0) {
                Some(v) => v,
                None => if !any_nonempty_segment(segs) {
                    SpecVerdict::RejectEmpty
                } else {
                    let lower = lower_seq(cmd);
                    if contains_seq(lower, "rm -rf /"@) || contains_seq(lower, "rm -rf -- /"@) {
                        SpecVerdict::RejectWipe
                    } else if contains_seq(lower, "sudo "@) {
                        SpecVerdict::RejectSudo
                    } else if contains_seq(lower, "mkfs"@) || contains_seq(lower, "dd if="@) {
                        SpecVerdict::RejectDisk
                    } else if has_control_operators(t) {
                        SpecVerdict::NeedsConfirmation
                    } else {
                        SpecVerdict::Allowed
                    }
                },
            }
        }
    }
}

/// How an executable result realizes a specification verdict.
pub open spec fn outcome_matches(
    r: Result<CommandDisposition, CommandError>,
    v: SpecVerdict,
) -> bool {
    match v {
        SpecVerdict::Allowed => r matches Ok(CommandDisposition::Allowed),
        SpecVerdict::NeedsConfirmation => r matches Ok(
            CommandDisposition::NeedsConfirmation { reason },
        ) && reason@ == control_operator_reason(),
        SpecVerdict::RejectEmpty => r matches Err(CommandError::EmptyCommand),
        SpecVerdict::RejectParse => r matches Err(CommandError::ParseFailure),
        SpecVerdict::RejectProgram(p) => r matches Err(CommandError::NotAllowed(e)) && e.program@
            == p,
        SpecVerdict::RejectFind => r matches Err(CommandError::FindUnsafeAction),
        SpecVerdict::RejectSed => r matches Err(CommandError::SedInPlace),
        SpecVerdict::RejectWipe => r matches Err(CommandError::DestructiveWipe),
        SpecVerdict::RejectSudo => r matches Err(CommandError::SudoBlocked),
        SpecVerdict::RejectDisk => r matches Err(CommandError::DiskOperation),
    }
}

fn has_find_forbidden(tokens: &Vec<String>) -> (r: bool)
    ensures
        r == find_forbidden_token(tokens.deep_view()),
{
    let mut k: usize = 0;
    while k < tokens.len()
        invariant
            k <= tokens@.len(),
            tokens.deep_view().len() == tokens@.len(),
            forall|j: int| 0 <= j < tokens@.len() ==> tokens.deep_view()[j] == tokens@[j]@,
            forall|j: int| 0 <= j < k ==> !is_find_forbidden_name(tokens.deep_view()[j]),
        decreases tokens@.len() - k,
    {
        let t = tokens[k].as_str();
        if str_eq(t, "-delete") || str_eq(t, "-exec") || str_eq(t, "-execdir") || str_eq(t, "-ok")
            || str_eq(t, "-okdir") {
            proof {
                assert(is_find_forbidden_name(tokens.deep_view()[k as int]));
            }
            return true;
        }
        k = k + 1;
    }
    false
}

fn has_sed_inplace(tokens: &Vec<String>) -> (r: bool)
    ensures
        r == sed_inplace_token(tokens.deep_view()),
{
    let flag = str_to_chars("-i");
    let mut k: usize = 0;
    while k < tokens.len()
        invariant
            flag@ == "-i"@,
            k <= tokens@.len(),
            tokens.deep_view().len() == tokens@.len(),
            forall|j: int| 0 <= j < tokens@.len() ==> tokens.deep_view()[j] == tokens@[j]@,
            forall|j: int| 0 <= j < k ==> !starts_with_seq(tokens.deep_view()[j], "-i"@),
        decreases tokens@.len() - k,
    {
        let t = str_to_chars(tokens[k].as_str());
        if crate::text::starts_with_chars(&t, &flag) {
            proof {
                assert(starts_with_seq(tokens.deep_view()[k as int], "-i"@));
            }
            return true;
        }
        k = k + 1;
    }
    false
}

/// Classify one shell command against the policy: allowed, allowed
/// pending confirmation, or rejected with a typed error. The behaviour
/// is pinned by `classify_spec`.
pub fn ensure_safe_command(policy: &CommandPolicy, cmd: &str) -> (r: Result<
    CommandDisposition,
    CommandError,
>)
    ensures
        outcome_matches(
            r,
            classify_spec(policy.allow_unsafe, policy.custom_allowlist.deep_view(), cmd@),
        ),
{
    if policy.allow_unsafe {
        return Ok(CommandDisposition::Allowed);
    }
    let ghost custom = policy.custom_allowlist.deep_view();
    let chars = str_to_chars(cmd);
    let trimmed = trim_chars(&chars);
    if trimmed.len() == 0 {
        return Err(CommandError::EmptyCommand);
    }
    let needs_confirmation = contains_control_operators(&trimmed);
    let segments = split_command_segments(&trimmed);
    let ghost segs = split_segments_spec(trim_seq(cmd@));
    proof {
        assert(segments.deep_view() == segs);
        assert(segments.deep_view().len() == segments@.len());
    }
    let mut saw = false;
    let mut k: usize = 0;
    while k < segments.len()
        invariant
            k <= segments@.len(),
            segments.deep_view() == segs,
            segs.len() == segments@.len(),
            custom == policy.custom_allowlist.deep_view(),
            !policy.allow_unsafe,
            chars@ == cmd@,
            trim_seq(cmd@).len() > 0,
            segs == split_segments_spec(trim_seq(cmd@)),
            needs_confirmation == has_control_operators(trim_seq(cmd@)),
            first_segment_verdict(custom, segs, 0) == first_segment_verdict(
                custom,
                segs,
                k as int,
            ),
            saw == exists|j: int| 0 <= j < k && trim_seq(#[trigger] segs[j]).len() > 0,
        decreases segments@.len() - k,
    {
        proof {
            assert(segs[k as int] == segments@[k as int]@);
        }
        let seg_trimmed = trim_chars(&segments[k]);
        if seg_trimmed.len() == 0 {
            k = k + 1;
            continue ;
        }
        proof {
            assert(trim_seq(segs[k as int]).len() > 0);
        }
        saw = true;
        let seg_string = chars_to_string(&seg_trimmed);
        let tokens_opt = split_shell_words(seg_string.as_str());
        match tokens_opt {
            None => {
                proof {
                    assert(seg_string@ == trim_seq(segs[k as int]));
                    assert(segment_verdict(custom, segs[k as int]) == Some(
                        SpecVerdict::RejectParse,
                    ));
                    assert(first_segment_verdict(custom, segs, k as int) == Some(
                        SpecVerdict::RejectParse,
                    ));
                }
                return Err(CommandError::ParseFailure);
            },
            Some(tokens) => {
                if tokens.len() == 0 {
                    k = k + 1;
                    continue ;
                }
                proof {
                    assert(tokens.deep_view()[0] == tokens@[0]@);
                }
                let program = &tokens[0];
                let builtin = is_builtin_safe(program.as_str());
                let custom_ok = contains_string(&policy.custom_allowlist, program.as_str());
                proof {
                    assert(seg_string@ == trim_seq(segs[k as int]));
                    assert(shell_tokens(trim_seq(segs[k as int])) == Some(tokens.deep_view()));
                    assert(tokens.deep_view()[0] == program@);
                }
                if !builtin && !custom_ok {
                    proof {
                        assert(segment_verdict(custom, segs[k as int]) == Some(
                            SpecVerdict::RejectProgram(program@),
                        ));
                        assert(first_segment_verdict(custom, segs, k as int) == Some(
                            SpecVerdict::RejectProgram(program@),
                        ));
                    }
                    return Err(
                        CommandError::NotAllowed(CommandNotAllowedError::new(program.clone())),
                    );
                }
                if builtin && !custom_ok {
                    if str_eq(program.as_str(), "find") && has_find_forbidden(&tokens) {
                        return Err(CommandError::FindUnsafeAction);
                    }
                    if str_eq(program.as_str(), "sed") && has_sed_inplace(&tokens) {
                        return Err(CommandError::SedInPlace);
                    }
                }
            },
        }
        k = k + 1;
    }
    if !saw {
        return Err(CommandError::EmptyCommand);
    }
    let lower = lower_chars(&chars);
    if contains_sub(&lower, &str_to_chars("rm -rf /")) || contains_sub(
        &lower,
        &str_to_chars("rm -rf -- /"),
    ) {
        return Err(CommandError::DestructiveWipe);
    }
    if contains_sub(&lower, &str_to_chars("sudo ")) {
        return Err(CommandError::SudoBlocked);
    }
    if contains_sub(&lower, &str_to_chars("mkfs")) || contains_sub(
        &lower,
        &str_to_chars("dd if="),
    ) {
        return Err(CommandError::DiskOperation);
    }
    if needs_confirmation {
        Ok(
            CommandDisposition::NeedsConfirmation {
                reason: String::from_str(
                    "Command uses shell control operators (pipelines, redirection, chaining).",
                ),
            },
        )
    } else {
        Ok(CommandDisposition::Allowed)
    }
}

proof fn lemma_first_segment_verdict_rejects(
    custom: Seq<Seq<char>>,
    segs: Seq<Seq<char>>,
    i: int,
)
    requires
        0 <= i <= segs.len(),
    ensures
        match first_segment_verdict(custom, segs, i) {
            Some(v) => v is RejectParse || v is RejectProgram || v is RejectFind
                || v is RejectSed,
            None => true,
        },
    decreases segs.len() - i,
{
    if i < segs.len() {
        lemma_first_segment_verdict_rejects(custom, segs, i + 1);
    }
}

/// Law: a command whose trimmed text contains an unquoted control
/// operator is never classified plainly `Allowed` when the bypass is
/// off; it needs confirmation or is rejected.
pub proof fn lemma_control_operator_never_plain_allowed(
    allow_unsafe: bool,
    custom: Seq<Seq<char>>,
    cmd: Seq<char>,
)
    requires
        !allow_unsafe,
        has_control_operators(trim_seq(cmd)),
    ensures
        classify_spec(allow_unsafe, custom, cmd) != SpecVerdict::Allowed,
{
    lemma_first_segment_verdict_rejects(custom, split_segments_spec(trim_seq(cmd)), 0);
}

/// Law: a command whose lowercased raw text contains one of the
/// destructive patterns is rejected outright when the bypass is off,
/// whatever the custom allowlist holds: never allowed, not even with
/// confirmation.
pub proof fn lemma_destructive_pattern_always_rejected(
    allow_unsafe: bool,
    custom: Seq<Seq<char>>,
    cmd: Seq<char>,
)
    requires
        !allow_unsafe,
        contains_seq(lower_seq(cmd), "rm -rf /"@) || contains_seq(lower_seq(cmd), "sudo "@)
            || contains_seq(lower_seq(cmd), "mkfs"@) || contains_seq(lower_seq(cmd), "dd if="@),
    ensures
        classify_spec(allow_unsafe, custom, cmd) != SpecVerdict::Allowed,
        classify_spec(allow_unsafe, custom, cmd) != SpecVerdict::NeedsConfirmation,
{
    lemma_first_segment_verdict_rejects(custom, split_segments_spec(trim_seq(cmd)), 0);
}

/// The non-empty segments between `/` separators, from index `i` on.
pub open spec fn comps_from(s: Seq<char>, start: int, i: int) -> Seq<Seq<char>>
    decreases s.len() - i when 0 <= start <= i <= s.len()
{
    if i >= s.len() {
        if i > start {
            seq![s.subrange(start, i)]
        } else {
            Seq::empty()
        }
    } else if s[i] == '/' {
        if i > start {
            seq![s.subrange(start, i)] + comps_from(s, i + 1, i + 1)
        } else {
            comps_from(s, i + 1, i + 1)
        }
    } else {
        comps_from(s, start, i + 1)
    }
}

/// The components of a path: its non-empty `/`-separated segments.
pub open spec fn path_comps(s: Seq<char>) -> Seq<Seq<char>> {
    comps_from(s, 0, 0)
}

pub open spec fn is_abs_path(s: Seq<char>) -> bool {
    s.len() > 0 && s[0] == '/'
}

/// Split a path into its non-empty components.
pub fn comps_of_chars(v: &Vec<char>) -> (r: Vec<Vec<char>>)
    ensures
        r.deep_view() == path_comps(v@),
{
    let n = v.len();
    let mut comps: Vec<Vec<char>> = Vec::new();
    let mut i: usize = 0;
    let mut start: usize = 0;
    while i < n
        invariant
            start <= i <= n,
            n == v@.len(),
            path_comps(v@) == comps.deep_view() + comps_from(v@, start as int, i as int),
        decreases n - i,
    {
        let ghost pre = comps.deep_view();
        let ghost i0 = i as int;
        let ghost start0 = start as int;
        if v[i] == '/' {
            if i > start {
                comps.push(subvec(v, start, i));
                proof {
                    let sub = v@.subrange(start0, i0);
                    let rest = comps_from(v@, i0 + 1, i0 + 1);
                    assert(comps.deep_view() =~~= pre.push(sub));
                    assert(pre.push(sub) + rest =~~= pre + (seq![sub] + rest));
                }
            }
            i = i + 1;
            start = i;
        } else {
            i = i + 1;
        }
    }
    if n > start {
        let ghost pre = comps.deep_view();
        comps.push(subvec(v, start, n));
        proof {
            let sub = v@.subrange(start as int, n as int);
            assert(comps.deep_view() =~~= pre.push(sub));
            assert(pre.push(sub) =~~= pre + seq![sub]);
        }
    }
    proof {
        assert(comps.deep_view() =~~= path_comps(v@));
    }
    comps
}

/// Lexical normalization over the first `i` components: `.` is
/// dropped, `..` pops the last kept component and never escapes above
/// the root.
pub open spec fn normalize_comps_upto(cs: Seq<Seq<char>>, i: int) -> Seq<Seq<char>>
    decreases i when 0 <= i <= cs.len()
{
    if i <= 0 {
        Seq::empty()
    } else {
        let prev = normalize_comps_upto(cs, i - 1);
        let s = cs[i - 1];
        if s == "."@ {
            prev
        } else if s == ".."@ {
            if prev.len() > 0 {
                prev.drop_last()
            } else {
                prev
            }
        } else {
            prev.push(s)
        }
    }
}

/// The components of the lexically normalized path.
pub open spec fn normalized_comps(s: Seq<char>) -> Seq<Seq<char>> {
    normalize_comps_upto(path_comps(s), path_comps(s).len() as int)
}

/// Components joined with `/` separators.
pub open spec fn join_comps(cs: Seq<Seq<char>>) -> Seq<char>
    decreases cs.len(),
{
    if cs.len() == 0 {
        Seq::empty()
    } else if cs.len() == 1 {
        cs[0]
    } else {
        join_comps(cs.drop_last()) + "/"@ + cs.last()
    }
}

/// The lexically normalized form of a path, with `.` collapsed and
/// `..` popping the previous segment (never above the root).
pub open spec fn normalize_path_spec(s: Seq<char>) -> Seq<char> {
    if is_abs_path(s) {
        "/"@ + join_comps(normalized_comps(s))
    } else {
        join_comps(normalized_comps(s))
    }
}

pub fn join_comps_exec(cs: &Vec<Vec<char>>, out: &mut Vec<char>)
    ensures
        final(out)@ == old(out)@ + join_comps(cs.deep_view()),
{
    let ghost whole = cs.deep_view();
    let mut idx: usize = 0;
    let slash = str_to_chars("/");
    while idx < cs.len()
        invariant
            idx <= cs@.len(),
            whole == cs.deep_view(),
            whole.len() == cs@.len(),
            slash@ == "/"@,
            out@ == old(out)@ + join_comps(whole.take(idx as int)),
        decreases cs@.len() - idx,
    {
        let ghost before = out@;
        if idx > 0 {
            append_chars(out, &slash);
        }
        append_chars(out, &cs[idx]);
        proof {
            assert(cs.deep_view()[idx as int] == cs@[idx as int]@);
            let t1 = whole.take(idx as int + 1);
            assert(t1.drop_last() =~~= whole.take(idx as int));
            assert(t1.last() == whole[idx as int]);
            if idx == 0 {
                assert(join_comps(t1) == whole[0]);
                assert(out@ =~= old(out)@ + join_comps(t1));
            } else {
                assert(join_comps(t1) == join_comps(whole.take(idx as int)) + "/"@ + whole[
                    idx as int
                ]);
                assert(out@ =~= old(out)@ + join_comps(t1));
            }
        }
        idx = idx + 1;
    }
    proof {
        assert(whole.take(whole.len() as int) =~~= whole);
    }
}

fn normalize_chars(v: &Vec<char>) -> (r: Vec<char>)
    ensures
        r@ == normalize_path_spec(v@),
{
    let comps = comps_of_chars(v);
    let ghost cs = path_comps(v@);
    let dot = str_to_chars(".");
    let dotdot = str_to_chars("..");
    let mut stack: Vec<Vec<char>> = Vec::new();
    let mut idx: usize = 0;
    while idx < comps.len()
        invariant
            idx <= comps@.len(),
            comps.deep_view() == cs,
            cs.len() == comps@.len(),
            dot@ == "."@,
            dotdot@ == ".."@,
            cs == path_comps(v@),
            stack.deep_view() == normalize_comps_upto(cs, idx as int),
        decreases comps@.len() - idx,
    {
        let ghost pre = stack.deep_view();
        proof {
            assert(comps.deep_view()[idx as int] == comps@[idx as int]@);
        }
        if crate::text::chars_eq(&comps[idx], &dot) {
            // current-directory segment: dropped
        } else if crate::text::chars_eq(&comps[idx], &dotdot) {
            if stack.len() > 0 {
                stack.pop();
                proof {
                    assert(stack.deep_view() =~~= pre.drop_last());
                }
            }
        } else {
            stack.push(subvec(&comps[idx], 0, comps[idx].len()));
            proof {
                assert(comps@[idx as int]@.subrange(0, comps@[idx as int]@.len() as int) =~=
                    comps@[idx as int]@);
                assert(stack.deep_view() =~~= pre.push(cs[idx as int]));
            }
        }
        idx = idx + 1;
    }
    let mut out: Vec<char> = Vec::new();
    if v.len() > 0 && v[0] == '/' {
        out.push('/');
    }
    let ghost prefix = out@;
    join_comps_exec(&stack, &mut out);
    proof {
        reveal_strlit("/");
        if is_abs_path(v@) {
            assert(prefix =~= "/"@);
        } else {
            assert(prefix =~= Seq::<char>::empty());
        }
        assert(normalize_comps_upto(cs, cs.len() as int) == stack.deep_view());
        assert(out@ =~= normalize_path_spec(v@));
    }
    out
}

/// Lexically normalize a path: collapse `.` segments and pop the last
/// kept segment on `..`, never escaping above the root.
pub fn normalize_path(path: &str) -> (r: String)
    ensures
        r@ == normalize_path_spec(path@),
{
    let chars = str_to_chars(path);
    let normalized = normalize_chars(&chars);
    chars_to_string(&normalized)
}

/// Where a relative path lands: absolute paths are normalized as they
/// are, relative ones are joined to the working directory first.
pub open spec fn resolve_path_spec(p: Seq<char>, cwd: Seq<char>) -> Seq<char> {
    if is_abs_path(p) {
        normalize_path_spec(p)
    } else {
        normalize_path_spec(cwd + "/"@ + p)
    }
}

/// Resolve a path against the given working directory, without
/// touching the filesystem.
pub fn resolve_path(p: &str, cwd: &str) -> (r: String)
    ensures
        r@ == resolve_path_spec(p@, cwd@),
{
    let pc = str_to_chars(p);
    if pc.len() > 0 && pc[0] == '/' {
        let normalized = normalize_chars(&pc);
        chars_to_string(&normalized)
    } else {
        let mut joined = str_to_chars(cwd);
        joined.push('/');
        let ghost mid = joined@;
        append_chars(&mut joined, &pc);
        proof {
            reveal_strlit("/");
            assert(mid =~= cwd@ + "/"@);
            assert(joined@ =~= cwd@ + "/"@ + p@);
        }
        let normalized = normalize_chars(&joined);
        chars_to_string(&normalized)
    }
}

/// Component-wise path prefix, as `Path::starts_with` sees it.
pub open spec fn path_starts_with(p: Seq<char>, root: Seq<char>) -> bool {
    is_abs_path(p) == is_abs_path(root) && path_comps(root).is_prefix_of(path_comps(p))
}

/// Whether the path is contained in one of the allowed roots.
pub open spec fn within_any_root(p: Seq<char>, roots: Seq<Seq<char>>) -> bool {
    exists|k: int| 0 <= k < roots.len() && path_starts_with(p, #[trigger] roots[k])
}

fn comps_prefix(rc: &Vec<Vec<char>>, pc: &Vec<Vec<char>>) -> (r: bool)
    ensures
        r == rc.deep_view().is_prefix_of(pc.deep_view()),
{
    if rc.len() > pc.len() {
        return false;
    }
    let mut i: usize = 0;
    while i < rc.len()
        invariant
            i <= rc@.len(),
            rc@.len() <= pc@.len(),
            rc.deep_view().len() == rc@.len(),
            pc.deep_view().len() == pc@.len(),
            forall|j: int| 0 <= j < i ==> rc.deep_view()[j] == pc.deep_view()[j],
        decreases rc@.len() - i,
    {
        if !crate::text::chars_eq(&rc[i], &pc[i]) {
            proof {
                assert(rc.deep_view()[i as int] == rc@[i as int]@);
                assert(pc.deep_view()[i as int] == pc@[i as int]@);
            }
            return false;
        }
        i = i + 1;
    }
    proof {
        assert(rc.deep_view() =~~= pc.deep_view().subrange(0, rc.deep_view().len() as int));
    }
    true
}

/// Whether the path lies under one of the allowed roots, compared
/// component-wise.
pub fn is_within_allowed(path: &str, roots: &Vec<String>) -> (r: bool)
    ensures
        r == within_any_root(path@, roots.deep_view()),
{
    let pchars = str_to_chars(path);
    let pcomps = comps_of_chars(&pchars);
    let pabs = pchars.len() > 0 && pchars[0] == '/';
    let mut k: usize = 0;
    while k < roots.len()
        invariant
            k <= roots@.len(),
            roots.deep_view().len() == roots@.len(),
            forall|j: int| 0 <= j < roots@.len() ==> roots.deep_view()[j] == roots@[j]@,
            pchars@ == path@,
            pcomps.deep_view() == path_comps(path@),
            pabs == is_abs_path(path@),
            forall|j: int| 0 <= j < k ==> !path_starts_with(path@, roots.deep_view()[j]),
        decreases roots@.len() - k,
    {
        let rchars = str_to_chars(roots[k].as_str());
        let rcomps = comps_of_chars(&rchars);
        let rabs = rchars.len() > 0 && rchars[0] == '/';
        if pabs == rabs && comps_prefix(&rcomps, &pcomps) {
            proof {
                assert(path_starts_with(path@, roots.deep_view()[k as int]));
            }
            return true;
        }
        k = k + 1;
    }
    false
}

/// Append a root to the list unless it is already present.
pub open spec fn push_unique_spec(roots: Seq<Seq<char>>, p: Seq<char>) -> Seq<Seq<char>> {
    if roots.contains(p) {
        roots
    } else {
        roots.push(p)
    }
}

/// Add a root, keeping the list free of duplicates.
pub fn push_unique(roots: &mut Vec<String>, path: String)
    ensures
        final(roots).deep_view() == push_unique_spec(old(roots).deep_view(), path@),
{
    if !contains_string(roots, path.as_str()) {
        let ghost pre = roots.deep_view();
        roots.push(path);
        proof {
            assert(roots.deep_view() =~~= pre.push(path@));
        }
    }
}

/// The allowed roots in order: home, canonical home, the working
/// directory and its canonical form, deduplicated. Entries whose
/// canonical form the caller could not compute are skipped.
pub open spec fn gather_roots_spec(
    home: Option<Seq<char>>,
    home_canon: Option<Seq<char>>,
    cwd: Seq<char>,
    cwd_canon: Option<Seq<char>>,
) -> Seq<Seq<char>> {
    let r1 = match home {
        Some(h) => push_unique_spec(Seq::empty(), h),
        None => Seq::empty(),
    };
    let r2 = match home_canon {
        Some(h) => push_unique_spec(r1, h),
        None => r1,
    };
    let r3 = push_unique_spec(r2, cwd);
    match cwd_canon {
        Some(c) => push_unique_spec(r3, c),
        None => r3,
    }
}

/// Assemble the deduplicated allowed-root set from the caller's home
/// and working directory, with their canonical forms when available.
pub fn gather_allowed_roots(
    home: Option<&str>,
    home_canon: Option<&str>,
    cwd: &str,
    cwd_canon: Option<&str>,
) -> (r: Vec<String>)
    ensures
        r.deep_view() == gather_roots_spec(
            match home {
                Some(h) => Some(h@),
                None => None,
            },
            match home_canon {
                Some(h) => Some(h@),
                None => None,
            },
            cwd@,
            match cwd_canon {
                Some(c) => Some(c@),
                None => None,
            },
        ),
{
    let mut roots: Vec<String> = Vec::new();
    proof {
        assert(roots.deep_view() =~~= Seq::<Seq<char>>::empty());
    }
    match home {
        Some(h) => push_unique(&mut roots, String::from_str(h)),
        None => (),
    }
    match home_canon {
        Some(h) => push_unique(&mut roots, String::from_str(h)),
        None => (),
    }
    push_unique(&mut roots, String::from_str(cwd));
    match cwd_canon {
        Some(c) => push_unique(&mut roots, String::from_str(c)),
        None => (),
    }
    roots
}

/// A path that escapes the allowed roots.
#[derive(Debug, Clone)]
pub struct PathEscapeError {
    pub path: String,
}

impl PathEscapeError {
    /// A printable description of the error.
    pub fn message(&self) -> (r: String)
        ensures
            r@ == "Refusing to access path outside home or cwd: "@ + self.path@,
    {
        let mut s = String::from_str("Refusing to access path outside home or cwd: ");
        s.append(self.path.as_str());
        s
    }
}

/// Decide containment of a resolved path. Both checks must pass: the
/// lexically resolved path itself, and — when the caller found one —
/// the canonicalized deepest existing ancestor, which catches a
/// symlink inside an allowed root that points outside it.
pub fn ensure_safe_path_resolved(
    resolved: &str,
    roots: &Vec<String>,
    canonical_ancestor: Option<&str>,
) -> (r: Result<(), PathEscapeError>)
    ensures
        r is Ok <==> within_any_root(resolved@, roots.deep_view()) && (match canonical_ancestor {
            Some(c) => within_any_root(c@, roots.deep_view()),
            None => true,
        }),
        r matches Err(e) ==> e.path@ == resolved@,
{
    if !is_within_allowed(resolved, roots) {
        return Err(PathEscapeError { path: String::from_str(resolved) });
    }
    match canonical_ancestor {
        Some(c) => {
            if !is_within_allowed(c, roots) {
                return Err(PathEscapeError { path: String::from_str(resolved) });
            }
        },
        None => (),
    }
    Ok(())
}

} // verus!
