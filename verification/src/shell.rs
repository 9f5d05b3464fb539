//! Shell flavors that the launcher can target, and the classification
//! of a Windows environment into one of them.

use vstd::prelude::*;
use crate::text::{contains_seq, contains_sub, str_to_chars};

verus! {

/// Shell flavors that qq/qa can target.
#[derive(Debug, Clone, Copy, PartialEq, Eq, Structural)]
pub enum ShellKind {
    /// POSIX `sh -lc`, default on Unix.
    Posix,
    /// `cmd.exe /C`, default on Windows when unspecified.
    CmdExe,
    /// Windows PowerShell (`powershell.exe`/`pwsh`).
    PowerShell,
}

impl ShellKind {
    pub fn display_name(self) -> (r: &'static str)
        ensures
            self is Posix ==> r@ == "POSIX sh"@,
            self is CmdExe ==> r@ == "Windows cmd.exe"@,
            self is PowerShell ==> r@ == "Windows PowerShell"@,
    {
        match self {
            ShellKind::Posix => "POSIX sh",
            ShellKind::CmdExe => "Windows cmd.exe",
            ShellKind::PowerShell => "Windows PowerShell",
        }
    }
}

/// Which shell a Windows environment indicates: a `SHELL` value that
/// mentions a POSIX shell wins; otherwise PowerShell markers decide,
/// unless a `PROMPT` variable points at cmd.exe.
pub open spec fn classify_windows_shell_spec(
    shell_env_lower: Option<Seq<char>>,
    has_prompt: bool,
    has_pwsh_markers: bool,
) -> ShellKind {
    let fallback = if !has_prompt && has_pwsh_markers {
        ShellKind::PowerShell
    } else {
        ShellKind::CmdExe
    };
    match shell_env_lower {
        Some(lower) => if contains_seq(lower, "bash"@) || contains_seq(lower, "sh"@) {
            ShellKind::Posix
        } else {
            fallback
        },
        None => fallback,
    }
}

/// Classify a Windows environment from the lowercased `SHELL` value
/// and the presence of `PROMPT` and PowerShell marker variables.
pub fn classify_windows_shell(
    shell_env_lower: Option<String>,
    has_prompt: bool,
    has_pwsh_markers: bool,
) -> (r: ShellKind)
    ensures
        r == classify_windows_shell_spec(
            match shell_env_lower {
                Some(s) => Some(s@),
                None => None,
            },
            has_prompt,
            has_pwsh_markers,
        ),
{
    match &shell_env_lower {
        Some(lower) => {
            let chars = str_to_chars(lower.as_str());
            if contains_sub(&chars, &str_to_chars("bash")) || contains_sub(
                &chars,
                &str_to_chars("sh"),
            ) {
                return ShellKind::Posix;
            }
        },
        None => (),
    }
    if !has_prompt && has_pwsh_markers {
        ShellKind::PowerShell
    } else {
        ShellKind::CmdExe
    }
}

/// The wording used for the shell in prompts to the model.
pub fn shell_hint_for_prompt(kind: ShellKind) -> (r: &'static str)
    ensures
        kind is Posix ==> r@ == "POSIX-compatible sh"@,
        kind is CmdExe ==> r@ == "Windows cmd.exe"@,
        kind is PowerShell ==> r@ == "Windows PowerShell"@,
    {
    match kind {
        ShellKind::Posix => "POSIX-compatible sh",
        ShellKind::CmdExe => "Windows cmd.exe",
        ShellKind::PowerShell => "Windows PowerShell",
    }
}

} // verus!
