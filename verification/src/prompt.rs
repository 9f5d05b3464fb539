//! Prompt assembly: merging the command-line question with piped
//! input, and building the system and user messages. The current time
//! and OS name come from trusted wrappers; everything assembled from
//! them is pinned exactly.

use vstd::prelude::*;
use crate::text::{dec_rep, trim_chars, trim_seq, str_to_chars, chars_to_string, u64_to_string};

verus! {

/// Normalized inputs for building prompts.
pub struct PromptInputs {
    pub question: String,
    pub stdin_block: Option<String>,
}

/// Merge CLI question/task text with optional piped stdin: non-blank
/// CLI text wins and keeps the piped text as context; otherwise a
/// non-blank piped block becomes the question itself.
pub fn coalesce_prompt_inputs(args_question: String, stdin_block: Option<String>) -> (r:
    PromptInputs)
    ensures
        ({
            if trim_seq(args_question@).len() == 0 {
                match stdin_block {
                    Some(block) => if trim_seq(block@).len() > 0 {
                        r.question@ == trim_seq(block@) && r.stdin_block is None
                    } else {
                        r.question@ == args_question@ && (r.stdin_block matches Some(b) && b@
                            == block@)
                    },
                    None => r.question@ == args_question@ && r.stdin_block is None,
                }
            } else {
                r.question@ == args_question@ && (match (r.stdin_block, stdin_block) {
                    (Some(a), Some(b)) => a@ == b@,
                    (None, None) => true,
                    _ => false,
                })
            }
        }),
{
    let q_trimmed = trim_chars(&str_to_chars(args_question.as_str()));
    if q_trimmed.len() == 0 {
        match stdin_block {
            Some(block) => {
                let b_trimmed = trim_chars(&str_to_chars(block.as_str()));
                if b_trimmed.len() > 0 {
                    PromptInputs { question: chars_to_string(&b_trimmed), stdin_block: None }
                } else {
                    PromptInputs { question: args_question, stdin_block: Some(block) }
                }
            },
            None => PromptInputs { question: args_question, stdin_block: None },
        }
    } else {
        PromptInputs { question: args_question, stdin_block }
    }
}

/// Relies on chrono's `Utc::now`: the current time in RFC 3339 form
/// with second precision and a `Z` suffix. The value depends on the
/// clock, so nothing is promised of it.
#[verifier::external_body]
fn current_timestamp_rfc3339() -> String {
    chrono::Utc::now().to_rfc3339_opts(chrono::SecondsFormat::Secs, true)
}

/// Relies on os_info's `get`: the name of the running operating
/// system. The value depends on the machine, so nothing is promised
/// of it.
#[verifier::external_body]
fn current_os_name() -> String {
    os_info::get().os_type().to_string()
}

/// The plain history section: each command on its own line.
pub open spec fn history_lines_concat(lines: Seq<Seq<char>>, i: int) -> Seq<char>
    decreases i when 0 <= i <= lines.len()
{
    if i <= 0 {
        Seq::empty()
    } else {
        history_lines_concat(lines, i - 1) + lines[i - 1] + "\n"@
    }
}

/// The numbered history section: `1. command` lines.
pub open spec fn numbered_lines_concat(lines: Seq<Seq<char>>, i: int) -> Seq<char>
    decreases i when 0 <= i <= lines.len()
{
    if i <= 0 {
        Seq::empty()
    } else {
        numbered_lines_concat(lines, i - 1) + dec_rep(i as nat) + ". "@ + lines[i - 1] + "\n"@
    }
}

/// A piped block with a trailing newline ensured.
pub open spec fn block_with_newline(b: Seq<char>) -> Seq<char> {
    if b.len() > 0 && b.last() == '\n' {
        b
    } else {
        b + "\n"@
    }
}

/// The prompt for a question: timestamp and OS header, the optional
/// history and pipe sections, and the question line.
pub open spec fn qq_prompt_spec(
    ts: Seq<char>,
    os_name: Seq<char>,
    lines: Seq<Seq<char>>,
    block: Option<Seq<char>>,
    question: Seq<char>,
) -> Seq<char> {
    "Timestamp (UTC): "@ + ts + "\nOS: "@ + os_name + "\n\n"@ + (if lines.len() == 0 {
        Seq::<char>::empty()
    } else {
        "Terminal History (last commands):\n"@ + history_lines_concat(lines, lines.len() as int)
            + "\n"@
    }) + (match block {
        Some(b) => if trim_seq(b).len() > 0 {
            "Input from pipe:\n"@ + block_with_newline(b) + "\n"@
        } else {
            Seq::<char>::empty()
        },
        None => Seq::<char>::empty(),
    }) + "Question: "@ + question
}

/// Assemble the prompt for a question from a known timestamp and OS
/// name.
pub fn build_qq_prompt_at(
    ts: &str,
    os_name: &str,
    history: &Vec<String>,
    stdin_block: Option<&str>,
    question: &str,
) -> (r: String)
    ensures
        r@ == qq_prompt_spec(
            ts@,
            os_name@,
            history.deep_view(),
            crate::config::opt_view(stdin_block),
            question@,
        ),
{
    let ghost lines = history.deep_view();
    let mut out = String::from_str("Timestamp (UTC): ");
    out.append(ts);
    out.append("\nOS: ");
    out.append(os_name);
    out.append("\n\n");
    if history.len() > 0 {
        out.append("Terminal History (last commands):\n");
        let ghost head = out@;
        let mut i: usize = 0;
        while i < history.len()
            invariant
                i <= history@.len(),
                lines == history.deep_view(),
                lines.len() == history@.len(),
                out@ == head + history_lines_concat(lines, i as int),
            decreases history@.len() - i,
        {
            proof {
                assert(history.deep_view()[i as int] == history@[i as int]@);
            }
            out.append(history[i].as_str());
            out.append("\n");
            i = i + 1;
        }
        out.append("\n");
    }
    match stdin_block {
        Some(block) => {
            let chars = str_to_chars(block);
            if trim_chars(&chars).len() > 0 {
                out.append("Input from pipe:\n");
                out.append(block);
                if !(chars.len() > 0 && chars[chars.len() - 1] == '\n') {
                    out.append("\n");
                }
                out.append("\n");
            }
        },
        None => (),
    }
    out.append("Question: ");
    out.append(question);
    proof {
        assert(out@ =~= qq_prompt_spec(
            ts@,
            os_name@,
            history.deep_view(),
            crate::config::opt_view(stdin_block),
            question@,
        ));
    }
    out
}

/// Build the final prompt for a question: header with the current
/// time and the given (or detected) OS, the optional sections, and
/// the question line.
pub fn build_qq_prompt(
    os_name: Option<&str>,
    history: &Vec<String>,
    stdin_block: Option<&str>,
    question: &str,
) -> (r: String)
    ensures
        exists|ts: Seq<char>, osn: Seq<char>|
            r@ == #[trigger] qq_prompt_spec(
                ts,
                osn,
                history.deep_view(),
                crate::config::opt_view(stdin_block),
                question@,
            ) && (os_name matches Some(o) ==> osn == o@),
{
    let ts = current_timestamp_rfc3339();
    let osn: String = match os_name {
        Some(o) => String::from_str(o),
        None => current_os_name(),
    };
    let r = build_qq_prompt_at(ts.as_str(), osn.as_str(), history, stdin_block, question);
    proof {
        assert(r@ == qq_prompt_spec(
            ts@,
            osn@,
            history.deep_view(),
            crate::config::opt_view(stdin_block),
            question@,
        ));
    }
    r
}

/// The user message for a question: date, OS, the numbered history
/// and pipe sections in bracketed blocks, and the question line.
pub open spec fn qq_user_message_spec(
    ts: Seq<char>,
    os_name: Seq<char>,
    lines: Seq<Seq<char>>,
    block: Option<Seq<char>>,
    question: Seq<char>,
) -> Seq<char> {
    "Current date/time: "@ + ts + "\n"@ + "Operating System: "@ + os_name + "\n\n"@ + (if lines.len()
        == 0 {
        Seq::<char>::empty()
    } else {
        "[Recent terminal commands for context (sanitized for privacy):\n"@ + numbered_lines_concat(
            lines,
            lines.len() as int,
        ) + "]\n\n"@
    }) + (match block {
        Some(b) => if trim_seq(b).len() > 0 {
            "[Input from pipe:\n"@ + block_with_newline(b) + "]\n\n"@
        } else {
            Seq::<char>::empty()
        },
        None => Seq::<char>::empty(),
    }) + "Question: "@ + question
}

/// Assemble the user message for a question from a known timestamp
/// and OS name.
pub fn build_qq_user_message_at(
    ts: &str,
    os_name: &str,
    history: &Vec<String>,
    stdin_block: Option<&str>,
    question: &str,
) -> (r: String)
    ensures
        r@ == qq_user_message_spec(
            ts@,
            os_name@,
            history.deep_view(),
            crate::config::opt_view(stdin_block),
            question@,
        ),
{
    let ghost lines = history.deep_view();
    let mut out = String::from_str("Current date/time: ");
    out.append(ts);
    out.append("\n");
    out.append("Operating System: ");
    out.append(os_name);
    out.append("\n\n");
    if history.len() > 0 {
        out.append("[Recent terminal commands for context (sanitized for privacy):\n");
        let ghost head = out@;
        let mut i: usize = 0;
        while i < history.len()
            invariant
                i <= history@.len(),
                i <= u64::MAX,
                lines == history.deep_view(),
                lines.len() == history@.len(),
                out@ == head + numbered_lines_concat(lines, i as int),
            decreases history@.len() - i,
        {
            proof {
                assert(history.deep_view()[i as int] == history@[i as int]@);
            }
            out.append(u64_to_string((i as u64) + 1).as_str());
            out.append(". ");
            out.append(history[i].as_str());
            out.append("\n");
            i = i + 1;
        }
        out.append("]\n\n");
    }
    match stdin_block {
        Some(block) => {
            let chars = str_to_chars(block);
            if trim_chars(&chars).len() > 0 {
                out.append("[Input from pipe:\n");
                out.append(block);
                if !(chars.len() > 0 && chars[chars.len() - 1] == '\n') {
                    out.append("\n");
                }
                out.append("]\n\n");
            }
        },
        None => (),
    }
    out.append("Question: ");
    out.append(question);
    proof {
        assert(out@ =~= qq_user_message_spec(
            ts@,
            os_name@,
            history.deep_view(),
            crate::config::opt_view(stdin_block),
            question@,
        ));
    }
    out
}

/// Build the user message for a question, with the current time and
/// the given (or detected) OS name.
pub fn build_qq_user_message(
    os_name: Option<&str>,
    history: &Vec<String>,
    stdin_block: Option<&str>,
    question: &str,
) -> (r: String)
    ensures
        exists|ts: Seq<char>, osn: Seq<char>|
            r@ == #[trigger] qq_user_message_spec(
                ts,
                osn,
                history.deep_view(),
                crate::config::opt_view(stdin_block),
                question@,
            ) && (os_name matches Some(o) ==> osn == o@),
{
    let ts = current_timestamp_rfc3339();
    let osn: String = match os_name {
        Some(o) => String::from_str(o),
        None => current_os_name(),
    };
    let r = build_qq_user_message_at(ts.as_str(), osn.as_str(), history, stdin_block, question);
    proof {
        assert(r@ == qq_user_message_spec(
            ts@,
            osn@,
            history.deep_view(),
            crate::config::opt_view(stdin_block),
            question@,
        ));
    }
    r
}

/// The system prompt for questions: topic restrictions and the markup
/// format the renderer understands.
pub open spec fn qq_system_prompt_text() -> Seq<char> {
    "You are a terminal assistant. Help users ONLY with command-line, programming, system administration, and technical computing tasks.\n\n"@
        + "TOPIC RESTRICTIONS:\n"@
        + "- ONLY answer questions about: terminal commands, shell scripting, file operations, system administration, programming, development tools, git, network tools, text processing, etc.\n"@
        + "- REFUSE to answer: philosophical questions, general knowledge, personal advice, non-technical topics, creative writing, etc.\n"@
        + "- For off-topic questions, kindly refuse and then provide fun computer/Unix/Linux trivia with wit and humor that's somehow related to their question if possible. ALWAYS use this EXACT format with XML tags:\n"@
        + "  <warn>I can only help with terminal and technical tasks, but here's some fun tech trivia...</warn><br/>\n"@
        + "  <info>Your witty, reality-based computer/Unix/Linux fact goes here</info>\n\n"@
        + "CRITICAL: ALWAYS wrap trivia text in <info></info> tags for proper cyan formatting!\n\n"@
        + "ANSWER THE USER'S QUESTION DIRECTLY. For \"convert mp4 to mp3\", provide ffmpeg commands. For \"list files\", provide ls commands. Give the actual commands they need to run.\n\n"@
        + "FORMAT using XML tags:\n"@
        + "<cmd>command to run</cmd> = terminal commands (green)\n"@
        + "<bold>heading</bold> = headings and emphasis\n"@
        + "<info>tip</info> = tips and notes (cyan)\n"@
        + "<file>path</file> = file/directory paths (magenta)\n"@
        + "<warn>warning</warn> = warnings (yellow)\n"@
        + "<br/> = line break (use for spacing between sections)\n\n"@
        + "CRITICAL SPACING RULES:\n"@
        + "- Use <br/> tags for line breaks between different sections\n"@
        + "- Add <br/> after each command block\n"@
        + "- Add <br/> before and after explanatory text\n"@
        + "- Example format:\n"@
        + "  <bold>Heading</bold><br/>\n"@
        + "  <cmd>command1</cmd><br/>\n"@
        + "  <cmd>command2</cmd><br/>\n"@
        + "  <br/>\n"@
        + "  <info>Explanation or tip here</info>\n\n"@
        + "RULES:\n"@
        + "- Provide REAL WORKING COMMANDS the user can copy and run\n"@
        + "- Example: User asks \"convert mp4 to mp3\" → Provide: <cmd>ffmpeg -i input.mp4 output.mp3</cmd>\n"@
        + "- NOT: <cmd>qq something</cmd> (don't tell them to run qq again!)\n"@
        + "- Escape XML chars: & -> &amp; < -> &lt; > -> &gt;\n"@
        + "- Start with 1-3 commands\n"@
        + "- Be concise and practical\n"@
        + "- Prefer tools that are typically pre-installed on macOS/Linux (POSIX utilities like ls, find, grep, awk, sed, xargs, tar, curl, ssh). Optimize for portability.\n"@
        + "- You MAY suggest non-default tools (e.g., ripgrep, fd, bat, tree) only if they are notably better; when you do, include an install hint for the detected OS (e.g., <cmd>brew install ripgrep</cmd> on macOS, <cmd>sudo apt-get install ripgrep</cmd> on Debian/Ubuntu) and ALSO provide a built-in alternative.\n"@
        + "- Tailor flags/commands to the provided Operating System in the user message (macOS vs Linux differences).\n"@
}

/// System prompt for questions: restrict topics to terminal/dev work
/// and enforce the markup format.
pub fn build_qq_system_prompt() -> (r: String)
    ensures
        r@ == qq_system_prompt_text(),
{
    let mut s = String::from_str(
        "You are a terminal assistant. Help users ONLY with command-line, programming, system administration, and technical computing tasks.\n\n",
    );
    s.append("TOPIC RESTRICTIONS:\n");
    s.append(
        "- ONLY answer questions about: terminal commands, shell scripting, file operations, system administration, programming, development tools, git, network tools, text processing, etc.\n",
    );
    s.append(
        "- REFUSE to answer: philosophical questions, general knowledge, personal advice, non-technical topics, creative writing, etc.\n",
    );
    s.append(
        "- For off-topic questions, kindly refuse and then provide fun computer/Unix/Linux trivia with wit and humor that's somehow related to their question if possible. ALWAYS use this EXACT format with XML tags:\n",
    );
    s.append(
        "  <warn>I can only help with terminal and technical tasks, but here's some fun tech trivia...</warn><br/>\n",
    );
    s.append("  <info>Your witty, reality-based computer/Unix/Linux fact goes here</info>\n\n");
    s.append(
        "CRITICAL: ALWAYS wrap trivia text in <info></info> tags for proper cyan formatting!\n\n",
    );
    s.append(
        "ANSWER THE USER'S QUESTION DIRECTLY. For \"convert mp4 to mp3\", provide ffmpeg commands. For \"list files\", provide ls commands. Give the actual commands they need to run.\n\n",
    );
    s.append("FORMAT using XML tags:\n");
    s.append("<cmd>command to run</cmd> = terminal commands (green)\n");
    s.append("<bold>heading</bold> = headings and emphasis\n");
    s.append("<info>tip</info> = tips and notes (cyan)\n");
    s.append("<file>path</file> = file/directory paths (magenta)\n");
    s.append("<warn>warning</warn> = warnings (yellow)\n");
    s.append("<br/> = line break (use for spacing between sections)\n\n");
    s.append("CRITICAL SPACING RULES:\n");
    s.append("- Use <br/> tags for line breaks between different sections\n");
    s.append("- Add <br/> after each command block\n");
    s.append("- Add <br/> before and after explanatory text\n");
    s.append("- Example format:\n");
    s.append("  <bold>Heading</bold><br/>\n");
    s.append("  <cmd>command1</cmd><br/>\n");
    s.append("  <cmd>command2</cmd><br/>\n");
    s.append("  <br/>\n");
    s.append("  <info>Explanation or tip here</info>\n\n");
    s.append("RULES:\n");
    s.append("- Provide REAL WORKING COMMANDS the user can copy and run\n");
    s.append(
        "- Example: User asks \"convert mp4 to mp3\" → Provide: <cmd>ffmpeg -i input.mp4 output.mp3</cmd>\n",
    );
    s.append("- NOT: <cmd>qq something</cmd> (don't tell them to run qq again!)\n");
    s.append("- Escape XML chars: & -> &amp; < -> &lt; > -> &gt;\n");
    s.append("- Start with 1-3 commands\n");
    s.append("- Be concise and practical\n");
    s.append(
        "- Prefer tools that are typically pre-installed on macOS/Linux (POSIX utilities like ls, find, grep, awk, sed, xargs, tar, curl, ssh). Optimize for portability.\n",
    );
    s.append(
        "- You MAY suggest non-default tools (e.g., ripgrep, fd, bat, tree) only if they are notably better; when you do, include an install hint for the detected OS (e.g., <cmd>brew install ripgrep</cmd> on macOS, <cmd>sudo apt-get install ripgrep</cmd> on Debian/Ubuntu) and ALSO provide a built-in alternative.\n",
    );
    s.append(
        "- Tailor flags/commands to the provided Operating System in the user message (macOS vs Linux differences).\n",
    );
    s
}

/// The system prompt for the single-step agent: answer in plain text
/// or return exactly one tool call as a JSON object.
pub open spec fn qa_system_prompt_text() -> Seq<char> {
    "You are a careful CLI agent with a single tool-call step.\n"@
        + "You may either answer directly in plain text OR request exactly one tool call by returning ONLY a JSON object with this shape:\n"@
        + "{ \"tool\": string, \"arguments\": object }\n\n"@
        + "Available tools and JSON argument schemas:\n"@
        + "- read_file: { \"path\": string }\n"@
        + "- write_file: { \"path\": string, \"content\": string }\n"@
        + "- execute_command: { \"command\": string, \"cwd?\": string }\n\n"@
        + "Rules:\n"@
        + "- Single step: at most one tool call.\n"@
        + "- If using a tool, return ONLY the JSON object (no prose).\n"@
        + "- Prefer safe, non-destructive commands.\n"@
}

/// System prompt for the single-step agent.
pub fn build_qa_system_prompt() -> (r: String)
    ensures
        r@ == qa_system_prompt_text(),
{
    let mut s = String::from_str("You are a careful CLI agent with a single tool-call step.\n");
    s.append(
        "You may either answer directly in plain text OR request exactly one tool call by returning ONLY a JSON object with this shape:\n",
    );
    s.append("{ \"tool\": string, \"arguments\": object }\n\n");
    s.append("Available tools and JSON argument schemas:\n");
    s.append("- read_file: { \"path\": string }\n");
    s.append("- write_file: { \"path\": string, \"content\": string }\n");
    s.append("- execute_command: { \"command\": string, \"cwd?\": string }\n\n");
    s.append("Rules:\n");
    s.append("- Single step: at most one tool call.\n");
    s.append("- If using a tool, return ONLY the JSON object (no prose).\n");
    s.append("- Prefer safe, non-destructive commands.\n");
    s
}

/// Build the user message for the single-step agent: the same layout
/// as the question prompt.
pub fn build_qa_user_message(
    os_name: Option<&str>,
    history: &Vec<String>,
    stdin_block: Option<&str>,
    task: &str,
) -> (r: String)
    ensures
        exists|ts: Seq<char>, osn: Seq<char>|
            r@ == #[trigger] qq_prompt_spec(
                ts,
                osn,
                history.deep_view(),
                crate::config::opt_view(stdin_block),
                task@,
            ) && (os_name matches Some(o) ==> osn == o@),
{
    build_qq_prompt(os_name, history, stdin_block, task)
}

} // verus!
