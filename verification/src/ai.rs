//! What the chat layer computes: the typed reply of the assistant,
//! the framing handed to a CLI engine, the buffer splitting of the
//! event stream, and the parsing of a codex CLI transcript. The HTTP
//! and process plumbing belong to the caller.

use vstd::prelude::*;
use crate::config::CliEngine;
use crate::text::{
    chars_to_string, join_seqs, lines_of, split_into_lines, str_to_chars, str_eq, trim_chars,
    trim_seq,
};

verus! {

/// A simplified representation of the assistant's first choice.
pub enum AssistantReply {
    Content(String),
    ToolCall { name: String, arguments_json: String },
}

/// Minimal typed message for multi-message calls.
#[derive(Debug, Clone)]
pub struct Msg<'a> {
    pub role: &'a str,
    pub content: &'a str,
}

/// One request to a CLI completion engine.
#[derive(Debug)]
pub struct CliCompletionRequest<'a> {
    pub engine: CliEngine,
    pub binary: &'a str,
    pub base_args: &'a Vec<String>,
    pub system_prompt: &'a str,
    pub user_prompt: &'a str,
    pub model: &'a str,
    pub reasoning_effort: Option<&'a str>,
    pub debug: bool,
}

/// The position after the first blank line (`\n\n`), if any: where an
/// event-stream buffer can be cut.
pub fn find_double_newline(buf: &[u8]) -> (r: Option<usize>)
    ensures
        match r {
            Some(p) => 1 <= p < buf@.len() && buf@[p as int - 1] == 10 && buf@[p as int] == 10
                && forall|j: int|
                0 <= j < p - 1 ==> !((#[trigger] buf@[j]) == 10 && buf@[j + 1] == 10),
            None => forall|j: int|
                0 <= j < buf@.len() - 1 ==> !((#[trigger] buf@[j]) == 10 && buf@[j + 1] == 10),
        },
{
    if buf.len() < 2 {
        return None;
    }
    let mut i: usize = 0;
    while i < buf.len() - 1
        invariant
            i <= buf@.len() - 1,
            buf@.len() >= 2,
            forall|j: int| 0 <= j < i ==> !((#[trigger] buf@[j]) == 10 && buf@[j + 1] == 10),
        decreases buf@.len() - i,
    {
        if buf[i] == 10 && buf[i + 1] == 10 {
            return Some(i + 1);
        }
        i = i + 1;
    }
    None
}

/// The position of the first newline, if any.
pub fn find_single_newline(buf: &[u8]) -> (r: Option<usize>)
    ensures
        match r {
            Some(p) => p < buf@.len() && buf@[p as int] == 10 && forall|j: int|
                0 <= j < p ==> buf@[j] != 10,
            None => forall|j: int| 0 <= j < buf@.len() ==> buf@[j] != 10,
        },
{
    let mut i: usize = 0;
    while i < buf.len()
        invariant
            i <= buf@.len(),
            forall|j: int| 0 <= j < i ==> buf@[j] != 10,
        decreases buf@.len() - i,
    {
        if buf[i] == 10 {
            return Some(i);
        }
        i = i + 1;
    }
    None
}

/// The prompt framing handed to a CLI engine on its standard input.
pub open spec fn codex_prompt_spec(system_prompt: Seq<char>, user_prompt: Seq<char>) -> Seq<char> {
    "<system-prompt>\n"@ + system_prompt + "\n</system-prompt>\n\n<user-prompt>\n"@ + user_prompt
        + "\n</user-prompt>\n"@
}

/// Frame the system and user prompts for a CLI engine.
pub fn codex_prompt(system_prompt: &str, user_prompt: &str) -> (r: String)
    ensures
        r@ == codex_prompt_spec(system_prompt@, user_prompt@),
{
    let mut s = String::from_str("<system-prompt>\n");
    s.append(system_prompt);
    s.append("\n</system-prompt>\n\n<user-prompt>\n");
    s.append(user_prompt);
    s.append("\n</user-prompt>\n");
    s
}

/// The argument list for a codex CLI invocation: the base arguments
/// (or `exec`), JSON output, the reasoning effort (or `minimal`), a
/// read-only sandbox, no web search, and the prompt from stdin.
pub open spec fn codex_args_spec(base_args: Seq<Seq<char>>, reasoning: Seq<char>) -> Seq<
    Seq<char>,
> {
    let base = if base_args.len() == 0 {
        seq!["exec"@]
    } else {
        base_args
    };
    base + seq![
        "--json"@,
        "-c"@,
        "model_reasoning_effort="@ + reasoning,
        "-c"@,
        "sandbox_mode=read-only"@,
        "-c"@,
        "tools.web_search=false"@,
        "-"@,
    ]
}

/// Build the codex CLI argument list.
pub fn codex_cli_args(base_args: &Vec<String>, reasoning_effort: Option<&str>) -> (r: Vec<String>)
    ensures
        r.deep_view() == codex_args_spec(
            base_args.deep_view(),
            match reasoning_effort {
                Some(e) => e@,
                None => "minimal"@,
            },
        ),
{
    let mut args: Vec<String> = Vec::new();
    if base_args.len() == 0 {
        args.push(String::from_str("exec"));
        proof {
            assert(args.deep_view() =~~= seq!["exec"@]);
        }
    } else {
        let mut i: usize = 0;
        while i < base_args.len()
            invariant
                i <= base_args@.len(),
                base_args.deep_view().len() == base_args@.len(),
                forall|j: int|
                    0 <= j < base_args@.len() ==> base_args.deep_view()[j] == base_args@[j]@,
                args.deep_view() == base_args.deep_view().take(i as int),
            decreases base_args@.len() - i,
        {
            let ghost pre = args.deep_view();
            let ghost i0 = i as int;
            proof {
                assert(base_args.deep_view()[i0] == base_args@[i0]@);
            }
            args.push(String::from_str(base_args[i].as_str()));
            i = i + 1;
            proof {
                assert(args.deep_view() =~~= pre.push(base_args.deep_view()[i0]));
                assert(base_args.deep_view().take(i0 + 1) =~~= pre.push(
                    base_args.deep_view()[i0],
                ));
            }
        }
        proof {
            assert(base_args.deep_view().take(base_args.deep_view().len() as int) =~~=
                base_args.deep_view());
        }
    }
    let mut effort = String::from_str("model_reasoning_effort=");
    match reasoning_effort {
        Some(e) => effort.append(e),
        None => effort.append("minimal"),
    }
    args.push(String::from_str("--json"));
    args.push(String::from_str("-c"));
    args.push(effort);
    args.push(String::from_str("-c"));
    args.push(String::from_str("sandbox_mode=read-only"));
    args.push(String::from_str("-c"));
    args.push(String::from_str("tools.web_search=false"));
    args.push(String::from_str("-"));
    proof {
        assert(args.deep_view() =~~= codex_args_spec(
            base_args.deep_view(),
            match reasoning_effort {
                Some(e) => e@,
                None => "minimal"@,
            },
        ));
    }
    args
}

/// A parse failure of a codex CLI transcript.
#[derive(Debug, Clone)]
pub enum CodexError {
    /// The transcript held no completed agent message.
    NoAgentMessage,
}

impl CodexError {
    /// A printable description of the error.
    pub fn message(&self) -> (r: String)
        ensures
            r@ == "CLI provider returned no agent_message text."@,
    {
        String::from_str("CLI provider returned no agent_message text.")
    }
}

/// What parsing one transcript line as a codex event yields: the
/// event type, the item type and the item text.
pub uninterp spec fn codex_event_of(line: Seq<char>) -> Option<
    (Seq<char>, Option<Seq<char>>, Option<Seq<char>>),
>;

/// Relies on serde_json: reads the `type` field of a JSON object and,
/// when an `item` object is present, its `type` and `text` fields.
#[verifier::external_body]
fn parse_codex_event(line: &str) -> (r: Option<(String, Option<String>, Option<String>)>)
    ensures
        match r {
            Some(e) => codex_event_of(line@) == Some(
                (
                    e.0@,
                    match e.1 {
                        Some(t) => Some(t@),
                        None => None,
                    },
                    match e.2 {
                        Some(t) => Some(t@),
                        None => None,
                    },
                ),
            ),
            None => codex_event_of(line@) is None,
        },
{
    let v: serde_json::Value = serde_json::from_str(line).ok()?;
    let event_type = v.get("type")?.as_str()?.to_string();
    let (item_type, item_text) = match v.get("item") {
        None | Some(serde_json::Value::Null) => (None, None),
        Some(item) => (
            Some(item.get("type")?.as_str()?.to_string()),
            match item.get("text") {
                None | Some(serde_json::Value::Null) => None,
                Some(x) => Some(x.as_str()?.to_string()),
            },
        ),
    };
    Some((event_type, item_type, item_text))
}

/// Whether one transcript line carries a completed agent message, and
/// its text.
pub open spec fn agent_message_of(line: Seq<char>) -> Option<Seq<char>> {
    let t = trim_seq(line);
    if t.len() == 0 {
        None
    } else {
        match codex_event_of(t) {
            Some(e) => if e.0 == "item.completed"@ && e.1 == Some("agent_message"@) {
                match e.2 {
                    Some(text) => if trim_seq(text).len() > 0 {
                        Some(text)
                    } else {
                        None
                    },
                    None => None,
                }
            } else {
                None
            },
            None => None,
        }
    }
}

/// The completed agent messages among the first `i` lines.
pub open spec fn agent_messages_upto(lines: Seq<Seq<char>>, i: int) -> Seq<Seq<char>>
    decreases i when 0 <= i <= lines.len()
{
    if i <= 0 {
        Seq::empty()
    } else {
        let prev = agent_messages_upto(lines, i - 1);
        match agent_message_of(lines[i - 1]) {
            Some(m) => prev.push(m),
            None => prev,
        }
    }
}

/// What a codex transcript means: the completed agent messages joined
/// by blank lines, or an error when there is none.
pub open spec fn codex_response_spec(stdout: Seq<char>) -> Option<Seq<char>> {
    let lines = lines_of(stdout);
    let msgs = agent_messages_upto(lines, lines.len() as int);
    if msgs.len() == 0 {
        None
    } else {
        Some(join_seqs(msgs, "\n\n"@))
    }
}

/// Parse a codex CLI transcript: every line that is a completed
/// `agent_message` event contributes its text; the texts are joined
/// by blank lines.
pub fn parse_codex_response(stdout: &str) -> (r: Result<String, CodexError>)
    ensures
        match r {
            Ok(s) => codex_response_spec(stdout@) == Some(s@),
            Err(e) => codex_response_spec(stdout@) is None,
        },
{
    let chars = str_to_chars(stdout);
    let lines = split_into_lines(&chars);
    let ghost lns = lines_of(stdout@);
    let mut messages: Vec<Vec<char>> = Vec::new();
    let mut k: usize = 0;
    while k < lines.len()
        invariant
            k <= lines@.len(),
            lines.deep_view() == lns,
            lns == lines_of(stdout@),
            lns.len() == lines@.len(),
            messages.deep_view() == agent_messages_upto(lns, k as int),
        decreases lines@.len() - k,
    {
        let ghost pre = messages.deep_view();
        let ghost k0 = k as int;
        proof {
            assert(lines.deep_view()[k0] == lines@[k0]@);
        }
        let trimmed = trim_chars(&lines[k]);
        if trimmed.len() > 0 {
            let line_string = chars_to_string(&trimmed);
            match parse_codex_event(line_string.as_str()) {
                Some(event) => {
                    let is_completed = str_eq(event.0.as_str(), "item.completed");
                    let is_agent = match &event.1 {
                        Some(t) => str_eq(t.as_str(), "agent_message"),
                        None => false,
                    };
                    if is_completed && is_agent {
                        match event.2 {
                            Some(text) => {
                                let text_chars = str_to_chars(text.as_str());
                                if trim_chars(&text_chars).len() > 0 {
                                    messages.push(text_chars);
                                    proof {
                                        assert(messages.deep_view() =~~= pre.push(
                                            agent_message_of(lns[k0]).unwrap(),
                                        ));
                                    }
                                }
                            },
                            None => (),
                        }
                    }
                },
                None => (),
            }
        }
        k = k + 1;
    }
    if messages.len() == 0 {
        return Err(CodexError::NoAgentMessage);
    }
    let mut out: Vec<char> = Vec::new();
    let sep = str_to_chars("\n\n");
    crate::text::join_chars_with(&messages, &sep, &mut out);
    proof {
        assert(out@ =~= join_seqs(agent_messages_upto(lns, lns.len() as int), "\n\n"@));
    }
    Ok(chars_to_string(&out))
}

/// The test entry point of the transcript parser.
pub fn parse_codex_response_for_test(input: &str) -> (r: Result<String, CodexError>)
    ensures
        match r {
            Ok(s) => codex_response_spec(input@) == Some(s@),
            Err(e) => codex_response_spec(input@) is None,
        },
{
    parse_codex_response(input)
}

} // verus!
