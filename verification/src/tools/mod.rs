//! The tool-call protocol: parsing the JSON envelope the model
//! returns into one of the three typed tool calls. The JSON reading
//! itself is serde_json's, behind trusted wrappers; the dispatch on
//! tool names is verified.

use vstd::prelude::*;
use crate::text::str_eq;

pub mod execute_command;
pub mod read_file;
pub mod write_file;

verus! {

/// A parsed tool call.
#[derive(Debug)]
pub enum ToolCall {
    ReadFile(read_file::Args),
    WriteFile(write_file::Args),
    ExecuteCommand(execute_command::Args),
}

/// Why a tool call could not be parsed.
#[derive(Debug, Clone)]
pub enum ToolCallError {
    /// The text is not a `{ "tool": ..., "arguments": ... }` object.
    NotToolJson,
    /// The arguments do not fit the named tool's schema.
    BadArguments,
    /// The tool name is none of the known ones.
    UnknownTool(String),
}

/// What parsing `{ "tool": string, "arguments": object }` yields on a
/// given text: the tool name and the arguments re-serialized.
pub uninterp spec fn tool_envelope_of(s: Seq<char>) -> Option<(Seq<char>, Seq<char>)>;

/// Relies on serde_json: reads the `tool` and `arguments` fields of a
/// JSON object and re-serializes the arguments.
#[verifier::external_body]
fn parse_tool_envelope(s: &str) -> (r: Option<(String, String)>)
    ensures
        match r {
            Some(p) => tool_envelope_of(s@) == Some((p.0@, p.1@)),
            None => tool_envelope_of(s@) is None,
        },
{
    let v: serde_json::Value = serde_json::from_str(s).ok()?;
    let tool = v.get("tool")?.as_str()?.to_string();
    let arguments = v.get("arguments")?;
    Some((tool, serde_json::to_string(arguments).ok()?))
}

/// What reading a `json` wrapper envelope yields: the inner tool
/// name and, when present, the re-serialized arguments.
pub uninterp spec fn json_wrapper_of(s: Seq<char>) -> Option<(Seq<char>, Option<Seq<char>>)>;

/// Relies on serde_json: reads the `tool` field of a JSON object and,
/// when an `arguments` field is present, re-serializes it.
#[verifier::external_body]
fn parse_json_wrapper(s: &str) -> (r: Option<(String, Option<String>)>)
    ensures
        match r {
            Some(p) => json_wrapper_of(s@) == Some(
                (
                    p.0@,
                    match p.1 {
                        Some(a) => Some(a@),
                        None => None,
                    },
                ),
            ),
            None => json_wrapper_of(s@) is None,
        },
{
    let v: serde_json::Value = serde_json::from_str(s).ok()?;
    let tool = v.get("tool")?.as_str()?.to_string();
    let arguments = match v.get("arguments") {
        Some(a) => Some(serde_json::to_string(a).ok()?),
        None => None,
    };
    Some((tool, arguments))
}

/// What parsing `{ "path": string }` yields on a given text.
pub uninterp spec fn read_file_args_of(s: Seq<char>) -> Option<Seq<char>>;

/// Relies on serde_json: reads the `path` field of a JSON object.
#[verifier::external_body]
fn parse_read_file_args(s: &str) -> (r: Option<String>)
    ensures
        match r {
            Some(p) => read_file_args_of(s@) == Some(p@),
            None => read_file_args_of(s@) is None,
        },
{
    let v: serde_json::Value = serde_json::from_str(s).ok()?;
    Some(v.get("path")?.as_str()?.to_string())
}

/// What parsing `{ "path": string, "content": string }` yields.
pub uninterp spec fn write_file_args_of(s: Seq<char>) -> Option<(Seq<char>, Seq<char>)>;

/// Relies on serde_json: reads the `path` and `content` fields of a
/// JSON object.
#[verifier::external_body]
fn parse_write_file_args(s: &str) -> (r: Option<(String, String)>)
    ensures
        match r {
            Some(p) => write_file_args_of(s@) == Some((p.0@, p.1@)),
            None => write_file_args_of(s@) is None,
        },
{
    let v: serde_json::Value = serde_json::from_str(s).ok()?;
    let path = v.get("path")?.as_str()?.to_string();
    let content = v.get("content")?.as_str()?.to_string();
    Some((path, content))
}

/// What parsing `{ "command": string, "cwd"?: string }` yields.
pub uninterp spec fn execute_args_of(s: Seq<char>) -> Option<(Seq<char>, Option<Seq<char>>)>;

/// Relies on serde_json: reads the `command` field and the optional
/// `cwd` field of a JSON object.
#[verifier::external_body]
fn parse_execute_args(s: &str) -> (r: Option<(String, Option<String>)>)
    ensures
        match r {
            Some(p) => execute_args_of(s@) == Some(
                (
                    p.0@,
                    match p.1 {
                        Some(c) => Some(c@),
                        None => None,
                    },
                ),
            ),
            None => execute_args_of(s@) is None,
        },
{
    let v: serde_json::Value = serde_json::from_str(s).ok()?;
    let command = v.get("command")?.as_str()?.to_string();
    let cwd = match v.get("cwd") {
        None => None,
        Some(serde_json::Value::Null) => None,
        Some(x) => Some(x.as_str()?.to_string()),
    };
    Some((command, cwd))
}

/// How a parse result realizes the envelope found in the text.
pub open spec fn tool_call_matches(
    r: Result<ToolCall, ToolCallError>,
    envelope: Option<(Seq<char>, Seq<char>)>,
) -> bool {
    match envelope {
        None => r matches Err(ToolCallError::NotToolJson),
        Some((tool, args)) => if tool == "read_file"@ {
            match read_file_args_of(args) {
                Some(p) => r matches Ok(ToolCall::ReadFile(a)) && a.path@ == p,
                None => r matches Err(ToolCallError::BadArguments),
            }
        } else if tool == "write_file"@ {
            match write_file_args_of(args) {
                Some(pc) => r matches Ok(ToolCall::WriteFile(a)) && a.path@ == pc.0 && a.content@
                    == pc.1,
                None => r matches Err(ToolCallError::BadArguments),
            }
        } else if tool == "execute_command"@ {
            match execute_args_of(args) {
                Some(cc) => r matches Ok(ToolCall::ExecuteCommand(a)) && a.command@ == cc.0
                    && (match (a.cwd, cc.1) {
                    (Some(x), Some(y)) => x@ == y,
                    (None, None) => true,
                    _ => false,
                }),
                None => r matches Err(ToolCallError::BadArguments),
            }
        } else {
            r matches Err(ToolCallError::UnknownTool(t)) && t@ == tool
        },
    }
}

/// Try to parse a tool call JSON from assistant content.
pub fn parse_tool_call(json_text: &str) -> (r: Result<ToolCall, ToolCallError>)
    ensures
        tool_call_matches(r, tool_envelope_of(json_text@)),
{
    let envelope = parse_tool_envelope(json_text);
    match envelope {
        None => Err(ToolCallError::NotToolJson),
        Some((tool, args)) => parse_named_tool_args(tool, args.as_str()),
    }
}

fn parse_named_tool_args(tool: String, args: &str) -> (r: Result<ToolCall, ToolCallError>)
    ensures
        tool_call_matches(r, Some((tool@, args@))),
{
    if str_eq(tool.as_str(), "read_file") {
        match parse_read_file_args(args) {
            Some(path) => Ok(ToolCall::ReadFile(read_file::Args { path })),
            None => Err(ToolCallError::BadArguments),
        }
    } else if str_eq(tool.as_str(), "write_file") {
        match parse_write_file_args(args) {
            Some(pc) => Ok(ToolCall::WriteFile(write_file::Args { path: pc.0, content: pc.1 })),
            None => Err(ToolCallError::BadArguments),
        }
    } else if str_eq(tool.as_str(), "execute_command") {
        match parse_execute_args(args) {
            Some(cc) => Ok(
                ToolCall::ExecuteCommand(execute_command::Args { command: cc.0, cwd: cc.1 }),
            ),
            None => Err(ToolCallError::BadArguments),
        }
    } else {
        Err(ToolCallError::UnknownTool(tool))
    }
}

/// One step of dispatching a tool call named by the model.
#[derive(Debug)]
pub enum ToolDispatch {
    /// A known tool with parsed arguments.
    Call(ToolCall),
    /// A name that is none of the known tools.
    Unknown,
    /// The `json` wrapper: the inner tool name and arguments to
    /// dispatch next.
    Wrapped(String, String),
    /// Arguments that do not fit the named tool.
    Invalid,
}

/// How a dispatch step realizes the parsed forms of its inputs.
pub open spec fn dispatch_matches(r: ToolDispatch, name: Seq<char>, args: Seq<char>) -> bool {
    if name == "read_file"@ {
        match read_file_args_of(args) {
            Some(p) => r matches ToolDispatch::Call(ToolCall::ReadFile(a)) && a.path@ == p,
            None => r is Invalid,
        }
    } else if name == "write_file"@ {
        match write_file_args_of(args) {
            Some(pc) => r matches ToolDispatch::Call(ToolCall::WriteFile(a)) && a.path@ == pc.0
                && a.content@ == pc.1,
            None => r is Invalid,
        }
    } else if name == "execute_command"@ {
        match execute_args_of(args) {
            Some(cc) => r matches ToolDispatch::Call(ToolCall::ExecuteCommand(a)) && a.command@
                == cc.0 && (match (a.cwd, cc.1) {
                (Some(x), Some(y)) => x@ == y,
                (None, None) => true,
                _ => false,
            }),
            None => r is Invalid,
        }
    } else if name == "json"@ {
        match json_wrapper_of(args) {
            Some(inner) => r matches ToolDispatch::Wrapped(t, a) && t@ == inner.0 && a@ == (
            match inner.1 {
                Some(x) => x,
                None => "{}"@,
            }),
            None => r is Invalid,
        }
    } else {
        r is Unknown
    }
}

/// Dispatch one tool call named by the model: parse the arguments of
/// the named tool, or unwrap one `json` envelope (whose missing
/// arguments default to an empty object). The caller loops on
/// `Wrapped`.
pub fn dispatch_tool_step(name: &str, arguments_json: &str) -> (r: ToolDispatch)
    ensures
        dispatch_matches(r, name@, arguments_json@),
{
    if str_eq(name, "read_file") {
        match parse_read_file_args(arguments_json) {
            Some(path) => ToolDispatch::Call(ToolCall::ReadFile(read_file::Args { path })),
            None => ToolDispatch::Invalid,
        }
    } else if str_eq(name, "write_file") {
        match parse_write_file_args(arguments_json) {
            Some(pc) => ToolDispatch::Call(
                ToolCall::WriteFile(write_file::Args { path: pc.0, content: pc.1 }),
            ),
            None => ToolDispatch::Invalid,
        }
    } else if str_eq(name, "execute_command") {
        match parse_execute_args(arguments_json) {
            Some(cc) => ToolDispatch::Call(
                ToolCall::ExecuteCommand(execute_command::Args { command: cc.0, cwd: cc.1 }),
            ),
            None => ToolDispatch::Invalid,
        }
    } else if str_eq(name, "json") {
        match parse_json_wrapper(arguments_json) {
            Some(inner) => {
                let args = match inner.1 {
                    Some(a) => a,
                    None => String::from_str("{}"),
                };
                ToolDispatch::Wrapped(inner.0, args)
            },
            None => ToolDispatch::Invalid,
        }
    } else {
        ToolDispatch::Unknown
    }
}

} // verus!
