//! Parsing of shell history files: extracting the commands from zsh,
//! fish or plain (bash) history content, keeping only the assistant's
//! own invocations, limited to the most recent ones. Reading the
//! files is the caller's.

use vstd::prelude::*;
use crate::text::{
    chars_eq, chars_to_string, first_token, first_token_exec, lines_of, rfind_char, rfind_char_pos,
    split_into_lines, starts_with_chars, starts_with_seq, str_to_chars, subvec, trim_chars,
    trim_seq,
};

verus! {

/// The history-file dialects that are understood.
#[derive(Debug, Clone, Copy, PartialEq, Eq, Structural)]
pub enum HistoryFormat {
    /// zsh extended history: `: 1696971992:0;command here`.
    Zsh,
    /// fish history: `- cmd: command here` lines.
    Fish,
    /// One command per non-empty line (bash and plain files).
    Plain,
}

/// The command a zsh history line holds: the text after the last `;`,
/// or the whole line when there is none; empty entries are dropped.
pub open spec fn zsh_entry(line: Seq<char>) -> Option<Seq<char>> {
    let p = rfind_char_pos(line, ';');
    if p >= 0 {
        let cmd = trim_seq(line.subrange(p + 1, line.len() as int));
        if cmd.len() > 0 {
            Some(cmd)
        } else {
            None
        }
    } else {
        let t = trim_seq(line);
        if t.len() > 0 {
            Some(t)
        } else {
            None
        }
    }
}

/// The command a fish history line holds: the text after `- cmd: `.
pub open spec fn fish_entry(line: Seq<char>) -> Option<Seq<char>> {
    if starts_with_seq(line, "- cmd: "@) {
        Some(trim_seq(line.subrange("- cmd: "@.len() as int, line.len() as int)))
    } else {
        None
    }
}

/// The command of a plain history line: the line itself, trimmed.
pub open spec fn plain_entry(line: Seq<char>) -> Option<Seq<char>> {
    let t = trim_seq(line);
    if t.len() > 0 {
        Some(t)
    } else {
        None
    }
}

pub open spec fn entry_of(format: HistoryFormat, line: Seq<char>) -> Option<Seq<char>> {
    match format {
        HistoryFormat::Zsh => zsh_entry(line),
        HistoryFormat::Fish => fish_entry(line),
        HistoryFormat::Plain => plain_entry(line),
    }
}

/// The entries of the first `i` lines, in order.
pub open spec fn entries_upto(format: HistoryFormat, lines: Seq<Seq<char>>, i: int) -> Seq<
    Seq<char>,
>
    decreases i when 0 <= i <= lines.len()
{
    if i <= 0 {
        Seq::empty()
    } else {
        let prev = entries_upto(format, lines, i - 1);
        match entry_of(format, lines[i - 1]) {
            Some(e) => prev.push(e),
            None => prev,
        }
    }
}

/// Whether a history line is one of the assistant's own invocations.
pub open spec fn is_supported_history(line: Seq<char>) -> bool {
    first_token(line) == "qq"@ || first_token(line) == "qa"@
}

/// Whether the line's first token is `qq` or `qa`.
pub fn is_supported_history_command(line: &str) -> (r: bool)
    ensures
        r == is_supported_history(line@),
{
    let chars = str_to_chars(line);
    let tok = first_token_exec(&chars);
    chars_eq(&tok, &str_to_chars("qq")) || chars_eq(&tok, &str_to_chars("qa"))
}

/// The supported entries among the first `i`.
pub open spec fn supported_upto(entries: Seq<Seq<char>>, i: int) -> Seq<Seq<char>>
    decreases i when 0 <= i <= entries.len()
{
    if i <= 0 {
        Seq::empty()
    } else {
        let prev = supported_upto(entries, i - 1);
        if is_supported_history(entries[i - 1]) {
            prev.push(entries[i - 1])
        } else {
            prev
        }
    }
}

/// The most recent supported commands in a history file's content:
/// the last `limit` of the supported entries, oldest first.
pub open spec fn recent_history_spec(content: Seq<char>, format: HistoryFormat, limit: int) -> Seq<
    Seq<char>,
> {
    let lines = lines_of(content);
    let entries = entries_upto(format, lines, lines.len() as int);
    let supported = supported_upto(entries, entries.len() as int);
    let start = if supported.len() > limit {
        supported.len() - limit
    } else {
        0
    };
    supported.subrange(start, supported.len() as int)
}

/// Extract the most recent supported commands from one history file's
/// content.
pub fn recent_supported_history(content: &str, format: HistoryFormat, limit: usize) -> (r: Vec<
    String,
>)
    ensures
        r.deep_view() == recent_history_spec(content@, format, limit as int),
{
    let chars = str_to_chars(content);
    let lines = split_into_lines(&chars);
    let ghost lns = lines_of(content@);
    let fish_prefix = str_to_chars("- cmd: ");
    let mut entries: Vec<Vec<char>> = Vec::new();
    let mut k: usize = 0;
    while k < lines.len()
        invariant
            k <= lines@.len(),
            fish_prefix@ == "- cmd: "@,
            lines.deep_view() == lns,
            lns == lines_of(content@),
            lns.len() == lines@.len(),
            entries.deep_view() == entries_upto(format, lns, k as int),
        decreases lines@.len() - k,
    {
        let ghost pre = entries.deep_view();
        let ghost k0 = k as int;
        proof {
            assert(lines.deep_view()[k0] == lines@[k0]@);
        }
        let line = &lines[k];
        match format {
            HistoryFormat::Fish => {
                if starts_with_chars(line, &fish_prefix) {
                    entries.push(trim_chars(&subvec(line, fish_prefix.len(), line.len())));
                    proof {
                        assert(entries.deep_view() =~~= pre.push(
                            trim_seq(lns[k0].subrange("- cmd: "@.len() as int, lns[k0].len() as int)),
                        ));
                    }
                }
            },
            HistoryFormat::Zsh => {
                match rfind_char(line, ';') {
                    Some(p) => {
                        proof {
                            crate::text::lemma_rfind_char_pos(line@, ';');
                            assert(rfind_char_pos(line@, ';') == p as int);
                        }
                        let line_len = line.len();
                        let cmd = trim_chars(&subvec(line, p + 1, line_len));
                        if cmd.len() > 0 {
                            entries.push(cmd);
                            proof {
                                assert(entries.deep_view() =~~= pre.push(
                                    trim_seq(lns[k0].subrange(p as int + 1, lns[k0].len() as int)),
                                ));
                            }
                        }
                    },
                    None => {
                        proof {
                            crate::text::lemma_rfind_char_pos(line@, ';');
                            assert(rfind_char_pos(line@, ';') == -1);
                        }
                        let t = trim_chars(line);
                        if t.len() > 0 {
                            entries.push(t);
                            proof {
                                assert(entries.deep_view() =~~= pre.push(trim_seq(lns[k0])));
                            }
                        }
                    },
                }
            },
            HistoryFormat::Plain => {
                let t = trim_chars(line);
                if t.len() > 0 {
                    entries.push(t);
                    proof {
                        assert(entries.deep_view() =~~= pre.push(trim_seq(lns[k0])));
                    }
                }
            },
        }
        k = k + 1;
    }
    let ghost ents = entries_upto(format, lns, lns.len() as int);
    let mut supported: Vec<Vec<char>> = Vec::new();
    let mut j: usize = 0;
    while j < entries.len()
        invariant
            j <= entries@.len(),
            entries.deep_view() == ents,
            lns == lines_of(content@),
            ents == entries_upto(format, lns, lns.len() as int),
            ents.len() == entries@.len(),
            supported.deep_view() == supported_upto(ents, j as int),
        decreases entries@.len() - j,
    {
        let ghost pre = supported.deep_view();
        proof {
            assert(entries.deep_view()[j as int] == entries@[j as int]@);
        }
        let tok = first_token_exec(&entries[j]);
        if chars_eq(&tok, &str_to_chars("qq")) || chars_eq(&tok, &str_to_chars("qa")) {
            supported.push(subvec(&entries[j], 0, entries[j].len()));
            proof {
                assert(entries@[j as int]@.subrange(0, entries@[j as int]@.len() as int) =~=
                    entries@[j as int]@);
                assert(supported.deep_view() =~~= pre.push(ents[j as int]));
            }
        }
        j = j + 1;
    }
    let ghost sup = supported_upto(ents, ents.len() as int);
    let start: usize = if supported.len() > limit {
        supported.len() - limit
    } else {
        0
    };
    let mut out: Vec<String> = Vec::new();
    let mut m: usize = start;
    while m < supported.len()
        invariant
            start <= m <= supported@.len(),
            supported.deep_view() == sup,
            sup.len() == supported@.len(),
            lns == lines_of(content@),
            ents == entries_upto(format, lns, lns.len() as int),
            sup == supported_upto(ents, ents.len() as int),
            start as int == (if sup.len() > limit {
                sup.len() - limit as int
            } else {
                0
            }),
            out.deep_view() == sup.subrange(start as int, m as int),
        decreases supported@.len() - m,
    {
        let ghost pre = out.deep_view();
        let ghost m0 = m as int;
        proof {
            assert(supported.deep_view()[m0] == supported@[m0]@);
        }
        out.push(chars_to_string(&supported[m]));
        m = m + 1;
        proof {
            assert(out.deep_view() =~~= pre.push(sup[m0]));
            assert(sup.subrange(start as int, m0 + 1) =~~= pre.push(sup[m0]));
        }
    }
    proof {
        assert(out.deep_view() =~~= recent_history_spec(content@, format, limit as int));
    }
    out
}

} // verus!
