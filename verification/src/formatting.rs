//! The pseudo-XML renderer: `<bold>`, `<cmd>`, `<info>`, `<file>`,
//! `<warn>`, `<code>` and `<br/>` markup turned into ANSI-colored
//! text, both in one pass and incrementally over streamed chunks.
//! The ANSI escape sequences themselves come from nu_ansi_term behind
//! one trusted wrapper; everything around it is verified.

use vstd::prelude::*;
use crate::text::{
    append_chars, chars_eq, chars_to_string, drop_char, drop_char_seq, lower_chars, lower_seq,
    str_to_chars, subvec, trim_chars, trim_end_char, trim_end_chars, trim_seq, replace_chars,
    replace_seq,
};

verus! {

/// The markup tags the renderer understands.
#[derive(Debug, Clone, Copy, PartialEq, Eq, Structural)]
pub enum MarkupTag {
    Bold,
    Cmd,
    Info,
    File,
    Warn,
    Code,
}

/// The color code a tag contributes: `0` for none, else one of the
/// four colors used by the renderer.
pub open spec fn tag_color(t: MarkupTag) -> u8 {
    match t {
        MarkupTag::Bold => 0,
        MarkupTag::Cmd => 1,  // green
        MarkupTag::Info => 2,  // cyan
        MarkupTag::File => 3,  // magenta
        MarkupTag::Warn => 4,  // yellow
        MarkupTag::Code => 2,  // cyan
    }
}

/// Whether any tag on the stack bolds the text.
pub open spec fn stack_has_bold(stack: Seq<MarkupTag>) -> bool {
    exists|i: int| 0 <= i < stack.len() && stack[i] == MarkupTag::Bold
}

/// The effective foreground color of a tag stack: the innermost tag
/// that sets one wins.
pub open spec fn stack_color(stack: Seq<MarkupTag>) -> u8
    decreases stack.len(),
{
    if stack.len() == 0 {
        0
    } else if tag_color(stack.last()) != 0 {
        tag_color(stack.last())
    } else {
        stack_color(stack.drop_last())
    }
}

/// Every stack color is one of the renderer's four codes or none.
proof fn lemma_stack_color_range(stack: Seq<MarkupTag>)
    ensures
        stack_color(stack) <= 4,
    decreases stack.len(),
{
    if stack.len() > 0 {
        lemma_stack_color_range(stack.drop_last());
    }
}

fn stack_bold_exec(stack: &Vec<MarkupTag>) -> (r: bool)
    ensures
        r == stack_has_bold(stack@),
{
    let mut i: usize = 0;
    while i < stack.len()
        invariant
            i <= stack@.len(),
            forall|j: int| 0 <= j < i ==> stack@[j] != MarkupTag::Bold,
        decreases stack@.len() - i,
    {
        if matches!(stack[i], MarkupTag::Bold) {
            return true;
        }
        i = i + 1;
    }
    false
}

fn tag_color_exec(t: MarkupTag) -> (r: u8)
    ensures
        r == tag_color(t),
{
    match t {
        MarkupTag::Bold => 0,
        MarkupTag::Cmd => 1,
        MarkupTag::Info => 2,
        MarkupTag::File => 3,
        MarkupTag::Warn => 4,
        MarkupTag::Code => 2,
    }
}

fn stack_color_exec(stack: &Vec<MarkupTag>) -> (r: u8)
    ensures
        r == stack_color(stack@),
{
    let mut end: usize = stack.len();
    proof {
        assert(stack@.subrange(0, end as int) =~= stack@);
    }
    while end > 0
        invariant
            end <= stack@.len(),
            stack_color(stack@) == stack_color(stack@.subrange(0, end as int)),
        decreases end,
    {
        let c = tag_color_exec(stack[end - 1]);
        proof {
            let s = stack@.subrange(0, end as int);
            assert(s.last() == stack@[end - 1]);
            assert(s.drop_last() =~= stack@.subrange(0, end as int - 1));
        }
        if c != 0 {
            return c;
        }
        end = end - 1;
    }
    0
}

/// The foreground code nu_ansi_term writes for each of the
/// renderer's colors.
pub open spec fn fg_code(color: u8) -> Seq<char> {
    if color == 1 {
        "32"@  // green
    } else if color == 2 {
        "36"@  // cyan
    } else if color == 3 {
        "35"@  // magenta
    } else {
        "33"@  // yellow
    }
}

/// What nu_ansi_term's `Style::paint` produces for the renderer's
/// styles: a CSI prefix carrying the bold code and the color code,
/// the text, and a reset suffix; a plain style leaves the text
/// untouched.
pub open spec fn painted_text(bold: bool, color: u8, text: Seq<char>) -> Seq<char> {
    if !bold && color == 0 {
        text
    } else {
        let codes = if bold && color != 0 {
            "1;"@ + fg_code(color)
        } else if bold {
            "1"@
        } else {
            fg_code(color)
        };
        "\u{1b}["@ + codes + "m"@ + text + "\u{1b}[0m"@
    }
}

/// Relies on nu_ansi_term's `Style::paint`: for a style built from
/// the bold flag and one of the renderer's colors it writes exactly
/// the CSI prefix of `painted_text`, then the text, then the reset
/// suffix — and nothing at all around a plain style's text.
#[verifier::external_body]
fn paint_text(bold: bool, color: u8, text: &str) -> (r: String)
    requires
        color <= 4,
    ensures
        r@ == painted_text(bold, color, text@),
{
    let mut st = nu_ansi_term::Style::new();
    if bold {
        st = st.bold();
    }
    st = match color {
        1 => st.fg(nu_ansi_term::Color::Green),
        2 => st.fg(nu_ansi_term::Color::Cyan),
        3 => st.fg(nu_ansi_term::Color::Magenta),
        4 => st.fg(nu_ansi_term::Color::Yellow),
        _ => st,
    };
    st.paint(text).to_string()
}

/// The text with the three markup entities decoded, in the renderer's
/// order: `&lt;`, then `&gt;`, then `&amp;`.
pub open spec fn unescape_spec(s: Seq<char>) -> Seq<char> {
    replace_seq(replace_seq(replace_seq(s, "&lt;"@, "<"@), "&gt;"@, ">"@), "&amp;"@, "&"@)
}

fn unescape_chars(v: &Vec<char>) -> (r: Vec<char>)
    ensures
        r@ == unescape_spec(v@),
{
    proof {
        reveal_strlit("&lt;");
        reveal_strlit("&gt;");
        reveal_strlit("&amp;");
    }
    let s1 = replace_chars(v, &str_to_chars("&lt;"), &str_to_chars("<"));
    let s2 = replace_chars(&s1, &str_to_chars("&gt;"), &str_to_chars(">"));
    replace_chars(&s2, &str_to_chars("&amp;"), &str_to_chars("&"))
}

/// Decode the markup entities of a text.
pub fn unescape_entities(input: &str) -> (r: String)
    ensures
        r@ == unescape_spec(input@),
{
    let chars = str_to_chars(input);
    chars_to_string(&unescape_chars(&chars))
}

/// What one run of literal text contributes to the output: nothing if
/// it is empty, its decoded form if no tag is open, and the painted
/// decoded form otherwise.
pub open spec fn styled_piece(stack: Seq<MarkupTag>, text: Seq<char>) -> Seq<char> {
    if text.len() == 0 {
        Seq::empty()
    } else {
        let u = unescape_spec(text);
        if u.len() == 0 {
            Seq::empty()
        } else if stack.len() == 0 {
            u
        } else {
            painted_text(stack_has_bold(stack), stack_color(stack), u)
        }
    }
}

fn push_with_style(out: &mut Vec<char>, text: &Vec<char>, stack: &Vec<MarkupTag>)
    ensures
        final(out)@ == old(out)@ + styled_piece(stack@, text@),
{
    if text.len() == 0 {
        proof {
            assert(out@ =~= old(out)@ + styled_piece(stack@, text@));
        }
        return ;
    }
    let u = unescape_chars(text);
    if u.len() == 0 {
        proof {
            assert(out@ =~= old(out)@ + styled_piece(stack@, text@));
        }
        return ;
    }
    if stack.len() == 0 {
        append_chars(out, &u);
        return ;
    }
    let bold = stack_bold_exec(stack);
    let color = stack_color_exec(stack);
    proof {
        lemma_stack_color_range(stack@);
    }
    let painted_string = paint_text(bold, color, chars_to_string(&u).as_str());
    let painted_chars = str_to_chars(painted_string.as_str());
    append_chars(out, &painted_chars);
}

/// The tag named by a (lowercased) tag name, if any.
pub open spec fn tag_of_name(n: Seq<char>) -> Option<MarkupTag> {
    if n == "bold"@ || n == "strong"@ || n == "b"@ {
        Some(MarkupTag::Bold)
    } else if n == "cmd"@ {
        Some(MarkupTag::Cmd)
    } else if n == "info"@ {
        Some(MarkupTag::Info)
    } else if n == "file"@ {
        Some(MarkupTag::File)
    } else if n == "warn"@ {
        Some(MarkupTag::Warn)
    } else if n == "code"@ {
        Some(MarkupTag::Code)
    } else {
        None
    }
}

fn tag_of_name_exec(n: &Vec<char>) -> (r: Option<MarkupTag>)
    ensures
        r == tag_of_name(n@),
{
    if chars_eq(n, &str_to_chars("bold")) || chars_eq(n, &str_to_chars("strong")) || chars_eq(
        n,
        &str_to_chars("b"),
    ) {
        Some(MarkupTag::Bold)
    } else if chars_eq(n, &str_to_chars("cmd")) {
        Some(MarkupTag::Cmd)
    } else if chars_eq(n, &str_to_chars("info")) {
        Some(MarkupTag::Info)
    } else if chars_eq(n, &str_to_chars("file")) {
        Some(MarkupTag::File)
    } else if chars_eq(n, &str_to_chars("warn")) {
        Some(MarkupTag::Warn)
    } else if chars_eq(n, &str_to_chars("code")) {
        Some(MarkupTag::Code)
    } else {
        None
    }
}

/// The stack with its innermost occurrence of `tag` removed.
pub open spec fn remove_last_match(stack: Seq<MarkupTag>, tag: MarkupTag) -> Seq<MarkupTag>
    decreases stack.len(),
{
    if stack.len() == 0 {
        stack
    } else if stack.last() == tag {
        stack.drop_last()
    } else {
        remove_last_match(stack.drop_last(), tag).push(stack.last())
    }
}

proof fn lemma_remove_last_match_at(stack: Seq<MarkupTag>, tag: MarkupTag, i: int)
    requires
        0 <= i < stack.len(),
        stack[i] == tag,
        forall|j: int| i < j < stack.len() ==> stack[j] != tag,
    ensures
        remove_last_match(stack, tag) == stack.remove(i),
    decreases stack.len(),
{
    if i == stack.len() - 1 {
        assert(stack.remove(i) =~= stack.drop_last());
    } else {
        assert(forall|j: int|
            i < j < stack.drop_last().len() ==> stack.drop_last()[j] != tag);
        lemma_remove_last_match_at(stack.drop_last(), tag, i);
        assert(stack.remove(i) =~= stack.drop_last().remove(i).push(stack.last()));
    }
}

proof fn lemma_remove_last_match_absent(stack: Seq<MarkupTag>, tag: MarkupTag)
    requires
        forall|j: int| 0 <= j < stack.len() ==> stack[j] != tag,
    ensures
        remove_last_match(stack, tag) == stack,
    decreases stack.len(),
{
    if stack.len() > 0 {
        lemma_remove_last_match_absent(stack.drop_last(), tag);
        assert(remove_last_match(stack, tag) =~= stack);
    }
}

fn remove_last(stack: &mut Vec<MarkupTag>, tag: MarkupTag)
    ensures
        final(stack)@ == remove_last_match(old(stack)@, tag),
{
    let mut i: usize = stack.len();
    while i > 0
        invariant
            i <= stack@.len(),
            stack@ == old(stack)@,
            forall|j: int| i <= j < stack@.len() ==> stack@[j] != tag,
        decreases i,
    {
        i = i - 1;
        if stack[i] == tag {
            proof {
                lemma_remove_last_match_at(stack@, tag, i as int);
            }
            stack.remove(i);
            return ;
        }
    }
    proof {
        lemma_remove_last_match_absent(stack@, tag);
    }
}

/// The effect of one `<...>` tag on the renderer: the new tag stack
/// and what is emitted (`<br/>` emits a newline; an opening tag pushes
/// its style; a closing tag pops the innermost match; anything else is
/// ignored). `raw` is the tag text between the angle brackets, trimmed.
pub open spec fn handle_tag_spec(stack: Seq<MarkupTag>, raw: Seq<char>) -> (
    Seq<MarkupTag>,
    Seq<char>,
) {
    if raw.len() == 0 {
        (stack, Seq::empty())
    } else {
        let lowered = lower_seq(trim_end_char(drop_char_seq(raw, ' '), '/'));
        if lowered == "br"@ {
            (stack, "\n"@)
        } else if raw[0] == '/' {
            let name = lower_seq(trim_seq(raw.drop_first()));
            match tag_of_name(name) {
                Some(tag) => (remove_last_match(stack, tag), Seq::empty()),
                None => (stack, Seq::empty()),
            }
        } else {
            match tag_of_name(lowered) {
                Some(tag) => (stack.push(tag), Seq::empty()),
                None => (stack, Seq::empty()),
            }
        }
    }
}

fn handle_tag_exec(stack: &mut Vec<MarkupTag>, raw: &Vec<char>, out: &mut Vec<char>)
    ensures
        ({
            let t = handle_tag_spec(old(stack)@, raw@);
            &&& final(stack)@ == t.0
            &&& final(out)@ == old(out)@ + t.1
        }),
{
    if raw.len() == 0 {
        proof {
            assert(out@ =~= old(out)@ + handle_tag_spec(stack@, raw@).1);
        }
        return ;
    }
    let lowered = lower_chars(&trim_end_chars(&drop_char(raw, ' '), '/'));
    if chars_eq(&lowered, &str_to_chars("br")) {
        out.push('\n');
        proof {
            reveal_strlit("\n");
            assert(out@ =~= old(out)@ + "\n"@);
        }
        return ;
    }
    if raw[0] == '/' {
        let tail = subvec(raw, 1, raw.len());
        proof {
            assert(tail@ =~= raw@.drop_first());
        }
        let name = lower_chars(&trim_chars(&tail));
        match tag_of_name_exec(&name) {
            Some(tag) => {
                remove_last(stack, tag);
            },
            None => (),
        }
        proof {
            assert(out@ =~= old(out)@ + handle_tag_spec(old(stack)@, raw@).1);
        }
        return ;
    }
    match tag_of_name_exec(&lowered) {
        Some(tag) => {
            stack.push(tag);
        },
        None => (),
    }
    proof {
        assert(out@ =~= old(out)@ + handle_tag_spec(old(stack)@, raw@).1);
    }
}

/// How many trailing characters are withheld when a chunk ends in
/// what may be the start of an entity: a short `&...` tail without a
/// `;` waits for the next chunk.
pub open spec fn emit_keep_len(s: Seq<char>) -> int {
    let pos = crate::text::rfind_char_pos(s, '&');
    if pos >= 0 {
        let tail = s.subrange(pos, s.len() as int);
        if !tail.contains(';') && tail.len() < 5 {
            s.len() - pos
        } else {
            0
        }
    } else {
        0
    }
}

/// One pass of the streaming parser over a buffer: the resulting tag
/// stack, the unconsumed tail (an unterminated tag or a possible
/// entity prefix), and the emitted output.
pub open spec fn process_spec(stack: Seq<MarkupTag>, buf: Seq<char>) -> (
    Seq<MarkupTag>,
    Seq<char>,
    Seq<char>,
)
    decreases buf.len(),
    when true
    via process_spec_dec
{
    if buf.len() == 0 {
        (stack, buf, Seq::empty())
    } else {
        let lt = crate::text::find_char_pos(buf, 0, '<');
        if lt >= 0 {
            let emitted = styled_piece(stack, buf.subrange(0, lt));
            let gt = crate::text::find_char_pos(buf, lt, '>');
            if gt >= 0 {
                let raw = trim_seq(buf.subrange(lt + 1, gt));
                let tagged = handle_tag_spec(stack, raw);
                let rest = process_spec(tagged.0, buf.subrange(gt + 1, buf.len() as int));
                (rest.0, rest.1, emitted + tagged.1 + rest.2)
            } else {
                (stack, buf.subrange(lt, buf.len() as int), emitted)
            }
        } else {
            let keep = emit_keep_len(buf);
            (
                stack,
                buf.subrange(buf.len() - keep, buf.len() as int),
                styled_piece(stack, buf.subrange(0, buf.len() - keep)),
            )
        }
    }
}

#[via_fn]
proof fn process_spec_dec(stack: Seq<MarkupTag>, buf: Seq<char>) {
    if buf.len() > 0 {
        crate::text::lemma_find_char_pos(buf, 0, '<');
        let lt = crate::text::find_char_pos(buf, 0, '<');
        if lt >= 0 {
            crate::text::lemma_find_char_pos(buf, lt, '>');
        }
    }
}

fn process_chars(stack: Vec<MarkupTag>, buf: Vec<char>, out: &mut Vec<char>) -> (r: (
    Vec<MarkupTag>,
    Vec<char>,
))
    ensures
        ({
            let t = process_spec(stack@, buf@);
            &&& r.0@ == t.0
            &&& r.1@ == t.1
            &&& final(out)@ == old(out)@ + t.2
        }),
    decreases buf@.len(),
{
    if buf.len() == 0 {
        proof {
            assert(out@ =~= old(out)@ + process_spec(stack@, buf@).2);
        }
        return (stack, buf);
    }
    proof {
        crate::text::lemma_find_char_pos(buf@, 0, '<');
    }
    match crate::text::find_char_from(&buf, 0, '<') {
        Some(lt) => {
            proof {
                assert(crate::text::find_char_pos(buf@, 0, '<') == lt as int);
                crate::text::lemma_find_char_pos(buf@, lt as int, '>');
            }
            let head = subvec(&buf, 0, lt);
            match crate::text::find_char_from(&buf, lt, '>') {
                Some(gt) => {
                    proof {
                        assert(crate::text::find_char_pos(buf@, lt as int, '>') == gt as int);
                    }
                    push_with_style(out, &head, &stack);
                    let raw = trim_chars(&subvec(&buf, lt + 1, gt));
                    let mut stack2 = stack;
                    handle_tag_exec(&mut stack2, &raw, out);
                    let rest_buf = subvec(&buf, gt + 1, buf.len());
                    let result = process_chars(stack2, rest_buf, out);
                    proof {
                        assert(out@ =~= old(out)@ + process_spec(stack@, buf@).2);
                    }
                    result
                },
                None => {
                    proof {
                        assert(crate::text::find_char_pos(buf@, lt as int, '>') == -1);
                    }
                    push_with_style(out, &head, &stack);
                    let tail = subvec(&buf, lt, buf.len());
                    proof {
                        assert(out@ =~= old(out)@ + process_spec(stack@, buf@).2);
                    }
                    (stack, tail)
                },
            }
        },
        None => {
            proof {
                assert(crate::text::find_char_pos(buf@, 0, '<') == -1);
                crate::text::lemma_rfind_char_pos(buf@, '&');
            }
            let keep: usize = match crate::text::rfind_char(&buf, '&') {
                Some(pos) => {
                    proof {
                        assert(crate::text::rfind_char_pos(buf@, '&') == pos as int);
                    }
                    let tail = subvec(&buf, pos, buf.len());
                    let semi = crate::text::find_char_from(&tail, 0, ';');
                    proof {
                        match semi {
                            Some(k) => {
                                assert(tail@.contains(';'));
                            },
                            None => {
                                assert(!tail@.contains(';'));
                            },
                        }
                    }
                    if semi.is_none() && tail.len() < 5 {
                        buf.len() - pos
                    } else {
                        0
                    }
                },
                None => {
                    proof {
                        assert(crate::text::rfind_char_pos(buf@, '&') == -1);
                    }
                    0
                },
            };
            proof {
                assert(keep as int == emit_keep_len(buf@));
            }
            let head = subvec(&buf, 0, buf.len() - keep);
            push_with_style(out, &head, &stack);
            let tail = subvec(&buf, buf.len() - keep, buf.len());
            proof {
                assert(out@ =~= old(out)@ + process_spec(stack@, buf@).2);
            }
            (stack, tail)
        },
    }
}

/// What rendering a complete input yields: everything the parser
/// emits, followed by whatever text was still pending at the end.
pub open spec fn render_spec(input: Seq<char>) -> Seq<char> {
    let t = process_spec(Seq::empty(), input);
    t.2 + styled_piece(t.0, t.1)
}

/// Render the pseudo-XML markup of a complete text to ANSI-colored
/// text. Supported tags: `<bold>`, `<cmd>`, `<info>`, `<file>`,
/// `<warn>`, `<code>`, `<br/>`.
pub fn render_xmlish_to_ansi(input: &str) -> (r: String)
    ensures
        r@ == render_spec(input@),
{
    let mut out: Vec<char> = Vec::new();
    let chars = str_to_chars(input);
    let empty_stack: Vec<MarkupTag> = Vec::new();
    let st = process_chars(empty_stack, chars, &mut out);
    push_with_style(&mut out, &st.1, &st.0);
    proof {
        assert(out@ =~= render_spec(input@));
    }
    chars_to_string(&out)
}

struct XmlishStreamingParser {
    stack: Vec<MarkupTag>,
    pending: Vec<char>,
}

impl XmlishStreamingParser {
    fn new() -> (r: Self)
        ensures
            r.stack@ == Seq::<MarkupTag>::empty(),
            r.pending@ == Seq::<char>::empty(),
    {
        XmlishStreamingParser { stack: Vec::new(), pending: Vec::new() }
    }

    fn process(&mut self, chunk: &Vec<char>, out: &mut Vec<char>)
        ensures
            ({
                let t = process_spec(old(self).stack@, old(self).pending@ + chunk@);
                &&& final(self).stack@ == t.0
                &&& final(self).pending@ == t.1
                &&& final(out)@ == old(out)@ + t.2
            }),
    {
        let mut buf = subvec(&self.pending, 0, self.pending.len());
        append_chars(&mut buf, chunk);
        proof {
            assert(buf@ =~= self.pending@ + chunk@);
        }
        let stack = copy_tags(&self.stack);
        let st = process_chars(stack, buf, out);
        self.stack = st.0;
        self.pending = st.1;
    }

    fn finish(&mut self, out: &mut Vec<char>)
        ensures
            final(self).stack@ == old(self).stack@,
            final(self).pending@ == Seq::<char>::empty(),
            final(out)@ == old(out)@ + styled_piece(old(self).stack@, old(self).pending@),
    {
        let pending = subvec(&self.pending, 0, self.pending.len());
        push_with_style(out, &pending, &self.stack);
        self.pending = Vec::new();
        proof {
            assert(old(self).pending@.subrange(0, old(self).pending@.len() as int) =~= old(
                self,
            ).pending@);
        }
    }
}

fn copy_tags(v: &Vec<MarkupTag>) -> (r: Vec<MarkupTag>)
    ensures
        r@ == v@,
{
    let mut r: Vec<MarkupTag> = Vec::new();
    let mut i: usize = 0;
    while i < v.len()
        invariant
            i <= v@.len(),
            r@ == v@.subrange(0, i as int),
        decreases v@.len() - i,
    {
        r.push(v[i]);
        i = i + 1;
        proof {
            assert(r@ =~= v@.subrange(0, i as int));
        }
    }
    proof {
        assert(r@ =~= v@);
    }
    r
}

/// Incremental formatter that mirrors `render_xmlish_to_ansi` but
/// streams output chunk by chunk.
pub struct StreamingFormatter {
    parser: XmlishStreamingParser,
    raw: Vec<char>,
    rendered: Vec<char>,
}

impl StreamingFormatter {
    /// The raw model text seen so far.
    pub closed spec fn raw_text(&self) -> Seq<char> {
        self.raw@
    }

    /// The parser's unconsumed tail.
    pub closed spec fn pending_text(&self) -> Seq<char> {
        self.parser.pending@
    }

    /// The parser's open-tag stack.
    pub closed spec fn tag_stack(&self) -> Seq<MarkupTag> {
        self.parser.stack@
    }

    /// Everything handed back to the caller so far.
    pub closed spec fn printed_text(&self) -> Seq<char> {
        self.rendered@
    }

    pub fn new() -> (r: Self)
        ensures
            r.raw_text() == Seq::<char>::empty(),
            r.pending_text() == Seq::<char>::empty(),
            r.tag_stack() == Seq::<MarkupTag>::empty(),
            r.printed_text() == Seq::<char>::empty(),
    {
        StreamingFormatter {
            parser: XmlishStreamingParser::new(),
            raw: Vec::new(),
            rendered: Vec::new(),
        }
    }

    /// Push a chunk of model output; returns the formatted delta (if
    /// any) to print immediately. A chunk that repeats everything seen
    /// so far (a cumulative stream) is recognized and only its new
    /// suffix is ingested.
    pub fn push(&mut self, chunk: &str) -> (r: Option<String>)
        ensures
            ({
                let was = old(self);
                let cumulative = was.raw_text().len() > 0 && chunk@.len() >= was.raw_text().len()
                    && chunk@.subrange(0, was.raw_text().len() as int) == was.raw_text();
                let suffix = if cumulative {
                    chunk@.subrange(was.raw_text().len() as int, chunk@.len() as int)
                } else {
                    chunk@
                };
                let t = process_spec(was.tag_stack(), was.pending_text() + suffix);
                chunk@.len() > 0 ==> {
                    &&& final(self).raw_text() == (if cumulative {
                        chunk@
                    } else {
                        was.raw_text() + chunk@
                    })
                    &&& final(self).tag_stack() == t.0
                    &&& final(self).pending_text() == t.1
                    &&& final(self).printed_text() == was.printed_text() + t.2
                    &&& (t.2.len() == 0 ==> r is None)
                    &&& (t.2.len() > 0 ==> (r matches Some(s) && s@ == t.2))
                }
            }),
            chunk@.len() == 0 ==> r is None && *final(self) == *old(self),
    {
        if chunk.is_empty() {
            return None;
        }
        let chunk_chars = str_to_chars(chunk);
        let cumulative = self.raw.len() > 0 && chunk_chars.len() >= self.raw.len()
            && crate::text::starts_with_chars(&chunk_chars, &self.raw);
        if cumulative {
            let suffix = subvec(&chunk_chars, self.raw.len(), chunk_chars.len());
            self.raw = chunk_chars;
            self.ingest_suffix(&suffix)
        } else {
            append_chars(&mut self.raw, &chunk_chars);
            self.ingest_suffix(&chunk_chars)
        }
    }

    /// Flush any buffered text that was waiting for tag or entity
    /// completion.
    pub fn flush(&mut self) -> (r: Option<String>)
        ensures
            ({
                let tail = styled_piece(old(self).tag_stack(), old(self).pending_text());
                &&& final(self).raw_text() == old(self).raw_text()
                &&& final(self).tag_stack() == old(self).tag_stack()
                &&& final(self).pending_text() == Seq::<char>::empty()
                &&& final(self).printed_text() == old(self).printed_text() + tail
                &&& (tail.len() == 0 ==> r is None)
                &&& (tail.len() > 0 ==> (r matches Some(s) && s@ == tail))
            }),
    {
        let mut tail: Vec<char> = Vec::new();
        self.parser.finish(&mut tail);
        if tail.len() == 0 {
            proof {
                assert(self.rendered@ =~= old(self).printed_text() + styled_piece(
                    old(self).tag_stack(),
                    old(self).pending_text(),
                ));
            }
            None
        } else {
            append_chars(&mut self.rendered, &tail);
            Some(chars_to_string(&tail))
        }
    }

    /// Retrieve the full formatted text seen so far, recomputed from
    /// the raw input.
    pub fn rendered(&self) -> (r: String)
        ensures
            r@ == render_spec(self.raw_text()),
    {
        render_xmlish_to_ansi(chars_to_string(&self.raw).as_str())
    }

    fn ingest_suffix(&mut self, suffix: &Vec<char>) -> (r: Option<String>)
        ensures
            ({
                let t = process_spec(old(self).parser.stack@, old(self).parser.pending@ + suffix@);
                &&& final(self).parser.stack@ == t.0
                &&& final(self).parser.pending@ == t.1
                &&& final(self).rendered@ == old(self).rendered@ + t.2
                &&& final(self).raw@ == old(self).raw@
                &&& (t.2.len() == 0 ==> r is None)
                &&& (t.2.len() > 0 ==> (r matches Some(s) && s@ == t.2))
            }),
    {
        let mut delta: Vec<char> = Vec::new();
        self.parser.process(suffix, &mut delta);
        if delta.len() == 0 {
            proof {
                assert(self.rendered@ =~= old(self).rendered@ + delta@);
            }
            None
        } else {
            append_chars(&mut self.rendered, &delta);
            Some(chars_to_string(&delta))
        }
    }
}


/// The fold that compacts blank lines: runs of blank lines become one
/// `\n`; other lines are kept with one trailing newline. The flag
/// carries whether the previous kept line was blank.
pub open spec fn compact_state(lines: Seq<Seq<char>>, i: int) -> (Seq<char>, bool)
    decreases i when 0 <= i <= lines.len()
{
    if i <= 0 {
        (Seq::empty(), false)
    } else {
        let prev = compact_state(lines, i - 1);
        let line = lines[i - 1];
        if trim_seq(line).len() == 0 {
            if !prev.1 {
                (prev.0 + "\n"@, true)
            } else {
                (prev.0, true)
            }
        } else {
            let headed = if prev.0.len() > 0 && prev.0.last() != '\n' {
                prev.0 + "\n"@
            } else {
                prev.0
            };
            (headed + line + "\n"@, false)
        }
    }
}

/// The text with carriage returns removed and runs of blank lines
/// reduced to a single blank line.
pub open spec fn compact_spec(s: Seq<char>) -> Seq<char> {
    let lines = crate::text::split_on_char(drop_char_seq(s, '\r'), '\n');
    compact_state(lines, lines.len() as int).0
}

/// Reduce runs of blank lines to a single blank line and normalize
/// newlines.
pub fn compact_blank_lines(input: &str) -> (r: String)
    ensures
        r@ == compact_spec(input@),
{
    let chars = str_to_chars(input);
    let cleaned = drop_char(&chars, '\r');
    let lines = crate::text::split_chars_on(&cleaned, '\n');
    let ghost lns = crate::text::split_on_char(drop_char_seq(input@, '\r'), '\n');
    let mut out: Vec<char> = Vec::new();
    let mut last_blank = false;
    let mut i: usize = 0;
    while i < lines.len()
        invariant
            i <= lines@.len(),
            lines.deep_view() == lns,
            lns == crate::text::split_on_char(drop_char_seq(input@, '\r'), '\n'),
            lns.len() == lines@.len(),
            (out@, last_blank) == compact_state(lns, i as int),
        decreases lines@.len() - i,
    {
        let ghost pre = out@;
        let ghost i0 = i as int;
        proof {
            assert(lines.deep_view()[i0] == lines@[i0]@);
        }
        let line = &lines[i];
        let is_blank = trim_chars(line).len() == 0;
        if is_blank {
            if !last_blank {
                out.push('\n');
                last_blank = true;
                proof {
                    reveal_strlit("\n");
                    assert(out@ =~= pre + "\n"@);
                }
            }
        } else {
            if out.len() > 0 && out[out.len() - 1] != '\n' {
                out.push('\n');
            }
            let ghost headed = out@;
            proof {
                reveal_strlit("\n");
                if pre.len() > 0 && pre.last() != '\n' {
                    assert(headed =~= pre + "\n"@);
                }
            }
            append_chars(&mut out, line);
            out.push('\n');
            last_blank = false;
            proof {
                reveal_strlit("\n");
                assert(out@ =~= headed + lns[i0] + "\n"@);
            }
        }
        i = i + 1;
    }
    chars_to_string(&out)
}

/// The first `<cmd>` block of a text: the content between the first
/// `<cmd>` and the next `</cmd>` (case-insensitive), with `<br/>`
/// variants turned into newlines, entities decoded, and the result
/// trimmed. `None` when there is no block or it is blank.
pub open spec fn extract_first_command_spec(text: Seq<char>) -> Option<Seq<char>> {
    let lower = lower_seq(text);
    let start = crate::text::find_sub_pos(lower, "<cmd>"@, 0);
    if start < 0 {
        None
    } else {
        let after = start + "<cmd>"@.len();
        let close = crate::text::find_sub_pos(lower, "</cmd>"@, after);
        if close < 0 {
            None
        } else {
            let raw = text.subrange(after, close);
            let normalized = replace_seq(
                replace_seq(replace_seq(raw, "<br/>"@, "\n"@), "<br />"@, "\n"@),
                "<br>"@,
                "\n"@,
            );
            let trimmed = trim_seq(unescape_spec(normalized));
            if trimmed.len() == 0 {
                None
            } else {
                Some(trimmed)
            }
        }
    }
}

/// Extract the first recommended `<cmd>` block of an answer.
pub fn extract_first_command(text: &str) -> (r: Option<String>)
    ensures
        match r {
            Some(s) => extract_first_command_spec(text@) == Some(s@),
            None => extract_first_command_spec(text@) is None,
        },
{
    let chars = str_to_chars(text);
    let lower = lower_chars(&chars);
    let open_tag = str_to_chars("<cmd>");
    let close_tag = str_to_chars("</cmd>");
    proof {
        crate::text::lemma_find_sub_pos(lower@, "<cmd>"@, 0);
    }
    let start = match crate::text::find_sub_from(&lower, &open_tag, 0) {
        Some(p) => p,
        None => {
            return None;
        },
    };
    let lower_len = lower.len();
    proof {
        assert(start as int + open_tag@.len() <= lower_len as int);
    }
    let after = start + open_tag.len();
    proof {
        crate::text::lemma_find_sub_pos(lower@, "</cmd>"@, after as int);
    }
    let close = match crate::text::find_sub_from(&lower, &close_tag, after) {
        Some(p) => p,
        None => {
            return None;
        },
    };
    proof {
        assert(after as int <= close as int) by {
            crate::text::lemma_find_sub_pos(lower@, "</cmd>"@, after as int);
        }
        assert(close as int <= chars@.len());
    }
    let raw = subvec(&chars, after, close);
    proof {
        reveal_strlit("<br/>");
        reveal_strlit("<br />");
        reveal_strlit("<br>");
    }
    let n1 = replace_chars(&raw, &str_to_chars("<br/>"), &str_to_chars("\n"));
    let n2 = replace_chars(&n1, &str_to_chars("<br />"), &str_to_chars("\n"));
    let n3 = replace_chars(&n2, &str_to_chars("<br>"), &str_to_chars("\n"));
    let trimmed = trim_chars(&unescape_chars(&n3));
    if trimmed.len() == 0 {
        None
    } else {
        Some(chars_to_string(&trimmed))
    }
}

/// The fold behind the pretty stream writer: carriage returns are
/// dropped, at most two consecutive newlines are kept, and any other
/// character resets the newline run.
pub open spec fn pretty_filter_state(s: Seq<char>, i: int, run: nat) -> (Seq<char>, nat)
    decreases i when 0 <= i <= s.len()
{
    if i <= 0 {
        (Seq::empty(), run)
    } else {
        let prev = pretty_filter_state(s, i - 1, run);
        let ch = s[i - 1];
        if ch == '\r' {
            prev
        } else if ch == '\n' {
            if prev.1 < 2 {
                (prev.0 + "\n"@, prev.1 + 1)
            } else {
                prev
            }
        } else {
            (prev.0.push(ch), 0)
        }
    }
}

/// A stream writer that limits runs of blank lines while printing
/// streamed deltas. It holds the newline run across calls; the caller
/// prints what `filter` returns.
pub struct PrettyStreamWriter {
    newline_run: usize,
}

impl PrettyStreamWriter {
    /// The length of the current trailing newline run, capped at two.
    pub closed spec fn run_state(&self) -> nat {
        self.newline_run as nat
    }

    pub fn new() -> (r: Self)
        ensures
            r.run_state() == 0,
    {
        PrettyStreamWriter { newline_run: 0 }
    }

    /// Filter one delta: drop carriage returns and keep at most two
    /// consecutive newlines.
    pub fn filter(&mut self, text: &str) -> (r: String)
        ensures
            ({
                let t = pretty_filter_state(text@, text@.len() as int, old(self).run_state());
                r@ == t.0 && final(self).run_state() == t.1
            }),
    {
        let chars = str_to_chars(text);
        let mut out: Vec<char> = Vec::new();
        let mut i: usize = 0;
        while i < chars.len()
            invariant
                i <= chars@.len(),
                chars@ == text@,
                (out@, self.newline_run as nat) == pretty_filter_state(
                    text@,
                    i as int,
                    old(self).run_state(),
                ),
            decreases chars@.len() - i,
        {
            let ghost pre = out@;
            let c = chars[i];
            if c == '\r' {
                // dropped
            } else if c == '\n' {
                if self.newline_run < 2 {
                    out.push('\n');
                    self.newline_run = self.newline_run + 1;
                    proof {
                        reveal_strlit("\n");
                        assert(out@ =~= pre + "\n"@);
                    }
                }
            } else {
                out.push(c);
                self.newline_run = 0;
            }
            i = i + 1;
        }
        chars_to_string(&out)
    }
}

} // verus!
