//! Character-level text utilities shared by the classifier, the path
//! guard and the renderer. Strings are handled as vectors of `char`,
//! whose view is the same `Seq<char>` that `str` and `String` use.

use vstd::prelude::*;

verus! {

/// Turn a string slice into the vector of its characters.
pub fn str_to_chars(s: &str) -> (r: Vec<char>)
    ensures
        r@ == s@,
{
    let n = s.unicode_len();
    let mut r: Vec<char> = Vec::new();
    let mut i: usize = 0;
    while i < n
        invariant
            i <= n,
            n == s@.len(),
            r@ == s@.subrange(0, i as int),
        decreases n - i,
    {
        r.push(s.get_char(i));
        i = i + 1;
        proof {
            assert(r@ =~= s@.subrange(0, i as int));
        }
    }
    proof {
        assert(r@ =~= s@);
    }
    r
}

/// Relies on `String`'s `FromIterator<char>`: collects the characters in order.
#[verifier::external_body]
pub(crate) fn chars_to_string(v: &Vec<char>) -> (r: String)
    ensures
        r@ == v@,
{
    v.iter().collect()
}

/// Character-wise string equality.
pub fn str_eq(a: &str, b: &str) -> (r: bool)
    ensures
        r == (a@ == b@),
{
    let na = a.unicode_len();
    let nb = b.unicode_len();
    if na != nb {
        return false;
    }
    let mut i: usize = 0;
    while i < na
        invariant
            i <= na,
            na == a@.len(),
            na == b@.len(),
            forall|j: int| 0 <= j < i ==> a@[j] == b@[j],
        decreases na - i,
    {
        if a.get_char(i) != b.get_char(i) {
            return false;
        }
        i = i + 1;
    }
    proof {
        assert(a@ =~= b@);
    }
    true
}

/// The lowercase image of one character, for every character whose
/// Unicode lowercase mapping is a single ASCII letter: the ASCII
/// capitals and the Kelvin sign. Other characters stay as they are
/// (their lowercase forms, where they have one, are never ASCII, so
/// they cannot reach the ASCII patterns this fold serves).
pub open spec fn lower_char(c: char) -> char {
    if 'A' <= c && c <= 'Z' {
        ((c as u8) + 32) as char
    } else if c == '\u{212a}' {
        'k'
    } else {
        c
    }
}

/// Lowercase a single character, as far as the mapping reaches ASCII.
pub fn lower_char_exec(c: char) -> (r: char)
    ensures
        r == lower_char(c),
{
    if 'A' <= c && c <= 'Z' {
        ((c as u8) + 32) as char
    } else if c == '\u{212a}' {
        'k'
    } else {
        c
    }
}

/// The lowercase image of a character sequence.
pub open spec fn lower_seq(s: Seq<char>) -> Seq<char> {
    s.map(|_i: int, c: char| lower_char(c))
}

/// ASCII-lowercase every character of a vector.
pub fn lower_chars(v: &Vec<char>) -> (r: Vec<char>)
    ensures
        r@ == lower_seq(v@),
{
    let mut r: Vec<char> = Vec::new();
    let mut i: usize = 0;
    while i < v.len()
        invariant
            i <= v@.len(),
            r@ == lower_seq(v@.subrange(0, i as int)),
        decreases v@.len() - i,
    {
        r.push(lower_char_exec(v[i]));
        i = i + 1;
        proof {
            assert(r@ =~= lower_seq(v@.subrange(0, i as int)));
        }
    }
    proof {
        assert(v@.subrange(0, v@.len() as int) =~= v@);
    }
    r
}

/// The whitespace characters that trimming removes: the Unicode
/// White_Space set, as `char::is_whitespace` sees it.
pub open spec fn is_space(c: char) -> bool {
    c == ' ' || c == '\t' || c == '\n' || c == '\r' || c == '\u{b}' || c == '\u{c}' || c
        == '\u{85}' || c == '\u{a0}' || c == '\u{1680}' || ('\u{2000}' <= c && c <= '\u{200a}')
        || c == '\u{2028}' || c == '\u{2029}' || c == '\u{202f}' || c == '\u{205f}' || c
        == '\u{3000}'
}

/// Whether one character counts as whitespace.
pub fn is_space_exec(c: char) -> (r: bool)
    ensures
        r == is_space(c),
{
    c == ' ' || c == '\t' || c == '\n' || c == '\r' || c == '\u{b}' || c == '\u{c}' || c
        == '\u{85}' || c == '\u{a0}' || c == '\u{1680}' || ('\u{2000}' <= c && c <= '\u{200a}')
        || c == '\u{2028}' || c == '\u{2029}' || c == '\u{202f}' || c == '\u{205f}' || c
        == '\u{3000}'
}

pub open spec fn trim_start_seq(s: Seq<char>) -> Seq<char>
    decreases s.len(),
{
    if s.len() > 0 && is_space(s[0]) {
        trim_start_seq(s.drop_first())
    } else {
        s
    }
}

pub open spec fn trim_end_seq(s: Seq<char>) -> Seq<char>
    decreases s.len(),
{
    if s.len() > 0 && is_space(s.last()) {
        trim_end_seq(s.drop_last())
    } else {
        s
    }
}

/// The sequence with leading and trailing whitespace removed.
pub open spec fn trim_seq(s: Seq<char>) -> Seq<char> {
    trim_end_seq(trim_start_seq(s))
}

/// Copy the characters of `v` in positions `[from, to)`.
pub fn subvec(v: &Vec<char>, from: usize, to: usize) -> (r: Vec<char>)
    requires
        from <= to <= v@.len(),
    ensures
        r@ == v@.subrange(from as int, to as int),
{
    let mut r: Vec<char> = Vec::new();
    let mut i: usize = from;
    while i < to
        invariant
            from <= i <= to <= v@.len(),
            r@ == v@.subrange(from as int, i as int),
        decreases to - i,
    {
        r.push(v[i]);
        i = i + 1;
        proof {
            assert(r@ =~= v@.subrange(from as int, i as int));
        }
    }
    r
}

/// Remove leading and trailing whitespace.
pub fn trim_chars(v: &Vec<char>) -> (r: Vec<char>)
    ensures
        r@ == trim_seq(v@),
{
    let n = v.len();
    proof {
        assert(v@.subrange(0, n as int) =~= v@);
    }
    let mut start: usize = 0;
    while start < n && is_space_exec(v[start])
        invariant
            start <= n,
            n == v@.len(),
            trim_start_seq(v@) == trim_start_seq(v@.subrange(start as int, n as int)),
        decreases n - start,
    {
        proof {
            let s = v@.subrange(start as int, n as int);
            assert(s.drop_first() =~= v@.subrange(start as int + 1, n as int));
        }
        start = start + 1;
    }
    proof {
        let s = v@.subrange(start as int, n as int);
        assert(trim_start_seq(v@) == s);
    }
    let mut end: usize = n;
    while end > start && is_space_exec(v[end - 1])
        invariant
            start <= end <= n,
            n == v@.len(),
            trim_start_seq(v@) == v@.subrange(start as int, n as int),
            trim_seq(v@) == trim_end_seq(v@.subrange(start as int, end as int)),
        decreases end,
    {
        proof {
            let s = v@.subrange(start as int, end as int);
            assert(s.drop_last() =~= v@.subrange(start as int, end as int - 1));
        }
        end = end - 1;
    }
    proof {
        let s = v@.subrange(start as int, end as int);
        assert(trim_end_seq(s) == s);
    }
    subvec(v, start, end)
}

/// Whether `n` occurs as a contiguous subsequence of `h`.
pub open spec fn contains_seq(h: Seq<char>, n: Seq<char>) -> bool {
    exists|i: int| 0 <= i && i + n.len() <= h.len() && #[trigger] h.subrange(i, i + n.len()) == n
}

/// Whether `s` begins with the prefix `p`.
pub open spec fn starts_with_seq(s: Seq<char>, p: Seq<char>) -> bool {
    p.len() <= s.len() && s.subrange(0, p.len() as int) == p
}

/// Whether the characters of `n` appear at position `at` of `h`.
fn matches_at(h: &Vec<char>, n: &Vec<char>, at: usize) -> (r: bool)
    requires
        at + n@.len() <= h@.len(),
    ensures
        r == (h@.subrange(at as int, at as int + n@.len() as int) == n@),
{
    let hn = h.len();
    let mut j: usize = 0;
    while j < n.len()
        invariant
            j <= n@.len(),
            at + n@.len() <= h@.len(),
            hn == h@.len(),
            forall|k: int| 0 <= k < j ==> h@[at + k] == n@[k],
        decreases n@.len() - j,
    {
        if h[at + j] != n[j] {
            proof {
                assert(h@.subrange(at as int, at as int + n@.len() as int)[j as int] == h@[at
                    + j as int]);
            }
            return false;
        }
        j = j + 1;
    }
    proof {
        assert(h@.subrange(at as int, at as int + n@.len() as int) =~= n@);
    }
    true
}

/// Substring search.
pub fn contains_sub(h: &Vec<char>, n: &Vec<char>) -> (r: bool)
    ensures
        r == contains_seq(h@, n@),
{
    if n.len() == 0 {
        proof {
            assert(h@.subrange(0, 0 + n@.len() as int) =~= n@);
            assert(contains_seq(h@, n@));
        }
        return true;
    }
    if n.len() > h.len() {
        return false;
    }
    let bound = h.len() - n.len();
    let mut i: usize = 0;
    while i <= bound
        invariant
            i <= bound + 1,
            bound == h@.len() - n@.len(),
            1 <= n@.len() <= h@.len(),
            h@.len() <= usize::MAX,
            forall|k: int|
                0 <= k < i ==> #[trigger] h@.subrange(k, k + n@.len() as int) != n@,
        decreases bound + 1 - i,
    {
        if matches_at(h, n, i) {
            return true;
        }
        i = i + 1;
    }
    false
}

/// Whether the vector starts with the given prefix.
pub fn starts_with_chars(s: &Vec<char>, p: &Vec<char>) -> (r: bool)
    ensures
        r == starts_with_seq(s@, p@),
{
    if p.len() > s.len() {
        return false;
    }
    matches_at(s, p, 0)
}

/// The least index `>= from` holding `c`, if any.
pub fn find_char_from(v: &Vec<char>, from: usize, c: char) -> (r: Option<usize>)
    requires
        from <= v@.len(),
    ensures
        match r {
            Some(i) => from <= i < v@.len() && v@[i as int] == c && forall|j: int|
                from <= j < i ==> v@[j] != c,
            None => forall|j: int| from <= j < v@.len() ==> v@[j] != c,
        },
{
    let mut i: usize = from;
    while i < v.len()
        invariant
            from <= i <= v@.len(),
            forall|j: int| from <= j < i ==> v@[j] != c,
        decreases v@.len() - i,
    {
        if v[i] == c {
            return Some(i);
        }
        i = i + 1;
    }
    None
}

/// The greatest index holding `c`, if any.
pub fn rfind_char(v: &Vec<char>, c: char) -> (r: Option<usize>)
    ensures
        match r {
            Some(i) => i < v@.len() && v@[i as int] == c && forall|j: int|
                i < j < v@.len() ==> v@[j] != c,
            None => forall|j: int| 0 <= j < v@.len() ==> v@[j] != c,
        },
{
    let mut i: usize = v.len();
    while i > 0
        invariant
            i <= v@.len(),
            forall|j: int| i <= j < v@.len() ==> v@[j] != c,
        decreases i,
    {
        i = i - 1;
        if v[i] == c {
            return Some(i);
        }
    }
    None
}

/// Append every character of `tail` to `out`.
pub fn append_chars(out: &mut Vec<char>, tail: &Vec<char>)
    ensures
        final(out)@ == old(out)@ + tail@,
{
    let mut i: usize = 0;
    while i < tail.len()
        invariant
            i <= tail@.len(),
            out@ == old(out)@ + tail@.subrange(0, i as int),
        decreases tail@.len() - i,
    {
        out.push(tail[i]);
        i = i + 1;
        proof {
            assert(out@ =~= old(out)@ + tail@.subrange(0, i as int));
        }
    }
    proof {
        assert(old(out)@ + tail@.subrange(0, tail@.len() as int) =~= old(out)@ + tail@);
    }
}

/// The character for one decimal digit.
pub open spec fn dec_digit_char(d: int) -> char {
    if d == 0 {
        '0'
    } else if d == 1 {
        '1'
    } else if d == 2 {
        '2'
    } else if d == 3 {
        '3'
    } else if d == 4 {
        '4'
    } else if d == 5 {
        '5'
    } else if d == 6 {
        '6'
    } else if d == 7 {
        '7'
    } else if d == 8 {
        '8'
    } else {
        '9'
    }
}

/// The decimal representation of a natural number.
pub open spec fn dec_rep(n: nat) -> Seq<char>
    decreases n,
{
    if n < 10 {
        seq![dec_digit_char(n as int)]
    } else {
        dec_rep(n / 10).push(dec_digit_char((n % 10) as int))
    }
}

/// The decimal representation of an integer, with a sign when negative.
pub open spec fn int_rep(n: int) -> Seq<char> {
    if n < 0 {
        seq!['-'] + dec_rep((-n) as nat)
    } else {
        dec_rep(n as nat)
    }
}

fn dec_digit_exec(d: u64) -> (r: char)
    requires
        d < 10,
    ensures
        r == dec_digit_char(d as int),
{
    if d == 0 {
        '0'
    } else if d == 1 {
        '1'
    } else if d == 2 {
        '2'
    } else if d == 3 {
        '3'
    } else if d == 4 {
        '4'
    } else if d == 5 {
        '5'
    } else if d == 6 {
        '6'
    } else if d == 7 {
        '7'
    } else if d == 8 {
        '8'
    } else {
        '9'
    }
}

fn push_dec_u64(n: u64, out: &mut Vec<char>)
    ensures
        final(out)@ == old(out)@ + dec_rep(n as nat),
    decreases n,
{
    if n < 10 {
        out.push(dec_digit_exec(n));
        proof {
            assert(out@ =~= old(out)@ + dec_rep(n as nat));
        }
    } else {
        push_dec_u64(n / 10, out);
        out.push(dec_digit_exec(n % 10));
        proof {
            assert(out@ =~= old(out)@ + dec_rep(n as nat));
        }
    }
}

/// Format a natural number in decimal.
pub fn u64_to_string(n: u64) -> (r: String)
    ensures
        r@ == dec_rep(n as nat),
{
    let mut out: Vec<char> = Vec::new();
    push_dec_u64(n, &mut out);
    proof {
        assert(out@ =~= dec_rep(n as nat));
    }
    chars_to_string(&out)
}

/// Format a signed integer in decimal.
pub fn i32_to_string(n: i32) -> (r: String)
    ensures
        r@ == int_rep(n as int),
{
    let mut out: Vec<char> = Vec::new();
    if n < 0 {
        out.push('-');
        let m = (-(n as i64)) as u64;
        push_dec_u64(m, &mut out);
        proof {
            assert(out@ =~= int_rep(n as int));
        }
    } else {
        push_dec_u64(n as u64, &mut out);
        proof {
            assert(out@ =~= int_rep(n as int));
        }
    }
    chars_to_string(&out)
}

/// The lines of a text, as `str::lines` sees them: split on `\n`,
/// one trailing `\r` stripped per line, no final empty line.
pub open spec fn lines_of(s: Seq<char>) -> Seq<Seq<char>> {
    if s.len() == 0 {
        Seq::empty()
    } else {
        let pieces = split_on_char(s, '\n');
        let kept = if pieces.last().len() == 0 {
            pieces.drop_last()
        } else {
            pieces
        };
        kept.map(|_i: int, p: Seq<char>| strip_one_cr(p))
    }
}

/// A line with at most one trailing carriage return removed.
pub open spec fn strip_one_cr(p: Seq<char>) -> Seq<char> {
    if p.len() > 0 && p.last() == '\r' {
        p.drop_last()
    } else {
        p
    }
}

/// Split a text into lines as `str::lines` does.
pub fn split_into_lines(v: &Vec<char>) -> (r: Vec<Vec<char>>)
    ensures
        r.deep_view() == lines_of(v@),
{
    if v.len() == 0 {
        let r: Vec<Vec<char>> = Vec::new();
        proof {
            assert(r.deep_view() =~~= lines_of(v@));
        }
        return r;
    }
    let pieces = split_chars_on(v, '\n');
    let ghost ps = split_on_char(v@, '\n');
    proof {
        assert(ps.len() > 0) by {
            lemma_split_on_nonempty(v@, 0, 0, '\n');
        }
    }
    let mut out: Vec<Vec<char>> = Vec::new();
    let keep: usize = if pieces[pieces.len() - 1].len() == 0 {
        pieces.len() - 1
    } else {
        pieces.len()
    };
    let ghost kept = if ps.last().len() == 0 {
        ps.drop_last()
    } else {
        ps
    };
    let mut i: usize = 0;
    while i < keep
        invariant
            i <= keep,
            keep <= pieces@.len(),
            pieces.deep_view() == ps,
            ps.len() == pieces@.len(),
            kept == (if ps.last().len() == 0 {
                ps.drop_last()
            } else {
                ps
            }),
            keep as int == kept.len(),
            out.deep_view() == kept.map(|_i: int, p: Seq<char>| strip_one_cr(p)).take(i as int),
        decreases keep - i,
    {
        let ghost pre = out.deep_view();
        let ghost i0 = i as int;
        proof {
            assert(pieces.deep_view()[i0] == pieces@[i0]@);
            assert(kept[i0] == ps[i0]);
        }
        let piece = &pieces[i];
        if piece.len() > 0 && piece[piece.len() - 1] == '\r' {
            out.push(subvec(piece, 0, piece.len() - 1));
            proof {
                assert(piece@.subrange(0, piece@.len() - 1) =~= piece@.drop_last());
            }
        } else {
            out.push(subvec(piece, 0, piece.len()));
            proof {
                assert(piece@.subrange(0, piece@.len() as int) =~= piece@);
            }
        }
        i = i + 1;
        proof {
            let m = kept.map(|_i: int, p: Seq<char>| strip_one_cr(p));
            assert(m[i0] == strip_one_cr(kept[i0]));
            assert(out.deep_view() =~~= pre.push(strip_one_cr(kept[i0])));
            assert(m.take(i0 + 1) =~~= m.take(i0).push(m[i0]));
            assert(out.deep_view() =~~= m.take(i as int));
        }
    }
    proof {
        let m = kept.map(|_i: int, p: Seq<char>| strip_one_cr(p));
        assert(m.take(m.len() as int) =~~= m);
        assert(out.deep_view() =~~= lines_of(v@));
    }
    out
}

/// `split_on_from` yields at least one piece.
proof fn lemma_split_on_nonempty(s: Seq<char>, start: int, i: int, sep: char)
    requires
        0 <= start <= i <= s.len(),
    ensures
        split_on_from(s, start, i, sep).len() >= 1,
    decreases s.len() - i,
{
    if i >= s.len() {
    } else if s[i] == sep {
        lemma_split_on_nonempty(s, i + 1, i + 1, sep);
    } else {
        lemma_split_on_nonempty(s, start, i + 1, sep);
    }
}

/// Pieces joined with a separator between them.
pub open spec fn join_seqs(parts: Seq<Seq<char>>, sep: Seq<char>) -> Seq<char>
    decreases parts.len(),
{
    if parts.len() == 0 {
        Seq::empty()
    } else if parts.len() == 1 {
        parts[0]
    } else {
        join_seqs(parts.drop_last(), sep) + sep + parts.last()
    }
}

/// Join pieces with a separator, appending to `out`.
pub fn join_chars_with(parts: &Vec<Vec<char>>, sep: &Vec<char>, out: &mut Vec<char>)
    ensures
        final(out)@ == old(out)@ + join_seqs(parts.deep_view(), sep@),
{
    let ghost whole = parts.deep_view();
    let mut idx: usize = 0;
    while idx < parts.len()
        invariant
            idx <= parts@.len(),
            whole == parts.deep_view(),
            whole.len() == parts@.len(),
            out@ == old(out)@ + join_seqs(whole.take(idx as int), sep@),
        decreases parts@.len() - idx,
    {
        if idx > 0 {
            append_chars(out, sep);
        }
        append_chars(out, &parts[idx]);
        proof {
            assert(parts.deep_view()[idx as int] == parts@[idx as int]@);
            let t1 = whole.take(idx as int + 1);
            assert(t1.drop_last() =~~= whole.take(idx as int));
            assert(t1.last() == whole[idx as int]);
            if idx == 0 {
                assert(out@ =~= old(out)@ + join_seqs(t1, sep@));
            } else {
                assert(out@ =~= old(out)@ + join_seqs(t1, sep@));
            }
        }
        idx = idx + 1;
    }
    proof {
        assert(whole.take(whole.len() as int) =~~= whole);
    }
}

/// The index of the first whitespace character at or after `i`, or
/// the length when none.
pub open spec fn first_space_from(s: Seq<char>, i: int) -> int
    decreases s.len() - i when 0 <= i
{
    if i >= s.len() {
        s.len() as int
    } else if is_space(s[i]) {
        i
    } else {
        first_space_from(s, i + 1)
    }
}

/// The first whitespace-delimited token of a text.
pub open spec fn first_token(s: Seq<char>) -> Seq<char> {
    let t = trim_seq(s);
    t.subrange(0, first_space_from(t, 0))
}

/// Extract the first whitespace-delimited token.
pub fn first_token_exec(v: &Vec<char>) -> (r: Vec<char>)
    ensures
        r@ == first_token(v@),
{
    let t = trim_chars(v);
    let mut i: usize = 0;
    while i < t.len() && !is_space_exec(t[i])
        invariant
            i <= t@.len(),
            t@ == trim_seq(v@),
            first_space_from(t@, 0) == first_space_from(t@, i as int),
            forall|j: int| 0 <= j < i ==> !is_space(t@[j]),
        decreases t@.len() - i,
    {
        i = i + 1;
    }
    proof {
        assert(first_space_from(t@, 0) == i as int);
    }
    subvec(&t, 0, i)
}

/// Whether a character is a decimal digit, and its value.
pub open spec fn is_digit(c: char) -> bool {
    '0' <= c && c <= '9'
}

pub open spec fn digit_of(c: char) -> int {
    c as int - '0' as int
}

pub open spec fn all_digits(s: Seq<char>) -> bool {
    forall|i: int| 0 <= i < s.len() ==> is_digit(#[trigger] s[i])
}

/// The numeric value of a digit string.
pub open spec fn digits_value(s: Seq<char>) -> int
    decreases s.len(),
{
    if s.len() == 0 {
        0
    } else {
        digits_value(s.drop_last()) * 10 + digit_of(s.last())
    }
}

/// Parse an unsigned decimal number, allowing one leading `+`, as
/// `u64::from_str` does. `None` on empty input, a stray character, or
/// overflow.
pub open spec fn parse_u64_spec(s: Seq<char>) -> Option<u64> {
    let digits = if s.len() > 0 && s[0] == '+' {
        s.drop_first()
    } else {
        s
    };
    if digits.len() == 0 || !all_digits(digits) || digits_value(digits) > u64::MAX {
        None
    } else {
        Some(digits_value(digits) as u64)
    }
}

/// Parse an unsigned decimal number from characters.
pub fn parse_u64_chars(v: &Vec<char>) -> (r: Option<u64>)
    ensures
        r == parse_u64_spec(v@),
{
    let start: usize = if v.len() > 0 && v[0] == '+' {
        1
    } else {
        0
    };
    let ghost digits = if v@.len() > 0 && v@[0] == '+' {
        v@.drop_first()
    } else {
        v@
    };
    proof {
        assert(digits =~= v@.subrange(start as int, v@.len() as int));
    }
    if v.len() == start {
        return None;
    }
    let mut acc: u64 = 0;
    let mut i: usize = start;
    while i < v.len()
        invariant
            start <= i <= v@.len(),
            start <= 1,
            (start == 1) == (v@.len() > 0 && v@[0] == '+'),
            digits == (if v@.len() > 0 && v@[0] == '+' {
                v@.drop_first()
            } else {
                v@
            }),
            digits == v@.subrange(start as int, v@.len() as int),
            all_digits(v@.subrange(start as int, i as int)),
            acc as int == digits_value(v@.subrange(start as int, i as int)),
        decreases v@.len() - i,
    {
        let c = v[i];
        if !('0' <= c && c <= '9') {
            proof {
                assert(digits[i as int - start as int] == v@[i as int]);
                assert(!all_digits(digits));
            }
            return None;
        }
        let d: u64 = (c as u32 - '0' as u32) as u64;
        let next = match acc.checked_mul(10) {
            Some(x) => x.checked_add(d),
            None => None,
        };
        match next {
            Some(x) => {
                acc = x;
            },
            None => {
                proof {
                    if all_digits(digits) {
                        assert(v@.subrange(start as int, i as int + 1).drop_last() =~= v@.subrange(
                            start as int,
                            i as int,
                        ));
                        assert(digits.subrange(0, i as int + 1 - start as int) =~= v@.subrange(
                            start as int,
                            i as int + 1,
                        ));
                        lemma_digits_value_grows(digits, i as int + 1 - start as int);
                    }
                }
                return None;
            },
        }
        i = i + 1;
        proof {
            assert(v@.subrange(start as int, i as int).drop_last() =~= v@.subrange(
                start as int,
                i as int - 1,
            ));
            assert(all_digits(v@.subrange(start as int, i as int)));
        }
    }
    proof {
        assert(v@.subrange(start as int, v@.len() as int) =~= digits);
        assert(0 <= digits_value(digits) <= u64::MAX);
    }
    Some(acc)
}

/// A digit string's value is at least the value of any of its
/// prefixes.
proof fn lemma_digits_value_grows(s: Seq<char>, k: int)
    requires
        0 <= k <= s.len(),
        all_digits(s),
    ensures
        digits_value(s) >= digits_value(s.subrange(0, k)),
        digits_value(s) >= 0,
    decreases s.len(),
{
    if s.len() == 0 {
        assert(s.subrange(0, k) =~= s);
    } else {
        assert(all_digits(s.drop_last()));
        lemma_digits_value_grows(s.drop_last(), if k <= s.len() - 1 {
            k
        } else {
            (s.len() - 1) as int
        });
        assert(digit_of(s.last()) >= 0);
        if k <= s.len() - 1 {
            assert(s.subrange(0, k) =~= s.drop_last().subrange(0, k));
        } else {
            assert(s.subrange(0, k) =~= s);
        }
    }
}

/// Lexicographic order on character sequences by code point, from
/// position `i` on: the order `str`'s comparison realizes.
pub open spec fn lex_lt_from(a: Seq<char>, b: Seq<char>, i: int) -> bool
    decreases a.len() - i when 0 <= i
{
    if i >= b.len() {
        false
    } else if i >= a.len() {
        true
    } else if a[i] == b[i] {
        lex_lt_from(a, b, i + 1)
    } else {
        a[i] < b[i]
    }
}

/// Strict lexicographic order on character sequences.
pub open spec fn lex_lt(a: Seq<char>, b: Seq<char>) -> bool {
    lex_lt_from(a, b, 0)
}

/// Two sequences that are ordered neither way are equal.
pub proof fn lemma_lex_lt_connected(a: Seq<char>, b: Seq<char>)
    ensures
        !lex_lt(a, b) && !lex_lt(b, a) ==> a == b,
{
    lemma_lex_lt_connected_from(a, b, 0);
    if !lex_lt(a, b) && !lex_lt(b, a) {
        assert(a =~= b) by {
            assert(a.skip(0) =~= a);
            assert(b.skip(0) =~= b);
        }
    }
}

proof fn lemma_lex_lt_connected_from(a: Seq<char>, b: Seq<char>, i: int)
    requires
        0 <= i <= a.len(),
        i <= b.len(),
    ensures
        lex_lt_from(a, b, i) || lex_lt_from(b, a, i) || a.skip(i) =~= b.skip(i),
    decreases a.len() - i,
{
    if i >= b.len() {
        if i >= a.len() {
            assert(a.skip(i) =~= b.skip(i));
        }
    } else if i >= a.len() {
    } else if a[i] == b[i] {
        lemma_lex_lt_connected_from(a, b, i + 1);
        if !lex_lt_from(a, b, i) && !lex_lt_from(b, a, i) {
            assert(a.skip(i) =~= b.skip(i)) by {
                assert(a.skip(i + 1) =~= b.skip(i + 1));
                assert forall|j: int| 0 <= j < a.skip(i).len() implies a.skip(i)[j] == b.skip(
                    i,
                )[j] by {
                    if j > 0 {
                        assert(a.skip(i)[j] == a.skip(i + 1)[j - 1]);
                        assert(b.skip(i)[j] == b.skip(i + 1)[j - 1]);
                    }
                }
            }
        }
    }
}

/// Compare two strings in the lexicographic order.
pub fn str_lex_lt(a: &str, b: &str) -> (r: bool)
    ensures
        r == lex_lt(a@, b@),
{
    let na = a.unicode_len();
    let nb = b.unicode_len();
    let mut i: usize = 0;
    while i < na && i < nb
        invariant
            i <= na,
            i <= nb,
            na == a@.len(),
            nb == b@.len(),
            lex_lt(a@, b@) == lex_lt_from(a@, b@, i as int),
        decreases na - i,
    {
        let ca = a.get_char(i);
        let cb = b.get_char(i);
        if ca != cb {
            return ca < cb;
        }
        i = i + 1;
    }
    nb > na
}

/// Character-vector equality.
pub fn chars_eq(a: &Vec<char>, b: &Vec<char>) -> (r: bool)
    ensures
        r == (a@ == b@),
{
    if a.len() != b.len() {
        return false;
    }
    let mut i: usize = 0;
    while i < a.len()
        invariant
            i <= a@.len(),
            a@.len() == b@.len(),
            forall|j: int| 0 <= j < i ==> a@[j] == b@[j],
        decreases a@.len() - i,
    {
        if a[i] != b[i] {
            return false;
        }
        i = i + 1;
    }
    proof {
        assert(a@ =~= b@);
    }
    true
}

/// The first position at or after `from` holding `c`, or `-1`.
pub open spec fn find_char_pos(s: Seq<char>, from: int, c: char) -> int
    decreases s.len() - from when 0 <= from
{
    if from >= s.len() {
        -1
    } else if s[from] == c {
        from
    } else {
        find_char_pos(s, from + 1, c)
    }
}

/// What `find_char_pos` returns: the first occurrence, if any.
pub proof fn lemma_find_char_pos(s: Seq<char>, from: int, c: char)
    requires
        0 <= from,
    ensures
        ({
            let p = find_char_pos(s, from, c);
            &&& p == -1 ==> forall|j: int| from <= j < s.len() ==> s[j] != c
            &&& p != -1 ==> from <= p < s.len() && s[p] == c && forall|j: int|
                from <= j < p ==> s[j] != c
        }),
    decreases s.len() - from,
{
    if from >= s.len() {
    } else if s[from] == c {
    } else {
        lemma_find_char_pos(s, from + 1, c);
    }
}

/// The last position holding `c`, or `-1`.
pub open spec fn rfind_char_pos(s: Seq<char>, c: char) -> int
    decreases s.len(),
{
    if s.len() == 0 {
        -1
    } else if s.last() == c {
        s.len() - 1
    } else {
        rfind_char_pos(s.drop_last(), c)
    }
}

/// What `rfind_char_pos` returns: the last occurrence, if any.
pub proof fn lemma_rfind_char_pos(s: Seq<char>, c: char)
    ensures
        ({
            let p = rfind_char_pos(s, c);
            &&& p == -1 ==> forall|j: int| 0 <= j < s.len() ==> s[j] != c
            &&& p != -1 ==> 0 <= p < s.len() && s[p] == c && forall|j: int|
                p < j < s.len() ==> s[j] != c
        }),
    decreases s.len(),
{
    if s.len() == 0 {
    } else if s.last() == c {
    } else {
        lemma_rfind_char_pos(s.drop_last(), c);
        let p = rfind_char_pos(s, c);
        if p != -1 {
            assert(s.drop_last()[p] == s[p]);
            assert forall|j: int| p < j < s.len() implies s[j] != c by {
                if j < s.len() - 1 {
                    assert(s[j] == s.drop_last()[j]);
                }
            }
        } else {
            assert forall|j: int| 0 <= j < s.len() implies s[j] != c by {
                if j < s.len() - 1 {
                    assert(s[j] == s.drop_last()[j]);
                }
            }
        }
    }
}

/// The first position at or after `from` where `pat` matches, or `-1`.
pub open spec fn find_sub_pos(s: Seq<char>, pat: Seq<char>, from: int) -> int
    decreases s.len() - from when 0 <= from
{
    if pat.len() == 0 {
        from
    } else if from + pat.len() > s.len() {
        -1
    } else if s.subrange(from, from + pat.len()) == pat {
        from
    } else {
        find_sub_pos(s, pat, from + 1)
    }
}

/// What `find_sub_pos` returns: the first match position, if any.
pub proof fn lemma_find_sub_pos(s: Seq<char>, pat: Seq<char>, from: int)
    requires
        0 <= from <= s.len(),
    ensures
        ({
            let p = find_sub_pos(s, pat, from);
            &&& p == -1 ==> forall|i: int|
                from <= i && i + pat.len() <= s.len() ==> #[trigger] s.subrange(
                    i,
                    i + pat.len(),
                ) != pat
            &&& p != -1 ==> from <= p && p + pat.len() <= s.len() && s.subrange(p, p + pat.len())
                == pat && forall|i: int|
                from <= i < p ==> #[trigger] s.subrange(i, i + pat.len()) != pat
        }),
    decreases s.len() - from,
{
    if pat.len() == 0 {
        assert(s.subrange(from, from + pat.len() as int) =~= pat);
    } else if from + pat.len() > s.len() {
    } else if s.subrange(from, from + pat.len()) == pat {
    } else {
        lemma_find_sub_pos(s, pat, from + 1);
    }
}

/// Find the first occurrence of `pat` in `h` at or after `from`.
pub fn find_sub_from(h: &Vec<char>, pat: &Vec<char>, from: usize) -> (r: Option<usize>)
    requires
        from <= h@.len(),
    ensures
        match r {
            Some(i) => find_sub_pos(h@, pat@, from as int) == i as int,
            None => find_sub_pos(h@, pat@, from as int) == -1,
        },
{
    if pat.len() == 0 {
        proof {
            assert(h@.subrange(from as int, from as int + pat@.len() as int) =~= pat@);
        }
        return Some(from);
    }
    if pat.len() > h.len() - from {
        proof {
            lemma_find_sub_pos(h@, pat@, from as int);
            assert(find_sub_pos(h@, pat@, from as int) == -1) by {
                if find_sub_pos(h@, pat@, from as int) != -1 {
                    assert(from as int + pat@.len() <= h@.len());
                }
            }
        }
        return None;
    }
    let bound = h.len() - pat.len();
    let mut i: usize = from;
    while i <= bound
        invariant
            from <= i <= bound + 1,
            bound == h@.len() - pat@.len(),
            1 <= pat@.len() <= h@.len(),
            h@.len() <= usize::MAX,
            find_sub_pos(h@, pat@, from as int) == find_sub_pos(h@, pat@, i as int),
        decreases bound + 1 - i,
    {
        if matches_at(h, pat, i) {
            return Some(i);
        }
        i = i + 1;
    }
    proof {
        assert(i as int + pat@.len() > h@.len());
    }
    None
}

/// `pat` replaced by `rep` from position `i` on, left to right and
/// without overlap.
pub open spec fn replace_from(s: Seq<char>, i: int, pat: Seq<char>, rep: Seq<char>) -> Seq<char>
    decreases s.len() - i when 0 <= i && 1 <= pat.len()
{
    if i >= s.len() {
        Seq::empty()
    } else if i + pat.len() <= s.len() && s.subrange(i, i + pat.len()) == pat {
        rep + replace_from(s, i + pat.len(), pat, rep)
    } else {
        seq![s[i]] + replace_from(s, i + 1, pat, rep)
    }
}

/// Every occurrence of `pat` replaced by `rep`, left to right.
pub open spec fn replace_seq(s: Seq<char>, pat: Seq<char>, rep: Seq<char>) -> Seq<char> {
    replace_from(s, 0, pat, rep)
}

/// Replace every occurrence of `pat` by `rep`.
pub fn replace_chars(v: &Vec<char>, pat: &Vec<char>, rep: &Vec<char>) -> (r: Vec<char>)
    requires
        pat@.len() >= 1,
    ensures
        r@ == replace_seq(v@, pat@, rep@),
{
    let mut out: Vec<char> = Vec::new();
    let mut i: usize = 0;
    while i < v.len()
        invariant
            i <= v@.len(),
            pat@.len() >= 1,
            replace_seq(v@, pat@, rep@) == out@ + replace_from(v@, i as int, pat@, rep@),
        decreases v@.len() - i,
    {
        let ghost pre = out@;
        let ghost i0 = i as int;
        if v.len() - i >= pat.len() && matches_at(v, pat, i) {
            append_chars(&mut out, rep);
            i = i + pat.len();
            proof {
                assert(pre + (rep@ + replace_from(v@, i as int, pat@, rep@)) =~= out@
                    + replace_from(v@, i as int, pat@, rep@));
            }
        } else {
            out.push(v[i]);
            i = i + 1;
            proof {
                assert(pre + (seq![v@[i0]] + replace_from(v@, i as int, pat@, rep@)) =~= out@
                    + replace_from(v@, i as int, pat@, rep@));
            }
        }
    }
    proof {
        assert(out@ + replace_from(v@, v@.len() as int, pat@, rep@) =~= out@);
    }
    out
}

/// Split on a separator, keeping empty pieces, from index `i` on.
pub open spec fn split_on_from(s: Seq<char>, start: int, i: int, sep: char) -> Seq<Seq<char>>
    decreases s.len() - i when 0 <= start <= i <= s.len()
{
    if i >= s.len() {
        seq![s.subrange(start, s.len() as int)]
    } else if s[i] == sep {
        seq![s.subrange(start, i)] + split_on_from(s, i + 1, i + 1, sep)
    } else {
        split_on_from(s, start, i + 1, sep)
    }
}

/// The pieces between separators, in order, empty pieces kept.
pub open spec fn split_on_char(s: Seq<char>, sep: char) -> Seq<Seq<char>> {
    split_on_from(s, 0, 0, sep)
}

/// Split on a separator character, keeping empty pieces.
pub fn split_chars_on(v: &Vec<char>, sep: char) -> (r: Vec<Vec<char>>)
    ensures
        r.deep_view() == split_on_char(v@, sep),
{
    let n = v.len();
    let mut pieces: Vec<Vec<char>> = Vec::new();
    let mut i: usize = 0;
    let mut start: usize = 0;
    while i < n
        invariant
            start <= i <= n,
            n == v@.len(),
            split_on_char(v@, sep) == pieces.deep_view() + split_on_from(
                v@,
                start as int,
                i as int,
                sep,
            ),
        decreases n - i,
    {
        let ghost pre = pieces.deep_view();
        let ghost i0 = i as int;
        let ghost start0 = start as int;
        if v[i] == sep {
            pieces.push(subvec(v, start, i));
            i = i + 1;
            start = i;
            proof {
                let sub = v@.subrange(start0, i0);
                let rest = split_on_from(v@, i0 + 1, i0 + 1, sep);
                assert(pieces.deep_view() =~~= pre.push(sub));
                assert(pre.push(sub) + rest =~~= pre + (seq![sub] + rest));
            }
        } else {
            i = i + 1;
        }
    }
    let ghost pre = pieces.deep_view();
    pieces.push(subvec(v, start, n));
    proof {
        let sub = v@.subrange(start as int, n as int);
        assert(pieces.deep_view() =~~= pre.push(sub));
        assert(pre.push(sub) =~~= pre + seq![sub]);
        assert(pieces.deep_view() =~~= split_on_char(v@, sep));
    }
    pieces
}

/// The sequence with every occurrence of `c` removed, over the first
/// `i` characters.
pub open spec fn drop_char_upto(s: Seq<char>, i: int, c: char) -> Seq<char>
    decreases i when 0 <= i <= s.len()
{
    if i <= 0 {
        Seq::empty()
    } else {
        let prev = drop_char_upto(s, i - 1, c);
        if s[i - 1] == c {
            prev
        } else {
            prev.push(s[i - 1])
        }
    }
}

/// The sequence with every occurrence of `c` removed.
pub open spec fn drop_char_seq(s: Seq<char>, c: char) -> Seq<char> {
    drop_char_upto(s, s.len() as int, c)
}

/// Remove every occurrence of one character.
pub fn drop_char(v: &Vec<char>, c: char) -> (r: Vec<char>)
    ensures
        r@ == drop_char_seq(v@, c),
{
    let mut out: Vec<char> = Vec::new();
    let mut i: usize = 0;
    while i < v.len()
        invariant
            i <= v@.len(),
            out@ == drop_char_upto(v@, i as int, c),
        decreases v@.len() - i,
    {
        if v[i] != c {
            out.push(v[i]);
        }
        i = i + 1;
    }
    out
}

/// The sequence with trailing occurrences of `c` removed.
pub open spec fn trim_end_char(s: Seq<char>, c: char) -> Seq<char>
    decreases s.len(),
{
    if s.len() > 0 && s.last() == c {
        trim_end_char(s.drop_last(), c)
    } else {
        s
    }
}

/// Remove trailing occurrences of one character.
pub fn trim_end_chars(v: &Vec<char>, c: char) -> (r: Vec<char>)
    ensures
        r@ == trim_end_char(v@, c),
{
    let n = v.len();
    proof {
        assert(v@.subrange(0, n as int) =~= v@);
    }
    let mut end: usize = n;
    while end > 0 && v[end - 1] == c
        invariant
            end <= n,
            n == v@.len(),
            trim_end_char(v@, c) == trim_end_char(v@.subrange(0, end as int), c),
        decreases end,
    {
        proof {
            let s = v@.subrange(0, end as int);
            assert(s.drop_last() =~= v@.subrange(0, end as int - 1));
        }
        end = end - 1;
    }
    proof {
        let s = v@.subrange(0, end as int);
        assert(trim_end_char(s, c) == s);
    }
    subvec(v, 0, end)
}

/// Membership of a string in a list, by characters.
pub fn contains_string(list: &Vec<String>, s: &str) -> (r: bool)
    ensures
        r == list.deep_view().contains(s@),
{
    let mut i: usize = 0;
    while i < list.len()
        invariant
            i <= list@.len(),
            list.deep_view().len() == list@.len(),
            forall|j: int| 0 <= j < list@.len() ==> list.deep_view()[j] == list@[j]@,
            forall|j: int| 0 <= j < i ==> list@[j]@ != s@,
        decreases list@.len() - i,
    {
        if str_eq(list[i].as_str(), s) {
            proof {
                assert(list.deep_view()[i as int] == s@);
            }
            return true;
        }
        i = i + 1;
    }
    proof {
        assert(forall|j: int| 0 <= j < list.deep_view().len() ==> list.deep_view()[j] != s@);
    }
    false
}

} // verus!
