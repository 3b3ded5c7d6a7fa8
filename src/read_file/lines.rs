//! One line of a file as the tool sees it: decoded, measured, classified
//! and shown with its number.
use crate::text::{
    decimal, decode_chars, lossy_utf8, push_all, push_decimal, take_bytes_at_char_boundary,
    truncate_utf8,
};
use vstd::prelude::*;

verus! {

/// Longest line, in bytes of UTF-8, shown before it is cut.
pub const MAX_LINE_LENGTH: usize = 500;

/// Columns that a tab counts for when measuring indentation.
pub const TAB_WIDTH: usize = 4;

/// The number of leading characters of `s` that satisfy `p`.
pub open spec fn leading_count(s: Seq<char>, p: spec_fn(char) -> bool) -> nat
    decreases s.len(),
{
    if s.len() == 0 || !p(s[0]) {
        0
    } else {
        1 + leading_count(s.drop_first(), p)
    }
}

proof fn lemma_leading_count(s: Seq<char>, p: spec_fn(char) -> bool, n: int)
    requires
        0 <= n <= s.len(),
        forall|j: int| 0 <= j < n ==> p(#[trigger] s[j]),
        n == s.len() || !p(s[n]),
    ensures
        leading_count(s, p) == n,
    decreases n,
{
    if n > 0 {
        let t = s.drop_first();
        assert forall|j: int| 0 <= j < n - 1 implies p(#[trigger] t[j]) by {
            assert(t[j] == s[j + 1]);
        }
        if n < s.len() {
            assert(t[n - 1] == s[n]);
        }
        lemma_leading_count(t, p, n - 1);
    }
}

/// Unicode's White_Space characters, which `str::trim_start` removes.
pub open spec fn is_white_space(c: char) -> bool {
    ('\u{9}' <= c && c <= '\u{d}') || c == ' ' || c == '\u{85}' || c == '\u{a0}' || c == '\u{1680}'
        || ('\u{2000}' <= c && c <= '\u{200a}') || c == '\u{2028}' || c == '\u{2029}' || c
        == '\u{202f}' || c == '\u{205f}' || c == '\u{3000}'
}

fn white_space(c: char) -> (r: bool)
    ensures
        r == is_white_space(c),
{
    ('\u{9}' <= c && c <= '\u{d}') || c == ' ' || c == '\u{85}' || c == '\u{a0}' || c == '\u{1680}'
        || ('\u{2000}' <= c && c <= '\u{200a}') || c == '\u{2028}' || c == '\u{2029}' || c
        == '\u{202f}' || c == '\u{205f}' || c == '\u{3000}'
}

/// `s` without its leading white space.
pub open spec fn trim_start(s: Seq<char>) -> Seq<char> {
    s.subrange(leading_count(s, |c: char| is_white_space(c)) as int, s.len() as int)
}

/// How far the leading white space of `s` reaches, given where it stops.
pub(crate) proof fn lemma_leading_white_space(s: Seq<char>, n: int)
    requires
        0 <= n <= s.len(),
        forall|j: int| 0 <= j < n ==> is_white_space(#[trigger] s[j]),
        n == s.len() || !is_white_space(s[n]),
    ensures
        leading_count(s, |c: char| is_white_space(c)) == n,
{
    lemma_leading_count(s, |c: char| is_white_space(c), n);
}

/// A space or a tab: the characters that indentation is made of.
pub open spec fn is_indent_char(c: char) -> bool {
    c == ' ' || c == '\t'
}

/// The columns that the first `n` characters of `s` take, a tab counting
/// `TAB_WIDTH` and anything else one.
pub open spec fn columns(s: Seq<char>, n: int) -> nat
    decreases n,
{
    if n <= 0 {
        0
    } else {
        columns(s, n - 1) + if s[n - 1] == '\t' {
            TAB_WIDTH as nat
        } else {
            1
        }
    }
}

/// The indentation of a line: the columns of its leading spaces and tabs.
pub open spec fn indent_of(s: Seq<char>) -> nat {
    columns(s, leading_count(s, |c: char| is_indent_char(c)) as int)
}

/// The indentation of a line, saturated at `usize::MAX`.
pub fn measure_indent(line: &[char]) -> (r: usize)
    ensures
        r as nat == if indent_of(line@) <= usize::MAX as nat {
            indent_of(line@)
        } else {
            usize::MAX as nat
        },
{
    let mut total: usize = 0;
    let mut i: usize = 0;
    while i < line.len() && (line[i] == ' ' || line[i] == '\t')
        invariant
            i <= line@.len(),
            forall|j: int| 0 <= j < i ==> is_indent_char(#[trigger] line@[j]),
            total as nat == if columns(line@, i as int) <= usize::MAX as nat {
                columns(line@, i as int)
            } else {
                usize::MAX as nat
            },
        decreases line@.len() - i,
    {
        let w: usize = if line[i] == '\t' {
            TAB_WIDTH
        } else {
            1
        };
        total = total.saturating_add(w);
        i = i + 1;
    }
    proof {
        lemma_leading_count(line@, |c: char| is_indent_char(c), i as int);
    }
    total
}

/// How far the leading white space of `s` reaches.
fn trim_start_index(s: &[char]) -> (r: usize)
    ensures
        r == leading_count(s@, |c: char| is_white_space(c)),
        r <= s@.len(),
{
    let mut i: usize = 0;
    while i < s.len() && white_space(s[i])
        invariant
            i <= s@.len(),
            forall|j: int| 0 <= j < i ==> is_white_space(#[trigger] s@[j]),
        decreases s@.len() - i,
    {
        i = i + 1;
    }
    proof {
        lemma_leading_count(s@, |c: char| is_white_space(c), i as int);
    }
    i
}

/// Whether `t` starts with `p`.
pub open spec fn starts_with(t: Seq<char>, p: Seq<char>) -> bool {
    p.len() <= t.len() && t.subrange(0, p.len() as int) == p
}

fn has_prefix(t: &[char], p: &[char]) -> (r: bool)
    ensures
        r == starts_with(t@, p@),
{
    if p.len() > t.len() {
        return false;
    }
    let mut i: usize = 0;
    while i < p.len()
        invariant
            p@.len() <= t@.len(),
            i <= p@.len(),
            forall|j: int| 0 <= j < i ==> t@[j] == p@[j],
        decreases p@.len() - i,
    {
        if t[i] != p[i] {
            assert(t@.subrange(0, p@.len() as int)[i as int] != p@[i as int]);
            return false;
        }
        i = i + 1;
    }
    assert(t@.subrange(0, p@.len() as int) =~= p@);
    true
}

/// Whether a trimmed line opens with a doc comment, an attribute, a
/// decorator or a docstring: lines that belong to the block below them.
pub open spec fn header_like(t: Seq<char>) -> bool {
    starts_with(t, seq!['/', '/', '/']) || starts_with(t, seq!['/', '/', '!']) || starts_with(
        t,
        seq!['/', '*', '*'],
    ) || starts_with(t, seq!['/', '*', '!']) || starts_with(t, seq!['#', '[']) || starts_with(
        t,
        seq!['#', '!'],
    ) || starts_with(t, seq!['@']) || starts_with(t, seq!['"', '"', '"']) || starts_with(
        t,
        seq!['\'', '\'', '\''],
    )
}

/// Whether a trimmed line closes a block: it opens with a closing bracket,
/// or is the word `end`, alone or followed by a space.
pub open spec fn closing_line(t: Seq<char>) -> bool {
    t.len() > 0 && (t[0] == '}' || t[0] == ']' || t[0] == ')' || starts_with(
        t,
        seq!['e', 'n', 'd', ' '],
    ) || t == seq!['e', 'n', 'd'])
}

fn header_like_chars(t: &[char]) -> (r: bool)
    ensures
        r == header_like(t@),
{
    let doc_outer = vec!['/', '/', '/'];
    let doc_inner = vec!['/', '/', '!'];
    let block_doc = vec!['/', '*', '*'];
    let block_doc_inner = vec!['/', '*', '!'];
    let attribute = vec!['#', '['];
    let inner_attribute = vec!['#', '!'];
    let decorator = vec!['@'];
    let docstring = vec!['"', '"', '"'];
    let quoted_docstring = vec!['\'', '\'', '\''];
    assert(doc_outer@ =~= seq!['/', '/', '/']);
    assert(doc_inner@ =~= seq!['/', '/', '!']);
    assert(block_doc@ =~= seq!['/', '*', '*']);
    assert(block_doc_inner@ =~= seq!['/', '*', '!']);
    assert(attribute@ =~= seq!['#', '[']);
    assert(inner_attribute@ =~= seq!['#', '!']);
    assert(decorator@ =~= seq!['@']);
    assert(docstring@ =~= seq!['"', '"', '"']);
    assert(quoted_docstring@ =~= seq!['\'', '\'', '\'']);
    has_prefix(t, doc_outer.as_slice()) || has_prefix(t, doc_inner.as_slice()) || has_prefix(t, block_doc.as_slice())
        || has_prefix(t, block_doc_inner.as_slice()) || has_prefix(t, attribute.as_slice()) || has_prefix(
        t,
        inner_attribute.as_slice(),
    ) || has_prefix(t, decorator.as_slice()) || has_prefix(t, docstring.as_slice()) || has_prefix(
        t,
        quoted_docstring.as_slice(),
    )
}

/// Whether a trimmed line opens with a doc comment, an attribute, a
/// decorator or a docstring.
pub fn is_header_like(trimmed: &str) -> (r: bool)
    ensures
        r == header_like(trimmed@),
{
    let t = crate::text::chars_of(trimmed);
    header_like_chars(t.as_slice())
}

/// Whether a trimmed line closes a block.
pub fn is_closing_line(trimmed: &[char]) -> (r: bool)
    ensures
        r == closing_line(trimmed@),
{
    if trimmed.len() == 0 {
        return false;
    }
    let c = trimmed[0];
    if c == '}' || c == ']' || c == ')' {
        return true;
    }
    let word = vec!['e', 'n', 'd', ' '];
    assert(word@ =~= seq!['e', 'n', 'd', ' ']);
    if has_prefix(trimmed, word.as_slice()) {
        return true;
    }
    let end = vec!['e', 'n', 'd'];
    assert(end@ =~= seq!['e', 'n', 'd']);
    let r = trimmed.len() == 3 && has_prefix(trimmed, end.as_slice());
    proof {
        if trimmed@ == seq!['e', 'n', 'd'] {
            assert(trimmed@.subrange(0, 3) =~= trimmed@);
        }
        if r {
            assert(trimmed@.subrange(0, 3) =~= trimmed@);
        }
    }
    r
}

/// What a line shows: its text, cut to `MAX_LINE_LENGTH` bytes.
pub open spec fn display_of(bytes: Seq<u8>) -> Seq<char> {
    truncate_utf8(lossy_utf8(bytes), MAX_LINE_LENGTH as nat)
}

/// The text of a line as shown: decoded, invalid bytes replaced, cut to
/// `MAX_LINE_LENGTH` bytes at a character boundary.
pub fn format_line(bytes: &[u8]) -> (r: Vec<char>)
    ensures
        r@ == display_of(bytes@),
{
    let decoded = decode_chars(bytes);
    take_bytes_at_char_boundary(decoded.as_slice(), MAX_LINE_LENGTH)
}

/// `L<n>: <text>`: a line as the tool shows it.
pub open spec fn numbered(n: nat, text: Seq<char>) -> Seq<char> {
    seq!['L'] + decimal(n) + seq![':', ' '] + text
}

pub(crate) fn numbered_chars(n: usize, text: &[char]) -> (r: Vec<char>)
    ensures
        r@ == numbered(n as nat, text@),
{
    let mut out: Vec<char> = Vec::new();
    out.push('L');
    push_decimal(&mut out, n);
    out.push(':');
    out.push(' ');
    push_all(&mut out, text);
    assert(out@ =~= numbered(n as nat, text@));
    out
}

/// Drops the line ending that reading left on a line: a final `\n`, and a
/// `\r` before it.
pub fn trim_line_ending(line: &mut Vec<u8>)
    ensures
        final(line)@ == if old(line)@.len() > 0 && old(line)@.last() == 10u8 {
            let l = old(line)@.drop_last();
            if l.len() > 0 && l.last() == 13u8 {
                l.drop_last()
            } else {
                l
            }
        } else {
            old(line)@
        },
{
    if line.len() > 0 && line[line.len() - 1] == 10u8 {
        line.pop();
        if line.len() > 0 && line[line.len() - 1] == 13u8 {
            line.pop();
        }
    }
}

fn copy_from(s: &[char], from: usize) -> (r: Vec<char>)
    requires
        from <= s@.len(),
    ensures
        r@ == s@.subrange(from as int, s@.len() as int),
{
    let mut out: Vec<char> = Vec::new();
    let mut i: usize = from;
    while i < s.len()
        invariant
            from <= i <= s@.len(),
            out@ == s@.subrange(from as int, i as int),
        decreases s@.len() - i,
    {
        out.push(s[i]);
        assert(out@ =~= s@.subrange(from as int, i + 1));
        i = i + 1;
    }
    out
}

/// One line of a file, as the block search sees it.
pub struct LineRecord {
    /// Its 1-based line number.
    pub number: usize,
    /// Its decoded text.
    pub raw: Vec<char>,
    /// What is shown of it.
    pub display: Vec<char>,
    /// Its indentation, in columns.
    pub indent: usize,
}

/// The line holds only white space.
pub open spec fn blank(r: LineRecord) -> bool {
    trim_start(r.raw@).len() == 0
}

/// The line opens with a header such as a doc comment or an attribute.
pub open spec fn header(r: LineRecord) -> bool {
    header_like(trim_start(r.raw@))
}

/// The line closes a block.
pub open spec fn closing(r: LineRecord) -> bool {
    closing_line(trim_start(r.raw@))
}

/// What the block search knows of a line.
pub struct LineShape {
    pub blank: bool,
    pub header: bool,
    pub closing: bool,
    pub indent: usize,
}

/// The indentation of a text, saturated at `usize::MAX`.
pub open spec fn saturated_indent(raw: Seq<char>) -> usize {
    if indent_of(raw) <= usize::MAX as nat {
        indent_of(raw) as usize
    } else {
        usize::MAX
    }
}

/// The shape of a line with text `raw`.
pub open spec fn shape_of_text(raw: Seq<char>) -> LineShape {
    LineShape {
        blank: trim_start(raw).len() == 0,
        header: header_like(trim_start(raw)),
        closing: closing_line(trim_start(raw)),
        indent: saturated_indent(raw),
    }
}

/// The shapes of the records.
pub open spec fn shapes(recs: Seq<LineRecord>) -> Seq<LineShape> {
    recs.map_values(|r: LineRecord| LineShape { blank: blank(r), header: header(r), closing: closing(r), indent: r.indent })
}

/// The shapes of a file's lines.
pub open spec fn line_shapes(lines: Seq<Vec<u8>>) -> Seq<LineShape> {
    lines.map_values(|b: Vec<u8>| shape_of_text(lossy_utf8(b@)))
}

impl LineRecord {
    /// The text without its leading white space.
    pub fn trimmed(&self) -> (r: Vec<char>)
        ensures
            r@ == trim_start(self.raw@),
    {
        let k = trim_start_index(self.raw.as_slice());
        copy_from(self.raw.as_slice(), k)
    }

    /// Whether the line holds only white space.
    pub fn is_blank(&self) -> (r: bool)
        ensures
            r == blank(*self),
    {
        trim_start_index(self.raw.as_slice()) == self.raw.len()
    }

    /// Whether the line opens with a header.
    pub fn is_header_like(&self) -> (r: bool)
        ensures
            r == header(*self),
    {
        let t = self.trimmed();
        header_like_chars(t.as_slice())
    }
}

/// The records of a file's lines, numbered from 1.
pub fn collect_file_lines(lines: &Vec<Vec<u8>>) -> (r: Vec<LineRecord>)
    ensures
        r@.len() == lines@.len(),
        forall|i: int|
            0 <= i < r@.len() ==> {
                &&& #[trigger] r@[i].number == i + 1
                &&& r@[i].raw@ == lossy_utf8(lines@[i]@)
                &&& r@[i].display@ == display_of(lines@[i]@)
                &&& r@[i].indent as nat == if indent_of(r@[i].raw@) <= usize::MAX as nat {
                    indent_of(r@[i].raw@)
                } else {
                    usize::MAX as nat
                }
            },
{
    let mut out: Vec<LineRecord> = Vec::new();
    let mut i: usize = 0;
    while i < lines.len()
        invariant
            i <= lines@.len(),
            out@.len() == i,
            forall|j: int|
                0 <= j < i ==> {
                    &&& #[trigger] out@[j].number == j + 1
                    &&& out@[j].raw@ == lossy_utf8(lines@[j]@)
                    &&& out@[j].display@ == display_of(lines@[j]@)
                    &&& out@[j].indent as nat == if indent_of(out@[j].raw@) <= usize::MAX as nat {
                        indent_of(out@[j].raw@)
                    } else {
                        usize::MAX as nat
                    }
                },
        decreases lines@.len() - i,
    {
        let raw = decode_chars(lines[i].as_slice());
        let indent = measure_indent(raw.as_slice());
        let display = format_line(lines[i].as_slice());
        out.push(LineRecord { number: i + 1, raw, display, indent });
        i = i + 1;
    }
    out
}


} // verus!
