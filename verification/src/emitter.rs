//! A generic, indentation-aware code emission layer: an explicit recursive
//! block tree and a deterministic, order-preserving renderer.
//!
//! A block owns an indentation depth, an optional header line and an
//! ordered list of entries; an entry is a literal line, a run of blank
//! lines, or a nested block. A block with a header renders as the header
//! followed by an opening delimiter at the block's own depth, its entries
//! one level deeper, and the closing delimiter again at the block's own
//! depth.

use vstd::prelude::*;
use vstd::string::StringExecFns;

verus! {

/// One entry of a block: a literal line, a run of blank lines, or a
/// nested block.
pub enum Entry {
    Line(String),
    Skip(usize),
    Sub(Block),
}

/// An indentation-aware block tree node.
pub struct Block {
    pub depth: u8,
    pub header: Option<String>,
    pub entries: Vec<Entry>,
}

/// A whole emitted artifact: an ordered list of entries rendered at
/// depth zero.
pub struct Codegen {
    pub entries: Vec<Entry>,
}

/// `n` space characters.
pub open spec fn spaces(n: nat) -> Seq<char>
    decreases n,
{
    if n == 0 {
        Seq::empty()
    } else {
        spaces((n - 1) as nat).push(' ')
    }
}

/// The indentation of a line at `depth`: two spaces per level.
pub open spec fn indent_of(depth: nat) -> Seq<char> {
    spaces(2 * depth)
}

/// One rendered line: indentation, content, newline.
pub open spec fn line_text(l: Seq<char>, depth: nat) -> Seq<char> {
    indent_of(depth) + l + seq!['\n']
}

/// `n` blank lines.
pub open spec fn blanks(n: nat) -> Seq<char>
    decreases n,
{
    if n == 0 {
        Seq::empty()
    } else {
        blanks((n - 1) as nat).push('\n')
    }
}

/// The text of one entry; literal lines and blank runs are rendered at
/// `depth`, a nested block at its own depth.
pub open spec fn entry_text(e: Entry, depth: nat) -> Seq<char>
    decreases e,
{
    match e {
        Entry::Line(l) => line_text(l@, depth),
        Entry::Skip(n) => blanks(n as nat),
        Entry::Sub(b) => block_text(b),
    }
}

/// The concatenated text of a list of entries.
pub open spec fn entries_text(es: Seq<Entry>, depth: nat) -> Seq<char>
    decreases es,
{
    if es.len() == 0 {
        Seq::empty()
    } else {
        entries_text(es.drop_last(), depth) + entry_text(es.last(), depth)
    }
}

/// The text of a block: with a header, the header plus an opening
/// delimiter at the block's depth, the entries one level deeper, and the
/// closing delimiter at the block's depth; without one, just the entries
/// at the block's depth.
pub open spec fn block_text(b: Block) -> Seq<char>
    decreases b,
{
    match b.header {
        Some(h) => line_text(h@ + seq![' ', '{'], b.depth as nat) + entries_text(
            b.entries@,
            b.depth as nat + 1,
        ) + line_text(seq!['}'], b.depth as nat),
        None => entries_text(b.entries@, b.depth as nat),
    }
}

/// The text of a whole artifact.
pub open spec fn codegen_text(es: Seq<Entry>) -> Seq<char> {
    entries_text(es, 0)
}

/// Appending an entry appends its text.
pub broadcast proof fn lemma_entries_text_push(es: Seq<Entry>, e: Entry, depth: nat)
    ensures
        #[trigger] entries_text(es.push(e), depth) == entries_text(es, depth) + entry_text(
            e,
            depth,
        ),
{
    assert(es.push(e).drop_last() =~= es);
    assert(es.push(e).last() == e);
}

impl Block {
    /// An empty block at `depth` with the given header.
    pub fn new(depth: u8, header: Option<&str>) -> (b: Block)
        ensures
            b.depth == depth,
            b.header is Some <==> header is Some,
            header is Some ==> b.header->0@ == header->0@,
            b.entries@ == Seq::<Entry>::empty(),
    {
        let h = match header {
            Some(s) => Some(String::from_str(s)),
            None => None,
        };
        Block { depth, header: h, entries: Vec::new() }
    }

    /// Appends a literal line.
    pub fn line(self, l: String) -> (r: Block)
        ensures
            r.depth == self.depth,
            r.header == self.header,
            r.entries@ == self.entries@.push(Entry::Line(l)),
    {
        let mut entries = self.entries;
        entries.push(Entry::Line(l));
        Block { depth: self.depth, header: self.header, entries }
    }

    /// Appends a literal line only when `cond` holds.
    pub fn line_cond(self, cond: bool, l: String) -> (r: Block)
        ensures
            r.depth == self.depth,
            r.header == self.header,
            cond ==> r.entries@ == self.entries@.push(Entry::Line(l)),
            !cond ==> r.entries@ == self.entries@,
    {
        if cond {
            self.line(l)
        } else {
            self
        }
    }

    /// Appends a run of `n` blank lines.
    pub fn line_skip(self, n: usize) -> (r: Block)
        ensures
            r.depth == self.depth,
            r.header == self.header,
            r.entries@ == self.entries@.push(Entry::Skip(n)),
    {
        let mut entries = self.entries;
        entries.push(Entry::Skip(n));
        Block { depth: self.depth, header: self.header, entries }
    }

    /// Appends a nested block.
    pub fn block(self, b: Block) -> (r: Block)
        ensures
            r.depth == self.depth,
            r.header == self.header,
            r.entries@ == self.entries@.push(Entry::Sub(b)),
    {
        let mut entries = self.entries;
        entries.push(Entry::Sub(b));
        Block { depth: self.depth, header: self.header, entries }
    }
}

impl Codegen {
    /// An empty artifact.
    pub fn new() -> (c: Codegen)
        ensures
            c.entries@ == Seq::<Entry>::empty(),
    {
        Codegen { entries: Vec::new() }
    }

    /// Appends a literal line.
    pub fn line(self, l: String) -> (r: Codegen)
        ensures
            r.entries@ == self.entries@.push(Entry::Line(l)),
    {
        let mut entries = self.entries;
        entries.push(Entry::Line(l));
        Codegen { entries }
    }

    /// Appends a run of `n` blank lines.
    pub fn line_skip(self, n: usize) -> (r: Codegen)
        ensures
            r.entries@ == self.entries@.push(Entry::Skip(n)),
    {
        let mut entries = self.entries;
        entries.push(Entry::Skip(n));
        Codegen { entries }
    }

    /// Appends a block.
    pub fn block(self, b: Block) -> (r: Codegen)
        ensures
            r.entries@ == self.entries@.push(Entry::Sub(b)),
    {
        let mut entries = self.entries;
        entries.push(Entry::Sub(b));
        Codegen { entries }
    }

    /// Renders the artifact: every entry in order, at depth zero.
    pub fn render(&self) -> (out: String)
        ensures
            out@ == codegen_text(self.entries@),
    {
        let mut out = String::new();
        let n = self.entries.len();
        let mut i: usize = 0;
        while i < n
            invariant
                n == self.entries@.len(),
                i <= n,
                out@ == entries_text(self.entries@.take(i as int), 0),
            decreases n - i,
        {
            proof {
                lemma_entries_text_push(self.entries@.take(i as int), self.entries@[i as int], 0);
                assert(self.entries@.take(i as int).push(self.entries@[i as int]) =~= self
                    .entries@
                    .take(i + 1));
            }
            render_entry(&mut out, &self.entries[i], 0);
            i = i + 1;
        }
        proof {
            assert(self.entries@.take(n as int) =~= self.entries@);
        }
        out
    }
}

/// Appends the indentation of `depth` to `out`.
fn push_indent(out: &mut String, depth: usize)
    ensures
        final(out)@ == old(out)@ + indent_of(depth as nat),
{
    proof {
        assert(out@ =~= old(out)@ + spaces(0));
    }
    let mut i: usize = 0;
    while i < depth
        invariant
            i <= depth,
            out@ == old(out)@ + spaces(2 * i as nat),
        decreases depth - i,
    {
        proof {
            reveal_strlit("  ");
            assert("  "@ =~= seq![' ', ' ']);
            assert(spaces((2 * i + 1) as nat) == spaces(2 * i as nat).push(' '));
            assert(spaces((2 * i + 2) as nat) == spaces((2 * i + 1) as nat).push(' '));
            assert((old(out)@ + spaces(2 * i as nat)) + "  "@ =~= old(out)@ + spaces(
                (2 * i + 2) as nat,
            ));
        }
        out.append("  ");
        i = i + 1;
    }
}

/// Appends one rendered line to `out`.
fn render_line(out: &mut String, l: &str, depth: usize)
    ensures
        final(out)@ == old(out)@ + line_text(l@, depth as nat),
{
    push_indent(out, depth);
    out.append(l);
    out.append("\n");
    proof {
        reveal_strlit("\n");
        assert(out@ =~= old(out)@ + line_text(l@, depth as nat));
    }
}

/// Appends `n` blank lines to `out`.
fn render_blanks(out: &mut String, n: usize)
    ensures
        final(out)@ == old(out)@ + blanks(n as nat),
{
    proof {
        assert(out@ =~= old(out)@ + blanks(0));
    }
    let mut i: usize = 0;
    while i < n
        invariant
            i <= n,
            out@ == old(out)@ + blanks(i as nat),
        decreases n - i,
    {
        proof {
            reveal_strlit("\n");
            assert("\n"@ =~= seq!['\n']);
            assert(blanks((i + 1) as nat) == blanks(i as nat).push('\n'));
            assert((old(out)@ + blanks(i as nat)) + "\n"@ =~= old(out)@ + blanks((i + 1) as nat));
        }
        out.append("\n");
        i = i + 1;
    }
}

/// Appends the text of one entry to `out`.
fn render_entry(out: &mut String, e: &Entry, depth: usize)
    ensures
        final(out)@ == old(out)@ + entry_text(*e, depth as nat),
    decreases *e,
{
    match e {
        Entry::Line(l) => {
            render_line(out, l.as_str(), depth);
        },
        Entry::Skip(n) => {
            render_blanks(out, *n);
        },
        Entry::Sub(b) => {
            render_block(out, b);
        },
    }
}

/// Appends the text of one block to `out`.
fn render_block(out: &mut String, b: &Block)
    ensures
        final(out)@ == old(out)@ + block_text(*b),
    decreases *b,
{
    match &b.header {
        Some(h) => {
            push_indent(out, b.depth as usize);
            out.append(h.as_str());
            out.append(" {\n");
            proof {
                reveal_strlit(" {\n");
                assert(out@ =~= old(out)@ + line_text(b.header->0@ + seq![' ', '{'], b.depth as nat));
            }
        },
        None => {},
    }
    let inner_depth: usize = if matches!(&b.header, Some(_)) {
        b.depth as usize + 1
    } else {
        b.depth as usize
    };
    let ghost prefix = out@;
    let ghost inner = inner_depth as nat;
    let n = b.entries.len();
    let mut i: usize = 0;
    while i < n
        invariant
            n == b.entries@.len(),
            i <= n,
            out@ == prefix + entries_text(b.entries@.take(i as int), inner),
            inner == inner_depth as nat,
        decreases n - i,
    {
        proof {
            assert(decreases_to!(b.entries@ => b.entries@[i as int]));
            lemma_entries_text_push(b.entries@.take(i as int), b.entries@[i as int], inner);
            assert(b.entries@.take(i as int).push(b.entries@[i as int]) =~= b.entries@.take(
                i + 1,
            ));
            assert(out@ + entry_text(b.entries@[i as int], inner) =~= prefix + entries_text(
                b.entries@.take(i + 1),
                inner,
            ));
        }
        render_entry(out, &b.entries[i], inner_depth);
        i = i + 1;
    }
    proof {
        assert(b.entries@.take(n as int) =~= b.entries@);
    }
    match &b.header {
        Some(_) => {
            push_indent(out, b.depth as usize);
            out.append("}\n");
            proof {
                reveal_strlit("}\n");
                assert(out@ =~= old(out)@ + block_text(*b));
            }
        },
        None => {
            proof {
                assert(out@ =~= old(out)@ + block_text(*b));
            }
        },
    }
}


/// Occurrences of the character `c` in `s`.
pub open spec fn char_count(s: Seq<char>, c: char) -> nat
    decreases s.len(),
{
    if s.len() == 0 {
        0
    } else {
        char_count(s.drop_last(), c) + (if s.last() == c {
            1nat
        } else {
            0nat
        })
    }
}

/// A character sequence with as many `{` as `}`.
pub open spec fn balanced(s: Seq<char>) -> bool {
    char_count(s, '{') == char_count(s, '}')
}

/// Counting a character distributes over concatenation.
pub broadcast proof fn lemma_char_count_concat(a: Seq<char>, b: Seq<char>, c: char)
    ensures
        #[trigger] char_count(a + b, c) == char_count(a, c) + char_count(b, c),
    decreases b.len(),
{
    if b.len() == 0 {
        assert(a + b =~= a);
    } else {
        assert((a + b).drop_last() =~= a + b.drop_last());
        lemma_char_count_concat(a, b.drop_last(), c);
    }
}

/// Counting a character in a singleton sequence.
pub proof fn lemma_char_count_single(x: char, c: char)
    ensures
        char_count(seq![x], c) == if x == c {
            1nat
        } else {
            0nat
        },
{
    assert(seq![x].drop_last() =~= Seq::<char>::empty());
    assert(char_count(Seq::<char>::empty(), c) == 0);
    assert(seq![x].last() == x);
}

/// Indentation holds no braces.
proof fn lemma_char_count_spaces(n: nat, c: char)
    requires
        c != ' ',
    ensures
        char_count(spaces(n), c) == 0,
    decreases n,
{
    if n > 0 {
        lemma_char_count_spaces((n - 1) as nat, c);
        assert(spaces(n).drop_last() =~= spaces((n - 1) as nat));
    }
}

/// Blank runs hold no braces.
pub proof fn lemma_char_count_blanks(n: nat, c: char)
    requires
        c != '\n',
    ensures
        char_count(blanks(n), c) == 0,
    decreases n,
{
    if n > 0 {
        lemma_char_count_blanks((n - 1) as nat, c);
        assert(blanks(n).drop_last() =~= blanks((n - 1) as nat));
    }
}

/// A rendered line holds exactly the braces of its content.
pub proof fn lemma_char_count_line(l: Seq<char>, d: nat, c: char)
    requires
        c != ' ',
        c != '\n',
    ensures
        char_count(line_text(l, d), c) == char_count(l, c),
{
    broadcast use lemma_char_count_concat;

    lemma_char_count_spaces(2 * d, c);
    lemma_char_count_single('\n', c);
}

/// Every literal line and every header of the entry is brace-balanced.
pub open spec fn entry_lines_balanced(e: Entry) -> bool
    decreases e,
{
    match e {
        Entry::Line(l) => balanced(l@),
        Entry::Skip(_) => true,
        Entry::Sub(b) => block_lines_balanced(b),
    }
}

/// Every literal line and every header of the entries is brace-balanced.
pub open spec fn entries_lines_balanced(es: Seq<Entry>) -> bool
    decreases es,
{
    if es.len() == 0 {
        true
    } else {
        entries_lines_balanced(es.drop_last()) && entry_lines_balanced(es.last())
    }
}

/// Every literal line and every header of the block is brace-balanced.
pub open spec fn block_lines_balanced(b: Block) -> bool
    decreases b,
{
    (match b.header {
        Some(h) => balanced(h@),
        None => true,
    }) && entries_lines_balanced(b.entries@)
}

/// Rendered output of one entry has matching open and close delimiters,
/// provided its own lines are balanced.
pub proof fn lemma_entry_text_balanced(e: Entry, d: nat)
    requires
        entry_lines_balanced(e),
    ensures
        balanced(entry_text(e, d)),
    decreases e,
{
    match e {
        Entry::Line(l) => {
            lemma_char_count_line(l@, d, '{');
            lemma_char_count_line(l@, d, '}');
        },
        Entry::Skip(n) => {
            lemma_char_count_blanks(n as nat, '{');
            lemma_char_count_blanks(n as nat, '}');
        },
        Entry::Sub(b) => {
            lemma_block_text_balanced(b);
        },
    }
}

/// Rendered output of an entry list has matching open and close
/// delimiters, provided its lines are balanced.
pub proof fn lemma_entries_text_balanced(es: Seq<Entry>, d: nat)
    requires
        entries_lines_balanced(es),
    ensures
        balanced(entries_text(es, d)),
    decreases es,
{
    broadcast use lemma_char_count_concat;

    if es.len() > 0 {
        lemma_entries_text_balanced(es.drop_last(), d);
        lemma_entry_text_balanced(es.last(), d);
    }
}

/// Rendered output of a block has matching open and close delimiters,
/// provided its lines are balanced: a headed block contributes exactly
/// one opening and one closing delimiter of its own.
pub proof fn lemma_block_text_balanced(b: Block)
    requires
        block_lines_balanced(b),
    ensures
        balanced(block_text(b)),
    decreases b,
{
    broadcast use lemma_char_count_concat;

    lemma_entries_text_balanced(b.entries@, b.depth as nat + 1);
    lemma_entries_text_balanced(b.entries@, b.depth as nat);
    match b.header {
        Some(h) => {
            lemma_char_count_line(h@ + seq![' ', '{'], b.depth as nat, '{');
            lemma_char_count_line(h@ + seq![' ', '{'], b.depth as nat, '}');
            lemma_char_count_line(seq!['}'], b.depth as nat, '{');
            lemma_char_count_line(seq!['}'], b.depth as nat, '}');
            lemma_char_count_single('{', '{');
            lemma_char_count_single('{', '}');
            lemma_char_count_single(' ', '{');
            lemma_char_count_single(' ', '}');
            lemma_char_count_single('}', '{');
            lemma_char_count_single('}', '}');
            assert(h@ + seq![' ', '{'] =~= (h@ + seq![' ']) + seq!['{']);
        },
        None => {},
    }
}

/// For every artifact whose literal lines and block headers are
/// brace-balanced, the rendered output has 1:1 matching open and close
/// block delimiters.
pub proof fn lemma_render_balanced(es: Seq<Entry>)
    requires
        entries_lines_balanced(es),
    ensures
        balanced(codegen_text(es)),
{
    lemma_entries_text_balanced(es, 0);
}

} // verus!

