//! The line scanner: an automaton that reads a document line by line,
//! gathers the front matter, and files the lines of fenced code blocks
//! under the language that their opening fence declares.
//!
//! At every line the scanner stands in one of three places: in the front
//! matter, in a code block of a known language, or outside both. `step`
//! says how a line moves it and what the line adds to what was gathered.

use crate::blocks::{entry, extended, opened, CodeBlocks, Language, Tag};
use crate::text::{
    append, contains, join_lines, line_views, lines, occurs_in, same_text, split_lines,
    starts_with, to_chars, trim, trimmed,
};
use vstd::prelude::*;

verus! {

/// Whether `line` is a front-matter delimiter: three hyphens and nothing
/// else but white space around them.
pub open spec fn is_delimiter(line: Seq<char>) -> bool {
    trimmed(line) == "---"@
}

/// Whether `line` is a fence line: its trimmed form begins with three
/// backticks. What follows them is not looked at.
pub open spec fn is_fence(line: Seq<char>) -> bool {
    "```"@.is_prefix_of(trimmed(line))
}

/// The language that `line` declares, if it holds the indicator of one.
/// Python is looked for first.
pub open spec fn language_of(line: Seq<char>) -> Tag {
    if occurs_in(Language::Python.indicator_text(), line) {
        Some(Language::Python)
    } else if occurs_in(Language::Rust.indicator_text(), line) {
        Some(Language::Rust)
    } else {
        None
    }
}

/// How far the scanner has come with the front matter.
#[derive(Clone, Copy, Debug, PartialEq, Eq, Structural)]
pub enum FrontMatter {
    /// No delimiter was read yet.
    Absent,
    /// The opening delimiter was read, the closing one not yet.
    Open,
    /// Both delimiters were read.
    Closed,
}

/// The state of the scanner as a mathematical value.
pub struct ScanState {
    /// How far the front matter has come.
    pub front_matter: FrontMatter,
    /// The language of the code block that the scanner is inside of.
    pub active: Tag,
    /// The lines of the front matter, each with a line feed.
    pub metadata: Seq<char>,
    /// The text gathered from code blocks, by tag.
    pub blocks: Map<Tag, Seq<char>>,
}

/// Where the scanner stands in the document.
#[derive(Clone, Copy, Debug, PartialEq, Eq, Structural)]
pub enum Position {
    /// Between the two delimiters of the front matter.
    InFrontMatter,
    /// Inside a fenced block of a known language.
    InCodeBlock(Language),
    /// Outside the front matter and outside any block.
    Outside,
}

/// Where the scanner stands in state `s`. The front matter comes first: a
/// block that it interrupts goes on after it.
pub open spec fn position_of(s: ScanState) -> Position {
    if s.front_matter is Open {
        Position::InFrontMatter
    } else {
        match s.active {
            Some(language) => Position::InCodeBlock(language),
            None => Position::Outside,
        }
    }
}

/// The state before any line was read.
pub open spec fn initial() -> ScanState {
    ScanState {
        front_matter: FrontMatter::Absent,
        active: None,
        metadata: Seq::empty(),
        blocks: Map::empty(),
    }
}

/// The state after `line` was read in state `s`.
///
/// The first delimiter opens the front matter and the second closes it; a
/// later one is a line like any other. Inside the front matter every line is
/// metadata. Elsewhere a fence line closes the block that is open, or, where
/// none is, opens one under the language it declares; with no known language
/// it only leaves an empty entry under the unknown tag. Any other line goes
/// to the open block, if there is one.
pub open spec fn step(s: ScanState, line: Seq<char>) -> ScanState {
    if is_delimiter(line) && s.front_matter is Absent {
        ScanState { front_matter: FrontMatter::Open, ..s }
    } else if is_delimiter(line) && s.front_matter is Open {
        ScanState { front_matter: FrontMatter::Closed, ..s }
    } else if s.front_matter is Open {
        ScanState { metadata: s.metadata + line + seq!['\n'], ..s }
    } else if is_fence(line) && s.active is Some {
        ScanState { active: None, ..s }
    } else if is_fence(line) {
        ScanState { active: language_of(line), blocks: opened(s.blocks, language_of(line)), ..s }
    } else if s.active is Some {
        ScanState { blocks: extended(s.blocks, s.active, line), ..s }
    } else {
        s
    }
}

/// The state after the lines `lines` were read, in order, from state `s`.
pub open spec fn run(s: ScanState, lines: Seq<Seq<char>>) -> ScanState
    decreases lines.len(),
{
    if lines.len() == 0 {
        s
    } else {
        step(run(s, lines.drop_last()), lines.last())
    }
}

/// The state after a whole document was read.
pub open spec fn scan(document: Seq<char>) -> ScanState {
    run(initial(), lines(document))
}

/// Whether a document has front matter: one of its lines is a delimiter.
pub open spec fn has_front_matter(document: Seq<char>) -> bool {
    exists|i: int| 0 <= i < lines(document).len() && is_delimiter(#[trigger] lines(document)[i])
}

/// Whether `line` is a front-matter delimiter.
pub fn delimiter_line(line: &Vec<char>) -> (r: bool)
    ensures
        r == is_delimiter(line@),
{
    let core = trim(line);
    let delimiter = to_chars("---");
    same_text(&core, &delimiter)
}

/// Whether `line` is a fence line.
pub fn fence_line(line: &Vec<char>) -> (r: bool)
    ensures
        r == is_fence(line@),
{
    let core = trim(line);
    let fence = to_chars("```");
    starts_with(&core, &fence)
}

/// The language that `line` declares.
pub fn declared_language(line: &Vec<char>) -> (r: Tag)
    ensures
        r == language_of(line@),
{
    let python = to_chars(Language::Python.indicator());
    let rust = to_chars(Language::Rust.indicator());
    if contains(line, &python) {
        Some(Language::Python)
    } else if contains(line, &rust) {
        Some(Language::Rust)
    } else {
        None
    }
}

/// The scanner. It is fed the lines of a document in order.
#[derive(Debug)]
pub struct Scanner {
    front_matter: FrontMatter,
    active: Tag,
    metadata: Vec<char>,
    blocks: CodeBlocks,
}

impl View for Scanner {
    type V = ScanState;

    closed spec fn view(&self) -> ScanState {
        ScanState {
            front_matter: self.front_matter,
            active: self.active,
            metadata: self.metadata@,
            blocks: self.blocks@,
        }
    }
}

impl Scanner {
    /// A scanner that has read nothing.
    pub fn new() -> (scanner: Scanner)
        ensures
            scanner@ == initial(),
    {
        Scanner {
            front_matter: FrontMatter::Absent,
            active: None,
            metadata: Vec::new(),
            blocks: CodeBlocks::new(),
        }
    }

    /// How far the front matter has come.
    pub fn front_matter(&self) -> (r: FrontMatter)
        ensures
            r == self@.front_matter,
    {
        self.front_matter
    }

    /// The language of the code block that the scanner is inside of.
    pub fn active(&self) -> (r: Tag)
        ensures
            r == self@.active,
    {
        self.active
    }

    /// Where the scanner stands.
    pub fn position(&self) -> (r: Position)
        ensures
            r == position_of(self@),
    {
        if self.front_matter == FrontMatter::Open {
            Position::InFrontMatter
        } else {
            match self.active {
                Some(language) => Position::InCodeBlock(language),
                None => Position::Outside,
            }
        }
    }

    /// Ends the scan and hands out what was gathered: how far the front
    /// matter came, its lines, and the code blocks.
    pub fn into_parts(self) -> (parts: (FrontMatter, Vec<char>, CodeBlocks))
        ensures
            parts.0 == self@.front_matter,
            parts.1@ == self@.metadata,
            parts.2@ == self@.blocks,
    {
        (self.front_matter, self.metadata, self.blocks)
    }

    /// Reads one line, given as its characters.
    pub fn feed_chars(&mut self, line: &Vec<char>)
        ensures
            final(self)@ == step(old(self)@, line@),
    {
        let delimiter = delimiter_line(line);
        if delimiter && self.front_matter == FrontMatter::Absent {
            self.front_matter = FrontMatter::Open;
        } else if delimiter && self.front_matter == FrontMatter::Open {
            self.front_matter = FrontMatter::Closed;
        } else if self.front_matter == FrontMatter::Open {
            append(&mut self.metadata, line);
            self.metadata.push('\n');
            assert(self.metadata@ == old(self).metadata@ + line@ + seq!['\n']);
        } else {
            let fence = fence_line(line);
            if fence && self.active.is_some() {
                self.active = None;
            } else if fence {
                let tag = declared_language(line);
                self.active = tag;
                self.blocks.open(tag);
            } else if self.active.is_some() {
                self.blocks.push_line(self.active, line);
            }
        }
    }

    /// Reads one line.
    pub fn feed_line(&mut self, line: &str)
        ensures
            final(self)@ == step(old(self)@, line@),
    {
        let chars = to_chars(line);
        self.feed_chars(&chars);
    }

    /// Reads the lines of `document`, in order.
    pub fn feed(&mut self, document: &str)
        ensures
            final(self)@ == run(old(self)@, lines(document@)),
    {
        let chars = to_chars(document);
        let all = split_lines(&chars);
        let mut i: usize = 0;
        while i < all.len()
            invariant
                i <= all.len(),
                line_views(all@) == lines(document@),
                self@ == run(old(self)@, lines(document@).take(i as int)),
            decreases all.len() - i,
        {
            assert(lines(document@).take(i + 1).drop_last() == lines(document@).take(i as int));
            self.feed_chars(&all[i]);
            i += 1;
        }
        assert(lines(document@).take(all.len() as int) == lines(document@));
    }
}

/// Reading one line is one step.
pub proof fn lemma_run_one(s: ScanState, line: Seq<char>)
    ensures
        run(s, seq![line]) == step(s, line),
{
    assert(seq![line].drop_last() == Seq::<Seq<char>>::empty());
    assert(run(s, seq![line].drop_last()) == s);
}

/// Reading two runs of lines one after the other is reading them as one.
pub proof fn lemma_run_append(s: ScanState, first: Seq<Seq<char>>, second: Seq<Seq<char>>)
    ensures
        run(s, first + second) == run(run(s, first), second),
    decreases second.len(),
{
    if second.len() == 0 {
        assert(first + second == first);
    } else {
        assert((first + second).drop_last() == first + second.drop_last());
        lemma_run_append(s, first, second.drop_last());
    }
}

/// A delimiter is no fence line.
pub proof fn lemma_delimiter_is_no_fence(line: Seq<char>)
    requires
        is_delimiter(line),
    ensures
        !is_fence(line),
{
    reveal_strlit("---");
    reveal_strlit("```");
    assert("---"@[0] != "```"@[0]);
}

/// The front matter is absent after a run exactly when it was absent
/// before and no line of the run is a delimiter.
pub proof fn lemma_front_matter_absent(s: ScanState, lines: Seq<Seq<char>>)
    ensures
        run(s, lines).front_matter is Absent <==> s.front_matter is Absent && forall|i: int|
            0 <= i < lines.len() ==> !is_delimiter(#[trigger] lines[i]),
    decreases lines.len(),
{
    if lines.len() > 0 {
        let head = lines.drop_last();
        lemma_front_matter_absent(s, head);
        if run(s, lines).front_matter is Absent {
            assert forall|i: int| 0 <= i < lines.len() implies !is_delimiter(
                #[trigger] lines[i],
            ) by {
                if i < head.len() {
                    assert(head[i] == lines[i]);
                }
            }
        } else if s.front_matter is Absent {
            if forall|i: int| 0 <= i < head.len() ==> !is_delimiter(#[trigger] head[i]) {
                assert(is_delimiter(lines[lines.len() - 1]));
            } else {
                let i = choose|i: int| 0 <= i < head.len() && is_delimiter(#[trigger] head[i]);
                assert(lines[i] == head[i]);
            }
        }
    }
}

/// The scan of a document finds front matter exactly when the document has
/// it.
pub proof fn lemma_front_matter_found(document: Seq<char>)
    ensures
        has_front_matter(document) <==> !(scan(document).front_matter is Absent),
{
    lemma_front_matter_absent(initial(), lines(document));
}

/// Inside the front matter, lines that are no delimiters are gathered as
/// metadata and change nothing else.
pub proof fn lemma_run_metadata(s: ScanState, lines: Seq<Seq<char>>)
    requires
        s.front_matter is Open,
        forall|i: int| 0 <= i < lines.len() ==> !is_delimiter(#[trigger] lines[i]),
    ensures
        run(s, lines) == (ScanState { metadata: s.metadata + join_lines(lines), ..s }),
    decreases lines.len(),
{
    if lines.len() == 0 {
        assert(s.metadata + join_lines(lines) == s.metadata);
    } else {
        let head = lines.drop_last();
        assert forall|i: int| 0 <= i < head.len() implies !is_delimiter(#[trigger] head[i]) by {
            assert(head[i] == lines[i]);
        }
        lemma_run_metadata(s, head);
        assert(!is_delimiter(lines[lines.len() - 1]));
        assert(s.metadata + join_lines(head) + lines.last() + seq!['\n'] == s.metadata
            + join_lines(lines));
    }
}

/// After the front matter and outside any block, lines that are no fence
/// lines change nothing.
pub proof fn lemma_run_outside(s: ScanState, lines: Seq<Seq<char>>)
    requires
        s.front_matter is Closed,
        s.active is None,
        forall|i: int| 0 <= i < lines.len() ==> !is_fence(#[trigger] lines[i]),
    ensures
        run(s, lines) == s,
    decreases lines.len(),
{
    if lines.len() > 0 {
        let head = lines.drop_last();
        assert forall|i: int| 0 <= i < head.len() implies !is_fence(#[trigger] head[i]) by {
            assert(head[i] == lines[i]);
        }
        lemma_run_outside(s, head);
        assert(!is_fence(lines[lines.len() - 1]));
    }
}

/// After the front matter and inside a block, lines that are no fence
/// lines are gathered under the language of the block and change nothing
/// else.
pub proof fn lemma_run_inside(s: ScanState, lines: Seq<Seq<char>>)
    requires
        s.front_matter is Closed,
        s.active is Some,
        s.blocks.contains_key(s.active),
        forall|i: int| 0 <= i < lines.len() ==> !is_fence(#[trigger] lines[i]),
    ensures
        run(s, lines) == (ScanState {
            blocks: s.blocks.insert(s.active, s.blocks[s.active] + join_lines(lines)),
            ..s
        }),
    decreases lines.len(),
{
    if lines.len() == 0 {
        assert(s.blocks[s.active] + join_lines(lines) == s.blocks[s.active]);
        assert(s.blocks.insert(s.active, s.blocks[s.active]) == s.blocks);
    } else {
        let head = lines.drop_last();
        assert forall|i: int| 0 <= i < head.len() implies !is_fence(#[trigger] head[i]) by {
            assert(head[i] == lines[i]);
        }
        lemma_run_inside(s, head);
        assert(!is_fence(lines[lines.len() - 1]));
        let before = run(s, head);
        assert(entry(before.blocks, s.active) + lines.last() + seq!['\n']
            == s.blocks[s.active] + join_lines(lines));
        assert(extended(before.blocks, s.active, lines.last()) == s.blocks.insert(
            s.active,
            s.blocks[s.active] + join_lines(lines),
        ));
    }
}

/// Whether a state can be met: the block that is open has an entry, the
/// entry of the unknown tag is empty, and the metadata is whole lines.
pub open spec fn is_sound(s: ScanState) -> bool {
    &&& s.active is Some ==> s.blocks.contains_key(s.active)
    &&& s.blocks.contains_key(None) ==> s.blocks[None] == Seq::<char>::empty()
    &&& s.metadata.len() > 0 ==> s.metadata.last() == '\n'
}

/// Every state that is met on the way through a document is sound.
pub proof fn lemma_run_sound(s: ScanState, lines: Seq<Seq<char>>)
    requires
        is_sound(s),
    ensures
        is_sound(run(s, lines)),
    decreases lines.len(),
{
    if lines.len() > 0 {
        lemma_run_sound(s, lines.drop_last());
    }
}

} // verus!
