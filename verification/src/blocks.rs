//! Languages of fenced code blocks and the map from a block's tag to the
//! source text gathered under it.

use crate::text::{append, to_string};
use vstd::prelude::*;

verus! {

/// A language whose fenced blocks are written out as source files.
#[derive(Clone, Copy, Debug, PartialEq, Eq, Structural)]
pub enum Language {
    Python,
    Rust,
}

impl Language {
    /// The text that an opening fence line holds to declare this language.
    pub open spec fn indicator_text(self) -> Seq<char> {
        match self {
            Language::Python => "python"@,
            Language::Rust => "rust"@,
        }
    }

    /// The extension of the files written for this language.
    pub open spec fn extension_text(self) -> Seq<char> {
        match self {
            Language::Python => "py"@,
            Language::Rust => "rs"@,
        }
    }

    /// The text that an opening fence line holds to declare this language.
    pub fn indicator(&self) -> (r: &'static str)
        ensures
            r@ == self.indicator_text(),
    {
        match self {
            Language::Python => "python",
            Language::Rust => "rust",
        }
    }

    /// The extension of the files written for this language.
    pub fn extension(&self) -> (r: &'static str)
        ensures
            r@ == self.extension_text(),
    {
        match self {
            Language::Python => "py",
            Language::Rust => "rs",
        }
    }
}

/// The tag of a fenced block: its language, or `None` where the opening
/// fence declared no language that is known.
pub type Tag = Option<Language>;

/// The file extension that a tag maps to. An unknown tag maps to none, so
/// nothing is written for it.
pub open spec fn extension_of(tag: Tag) -> Option<Seq<char>> {
    match tag {
        Some(language) => Some(language.extension_text()),
        None => None,
    }
}

/// The text gathered under `tag` so far: empty where the map has no entry.
pub open spec fn entry(blocks: Map<Tag, Seq<char>>, tag: Tag) -> Seq<char> {
    if blocks.contains_key(tag) {
        blocks[tag]
    } else {
        Seq::empty()
    }
}

/// The map with an entry for `tag`: the one it had, or an empty one.
pub open spec fn opened(blocks: Map<Tag, Seq<char>>, tag: Tag) -> Map<Tag, Seq<char>> {
    blocks.insert(tag, entry(blocks, tag))
}

/// The map after `line` and a line feed were added to the entry of `tag`.
pub open spec fn extended(blocks: Map<Tag, Seq<char>>, tag: Tag, line: Seq<char>) -> Map<
    Tag,
    Seq<char>,
> {
    blocks.insert(tag, entry(blocks, tag) + line + seq!['\n'])
}

/// The source text gathered from a document, by tag.
#[derive(Debug, PartialEq, Eq)]
pub struct CodeBlocks {
    python: Option<Vec<char>>,
    rust: Option<Vec<char>>,
    unknown: Option<Vec<char>>,
}

/// One slot of the map as a map of its own.
pub open spec fn slot(tag: Tag, text: Option<Vec<char>>) -> Map<Tag, Seq<char>> {
    match text {
        Some(text) => Map::empty().insert(tag, text@),
        None => Map::empty(),
    }
}

impl View for CodeBlocks {
    type V = Map<Tag, Seq<char>>;

    closed spec fn view(&self) -> Map<Tag, Seq<char>> {
        slot(Some(Language::Python), self.python).union_prefer_right(
            slot(Some(Language::Rust), self.rust),
        ).union_prefer_right(slot(None, self.unknown))
    }
}

impl CodeBlocks {
    /// The map without entries.
    pub fn new() -> (blocks: CodeBlocks)
        ensures
            blocks@ == Map::<Tag, Seq<char>>::empty(),
    {
        let blocks = CodeBlocks { python: None, rust: None, unknown: None };
        assert(blocks@ =~= Map::<Tag, Seq<char>>::empty());
        blocks
    }

    /// Whether the map has an entry for `tag`.
    pub fn contains(&self, tag: Tag) -> (r: bool)
        ensures
            r == self@.contains_key(tag),
    {
        match tag {
            Some(Language::Python) => self.python.is_some(),
            Some(Language::Rust) => self.rust.is_some(),
            None => self.unknown.is_some(),
        }
    }

    /// The text gathered under `tag`, if the map has an entry for it.
    pub fn text(&self, tag: Tag) -> (r: Option<String>)
        ensures
            r is Some == self@.contains_key(tag),
            r matches Some(text) ==> text@ == self@[tag],
    {
        let held = match tag {
            Some(Language::Python) => &self.python,
            Some(Language::Rust) => &self.rust,
            None => &self.unknown,
        };
        match held {
            Some(text) => Some(to_string(text)),
            None => None,
        }
    }

    /// Gives `tag` an entry if it has none. An entry that exists keeps its
    /// text.
    pub fn open(&mut self, tag: Tag)
        ensures
            final(self)@ == opened(old(self)@, tag),
    {
        match tag {
            Some(Language::Python) => {
                if self.python.is_none() {
                    self.python = Some(Vec::new());
                }
            },
            Some(Language::Rust) => {
                if self.rust.is_none() {
                    self.rust = Some(Vec::new());
                }
            },
            None => {
                if self.unknown.is_none() {
                    self.unknown = Some(Vec::new());
                }
            },
        }
        assert(self@ =~= opened(old(self)@, tag));
    }

    /// Adds `line` and a line feed to the entry of `tag`, which is made if
    /// it did not exist.
    pub fn push_line(&mut self, tag: Tag, line: &Vec<char>)
        ensures
            final(self)@ == extended(old(self)@, tag, line@),
    {
        let mut text: Vec<char> = match tag {
            Some(Language::Python) => take_text(&mut self.python),
            Some(Language::Rust) => take_text(&mut self.rust),
            None => take_text(&mut self.unknown),
        };
        assert(text@ == entry(old(self)@, tag));
        append(&mut text, line);
        text.push('\n');
        assert(text@ == entry(old(self)@, tag) + line@ + seq!['\n']);
        match tag {
            Some(Language::Python) => {
                self.python = Some(text);
            },
            Some(Language::Rust) => {
                self.rust = Some(text);
            },
            None => {
                self.unknown = Some(text);
            },
        }
        assert(self@ =~= extended(old(self)@, tag, line@));
    }
}

/// Takes the text out of a slot, leaving the slot empty; an empty slot
/// gives the empty text.
fn take_text(held: &mut Option<Vec<char>>) -> (text: Vec<char>)
    ensures
        *final(held) == None::<Vec<char>>,
        text@ == match *old(held) {
            Some(t) => t@,
            None => Seq::<char>::empty(),
        },
{
    match held.take() {
        Some(text) => text,
        None => Vec::new(),
    }
}

} // verus!
