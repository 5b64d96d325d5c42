//! What a folder walk does with each entry it meets, and the manifest of
//! the documents that were rendered.

use crate::text::{
    append, is_single_line, join_lines, lemma_lines_of_joined, line_views, lines, same_text, slice,
    split_lines, string_views, to_chars, to_string,
};
use vstd::prelude::*;
use vstd::string::StringExecFns;

verus! {

/// The position of the last dot in `name`, or -1 where it holds none.
pub open spec fn last_dot(name: Seq<char>) -> int
    decreases name.len(),
{
    if name.len() == 0 {
        -1
    } else if name.last() == '.' {
        name.len() - 1
    } else {
        last_dot(name.drop_last())
    }
}

/// Whether a file name has an extension: it holds a dot that is not its
/// first character, and it is not the name `..`.
pub open spec fn has_extension(name: Seq<char>) -> bool {
    last_dot(name) > 0 && name != ".."@
}

/// The stem of a file name: what stands before its last dot, or the whole
/// name where it has no extension.
pub open spec fn stem_of(name: Seq<char>) -> Seq<char> {
    if has_extension(name) {
        name.take(last_dot(name))
    } else {
        name
    }
}

/// The extension of a file name: what stands after its last dot.
pub open spec fn extension_of_name(name: Seq<char>) -> Option<Seq<char>> {
    if has_extension(name) {
        Some(name.skip(last_dot(name) + 1))
    } else {
        None
    }
}

/// Whether a file name is that of a document: its extension is `md`.
pub open spec fn is_markdown(name: Seq<char>) -> bool {
    extension_of_name(name) == Some("md"@)
}

/// The name of the page that a document is rendered to.
pub open spec fn combined_html_name(name: Seq<char>) -> Seq<char> {
    stem_of(name) + "_combined.html"@
}

/// The name of the manifest file.
pub open spec fn manifest_name() -> Seq<char> {
    "created_html_files.txt"@
}

/// What kind of entry a walk has met. A directory is told first; what is
/// neither a directory nor a file is `Other`.
#[derive(Clone, Copy, Debug, PartialEq, Eq, Structural)]
pub enum EntryKind {
    Directory,
    File,
    Other,
}

/// The kind of an entry, from what the file system says of it. Whether it
/// is a directory is asked first.
pub open spec fn kind_of(is_directory: bool, is_file: bool) -> EntryKind {
    if is_directory {
        EntryKind::Directory
    } else if is_file {
        EntryKind::File
    } else {
        EntryKind::Other
    }
}

/// What the extracting walk does with an entry.
#[derive(Debug, PartialEq, Eq)]
pub enum ExtractStep {
    /// Mirror the directory in the output trees and walk it.
    Descend,
    /// Extract the code of the document, then render it to a page of the
    /// given name.
    Extract { html_name: String },
    /// Copy the file to the code tree under its own name.
    Copy,
    /// Leave the entry alone.
    Skip,
}

/// What the rendering walk does with an entry.
#[derive(Debug, PartialEq, Eq)]
pub enum TranslateStep {
    /// Mirror the directory in the output tree and walk it.
    Descend,
    /// Render the document to a page of the given name.
    Render { html_name: String },
    /// Leave the entry alone.
    Skip,
}

/// Whether `step` is what the extracting walk does with an entry of kind
/// `kind` and name `name`.
pub open spec fn is_extract_step(step: ExtractStep, kind: EntryKind, name: Seq<char>) -> bool {
    match kind {
        EntryKind::Directory => step is Descend,
        EntryKind::File => if is_markdown(name) {
            step matches ExtractStep::Extract { html_name } && html_name@ == combined_html_name(
                name,
            )
        } else {
            step is Copy
        },
        EntryKind::Other => step is Skip,
    }
}

/// Whether `step` is what the rendering walk does with an entry of kind
/// `kind` and name `name`.
pub open spec fn is_translate_step(step: TranslateStep, kind: EntryKind, name: Seq<char>) -> bool {
    match kind {
        EntryKind::Directory => step is Descend,
        EntryKind::File => if is_markdown(name) {
            step matches TranslateStep::Render { html_name } && html_name@ == combined_html_name(
                name,
            )
        } else {
            step is Skip
        },
        EntryKind::Other => step is Skip,
    }
}

/// The kind of an entry, from what the file system says of it.
pub fn entry_kind(is_directory: bool, is_file: bool) -> (kind: EntryKind)
    ensures
        kind == kind_of(is_directory, is_file),
{
    if is_directory {
        EntryKind::Directory
    } else if is_file {
        EntryKind::File
    } else {
        EntryKind::Other
    }
}

/// The position of the last dot in `name`.
fn find_last_dot(name: &Vec<char>) -> (r: Option<usize>)
    ensures
        match r {
            Some(at) => at < name.len() && last_dot(name@) == at,
            None => last_dot(name@) == -1,
        },
{
    let mut end: usize = name.len();
    assert(name@.take(end as int) == name@);
    while end > 0
        invariant
            end <= name.len(),
            last_dot(name@) == last_dot(name@.take(end as int)),
        decreases end,
    {
        if name[end - 1] == '.' {
            return Some(end - 1);
        }
        assert(name@.take(end as int).drop_last() == name@.take(end - 1));
        end -= 1;
    }
    None
}

/// The position of the dot that parts the stem of a file name from its
/// extension, where it has one.
fn extension_dot(name: &Vec<char>) -> (r: Option<usize>)
    ensures
        match r {
            Some(at) => has_extension(name@) && at < name.len() && last_dot(name@) == at,
            None => !has_extension(name@),
        },
{
    let dots = to_chars("..");
    if same_text(name, &dots) {
        return None;
    }
    match find_last_dot(name) {
        Some(at) => if at > 0 {
            Some(at)
        } else {
            None
        },
        None => None,
    }
}

/// The stem of a file name.
pub fn file_stem(name: &str) -> (stem: String)
    ensures
        stem@ == stem_of(name@),
{
    let chars = to_chars(name);
    match extension_dot(&chars) {
        Some(at) => {
            let stem = slice(&chars, 0, at);
            assert(chars@.subrange(0, at as int) == chars@.take(at as int));
            to_string(&stem)
        },
        None => String::from_str(name),
    }
}

/// The extension of a file name.
pub fn file_extension(name: &str) -> (extension: Option<String>)
    ensures
        match extension {
            Some(text) => extension_of_name(name@) == Some(text@),
            None => extension_of_name(name@) is None,
        },
{
    let chars = to_chars(name);
    match extension_dot(&chars) {
        Some(at) => {
            let extension = slice(&chars, at + 1, chars.len());
            assert(chars@.subrange(at + 1, chars.len() as int) == chars@.skip(at + 1));
            Some(to_string(&extension))
        },
        None => None,
    }
}

/// Whether a file name is that of a document.
pub fn markdown_file(name: &str) -> (r: bool)
    ensures
        r == is_markdown(name@),
{
    match file_extension(name) {
        Some(extension) => {
            let found = to_chars(extension.as_str());
            let wanted = to_chars("md");
            same_text(&found, &wanted)
        },
        None => false,
    }
}

/// The name of the page that a document is rendered to.
pub fn html_name(name: &str) -> (page: String)
    ensures
        page@ == combined_html_name(name@),
{
    let mut page = file_stem(name);
    page.append("_combined.html");
    page
}

/// What the extracting walk does with an entry.
pub fn plan_extract_entry(kind: EntryKind, name: &str) -> (step: ExtractStep)
    ensures
        is_extract_step(step, kind, name@),
{
    match kind {
        EntryKind::Directory => ExtractStep::Descend,
        EntryKind::File => if markdown_file(name) {
            ExtractStep::Extract { html_name: html_name(name) }
        } else {
            ExtractStep::Copy
        },
        EntryKind::Other => ExtractStep::Skip,
    }
}

/// What the rendering walk does with an entry.
pub fn plan_translate_entry(kind: EntryKind, name: &str) -> (step: TranslateStep)
    ensures
        is_translate_step(step, kind, name@),
{
    match kind {
        EntryKind::Directory => TranslateStep::Descend,
        EntryKind::File => if markdown_file(name) {
            TranslateStep::Render { html_name: html_name(name) }
        } else {
            TranslateStep::Skip
        },
        EntryKind::Other => TranslateStep::Skip,
    }
}

/// The pages that a rendering walk has written, in the order in which they
/// were written.
#[derive(Debug, PartialEq, Eq)]
pub struct Manifest {
    paths: Vec<String>,
}

impl View for Manifest {
    type V = Seq<Seq<char>>;

    closed spec fn view(&self) -> Seq<Seq<char>> {
        string_views(self.paths@)
    }
}

impl Manifest {
    /// The manifest of a walk that has rendered nothing yet.
    pub fn new() -> (manifest: Manifest)
        ensures
            manifest@ == Seq::<Seq<char>>::empty(),
    {
        let manifest = Manifest { paths: Vec::new() };
        assert(manifest@ == Seq::<Seq<char>>::empty());
        manifest
    }

    /// Takes note of how the rendering of one document ended: the path of
    /// its page is added where it was rendered, and left out where it was
    /// not.
    pub fn record(&mut self, path: &str, rendered: bool)
        ensures
            final(self)@ == if rendered {
                old(self)@.push(path@)
            } else {
                old(self)@
            },
    {
        if rendered {
            self.paths.push(String::from_str(path));
            assert(self@ == old(self)@.push(path@));
        }
    }

    /// The number of pages.
    pub fn len(&self) -> (n: usize)
        ensures
            n == self@.len(),
    {
        self.paths.len()
    }

    /// The text of the manifest file: one path on each line.
    pub fn text(&self) -> (text: String)
        ensures
            text@ == join_lines(self@),
    {
        let mut text: Vec<char> = Vec::new();
        let mut i: usize = 0;
        while i < self.paths.len()
            invariant
                i <= self.paths.len(),
                text@ == join_lines(self@.take(i as int)),
            decreases self.paths.len() - i,
        {
            assert(self@.take(i + 1).drop_last() == self@.take(i as int));
            append(&mut text, &to_chars(self.paths[i].as_str()));
            text.push('\n');
            i += 1;
        }
        assert(self@.take(self.paths.len() as int) == self@);
        to_string(&text)
    }
}

/// The name of the manifest file.
pub fn manifest_file_name() -> (name: &'static str)
    ensures
        name@ == manifest_name(),
{
    "created_html_files.txt"
}

/// The paths that the text of a manifest file lists: its lines.
pub fn manifest_entries(text: &str) -> (paths: Vec<String>)
    ensures
        string_views(paths@) == lines(text@),
{
    let chars = to_chars(text);
    let all = split_lines(&chars);
    let mut paths: Vec<String> = Vec::new();
    let mut i: usize = 0;
    while i < all.len()
        invariant
            i <= all.len(),
            string_views(paths@) == line_views(all@).take(i as int),
        decreases all.len() - i,
    {
        let ghost before = paths@;
        paths.push(to_string(&all[i]));
        assert(string_views(paths@) == string_views(before).push(all@[i as int]@));
        assert(line_views(all@).take(i + 1) == line_views(all@).take(i as int).push(
            all@[i as int]@,
        ));
        i += 1;
    }
    assert(line_views(all@).take(all.len() as int) == line_views(all@));
    paths
}

/// A manifest is read back as it was written: the text of a manifest lists
/// the paths that were recorded, as long as each of them can stand as one
/// line.
pub proof fn lemma_manifest_read_back(paths: Seq<Seq<char>>)
    requires
        forall|i: int| 0 <= i < paths.len() ==> is_single_line(#[trigger] paths[i]),
    ensures
        lines(join_lines(paths)) == paths,
{
    lemma_lines_of_joined(paths);
}

} // verus!
