//! Extraction of source files from a document: the front matter names the
//! files, the fenced code blocks give their contents.

use crate::blocks::{entry, extension_of, CodeBlocks, Language, Tag};
use crate::scan::{
    has_front_matter, initial, is_delimiter, is_fence, language_of, lemma_delimiter_is_no_fence,
    lemma_front_matter_found, lemma_run_append, lemma_run_inside, lemma_run_metadata,
    lemma_run_one, lemma_run_outside, lemma_run_sound, run, scan, step, FrontMatter, ScanState,
    Scanner,
};
use crate::text::{
    join_lines, lines, slice, to_chars, to_string, trailing_bound, trim_bounds, trimmed,
    without_trailing,
};
use vstd::prelude::*;
use vstd::string::StringExecFns;

verus! {

/// What the front matter of a document says.
#[derive(Debug, PartialEq, Eq)]
pub struct MarkdownMeta {
    /// The name of the files to write, without extension.
    pub output_filename: String,
}

/// A file to write: its name and its content.
#[derive(Debug, PartialEq, Eq)]
pub struct OutputFile {
    pub name: String,
    pub content: String,
}

impl View for OutputFile {
    type V = (Seq<char>, Seq<char>);

    open spec fn view(&self) -> (Seq<char>, Seq<char>) {
        (self.name@, self.content@)
    }
}

/// The views of a sequence of files.
pub open spec fn file_views(files: Seq<OutputFile>) -> Seq<(Seq<char>, Seq<char>)> {
    Seq::new(files.len(), |i: int| files[i]@)
}

/// Why nothing was extracted from a document.
#[derive(Debug, PartialEq, Eq)]
pub enum ExtractError {
    /// The document has no front matter.
    NotFound,
    /// The front matter could not be decoded; the text says why.
    Decode(String),
}

/// The text of the front matter as it is handed to the decoder: the gathered
/// lines without delimiters at their end and without white space around
/// them.
pub open spec fn metadata_text(metadata: Seq<char>) -> Seq<char> {
    trimmed(without_trailing(metadata, "---"@))
}

/// The name of the file for a block: the base, a dot, the extension.
pub open spec fn file_name(base: Seq<char>, extension: Seq<char>) -> Seq<char> {
    base + seq!['.'] + extension
}

/// The file written for the entry of `tag`: none where the map has no such
/// entry, and none where the tag maps to no extension.
pub open spec fn output_for(base: Seq<char>, blocks: Map<Tag, Seq<char>>, tag: Tag) -> Seq<
    (Seq<char>, Seq<char>),
> {
    if blocks.contains_key(tag) && extension_of(tag) is Some {
        seq![(file_name(base, extension_of(tag)->0), blocks[tag])]
    } else {
        Seq::empty()
    }
}

/// The files written for a document: one for each entry of the map whose
/// tag maps to an extension, Python before Rust.
pub open spec fn outputs(base: Seq<char>, blocks: Map<Tag, Seq<char>>) -> Seq<
    (Seq<char>, Seq<char>),
> {
    output_for(base, blocks, Some(Language::Python)) + output_for(
        base,
        blocks,
        Some(Language::Rust),
    ) + output_for(base, blocks, None)
}

/// The text that opens the reason of a decode error.
pub open spec fn decode_error_prefix() -> Seq<char> {
    "YAML parsing error: "@
}

/// Whether `result` is what extraction gives for code blocks `blocks` once
/// the decoder has answered `decoded`: the files named after the decoded
/// base, or a decode error that carries the decoder's reason.
pub open spec fn extraction_result(
    decoded: Result<MarkdownMeta, String>,
    blocks: Map<Tag, Seq<char>>,
    result: Result<Vec<OutputFile>, ExtractError>,
) -> bool {
    match decoded {
        Ok(meta) => {
            &&& result matches Ok(files)
            &&& file_views(files@) == outputs(meta.output_filename@, blocks)
        },
        Err(reason) => {
            &&& result matches Err(ExtractError::Decode(message))
            &&& message@ == decode_error_prefix() + reason@
        },
    }
}

/// What the scan of a document with front matter found.
#[derive(Debug)]
pub struct Extraction {
    /// The text of the front matter, ready for the decoder.
    pub metadata: String,
    /// The code blocks.
    pub blocks: CodeBlocks,
}

/// The text of the front matter as it is handed to the decoder.
pub fn clean_metadata(metadata: &Vec<char>) -> (text: String)
    ensures
        text@ == metadata_text(metadata@),
{
    let delimiter = to_chars("---");
    let end = trailing_bound(metadata, &delimiter);
    let kept = slice(metadata, 0, end);
    assert(kept@ == metadata@.take(end as int));
    let (from, to) = trim_bounds(&kept);
    let core = slice(&kept, from, to);
    to_string(&core)
}

/// Scans a document for its front matter and its code blocks.
///
/// A document in which no line is a front-matter delimiter has no front
/// matter, and that is the one way to fail.
pub fn scan_markdown(document: &str) -> (r: Result<Extraction, ExtractError>)
    ensures
        !has_front_matter(document@) ==> r == Err::<Extraction, ExtractError>(
            ExtractError::NotFound,
        ),
        has_front_matter(document@) ==> {
            &&& r matches Ok(found)
            &&& found.metadata@ == metadata_text(scan(document@).metadata)
            &&& found.blocks@ == scan(document@).blocks
        },
{
    proof {
        lemma_front_matter_found(document@);
    }
    let mut scanner = Scanner::new();
    scanner.feed(document);
    let (front_matter, metadata, blocks) = scanner.into_parts();
    match front_matter {
        FrontMatter::Absent => Err(ExtractError::NotFound),
        _ => Ok(Extraction { metadata: clean_metadata(&metadata), blocks }),
    }
}

/// Adds to `files` the file for the entry of `tag`, if one is written.
fn push_output(files: &mut Vec<OutputFile>, base: &String, blocks: &CodeBlocks, tag: Tag)
    ensures
        file_views(final(files)@) == file_views(old(files)@) + output_for(base@, blocks@, tag),
{
    match (tag, blocks.text(tag)) {
        (Some(language), Some(content)) => {
            let mut name = base.clone();
            name.push('.');
            name.append(language.extension());
            assert(name@ == file_name(base@, language.extension_text()));
            files.push(OutputFile { name, content });
        },
        _ => {},
    }
    assert(file_views(files@) == file_views(old(files)@) + output_for(base@, blocks@, tag));
}

/// The files to write for the code blocks of a document.
pub fn assemble(meta: &MarkdownMeta, blocks: &CodeBlocks) -> (files: Vec<OutputFile>)
    ensures
        file_views(files@) == outputs(meta.output_filename@, blocks@),
{
    let mut files: Vec<OutputFile> = Vec::new();
    assert(file_views(files@) == Seq::<(Seq<char>, Seq<char>)>::empty());
    push_output(&mut files, &meta.output_filename, blocks, Some(Language::Python));
    push_output(&mut files, &meta.output_filename, blocks, Some(Language::Rust));
    push_output(&mut files, &meta.output_filename, blocks, None);
    files
}

/// Finishes an extraction with the decoder's answer on the front matter.
pub fn complete(blocks: &CodeBlocks, decoded: Result<MarkdownMeta, String>) -> (r: Result<
    Vec<OutputFile>,
    ExtractError,
>)
    ensures
        extraction_result(decoded, blocks@, r),
{
    match decoded {
        Ok(meta) => Ok(assemble(&meta, blocks)),
        Err(reason) => {
            let mut message = String::from_str("YAML parsing error: ");
            message.append(reason.as_str());
            Err(ExtractError::Decode(message))
        },
    }
}

/// Extracts the source files of a document. The front matter is decoded by
/// `decode`, which gets its text.
///
/// The extraction fails with `NotFound` exactly when no line of the document
/// is a front-matter delimiter; `decode` is then not called. Otherwise
/// `decode` is called once, on the text of the front matter, and the result
/// is the one that `complete` gives for its answer.
pub fn extract_code_from_markdown<F>(document: &str, decode: F) -> (r: Result<
    Vec<OutputFile>,
    ExtractError,
>) where F: FnOnce(&str) -> Result<MarkdownMeta, String>
    requires
        forall|yaml: &str|
            yaml@ == metadata_text(scan(document@).metadata) ==> call_requires(decode, (yaml,)),
    ensures
        !has_front_matter(document@) ==> r == Err::<Vec<OutputFile>, ExtractError>(
            ExtractError::NotFound,
        ),
        has_front_matter(document@) ==> exists|
            yaml: &str,
            decoded: Result<MarkdownMeta, String>,
        |
            {
                &&& yaml@ == metadata_text(scan(document@).metadata)
                &&& #[trigger] call_ensures(decode, (yaml,), decoded)
                &&& extraction_result(decoded, scan(document@).blocks, r)
            },
{
    match scan_markdown(document) {
        Err(error) => Err(error),
        Ok(found) => {
            let yaml = found.metadata.as_str();
            let decoded = decode(yaml);
            let ghost answer = decoded;
            let r = complete(&found.blocks, decoded);
            assert(call_ensures(decode, (yaml,), answer));
            r
        },
    }
}

/// The files written depend on the entries of the known languages alone.
pub proof fn lemma_outputs_of_known_entries(
    base: Seq<char>,
    first: Map<Tag, Seq<char>>,
    second: Map<Tag, Seq<char>>,
)
    requires
        forall|language: Language| #[trigger]
            first.contains_key(Some(language)) == second.contains_key(Some(language)),
        forall|language: Language| #[trigger]
            first.contains_key(Some(language)) ==> first[Some(language)] == second[Some(language)],
    ensures
        outputs(base, first) == outputs(base, second),
{
    assert(first.contains_key(Some(Language::Python)) == second.contains_key(
        Some(Language::Python),
    ));
    assert(first.contains_key(Some(Language::Rust)) == second.contains_key(Some(Language::Rust)));
}

/// Every file that is written stands for the entry of one known language,
/// every such entry has its file, and no two files have the same name.
pub proof fn lemma_one_file_for_each_language(base: Seq<char>, blocks: Map<Tag, Seq<char>>)
    ensures
        forall|i: int|
            0 <= i < outputs(base, blocks).len() ==> exists|language: Language|
                blocks.contains_key(Some(language)) && #[trigger] outputs(base, blocks)[i] == (
                    file_name(base, language.extension_text()),
                    blocks[Some(language)],
                ),
        forall|language: Language| #[trigger]
            blocks.contains_key(Some(language)) ==> outputs(base, blocks).contains(
                (file_name(base, language.extension_text()), blocks[Some(language)]),
            ),
        forall|i: int, j: int|
            0 <= i < j < outputs(base, blocks).len() ==> outputs(base, blocks)[i].0 != outputs(
                base,
                blocks,
            )[j].0,
{
    let files = outputs(base, blocks);
    let python = (
        file_name(base, Language::Python.extension_text()),
        entry(blocks, Some(Language::Python)),
    );
    let rust = (
        file_name(base, Language::Rust.extension_text()),
        entry(blocks, Some(Language::Rust)),
    );
    reveal_strlit("py");
    reveal_strlit("rs");
    assert(python.0[base.len() as int + 1] == 'p');
    assert(rust.0[base.len() as int + 1] == 'r');
    assert forall|i: int| 0 <= i < files.len() implies exists|language: Language|
        blocks.contains_key(Some(language)) && #[trigger] files[i] == (
            file_name(base, language.extension_text()),
            blocks[Some(language)],
        ) by {
        if blocks.contains_key(Some(Language::Python)) && i == 0 {
            assert(files[i] == python);
        } else {
            assert(blocks.contains_key(Some(Language::Rust)));
            assert(files[i] == rust);
        }
    }
    assert forall|language: Language| #[trigger]
        blocks.contains_key(Some(language)) implies files.contains(
        (file_name(base, language.extension_text()), blocks[Some(language)]),
    ) by {
        match language {
            Language::Python => {
                assert(files[0] == python);
            },
            Language::Rust => {
                if blocks.contains_key(Some(Language::Python)) {
                    assert(files[1] == rust);
                } else {
                    assert(files[0] == rust);
                }
            },
        }
    }
}

/// A document that is a front matter followed by text, one fenced block of
/// a known language, and text again gives one file: its name is the base, a
/// dot and the extension of the language, and its content is the lines of
/// the block, each with a line feed, without the fence lines.
///
/// The front matter is the first line, a delimiter, the lines up to the next
/// delimiter, and that delimiter; its text is what the decoder reads the
/// base from. The text around the block holds no fence line.
pub proof fn lemma_single_block(
    document: Seq<char>,
    opening: Seq<char>,
    metadata: Seq<Seq<char>>,
    closing: Seq<char>,
    before: Seq<Seq<char>>,
    fence: Seq<char>,
    language: Language,
    body: Seq<Seq<char>>,
    end: Seq<char>,
    after: Seq<Seq<char>>,
    base: Seq<char>,
)
    requires
        lines(document) == seq![opening] + metadata + seq![closing] + before + seq![fence] + body
            + seq![end] + after,
        is_delimiter(opening),
        forall|i: int| 0 <= i < metadata.len() ==> !is_delimiter(#[trigger] metadata[i]),
        is_delimiter(closing),
        forall|i: int| 0 <= i < before.len() ==> !is_fence(#[trigger] before[i]),
        is_fence(fence),
        language_of(fence) == Some(language),
        forall|i: int| 0 <= i < body.len() ==> !is_fence(#[trigger] body[i]),
        is_fence(end),
        forall|i: int| 0 <= i < after.len() ==> !is_fence(#[trigger] after[i]),
    ensures
        scan(document).front_matter is Closed,
        scan(document).metadata == join_lines(metadata),
        outputs(base, scan(document).blocks) == seq![
            (file_name(base, language.extension_text()), join_lines(body)),
        ],
{
    let s0 = initial();
    let s1 = step(s0, opening);
    let s2 = run(s1, metadata);
    let s3 = step(s2, closing);
    let s4 = run(s3, before);
    let s5 = step(s4, fence);
    let s6 = run(s5, body);
    let s7 = step(s6, end);
    let s8 = run(s7, after);
    assert(scan(document) == s8) by {
        let l1 = seq![opening];
        let l2 = l1 + metadata;
        let l3 = l2 + seq![closing];
        let l4 = l3 + before;
        let l5 = l4 + seq![fence];
        let l6 = l5 + body;
        let l7 = l6 + seq![end];
        lemma_run_one(s0, opening);
        lemma_run_append(s0, l1, metadata);
        lemma_run_append(s0, l2, seq![closing]);
        lemma_run_one(s2, closing);
        lemma_run_append(s0, l3, before);
        lemma_run_append(s0, l4, seq![fence]);
        lemma_run_one(s4, fence);
        lemma_run_append(s0, l5, body);
        lemma_run_append(s0, l6, seq![end]);
        lemma_run_one(s6, end);
        lemma_run_append(s0, l7, after);
    }
    lemma_run_metadata(s1, metadata);
    assert(s2.metadata == join_lines(metadata)) by {
        assert(Seq::<char>::empty() + join_lines(metadata) == join_lines(metadata));
    }
    lemma_run_outside(s3, before);
    lemma_delimiter_is_no_fence(opening);
    assert(s5.blocks == Map::<Tag, Seq<char>>::empty().insert(Some(language), Seq::empty()));
    lemma_run_inside(s5, body);
    assert(s6.blocks == Map::<Tag, Seq<char>>::empty().insert(Some(language), join_lines(body)))
        by {
        assert(Seq::<char>::empty() + join_lines(body) == join_lines(body));
    }
    lemma_run_outside(s7, after);
    assert(s8.blocks == s6.blocks);
}

/// Whether two states differ at most in the entry of the unknown tag.
pub open spec fn same_but_unknown(first: ScanState, second: ScanState) -> bool {
    &&& first.front_matter == second.front_matter
    &&& first.active == second.active
    &&& first.metadata == second.metadata
    &&& forall|language: Language| #[trigger]
        first.blocks.contains_key(Some(language)) == second.blocks.contains_key(Some(language))
    &&& forall|language: Language| #[trigger]
        first.blocks.contains_key(Some(language)) ==> first.blocks[Some(language)]
            == second.blocks[Some(language)]
}

/// States that differ at most in the entry of the unknown tag still do so
/// after the same lines.
pub proof fn lemma_run_same_but_unknown(first: ScanState, second: ScanState, lines: Seq<Seq<char>>)
    requires
        same_but_unknown(first, second),
    ensures
        same_but_unknown(run(first, lines), run(second, lines)),
    decreases lines.len(),
{
    if lines.len() > 0 {
        lemma_run_same_but_unknown(first, second, lines.drop_last());
        let a = run(first, lines.drop_last());
        let b = run(second, lines.drop_last());
        assert(a.blocks.contains_key(Some(Language::Python)) == b.blocks.contains_key(
            Some(Language::Python),
        ));
        assert(a.blocks.contains_key(Some(Language::Rust)) == b.blocks.contains_key(
            Some(Language::Rust),
        ));
    }
}

/// A fence line that declares no known language, met outside the front
/// matter and outside any block, adds no file and takes none away: the
/// document gives the files that it gives without that line, and its front
/// matter is the same.
pub proof fn lemma_unknown_fence_writes_nothing(
    before: Seq<Seq<char>>,
    fence: Seq<char>,
    after: Seq<Seq<char>>,
    base: Seq<char>,
)
    requires
        is_fence(fence),
        language_of(fence) is None,
        !(run(initial(), before).front_matter is Open),
        run(initial(), before).active is None,
    ensures
        run(initial(), before + seq![fence] + after).front_matter == run(
            initial(),
            before + after,
        ).front_matter,
        run(initial(), before + seq![fence] + after).metadata == run(
            initial(),
            before + after,
        ).metadata,
        outputs(base, run(initial(), before + seq![fence] + after).blocks) == outputs(
            base,
            run(initial(), before + after).blocks,
        ),
{
    let reached = run(initial(), before);
    let passed = step(reached, fence);
    if is_delimiter(fence) {
        lemma_delimiter_is_no_fence(fence);
    }
    assert(same_but_unknown(passed, reached));
    lemma_run_append(initial(), before, seq![fence]);
    lemma_run_one(reached, fence);
    lemma_run_append(initial(), before + seq![fence], after);
    lemma_run_append(initial(), before, after);
    lemma_run_same_but_unknown(passed, reached, after);
    lemma_outputs_of_known_entries(base, run(passed, after).blocks, run(reached, after).blocks);
}

/// The decoder reads the lines of the front matter without the white space
/// around them: there are no delimiters at their end to take away.
pub proof fn lemma_metadata_text_is_trimmed(document: Seq<char>)
    ensures
        metadata_text(scan(document).metadata) == trimmed(scan(document).metadata),
{
    let metadata = scan(document).metadata;
    lemma_run_sound(initial(), lines(document));
    reveal_strlit("---");
    if metadata.len() >= 3 {
        assert(metadata.skip(metadata.len() - 3)[2] == metadata.last());
    }
}

} // verus!
