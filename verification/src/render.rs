//! Rendering of a document to HTML: what the converter is called with, how
//! its outcome is read, and the two passes over the HTML it wrote.

use crate::text::{
    append, find, first_match, is_first_match, lemma_first_match_is, lemma_first_match_some,
    matches_at, occurs_in, slice, string_views, to_chars, to_string,
};
use vstd::prelude::*;
use vstd::string::StringExecFns;

verus! {

/// What compiling `pattern` as a regular expression and replacing all its
/// matches in `haystack` by `replacement` gives: `None` where the pattern
/// does not compile.
pub uninterp spec fn regex_replace_all(
    pattern: Seq<char>,
    haystack: Seq<char>,
    replacement: Seq<char>,
) -> Option<Seq<char>>;

/// `regex::Regex::new` followed by `regex::Regex::replace_all`.
///
/// `Regex::new` compiles the pattern or returns an error; it does not
/// panic. `replace_all` replaces every non-overlapping match, leftmost
/// first, by the replacement, in which `$1` stands for the first capture
/// group, and returns the haystack unchanged where nothing matches. Both
/// depend on their arguments alone. The contract gives that result a name
/// and says nothing more of it.
#[verifier::external_body]
fn replace_all(pattern: &str, haystack: &str, replacement: &str) -> (r: Option<String>)
    ensures
        match r {
            Some(text) => regex_replace_all(pattern@, haystack@, replacement@) == Some(text@),
            None => regex_replace_all(pattern@, haystack@, replacement@) is None,
        },
{
    match regex::Regex::new(pattern) {
        Ok(expression) => Some(expression.replace_all(haystack, replacement).into_owned()),
        Err(_) => None,
    }
}

/// Why a document was not rendered.
#[derive(Debug, PartialEq, Eq)]
pub enum RenderError {
    /// The converter reported a failure; the text holds its diagnostics.
    Conversion(String),
}

/// The name of the converter program.
pub open spec fn converter_name() -> Seq<char> {
    "pandoc"@
}

/// The arguments that the converter is called with: standalone HTML, the
/// stylesheet where one is given, the output path, the input path.
pub open spec fn converter_arguments_text(
    input: Seq<char>,
    output: Seq<char>,
    css: Option<Seq<char>>,
) -> Seq<Seq<char>> {
    seq!["--standalone"@, "--to=html"@] + (match css {
        Some(path) => seq!["--css"@, path],
        None => Seq::empty(),
    }) + seq!["--output"@, output, input]
}

/// The text that opens the diagnostics of a failed conversion.
pub open spec fn conversion_error_prefix() -> Seq<char> {
    "pandoc error: "@
}

/// The tag before which the script is put.
pub open spec fn closing_body_tag() -> Seq<char> {
    "</body>"@
}

/// What stands in a script block before the script.
pub open spec fn script_block_head() -> Seq<char> {
    "\n    <script type=\"module\">\n    "@
}

/// What stands in a script block after the script: the call that starts
/// the diagram renderer, and the end of the block.
pub open spec fn script_block_tail() -> Seq<char> {
    "\n    mermaid.initialize({ startOnLoad: true });\n    </script>\n    "@
}

/// The block that embeds `script` in a page.
pub open spec fn script_block(script: Seq<char>) -> Seq<char> {
    script_block_head() + script + script_block_tail()
}

/// The page `html` with the script block put directly before its first
/// closing body tag. A page without such a tag is left as it is.
pub open spec fn injected(html: Seq<char>, script: Seq<char>) -> Seq<char> {
    match first_match(html, closing_body_tag()) {
        Some(at) => html.take(at) + script_block(script) + html.skip(at),
        None => html,
    }
}

/// The pattern of a diagram block whose text is wrapped in a code element.
/// The text may span lines.
pub open spec fn diagram_pattern() -> Seq<char> {
    "<pre class=\"mermaid\"><code>(?s)(.*?)</code></pre>"@
}

/// What such a block is replaced by: the same block without the code
/// element.
pub open spec fn diagram_replacement() -> Seq<char> {
    "<pre class=\"mermaid\">$1</pre>"@
}

/// The page `html` with the code elements of its diagram blocks taken out.
pub open spec fn cleaned(html: Seq<char>) -> Option<Seq<char>> {
    regex_replace_all(diagram_pattern(), html, diagram_replacement())
}

/// The page after both passes: first the script is put in, then the
/// diagram blocks are cleaned.
pub open spec fn postprocessed(html: Seq<char>, script: Seq<char>) -> Option<Seq<char>> {
    cleaned(injected(html, script))
}

/// The name of the converter program.
pub fn converter_program() -> (name: &'static str)
    ensures
        name@ == converter_name(),
{
    "pandoc"
}

/// The arguments that the converter is called with.
pub fn converter_arguments(input: &str, output: &str, css: Option<&str>) -> (args: Vec<String>)
    ensures
        string_views(args@) == converter_arguments_text(
            input@,
            output@,
            match css {
                Some(path) => Some(path@),
                None => None,
            },
        ),
{
    let mut args: Vec<String> = Vec::new();
    args.push(String::from_str("--standalone"));
    args.push(String::from_str("--to=html"));
    match css {
        Some(path) => {
            args.push(String::from_str("--css"));
            args.push(String::from_str(path));
        },
        None => {},
    }
    args.push(String::from_str("--output"));
    args.push(String::from_str(output));
    args.push(String::from_str(input));
    assert(string_views(args@) == converter_arguments_text(
        input@,
        output@,
        match css {
            Some(path) => Some(path@),
            None => None,
        },
    ));
    args
}

/// Reads the outcome of the converter: a run that did not succeed is a
/// conversion error that carries the converter's diagnostics.
pub fn conversion_outcome(succeeded: bool, diagnostics: &str) -> (r: Result<(), RenderError>)
    ensures
        succeeded ==> r is Ok,
        !succeeded ==> {
            &&& r matches Err(RenderError::Conversion(message))
            &&& message@ == conversion_error_prefix() + diagnostics@
        },
{
    if succeeded {
        Ok(())
    } else {
        let mut message = String::from_str("pandoc error: ");
        message.append(diagnostics);
        Err(RenderError::Conversion(message))
    }
}

/// The block that embeds `script` in a page.
pub fn mermaid_script_block(script: &str) -> (block: String)
    ensures
        block@ == script_block(script@),
{
    let mut block = String::from_str("\n    <script type=\"module\">\n    ");
    block.append(script);
    block.append("\n    mermaid.initialize({ startOnLoad: true });\n    </script>\n    ");
    block
}

/// Puts the script block into the page, directly before the first closing
/// body tag. A page without such a tag comes back as it is.
pub fn inject_mermaid_script(html: &str, script: &str) -> (page: String)
    ensures
        page@ == injected(html@, script@),
{
    let chars = to_chars(html);
    let tag = to_chars("</body>");
    match find(&chars, &tag) {
        Some(at) => {
            let block = mermaid_script_block(script);
            let mut page = slice(&chars, 0, at);
            append(&mut page, &to_chars(block.as_str()));
            append(&mut page, &slice(&chars, at, chars.len()));
            assert(chars@.subrange(0, at as int) == chars@.take(at as int));
            assert(chars@.subrange(at as int, chars.len() as int) == chars@.skip(at as int));
            to_string(&page)
        },
        None => String::from_str(html),
    }
}

/// Takes the code elements out of the diagram blocks of the page.
///
/// The result is `None` only where the pattern does not compile.
pub fn clean_mermaid_code_tags(html: &str) -> (page: Option<String>)
    ensures
        match page {
            Some(text) => cleaned(html@) == Some(text@),
            None => cleaned(html@) is None,
        },
{
    replace_all(
        "<pre class=\"mermaid\"><code>(?s)(.*?)</code></pre>",
        html,
        "<pre class=\"mermaid\">$1</pre>",
    )
}

/// Runs both passes over the page that the converter wrote.
pub fn postprocess_html(html: &str, script: &str) -> (page: Option<String>)
    ensures
        match page {
            Some(text) => postprocessed(html@, script@) == Some(text@),
            None => postprocessed(html@, script@) is None,
        },
{
    let with_script = inject_mermaid_script(html, script);
    clean_mermaid_code_tags(with_script.as_str())
}

/// The closing body tag is seven characters, none of them a line feed or a
/// space, the third a `b`.
proof fn lemma_tag_shape()
    ensures
        closing_body_tag().len() == 7,
        closing_body_tag()[2] == 'b',
        forall|i: int|
            0 <= i < 7 ==> #[trigger] closing_body_tag()[i] != '\n' && closing_body_tag()[i] != ' ',
{
    reveal_strlit("</body>");
}

/// The fixed parts of a script block begin with a line feed, end with a
/// space and hold no `b`.
proof fn lemma_block_shape()
    ensures
        script_block_head().len() > 1,
        script_block_head()[0] == '\n',
        script_block_head().last() == ' ',
        forall|i: int|
            0 <= i < script_block_head().len() ==> #[trigger] script_block_head()[i] != 'b',
        script_block_tail().len() > 1,
        script_block_tail()[0] == '\n',
        script_block_tail().last() == ' ',
        forall|i: int|
            0 <= i < script_block_tail().len() ==> #[trigger] script_block_tail()[i] != 'b',
{
    reveal_strlit("\n    <script type=\"module\">\n    ");
    reveal_strlit("\n    mermaid.initialize({ startOnLoad: true });\n    </script>\n    ");
}

/// A page with a closing body tag still has one after the script was put
/// in: the tag that the block was put before.
proof fn lemma_tag_survives(html: Seq<char>, script: Seq<char>, at: int)
    requires
        is_first_match(html, closing_body_tag(), at),
    ensures
        injected(html, script) == html.take(at) + script_block(script) + html.skip(at),
        matches_at(
            injected(html, script),
            closing_body_tag(),
            at + script_block(script).len(),
        ),
{
    let tag = closing_body_tag();
    let block = script_block(script);
    lemma_first_match_is(html, tag, at);
    let page = html.take(at) + block + html.skip(at);
    assert(page.subrange(at + block.len(), at + block.len() + tag.len()) == html.subrange(
        at,
        at + tag.len(),
    ));
}

/// Putting the script in is not idempotent. A page without a closing body
/// tag is never changed. A page with one grows by a script block every
/// time; and where the script itself holds no closing body tag, the second
/// block stands directly after the first, before the tag that was the
/// first one of the page.
pub proof fn lemma_injection_repeats(html: Seq<char>, script: Seq<char>)
    ensures
        first_match(html, closing_body_tag()) is None ==> injected(
            injected(html, script),
            script,
        ) == html,
        first_match(html, closing_body_tag()) is Some ==> injected(
            injected(html, script),
            script,
        ).len() == html.len() + 2 * script_block(script).len(),
        first_match(html, closing_body_tag()) matches Some(at) ==> (!occurs_in(
            closing_body_tag(),
            script,
        ) ==> injected(injected(html, script), script) == html.take(at) + script_block(script)
            + script_block(script) + html.skip(at)),
{
    let tag = closing_body_tag();
    let block = script_block(script);
    if first_match(html, tag) is Some {
        lemma_first_match_some(html, tag);
        let at = first_match(html, tag)->0;
        lemma_tag_survives(html, script, at);
        let page = injected(html, script);
        lemma_first_match_some(page, tag);
        let again = first_match(page, tag)->0;
        assert(injected(page, script) == page.take(again) + block + page.skip(again));
        if !occurs_in(tag, script) {
            lemma_second_block_follows(html, script, at);
            lemma_first_match_is(page, tag, at + block.len());
            assert(page.take(at + block.len()) == html.take(at) + block);
            assert(page.skip(at + block.len()) == html.skip(at));
        }
    }
}

/// Where the script holds no closing body tag, the first such tag of the
/// page with the script is the one that the block was put before.
proof fn lemma_second_block_follows(html: Seq<char>, script: Seq<char>, at: int)
    requires
        is_first_match(html, closing_body_tag(), at),
        !occurs_in(closing_body_tag(), script),
    ensures
        is_first_match(
            injected(html, script),
            closing_body_tag(),
            at + script_block(script).len(),
        ),
{
    let tag = closing_body_tag();
    let head = script_block_head();
    let tail = script_block_tail();
    let block = script_block(script);
    let page = injected(html, script);
    lemma_tag_survives(html, script, at);
    lemma_tag_shape();
    lemma_block_shape();
    let script_from = at + head.len();
    let tail_from = script_from + script.len();
    let rest_from = at + block.len();
    assert forall|before: int| 0 <= before < rest_from implies !matches_at(page, tag, before) by {
        if matches_at(page, tag, before) {
            let found = page.subrange(before, before + 7);
            assert(forall|i: int| 0 <= i < 7 ==> page[before + i] == #[trigger] found[i]);
            if before + 7 <= at {
                assert(html.subrange(before, before + 7) == found);
                assert(matches_at(html, tag, before));
            } else if before <= at {
                assert(page[at] == head[0]);
                assert(found[at - before] == '\n');
            } else if before + 7 < script_from {
                assert(page[before + 2] == head[before + 2 - at]);
                assert(found[2] == 'b');
            } else if before < script_from {
                assert(page[script_from - 1] == head[head.len() - 1]);
                assert(found[script_from - 1 - before] == ' ');
            } else if before + 7 <= tail_from {
                assert(script.subrange(before - script_from, before - script_from + 7) == found);
                assert(matches_at(script, tag, before - script_from));
            } else if before <= tail_from {
                assert(page[tail_from] == tail[0]);
                assert(found[tail_from - before] == '\n');
            } else if before + 7 < rest_from {
                assert(page[before + 2] == tail[before + 2 - tail_from]);
                assert(found[2] == 'b');
            } else {
                assert(page[rest_from - 1] == tail[tail.len() - 1]);
                assert(found[rest_from - 1 - before] == ' ');
            }
        }
    }
}

} // verus!
