use leli::blocks::Language;
use leli::extract::{
    assemble, complete, extract_code_from_markdown, scan_markdown, ExtractError, MarkdownMeta,
    OutputFile,
};

fn decode(yaml: &str) -> Result<MarkdownMeta, String> {
    let value: serde_yaml::Value = serde_yaml::from_str(yaml).map_err(|e| e.to_string())?;
    match value.get("output_filename").and_then(|v| v.as_str()) {
        Some(name) => Ok(MarkdownMeta { output_filename: name.to_string() }),
        None => Err("missing field `output_filename`".to_string()),
    }
}

fn file(name: &str, content: &str) -> OutputFile {
    OutputFile { name: name.to_string(), content: content.to_string() }
}

#[test]
fn python_block_is_written_to_py_file() {
    let document = "---\noutput_filename: demo\n---\n```python\nprint(\"hi\")\n```\n";
    let files = extract_code_from_markdown(document, decode).unwrap();
    assert_eq!(files, vec![file("demo.py", "print(\"hi\")\n")]);
}

#[test]
fn rust_block_is_written_to_rs_file() {
    let document = "---\noutput_filename: lib\n---\nSome text.\n```rust\nfn main() {}\n```\nMore.\n";
    let files = extract_code_from_markdown(document, decode).unwrap();
    assert_eq!(files, vec![file("lib.rs", "fn main() {}\n")]);
}

#[test]
fn interior_lines_are_joined_without_the_fences() {
    let document =
        "---\noutput_filename: tool\n---\nintro\n```python\nimport os\n\nprint(os.name)\n```\noutro\n";
    let files = extract_code_from_markdown(document, decode).unwrap();
    assert_eq!(files, vec![file("tool.py", "import os\n\nprint(os.name)\n")]);
}

#[test]
fn document_without_front_matter_is_not_found() {
    let document = "# Title\n```python\nprint(1)\n```\n";
    assert_eq!(extract_code_from_markdown(document, decode), Err(ExtractError::NotFound));
}

#[test]
fn empty_document_is_not_found() {
    assert_eq!(extract_code_from_markdown("", decode), Err(ExtractError::NotFound));
}

#[test]
fn decoder_is_not_asked_without_front_matter() {
    let r = extract_code_from_markdown("no delimiters here\n", |_| -> Result<MarkdownMeta, String> {
        panic!("the decoder was called")
    });
    assert_eq!(r, Err(ExtractError::NotFound));
}

#[test]
fn front_matter_without_the_field_is_a_decode_error() {
    let document = "---\ntitle: demo\n---\n```python\nx = 1\n```\n";
    assert_eq!(
        extract_code_from_markdown(document, decode),
        Err(ExtractError::Decode(
            "YAML parsing error: missing field `output_filename`".to_string()
        ))
    );
}

#[test]
fn empty_front_matter_is_a_decode_error() {
    let document = "---\n---\n```python\nx = 1\n```\n";
    let r = extract_code_from_markdown(document, decode);
    assert!(matches!(r, Err(ExtractError::Decode(_))));
}

#[test]
fn decoder_gets_the_trimmed_front_matter() {
    let document = "---\n\n  output_filename: demo  \nauthor: me\n\n---\n";
    let r = extract_code_from_markdown(document, |yaml| {
        assert_eq!(yaml, "output_filename: demo  \nauthor: me");
        Ok(MarkdownMeta { output_filename: "demo".to_string() })
    });
    assert_eq!(r, Ok(vec![]));
}

#[test]
fn unknown_language_gives_no_file_and_no_failure() {
    let document = "---\noutput_filename: demo\n---\n```text\nplain words\n```\n";
    assert_eq!(extract_code_from_markdown(document, decode), Ok(vec![]));
}

#[test]
fn unknown_fence_leaves_other_blocks_as_they_are() {
    let with = "---\noutput_filename: demo\n---\n```\n```python\nx = 1\n```\n";
    let without = "---\noutput_filename: demo\n---\n```python\nx = 1\n```\n";
    assert_eq!(
        extract_code_from_markdown(with, decode),
        extract_code_from_markdown(without, decode)
    );
    assert_eq!(extract_code_from_markdown(with, decode), Ok(vec![file("demo.py", "x = 1\n")]));
}

#[test]
fn unknown_fence_leaves_an_empty_entry_in_the_map() {
    let found = scan_markdown("---\noutput_filename: demo\n---\n```text\nwords\n```\n").unwrap();
    assert_eq!(found.blocks.text(None), Some(String::new()));
    assert!(!found.blocks.contains(Some(Language::Python)));
    assert!(!found.blocks.contains(Some(Language::Rust)));
}

#[test]
fn both_languages_give_two_files_python_first() {
    let document =
        "---\noutput_filename: both\n---\n```rust\nfn f() {}\n```\n```python\ndef f(): pass\n```\n";
    let files = extract_code_from_markdown(document, decode).unwrap();
    assert_eq!(files, vec![file("both.py", "def f(): pass\n"), file("both.rs", "fn f() {}\n")]);
}

#[test]
fn blocks_of_one_language_are_concatenated() {
    let document = "---\noutput_filename: m\n---\n```python\na = 1\n```\ntext\n```python\nb = 2\n```\n";
    let files = extract_code_from_markdown(document, decode).unwrap();
    assert_eq!(files, vec![file("m.py", "a = 1\nb = 2\n")]);
}

#[test]
fn fence_with_annotations_is_a_fence() {
    let document =
        "---\noutput_filename: m\n---\n   ```{.python .numberLines}\na = 1\n  ``` end of block\nb = 2\n";
    let files = extract_code_from_markdown(document, decode).unwrap();
    assert_eq!(files, vec![file("m.py", "a = 1\n")]);
}

#[test]
fn python_is_looked_for_before_rust() {
    let document = "---\noutput_filename: m\n---\n```rust python\nx\n```\n";
    let files = extract_code_from_markdown(document, decode).unwrap();
    assert_eq!(files, vec![file("m.py", "x\n")]);
}

#[test]
fn unterminated_block_gives_what_was_gathered() {
    let document = "---\noutput_filename: m\n---\n```rust\nfn a() {}\nfn b() {}";
    let files = extract_code_from_markdown(document, decode).unwrap();
    assert_eq!(files, vec![file("m.rs", "fn a() {}\nfn b() {}\n")]);
}

#[test]
fn opened_block_without_lines_gives_an_empty_file() {
    let document = "---\noutput_filename: m\n---\n```python\n```\n";
    let files = extract_code_from_markdown(document, decode).unwrap();
    assert_eq!(files, vec![file("m.py", "")]);
}

#[test]
fn third_delimiter_is_a_line_like_any_other() {
    let document = "---\noutput_filename: m\n---\n```python\na\n---\nb\n```\n---\nignored\n";
    let files = extract_code_from_markdown(document, decode).unwrap();
    assert_eq!(files, vec![file("m.py", "a\n---\nb\n")]);
}

#[test]
fn delimiter_may_have_white_space_around_it() {
    let document = "  ---\t\noutput_filename: m\n --- \n```python\na\n```\n";
    let files = extract_code_from_markdown(document, decode).unwrap();
    assert_eq!(files, vec![file("m.py", "a\n")]);
}

#[test]
fn fences_inside_the_front_matter_are_metadata() {
    let found = scan_markdown("---\n```python\noutput_filename: m\n---\n").unwrap();
    assert_eq!(found.metadata, "```python\noutput_filename: m");
    assert!(!found.blocks.contains(Some(Language::Python)));
}

#[test]
fn unterminated_front_matter_takes_the_rest_of_the_document() {
    let found = scan_markdown("---\noutput_filename: m\n```python\nx\n```\n").unwrap();
    assert_eq!(found.metadata, "output_filename: m\n```python\nx\n```");
    assert!(!found.blocks.contains(Some(Language::Python)));
}

#[test]
fn code_before_the_front_matter_is_gathered() {
    let document = "```python\nx\n```\n---\noutput_filename: m\n---\n";
    let files = extract_code_from_markdown(document, decode).unwrap();
    assert_eq!(files, vec![file("m.py", "x\n")]);
}

#[test]
fn lines_may_end_in_carriage_return_and_line_feed() {
    let document = "---\r\noutput_filename: m\r\n---\r\n```python\r\na = 1\r\n```\r\n";
    let files = extract_code_from_markdown(document, decode).unwrap();
    assert_eq!(files, vec![file("m.py", "a = 1\n")]);
}

#[test]
fn scan_hands_out_metadata_and_blocks() {
    let found = scan_markdown("---\noutput_filename: demo\n---\n```rust\nfn f() {}\n```\n").unwrap();
    assert_eq!(found.metadata, "output_filename: demo");
    assert_eq!(found.blocks.text(Some(Language::Rust)), Some("fn f() {}\n".to_string()));
    assert_eq!(found.blocks.text(Some(Language::Python)), None);
    assert_eq!(found.blocks.text(None), None);
}

#[test]
fn scan_without_delimiter_fails() {
    assert!(matches!(scan_markdown("text\nmore text\n"), Err(ExtractError::NotFound)));
}

#[test]
fn assemble_names_files_after_the_base() {
    let found = scan_markdown("---\nx\n---\n```python\np\n```\n```rust\nr\n```\n```\n").unwrap();
    let meta = MarkdownMeta { output_filename: "out/name".to_string() };
    assert_eq!(
        assemble(&meta, &found.blocks),
        vec![file("out/name.py", "p\n"), file("out/name.rs", "r\n")]
    );
}

#[test]
fn complete_passes_the_reason_of_the_decoder_on() {
    let found = scan_markdown("---\nx\n---\n```python\np\n```\n").unwrap();
    assert_eq!(
        complete(&found.blocks, Err("bad indentation".to_string())),
        Err(ExtractError::Decode("YAML parsing error: bad indentation".to_string()))
    );
    assert_eq!(
        complete(&found.blocks, Ok(MarkdownMeta { output_filename: "a".to_string() })),
        Ok(vec![file("a.py", "p\n")])
    );
}
