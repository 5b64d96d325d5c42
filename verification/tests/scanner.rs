use leli::blocks::{CodeBlocks, Language};
use leli::scan::{
    declared_language, delimiter_line, fence_line, FrontMatter, Position, Scanner,
};

fn chars(text: &str) -> Vec<char> {
    text.chars().collect()
}

#[test]
fn new_scanner_has_read_nothing() {
    let scanner = Scanner::new();
    assert_eq!(scanner.front_matter(), FrontMatter::Absent);
    assert_eq!(scanner.active(), None);
    let (front_matter, metadata, blocks) = scanner.into_parts();
    assert_eq!(front_matter, FrontMatter::Absent);
    assert!(metadata.is_empty());
    assert_eq!(blocks, CodeBlocks::new());
}

#[test]
fn delimiters_open_and_close_the_front_matter_once() {
    let mut scanner = Scanner::new();
    scanner.feed_line("---");
    assert_eq!(scanner.front_matter(), FrontMatter::Open);
    scanner.feed_line("key: value");
    assert_eq!(scanner.front_matter(), FrontMatter::Open);
    scanner.feed_line("---");
    assert_eq!(scanner.front_matter(), FrontMatter::Closed);
    scanner.feed_line("---");
    assert_eq!(scanner.front_matter(), FrontMatter::Closed);
    let (_, metadata, _) = scanner.into_parts();
    assert_eq!(metadata, chars("key: value\n"));
}

#[test]
fn fence_lines_open_and_close_blocks() {
    let mut scanner = Scanner::new();
    scanner.feed_line("```rust");
    assert_eq!(scanner.active(), Some(Language::Rust));
    scanner.feed_line("let x = 1;");
    scanner.feed_line("``` python");
    assert_eq!(scanner.active(), None);
    scanner.feed_line("outside");
    scanner.feed_line("```js");
    assert_eq!(scanner.active(), None);
    scanner.feed_line("not gathered");
    scanner.feed_line("```python");
    assert_eq!(scanner.active(), Some(Language::Python));
    scanner.feed_line("y = 2");
    let (_, _, blocks) = scanner.into_parts();
    assert_eq!(blocks.text(Some(Language::Rust)), Some("let x = 1;\n".to_string()));
    assert_eq!(blocks.text(Some(Language::Python)), Some("y = 2\n".to_string()));
    assert_eq!(blocks.text(None), Some(String::new()));
}

#[test]
fn front_matter_inside_a_block_keeps_the_block_open() {
    let mut scanner = Scanner::new();
    scanner.feed_line("```python");
    scanner.feed_line("a");
    scanner.feed_line("---");
    assert_eq!(scanner.front_matter(), FrontMatter::Open);
    assert_eq!(scanner.active(), Some(Language::Python));
    scanner.feed_line("meta");
    scanner.feed_line("---");
    scanner.feed_line("b");
    let (_, metadata, blocks) = scanner.into_parts();
    assert_eq!(metadata, chars("meta\n"));
    assert_eq!(blocks.text(Some(Language::Python)), Some("a\nb\n".to_string()));
}

#[test]
fn scanner_stands_in_one_of_three_places() {
    let mut scanner = Scanner::new();
    assert_eq!(scanner.position(), Position::Outside);
    scanner.feed_line("---");
    assert_eq!(scanner.position(), Position::InFrontMatter);
    scanner.feed_line("```python");
    assert_eq!(scanner.position(), Position::InFrontMatter);
    scanner.feed_line("---");
    assert_eq!(scanner.position(), Position::Outside);
    scanner.feed_line("```text");
    assert_eq!(scanner.position(), Position::Outside);
    scanner.feed_line("```python");
    assert_eq!(scanner.position(), Position::InCodeBlock(Language::Python));
    scanner.feed_line("x = 1");
    assert_eq!(scanner.position(), Position::InCodeBlock(Language::Python));
    scanner.feed_line("```");
    assert_eq!(scanner.position(), Position::Outside);
    scanner.feed_line("```{.rust}");
    assert_eq!(scanner.position(), Position::InCodeBlock(Language::Rust));
}

#[test]
fn feed_reads_a_whole_document() {
    let mut by_line = Scanner::new();
    for line in ["---", "k: v", "---", "```rust", "x", "```"] {
        by_line.feed_line(line);
    }
    let mut at_once = Scanner::new();
    at_once.feed("---\nk: v\n---\n```rust\nx\n```\n");
    assert_eq!(by_line.into_parts(), at_once.into_parts());
}

#[test]
fn feed_chars_reads_one_line() {
    let mut scanner = Scanner::new();
    scanner.feed_chars(&chars(" --- "));
    assert_eq!(scanner.front_matter(), FrontMatter::Open);
}

#[test]
fn delimiter_is_three_hyphens_alone() {
    assert!(delimiter_line(&chars("---")));
    assert!(delimiter_line(&chars("\t --- \u{a0}")));
    assert!(!delimiter_line(&chars("----")));
    assert!(!delimiter_line(&chars("--- x")));
    assert!(!delimiter_line(&chars("- --")));
    assert!(!delimiter_line(&chars("")));
}

#[test]
fn fence_is_told_by_its_first_three_characters() {
    assert!(fence_line(&chars("```")));
    assert!(fence_line(&chars("   ```python")));
    assert!(fence_line(&chars("```` four")));
    assert!(!fence_line(&chars("``")));
    assert!(!fence_line(&chars("x ```")));
    assert!(!fence_line(&chars("---")));
}

#[test]
fn language_is_told_by_its_indicator() {
    assert_eq!(declared_language(&chars("```python")), Some(Language::Python));
    assert_eq!(declared_language(&chars("```{.rust}")), Some(Language::Rust));
    assert_eq!(declared_language(&chars("``` rust, then python")), Some(Language::Python));
    assert_eq!(declared_language(&chars("```Python")), None);
    assert_eq!(declared_language(&chars("```")), None);
}

#[test]
fn languages_have_indicator_and_extension() {
    assert_eq!(Language::Python.indicator(), "python");
    assert_eq!(Language::Python.extension(), "py");
    assert_eq!(Language::Rust.indicator(), "rust");
    assert_eq!(Language::Rust.extension(), "rs");
}

#[test]
fn code_blocks_keep_text_by_tag() {
    let mut blocks = CodeBlocks::new();
    assert!(!blocks.contains(None));
    blocks.open(Some(Language::Rust));
    assert_eq!(blocks.text(Some(Language::Rust)), Some(String::new()));
    blocks.push_line(Some(Language::Rust), &chars("a"));
    blocks.open(Some(Language::Rust));
    blocks.push_line(Some(Language::Rust), &chars("b"));
    blocks.push_line(Some(Language::Python), &chars("c"));
    assert_eq!(blocks.text(Some(Language::Rust)), Some("a\nb\n".to_string()));
    assert_eq!(blocks.text(Some(Language::Python)), Some("c\n".to_string()));
    assert_eq!(blocks.text(None), None);
}
