use leli::render::{
    clean_mermaid_code_tags, conversion_outcome, converter_arguments, converter_program,
    inject_mermaid_script, mermaid_script_block, postprocess_html, RenderError,
};

const BLOCK: &str = "\n    <script type=\"module\">\n    let m = 1;\n    mermaid.initialize({ startOnLoad: true });\n    </script>\n    ";

#[test]
fn converter_is_pandoc() {
    assert_eq!(converter_program(), "pandoc");
}

#[test]
fn converter_gets_stylesheet_output_and_input() {
    assert_eq!(
        converter_arguments("in.md", "out.html", Some("style.css")),
        vec!["--standalone", "--to=html", "--css", "style.css", "--output", "out.html", "in.md"]
    );
}

#[test]
fn converter_arguments_without_stylesheet() {
    assert_eq!(
        converter_arguments("a b.md", "o.html", None),
        vec!["--standalone", "--to=html", "--output", "o.html", "a b.md"]
    );
}

#[test]
fn successful_conversion_is_ok() {
    assert_eq!(conversion_outcome(true, "warning: something"), Ok(()));
}

#[test]
fn failed_conversion_carries_the_diagnostics() {
    assert_eq!(
        conversion_outcome(false, "file not found\n"),
        Err(RenderError::Conversion("pandoc error: file not found\n".to_string()))
    );
    assert_eq!(
        conversion_outcome(false, ""),
        Err(RenderError::Conversion("pandoc error: ".to_string()))
    );
}

#[test]
fn script_block_embeds_the_script() {
    assert_eq!(mermaid_script_block("let m = 1;"), BLOCK);
}

#[test]
fn script_goes_before_the_closing_body_tag() {
    let page = inject_mermaid_script("<html><body><p>x</p></body></html>", "let m = 1;");
    assert_eq!(page, format!("<html><body><p>x</p>{}</body></html>", BLOCK));
}

#[test]
fn script_goes_before_the_first_closing_body_tag() {
    let page = inject_mermaid_script("a</body>b</body>c", "let m = 1;");
    assert_eq!(page, format!("a{}</body>b</body>c", BLOCK));
}

#[test]
fn page_without_closing_body_tag_is_unchanged() {
    assert_eq!(inject_mermaid_script("<html><body>", "let m = 1;"), "<html><body>");
    assert_eq!(inject_mermaid_script("", "let m = 1;"), "");
    assert_eq!(inject_mermaid_script("</BODY>", "let m = 1;"), "</BODY>");
}

#[test]
fn script_position_counts_characters_not_bytes() {
    let page = inject_mermaid_script("\u{e9}\u{4e2d}</body>", "let m = 1;");
    assert_eq!(page, format!("\u{e9}\u{4e2d}{}</body>", BLOCK));
}

#[test]
fn repeated_injection_gives_two_blocks() {
    let once = inject_mermaid_script("<body>x</body>", "let m = 1;");
    let twice = inject_mermaid_script(&once, "let m = 1;");
    assert_eq!(twice, format!("<body>x{}{}</body>", BLOCK, BLOCK));
    assert_ne!(once, twice);
}

#[test]
fn repeated_injection_of_script_with_a_tag_goes_inside_the_first_block() {
    let script = "let t = \"</body>\";";
    let once = inject_mermaid_script("x</body>", script);
    let twice = inject_mermaid_script(&once, script);
    let block = mermaid_script_block(script);
    assert_eq!(once, format!("x{}</body>", block));
    assert_eq!(twice.chars().count(), "x</body>".len() + 2 * block.chars().count());
    assert!(twice.starts_with("x\n    <script type=\"module\">\n    let t = \"\n    <script"));
}

#[test]
fn code_element_is_taken_out_of_a_diagram_block() {
    assert_eq!(
        clean_mermaid_code_tags("<pre class=\"mermaid\"><code>graph TD; A-->B</code></pre>"),
        Some("<pre class=\"mermaid\">graph TD; A-->B</pre>".to_string())
    );
}

#[test]
fn diagram_text_may_span_lines() {
    assert_eq!(
        clean_mermaid_code_tags(
            "<p>a</p>\n<pre class=\"mermaid\"><code>graph TD;\n  A-->B;\n  B-->C;\n</code></pre>\n<p>b</p>"
        ),
        Some(
            "<p>a</p>\n<pre class=\"mermaid\">graph TD;\n  A-->B;\n  B-->C;\n</pre>\n<p>b</p>"
                .to_string()
        )
    );
}

#[test]
fn every_diagram_block_is_cleaned() {
    assert_eq!(
        clean_mermaid_code_tags(
            "<pre class=\"mermaid\"><code>one</code></pre><pre class=\"mermaid\"><code>two</code></pre>"
        ),
        Some("<pre class=\"mermaid\">one</pre><pre class=\"mermaid\">two</pre>".to_string())
    );
}

#[test]
fn diagram_block_ends_at_the_first_closing_pair() {
    assert_eq!(
        clean_mermaid_code_tags(
            "<pre class=\"mermaid\"><code>a</code></pre> and <code>b</code></pre>"
        ),
        Some("<pre class=\"mermaid\">a</pre> and <code>b</code></pre>".to_string())
    );
}

#[test]
fn other_blocks_are_left_alone() {
    let page = "<pre class=\"python\"><code>x = 1</code></pre><pre class=\"mermaid\">plain</pre>";
    assert_eq!(clean_mermaid_code_tags(page), Some(page.to_string()));
    assert_eq!(clean_mermaid_code_tags(""), Some(String::new()));
}

#[test]
fn dollar_signs_in_a_diagram_are_kept() {
    assert_eq!(
        clean_mermaid_code_tags("<pre class=\"mermaid\"><code>cost $1 $0</code></pre>"),
        Some("<pre class=\"mermaid\">cost $1 $0</pre>".to_string())
    );
}

#[test]
fn both_passes_run_in_order() {
    let page = postprocess_html(
        "<body><pre class=\"mermaid\"><code>graph LR; A-->B</code></pre></body>",
        "let m = 1;",
    );
    assert_eq!(
        page,
        Some(format!("<body><pre class=\"mermaid\">graph LR; A-->B</pre>{}</body>", BLOCK))
    );
}

#[test]
fn script_with_a_diagram_block_is_cleaned_too() {
    let script = "<pre class=\"mermaid\"><code>s</code></pre>";
    let page = postprocess_html("</body>", script).unwrap();
    assert!(page.contains("<pre class=\"mermaid\">s</pre>"));
    assert!(!page.contains("<code>"));
}
