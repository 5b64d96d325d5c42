use leli::cli::{or_default, protocol, Args, Commands, Protocol, Source, Task, UsageError};
use leli::store::{new_rows, table_exists_query, table_name, HtmlMetadata};

fn text(s: &str) -> Option<String> {
    Some(s.to_string())
}

#[test]
fn extraction_of_a_file_with_defaults() {
    let args = Args {
        command: Commands::Extract { file: text("a.md"), folder: None, output: None, protocol: None },
    };
    assert_eq!(
        args.command.task(),
        Ok(Task::Extract {
            source: Source::File("a.md".to_string()),
            app_folder: ".app".to_string(),
            protocol: Protocol::Unspecified,
        })
    );
}

#[test]
fn extraction_of_a_folder_with_output_and_protocol() {
    let command = Commands::Extract {
        file: None,
        folder: text("docs"),
        output: text("out"),
        protocol: text("AImM"),
    };
    assert_eq!(
        command.task(),
        Ok(Task::Extract {
            source: Source::Folder("docs".to_string()),
            app_folder: "out".to_string(),
            protocol: Protocol::Merge,
        })
    );
}

#[test]
fn file_and_folder_together_are_refused() {
    let command = Commands::Extract {
        file: text("a.md"),
        folder: text("docs"),
        output: None,
        protocol: text("other"),
    };
    assert_eq!(command.task(), Err(UsageError::Conflict));
}

#[test]
fn unknown_protocol_is_kept_apart() {
    let command =
        Commands::Extract { file: text("a.md"), folder: None, output: None, protocol: text("x") };
    assert_eq!(
        command.task(),
        Ok(Task::Extract {
            source: Source::File("a.md".to_string()),
            app_folder: ".app".to_string(),
            protocol: Protocol::Other,
        })
    );
}

#[test]
fn extraction_of_nothing() {
    let command = Commands::Extract { file: None, folder: None, output: None, protocol: None };
    assert_eq!(
        command.task(),
        Ok(Task::Extract {
            source: Source::Nothing,
            app_folder: ".app".to_string(),
            protocol: Protocol::Unspecified,
        })
    );
}

#[test]
fn rendering_with_defaults() {
    let command = Commands::Translate { folder: "docs".to_string(), output: None, css: None };
    assert_eq!(
        command.task(),
        Ok(Task::Translate {
            folder: "docs".to_string(),
            doc_folder: "doc".to_string(),
            css_path: "src/css/style.css".to_string(),
        })
    );
}

#[test]
fn rendering_with_options() {
    let command =
        Commands::Translate { folder: "docs".to_string(), output: text("site"), css: text("s.css") };
    assert_eq!(
        command.task(),
        Ok(Task::Translate {
            folder: "docs".to_string(),
            doc_folder: "site".to_string(),
            css_path: "s.css".to_string(),
        })
    );
}

#[test]
fn saving_keeps_its_options() {
    let command = Commands::Save { file: "list.txt".to_string(), db: "pages.db".to_string() };
    assert_eq!(
        command.task(),
        Ok(Task::Save { file: "list.txt".to_string(), db: "pages.db".to_string() })
    );
}

#[test]
fn protocol_is_told_by_its_exact_name() {
    assert_eq!(protocol(&None), Protocol::Unspecified);
    assert_eq!(protocol(&text("AImM")), Protocol::Merge);
    assert_eq!(protocol(&text("aimm")), Protocol::Other);
    assert_eq!(protocol(&text("AImM ")), Protocol::Other);
    assert_eq!(protocol(&text("")), Protocol::Other);
}

#[test]
fn default_stands_in_for_what_is_not_given() {
    assert_eq!(or_default(&None, "doc"), "doc");
    assert_eq!(or_default(&text("site"), "doc"), "site");
    assert_eq!(or_default(&text(""), "doc"), "");
}

#[test]
fn rows_are_made_for_every_path() {
    let paths = vec!["a.html".to_string(), "b.html".to_string(), "a.html".to_string()];
    assert_eq!(
        new_rows(&paths),
        vec![
            HtmlMetadata { id: None, file_path: "a.html".to_string() },
            HtmlMetadata { id: None, file_path: "b.html".to_string() },
            HtmlMetadata { id: None, file_path: "a.html".to_string() },
        ]
    );
    assert_eq!(new_rows(&Vec::new()), Vec::<HtmlMetadata>::new());
}

#[test]
fn table_query_names_the_table() {
    assert_eq!(table_name(), "html_metadata");
    assert_eq!(
        table_exists_query(table_name()),
        "SELECT name FROM sqlite_master WHERE type='table' AND name='html_metadata';"
    );
}
