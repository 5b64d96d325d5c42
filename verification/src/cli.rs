//! The commands of the tool as plain values, and what each of them asks for
//! once the defaults are filled in.

use crate::text::{same_text, to_chars};
use vstd::prelude::*;
use vstd::string::StringExecFns;

verus! {

/// The arguments of one invocation.
#[derive(Debug, PartialEq, Eq)]
pub struct Args {
    pub command: Commands,
}

/// The commands, with their options as they were given.
#[allow(inconsistent_fields)]
#[derive(Debug, PartialEq, Eq)]
pub enum Commands {
    /// Extract the code of one file or of a folder.
    Extract {
        file: Option<String>,
        folder: Option<String>,
        output: Option<String>,
        protocol: Option<String>,
    },
    /// Render the documents of a folder.
    Translate { folder: String, output: Option<String>, css: Option<String> },
    /// Record the rendered documents that a manifest lists.
    Save { file: String, db: String },
}

/// What follows an extraction.
#[derive(Clone, Copy, Debug, PartialEq, Eq, Structural)]
pub enum Protocol {
    /// No protocol was named.
    Unspecified,
    /// The protocol that merges the reserved folders.
    Merge,
    /// A protocol was named, but not one that is known.
    Other,
}

/// What an extraction reads.
#[derive(Debug, PartialEq, Eq)]
pub enum Source {
    File(String),
    Folder(String),
    Nothing,
}

/// Why a command asks for nothing that can be done.
#[derive(Clone, Copy, Debug, PartialEq, Eq, Structural)]
pub enum UsageError {
    /// An extraction was given both a file and a folder.
    Conflict,
}

/// A command with its defaults filled in.
#[allow(inconsistent_fields)]
#[derive(Debug, PartialEq, Eq)]
pub enum Task {
    Extract { source: Source, app_folder: String, protocol: Protocol },
    Translate { folder: String, doc_folder: String, css_path: String },
    Save { file: String, db: String },
}

/// The folder that extracted code goes to where none is given.
pub open spec fn default_app_folder() -> Seq<char> {
    ".app"@
}

/// The folder that rendered documents go to where none is given.
pub open spec fn default_doc_folder() -> Seq<char> {
    "doc"@
}

/// The stylesheet that is used where none is given.
pub open spec fn default_css_path() -> Seq<char> {
    "src/css/style.css"@
}

/// The name of the protocol that merges the reserved folders.
pub open spec fn merge_protocol_name() -> Seq<char> {
    "AImM"@
}

/// The given text, or the default where none is given.
pub open spec fn text_or(given: Option<String>, default: Seq<char>) -> Seq<char> {
    match given {
        Some(text) => text@,
        None => default,
    }
}

/// The protocol that the option names.
pub open spec fn protocol_of(given: Option<String>) -> Protocol {
    match given {
        None => Protocol::Unspecified,
        Some(name) => if name@ == merge_protocol_name() {
            Protocol::Merge
        } else {
            Protocol::Other
        },
    }
}

/// Whether a command is refused: it is an extraction that was given both a
/// file and a folder.
pub open spec fn is_conflict(command: Commands) -> bool {
    command matches Commands::Extract { file, folder, .. } && file is Some && folder is Some
}

/// Whether `task` is the command `command` with its defaults filled in. An
/// extraction reads the file or the folder, whichever is given.
pub open spec fn is_task_of(task: Task, command: Commands) -> bool {
    match command {
        Commands::Extract { file, folder, output, protocol } => {
            &&& task matches Task::Extract { source, app_folder, protocol: chosen }
            &&& app_folder@ == text_or(output, default_app_folder())
            &&& chosen == protocol_of(protocol)
            &&& match (file, folder) {
                (Some(path), _) => source matches Source::File(read) && read@ == path@,
                (None, Some(path)) => source matches Source::Folder(read) && read@ == path@,
                (None, None) => source is Nothing,
            }
        },
        Commands::Translate { folder, output, css } => {
            &&& task matches Task::Translate { folder: read, doc_folder, css_path }
            &&& read@ == folder@
            &&& doc_folder@ == text_or(output, default_doc_folder())
            &&& css_path@ == text_or(css, default_css_path())
        },
        Commands::Save { file, db } => {
            &&& task matches Task::Save { file: read, db: store }
            &&& read@ == file@
            &&& store@ == db@
        },
    }
}

/// The given text, or the default where none is given.
pub fn or_default(given: &Option<String>, default: &str) -> (text: String)
    ensures
        text@ == text_or(*given, default@),
{
    match given {
        Some(text) => text.clone(),
        None => String::from_str(default),
    }
}

/// The protocol that the option names.
pub fn protocol(given: &Option<String>) -> (r: Protocol)
    ensures
        r == protocol_of(*given),
{
    match given {
        None => Protocol::Unspecified,
        Some(name) => {
            let named = to_chars(name.as_str());
            let merge = to_chars("AImM");
            if same_text(&named, &merge) {
                Protocol::Merge
            } else {
                Protocol::Other
            }
        },
    }
}

impl Commands {
    /// The command with its defaults filled in. An extraction that was
    /// given both a file and a folder is refused, and nothing else is.
    pub fn task(&self) -> (r: Result<Task, UsageError>)
        ensures
            is_conflict(*self) ==> r == Err::<Task, UsageError>(UsageError::Conflict),
            !is_conflict(*self) ==> (r matches Ok(task) && is_task_of(task, *self)),
    {
        match self {
            Commands::Extract { file, folder, output, protocol: named } => {
                let source = match (file, folder) {
                    (Some(_), Some(_)) => {
                        return Err(UsageError::Conflict);
                    },
                    (Some(path), None) => Source::File(path.clone()),
                    (None, Some(path)) => Source::Folder(path.clone()),
                    (None, None) => Source::Nothing,
                };
                Ok(
                    Task::Extract {
                        source,
                        app_folder: or_default(output, ".app"),
                        protocol: protocol(named),
                    },
                )
            },
            Commands::Translate { folder, output, css } => Ok(
                Task::Translate {
                    folder: folder.clone(),
                    doc_folder: or_default(output, "doc"),
                    css_path: or_default(css, "src/css/style.css"),
                },
            ),
            Commands::Save { file, db } => Ok(Task::Save { file: file.clone(), db: db.clone() }),
        }
    }
}

} // verus!
