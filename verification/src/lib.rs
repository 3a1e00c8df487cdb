//! Interactive editing of a shell command's argument list.
//!
//! The crate holds the logic of a terminal tool that shows a command, its
//! arguments and the command's reference text side by side, and lets the user
//! rearrange the arguments before running the command.  The pieces here are
//! the argument normalizer, the modal editor state machine, the scroll state
//! of the documentation pane and the small computations that rendering needs.
//! Terminal input and output, the clipboard and process spawning stay outside.

use vstd::prelude::*;

pub mod app;
pub mod documentation;
pub mod editor;
pub mod normalize;
pub mod render;
mod textops;

pub use app::App;
pub use documentation::Documentation;
pub use editor::CommandViewer;
pub use editor::EditorMode;
pub use normalize::format_arguments;
pub use render::CommandViewerState;

verus! {

/// The program's own invocation: the command to edit, given as the trailing
/// words of the command line, command name first.
pub struct Cli {
    pub command: Vec<String>,
}

} // verus!
