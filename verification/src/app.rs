//! The application state: the command pane and the documentation pane side
//! by side.  One dispatcher hands every key press to the pane it belongs
//! to — control-d and control-u scroll the documentation, everything else
//! drives the editor — and says what the caller must do next.

use vstd::prelude::*;

use crate::documentation::DocView;
use crate::documentation::Documentation;
use crate::documentation::doc_step;
use crate::documentation::doc_wf;
use crate::editor::CommandViewer;
use crate::editor::EditorView;
use crate::editor::Key;
use crate::editor::KeyModifier;
use crate::editor::Signal;
use crate::editor::editor_step;
use crate::editor::editor_wf;

verus! {

/// The whole application state as the contracts speak of it.
#[verifier::ext_equal]
pub ghost struct AppView {
    pub editor: EditorView,
    pub doc: DocView,
}

/// Both panes hold their own invariant.
pub open spec fn app_wf(v: AppView) -> bool {
    editor_wf(v.editor) && doc_wf(v.doc)
}

/// Whether a key press belongs to the documentation pane.
pub open spec fn is_scroll_key(key: Key, m: KeyModifier) -> bool {
    match (key, m) {
        (Key::Char(c), KeyModifier::Control) => c == 'd' || c == 'u',
        _ => false,
    }
}

/// One key press against the whole application: scroll keys reach the
/// documentation pane, every other key reaches the editor.
pub open spec fn app_step(v: AppView, key: Key, m: KeyModifier) -> (AppView, Signal) {
    if is_scroll_key(key, m) {
        (
            AppView {
                editor: v.editor,
                doc: DocView { text: v.doc.text, offset: doc_step(v.doc, key, m) },
            },
            Signal::Stay,
        )
    } else {
        (
            AppView { editor: editor_step(v.editor, key, m).0, doc: v.doc },
            editor_step(v.editor, key, m).1,
        )
    }
}

/// The application: the command pane and the documentation pane.
pub struct App {
    pub command: CommandViewer,
    pub documentation: Documentation,
}

impl View for App {
    type V = AppView;

    open spec fn view(&self) -> AppView {
        AppView { editor: self.command@, doc: self.documentation@ }
    }
}

impl App {
    /// A fresh application over the command to edit and its fetched
    /// reference text.
    pub fn new(command_name: String, command_arguments: Vec<String>, documentation: String) -> (r:
        App)
        ensures
            r@.editor.name == command_name@,
            r@.editor.args == command_arguments.deep_view(),
            r@.editor.sel == 0,
            r@.editor.mode is Normal,
            r@.doc.text == if documentation@.len() == 0 {
                "No Documentation Available"@
            } else {
                documentation@
            },
            r@.doc.offset == 0,
            app_wf(r@),
    {
        App {
            command: CommandViewer::new(command_name, command_arguments),
            documentation: Documentation::new(documentation),
        }
    }

    /// Answers one key press: hands it to the pane it belongs to and says
    /// what the caller must do next.
    pub fn handle_event(&mut self, key: Key, m: KeyModifier) -> (signal: Signal)
        requires
            app_wf(old(self)@),
        ensures
            final(self)@ =~= app_step(old(self)@, key, m).0,
            signal == app_step(old(self)@, key, m).1,
            app_wf(final(self)@),
    {
        let scroll = match (key, m) {
            (Key::Char(c), KeyModifier::Control) => c == 'd' || c == 'u',
            _ => false,
        };
        if scroll {
            self.documentation.handle_event(key, m);
            Signal::Stay
        } else {
            self.command.handle_event(key, m)
        }
    }
}

} // verus!
