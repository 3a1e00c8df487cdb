//! What rendering reads: the visible lines of the command pane, the status
//! label, the pane rectangles, and the selection state handed to the list
//! widget.  Drawing itself happens outside; everything here only computes
//! the strings and rectangles that a drawing surface receives.

use vstd::prelude::*;

use crate::editor::CommandViewer;
use crate::editor::EditorMode;
use crate::editor::EditorView;

verus! {

/// The selection state the stateful list widget is rendered with.
#[derive(Default, Debug)]
pub struct CommandViewerState {
    pub selected_index: usize,
    pub editing: bool,
}

impl CommandViewerState {
    /// Packs the selection and the editing flag for one draw call.
    pub fn new(selected_index: usize, editing: bool) -> (r: CommandViewerState)
        ensures
            r.selected_index == selected_index,
            r.editing == editing,
    {
        CommandViewerState { selected_index, editing }
    }
}

/// The status-line label of a mode.
pub open spec fn mode_label_spec(mode: EditorMode) -> Seq<char> {
    match mode {
        EditorMode::Normal => "-NORMAL-"@,
        EditorMode::Insert => "-INSERT-"@,
    }
}

/// The label the status line shows for the given mode.
pub fn mode_label(mode: EditorMode) -> (r: String)
    ensures
        r@ == mode_label_spec(mode),
{
    match mode {
        EditorMode::Normal => String::from_str("-NORMAL-"),
        EditorMode::Insert => String::from_str("-INSERT-"),
    }
}

/// One argument's row in the command pane: indented four spaces, with a
/// trailing cursor mark while it is being edited.
pub open spec fn display_line(arg: Seq<char>, cursor: bool) -> Seq<char> {
    seq![' ', ' ', ' ', ' '] + arg + if cursor {
        seq!['_']
    } else {
        Seq::<char>::empty()
    }
}

/// All rows of the command pane: the command name first, then one indented
/// row per argument, the edited one carrying the cursor mark.
pub open spec fn pane_lines_spec(v: EditorView) -> Seq<Seq<char>> {
    seq![v.name] + Seq::new(
        v.args.len(),
        |i: int| display_line(v.args[i], i + 1 == v.sel && v.mode is Insert),
    )
}

/// The rows the command pane shows for the given editor state.
pub fn pane_lines(cv: &CommandViewer) -> (lines: Vec<String>)
    ensures
        lines.deep_view() == pane_lines_spec(cv@),
{
    let editing = cv.mode == EditorMode::Insert;
    let mut lines: Vec<String> = Vec::new();
    lines.push(cv.name.clone());
    proof {
        reveal_strlit("    ");
        reveal_strlit("_");
        assert("    "@ =~= seq![' ', ' ', ' ', ' ']);
        assert("_"@ =~= seq!['_']);
        assert(lines.deep_view() =~= seq![cv@.name]);
        assert(seq![cv@.name] =~= seq![cv@.name] + Seq::<Seq<char>>::new(
            0,
            |i: int| display_line(cv@.args[i], i + 1 == cv@.sel && cv@.mode is Insert),
        ));
    }
    let mut k: usize = 0;
    while k < cv.arguments.len()
        invariant
            k <= cv.arguments@.len(),
            editing == (cv.mode is Insert),
            "    "@ == seq![' ', ' ', ' ', ' '],
            "_"@ == seq!['_'],
            lines.deep_view() == seq![cv@.name] + Seq::<Seq<char>>::new(
                k as nat,
                |i: int| display_line(cv@.args[i], i + 1 == cv@.sel && cv@.mode is Insert),
            ),
        decreases cv.arguments@.len() - k,
    {
        let ghost done = lines.deep_view();
        let mut line = String::from_str("    ");
        line.append(cv.arguments[k].as_str());
        let cursor = k + 1 == cv.selected_index && editing;
        if cursor {
            line.append("_");
        }
        proof {
            assert(cv@.args[k as int] == cv.arguments@[k as int]@);
            assert(line@ =~= display_line(cv@.args[k as int], cursor));
        }
        lines.push(line);
        proof {
            assert(lines.deep_view() =~= done.push(
                display_line(cv@.args[k as int], k + 1 == cv@.sel && cv@.mode is Insert),
            ));
            assert(lines.deep_view() =~= seq![cv@.name] + Seq::<Seq<char>>::new(
                (k + 1) as nat,
                |i: int| display_line(cv@.args[i], i + 1 == cv@.sel && cv@.mode is Insert),
            ));
        }
        k = k + 1;
    }
    lines
}

/// One rectangular region of the terminal surface.
#[derive(Clone, Copy, PartialEq, Eq, Structural, Debug)]
pub struct PaneRect {
    pub x: u16,
    pub y: u16,
    pub width: u16,
    pub height: u16,
}

/// Splits the terminal into the fixed-width command pane on the left, the
/// documentation pane taking the remaining width, and a one-row status line
/// beneath both.  On a surface too small for the split, panes shrink to
/// nothing before anything overlaps.
pub fn pane_layout(width: u16, height: u16) -> (r: (PaneRect, PaneRect, PaneRect))
    ensures
        r.0 == (PaneRect {
            x: 0,
            y: 0,
            width: if width < 60 {
                width
            } else {
                60
            },
            height: if height > 0 {
                (height - 1) as u16
            } else {
                0
            },
        }),
        r.1 == (PaneRect {
            x: r.0.width,
            y: 0,
            width: (width - r.0.width) as u16,
            height: r.0.height,
        }),
        r.2 == (PaneRect {
            x: 0,
            y: r.0.height,
            width,
            height: if height > 0 {
                1
            } else {
                0
            },
        }),
{
    let command_width: u16 = if width < 60 {
        width
    } else {
        60
    };
    let main_height: u16 = if height > 0 {
        height - 1
    } else {
        0
    };
    let command = PaneRect { x: 0, y: 0, width: command_width, height: main_height };
    let documentation = PaneRect {
        x: command_width,
        y: 0,
        width: width - command_width,
        height: main_height,
    };
    let status = PaneRect {
        x: 0,
        y: main_height,
        width,
        height: if height > 0 {
            1
        } else {
            0
        },
    };
    (command, documentation, status)
}

} // verus!
