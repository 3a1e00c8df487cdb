//! The modal editor over a command's argument list.
//!
//! The editor owns the command name, the ordered arguments, the selected
//! index and the mode.  Index 0 of the displayed list stands for the command
//! name itself, so the selection ranges over `0..=len(arguments)`, and index
//! `i > 0` selects argument `i - 1`.  Normal mode moves the selection and
//! triggers commands; Insert mode edits the selected argument character by
//! character.  Every transition is total: an input that no rule covers
//! leaves the state unchanged.

use vstd::prelude::*;

use crate::normalize::normalize;
use crate::normalize::merge_pass;
use crate::normalize::split_arguments;
use crate::textops::pop_char;
use crate::textops::push_char;

verus! {

/// The two modes of the editor.
#[derive(Clone, Copy, PartialEq, Eq, Structural, Debug)]
pub enum EditorMode {
    Normal,
    Insert,
}

/// A key press, reduced to what the editor reads.
#[derive(Clone, Copy, PartialEq, Eq, Structural, Debug)]
pub enum Key {
    Char(char),
    Enter,
    Esc,
    Backspace,
    Up,
    Down,
}

/// The modifier held with a key press, reduced to what the editor reads.
#[derive(Clone, Copy, PartialEq, Eq, Structural, Debug)]
pub enum KeyModifier {
    Plain,
    Alt,
    Control,
    Other,
}

/// What the caller must do after a transition: the editor itself never
/// performs the outside work it decides on.
#[derive(Clone, Copy, PartialEq, Eq, Structural, Debug)]
pub enum Signal {
    Stay,
    Quit,
    RunCommand,
    CopyCommand,
}

/// The editor's state as the contracts speak of it.
#[verifier::ext_equal]
pub ghost struct EditorView {
    pub name: Seq<char>,
    pub args: Seq<Seq<char>>,
    pub sel: int,
    pub mode: EditorMode,
}

/// The editor's invariant: the selection stays within `0..=len(arguments)`,
/// and Insert mode always edits a real argument.
pub open spec fn editor_wf(v: EditorView) -> bool {
    &&& 0 <= v.sel <= v.args.len()
    &&& (v.mode is Insert ==> v.sel >= 1)
}

/// Moving the selection down wraps from the last argument to the name.
pub open spec fn next_down(sel: int, len: int) -> int {
    if sel < len {
        sel + 1
    } else {
        0
    }
}

/// Moving the selection up wraps from the name to the last argument.
pub open spec fn next_up(sel: int, len: int) -> int {
    if sel != 0 {
        sel - 1
    } else {
        len
    }
}

/// The selection, pulled back into `0..=len` after the list shrank.
pub open spec fn clamped(sel: int, len: int) -> int {
    if sel <= len {
        sel
    } else {
        len
    }
}

/// Leaving Insert mode: an argument left empty is removed, the whole list is
/// normalized again, and the selection is clamped to the new length.
pub open spec fn confirm_view(v: EditorView) -> EditorView {
    let trimmed = if v.args[v.sel - 1].len() == 0 {
        v.args.remove(v.sel - 1)
    } else {
        v.args
    };
    let normalized = normalize(trimmed);
    EditorView {
        name: v.name,
        args: normalized,
        sel: clamped(v.sel, normalized.len() as int),
        mode: EditorMode::Normal,
    }
}

/// A Normal-mode transition: what the state becomes and what the caller
/// must do.  Inputs that no row of the table covers change nothing.
pub open spec fn step_normal(v: EditorView, key: Key, m: KeyModifier) -> (EditorView, Signal) {
    match (key, m) {
        (Key::Enter, KeyModifier::Alt) => (v, Signal::RunCommand),
        (Key::Enter, KeyModifier::Plain) => {
            if v.sel > 0 {
                (EditorView { mode: EditorMode::Insert, ..v }, Signal::Stay)
            } else {
                (v, Signal::Stay)
            }
        },
        (Key::Down, KeyModifier::Plain) => (
            EditorView { sel: next_down(v.sel, v.args.len() as int), ..v },
            Signal::Stay,
        ),
        (Key::Up, KeyModifier::Plain) => (
            EditorView { sel: next_up(v.sel, v.args.len() as int), ..v },
            Signal::Stay,
        ),
        (Key::Char(c), KeyModifier::Plain) => {
            if c == 'q' || c == 'E' {
                (v, Signal::Quit)
            } else if c == 'y' {
                (v, Signal::CopyCommand)
            } else if c == 'o' {
                (
                    EditorView {
                        args: v.args.insert(v.sel, Seq::empty()),
                        sel: v.sel + 1,
                        mode: EditorMode::Insert,
                        ..v
                    },
                    Signal::Stay,
                )
            } else if c == 'O' {
                if v.sel > 0 {
                    (
                        EditorView {
                            args: v.args.insert(v.sel - 1, Seq::empty()),
                            mode: EditorMode::Insert,
                            ..v
                        },
                        Signal::Stay,
                    )
                } else {
                    (v, Signal::Stay)
                }
            } else if c == 'j' {
                (EditorView { sel: next_down(v.sel, v.args.len() as int), ..v }, Signal::Stay)
            } else if c == 'k' {
                (EditorView { sel: next_up(v.sel, v.args.len() as int), ..v }, Signal::Stay)
            } else {
                (v, Signal::Stay)
            }
        },
        _ => (v, Signal::Stay),
    }
}

/// An Insert-mode transition.  Printable characters grow the selected
/// argument, backspace shrinks it, and escape or enter leaves Insert mode
/// through `confirm_view`.
pub open spec fn step_insert(v: EditorView, key: Key, m: KeyModifier) -> (EditorView, Signal) {
    match (key, m) {
        (Key::Char(c), KeyModifier::Plain) => (
            EditorView { args: v.args.update(v.sel - 1, v.args[v.sel - 1].push(c)), ..v },
            Signal::Stay,
        ),
        (Key::Backspace, KeyModifier::Plain) => {
            let arg = v.args[v.sel - 1];
            if arg.len() > 0 {
                (
                    EditorView { args: v.args.update(v.sel - 1, arg.drop_last()), ..v },
                    Signal::Stay,
                )
            } else {
                (v, Signal::Stay)
            }
        },
        (Key::Esc, _) => (confirm_view(v), Signal::Stay),
        (Key::Enter, _) => (confirm_view(v), Signal::Stay),
        _ => (v, Signal::Stay),
    }
}

/// The whole transition table of the editor.
pub open spec fn editor_step(v: EditorView, key: Key, m: KeyModifier) -> (EditorView, Signal) {
    match v.mode {
        EditorMode::Normal => step_normal(v, key, m),
        EditorMode::Insert => step_insert(v, key, m),
    }
}

/// The command pane: the command name, its arguments, the selection and the
/// mode, with one transition operation for each input the pane answers to.
pub struct CommandViewer {
    pub name: String,
    pub arguments: Vec<String>,
    pub selected_index: usize,
    pub mode: EditorMode,
}

impl View for CommandViewer {
    type V = EditorView;

    open spec fn view(&self) -> EditorView {
        EditorView {
            name: self.name@,
            args: self.arguments.deep_view(),
            sel: self.selected_index as int,
            mode: self.mode,
        }
    }
}

impl CommandViewer {
    /// A fresh pane: nothing selected (the command name is under the cursor)
    /// and Normal mode.
    pub fn new(name: String, arguments: Vec<String>) -> (r: CommandViewer)
        ensures
            r@.name == name@,
            r@.args == arguments.deep_view(),
            r@.sel == 0,
            r@.mode is Normal,
            editor_wf(r@),
    {
        CommandViewer { name, arguments, selected_index: 0, mode: EditorMode::Normal }
    }

    /// Moves the selection one row down, wrapping to the command name after
    /// the last argument.
    pub fn move_down(&mut self)
        requires
            editor_wf(old(self)@),
            old(self)@.mode is Normal,
        ensures
            final(self)@ =~= (EditorView {
                sel: next_down(old(self)@.sel, old(self)@.args.len() as int),
                ..old(self)@
            }),
            editor_wf(final(self)@),
    {
        if self.selected_index < self.arguments.len() {
            self.selected_index = self.selected_index + 1;
        } else {
            self.selected_index = 0;
        }
    }

    /// Moves the selection one row up, wrapping to the last argument from
    /// the command name.
    pub fn move_up(&mut self)
        requires
            editor_wf(old(self)@),
            old(self)@.mode is Normal,
        ensures
            final(self)@ =~= (EditorView {
                sel: next_up(old(self)@.sel, old(self)@.args.len() as int),
                ..old(self)@
            }),
            editor_wf(final(self)@),
    {
        if self.selected_index != 0 {
            self.selected_index = self.selected_index - 1;
        } else {
            self.selected_index = self.arguments.len();
        }
    }

    /// Starts editing the selected argument.  The command name itself is
    /// never edited, so a real argument must be selected.
    pub fn begin_edit(&mut self)
        requires
            editor_wf(old(self)@),
            old(self)@.mode is Normal,
            old(self)@.sel >= 1,
        ensures
            final(self)@ =~= (EditorView { mode: EditorMode::Insert, ..old(self)@ }),
            editor_wf(final(self)@),
    {
        self.mode = EditorMode::Insert;
    }

    /// Opens an empty argument below the selection and starts editing it.
    pub fn open_below(&mut self)
        requires
            editor_wf(old(self)@),
            old(self)@.mode is Normal,
        ensures
            final(self)@ =~= (EditorView {
                args: old(self)@.args.insert(old(self)@.sel, Seq::empty()),
                sel: old(self)@.sel + 1,
                mode: EditorMode::Insert,
                ..old(self)@
            }),
            editor_wf(final(self)@),
    {
        let ghost before = self.arguments.deep_view();
        self.arguments.insert(self.selected_index, String::new());
        proof {
            assert(self.arguments.deep_view() =~= before.insert(
                old(self)@.sel,
                Seq::<char>::empty(),
            ));
        }
        let n = self.arguments.len();
        assert(self.selected_index < n);
        self.selected_index = self.selected_index + 1;
        self.mode = EditorMode::Insert;
    }

    /// Opens an empty argument above the selection and starts editing it;
    /// the unchanged selection now points at the new empty slot.
    pub fn open_above(&mut self)
        requires
            editor_wf(old(self)@),
            old(self)@.mode is Normal,
            old(self)@.sel >= 1,
        ensures
            final(self)@ =~= (EditorView {
                args: old(self)@.args.insert(old(self)@.sel - 1, Seq::empty()),
                mode: EditorMode::Insert,
                ..old(self)@
            }),
            editor_wf(final(self)@),
    {
        let ghost before = self.arguments.deep_view();
        self.arguments.insert(self.selected_index - 1, String::new());
        proof {
            assert(self.arguments.deep_view() =~= before.insert(
                old(self)@.sel - 1,
                Seq::<char>::empty(),
            ));
        }
        self.mode = EditorMode::Insert;
    }

    /// Appends one character to the argument being edited.
    pub fn insert_char(&mut self, c: char)
        requires
            editor_wf(old(self)@),
            old(self)@.mode is Insert,
        ensures
            final(self)@ =~= (EditorView {
                args: old(self)@.args.update(
                    old(self)@.sel - 1,
                    old(self)@.args[old(self)@.sel - 1].push(c),
                ),
                ..old(self)@
            }),
            editor_wf(final(self)@),
    {
        let ghost before = self.arguments.deep_view();
        let i = self.selected_index - 1;
        push_char(&mut self.arguments[i], c);
        proof {
            assert(self.arguments.deep_view() =~= before.update(
                i as int,
                before[i as int].push(c),
            ));
        }
    }

    /// Removes the last character of the argument being edited; an empty
    /// argument stays empty.
    pub fn backspace(&mut self)
        requires
            editor_wf(old(self)@),
            old(self)@.mode is Insert,
        ensures
            final(self)@ =~= (if old(self)@.args[old(self)@.sel - 1].len() > 0 {
                EditorView {
                    args: old(self)@.args.update(
                        old(self)@.sel - 1,
                        old(self)@.args[old(self)@.sel - 1].drop_last(),
                    ),
                    ..old(self)@
                }
            } else {
                old(self)@
            }),
            editor_wf(final(self)@),
    {
        let ghost before = self.arguments.deep_view();
        let i = self.selected_index - 1;
        let _dropped = pop_char(&mut self.arguments[i]);
        proof {
            if before[i as int].len() > 0 {
                assert(self.arguments.deep_view() =~= before.update(
                    i as int,
                    before[i as int].drop_last(),
                ));
            } else {
                assert(self.arguments.deep_view() =~= before);
            }
        }
    }

    /// Leaves Insert mode: removes the argument if it was left empty,
    /// normalizes the whole list again and clamps the selection to the new
    /// length.
    pub fn confirm(&mut self)
        requires
            editor_wf(old(self)@),
            old(self)@.mode is Insert,
        ensures
            final(self)@ =~= confirm_view(old(self)@),
            editor_wf(final(self)@),
    {
        let ghost before = self.arguments.deep_view();
        let sel = self.selected_index;
        if self.arguments[sel - 1].as_str().is_empty() {
            self.arguments.remove(sel - 1);
            proof {
                assert(self.arguments.deep_view() =~= before.remove(sel - 1));
            }
        }
        let tokens = split_arguments(&self.arguments);
        self.arguments = merge_pass(tokens);
        if self.selected_index > self.arguments.len() {
            self.selected_index = self.arguments.len();
        }
        self.mode = EditorMode::Normal;
    }

    /// Answers one key press according to the transition table and says what
    /// the caller must do next.
    pub fn handle_event(&mut self, key: Key, m: KeyModifier) -> (signal: Signal)
        requires
            editor_wf(old(self)@),
        ensures
            final(self)@ =~= editor_step(old(self)@, key, m).0,
            signal == editor_step(old(self)@, key, m).1,
            editor_wf(final(self)@),
    {
        match self.mode {
            EditorMode::Normal => match (key, m) {
                (Key::Enter, KeyModifier::Alt) => Signal::RunCommand,
                (Key::Enter, KeyModifier::Plain) => {
                    if self.selected_index > 0 {
                        self.begin_edit();
                    }
                    Signal::Stay
                },
                (Key::Down, KeyModifier::Plain) => {
                    self.move_down();
                    Signal::Stay
                },
                (Key::Up, KeyModifier::Plain) => {
                    self.move_up();
                    Signal::Stay
                },
                (Key::Char(c), KeyModifier::Plain) => {
                    if c == 'q' || c == 'E' {
                        Signal::Quit
                    } else if c == 'y' {
                        Signal::CopyCommand
                    } else if c == 'o' {
                        self.open_below();
                        Signal::Stay
                    } else if c == 'O' {
                        if self.selected_index > 0 {
                            self.open_above();
                        }
                        Signal::Stay
                    } else if c == 'j' {
                        self.move_down();
                        Signal::Stay
                    } else if c == 'k' {
                        self.move_up();
                        Signal::Stay
                    } else {
                        Signal::Stay
                    }
                },
                _ => Signal::Stay,
            },
            EditorMode::Insert => match (key, m) {
                (Key::Char(c), KeyModifier::Plain) => {
                    self.insert_char(c);
                    Signal::Stay
                },
                (Key::Backspace, KeyModifier::Plain) => {
                    self.backspace();
                    Signal::Stay
                },
                (Key::Esc, _) => {
                    self.confirm();
                    Signal::Stay
                },
                (Key::Enter, _) => {
                    self.confirm();
                    Signal::Stay
                },
                _ => Signal::Stay,
            },
        }
    }
}

/// The arguments joined by single spaces, in order.
pub open spec fn join_spaces(args: Seq<Seq<char>>) -> Seq<char>
    decreases args.len(),
{
    if args.len() == 0 {
        Seq::empty()
    } else if args.len() == 1 {
        args[0]
    } else {
        args[0] + seq![' '] + join_spaces(args.drop_first())
    }
}

/// The whole command as one line: the name, a space, then the arguments
/// joined by spaces.
pub open spec fn command_line_spec(name: Seq<char>, args: Seq<Seq<char>>) -> Seq<char> {
    name + seq![' '] + join_spaces(args)
}

/// Joining distributes over appending one argument at the end.
proof fn lemma_join_push(p: Seq<Seq<char>>, a: Seq<char>)
    requires
        p.len() >= 1,
    ensures
        join_spaces(p.push(a)) == join_spaces(p) + seq![' '] + a,
    decreases p.len(),
{
    if p.len() == 1 {
        assert(p.push(a).drop_first() =~= seq![a]);
        assert(join_spaces(seq![a]) == a);
    } else {
        assert(p.push(a).drop_first() =~= p.drop_first().push(a));
        lemma_join_push(p.drop_first(), a);
        assert(p.push(a)[0] + seq![' '] + (join_spaces(p.drop_first()) + seq![' '] + a)
            =~= (p[0] + seq![' '] + join_spaces(p.drop_first())) + seq![' '] + a);
    }
}

impl CommandViewer {
    /// The command as it would be typed: what the clipboard receives.
    pub fn command_line(&self) -> (r: String)
        ensures
            r@ == command_line_spec(self@.name, self@.args),
    {
        let mut out = self.name.clone();
        out.append(" ");
        proof {
            reveal_strlit(" ");
            assert(" "@ =~= seq![' ']);
        }
        let mut k: usize = 0;
        while k < self.arguments.len()
            invariant
                k <= self.arguments@.len(),
                k == 0 ==> out@ == self@.name + seq![' '],
                k > 0 ==> out@ == self@.name + seq![' '] + join_spaces(
                    self.arguments.deep_view().subrange(0, k as int),
                ),
                " "@ == seq![' '],
            decreases self.arguments@.len() - k,
        {
            let ghost prefix = self.arguments.deep_view().subrange(0, k as int);
            if k > 0 {
                out.append(" ");
            }
            out.append(self.arguments[k].as_str());
            proof {
                let longer = self.arguments.deep_view().subrange(0, k + 1);
                assert(longer =~= prefix.push(self.arguments.deep_view()[k as int]));
                assert(self.arguments.deep_view()[k as int] == self.arguments@[k as int]@);
                if k == 0 {
                    assert(join_spaces(longer) == longer[0]);
                } else {
                    let arg = self.arguments.deep_view()[k as int];
                    lemma_join_push(prefix, arg);
                    assert(self@.name + seq![' '] + (join_spaces(prefix) + seq![' '] + arg)
                        =~= (self@.name + seq![' '] + join_spaces(prefix)) + seq![' '] + arg);
                }
            }
            k = k + 1;
        }
        proof {
            assert(self.arguments.deep_view().subrange(0, self.arguments@.len() as int)
                =~= self.arguments.deep_view());
            if self.arguments@.len() == 0 {
                assert(join_spaces(self.arguments.deep_view()) =~= Seq::<char>::empty());
                assert(self@.name + seq![' '] + Seq::<char>::empty() =~= self@.name + seq![' ']);
            }
        }
        out
    }
}

/// Every transition keeps the editor's invariant: the selection stays in
/// `0..=len(arguments)` and Insert mode always points at a real argument.
pub proof fn lemma_step_preserves_wf(v: EditorView, key: Key, m: KeyModifier)
    requires
        editor_wf(v),
    ensures
        editor_wf(editor_step(v, key, m).0),
{
}

/// The selection after `k` successive move-down steps.
pub open spec fn down_steps(sel: int, len: int, k: nat) -> int
    decreases k,
{
    if k == 0 {
        sel
    } else {
        next_down(down_steps(sel, len, (k - 1) as nat), len)
    }
}

/// From the top, `k` move-down steps land on row `k`, while `k` stays
/// within the rows.
proof fn lemma_down_steps_in_order(len: int, k: nat)
    requires
        k <= len,
    ensures
        down_steps(0, len, k) == k,
    decreases k,
{
    if k > 0 {
        lemma_down_steps_in_order(len, (k - 1) as nat);
    }
}

/// Moving down wraps around: from the command name the selection visits
/// every row of `0..=len` in order and is back at the command name after
/// `len + 1` steps.
pub proof fn lemma_move_down_cycles(len: int)
    requires
        len >= 0,
    ensures
        forall|k: nat| k <= len ==> #[trigger] down_steps(0, len, k) == k,
        down_steps(0, len, (len + 1) as nat) == 0,
{
    assert forall|k: nat| k <= len implies #[trigger] down_steps(0, len, k) == k by {
        lemma_down_steps_in_order(len, k);
    }
    lemma_down_steps_in_order(len, len as nat);
    assert(down_steps(0, len, (len + 1) as nat) == next_down(
        down_steps(0, len, len as nat),
        len,
    ));
}

/// Opening a row below the selection and confirming it untouched is a
/// no-op: the empty argument is removed again, and renormalizing restores
/// an already-normalized list exactly.  (Every list the normalizer produced
/// is such a list, by `lemma_normalize_idempotent`; a list that is not —
/// one holding, say, a single argument with an embedded space that is no
/// flag-value pair — would be re-split on the way out.)
pub proof fn lemma_open_below_confirm_restores(v: EditorView)
    requires
        editor_wf(v),
        v.mode is Normal,
        v.args == normalize(v.args),
    ensures
        ({
            let opened = editor_step(v, Key::Char('o'), KeyModifier::Plain).0;
            let confirmed = editor_step(opened, Key::Enter, KeyModifier::Plain).0;
            &&& confirmed.args == v.args
            &&& confirmed.name == v.name
            &&& confirmed.mode is Normal
            &&& confirmed.sel == clamped(v.sel + 1, v.args.len() as int)
        }),
{
    let opened = editor_step(v, Key::Char('o'), KeyModifier::Plain).0;
    assert(opened.args == v.args.insert(v.sel, Seq::<char>::empty()));
    assert(opened.sel == v.sel + 1);
    let confirmed = editor_step(opened, Key::Enter, KeyModifier::Plain).0;
    assert(opened.args[opened.sel - 1] == Seq::<char>::empty());
    assert(opened.args.remove(v.sel) =~= v.args);
    assert(confirmed.args == normalize(v.args));
}

} // verus!
