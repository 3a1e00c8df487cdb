use comcom::editor::CommandViewer;
use comcom::editor::EditorMode;
use comcom::editor::Key;
use comcom::editor::KeyModifier;
use comcom::editor::Signal;

fn strings(words: &[&str]) -> Vec<String> {
    words.iter().map(|w| w.to_string()).collect()
}

fn viewer(args: &[&str]) -> CommandViewer {
    CommandViewer::new("ls".to_string(), strings(args))
}

#[test]
fn new_viewer_starts_at_name_in_normal_mode() {
    let cv = viewer(&["-l /tmp"]);
    assert_eq!(cv.selected_index, 0);
    assert_eq!(cv.mode, EditorMode::Normal);
    assert_eq!(cv.arguments, strings(&["-l /tmp"]));
}

#[test]
fn move_down_wraps_after_last_argument() {
    let mut cv = viewer(&["a", "b", "c"]);
    let mut seen = Vec::new();
    for _ in 0..4 {
        cv.move_down();
        seen.push(cv.selected_index);
    }
    assert_eq!(seen, vec![1, 2, 3, 0]);
}

#[test]
fn move_up_wraps_to_last_argument() {
    let mut cv = viewer(&["a", "b"]);
    cv.move_up();
    assert_eq!(cv.selected_index, 2);
    cv.move_up();
    assert_eq!(cv.selected_index, 1);
    cv.move_up();
    assert_eq!(cv.selected_index, 0);
}

#[test]
fn enter_on_command_name_is_ignored() {
    let mut cv = viewer(&["-l /tmp"]);
    let signal = cv.handle_event(Key::Enter, KeyModifier::Plain);
    assert_eq!(signal, Signal::Stay);
    assert_eq!(cv.mode, EditorMode::Normal);
    assert_eq!(cv.selected_index, 0);
}

#[test]
fn enter_on_argument_starts_editing() {
    let mut cv = viewer(&["-l /tmp"]);
    cv.move_down();
    let signal = cv.handle_event(Key::Enter, KeyModifier::Plain);
    assert_eq!(signal, Signal::Stay);
    assert_eq!(cv.mode, EditorMode::Insert);
    assert_eq!(cv.selected_index, 1);
}

#[test]
fn backspace_scenario_on_ls() {
    let mut cv = viewer(&["-l /tmp"]);
    cv.move_down();
    cv.handle_event(Key::Enter, KeyModifier::Plain);
    cv.handle_event(Key::Backspace, KeyModifier::Plain);
    assert_eq!(cv.arguments, strings(&["-l /tm"]));
    cv.handle_event(Key::Enter, KeyModifier::Plain);
    assert_eq!(cv.mode, EditorMode::Normal);
    assert_eq!(cv.arguments, strings(&["-l /tm"]));
}

#[test]
fn open_below_then_confirm_empty_restores_arguments() {
    let mut cv = viewer(&["-l /tmp", "-a"]);
    let before = cv.arguments.clone();
    let signal = cv.handle_event(Key::Char('o'), KeyModifier::Plain);
    assert_eq!(signal, Signal::Stay);
    assert_eq!(cv.mode, EditorMode::Insert);
    assert_eq!(cv.arguments.len(), 3);
    assert_eq!(cv.selected_index, 1);
    cv.handle_event(Key::Enter, KeyModifier::Plain);
    assert_eq!(cv.mode, EditorMode::Normal);
    assert_eq!(cv.arguments, before);
}

#[test]
fn open_above_keeps_selection_on_new_slot() {
    let mut cv = viewer(&["a", "b"]);
    cv.move_down();
    cv.move_down();
    let signal = cv.handle_event(Key::Char('O'), KeyModifier::Plain);
    assert_eq!(signal, Signal::Stay);
    assert_eq!(cv.mode, EditorMode::Insert);
    assert_eq!(cv.selected_index, 2);
    assert_eq!(cv.arguments, strings(&["a", "", "b"]));
}

#[test]
fn open_above_on_command_name_is_ignored() {
    let mut cv = viewer(&["a"]);
    cv.handle_event(Key::Char('O'), KeyModifier::Plain);
    assert_eq!(cv.mode, EditorMode::Normal);
    assert_eq!(cv.arguments, strings(&["a"]));
}

#[test]
fn insert_appends_typed_characters() {
    let mut cv = viewer(&["-n"]);
    cv.move_down();
    cv.handle_event(Key::Enter, KeyModifier::Plain);
    cv.handle_event(Key::Char('a'), KeyModifier::Plain);
    cv.handle_event(Key::Char('b'), KeyModifier::Plain);
    assert_eq!(cv.arguments, strings(&["-nab"]));
}

#[test]
fn backspace_on_empty_argument_keeps_it_empty() {
    let mut cv = viewer(&["x"]);
    cv.handle_event(Key::Char('o'), KeyModifier::Plain);
    cv.handle_event(Key::Backspace, KeyModifier::Plain);
    assert_eq!(cv.arguments, strings(&["", "x"]));
}

#[test]
fn confirm_renormalizes_whole_list() {
    let mut cv = viewer(&["-f", "value"]);
    cv.move_down();
    cv.handle_event(Key::Enter, KeyModifier::Plain);
    cv.handle_event(Key::Esc, KeyModifier::Plain);
    assert_eq!(cv.arguments, strings(&["-f value"]));
}

#[test]
fn confirm_clamps_selection_after_list_shrinks() {
    let mut cv = viewer(&["-f", "value"]);
    cv.move_down();
    cv.move_down();
    assert_eq!(cv.selected_index, 2);
    cv.handle_event(Key::Enter, KeyModifier::Plain);
    cv.handle_event(Key::Enter, KeyModifier::Plain);
    assert_eq!(cv.arguments, strings(&["-f value"]));
    assert_eq!(cv.selected_index, 1);
}

#[test]
fn quit_keys_signal_quit() {
    let mut cv = viewer(&["a"]);
    assert_eq!(cv.handle_event(Key::Char('q'), KeyModifier::Plain), Signal::Quit);
    assert_eq!(cv.handle_event(Key::Char('E'), KeyModifier::Plain), Signal::Quit);
    assert_eq!(cv.mode, EditorMode::Normal);
}

#[test]
fn typing_q_while_editing_does_not_quit() {
    let mut cv = viewer(&["a"]);
    cv.move_down();
    cv.handle_event(Key::Enter, KeyModifier::Plain);
    let signal = cv.handle_event(Key::Char('q'), KeyModifier::Plain);
    assert_eq!(signal, Signal::Stay);
    assert_eq!(cv.arguments, strings(&["aq"]));
}

#[test]
fn alt_enter_signals_run() {
    let mut cv = viewer(&["a"]);
    assert_eq!(cv.handle_event(Key::Enter, KeyModifier::Alt), Signal::RunCommand);
    assert_eq!(cv.mode, EditorMode::Normal);
}

#[test]
fn copy_key_signals_copy() {
    let mut cv = viewer(&["a"]);
    assert_eq!(cv.handle_event(Key::Char('y'), KeyModifier::Plain), Signal::CopyCommand);
}

#[test]
fn unrecognized_keys_are_ignored() {
    let mut cv = viewer(&["a"]);
    assert_eq!(cv.handle_event(Key::Char('x'), KeyModifier::Plain), Signal::Stay);
    assert_eq!(cv.handle_event(Key::Char('j'), KeyModifier::Other), Signal::Stay);
    assert_eq!(cv.selected_index, 0);
    assert_eq!(cv.mode, EditorMode::Normal);
    assert_eq!(cv.arguments, strings(&["a"]));
}

#[test]
fn command_line_joins_name_and_arguments() {
    let cv = viewer(&["-l /tmp", "-a"]);
    assert_eq!(cv.command_line(), "ls -l /tmp -a".to_string());
}

#[test]
fn command_line_of_bare_command_ends_with_space() {
    let cv = viewer(&[]);
    assert_eq!(cv.command_line(), "ls ".to_string());
}
