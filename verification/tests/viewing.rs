use comcom::app::App;
use comcom::documentation::Documentation;
use comcom::editor::EditorMode;
use comcom::editor::Key;
use comcom::editor::KeyModifier;
use comcom::editor::Signal;
use comcom::render::CommandViewerState;
use comcom::render::PaneRect;
use comcom::render::mode_label;
use comcom::render::pane_layout;
use comcom::render::pane_lines;

fn strings(words: &[&str]) -> Vec<String> {
    words.iter().map(|w| w.to_string()).collect()
}

fn ten_lines() -> String {
    let mut text = String::new();
    for i in 0..10 {
        if i > 0 {
            text.push('\n');
        }
        text.push_str(&format!("line {i}"));
    }
    text
}

#[test]
fn empty_documentation_gets_sentinel() {
    let doc = Documentation::new(String::new());
    assert_eq!(doc.visible_text(), "No Documentation Available".to_string());
    assert_eq!(doc.offset(), 0);
}

#[test]
fn scroll_down_moves_in_steps_of_five() {
    let mut doc = Documentation::new(ten_lines());
    doc.scroll_down();
    assert_eq!(doc.offset(), 5);
    assert!(doc.visible_text().starts_with("line 5"));
}

#[test]
fn scroll_down_stops_before_running_out_of_lines() {
    let mut doc = Documentation::new(ten_lines());
    doc.scroll_down();
    doc.scroll_down();
    assert_eq!(doc.offset(), 5);
}

#[test]
fn scroll_down_on_short_text_is_ignored() {
    let mut doc = Documentation::new("first\nsecond".to_string());
    doc.scroll_down();
    assert_eq!(doc.offset(), 0);
    assert_eq!(doc.visible_text(), "first\nsecond".to_string());
}

#[test]
fn scroll_up_floors_at_the_top() {
    let mut doc = Documentation::new(ten_lines());
    doc.scroll_up();
    assert_eq!(doc.offset(), 0);
    doc.scroll_down();
    doc.scroll_up();
    assert_eq!(doc.offset(), 0);
}

#[test]
fn offset_stays_a_multiple_of_five_within_the_lines() {
    let mut text = String::new();
    for i in 0..23 {
        text.push_str(&format!("row {i}\n"));
    }
    let mut doc = Documentation::new(text);
    let moves = [true, true, false, true, true, true, false, false, false, false];
    for down in moves {
        if down {
            doc.scroll_down();
        } else {
            doc.scroll_up();
        }
        assert_eq!(doc.offset() % 5, 0);
        assert!(doc.offset() <= 23);
    }
}

#[test]
fn visible_text_drops_leading_lines() {
    let mut doc = Documentation::new("a\nb\nc\nd\ne\nf\ng".to_string());
    doc.scroll_down();
    assert_eq!(doc.visible_text(), "f\ng".to_string());
}

#[test]
fn mode_labels_match_status_line() {
    assert_eq!(mode_label(EditorMode::Normal), "-NORMAL-".to_string());
    assert_eq!(mode_label(EditorMode::Insert), "-INSERT-".to_string());
}

#[test]
fn pane_lines_show_name_then_indented_arguments() {
    let cv = comcom::editor::CommandViewer::new("ls".to_string(), strings(&["-l", "/tmp"]));
    let lines = pane_lines(&cv);
    assert_eq!(lines, strings(&["ls", "    -l", "    /tmp"]));
}

#[test]
fn pane_lines_mark_the_edited_argument() {
    let mut cv = comcom::editor::CommandViewer::new("ls".to_string(), strings(&["-l", "/tmp"]));
    cv.move_down();
    cv.handle_event(Key::Enter, KeyModifier::Plain);
    let lines = pane_lines(&cv);
    assert_eq!(lines, strings(&["ls", "    -l_", "    /tmp"]));
}

#[test]
fn pane_layout_splits_wide_surface() {
    let (command, documentation, status) = pane_layout(100, 30);
    assert_eq!(command, PaneRect { x: 0, y: 0, width: 60, height: 29 });
    assert_eq!(documentation, PaneRect { x: 60, y: 0, width: 40, height: 29 });
    assert_eq!(status, PaneRect { x: 0, y: 29, width: 100, height: 1 });
}

#[test]
fn pane_layout_shrinks_on_narrow_surface() {
    let (command, documentation, status) = pane_layout(40, 1);
    assert_eq!(command, PaneRect { x: 0, y: 0, width: 40, height: 0 });
    assert_eq!(documentation, PaneRect { x: 40, y: 0, width: 0, height: 0 });
    assert_eq!(status, PaneRect { x: 0, y: 0, width: 40, height: 1 });
}

#[test]
fn pane_layout_of_empty_surface_is_empty() {
    let (command, documentation, status) = pane_layout(0, 0);
    assert_eq!(command, PaneRect { x: 0, y: 0, width: 0, height: 0 });
    assert_eq!(documentation, PaneRect { x: 0, y: 0, width: 0, height: 0 });
    assert_eq!(status, PaneRect { x: 0, y: 0, width: 0, height: 0 });
}

#[test]
fn command_viewer_state_packs_its_fields() {
    let state = CommandViewerState::new(3, true);
    assert_eq!(state.selected_index, 3);
    assert!(state.editing);
}

#[test]
fn app_routes_scroll_keys_to_the_documentation() {
    let mut app = App::new("ls".to_string(), strings(&["-l /tmp"]), ten_lines());
    let signal = app.handle_event(Key::Char('d'), KeyModifier::Control);
    assert_eq!(signal, Signal::Stay);
    assert_eq!(app.documentation.offset(), 5);
    assert_eq!(app.command.selected_index, 0);
    app.handle_event(Key::Char('u'), KeyModifier::Control);
    assert_eq!(app.documentation.offset(), 0);
}

#[test]
fn app_routes_other_keys_to_the_editor() {
    let mut app = App::new("ls".to_string(), strings(&["-l /tmp"]), ten_lines());
    let signal = app.handle_event(Key::Char('j'), KeyModifier::Plain);
    assert_eq!(signal, Signal::Stay);
    assert_eq!(app.command.selected_index, 1);
    assert_eq!(app.documentation.offset(), 0);
    assert_eq!(app.handle_event(Key::Char('q'), KeyModifier::Plain), Signal::Quit);
}

#[test]
fn app_substitutes_documentation_sentinel() {
    let app = App::new("nosuch".to_string(), Vec::new(), String::new());
    assert_eq!(app.documentation.visible_text(), "No Documentation Available".to_string());
}

#[test]
fn cli_carries_the_trailing_command() {
    let cli = comcom::Cli { command: strings(&["ls", "-l", "/tmp"]) };
    assert_eq!(cli.command.len(), 3);
    assert_eq!(cli.command[0], "ls".to_string());
}
