use exo_shell::aliases::build_aliases;
use exo_shell::aliases::AliasTable;
use exo_shell::editor::Editor;
use exo_shell::editor::EditorAction;
use exo_shell::editor::InputEvent;
use exo_shell::history::HistoryLog;

fn no_entries() -> Vec<String> {
    Vec::new()
}

fn table() -> AliasTable {
    build_aliases("/home/user")
}

fn type_line(ed: &mut Editor, hist: &HistoryLog, aliases: &AliasTable, text: &str) {
    for c in text.chars() {
        ed.step(InputEvent::Char(c), hist, aliases, &no_entries());
    }
}

#[test]
fn typing_echoes_and_accumulates() {
    let hist = HistoryLog::new();
    let aliases = table();
    let mut ed = Editor::new();
    let a = ed.step(InputEvent::Char('l'), &hist, &aliases, &no_entries());
    assert!(matches!(a, EditorAction::Echo { c: 'l' }));
    let a = ed.step(InputEvent::Char('s'), &hist, &aliases, &no_entries());
    assert!(matches!(a, EditorAction::Echo { c: 's' }));
    assert_eq!(ed.buffer_string(), "ls");
}

#[test]
fn backspace_removes_last_character() {
    let hist = HistoryLog::new();
    let aliases = table();
    let mut ed = Editor::new();
    type_line(&mut ed, &hist, &aliases, "ab");
    let a = ed.step(InputEvent::Backspace, &hist, &aliases, &no_entries());
    assert!(matches!(a, EditorAction::EraseOne));
    assert_eq!(ed.buffer_string(), "a");
}

#[test]
fn backspace_on_empty_buffer_is_a_no_op() {
    let hist = HistoryLog::new();
    let aliases = table();
    let mut ed = Editor::new();
    let a = ed.step(InputEvent::Backspace, &hist, &aliases, &no_entries());
    assert!(matches!(a, EditorAction::Nothing));
    assert_eq!(ed.buffer_string(), "");
    assert_eq!(ed.cursor(), -1);
}

#[test]
fn enter_finalizes_trimmed_line() {
    let hist = HistoryLog::new();
    let aliases = table();
    let mut ed = Editor::new();
    type_line(&mut ed, &hist, &aliases, "  ls -a ");
    let a = ed.step(InputEvent::Char('\n'), &hist, &aliases, &no_entries());
    match a {
        EditorAction::Finalized { line } => assert_eq!(line, "ls -a"),
        _ => panic!("enter must finalize the line"),
    }
    assert_eq!(ed.buffer_string(), "");
    assert_eq!(ed.cursor(), -1);
}

#[test]
fn tab_replaces_buffer_with_suggestion() {
    let hist = HistoryLog::new();
    let aliases = table();
    let mut ed = Editor::new();
    type_line(&mut ed, &hist, &aliases, "e");
    let a = ed.step(InputEvent::Char('\t'), &hist, &aliases, &no_entries());
    match a {
        EditorAction::Replace { erase, text } => {
            assert_eq!(erase, 1);
            assert_eq!(text, "echo");
        }
        _ => panic!("tab with a match must replace the buffer"),
    }
    assert_eq!(ed.buffer_string(), "echo");
}

#[test]
fn tab_without_suggestion_changes_nothing() {
    let hist = HistoryLog::new();
    let aliases = table();
    let mut ed = Editor::new();
    type_line(&mut ed, &hist, &aliases, "zz");
    let a = ed.step(InputEvent::Char('\t'), &hist, &aliases, &no_entries());
    assert!(matches!(a, EditorAction::Nothing));
    assert_eq!(ed.buffer_string(), "zz");
}

#[test]
fn history_navigation_walks_up_and_down() {
    // Newest-first log: c3 is the most recent command.
    let lines = vec!["c1".to_string(), "c2".to_string(), "c3".to_string()];
    let hist = HistoryLog::load(lines);
    let aliases = table();
    let mut ed = Editor::new();
    assert_eq!(ed.cursor(), -1);

    let a = ed.step(InputEvent::Up, &hist, &aliases, &no_entries());
    assert!(matches!(&a, EditorAction::Redraw { text } if text == "c3"));
    assert_eq!(ed.buffer_string(), "c3");
    ed.step(InputEvent::Up, &hist, &aliases, &no_entries());
    assert_eq!(ed.buffer_string(), "c2");
    ed.step(InputEvent::Up, &hist, &aliases, &no_entries());
    assert_eq!(ed.buffer_string(), "c1");
    assert_eq!(ed.cursor(), 2);

    // A fourth Up is a no-op.
    let a = ed.step(InputEvent::Up, &hist, &aliases, &no_entries());
    assert!(matches!(a, EditorAction::Nothing));
    assert_eq!(ed.buffer_string(), "c1");
    assert_eq!(ed.cursor(), 2);

    // Down steps back toward -1 and empties the buffer there.
    ed.step(InputEvent::Down, &hist, &aliases, &no_entries());
    assert_eq!(ed.buffer_string(), "c2");
    ed.step(InputEvent::Down, &hist, &aliases, &no_entries());
    assert_eq!(ed.buffer_string(), "c3");
    assert_eq!(ed.cursor(), 0);
    let a = ed.step(InputEvent::Down, &hist, &aliases, &no_entries());
    assert!(matches!(&a, EditorAction::Redraw { text } if text.is_empty()));
    assert_eq!(ed.buffer_string(), "");
    assert_eq!(ed.cursor(), -1);
}

#[test]
fn ctrl_c_interrupts_without_touching_state_or_history() {
    let mut log = HistoryLog::new();
    log.save_command("kept");
    let aliases = table();
    let mut ed = Editor::new();
    type_line(&mut ed, &log, &aliases, "half a li");
    let a = ed.step(InputEvent::CtrlC, &log, &aliases, &no_entries());
    assert!(matches!(a, EditorAction::Interrupt));
    // The partial line stays where it was and history gained nothing.
    assert_eq!(ed.buffer_string(), "half a li");
    assert_eq!(log.len(), 1);
    assert_eq!(log.entry(0).as_str(), "kept");
}

#[test]
fn finalized_line_saved_becomes_newest_entry() {
    let mut log = HistoryLog::new();
    let aliases = table();
    let mut ed = Editor::new();
    type_line(&mut ed, &log, &aliases, "cat notes");
    let a = ed.step(InputEvent::Char('\n'), &log, &aliases, &no_entries());
    let line = match a {
        EditorAction::Finalized { line } => line,
        _ => panic!("enter must finalize the line"),
    };
    assert!(!line.is_empty());
    log.save_command(&line);
    assert_eq!(log.entry(0).as_str(), "cat notes");
    assert!(log.len() <= 1000);
}

#[test]
fn non_ascii_input_edits_by_character() {
    let hist = HistoryLog::new();
    let aliases = table();
    let mut ed = Editor::new();
    type_line(&mut ed, &hist, &aliases, "ué");
    assert_eq!(ed.buffer_string(), "ué");
    let a = ed.step(InputEvent::Backspace, &hist, &aliases, &no_entries());
    assert!(matches!(a, EditorAction::EraseOne));
    assert_eq!(ed.buffer_string(), "u");
}

#[test]
fn other_events_are_ignored() {
    let hist = HistoryLog::new();
    let aliases = table();
    let mut ed = Editor::new();
    type_line(&mut ed, &hist, &aliases, "x");
    let a = ed.step(InputEvent::Other, &hist, &aliases, &no_entries());
    assert!(matches!(a, EditorAction::Nothing));
    assert_eq!(ed.buffer_string(), "x");
}
