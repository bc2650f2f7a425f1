use exo_shell::history::FileUpdate;
use exo_shell::history::HistoryLog;

fn apply_update(file: &mut Vec<String>, update: FileUpdate, line: &str) {
    match update {
        FileUpdate::Append => {
            file.push(line.to_string());
        }
        FileUpdate::RewriteThenAppend { retained } => {
            *file = retained;
            file.push(line.to_string());
        }
    }
}

#[test]
fn newest_entry_is_last_saved() {
    let mut log = HistoryLog::new();
    log.save_command("first");
    assert_eq!(log.len(), 1);
    assert_eq!(log.entry(0).as_str(), "first");
    log.save_command("second");
    assert_eq!(log.len(), 2);
    assert_eq!(log.entry(0).as_str(), "second");
    assert_eq!(log.entry(1).as_str(), "first");
}

#[test]
fn load_missing_file_gives_empty_log() {
    let log = HistoryLog::load(Vec::new());
    assert_eq!(log.len(), 0);
}

#[test]
fn load_reverses_file_order() {
    let lines = vec!["oldest".to_string(), "middle".to_string(), "newest".to_string()];
    let log = HistoryLog::load(lines);
    assert_eq!(log.len(), 3);
    assert_eq!(log.entry(0).as_str(), "newest");
    assert_eq!(log.entry(1).as_str(), "middle");
    assert_eq!(log.entry(2).as_str(), "oldest");
}

#[test]
fn save_then_load_round_trips() {
    let mut log = HistoryLog::new();
    let mut file: Vec<String> = Vec::new();
    for line in ["c1", "c2", "c3", "c4"] {
        let update = log.save_command(line);
        apply_update(&mut file, update, line);
    }
    assert_eq!(file, vec!["c1", "c2", "c3", "c4"]);
    let reloaded = HistoryLog::load(file);
    assert_eq!(reloaded.len(), log.len());
    for i in 0..log.len() {
        assert_eq!(reloaded.entry(i), log.entry(i));
    }
}

#[test]
fn trim_drops_oldest_three_quarters() {
    let mut log = HistoryLog::new();
    let mut file: Vec<String> = Vec::new();
    for i in 0..1000 {
        let line = format!("c{}", i);
        let update = log.save_command(&line);
        apply_update(&mut file, update, &line);
    }
    assert_eq!(log.len(), 1000);
    assert_eq!(file.len(), 1000);

    let update = log.save_command("overflow");
    match &update {
        FileUpdate::RewriteThenAppend { retained } => {
            // The 250 newest of the old entries survive, oldest-first.
            assert_eq!(retained.len(), 250);
            assert_eq!(retained[0].as_str(), "c750");
            assert_eq!(retained[249].as_str(), "c999");
        }
        FileUpdate::Append => panic!("save at the limit must rewrite the file"),
    }
    apply_update(&mut file, update, "overflow");

    // limit - trim + the new entry: 1000 - 750 + 1
    assert_eq!(log.len(), 251);
    assert_eq!(log.entry(0).as_str(), "overflow");
    assert_eq!(log.entry(1).as_str(), "c999");
    assert_eq!(log.entry(250).as_str(), "c750");

    // The rewritten file matches the in-memory log, oldest-first.
    assert_eq!(file.len(), 251);
    assert_eq!(file[0].as_str(), "c750");
    assert_eq!(file[249].as_str(), "c999");
    assert_eq!(file[250].as_str(), "overflow");
    let reloaded = HistoryLog::load(file);
    assert_eq!(reloaded.len(), log.len());
    for i in 0..log.len() {
        assert_eq!(reloaded.entry(i), log.entry(i));
    }
}

#[test]
fn log_can_sit_exactly_at_limit_before_next_save_trims() {
    let mut log = HistoryLog::new();
    for i in 0..999 {
        log.save_command(&format!("c{}", i));
    }
    assert_eq!(log.len(), 999);
    let update = log.save_command("c999");
    assert!(matches!(update, FileUpdate::Append));
    assert_eq!(log.len(), 1000);
    let update = log.save_command("c1000");
    assert!(matches!(update, FileUpdate::RewriteThenAppend { .. }));
    assert_eq!(log.len(), 251);
}
