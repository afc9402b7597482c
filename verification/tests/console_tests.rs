use saykocraft_launcher::minecraft::console::{
    clear_history, emit_line, get_history, ConsoleHistory, ConsoleStream, CONSOLE_HISTORY_LIMIT,
};

#[test]
fn emitted_lines_are_kept_in_order() {
    let mut h = ConsoleHistory::new();
    let payload = emit_line(&mut h, "earth", ConsoleStream::Stdout, "first".to_string());
    assert_eq!(payload.instance_id, "earth");
    assert_eq!(payload.stream, ConsoleStream::Stdout);
    assert_eq!(payload.line, "first");
    emit_line(&mut h, "earth", ConsoleStream::Stderr, "second".to_string());
    emit_line(&mut h, "moon", ConsoleStream::System, "other".to_string());
    let lines = get_history(&h, "earth");
    let texts: Vec<&str> = lines.iter().map(|l| l.line.as_str()).collect();
    assert_eq!(texts, vec!["first", "second"]);
    assert_eq!(lines[1].stream, ConsoleStream::Stderr);
    assert_eq!(get_history(&h, "moon").len(), 1);
    assert!(get_history(&h, "mars").is_empty());
}

#[test]
fn history_keeps_only_the_latest_lines() {
    let mut h = ConsoleHistory::new();
    for i in 0..CONSOLE_HISTORY_LIMIT + 5 {
        emit_line(&mut h, "earth", ConsoleStream::Stdout, format!("line {i}"));
    }
    let lines = get_history(&h, "earth");
    assert_eq!(lines.len(), CONSOLE_HISTORY_LIMIT);
    assert_eq!(lines[0].line, "line 5");
    assert_eq!(lines[CONSOLE_HISTORY_LIMIT - 1].line, format!("line {}", CONSOLE_HISTORY_LIMIT + 4));
}

#[test]
fn clearing_forgets_one_instance() {
    let mut h = ConsoleHistory::new();
    emit_line(&mut h, "earth", ConsoleStream::Stdout, "a".to_string());
    emit_line(&mut h, "moon", ConsoleStream::Stdout, "b".to_string());
    clear_history(&mut h, "earth");
    assert!(get_history(&h, "earth").is_empty());
    assert_eq!(get_history(&h, "moon")[0].line, "b");
    emit_line(&mut h, "earth", ConsoleStream::Stdout, "c".to_string());
    assert_eq!(get_history(&h, "earth").len(), 1);
}
