use ramen_timer::input::{command_for, Command, KeyCode, KeyEvent, KeyKind};

fn press(code: KeyCode) -> KeyEvent {
    KeyEvent { code, kind: KeyKind::Press }
}

#[test]
fn q_and_escape_quit() {
    assert_eq!(command_for(press(KeyCode::Char('q'))), Some(Command::Quit));
    assert_eq!(command_for(press(KeyCode::Esc)), Some(Command::Quit));
}

#[test]
fn space_and_p_toggle_the_pause() {
    assert_eq!(command_for(press(KeyCode::Char(' '))), Some(Command::TogglePause));
    assert_eq!(command_for(press(KeyCode::Char('p'))), Some(Command::TogglePause));
}

#[test]
fn r_resets() {
    assert_eq!(command_for(press(KeyCode::Char('r'))), Some(Command::Reset));
}

#[test]
fn h_and_question_mark_toggle_the_help() {
    assert_eq!(command_for(press(KeyCode::Char('h'))), Some(Command::ToggleHelp));
    assert_eq!(command_for(press(KeyCode::Char('?'))), Some(Command::ToggleHelp));
}

#[test]
fn other_keys_are_bound_to_nothing() {
    assert_eq!(command_for(press(KeyCode::Char('x'))), None);
    assert_eq!(command_for(press(KeyCode::Char('Q'))), None);
    assert_eq!(command_for(press(KeyCode::Char('P'))), None);
    assert_eq!(command_for(press(KeyCode::Char('R'))), None);
    assert_eq!(command_for(press(KeyCode::Char('H'))), None);
    assert_eq!(command_for(press(KeyCode::Char('\n'))), None);
    assert_eq!(command_for(press(KeyCode::Other)), None);
}

#[test]
fn only_a_press_counts() {
    let codes = [
        KeyCode::Char('q'),
        KeyCode::Esc,
        KeyCode::Char(' '),
        KeyCode::Char('p'),
        KeyCode::Char('r'),
        KeyCode::Char('h'),
        KeyCode::Char('?'),
    ];
    for code in codes {
        assert_eq!(command_for(KeyEvent { code, kind: KeyKind::Release }), None);
        assert_eq!(command_for(KeyEvent { code, kind: KeyKind::Repeat }), None);
        assert!(command_for(KeyEvent { code, kind: KeyKind::Press }).is_some());
    }
}
