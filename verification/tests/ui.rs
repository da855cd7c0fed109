use ramen_timer::glyphs::{get_large_digit, GLYPH_ROWS};
use ramen_timer::input::{Command, KeyCode, KeyEvent, KeyKind};
use ramen_timer::timer::{Timer, TimerState, NANOS_PER_SECOND};
use ramen_timer::ui::{
    centered_bands, format_large_ramen, format_large_time, timer_lines, App, Color, Screen, Step,
    StyledLine, TextStyle, MIN_HEIGHT, MIN_WIDTH,
};

const SECOND: u64 = NANOS_PER_SECOND;

const RUNNING: TextStyle = TextStyle { color: Color::Green, bold: true, slow_blink: false };
const PAUSED: TextStyle = TextStyle { color: Color::Cyan, bold: true, slow_blink: false };
const INDICATOR: TextStyle = TextStyle { color: Color::Yellow, bold: true, slow_blink: false };
const BANNER: TextStyle = TextStyle { color: Color::Yellow, bold: true, slow_blink: true };
const PLAIN: TextStyle = TextStyle { color: Color::Default, bold: false, slow_blink: false };

fn press(c: char) -> Option<KeyEvent> {
    Some(KeyEvent { code: KeyCode::Char(c), kind: KeyKind::Press })
}

fn texts(lines: &[StyledLine]) -> Vec<String> {
    lines.iter().map(|line| line.text.clone()).collect()
}

fn styles(lines: &[StyledLine]) -> Vec<TextStyle> {
    lines.iter().map(|line| line.style).collect()
}

fn lines_of(screen: Screen) -> (Vec<StyledLine>, bool) {
    match screen {
        Screen::Timer { lines, show_help } => (lines, show_help),
        Screen::TooSmall => panic!("the terminal is large enough"),
    }
}

#[test]
fn glyphs_have_seven_rows() {
    assert_eq!(GLYPH_ROWS, 7);
}

#[test]
fn glyph_of_each_digit() {
    let rows: Vec<&str> = (0..7).map(|row| get_large_digit('0', row)).collect();
    assert_eq!(rows, vec!["████", "█  █", "█  █", "█  █", "█  █", "█  █", "████"]);
    let rows: Vec<&str> = (0..7).map(|row| get_large_digit('1', row)).collect();
    assert_eq!(rows, vec!["  █ ", " ██ ", "  █ ", "  █ ", "  █ ", "  █ ", "████"]);
    let rows: Vec<&str> = (0..7).map(|row| get_large_digit('2', row)).collect();
    assert_eq!(rows, vec!["████", "   █", "   █", "████", "█   ", "█   ", "████"]);
    let rows: Vec<&str> = (0..7).map(|row| get_large_digit('3', row)).collect();
    assert_eq!(rows, vec!["████", "   █", "   █", "████", "   █", "   █", "████"]);
    let rows: Vec<&str> = (0..7).map(|row| get_large_digit('4', row)).collect();
    assert_eq!(rows, vec!["█  █", "█  █", "█  █", "████", "   █", "   █", "   █"]);
    let rows: Vec<&str> = (0..7).map(|row| get_large_digit('5', row)).collect();
    assert_eq!(rows, vec!["████", "█   ", "█   ", "████", "   █", "   █", "████"]);
    let rows: Vec<&str> = (0..7).map(|row| get_large_digit('6', row)).collect();
    assert_eq!(rows, vec!["████", "█   ", "█   ", "████", "█  █", "█  █", "████"]);
    let rows: Vec<&str> = (0..7).map(|row| get_large_digit('7', row)).collect();
    assert_eq!(rows, vec!["████", "   █", "   █", "  █ ", "  █ ", " █  ", " █  "]);
    let rows: Vec<&str> = (0..7).map(|row| get_large_digit('8', row)).collect();
    assert_eq!(rows, vec!["████", "█  █", "█  █", "████", "█  █", "█  █", "████"]);
    let rows: Vec<&str> = (0..7).map(|row| get_large_digit('9', row)).collect();
    assert_eq!(rows, vec!["████", "█  █", "█  █", "████", "   █", "   █", "████"]);
}

#[test]
fn glyph_of_the_colon() {
    let rows: Vec<&str> = (0..7).map(|row| get_large_digit(':', row)).collect();
    assert_eq!(rows, vec!["  ", "  ", "██", "  ", "██", "  ", "  "]);
}

#[test]
fn glyph_rows_past_the_seventh_are_blank() {
    for c in "0123456789".chars() {
        assert_eq!(get_large_digit(c, 7), "    ");
        assert_eq!(get_large_digit(c, 100), "    ");
        assert_eq!(get_large_digit(c, usize::MAX), "    ");
    }
    assert_eq!(get_large_digit(':', 7), "  ");
    assert_eq!(get_large_digit(':', usize::MAX), "  ");
}

#[test]
fn glyph_of_an_unknown_character_is_blank() {
    for row in 0..9 {
        assert_eq!(get_large_digit('x', row), "    ");
        assert_eq!(get_large_digit(' ', row), "    ");
        assert_eq!(get_large_digit('٣', row), "    ");
    }
}

#[test]
fn glyphs_are_blocks_and_blanks_of_fixed_width() {
    for c in "0123456789:".chars() {
        let width = if c == ':' { 2 } else { 4 };
        for row in 0..8 {
            let cells = get_large_digit(c, row);
            assert_eq!(cells.chars().count(), width);
            assert!(cells.chars().all(|cell| cell == '█' || cell == ' '));
        }
    }
}

#[test]
fn large_time_of_125_seconds() {
    let expected = vec![
        "████ ████    ████ ████",
        "█  █    █    █  █ █   ",
        "█  █    █ ██ █  █ █   ",
        "█  █ ████    █  █ ████",
        "█  █ █    ██ █  █    █",
        "█  █ █       █  █    █",
        "████ ████    ████ ████",
    ];
    assert_eq!(format_large_time(125), expected);
    // The same input gives the same rows, call after call.
    assert_eq!(format_large_time(125), expected);
    assert_eq!(format_large_time(125), format_large_time(125));
}

#[test]
fn large_time_of_zero() {
    let expected = vec![
        "████ ████    ████ ████",
        "█  █ █  █    █  █ █  █",
        "█  █ █  █ ██ █  █ █  █",
        "█  █ █  █    █  █ █  █",
        "█  █ █  █ ██ █  █ █  █",
        "█  █ █  █    █  █ █  █",
        "████ ████    ████ ████",
    ];
    assert_eq!(format_large_time(0), expected);
}

#[test]
fn large_time_of_all_digits() {
    let expected = vec![
        "  █  ████    ████ █  █",
        " ██     █       █ █  █",
        "  █     █ ██    █ █  █",
        "  █  ████    ████ ████",
        "  █  █    ██    █    █",
        "  █  █          █    █",
        "████ ████    ████    █",
    ];
    assert_eq!(format_large_time(754), expected);
    let expected = vec![
        "████ ████    ████ ████",
        "█    █       █  █    █",
        "█    █    ██ █  █    █",
        "████ ████    █  █   █ ",
        "   █ █  █ ██ █  █   █ ",
        "   █ █  █    █  █  █  ",
        "████ ████    ████  █  ",
    ];
    assert_eq!(format_large_time(3367), expected);
    let expected = vec![
        "████ ████    ████ ████",
        "█  █ █  █    █    █  █",
        "█  █ █  █ ██ █    █  █",
        "████ ████    ████ ████",
        "   █ █  █ ██    █    █",
        "   █ █  █       █    █",
        "████ ████    ████ ████",
    ];
    assert_eq!(format_large_time(5939), expected);
}

#[test]
fn large_time_past_a_hundred_minutes() {
    let expected = vec![
        "  █  ████ ████    ████ ████",
        " ██  █  █ █  █    █  █ █  █",
        "  █  █  █ █  █ ██ █  █ █  █",
        "  █  █  █ █  █    █  █ █  █",
        "  █  █  █ █  █ ██ █  █ █  █",
        "  █  █  █ █  █    █  █ █  █",
        "████ ████ ████    ████ ████",
    ];
    assert_eq!(format_large_time(6000), expected);
}

#[test]
fn large_time_rows_are_22_columns_wide() {
    for seconds in [0u32, 1, 59, 60, 90, 125, 180, 3599, 5999] {
        let lines = format_large_time(seconds);
        assert_eq!(lines.len(), 7);
        for line in &lines {
            assert_eq!(line.chars().count(), 22);
        }
    }
    for line in format_large_time(6000) {
        assert_eq!(line.chars().count(), 27);
    }
}

#[test]
fn large_time_has_blank_columns_between_glyphs_only() {
    // Top and bottom row of the glyph of 0 are full bars, so a blank at
    // either end of the row would show.
    let lines = format_large_time(0);
    assert_eq!(lines[0], "████ ████    ████ ████");
    assert_eq!(lines[6], "████ ████    ████ ████");
    assert!(lines[0].starts_with('█') && lines[0].ends_with('█'));
    let lines = format_large_time(6000);
    assert_eq!(lines[6], "████ ████ ████    ████ ████");
    // Every row ends with the glyph row of the last digit.
    for seconds in [0u32, 7, 59, 125, 5999, 6000, u32::MAX] {
        let last = char::from_digit(seconds % 60 % 10, 10).unwrap_or('0');
        for (row, line) in format_large_time(seconds).iter().enumerate() {
            assert!(line.ends_with(get_large_digit(last, row)));
        }
    }
}

#[test]
fn large_time_is_the_glyphs_joined_by_single_blanks() {
    let readings =
        [(0u32, "00:00"), (125, "02:05"), (6000, "100:00"), (u32::MAX, "71582788:15")];
    for (seconds, text) in readings {
        let lines = format_large_time(seconds);
        assert_eq!(lines.len(), 7);
        for (row, line) in lines.iter().enumerate() {
            let glyphs: Vec<&str> = text.chars().map(|c| get_large_digit(c, row)).collect();
            assert_eq!(line, &glyphs.join(" "));
        }
    }
}

#[test]
fn different_times_never_show_the_same_rows() {
    let mut seen = std::collections::HashSet::new();
    for seconds in 0..7000u32 {
        assert!(seen.insert(format_large_time(seconds)));
    }
    for seconds in [u32::MAX, u32::MAX - 1, u32::MAX - 60, 1 << 31, 100_000] {
        assert!(seen.insert(format_large_time(seconds)));
    }
}

#[test]
fn large_ramen_is_the_fixed_banner() {
    let expected = vec![
        "██████   █████  ███    ███ ███████ ███    ██ ██",
        "██   ██ ██   ██ ████  ████ ██      ████   ██ ██",
        "██████  ███████ ██ ████ ██ █████   ██ ██  ██ ██",
        "██   ██ ██   ██ ██  ██  ██ ██      ██  ██ ██   ",
        "██   ██ ██   ██ ██      ██ ███████ ██   ████ ██",
        "                                              ",
        "        🍜 🍜 🍜 🍜 🍜 🍜 🍜 🍜 🍜          ",
    ];
    assert_eq!(format_large_ramen(), expected);
    assert_eq!(format_large_ramen(), format_large_ramen());
}

#[test]
fn face_of_a_running_timer() {
    let mut timer = Timer::with_duration(90);
    timer.start(0);
    let lines = timer_lines(&timer);
    assert_eq!(texts(&lines), format_large_time(90));
    assert_eq!(styles(&lines), vec![RUNNING; 7]);
}

#[test]
fn face_of_an_initial_timer_is_that_of_a_running_one() {
    let timer = Timer::with_duration(180);
    let lines = timer_lines(&timer);
    assert_eq!(texts(&lines), format_large_time(180));
    assert_eq!(styles(&lines), vec![RUNNING; 7]);
}

#[test]
fn face_of_a_timer_paused_at_one_thirty() {
    let mut running = Timer::with_duration(90);
    running.start(0);
    let mut paused = Timer::with_duration(90);
    paused.start(0);
    paused.pause();
    let running_lines = timer_lines(&running);
    let paused_lines = timer_lines(&paused);
    assert_eq!(paused_lines.len(), 9);
    // The same glyphs as while running ...
    assert_eq!(texts(&paused_lines)[..7], texts(&running_lines)[..]);
    let expected = vec![
        "████   █     ████ ████",
        "█  █  ██        █ █  █",
        "█  █   █  ██    █ █  █",
        "█  █   █     ████ █  █",
        "█  █   █  ██    █ █  █",
        "█  █   █        █ █  █",
        "████ ████    ████ ████",
    ];
    assert_eq!(texts(&paused_lines)[..7], expected[..]);
    assert_eq!(styles(&paused_lines)[..7], vec![PAUSED; 7][..]);
    // ... and the indicator under them.
    assert_eq!(paused_lines[7].text, "");
    assert_eq!(paused_lines[7].style, PLAIN);
    assert_eq!(paused_lines[8].text, "PAUSED");
    assert_eq!(paused_lines[8].style, INDICATOR);
}

#[test]
fn face_of_a_finished_timer_is_the_banner() {
    let mut timer = Timer::with_duration(1);
    timer.start(0);
    timer.update(SECOND);
    assert_eq!(timer.state(), TimerState::Finished);
    let lines = timer_lines(&timer);
    assert_eq!(texts(&lines), format_large_ramen());
    assert_eq!(styles(&lines), vec![BANNER; 7]);
}

#[test]
fn new_app_holds_a_fresh_timer_and_hides_the_help() {
    let app = App::with_duration(180);
    assert_eq!(app.timer.state(), TimerState::Initial);
    assert_eq!(app.timer.remaining_seconds(), 180);
    assert_eq!(app.timer.initial_seconds(), 180);
    assert!(!app.show_help);
}

#[test]
fn toggle_help_flips_the_flag() {
    let mut app = App::with_duration(180);
    app.toggle_help();
    assert!(app.show_help);
    app.toggle_help();
    assert!(!app.show_help);
    assert_eq!(app.timer.state(), TimerState::Initial);
    assert_eq!(app.timer.remaining_seconds(), 180);
}

#[test]
fn minimum_terminal_size() {
    assert_eq!(MIN_WIDTH, 25);
    assert_eq!(MIN_HEIGHT, 10);
}

#[test]
fn screen_of_a_small_terminal_holds_nothing_but_the_message() {
    let mut app = App::with_duration(180);
    assert!(matches!(app.screen(24, 10), Screen::TooSmall));
    assert!(matches!(app.screen(25, 9), Screen::TooSmall));
    assert!(matches!(app.screen(0, 0), Screen::TooSmall));
    assert!(matches!(app.screen(24, 100), Screen::TooSmall));
    assert!(matches!(app.screen(200, 9), Screen::TooSmall));
    app.toggle_help();
    assert!(matches!(app.screen(24, 9), Screen::TooSmall));
}

#[test]
fn screen_of_a_large_enough_terminal_shows_the_timer() {
    let mut app = App::with_duration(125);
    let (lines, show_help) = lines_of(app.screen(25, 10));
    assert_eq!(texts(&lines), format_large_time(125));
    assert_eq!(styles(&lines), vec![RUNNING; 7]);
    assert!(!show_help);
    app.toggle_help();
    let (lines, show_help) = lines_of(app.screen(u16::MAX, u16::MAX));
    assert_eq!(texts(&lines), format_large_time(125));
    assert!(show_help);
}

#[test]
fn screen_follows_the_timer() {
    let mut app = App::with_duration(2);
    app.step(press(' '), 0);
    app.step(None, SECOND);
    let (lines, _) = lines_of(app.screen(80, 24));
    assert_eq!(texts(&lines), format_large_time(1));
    app.step(press('p'), SECOND);
    let (lines, _) = lines_of(app.screen(80, 24));
    assert_eq!(lines.len(), 9);
    assert_eq!(lines[8].text, "PAUSED");
    app.step(press('p'), 5 * SECOND);
    app.step(None, 6 * SECOND);
    let (lines, _) = lines_of(app.screen(80, 24));
    assert_eq!(texts(&lines), format_large_ramen());
}

#[test]
fn apply_carries_out_a_command() {
    let mut app = App::with_duration(10);
    app.apply(Command::TogglePause, 0);
    assert_eq!(app.timer.state(), TimerState::Running);
    app.apply(Command::TogglePause, 1);
    assert_eq!(app.timer.state(), TimerState::Paused);
    app.apply(Command::ToggleHelp, 2);
    assert!(app.show_help);
    assert_eq!(app.timer.state(), TimerState::Paused);
    app.apply(Command::Reset, 3);
    assert_eq!(app.timer.state(), TimerState::Initial);
    assert!(app.show_help);
    app.apply(Command::Quit, 4);
    assert_eq!(app.timer.state(), TimerState::Initial);
    assert_eq!(app.timer.remaining_seconds(), 10);
    assert!(app.show_help);
}

#[test]
fn step_without_a_key_updates_the_timer() {
    let mut app = App::with_duration(10);
    assert_eq!(app.step(None, 5 * SECOND), Step::Continue);
    assert_eq!(app.timer.state(), TimerState::Initial);
    app.timer.start(5 * SECOND);
    assert_eq!(app.step(None, 6 * SECOND - 1), Step::Continue);
    assert_eq!(app.timer.remaining_seconds(), 10);
    assert_eq!(app.step(None, 6 * SECOND), Step::Continue);
    assert_eq!(app.timer.remaining_seconds(), 9);
}

#[test]
fn step_handles_the_key_before_the_update() {
    let mut app = App::with_duration(0);
    // Space starts the timer, and the update of the same step finishes it.
    assert_eq!(app.step(press(' '), 0), Step::Notify);
    assert_eq!(app.timer.state(), TimerState::Finished);
    // A reset is followed by an update that finds nothing running.
    assert_eq!(app.step(press('r'), SECOND), Step::Continue);
    assert_eq!(app.timer.state(), TimerState::Initial);
}

#[test]
fn step_quits_without_touching_the_timer() {
    let mut app = App::with_duration(10);
    app.step(press('p'), 0);
    assert_eq!(app.step(press('q'), 30 * SECOND), Step::Quit);
    assert_eq!(app.timer.state(), TimerState::Running);
    assert_eq!(app.timer.remaining_seconds(), 10);
    let escape = Some(KeyEvent { code: KeyCode::Esc, kind: KeyKind::Press });
    assert_eq!(app.step(escape, 30 * SECOND), Step::Quit);
    assert_eq!(app.timer.remaining_seconds(), 10);
    // The next ordinary step picks the countdown up again.
    assert_eq!(app.step(None, 30 * SECOND), Step::Continue);
    assert_eq!(app.timer.remaining_seconds(), 9);
}

#[test]
fn step_ignores_keys_that_are_not_pressed_or_not_bound() {
    let mut app = App::with_duration(10);
    let released = Some(KeyEvent { code: KeyCode::Char('q'), kind: KeyKind::Release });
    assert_eq!(app.step(released, 0), Step::Continue);
    let repeated = Some(KeyEvent { code: KeyCode::Char(' '), kind: KeyKind::Repeat });
    assert_eq!(app.step(repeated, 0), Step::Continue);
    assert_eq!(app.step(press('x'), 0), Step::Continue);
    let other = Some(KeyEvent { code: KeyCode::Other, kind: KeyKind::Press });
    assert_eq!(app.step(other, 0), Step::Continue);
    assert_eq!(app.timer.state(), TimerState::Initial);
    assert!(!app.show_help);
}

#[test]
fn step_toggles_the_help_and_lets_the_countdown_go_on() {
    let mut app = App::with_duration(10);
    app.step(press(' '), 0);
    assert_eq!(app.step(press('h'), SECOND), Step::Continue);
    assert!(app.show_help);
    assert_eq!(app.timer.remaining_seconds(), 9);
    assert_eq!(app.step(press('?'), 2 * SECOND), Step::Continue);
    assert!(!app.show_help);
    assert_eq!(app.timer.remaining_seconds(), 8);
}

#[test]
fn three_second_run_notifies_exactly_once() {
    let mut app = App::with_duration(3);
    let mut notices = 0;
    let mut now = 0;
    assert_eq!(app.step(press(' '), now), Step::Continue);
    // Ten frames a second for five seconds.
    for _ in 0..50 {
        now += SECOND / 10;
        match app.step(None, now) {
            Step::Notify => notices += 1,
            Step::Continue => {}
            Step::Quit => panic!("nobody asked to quit"),
        }
    }
    assert_eq!(notices, 1);
    assert_eq!(app.timer.state(), TimerState::Finished);
    assert_eq!(app.timer.remaining_seconds(), 0);
    // Keys other than reset change nothing any more.
    assert_eq!(app.step(press(' '), now), Step::Continue);
    assert_eq!(app.step(press('p'), now + SECOND), Step::Continue);
    assert_eq!(app.timer.state(), TimerState::Finished);
    assert_eq!(app.timer.remaining_seconds(), 0);
    // After a reset the countdown can run, and notify, again.
    assert_eq!(app.step(press('r'), now), Step::Continue);
    assert_eq!(app.timer.remaining_seconds(), 3);
    assert_eq!(app.step(press(' '), now), Step::Continue);
    for _ in 0..50 {
        now += SECOND / 10;
        if app.step(None, now) == Step::Notify {
            notices += 1;
        }
    }
    assert_eq!(notices, 2);
}

#[test]
fn centered_bands_share_the_rest() {
    assert_eq!(centered_bands(80), (10, 80, 10));
    assert_eq!(centered_bands(60), (20, 60, 20));
    assert_eq!(centered_bands(75), (12, 75, 12));
    assert_eq!(centered_bands(0), (50, 0, 50));
    assert_eq!(centered_bands(100), (0, 100, 0));
    assert_eq!(centered_bands(99), (0, 99, 0));
}
