//! What the timer shows: the clock reading in big digits, the banner of a
//! finished countdown, and the choice between them.

use vstd::prelude::*;
use crate::clock::{
    clock_text, format_clock, lemma_clock_text_chars, lemma_clock_text_parses_back,
    lemma_clock_text_shape,
};
use crate::glyphs::{
    get_large_digit, glyph, glyph_width, has_glyph, is_ink, lemma_digit_top_row, lemma_glyph_shape,
    lemma_glyphs_differ, GLYPH_ROWS,
};
use crate::input::{command_for, command_of, Command, KeyEvent};
use crate::text::chars_of;
use crate::timer::{Timer, TimerView, TimerState};

verus! {

/// Row `row` of `text` in big digits: the glyph row of each character in
/// turn, with one blank column between neighbours and none at either end.
pub open spec fn large_row(text: Seq<char>, row: int) -> Seq<char>
    decreases text.len(),
{
    if text.len() == 0 {
        Seq::empty()
    } else if text.len() == 1 {
        glyph(text.last(), row)
    } else {
        large_row(text.drop_last(), row) + seq![' '] + glyph(text.last(), row)
    }
}

/// Width in columns of `text` in big digits: the widths of its glyphs, and
/// one column between neighbours.
pub open spec fn large_width(text: Seq<char>) -> nat
    decreases text.len(),
{
    if text.len() == 0 {
        0
    } else if text.len() == 1 {
        glyph_width(text.last())
    } else {
        large_width(text.drop_last()) + 1 + glyph_width(text.last())
    }
}

/// The seven rows of the clock reading of `seconds` in big digits.
pub open spec fn large_time(seconds: nat) -> Seq<Seq<char>> {
    Seq::new(GLYPH_ROWS as nat, |row: int| large_row(clock_text(seconds), row))
}

/// The banner shown when the countdown has finished.
pub open spec fn large_ramen() -> Seq<Seq<char>> {
    seq![
        "██████   █████  ███    ███ ███████ ███    ██ ██"@,
        "██   ██ ██   ██ ████  ████ ██      ████   ██ ██"@,
        "██████  ███████ ██ ████ ██ █████   ██ ██  ██ ██"@,
        "██   ██ ██   ██ ██  ██  ██ ██      ██  ██ ██   "@,
        "██   ██ ██   ██ ██      ██ ███████ ██   ████ ██"@,
        "                                              "@,
        "        🍜 🍜 🍜 🍜 🍜 🍜 🍜 🍜 🍜          "@,
    ]
}

/// Draws the clock reading of `remaining_seconds` in big digits, as seven
/// rows of text.
pub fn format_large_time(remaining_seconds: u32) -> (lines: Vec<String>)
    ensures
        lines.deep_view() == large_time(remaining_seconds as nat),
{
    let time_str = format_clock(remaining_seconds);
    let chars = chars_of(time_str.as_str());
    let mut lines: Vec<String> = Vec::new();
    let mut row: usize = 0;
    while row < GLYPH_ROWS
        invariant
            row <= GLYPH_ROWS,
            chars@ == clock_text(remaining_seconds as nat),
            lines@.len() == row,
            forall|r: int| 0 <= r < row ==> (#[trigger] lines@[r])@ == large_row(chars@, r),
        decreases GLYPH_ROWS - row,
    {
        let mut line = String::new();
        let mut i: usize = 0;
        while i < chars.len()
            invariant
                i <= chars.len(),
                line@ == large_row(chars@.take(i as int), row as int),
            decreases chars.len() - i,
        {
            proof {
                reveal_strlit(" ");
                assert(chars@.take(i + 1).drop_last() =~= chars@.take(i as int));
            }
            if i > 0 {
                line.append(" ");
            }
            line.append(get_large_digit(chars[i], row));
            i += 1;
        }
        assert(chars@.take(i as int) =~= chars@);
        lines.push(line);
        row += 1;
    }
    lines
}

/// The banner shown when the countdown has finished: seven fixed rows.
pub fn format_large_ramen() -> (lines: Vec<String>)
    ensures
        lines.deep_view() == large_ramen(),
{
    let mut lines: Vec<String> = Vec::new();
    lines.push("██████   █████  ███    ███ ███████ ███    ██ ██".to_string());
    lines.push("██   ██ ██   ██ ████  ████ ██      ████   ██ ██".to_string());
    lines.push("██████  ███████ ██ ████ ██ █████   ██ ██  ██ ██".to_string());
    lines.push("██   ██ ██   ██ ██  ██  ██ ██      ██  ██ ██   ".to_string());
    lines.push("██   ██ ██   ██ ██      ██ ███████ ██   ████ ██".to_string());
    lines.push("                                              ".to_string());
    lines.push("        🍜 🍜 🍜 🍜 🍜 🍜 🍜 🍜 🍜          ".to_string());
    lines
}

/// Fewest columns in which the timer is drawn.
pub const MIN_WIDTH: u16 = 25;

/// Fewest rows in which the timer is drawn.
pub const MIN_HEIGHT: u16 = 10;

/// The colours that the timer's face is drawn in.
#[derive(Debug, Clone, Copy, PartialEq, Eq, Structural)]
pub enum Color {
    /// The terminal's own foreground colour.
    Default,
    Green,
    Cyan,
    Yellow,
}

/// How a line of text is drawn.
#[derive(Debug, Clone, Copy, PartialEq, Eq, Structural)]
pub struct TextStyle {
    pub color: Color,
    pub bold: bool,
    pub slow_blink: bool,
}

/// Style of the clock reading while the countdown is not paused.
pub open spec fn running_style() -> TextStyle {
    TextStyle { color: Color::Green, bold: true, slow_blink: false }
}

/// Style of the clock reading while the countdown is paused.
pub open spec fn paused_style() -> TextStyle {
    TextStyle { color: Color::Cyan, bold: true, slow_blink: false }
}

/// Style of the word that marks a paused countdown.
pub open spec fn indicator_style() -> TextStyle {
    TextStyle { color: Color::Yellow, bold: true, slow_blink: false }
}

/// Style of the banner of a finished countdown.
pub open spec fn banner_style() -> TextStyle {
    TextStyle { color: Color::Yellow, bold: true, slow_blink: true }
}

/// Style of text that is not set off in any way.
pub open spec fn plain_style() -> TextStyle {
    TextStyle { color: Color::Default, bold: false, slow_blink: false }
}

/// The mathematical value of a [`StyledLine`].
pub struct LineView {
    pub text: Seq<char>,
    pub style: TextStyle,
}

/// One line of the timer's face.
#[derive(Debug)]
pub struct StyledLine {
    pub text: String,
    pub style: TextStyle,
}

impl View for StyledLine {
    type V = LineView;

    open spec fn view(&self) -> LineView {
        LineView { text: self.text@, style: self.style }
    }
}

impl DeepView for StyledLine {
    type V = LineView;

    open spec fn deep_view(&self) -> LineView {
        self@
    }
}

/// `rows`, each drawn in `style`.
pub open spec fn styled(rows: Seq<Seq<char>>, style: TextStyle) -> Seq<LineView> {
    Seq::new(rows.len(), |i: int| LineView { text: rows[i], style })
}

/// The two lines that follow the clock reading of a paused countdown: a
/// blank one, and the word that says so.
pub open spec fn paused_indicator() -> Seq<LineView> {
    seq![
        LineView { text: Seq::empty(), style: plain_style() },
        LineView { text: "PAUSED"@, style: indicator_style() },
    ]
}

/// The face of a timer in `state` with `remaining` seconds left: the banner
/// once it has finished, else the clock reading, in the colour of its state
/// and, while paused, with the indicator under it.
pub open spec fn timer_face(state: TimerState, remaining: nat) -> Seq<LineView> {
    match state {
        TimerState::Finished => styled(large_ramen(), banner_style()),
        TimerState::Paused => styled(large_time(remaining), paused_style()) + paused_indicator(),
        _ => styled(large_time(remaining), running_style()),
    }
}

/// The texts of `lines`, without their styles.
pub open spec fn texts(lines: Seq<LineView>) -> Seq<Seq<char>> {
    Seq::new(lines.len(), |i: int| lines[i].text)
}

/// Every row of a text in big digits is as wide as every other: the widths
/// of its glyphs and one column between neighbours. It is drawn with blocks
/// and blanks only.
pub proof fn lemma_large_row_shape(text: Seq<char>, row: int)
    ensures
        large_row(text, row).len() == large_width(text),
        forall|i: int|
            0 <= i < large_row(text, row).len() ==> is_ink(#[trigger] large_row(text, row)[i]),
    decreases text.len(),
{
    if text.len() > 0 {
        lemma_large_row_shape(text.drop_last(), row);
        lemma_glyph_shape(text.last(), row);
    }
}

/// A row in big digits starts with the glyph of the first character and ends
/// with the glyph of the last: no blank column is put before or after them.
pub proof fn lemma_large_row_ends(text: Seq<char>, row: int)
    requires
        text.len() > 0,
    ensures
        large_row(text, row).len() >= glyph_width(text.first()),
        large_row(text, row).len() >= glyph_width(text.last()),
        large_row(text, row).take(glyph_width(text.first()) as int) == glyph(text.first(), row),
        large_row(text, row).skip(large_row(text, row).len() - glyph_width(text.last()))
            == glyph(text.last(), row),
    decreases text.len(),
{
    lemma_glyph_shape(text.last(), row);
    if text.len() > 1 {
        lemma_large_row_ends(text.drop_last(), row);
    }
}

/// The row of two texts put together is their two rows with one blank column
/// between them.
pub proof fn lemma_large_row_joins(left: Seq<char>, right: Seq<char>, row: int)
    requires
        left.len() > 0,
        right.len() > 0,
    ensures
        large_row(left + right, row) == large_row(left, row) + seq![' '] + large_row(right, row),
    decreases right.len(),
{
    let whole = left + right;
    if right.len() == 1 {
        assert(whole.drop_last() =~= left);
    } else {
        lemma_large_row_joins(left, right.drop_last(), row);
        assert(whole.drop_last() =~= left + right.drop_last());
    }
}

/// The clock reading in big digits is seven rows of one width, which below
/// a hundred minutes is 22 columns.
pub proof fn lemma_large_time_size(seconds: nat)
    ensures
        large_time(seconds).len() == GLYPH_ROWS,
        forall|row: int|
            0 <= row < GLYPH_ROWS ==> (#[trigger] large_time(seconds)[row]).len() == large_width(
                clock_text(seconds),
            ),
        seconds < 6000 ==> large_width(clock_text(seconds)) == 22,
{
    let text = clock_text(seconds);
    assert forall|row: int| 0 <= row < GLYPH_ROWS implies (#[trigger] large_time(
        seconds,
    )[row]).len() == large_width(text) by {
        lemma_large_row_shape(text, row);
    }
    if seconds < 6000 {
        lemma_clock_text_shape(seconds);
        reveal_with_fuel(large_width, 6);
    }
}

/// Big digits can be read back: two texts in characters that the font knows
/// are the same text if all their rows are the same.
pub proof fn lemma_large_rows_tell_texts_apart(left: Seq<char>, right: Seq<char>)
    requires
        forall|i: int| 0 <= i < left.len() ==> has_glyph(#[trigger] left[i]),
        forall|i: int| 0 <= i < right.len() ==> has_glyph(#[trigger] right[i]),
        forall|row: int|
            0 <= row < GLYPH_ROWS ==> #[trigger] large_row(left, row) == large_row(right, row),
    ensures
        left == right,
    decreases left.len(),
{
    // Rows of one width: an empty text stands against an empty text alone.
    lemma_large_row_shape(left, 0);
    lemma_large_row_shape(right, 0);
    if left.len() > 0 && right.len() > 0 {
        let a = left.last();
        let b = right.last();
        // The last glyph is the same in both. Were one a colon and the other
        // a digit, the top row would end in two blanks and in a block.
        lemma_large_row_ends(left, 0);
        lemma_large_row_ends(right, 0);
        if a == ':' && b != ':' {
            lemma_digit_top_row(b);
        }
        if b == ':' && a != ':' {
            lemma_digit_top_row(a);
        }
        assert forall|row: int| 0 <= row < GLYPH_ROWS implies #[trigger] glyph(a, row) == glyph(
            b,
            row,
        ) by {
            lemma_large_row_ends(left, row);
            lemma_large_row_ends(right, row);
        }
        lemma_glyphs_differ(a, b);
        // What stands before it is the same in both.
        if left.len() > 1 && right.len() > 1 {
            let before_left = left.drop_last();
            let before_right = right.drop_last();
            assert forall|row: int| 0 <= row < GLYPH_ROWS implies #[trigger] large_row(
                before_left,
                row,
            ) == large_row(before_right, row) by {
                let whole = large_row(left, row);
                lemma_glyph_shape(a, row);
                let cut = whole.len() - 1 - glyph_width(a);
                assert(large_row(before_left, row) =~= whole.take(cut));
            }
            lemma_large_rows_tell_texts_apart(before_left, before_right);
            assert(left =~= before_left.push(a));
        }
    }
}

/// Two different durations never show the same big digits.
pub proof fn lemma_large_time_is_one_to_one(a: u32, b: u32)
    requires
        large_time(a as nat) == large_time(b as nat),
    ensures
        a == b,
{
    let left = clock_text(a as nat);
    let right = clock_text(b as nat);
    lemma_clock_text_chars(a as nat);
    lemma_clock_text_chars(b as nat);
    assert forall|row: int| 0 <= row < GLYPH_ROWS implies #[trigger] large_row(left, row)
        == large_row(right, row) by {
        assert(large_time(a as nat)[row] == large_row(left, row));
    }
    lemma_large_rows_tell_texts_apart(left, right);
    lemma_clock_text_parses_back(a);
    lemma_clock_text_parses_back(b);
}

/// A paused timer shows what a running one with the same time left shows,
/// glyph for glyph, and the indicator under it.
pub proof fn lemma_paused_face(remaining: nat)
    ensures
        texts(timer_face(TimerState::Paused, remaining)) == texts(
            timer_face(TimerState::Running, remaining),
        ) + seq![Seq::<char>::empty(), "PAUSED"@],
        timer_face(TimerState::Paused, remaining).skip(GLYPH_ROWS as int) == paused_indicator(),
{
    assert(texts(timer_face(TimerState::Paused, remaining)) =~= texts(
        timer_face(TimerState::Running, remaining),
    ) + seq![Seq::<char>::empty(), "PAUSED"@]);
    assert(timer_face(TimerState::Paused, remaining).skip(GLYPH_ROWS as int)
        =~= paused_indicator());
}

/// Until the countdown has finished, the face starts with the clock reading
/// of the time left; the state decides the colour alone.
pub proof fn lemma_face_shows_time(state: TimerState, remaining: nat)
    requires
        state != TimerState::Finished,
    ensures
        texts(timer_face(state, remaining)).take(GLYPH_ROWS as int) == large_time(remaining),
{
    assert(texts(timer_face(state, remaining)).take(GLYPH_ROWS as int) =~= large_time(
        remaining,
    ));
}

fn style_rows(rows: &Vec<String>, style: TextStyle) -> (lines: Vec<StyledLine>)
    ensures
        lines.deep_view() == styled(rows.deep_view(), style),
{
    let mut lines: Vec<StyledLine> = Vec::new();
    let mut i: usize = 0;
    while i < rows.len()
        invariant
            i <= rows.len(),
            lines@.len() == i,
            forall|k: int|
                0 <= k < i ==> (#[trigger] lines@[k])@ == (LineView { text: rows@[k]@, style }),
        decreases rows.len() - i,
    {
        lines.push(StyledLine { text: rows[i].clone(), style });
        i += 1;
    }
    lines
}

/// Draws the face of `timer`.
pub fn timer_lines(timer: &Timer) -> (lines: Vec<StyledLine>)
    ensures
        lines.deep_view() == timer_face(timer@.state, timer@.remaining),
{
    match timer.state() {
        TimerState::Finished => style_rows(
            &format_large_ramen(),
            TextStyle { color: Color::Yellow, bold: true, slow_blink: true },
        ),
        TimerState::Paused => {
            let mut lines = style_rows(
                &format_large_time(timer.remaining_seconds()),
                TextStyle { color: Color::Cyan, bold: true, slow_blink: false },
            );
            lines.push(
                StyledLine {
                    text: String::new(),
                    style: TextStyle { color: Color::Default, bold: false, slow_blink: false },
                },
            );
            lines.push(
                StyledLine {
                    text: "PAUSED".to_string(),
                    style: TextStyle { color: Color::Yellow, bold: true, slow_blink: false },
                },
            );
            lines
        },
        _ => style_rows(
            &format_large_time(timer.remaining_seconds()),
            TextStyle { color: Color::Green, bold: true, slow_blink: false },
        ),
    }
}

/// The mathematical value of a [`Screen`].
pub enum ScreenView {
    TooSmall,
    Timer { lines: Seq<LineView>, show_help: bool },
}

/// What to draw.
#[derive(Debug)]
pub enum Screen {
    /// The terminal is too small for the timer: nothing but a message to that
    /// effect is drawn.
    TooSmall,
    /// The face of the timer, with the help over it if `show_help`.
    Timer { lines: Vec<StyledLine>, show_help: bool },
}

impl View for Screen {
    type V = ScreenView;

    open spec fn view(&self) -> ScreenView {
        match self {
            Screen::TooSmall => ScreenView::TooSmall,
            Screen::Timer { lines, show_help } => ScreenView::Timer {
                lines: lines.deep_view(),
                show_help: *show_help,
            },
        }
    }
}

/// What the loop around the timer does after a step.
#[derive(Debug, Clone, Copy, PartialEq, Eq, Structural)]
pub enum Step {
    /// Leave the loop.
    Quit,
    /// Go on.
    Continue,
    /// Go on, and tell the user that the countdown has just finished.
    Notify,
}

/// The mathematical value of an [`App`].
pub struct AppView {
    pub timer: TimerView,
    pub show_help: bool,
}

impl AppView {
    /// Shows the help if it is hidden, and hides it if it is shown.
    pub open spec fn toggle_help(self) -> AppView {
        AppView { show_help: !self.show_help, ..self }
    }

    /// The effect of a command given at clock reading `now`. Quitting is the
    /// caller's to do and changes nothing here.
    pub open spec fn apply(self, command: Command, now: nat) -> AppView {
        match command {
            Command::Quit => self,
            Command::TogglePause => AppView { timer: self.timer.toggle_pause(now), ..self },
            Command::Reset => AppView { timer: self.timer.reset(), ..self },
            Command::ToggleHelp => self.toggle_help(),
        }
    }

    /// The state before the time integration of a step: the command bound to
    /// the key, if there is a key and it is bound, has been carried out.
    pub open spec fn after_key(self, key: Option<KeyEvent>, now: nat) -> AppView {
        match key {
            Some(key) => match command_of(key) {
                Some(command) => self.apply(command, now),
                None => self,
            },
            None => self,
        }
    }

    /// Whether the key of a step asks to quit.
    pub open spec fn quits(key: Option<KeyEvent>) -> bool {
        key is Some && command_of(key.unwrap()) == Some(Command::Quit)
    }

    /// One turn of the loop at clock reading `now`, with the key event that
    /// arrived, if one did. A key that quits ends the loop and leaves the
    /// timer alone. Otherwise the key's command is carried out and then the
    /// timer is updated, whether there was a key or not.
    pub open spec fn step(self, key: Option<KeyEvent>, now: nat) -> AppView {
        if Self::quits(key) {
            self
        } else {
            AppView {
                timer: self.after_key(key, now).timer.update(now),
                ..self.after_key(key, now)
            }
        }
    }

    /// What the loop is told after `step`.
    pub open spec fn step_outcome(self, key: Option<KeyEvent>, now: nat) -> Step {
        if Self::quits(key) {
            Step::Quit
        } else if self.after_key(key, now).timer.completes(now) {
            Step::Notify
        } else {
            Step::Continue
        }
    }

    /// What is drawn in a terminal of `width` columns and `height` rows.
    pub open spec fn screen(self, width: int, height: int) -> ScreenView {
        if width < MIN_WIDTH || height < MIN_HEIGHT {
            ScreenView::TooSmall
        } else {
            ScreenView::Timer {
                lines: timer_face(self.timer.state, self.timer.remaining),
                show_help: self.show_help,
            }
        }
    }
}

/// The state of the program: the timer, and whether the help is shown.
pub struct App {
    pub timer: Timer,
    pub show_help: bool,
}

impl View for App {
    type V = AppView;

    open spec fn view(&self) -> AppView {
        AppView { timer: self.timer@, show_help: self.show_help }
    }
}

impl App {
    /// Makes the state that the program starts in: a timer of `seconds`
    /// seconds, not started yet, and no help shown.
    pub fn with_duration(seconds: u32) -> (app: App)
        ensures
            app@ == (AppView { timer: TimerView::fresh(seconds as nat), show_help: false }),
    {
        App { timer: Timer::with_duration(seconds), show_help: false }
    }

    /// Shows the help if it is hidden, and hides it if it is shown.
    pub fn toggle_help(&mut self)
        ensures
            final(self)@ == old(self)@.toggle_help(),
    {
        self.show_help = !self.show_help;
    }

    /// Carries out `command`, given at clock reading `now`.
    pub fn apply(&mut self, command: Command, now: u64)
        ensures
            final(self)@ == old(self)@.apply(command, now as nat),
    {
        match command {
            Command::Quit => {},
            Command::TogglePause => self.timer.toggle_pause(now),
            Command::Reset => self.timer.reset(),
            Command::ToggleHelp => self.toggle_help(),
        }
    }

    /// One turn of the loop: handles the key event that arrived, if one did,
    /// and brings the timer up to the clock reading `now`.
    pub fn step(&mut self, key: Option<KeyEvent>, now: u64) -> (outcome: Step)
        ensures
            final(self)@ == old(self)@.step(key, now as nat),
            outcome == old(self)@.step_outcome(key, now as nat),
    {
        if let Some(key) = key {
            match command_for(key) {
                Some(Command::Quit) => {
                    return Step::Quit;
                },
                Some(command) => self.apply(command, now),
                None => {},
            }
        }
        if self.timer.update(now) {
            Step::Notify
        } else {
            Step::Continue
        }
    }

    /// Says what to draw in a terminal of `width` columns and `height` rows.
    pub fn screen(&self, width: u16, height: u16) -> (screen: Screen)
        ensures
            screen@ == self@.screen(width as int, height as int),
    {
        if width < MIN_WIDTH || height < MIN_HEIGHT {
            Screen::TooSmall
        } else {
            Screen::Timer { lines: timer_lines(&self.timer), show_help: self.show_help }
        }
    }
}

/// Splits a length of 100 parts into three bands, so that the middle one
/// takes `percent` parts and the two around it share the rest equally. With
/// an odd rest one part is left over.
pub fn centered_bands(percent: u16) -> (bands: (u16, u16, u16))
    requires
        percent <= 100,
    ensures
        bands.0 == (100 - percent) / 2,
        bands.1 == percent,
        bands.2 == bands.0,
{
    ((100 - percent) / 2, percent, (100 - percent) / 2)
}

} // verus!
