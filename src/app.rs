//! The session: the clock, the frame counter, and what the keys do.
use vstd::prelude::*;
use vstd::string::*;
use crate::anime::{AnimChrono, ClockOp, step};
use crate::cli::decimal;
use crate::duration::Duration;
use crate::fps::Fps;
use crate::shapes::ShapeSelect;
use ratatui::style::Color;

verus! {

/// A duration as text: `"1h 61m 5s"`, `"2m 5s"` or `"5s"`. The minutes are
/// all whole minutes, not those past the hour.
pub open spec fn time_left_text(secs: nat) -> Seq<char> {
    let h = secs / 3600;
    let m = secs / 60;
    let s = secs % 60;
    if h > 0 {
        decimal(h) + seq!['h', ' '] + decimal(m) + seq!['m', ' '] + decimal(s) + seq!['s']
    } else if m > 0 {
        decimal(m) + seq!['m', ' '] + decimal(s) + seq!['s']
    } else {
        decimal(s) + seq!['s']
    }
}

fn push_digit(out: &mut String, d: u64)
    requires
        d < 10,
    ensures
        final(out)@ == old(out)@ + seq![crate::cli::digit_char(d as nat)],
{
    proof {
        reveal_strlit("0");
        reveal_strlit("1");
        reveal_strlit("2");
        reveal_strlit("3");
        reveal_strlit("4");
        reveal_strlit("5");
        reveal_strlit("6");
        reveal_strlit("7");
        reveal_strlit("8");
        reveal_strlit("9");
    }
    let t = if d == 0 {
        "0"
    } else if d == 1 {
        "1"
    } else if d == 2 {
        "2"
    } else if d == 3 {
        "3"
    } else if d == 4 {
        "4"
    } else if d == 5 {
        "5"
    } else if d == 6 {
        "6"
    } else if d == 7 {
        "7"
    } else if d == 8 {
        "8"
    } else {
        "9"
    };
    out.append(t);
}

fn push_decimal(out: &mut String, n: u64)
    ensures
        final(out)@ == old(out)@ + decimal(n as nat),
    decreases n,
{
    if n >= 10 {
        push_decimal(out, n / 10);
    }
    push_digit(out, n % 10);
    proof {
        if n < 10 {
            assert(n % 10 == n);
        }
    }
}

/// The duration `d` as text, in whole seconds.
pub fn get_time_left_formated(d: &Duration) -> (r: String)
    ensures
        r@ == time_left_text(d@ / 1000),
{
    let secs = d.as_secs();
    let m = secs / 60;
    let s = secs % 60;
    let h = secs / 3600;
    let mut out = String::new();
    proof {
        reveal_strlit("h ");
        reveal_strlit("m ");
        reveal_strlit("s");
    }
    if h > 0 {
        push_decimal(&mut out, h);
        out.append("h ");
        push_decimal(&mut out, m);
        out.append("m ");
    } else if m > 0 {
        push_decimal(&mut out, m);
        out.append("m ");
    }
    push_decimal(&mut out, s);
    out.append("s");
    assert(out@ =~= time_left_text(d@ / 1000));
    out
}

/// Where the session is.
#[derive(Clone, Copy, Debug, PartialEq, Eq, Structural)]
pub enum AppState {
    /// The countdown alone.
    Main,
    /// The countdown beside the list of player actions.
    CmdSelect,
    /// Leaving.
    Quit,
}

/// The keys that the session tells apart.
#[derive(Clone, Copy, Debug, PartialEq, Eq, Structural)]
pub enum KeyCode {
    Char(char),
    Up,
    Down,
    Left,
    Right,
    Home,
    End,
    Enter,
    Other,
}

/// A key event.
#[derive(Clone, Copy, Debug, PartialEq, Eq, Structural)]
pub struct KeyEvent {
    pub code: KeyCode,
    /// Whether Control, and no other modifier, was held.
    pub ctrl: bool,
    /// Whether the key went down, rather than up or repeating.
    pub press: bool,
}

/// What a key asks of the player's list.
#[derive(Clone, Copy, Debug, PartialEq, Eq, Structural)]
pub enum PlayerCommand {
    Nothing,
    SelectNone,
    SelectNext,
    SelectPrevious,
    SelectFirst,
    SelectLast,
    DoAction,
}

/// What a key does to the clock in the main view: a minute down or up with
/// `j`/Down and `k`/Up, a second up or down with `l`/Right and `h`/Left.
pub open spec fn main_op(code: KeyCode) -> Option<ClockOp> {
    match code {
        KeyCode::Down | KeyCode::Char('j') => Some(ClockOp::Decrease(60000)),
        KeyCode::Up | KeyCode::Char('k') => Some(ClockOp::Increase(60000)),
        KeyCode::Right | KeyCode::Char('l') => Some(ClockOp::Increase(1000)),
        KeyCode::Left | KeyCode::Char('h') => Some(ClockOp::Decrease(1000)),
        _ => None,
    }
}

/// Where a key leads from the main view, from state `s`: `q` quits and
/// Control-`p` opens the player's list.
pub open spec fn main_state(key: KeyEvent, s: AppState) -> AppState {
    match key.code {
        KeyCode::Char('q') => AppState::Quit,
        KeyCode::Char('p') => if key.ctrl {
            AppState::CmdSelect
        } else {
            s
        },
        _ => s,
    }
}

/// What a key asks of the player's list while it is shown.
pub open spec fn player_command(key: KeyEvent) -> PlayerCommand {
    if !key.press {
        PlayerCommand::Nothing
    } else {
        match key.code {
            KeyCode::Char('h') | KeyCode::Left => PlayerCommand::SelectNone,
            KeyCode::Char('j') | KeyCode::Down => PlayerCommand::SelectNext,
            KeyCode::Char('k') | KeyCode::Up => PlayerCommand::SelectPrevious,
            KeyCode::Char('g') | KeyCode::Home => PlayerCommand::SelectFirst,
            KeyCode::Char('G') | KeyCode::End => PlayerCommand::SelectLast,
            KeyCode::Char('l') | KeyCode::Right | KeyCode::Enter => PlayerCommand::DoAction,
            _ => PlayerCommand::Nothing,
        }
    }
}

/// The session: a countdown, a frame counter, and the current view.
pub struct App {
    pub fps: Fps,
    pub tm_animation: AnimChrono,
    pub state: AppState,
}

impl App {
    pub open spec fn wf(&self) -> bool {
        self.tm_animation.wf()
    }

    /// A session counting down `timeout` with a shape in colour `c` drawn at
    /// random, its frame counter started at `now`.
    pub fn new(timeout: Duration, c: Color, now: Duration) -> (r: App)
        ensures
            r.wf(),
            r.state == AppState::Main,
            r.tm_animation@.timeout == timeout@,
            r.tm_animation@.remaining == timeout@,
            !r.tm_animation@.fired,
            exists|select: u32| select < 3 && r.tm_animation.shape() == ShapeSelect::selected(select, c),
            r.fps@.window_start == now@,
            r.fps@.frames == 0,
    {
        let s = ShapeSelect::select_random(c);
        App { fps: Fps::new(now), tm_animation: AnimChrono::new(s, timeout), state: AppState::Main }
    }

    /// A key in the main view.
    pub fn handle_event_main(&mut self, key: KeyEvent)
        requires
            old(self).wf(),
        ensures
            final(self).wf(),
            final(self).state == main_state(key, old(self).state),
            final(self).tm_animation@ == (match main_op(key.code) {
                Some(op) => step(old(self).tm_animation@, op).0,
                None => old(self).tm_animation@,
            }),
            final(self).tm_animation.shape() == old(self).tm_animation.shape(),
            final(self).fps == old(self).fps,
    {
        match key.code {
            KeyCode::Char('q') => {
                self.state = AppState::Quit;
            },
            KeyCode::Down | KeyCode::Char('j') => {
                self.tm_animation.decrease_timeout(60);
            },
            KeyCode::Up | KeyCode::Char('k') => {
                self.tm_animation.increase_timeout(60);
            },
            KeyCode::Right | KeyCode::Char('l') => {
                self.tm_animation.increase_timeout(1);
            },
            KeyCode::Left | KeyCode::Char('h') => {
                self.tm_animation.decrease_timeout(1);
            },
            KeyCode::Char('p') => {
                if key.ctrl {
                    self.state = AppState::CmdSelect;
                }
            },
            _ => {},
        }
    }

    /// A key while the player's list is shown: `q` goes back to the main
    /// view; the command for the list is returned.
    pub fn handle_event_player(&mut self, key: KeyEvent) -> (r: PlayerCommand)
        ensures
            r == player_command(key),
            final(self).state == (if key.press && key.code == KeyCode::Char('q') {
                AppState::Main
            } else {
                old(self).state
            }),
            final(self).tm_animation == old(self).tm_animation,
            final(self).fps == old(self).fps,
    {
        if !key.press {
            return PlayerCommand::Nothing;
        }
        match key.code {
            KeyCode::Char('q') => {
                self.state = AppState::Main;
                PlayerCommand::Nothing
            },
            KeyCode::Char('h') | KeyCode::Left => PlayerCommand::SelectNone,
            KeyCode::Char('j') | KeyCode::Down => PlayerCommand::SelectNext,
            KeyCode::Char('k') | KeyCode::Up => PlayerCommand::SelectPrevious,
            KeyCode::Char('g') | KeyCode::Home => PlayerCommand::SelectFirst,
            KeyCode::Char('G') | KeyCode::End => PlayerCommand::SelectLast,
            KeyCode::Char('l') | KeyCode::Right | KeyCode::Enter => PlayerCommand::DoAction,
            _ => PlayerCommand::Nothing,
        }
    }

    /// A key in whichever view is shown; the command for the player's list.
    pub fn handle_event(&mut self, key: KeyEvent) -> (r: PlayerCommand)
        requires
            old(self).wf(),
        ensures
            final(self).wf(),
            old(self).state == AppState::CmdSelect ==> r == player_command(key),
            old(self).state != AppState::CmdSelect ==> r == PlayerCommand::Nothing,
            old(self).state == AppState::Quit ==> final(self).state == AppState::Quit
                && final(self).tm_animation@ == old(self).tm_animation@,
            old(self).state == AppState::Main ==> final(self).state == main_state(key, AppState::Main),
            old(self).state == AppState::CmdSelect ==> final(self).state == (if key.press && key.code
                == KeyCode::Char('q') {
                AppState::Main
            } else {
                AppState::CmdSelect
            }),
            old(self).state != AppState::Main ==> final(self).tm_animation@ == old(self).tm_animation@,
            old(self).state == AppState::Main ==> final(self).tm_animation@ == (match main_op(
                key.code,
            ) {
                Some(op) => step(old(self).tm_animation@, op).0,
                None => old(self).tm_animation@,
            }),
    {
        match self.state {
            AppState::Main => {
                self.handle_event_main(key);
                PlayerCommand::Nothing
            },
            AppState::CmdSelect => self.handle_event_player(key),
            AppState::Quit => PlayerCommand::Nothing,
        }
    }
}

} // verus!
