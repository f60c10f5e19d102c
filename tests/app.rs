use cbr_alarm::app::{get_time_left_formated, App, AppState, KeyCode, KeyEvent, PlayerCommand};
use cbr_alarm::duration::Duration;
use cbr_alarm::fps::{FrameRate, Fps};
use ratatui::style::Color;

fn key(code: KeyCode) -> KeyEvent {
    KeyEvent { code, ctrl: false, press: true }
}

fn session(secs: u64) -> App {
    App::new(Duration::from_secs(secs), Color::LightRed, Duration::zero())
}

#[test]
fn time_left_text_by_size() {
    assert_eq!(get_time_left_formated(&Duration::from_secs(3665)), "1h 61m 5s");
    assert_eq!(get_time_left_formated(&Duration::from_secs(125)), "2m 5s");
    assert_eq!(get_time_left_formated(&Duration::from_secs(5)), "5s");
    assert_eq!(get_time_left_formated(&Duration::from_millis(999)), "0s");
    assert_eq!(get_time_left_formated(&Duration::from_secs(36000)), "10h 600m 0s");
}

#[test]
fn a_new_session_starts_in_the_main_view() {
    let app = session(90);
    assert_eq!(app.state, AppState::Main);
    assert_eq!(app.tm_animation.timeout, Duration::from_secs(90));
    assert_eq!(app.tm_animation.remaining, Duration::from_secs(90));
    assert_eq!(app.fps.fps(), FrameRate { frames: 0, window: Duration::zero() });
}

#[test]
fn main_view_keys_adjust_the_clock() {
    let mut app = session(90);
    app.handle_event(key(KeyCode::Up));
    assert_eq!(app.tm_animation.timeout, Duration::from_secs(150));
    app.handle_event(key(KeyCode::Char('j')));
    assert_eq!(app.tm_animation.timeout, Duration::from_secs(90));
    app.handle_event(key(KeyCode::Char('l')));
    assert_eq!(app.tm_animation.remaining, Duration::from_secs(91));
    app.handle_event(key(KeyCode::Left));
    app.handle_event(key(KeyCode::Char('h')));
    assert_eq!(app.tm_animation.remaining, Duration::from_secs(89));
    app.handle_event(key(KeyCode::Char('x')));
    assert_eq!(app.tm_animation.remaining, Duration::from_secs(89));
    assert_eq!(app.state, AppState::Main);
}

#[test]
fn control_p_opens_the_player_and_q_comes_back() {
    let mut app = session(10);
    app.handle_event(key(KeyCode::Char('p')));
    assert_eq!(app.state, AppState::Main);
    let cmd = app.handle_event(KeyEvent { code: KeyCode::Char('p'), ctrl: true, press: true });
    assert_eq!(cmd, PlayerCommand::Nothing);
    assert_eq!(app.state, AppState::CmdSelect);
    assert_eq!(app.handle_event(key(KeyCode::Down)), PlayerCommand::SelectNext);
    assert_eq!(app.handle_event(key(KeyCode::Char('k'))), PlayerCommand::SelectPrevious);
    assert_eq!(app.handle_event(key(KeyCode::Home)), PlayerCommand::SelectFirst);
    assert_eq!(app.handle_event(key(KeyCode::Char('G'))), PlayerCommand::SelectLast);
    assert_eq!(app.handle_event(key(KeyCode::Left)), PlayerCommand::SelectNone);
    assert_eq!(app.handle_event(key(KeyCode::Enter)), PlayerCommand::DoAction);
    let release = KeyEvent { code: KeyCode::Enter, ctrl: false, press: false };
    assert_eq!(app.handle_event(release), PlayerCommand::Nothing);
    assert_eq!(app.tm_animation.timeout, Duration::from_secs(10));
    assert_eq!(app.handle_event(key(KeyCode::Char('q'))), PlayerCommand::Nothing);
    assert_eq!(app.state, AppState::Main);
    app.handle_event(key(KeyCode::Char('q')));
    assert_eq!(app.state, AppState::Quit);
    app.handle_event(key(KeyCode::Up));
    assert_eq!(app.state, AppState::Quit);
    assert_eq!(app.tm_animation.timeout, Duration::from_secs(10));
}

#[test]
fn frame_rate_is_computed_once_a_second() {
    let mut f = Fps::new(Duration::from_millis(1000));
    f.update(Duration::from_millis(1200));
    f.update(Duration::from_millis(1500));
    assert_eq!(f.fps(), FrameRate { frames: 0, window: Duration::zero() });
    f.update(Duration::from_millis(2250));
    assert_eq!(f.fps(), FrameRate { frames: 3, window: Duration::from_millis(1250) });
    f.update(Duration::from_millis(3000));
    assert_eq!(f.fps(), FrameRate { frames: 3, window: Duration::from_millis(1250) });
    f.update(Duration::from_millis(3250));
    assert_eq!(f.fps(), FrameRate { frames: 2, window: Duration::from_millis(1000) });
}
