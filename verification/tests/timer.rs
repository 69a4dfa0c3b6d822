use countdown::app::App;
use countdown::event::{Event, KeyCode, KeyEvent, KeyEventKind, KeyModifiers};
use countdown::ratio::Ratio;
use countdown::run::{Action, Session};
use countdown::span::{Hms, Span, HOUR, MINUTE, SECOND};
use countdown::style::Color;

const S: u64 = 1_000_000_000;

fn running(seconds: i128) -> App {
    let mut app = App::new(Span::Finite(seconds * SECOND));
    app.start();
    app
}

fn modifiers(control: bool, shift: bool) -> KeyModifiers {
    KeyModifiers {
        shift,
        control,
        alt: false,
        super_key: false,
        hyper: false,
        meta: false,
    }
}

fn press(code: KeyCode, modifiers: KeyModifiers) -> Option<Event> {
    Some(Event::Key(KeyEvent {
        code,
        modifiers,
        kind: KeyEventKind::Press,
    }))
}

fn stops(event: Option<Event>) -> bool {
    let mut app = running(60);
    app.handle_event(event);
    !app.is_running()
}

#[test]
fn a_new_timer_is_idle() {
    let app = App::new(Span::Finite(60 * SECOND));
    assert!(!app.is_running());
    assert!(!app.is_done());
    assert_eq!(app.total_duration(), Span::Finite(60 * SECOND));
}

#[test]
fn start_sets_the_timer_running() {
    assert!(running(60).is_running());
}

#[test]
fn quit_stops_the_timer() {
    let mut app = running(60);
    app.quit();
    assert!(!app.is_running());
    assert!(!app.is_done());
}

#[test]
fn quit_keys_stop_the_timer() {
    let none = modifiers(false, false);
    let control = modifiers(true, false);
    assert!(stops(press(KeyCode::Esc, none)));
    assert!(stops(press(KeyCode::Esc, modifiers(true, true))));
    assert!(stops(press(KeyCode::Char('q'), none)));
    assert!(stops(press(KeyCode::Char('q'), modifiers(false, true))));
    assert!(stops(press(KeyCode::Char('c'), control)));
    assert!(stops(press(KeyCode::Char('C'), control)));
}

#[test]
fn other_keys_do_not_stop_the_timer() {
    let none = modifiers(false, false);
    assert!(!stops(press(KeyCode::Char('Q'), none)));
    assert!(!stops(press(KeyCode::Char('c'), none)));
    assert!(!stops(press(KeyCode::Char('C'), modifiers(true, true))));
    assert!(!stops(press(KeyCode::Char('x'), modifiers(true, false))));
    assert!(!stops(press(KeyCode::Other, modifiers(true, false))));
    assert!(!stops(Some(Event::Other)));
    assert!(!stops(None));
}

#[test]
fn control_with_any_other_modifier_is_not_control_alone() {
    let control = modifiers(true, false);
    assert!(control.control_alone());
    assert!(!KeyModifiers { alt: true, ..control }.control_alone());
    assert!(!KeyModifiers { super_key: true, ..control }.control_alone());
    assert!(!KeyModifiers { hyper: true, ..control }.control_alone());
    assert!(!KeyModifiers { meta: true, ..control }.control_alone());
    assert!(!modifiers(false, false).control_alone());
}

#[test]
fn only_a_press_counts() {
    let key = KeyEvent {
        code: KeyCode::Esc,
        modifiers: modifiers(false, false),
        kind: KeyEventKind::Release,
    };
    assert!(!stops(Some(Event::Key(key))));
    let repeat = KeyEvent {
        kind: KeyEventKind::Repeat,
        ..key
    };
    assert!(!stops(Some(Event::Key(repeat))));
}

#[test]
fn the_end_is_announced_once() {
    let mut app = running(60);
    assert!(app.check_finish(59 * S).is_none());
    assert!(!app.is_done());
    let notice = app.check_finish(60 * S).unwrap();
    assert_eq!(notice.summary, "⏱ Timer complete!");
    assert_eq!(notice.body, "Your countdown has finished.");
    assert_eq!(notice.icon, "alarm");
    assert_eq!(notice.timeout_ms, 6_000);
    assert!(app.is_done());
    assert!(app.check_finish(61 * S).is_none());
    assert!(app.is_done());
}

#[test]
fn the_timer_closes_three_seconds_after_the_end() {
    let mut app = running(60);
    app.check_close(100 * S);
    assert!(app.is_running());
    app.check_finish(60 * S);
    app.check_close(63 * S - 1);
    assert!(app.is_running());
    app.check_close(63 * S);
    assert!(!app.is_running());
}

#[test]
fn a_negative_duration_is_over_at_once() {
    let mut app = running(-5);
    assert_eq!(app.elapsed(0), Span::Finite(-5 * SECOND));
    assert_eq!(app.remaining(0), Span::Finite(0));
    assert_eq!(app.progress(0), Ratio { num: 1, den: 1 });
    assert_eq!(app.accent(0), Color::Green);
    assert!(app.check_finish(0).is_some());
    app.check_close(0);
    assert!(!app.is_running());
}

#[test]
fn endless_time_never_ends() {
    let mut app = App::new(Span::Endless);
    app.start();
    assert_eq!(app.elapsed(7), Span::Finite(7));
    assert_eq!(app.remaining(7), Span::Endless);
    assert_eq!(app.progress(7), Ratio { num: 0, den: 1 });
    assert_eq!(app.accent(7), Color::Red);
    assert!(app.check_finish(u64::MAX).is_none());
    app.check_close(u64::MAX);
    assert!(app.is_running());
    assert_eq!(app.remaining(7).hms().format(), "18446744073709551615:00:00");
}

#[test]
fn the_largest_duration_is_handled() {
    let app = App::new(Span::Finite(i128::MAX));
    assert_eq!(app.remaining(1), Span::Finite(i128::MAX - 1));
    assert_eq!(app.accent(1), Color::Green);
    assert_eq!(app.remaining(1).hms().hours, u64::MAX);
    assert_eq!(App::new(Span::Finite(i128::MIN)).accent(1), Color::Green);
}

#[test]
fn elapsed_and_remaining_make_up_the_duration() {
    let app = running(60);
    assert_eq!(app.elapsed(20 * S), Span::Finite(20 * SECOND));
    assert_eq!(app.remaining(20 * S), Span::Finite(40 * SECOND));
    assert_eq!(app.elapsed(70 * S), Span::Finite(60 * SECOND));
    assert_eq!(app.remaining(70 * S), Span::Finite(0));
}

#[test]
fn progress_is_a_fraction_of_the_duration() {
    let app = running(60);
    let whole = 60_000_000_000;
    assert_eq!(app.progress(0), Ratio { num: 0, den: whole });
    assert_eq!(app.progress(15 * S), Ratio { num: 15_000_000_000, den: whole });
    assert_eq!(app.progress(61 * S), Ratio { num: whole, den: whole });
}

#[test]
fn the_color_goes_from_green_to_red() {
    let mut app = running(60);
    assert_eq!(app.accent(0), Color::Green);
    assert_eq!(app.accent(30 * S - 1), Color::Green);
    assert_eq!(app.accent(30 * S), Color::Yellow);
    assert_eq!(app.accent(48 * S - 1), Color::Yellow);
    assert_eq!(app.accent(48 * S), Color::Red);
    assert_eq!(app.accent(60 * S), Color::Red);
    app.check_finish(60 * S);
    assert_eq!(app.accent(60 * S), Color::Cyan);
}

#[test]
fn a_span_is_taken_apart() {
    assert_eq!(
        Span::Finite(2 * HOUR + 3 * MINUTE + 4 * SECOND + 999_999_999).hms(),
        Hms { hours: 2, minutes: 3, seconds: 4 }
    );
    assert_eq!(
        Span::Finite(-1).hms(),
        Hms { hours: 0, minutes: 0, seconds: 0 }
    );
}

#[test]
fn a_time_is_written_out() {
    assert_eq!(Span::Finite(90 * SECOND).hms().format(), "01:30");
    assert_eq!(Span::Finite(0).hms().format(), "00:00");
    assert_eq!(Span::Finite(HOUR).hms().format(), "01:00:00");
    assert_eq!(Span::Finite(123 * HOUR + 59 * MINUTE + 59 * SECOND).hms().format(), "123:59:59");
}

#[test]
fn a_whole_run_announces_once_and_closes_on_time() {
    let mut app = running(2);
    let mut announced = 0;
    let mut now = 0;
    let mut turns = 0;
    while app.is_running() {
        app.handle_event(None);
        if app.check_finish(now).is_some() {
            announced += 1;
            assert_eq!(now, 2 * S);
        }
        app.check_close(now);
        if app.is_running() {
            now += S / 20;
        }
        turns += 1;
    }
    assert_eq!(announced, 1);
    assert_eq!(now, 5 * S);
    assert_eq!(turns, 101);
    assert!(app.is_done());
}

#[test]
fn a_key_in_the_last_turn_does_not_hide_the_announcement() {
    let mut app = running(2);
    let key = press(KeyCode::Esc, modifiers(false, false));
    assert!(app.turn(key, 2 * S, 2 * S).is_some());
    assert!(!app.is_running());
    assert!(app.is_done());
}

#[test]
fn a_key_before_the_end_stops_without_an_announcement() {
    let mut app = running(2);
    let key = press(KeyCode::Esc, modifiers(false, false));
    assert!(app.turn(key, 2 * S - 1, 2 * S).is_none());
    assert!(!app.is_running());
    assert!(!app.is_done());
}

#[test]
fn a_key_after_the_announcement_does_not_repeat_it() {
    let mut app = running(2);
    let key = press(KeyCode::Esc, modifiers(false, false));
    assert!(app.turn(None, 2 * S, 2 * S).is_some());
    assert!(app.is_running());
    assert!(app.turn(key, S, S).is_none());
    assert!(!app.is_running());
    assert!(app.is_done());
}

#[test]
fn a_fraction_reaches_its_parts() {
    let whole = u64::MAX as u128;
    let most = Ratio { num: u128::MAX - 1, den: u128::MAX };
    assert!(most.is_at_least(whole - 1, whole));
    assert!(!most.is_at_least(whole, whole));
    let third = Ratio { num: 1, den: 3 };
    assert!(third.is_at_least(whole / 3, whole));
    assert!(!third.is_at_least(whole / 3 + 1, whole));
    assert!(third.is_at_least(0, 1));
}

#[test]
fn a_turn_can_finish_and_close_at_once() {
    let mut app = running(2);
    assert!(app.turn(None, 2 * S, 5 * S - 1).is_some());
    assert!(app.is_running());
    assert!(app.turn(None, 3 * S, 5 * S).is_none());
    assert!(!app.is_running());
    let mut app = running(2);
    assert!(app.turn(None, 9 * S, 9 * S).is_some());
    assert!(!app.is_running());
}

#[test]
fn a_session_draws_and_polls_in_turn() {
    let mut session = Session::start(Span::Finite(SECOND));
    let mut draws = 0;
    let mut polls = 0;
    let mut announced_at = None;
    loop {
        match session.next_action() {
            Action::Draw => {
                assert_eq!(draws, polls);
                assert_eq!(session.app().is_done(), announced_at.is_some());
                draws += 1;
                session.note_drawn();
            }
            Action::Poll => {
                assert_eq!(draws, polls + 1);
                let now = polls * S / 2;
                if session.note_polled(None, now, now).is_some() {
                    assert!(announced_at.is_none());
                    announced_at = Some(now);
                }
                polls += 1;
            }
            Action::Leave => break,
        }
    }
    assert_eq!(announced_at, Some(S));
    assert_eq!(draws, 9);
    assert_eq!(polls, 9);
    assert_eq!(session.next_action(), Action::Leave);
}
