//! The timer and its state.
//!
//! Readings of the clock, called `now` here, are nanoseconds since the timer
//! was started.

use vstd::prelude::*;

use crate::event::{stops_timer, Event, KeyCode, KeyEvent, KeyEventKind};
use crate::ratio::Ratio;
use crate::span::Span;
use crate::style::Color;

verus! {

/// How long the timer stays open after it has finished, in nanoseconds.
pub const CLOSING_DELAY: i128 = 3_000_000_000;

/// A countdown timer.
#[derive(Debug)]
pub struct App {
    running: bool,
    total_duration: Span,
    alerted: bool,
    done: bool,
}

/// The state of a timer.
pub struct AppView {
    /// The timer has been started and has not been stopped.
    pub running: bool,
    /// How long the timer runs.
    pub total: Span,
    /// The end has been announced.
    pub alerted: bool,
    /// The timer has finished.
    pub done: bool,
}

/// A desktop notification.
#[derive(Debug)]
pub struct Notice {
    pub summary: String,
    pub body: String,
    pub icon: String,
    pub timeout_ms: u32,
}

impl Notice {
    /// The notification that announces the end of the countdown.
    pub open spec fn announces_completion(self) -> bool {
        &&& self.summary@ == "⏱ Timer complete!"@
        &&& self.body@ == "Your countdown has finished."@
        &&& self.icon@ == "alarm"@
        &&& self.timeout_ms == 6_000
    }

    fn completion() -> (notice: Notice)
        ensures
            notice.announces_completion(),
    {
        Notice {
            summary: "⏱ Timer complete!".to_owned(),
            body: "Your countdown has finished.".to_owned(),
            icon: "alarm".to_owned(),
            timeout_ms: 6_000,
        }
    }
}

impl View for App {
    type V = AppView;

    closed spec fn view(&self) -> AppView {
        AppView {
            running: self.running,
            total: self.total_duration,
            alerted: self.alerted,
            done: self.done,
        }
    }
}

impl AppView {
    /// The timer has finished exactly when its end has been announced.
    pub open spec fn valid(self) -> bool {
        self.alerted == self.done
    }

    /// A gauge can be drawn for the timer: its duration is not zero.
    pub open spec fn measurable(self) -> bool {
        self.total != Span::Finite(0)
    }

    /// The time since the start, but no more than the duration.
    pub open spec fn elapsed(self, now: u64) -> Span {
        match self.total {
            Span::Finite(t) => if now <= t {
                Span::Finite(now as i128)
            } else {
                Span::Finite(t)
            },
            Span::Endless => Span::Finite(now as i128),
        }
    }

    /// The time up to the end of the duration, but no less than none.
    pub open spec fn remaining(self, now: u64) -> Span {
        match self.total {
            Span::Finite(t) => if now < t {
                Span::Finite((t - now) as i128)
            } else {
                Span::Finite(0)
            },
            Span::Endless => Span::Endless,
        }
    }

    /// The part of the duration that is over. A negative duration is over from
    /// the start, and no part of endless time is ever over.
    pub open spec fn progress(self, now: u64) -> Ratio {
        match self.total {
            Span::Finite(t) => if t < 0 {
                Ratio { num: 1, den: 1 }
            } else if now <= t {
                Ratio { num: now as u128, den: t as u128 }
            } else {
                Ratio { num: t as u128, den: t as u128 }
            },
            Span::Endless => Ratio { num: 0, den: 1 },
        }
    }

    /// The colour of the clock hand and the gauge: green while more than half of
    /// the duration remains, then yellow while more than a fifth remains, then
    /// red, and cyan once the timer has finished. Half of endless time is not
    /// less than the whole, so endless time is red.
    pub open spec fn accent(self, now: u64) -> Color {
        if self.done {
            Color::Cyan
        } else {
            match (self.remaining(now), self.total) {
                (Span::Finite(r), Span::Finite(t)) => if 2 * r > t {
                    Color::Green
                } else if 5 * r > t {
                    Color::Yellow
                } else {
                    Color::Red
                },
                _ => Color::Red,
            }
        }
    }

    /// The duration is over.
    pub open spec fn is_over(self, now: u64) -> bool {
        match self.total {
            Span::Finite(t) => t <= now,
            Span::Endless => false,
        }
    }

    /// The end is to be announced: the duration is over, and nothing has been
    /// announced yet.
    pub open spec fn is_alert_due(self, now: u64) -> bool {
        self.is_over(now) && !self.alerted
    }

    /// The timer has finished and has stayed open long enough.
    pub open spec fn is_closing_due(self, now: u64) -> bool {
        match self.total {
            Span::Finite(t) => self.done && t + CLOSING_DELAY <= now,
            Span::Endless => false,
        }
    }

    /// The state once the timer is stopped.
    pub open spec fn stopped(self) -> AppView {
        AppView { running: false, ..self }
    }

    /// The state after what came from the terminal was taken in.
    pub open spec fn after_event(self, event: Option<Event>) -> AppView {
        if stops_timer(event) {
            self.stopped()
        } else {
            self
        }
    }

    /// The state after looking whether the countdown has finished.
    pub open spec fn after_finish_check(self, now: u64) -> AppView {
        if self.is_alert_due(now) {
            AppView { alerted: true, done: true, ..self }
        } else {
            self
        }
    }

    /// The state after looking whether the timer is to close.
    pub open spec fn after_close_check(self, now: u64) -> AppView {
        if self.is_closing_due(now) {
            self.stopped()
        } else {
            self
        }
    }
}

impl App {
    /// Makes a timer that is not running yet.
    pub fn new(duration: Span) -> (app: App)
        ensures
            app@ == (AppView { running: false, total: duration, alerted: false, done: false }),
            app@.valid(),
    {
        App { running: false, total_duration: duration, alerted: false, done: false }
    }

    /// Starts the timer. From here on clock readings count from zero.
    pub fn start(&mut self)
        ensures
            final(self)@ == (AppView { running: true, ..old(self)@ }),
    {
        self.running = true;
    }

    /// Tells whether the timer has been started and has not been stopped.
    pub fn is_running(&self) -> (yes: bool)
        ensures
            yes == self@.running,
    {
        self.running
    }

    /// Tells whether the timer has finished.
    pub fn is_done(&self) -> (yes: bool)
        ensures
            yes == self@.done,
    {
        self.done
    }

    /// Tells how long the timer runs.
    pub fn total_duration(&self) -> (total: Span)
        ensures
            total == self@.total,
    {
        self.total_duration
    }

    /// Looks whether the countdown has finished. The first time that it has,
    /// hands back the notification to send; the sound is to be played with it.
    pub fn check_finish(&mut self, now: u64) -> (notice: Option<Notice>)
        ensures
            final(self)@ == old(self)@.after_finish_check(now),
            notice is Some <==> old(self)@.is_alert_due(now),
            notice matches Some(n) ==> n.announces_completion(),
    {
        let over: bool = match self.total_duration {
            Span::Finite(t) => t <= now as i128,
            Span::Endless => false,
        };
        if over && !self.alerted {
            self.alerted = true;
            self.done = true;
            Some(Notice::completion())
        } else {
            None
        }
    }

    /// Looks whether the timer has stayed open long enough after it finished,
    /// and stops it if so.
    pub fn check_close(&mut self, now: u64)
        ensures
            final(self)@ == old(self)@.after_close_check(now),
    {
        if self.done {
            match self.total_duration {
                Span::Finite(t) => if t <= now as i128 - CLOSING_DELAY {
                    self.running = false;
                },
                Span::Endless => {},
            }
        }
    }

    /// The time since the start, but no more than the duration.
    pub fn elapsed(&self, now: u64) -> (elapsed: Span)
        ensures
            elapsed == self@.elapsed(now),
    {
        match self.total_duration {
            Span::Finite(t) => if now as i128 <= t {
                Span::Finite(now as i128)
            } else {
                Span::Finite(t)
            },
            Span::Endless => Span::Finite(now as i128),
        }
    }

    /// The time up to the end of the duration, but no less than none.
    pub fn remaining(&self, now: u64) -> (remaining: Span)
        ensures
            remaining == self@.remaining(now),
    {
        match self.total_duration {
            Span::Finite(t) => if (now as i128) < t {
                Span::Finite(t - now as i128)
            } else {
                Span::Finite(0)
            },
            Span::Endless => Span::Endless,
        }
    }

    /// The part of the duration that is over, between zero and one.
    pub fn progress(&self, now: u64) -> (progress: Ratio)
        requires
            self@.measurable(),
        ensures
            progress == self@.progress(now),
            progress.in_unit(),
    {
        match self.total_duration {
            Span::Finite(t) => if t < 0 {
                Ratio { num: 1, den: 1 }
            } else if now as i128 <= t {
                Ratio { num: now as u128, den: t as u128 }
            } else {
                Ratio { num: t as u128, den: t as u128 }
            },
            Span::Endless => Ratio { num: 0, den: 1 },
        }
    }

    /// The colour of the clock hand and the gauge.
    pub fn accent(&self, now: u64) -> (color: Color)
        ensures
            color == self@.accent(now),
    {
        if self.done {
            return Color::Cyan;
        }
        match (self.remaining(now), self.total_duration) {
            (Span::Finite(r), Span::Finite(t)) => if r > t - r {
                Color::Green
            } else if r > t / 5 {
                Color::Yellow
            } else {
                Color::Red
            },
            _ => Color::Red,
        }
    }

    /// Takes in what came from the terminal; `None` where nothing came in time.
    pub fn handle_event(&mut self, event: Option<Event>)
        ensures
            final(self)@ == old(self)@.after_event(event),
    {
        if let Some(Event::Key(key)) = event {
            if key.kind == KeyEventKind::Press {
                self.on_key_event(key);
            }
        }
    }

    /// Takes in a key press.
    pub fn on_key_event(&mut self, key: KeyEvent)
        ensures
            final(self)@ == (if key.is_quit() {
                old(self)@.stopped()
            } else {
                old(self)@
            }),
    {
        if key.asks_to_quit() {
            self.quit();
        }
    }

    /// Stops the timer.
    pub fn quit(&mut self)
        ensures
            final(self)@ == old(self)@.stopped(),
    {
        self.running = false;
    }
}

/// A new timer has the duration it was made with. It is not running and not done.
pub proof fn law_new_timer(
    duration: Span,
    app: App,
    running: bool,
    done: bool,
    total: Span,
)
    requires
        call_ensures(App::new, (duration,), app),
        call_ensures(App::is_running, (&app,), running),
        call_ensures(App::is_done, (&app,), done),
        call_ensures(App::total_duration, (&app,), total),
    ensures
        !running,
        !done,
        total == duration,
        app@.total == duration,
        !app@.alerted,
{
}

/// Starting a timer makes it run and changes nothing else.
pub proof fn law_start(app: &mut App)
    requires
        call_ensures(App::start, (app,), ()),
    ensures
        final(app)@.running,
        final(app)@.total == old(app)@.total,
        final(app)@.alerted == old(app)@.alerted,
        final(app)@.done == old(app)@.done,
{
}

/// Stopping a timer ends its run and changes nothing else.
pub proof fn law_quit(app: &mut App)
    requires
        call_ensures(App::quit, (app,), ()),
    ensures
        !final(app)@.running,
        final(app)@.total == old(app)@.total,
        final(app)@.alerted == old(app)@.alerted,
        final(app)@.done == old(app)@.done,
{
}

/// What has elapsed is the reading, up to the duration; what remains is what the
/// duration has more than the reading, and never less than nothing. So the two
/// make up a duration that is not negative. Endless time elapses and all of it
/// remains.
pub proof fn law_time_over_and_left(app: App, now: u64, elapsed: Span, remaining: Span)
    requires
        call_ensures(App::elapsed, (&app, now), elapsed),
        call_ensures(App::remaining, (&app, now), remaining),
    ensures
        app@.total matches Span::Finite(t) ==> {
            &&& elapsed matches Span::Finite(e) && e <= now && e <= t && (e == now || e == t)
            &&& remaining matches Span::Finite(r) && r >= 0 && r >= t - now && (r == 0 || r == t
                - now)
            &&& t >= 0 ==> elapsed->Finite_0 + remaining->Finite_0 == t
        },
        app@.total is Endless ==> elapsed == Span::Finite(now as i128) && remaining is Endless,
{
}

/// Progress is the share of the duration that the reading has reached: times the
/// duration it is the reading, up to the duration. It is full for a negative
/// duration and none for an endless one. It does not matter whether the timer has
/// finished.
pub proof fn law_progress_is_share(app: App, now: u64, progress: Ratio)
    requires
        app@.total != Span::Finite(0),
        call_ensures(App::progress, (&app, now), progress),
    ensures
        progress.den > 0,
        progress.num <= progress.den,
        app@.total matches Span::Finite(t) ==> {
            &&& 0 < t && now <= t ==> progress.num * t == now * progress.den
            &&& t <= now ==> progress.num == progress.den
        },
        app@.total is Endless ==> progress.num == 0,
{
    if let Span::Finite(t) = app@.total {
        if 0 < t && now <= t {
            assert(progress.num == now && progress.den == t);
        }
    }
}

/// The colour of a timer that has not finished tells how much of its duration is
/// left: green for more than half, red for a fifth or less, yellow in between.
/// With the duration over nothing is left, which is more than half of a negative
/// duration. An endless timer is red, and one that has finished is cyan.
pub proof fn law_accent_tells_share(app: App, now: u64, color: Color)
    requires
        call_ensures(App::accent, (&app, now), color),
    ensures
        app@.done ==> color == Color::Cyan,
        !app@.done ==> {
            &&& app@.total matches Span::Finite(t) ==> {
                &&& now <= t ==> {
                    &&& color == Color::Green <==> 2 * (t - now) > t
                    &&& color == Color::Red <==> 5 * (t - now) <= t
                    &&& color == Color::Green || color == Color::Yellow || color == Color::Red
                }
                &&& now >= t ==> color == (if t < 0 {
                    Color::Green
                } else {
                    Color::Red
                })
            }
            &&& app@.total is Endless ==> color == Color::Red
        },
{
}

/// Looking whether the countdown has finished: a timer whose end is not announced
/// yet finishes exactly if the reading has reached the duration, and just then a
/// notification is handed back. Nothing else changes, and an endless timer never
/// finishes.
pub proof fn law_finish_check(app: &mut App, now: u64, notice: Option<Notice>)
    requires
        call_ensures(App::check_finish, (app, now), notice),
    ensures
        final(app)@.running == old(app)@.running,
        final(app)@.total == old(app)@.total,
        old(app)@.total matches Span::Finite(t) ==> {
            &&& notice is Some <==> t <= now && !old(app)@.alerted
            &&& final(app)@.alerted <==> t <= now || old(app)@.alerted
        },
        old(app)@.total is Endless ==> notice is None && final(app)@.alerted == old(app)@.alerted,
        notice is Some ==> final(app)@.done,
        notice is None ==> final(app)@.done == old(app)@.done,
{
}

/// Looking whether the timer is to close: a running timer is stopped exactly if
/// it has finished and the reading is three seconds or more past the duration.
/// Nothing else changes.
pub proof fn law_close_check(app: &mut App, now: u64)
    requires
        call_ensures(App::check_close, (app, now), ()),
    ensures
        final(app)@.total == old(app)@.total,
        final(app)@.alerted == old(app)@.alerted,
        final(app)@.done == old(app)@.done,
        old(app)@.total matches Span::Finite(t) ==> (final(app)@.running <==> old(app)@.running && !(
        old(app)@.done && now - t >= 3_000_000_000)),
        old(app)@.total is Endless ==> final(app)@.running == old(app)@.running,
{
}

/// The notification says that the countdown has finished, has the alarm icon and
/// stays for six seconds.
pub proof fn law_notice(app: &mut App, now: u64, notice: Notice)
    requires
        call_ensures(App::check_finish, (app, now), Some(notice)),
    ensures
        notice.summary@ == "⏱ Timer complete!"@,
        notice.body@ == "Your countdown has finished."@,
        notice.icon@ == "alarm"@,
        notice.timeout_ms == 6_000,
{
}

/// What comes from the terminal stops the timer exactly if it is a key that goes
/// down and that key is escape, `q`, or `c` in either case with control and no
/// other modifier. Nothing else changes, and anything else changes nothing.
pub proof fn law_terminal_event(app: &mut App, event: Option<Event>)
    requires
        call_ensures(App::handle_event, (app, event), ()),
    ensures
        final(app)@.total == old(app)@.total,
        final(app)@.alerted == old(app)@.alerted,
        final(app)@.done == old(app)@.done,
        event matches Some(Event::Key(key)) ==> {
            let m = key.modifiers;
            let quits = match key.code {
                KeyCode::Esc => true,
                KeyCode::Char(c) => c == 'q' || (c == 'c' || c == 'C') && m.control && !m.shift
                    && !m.alt && !m.super_key && !m.hyper && !m.meta,
                KeyCode::Other => false,
            };
            final(app)@.running <==> old(app)@.running && !(key.kind == KeyEventKind::Press
                && quits)
        },
        event is None || event == Some(Event::Other) ==> final(app)@.running == old(app)@.running,
{
}

/// A key press stops the timer exactly if the key is escape, `q`, or `c` in
/// either case with control and no other modifier.
pub proof fn law_key_press(app: &mut App, key: KeyEvent)
    requires
        call_ensures(App::on_key_event, (app, key), ()),
    ensures
        final(app)@.total == old(app)@.total,
        final(app)@.alerted == old(app)@.alerted,
        final(app)@.done == old(app)@.done,
        ({
            let m = key.modifiers;
            let quits = match key.code {
                KeyCode::Esc => true,
                KeyCode::Char(c) => c == 'q' || (c == 'c' || c == 'C') && m.control && !m.shift
                    && !m.alt && !m.super_key && !m.hyper && !m.meta,
                KeyCode::Other => false,
            };
            final(app)@.running <==> old(app)@.running && !quits
        }),
{
}

/// What a timer tells of itself is its state.
pub proof fn law_state_is_told(app: App, running: bool, done: bool, total: Span)
    requires
        call_ensures(App::is_running, (&app,), running),
        call_ensures(App::is_done, (&app,), done),
        call_ensures(App::total_duration, (&app,), total),
    ensures
        running == app@.running,
        done == app@.done,
        total == app@.total,
{
}

} // verus!
