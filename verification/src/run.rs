//! A timer from its start to its end, and what holds of it.
//!
//! A running timer goes through turns. In each it is drawn, then the terminal is
//! polled. The timer takes in what came, then looks whether the countdown has
//! finished, then looks whether it is to close; the clock is read anew for each
//! look.

use vstd::prelude::*;

use crate::app::{App, AppView, Notice, CLOSING_DELAY};
use crate::event::{stops_timer, Event, KeyCode, KeyEventKind};
use crate::screen::{banner_line, hint_line};
use crate::span::Span;
use crate::style::Color;

verus! {

/// What one turn is given from outside.
pub struct Turn {
    pub event: Option<Event>,
    pub finish_reading: u64,
    pub close_reading: u64,
}

impl AppView {
    /// The state after one turn.
    pub open spec fn after_turn(self, turn: Turn) -> AppView {
        self.after_event(turn.event).after_finish_check(turn.finish_reading).after_close_check(
            turn.close_reading,
        )
    }

    /// The end is announced in this turn.
    pub open spec fn announces_in(self, turn: Turn) -> bool {
        self.after_event(turn.event).is_alert_due(turn.finish_reading)
    }

    /// The state after the turns that are taken. No turn is taken once the timer
    /// is not running.
    pub open spec fn after_turns(self, turns: Seq<Turn>) -> AppView
        decreases turns.len(),
    {
        if turns.len() == 0 {
            self
        } else {
            let before = self.after_turns(turns.drop_last());
            if before.running {
                before.after_turn(turns.last())
            } else {
                before
            }
        }
    }

    /// How often the end is announced in the turns that are taken.
    pub open spec fn announcements(self, turns: Seq<Turn>) -> nat
        decreases turns.len(),
    {
        if turns.len() == 0 {
            0
        } else {
            let before = self.after_turns(turns.drop_last());
            let earlier = self.announcements(turns.drop_last());
            if before.running && before.announces_in(turns.last()) {
                earlier + 1
            } else {
                earlier
            }
        }
    }
}

impl App {
    /// Takes a turn: takes in what came from the terminal, looks whether the
    /// countdown has finished, and looks whether the timer is to close. Hands
    /// back the notification to send, if the end is to be announced.
    pub fn turn(&mut self, event: Option<Event>, finish_reading: u64, close_reading: u64) -> (notice:
        Option<Notice>)
        ensures
            final(self)@ == old(self)@.after_turn(Turn { event, finish_reading, close_reading }),
            notice is Some <==> old(self)@.announces_in(
                Turn { event, finish_reading, close_reading },
            ),
            notice matches Some(n) ==> n.announces_completion(),
    {
        self.handle_event(event);
        let notice: Option<Notice> = self.check_finish(finish_reading);
        self.check_close(close_reading);
        notice
    }
}

/// What is to be done next for a timer.
#[derive(Clone, Copy, Debug, PartialEq, Eq, Structural)]
pub enum Action {
    /// Draw the timer.
    Draw,
    /// Poll the terminal, read the clock and take a turn.
    Poll,
    /// Leave: the timer has stopped.
    Leave,
}

/// A timer on its way from start to end.
#[derive(Debug)]
pub struct Session {
    app: App,
    drawn: bool,
}

/// The state of a session.
pub struct SessionView {
    /// The timer.
    pub app: AppView,
    /// The timer has been drawn in this turn.
    pub drawn: bool,
}

/// What was done for a timer.
pub enum Deed {
    Drew,
    Polled(Turn),
}

impl View for Session {
    type V = SessionView;

    closed spec fn view(&self) -> SessionView {
        SessionView { app: self.app@, drawn: self.drawn }
    }
}

impl SessionView {
    /// A session with a new timer of this duration, just started.
    pub open spec fn started(duration: Span) -> SessionView {
        SessionView {
            app: AppView { running: true, total: duration, alerted: false, done: false },
            drawn: false,
        }
    }

    /// What is to be done next.
    pub open spec fn action(self) -> Action {
        if !self.app.running {
            Action::Leave
        } else if self.drawn {
            Action::Poll
        } else {
            Action::Draw
        }
    }

    /// The deed is what was to be done.
    pub open spec fn asks_for(self, deed: Deed) -> bool {
        match deed {
            Deed::Drew => self.action() == Action::Draw,
            Deed::Polled(_) => self.action() == Action::Poll,
        }
    }

    /// The state after the deed.
    pub open spec fn after(self, deed: Deed) -> SessionView {
        match deed {
            Deed::Drew => SessionView { drawn: true, ..self },
            Deed::Polled(turn) => SessionView { app: self.app.after_turn(turn), drawn: false },
        }
    }

    /// The state after all deeds.
    pub open spec fn after_all(self, deeds: Seq<Deed>) -> SessionView
        decreases deeds.len(),
    {
        if deeds.len() == 0 {
            self
        } else {
            self.after_all(deeds.drop_last()).after(deeds.last())
        }
    }

    /// Each deed is what was to be done when it was done.
    pub open spec fn obeyed_by(self, deeds: Seq<Deed>) -> bool
        decreases deeds.len(),
    {
        deeds.len() > 0 ==> {
            &&& self.obeyed_by(deeds.drop_last())
            &&& self.after_all(deeds.drop_last()).asks_for(deeds.last())
        }
    }
}

impl Session {
    /// Starts a timer.
    pub fn start(duration: Span) -> (session: Session)
        ensures
            session@ == SessionView::started(duration),
    {
        let mut app: App = App::new(duration);
        app.start();
        Session { app, drawn: false }
    }

    /// Tells what is to be done next.
    pub fn next_action(&self) -> (action: Action)
        ensures
            action == self@.action(),
    {
        if !self.app.is_running() {
            Action::Leave
        } else if self.drawn {
            Action::Poll
        } else {
            Action::Draw
        }
    }

    /// The timer, for drawing.
    pub fn app(&self) -> (app: &App)
        ensures
            app@ == self@.app,
    {
        &self.app
    }

    /// Takes note that the timer was drawn.
    pub fn note_drawn(&mut self)
        ensures
            final(self)@ == old(self)@.after(Deed::Drew),
    {
        self.drawn = true;
    }

    /// Takes a turn with what the terminal was polled for and two readings of the
    /// clock. Hands back the notification to send, if the end is to be
    /// announced.
    pub fn note_polled(
        &mut self,
        event: Option<Event>,
        finish_reading: u64,
        close_reading: u64,
    ) -> (notice: Option<Notice>)
        ensures
            final(self)@ == old(self)@.after(
                Deed::Polled(Turn { event, finish_reading, close_reading }),
            ),
            notice is Some <==> old(self)@.app.announces_in(
                Turn { event, finish_reading, close_reading },
            ),
            notice matches Some(n) ==> n.announces_completion(),
    {
        self.drawn = false;
        self.app.turn(event, finish_reading, close_reading)
    }
}

/// The turns among the deeds, in order.
pub open spec fn turns_of(deeds: Seq<Deed>) -> Seq<Turn>
    decreases deeds.len(),
{
    if deeds.len() == 0 {
        Seq::empty()
    } else {
        match deeds.last() {
            Deed::Drew => turns_of(deeds.drop_last()),
            Deed::Polled(turn) => turns_of(deeds.drop_last()).push(turn),
        }
    }
}

/// How often the timer was drawn.
pub open spec fn draws_in(deeds: Seq<Deed>) -> nat
    decreases deeds.len(),
{
    if deeds.len() == 0 {
        0
    } else {
        draws_in(deeds.drop_last()) + (if deeds.last() is Drew {
            1nat
        } else {
            0nat
        })
    }
}

/// In every turn the timer is drawn once and the terminal is then polled once:
/// draws and polls alternate, a draw comes first, and once the session is over
/// there were as many draws as polls, one at least. The timer has gone through
/// exactly the turns that were polled for.
pub proof fn law_draw_then_poll(duration: Span, deeds: Seq<Deed>)
    requires
        SessionView::started(duration).obeyed_by(deeds),
    ensures
        ({
            let start = SessionView::started(duration);
            let now = start.after_all(deeds);
            let polls = turns_of(deeds).len();
            &&& now.app == start.app.after_turns(turns_of(deeds))
            &&& draws_in(deeds) == polls + (if now.drawn {
                1int
            } else {
                0int
            })
            &&& now.action() == Action::Leave ==> draws_in(deeds) == polls && polls >= 1
        }),
        forall|i: int|
            0 <= i < deeds.len() ==> ((#[trigger] deeds[i]) is Drew <==> i % 2 == 0),
{
    lemma_session(SessionView::started(duration), deeds);
}

proof fn lemma_session(start: SessionView, deeds: Seq<Deed>)
    requires
        start.obeyed_by(deeds),
        start.app.running,
        !start.drawn,
    ensures
        start.after_all(deeds).app == start.app.after_turns(turns_of(deeds)),
        start.after_all(deeds).drawn <==> deeds.len() % 2 == 1,
        start.after_all(deeds).drawn ==> start.after_all(deeds).app.running,
        draws_in(deeds) == turns_of(deeds).len() + (if start.after_all(deeds).drawn {
            1int
        } else {
            0int
        }),
        !start.after_all(deeds).app.running ==> turns_of(deeds).len() >= 1,
        forall|i: int|
            0 <= i < deeds.len() ==> ((#[trigger] deeds[i]) is Drew <==> i % 2 == 0),
    decreases deeds.len(),
{
    if deeds.len() > 0 {
        let earlier = deeds.drop_last();
        let k = deeds.len() - 1;
        lemma_session(start, earlier);
        let before = start.after_all(earlier);
        match deeds.last() {
            Deed::Drew => {
                assert(turns_of(deeds) == turns_of(earlier));
            },
            Deed::Polled(turn) => {
                assert(turns_of(deeds) == turns_of(earlier).push(turn));
                assert(turns_of(deeds).drop_last() =~= turns_of(earlier));
                assert(start.app.after_turns(turns_of(deeds)) == before.app.after_turn(turn));
            },
        }
        assert forall|i: int| 0 <= i < deeds.len() implies ((#[trigger] deeds[i]) is Drew <==> i % 2
            == 0) by {
            if i < k {
                assert(deeds[i] == earlier[i]);
            }
        }
    }
}

/// A quit key ends the run in the turn in which it comes, whatever would have
/// come after. The end was announced exactly once if in one of the turns the
/// duration was over, and not at all if in none. So with a clock that does not go
/// back, the reading of the last turn decides.
pub proof fn law_quit_turn(app: AppView, turns: Seq<Turn>, more: Seq<Turn>)
    requires
        app.valid(),
        !app.done,
        turns.len() > 0,
        app.after_turns(turns.drop_last()).running,
        stops_timer(turns.last().event),
    ensures
        !app.after_turns(turns).running,
        app.after_turns(turns + more) == app.after_turns(turns),
        app.announcements(turns + more) == app.announcements(turns),
        app.announcements(turns) == (if sees_end(app, turns) {
            1nat
        } else {
            0nat
        }),
        goes_forward(turns) ==> (sees_end(app, turns) <==> app.is_over(
            turns.last().finish_reading,
        )),
{
    let last = turns.last();
    assert(last == turns[turns.len() - 1]);
    lemma_no_turns_after_stop(app, turns, more);
    lemma_done_if_seen(app, turns);
    law_announced_once(app, turns);
    if goes_forward(turns) && sees_end(app, turns) {
        let i = choose|i: int|
            0 <= i < turns.len() && app.is_over((#[trigger] turns[i]).finish_reading);
        assert(turns[i].finish_reading <= turns[turns.len() - 1].finish_reading);
    }
}

/// In one of the turns the duration is over.
pub open spec fn sees_end(app: AppView, turns: Seq<Turn>) -> bool {
    exists|i: int| 0 <= i < turns.len() && app.is_over((#[trigger] turns[i]).finish_reading)
}

/// The readings do not go back.
pub open spec fn goes_forward(turns: Seq<Turn>) -> bool {
    forall|i: int, j: int|
        0 <= i <= j < turns.len() ==> (#[trigger] turns[i]).finish_reading <= (
        #[trigger] turns[j]).finish_reading
}

/// A timer that has taken all these turns has finished exactly if in one of them
/// the duration was over.
proof fn lemma_done_if_seen(app: AppView, turns: Seq<Turn>)
    requires
        app.valid(),
        !app.done,
        turns.len() > 0,
        app.after_turns(turns.drop_last()).running,
    ensures
        app.after_turns(turns).done <==> sees_end(app, turns),
    decreases turns.len(),
{
    let earlier = turns.drop_last();
    let last = turns[turns.len() - 1];
    law_turns_keep(app, earlier);
    if earlier.len() > 0 {
        lemma_done_if_seen(app, earlier);
    }
    assert(sees_end(app, turns) <==> sees_end(app, earlier) || app.is_over(last.finish_reading))
        by {
        if sees_end(app, earlier) {
            let i = choose|i: int|
                0 <= i < earlier.len() && app.is_over((#[trigger] earlier[i]).finish_reading);
            assert(earlier[i] == turns[i]);
        }
        if sees_end(app, turns) && !app.is_over(last.finish_reading) {
            let i = choose|i: int|
                0 <= i < turns.len() && app.is_over((#[trigger] turns[i]).finish_reading);
            assert(earlier[i] == turns[i]);
        }
    }
}

proof fn lemma_no_turns_after_stop(app: AppView, turns: Seq<Turn>, more: Seq<Turn>)
    requires
        !app.after_turns(turns).running,
    ensures
        app.after_turns(turns + more) == app.after_turns(turns),
        app.announcements(turns + more) == app.announcements(turns),
    decreases more.len(),
{
    if more.len() == 0 {
        assert(turns + more =~= turns);
    } else {
        lemma_no_turns_after_stop(app, turns, more.drop_last());
        assert((turns + more).drop_last() =~= turns + more.drop_last());
    }
}

/// The banner is on the screen only after the end was announced: in a draw of a
/// new timer after these turns it is there exactly if they announced the end,
/// and the hint is there otherwise.
pub proof fn law_banner_after_announcement(app: AppView, turns: Seq<Turn>)
    requires
        app.valid(),
        !app.done,
    ensures
        app.after_turns(turns).alerted == app.after_turns(turns).done,
        app.after_turns(turns).footer_line() == banner_line() <==> app.announcements(turns) == 1,
        app.after_turns(turns).footer_line() == hint_line() <==> app.announcements(turns) == 0,
{
    law_turns_keep(app, turns);
    law_announced_once(app, turns);
    assert(banner_line().len() != hint_line().len());
}

/// A timer keeps its duration, stays well formed, and once it has finished it
/// stays finished.
pub proof fn law_turns_keep(app: AppView, turns: Seq<Turn>)
    requires
        app.valid(),
    ensures
        app.after_turns(turns).total == app.total,
        app.after_turns(turns).valid(),
        app.done ==> app.after_turns(turns).done,
    decreases turns.len(),
{
    if turns.len() > 0 {
        law_turns_keep(app, turns.drop_last());
    }
}

/// A timer that has stopped takes no more turns: nothing changes, and nothing is
/// announced.
pub proof fn law_stopped_stays(app: AppView, turns: Seq<Turn>)
    requires
        !app.running,
    ensures
        app.after_turns(turns) == app,
        app.announcements(turns) == 0,
    decreases turns.len(),
{
    if turns.len() > 0 {
        law_stopped_stays(app, turns.drop_last());
    }
}

/// The end is announced at most once, and a new timer that has finished has
/// announced its end exactly once.
pub proof fn law_announced_once(app: AppView, turns: Seq<Turn>)
    requires
        app.valid(),
    ensures
        app.announcements(turns) <= 1,
        app.alerted ==> app.announcements(turns) == 0,
        !app.alerted ==> (app.announcements(turns) == 1 <==> app.after_turns(turns).done),
    decreases turns.len(),
{
    if turns.len() > 0 {
        law_announced_once(app, turns.drop_last());
        law_turns_keep(app, turns.drop_last());
    }
}

/// A timer that has not finished does not finish while every reading is before
/// the end of its duration.
pub proof fn law_no_early_finish(app: AppView, turns: Seq<Turn>)
    requires
        app.valid(),
        !app.done,
        forall|i: int|
            0 <= i < turns.len() ==> !app.is_over((#[trigger] turns[i]).finish_reading),
    ensures
        !app.after_turns(turns).done,
        app.announcements(turns) == 0,
    decreases turns.len(),
{
    if turns.len() > 0 {
        let earlier = turns.drop_last();
        assert forall|i: int| 0 <= i < earlier.len() implies !app.is_over(
            (#[trigger] earlier[i]).finish_reading,
        ) by {
            assert(earlier[i] == turns[i]);
        }
        law_no_early_finish(app, earlier);
        law_turns_keep(app, earlier);
        assert(turns.last() == turns[turns.len() - 1]);
    }
}

/// This turn gives the timer a reason to stop: a key that asks for it, or a
/// reading three seconds or more after the end of the duration.
pub open spec fn may_stop(total: Span, turn: Turn) -> bool {
    ||| stops_timer(turn.event)
    ||| (total matches Span::Finite(t) && t + CLOSING_DELAY <= turn.close_reading)
}

/// A running timer stops only where a turn gives it a reason to: nothing else
/// ends it.
pub proof fn law_stops_for_a_reason(app: AppView, turns: Seq<Turn>)
    requires
        app.valid(),
        app.running,
        !app.after_turns(turns).running,
    ensures
        exists|i: int| 0 <= i < turns.len() && may_stop(app.total, #[trigger] turns[i]),
    decreases turns.len(),
{
    if turns.len() > 0 {
        let earlier = turns.drop_last();
        law_turns_keep(app, earlier);
        if app.after_turns(earlier).running {
            assert(may_stop(app.total, turns[turns.len() - 1]));
        } else {
            law_stops_for_a_reason(app, earlier);
            let i = choose|i: int|
                0 <= i < earlier.len() && may_stop(app.total, #[trigger] earlier[i]);
            assert(may_stop(app.total, turns[i]));
        }
    }
}

/// A timer that closes by itself has finished first, whatever the readings: a
/// turn without a stopping key that ends the timer leaves it finished.
pub proof fn law_closes_only_when_done(app: AppView, turn: Turn)
    requires
        app.running,
        !stops_timer(turn.event),
        !app.after_turn(turn).running,
    ensures
        app.after_turn(turn).done,
{
}

/// A stopping key ends the timer in the turn in which it comes.
pub proof fn law_key_stops(app: AppView, turn: Turn)
    requires
        stops_timer(turn.event),
    ensures
        !app.after_turn(turn).running,
{
}

/// A turn whose first reading is past the duration leaves the timer finished,
/// and if its second reading is three seconds past the duration, the timer
/// closes.
pub proof fn law_finishes_and_closes(app: AppView, turn: Turn, t: i128)
    requires
        app.valid(),
        app.total == Span::Finite(t),
        t <= turn.finish_reading,
    ensures
        app.after_turn(turn).done,
        t + CLOSING_DELAY <= turn.close_reading ==> !app.after_turn(turn).running,
{
}

/// What has elapsed and what remains make up the whole duration.
pub proof fn law_elapsed_and_remaining(app: AppView, now: u64, t: i128)
    requires
        app.total == Span::Finite(t),
        t >= 0,
    ensures
        app.elapsed(now) matches Span::Finite(e) && app.remaining(now) matches Span::Finite(r)
            && e + r == t && e >= 0 && r >= 0,
{
}

/// Progress lies between zero and one, does not go back, and is full exactly
/// when the duration is over.
pub proof fn law_progress(app: AppView, earlier: u64, later: u64)
    requires
        app.measurable(),
        earlier <= later,
    ensures
        app.progress(earlier).in_unit(),
        app.progress(later).in_unit(),
        app.progress(earlier).at_most(app.progress(later)),
        app.progress(later).num == app.progress(later).den <==> app.is_over(later),
{
    let a = app.progress(earlier);
    let b = app.progress(later);
    assert(a.num * b.den <= b.num * a.den) by (nonlinear_arith)
        requires
            a.den == b.den,
            a.num <= b.num,
    ;
}

/// How far a colour of the running countdown is from its start.
pub open spec fn stage(color: Color) -> int {
    match color {
        Color::Green => 0,
        Color::Yellow => 1,
        Color::Red => 2,
        _ => 3,
    }
}

/// The colour of a timer goes from green over yellow to red, and never back.
pub proof fn law_accent_advances(app: AppView, earlier: u64, later: u64)
    requires
        earlier <= later,
    ensures
        stage(app.accent(earlier)) <= stage(app.accent(later)),
        app.accent(earlier) == Color::Cyan <==> app.done,
{
}

/// A timer of positive length starts out green and, unless it has finished, is
/// red once the duration is over.
pub proof fn law_accent_ends(app: AppView, now: u64, t: i128)
    requires
        !app.done,
        app.total == Span::Finite(t),
        t > 0,
    ensures
        app.accent(0) == Color::Green,
        app.is_over(now) ==> app.accent(now) == Color::Red,
{
}

/// What one turn does, in terms of what it is given: the end is announced, and
/// the timer finishes, exactly if it had not been announced and the first reading
/// has reached the duration. The timer goes on exactly if it was running, no key
/// asked it to stop, and it is not three seconds or more past the duration, by
/// the second reading, with the timer finished.
pub proof fn law_turn(
    app: &mut App,
    event: Option<Event>,
    finish_reading: u64,
    close_reading: u64,
    notice: Option<Notice>,
)
    requires
        old(app)@.alerted == old(app)@.done,
        call_ensures(App::turn, (app, event, finish_reading, close_reading), notice),
    ensures
        final(app)@.total == old(app)@.total,
        final(app)@.alerted == final(app)@.done,
        final(app)@.done <==> old(app)@.done || notice is Some,
        notice matches Some(n) ==> n.summary@ == "⏱ Timer complete!"@ && n.body@
            == "Your countdown has finished."@ && n.icon@ == "alarm"@ && n.timeout_ms == 6_000,
        ({
            let quits = event matches Some(Event::Key(key)) && key.kind == KeyEventKind::Press && (
            match key.code {
                KeyCode::Esc => true,
                KeyCode::Char(c) => c == 'q' || (c == 'c' || c == 'C') && key.modifiers.control && !(
                key.modifiers.shift || key.modifiers.alt || key.modifiers.super_key
                    || key.modifiers.hyper || key.modifiers.meta),
                KeyCode::Other => false,
            });
            match old(app)@.total {
                Span::Finite(t) => {
                    &&& notice is Some <==> !old(app)@.done && t <= finish_reading
                    &&& final(app)@.running <==> old(app)@.running && !quits && !(final(app)@.done
                        && close_reading - t >= 3_000_000_000)
                },
                Span::Endless => {
                    &&& notice is None
                    &&& final(app)@.running <==> old(app)@.running && !quits
                },
            }
        }),
{
}

/// A session that was just started has a running timer of the duration that was
/// asked for, which has not finished, and asks for it to be drawn.
pub proof fn law_session_start(duration: Span, session: Session, action: Action, app: &App)
    requires
        call_ensures(Session::start, (duration,), session),
        call_ensures(Session::next_action, (&session,), action),
        call_ensures(Session::app, (&session,), app),
    ensures
        action == Action::Draw,
        app@.running,
        app@.total == duration,
        !app@.alerted,
        !app@.done,
{
}

/// A session asks to leave exactly if its timer does not run. Else it asks for a
/// draw if nothing was drawn in this turn, and for a poll if something was.
pub proof fn law_session_asks(session: Session, action: Action, app: &App)
    requires
        call_ensures(Session::next_action, (&session,), action),
        call_ensures(Session::app, (&session,), app),
    ensures
        action == Action::Leave <==> !app@.running,
        app@.running ==> (action == Action::Poll <==> session@.drawn),
        app@.running ==> (action == Action::Draw <==> !session@.drawn),
{
}

/// Once it was drawn, a running timer is to be polled for. Drawing does not change
/// the timer.
pub proof fn law_session_drawn(session: &mut Session)
    requires
        call_ensures(Session::note_drawn, (session,), ()),
    ensures
        final(session)@.app == old(session)@.app,
        final(session)@.drawn,
{
}

/// Polling is one turn of the timer, after which it is to be drawn anew if it
/// still runs: the end is announced exactly if it had not been and the first
/// reading has reached the duration, and the timer goes on unless a key stops it
/// or, finished, it is three seconds past the duration by the second reading.
pub proof fn law_session_polled(
    session: &mut Session,
    event: Option<Event>,
    finish_reading: u64,
    close_reading: u64,
    notice: Option<Notice>,
)
    requires
        old(session)@.app.alerted == old(session)@.app.done,
        call_ensures(
            Session::note_polled,
            (session, event, finish_reading, close_reading),
            notice,
        ),
    ensures
        !final(session)@.drawn,
        final(session)@.app.total == old(session)@.app.total,
        final(session)@.app.alerted == final(session)@.app.done,
        final(session)@.app.done <==> old(session)@.app.done || notice is Some,
        notice matches Some(n) ==> n.summary@ == "⏱ Timer complete!"@ && n.body@
            == "Your countdown has finished."@ && n.icon@ == "alarm"@ && n.timeout_ms == 6_000,
        ({
            let quits = event matches Some(Event::Key(key)) && key.kind == KeyEventKind::Press && (
            match key.code {
                KeyCode::Esc => true,
                KeyCode::Char(c) => c == 'q' || (c == 'c' || c == 'C') && key.modifiers.control && !(
                key.modifiers.shift || key.modifiers.alt || key.modifiers.super_key
                    || key.modifiers.hyper || key.modifiers.meta),
                KeyCode::Other => false,
            });
            match old(session)@.app.total {
                Span::Finite(t) => {
                    &&& notice is Some <==> !old(session)@.app.done && t <= finish_reading
                    &&& final(session)@.app.running <==> old(session)@.app.running && !quits && !(
                    final(session)@.app.done && close_reading - t >= 3_000_000_000)
                },
                Span::Endless => {
                    &&& notice is None
                    &&& final(session)@.app.running <==> old(session)@.app.running && !quits
                },
            }
        }),
{
}

} // verus!
