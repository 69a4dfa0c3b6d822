//! Stretches of time.

use vstd::prelude::*;

use crate::numeral::{lemma_two_digits_writes, push_two_digits, two_digits, writes};

verus! {

/// Nanoseconds in one second.
pub const SECOND: i128 = 1_000_000_000;

/// Nanoseconds in one minute.
pub const MINUTE: i128 = 60_000_000_000;

/// Nanoseconds in one hour.
pub const HOUR: i128 = 3_600_000_000_000;

/// A stretch of time: a number of nanoseconds, which may be negative, or time
/// without end.
#[derive(Clone, Copy, Debug, PartialEq, Eq, Structural)]
pub enum Span {
    Finite(i128),
    Endless,
}

/// A stretch of time taken apart for display.
#[derive(Clone, Copy, Debug, PartialEq, Eq, Structural)]
pub struct Hms {
    pub hours: u64,
    pub minutes: u64,
    pub seconds: u64,
}

/// `n`, or the largest `u64` where `n` is larger.
pub open spec fn capped(n: int) -> u64 {
    if n > u64::MAX {
        u64::MAX
    } else {
        n as u64
    }
}

impl Span {
    /// The whole hours, whole minutes of the last hour and whole seconds of the
    /// last minute. A negative span has none of them. The hours stop at the
    /// largest `u64`, which is also what endless time shows.
    pub open spec fn parts(self) -> Hms {
        match self {
            Span::Finite(n) => if n < 0 {
                Hms { hours: 0, minutes: 0, seconds: 0 }
            } else {
                Hms {
                    hours: capped(n as int / HOUR as int),
                    minutes: (n as int % HOUR as int / MINUTE as int) as u64,
                    seconds: (n as int % MINUTE as int / SECOND as int) as u64,
                }
            },
            Span::Endless => Hms { hours: u64::MAX, minutes: 0, seconds: 0 },
        }
    }

    /// Takes the span apart into hours, minutes and seconds.
    pub fn hms(&self) -> (hms: Hms)
        ensures
            hms == self.parts(),
    {
        match *self {
            Span::Finite(n) => if n < 0 {
                Hms { hours: 0, minutes: 0, seconds: 0 }
            } else {
                let whole: i128 = n / HOUR;
                let hours: u64 = if whole > 0xffff_ffff_ffff_ffff {
                    u64::MAX
                } else {
                    whole as u64
                };
                Hms {
                    hours,
                    minutes: (n % HOUR / MINUTE) as u64,
                    seconds: (n % MINUTE / SECOND) as u64,
                }
            },
            Span::Endless => Hms { hours: u64::MAX, minutes: 0, seconds: 0 },
        }
    }
}

impl Hms {
    /// `HH:MM:SS`, or `MM:SS` where there is no whole hour.
    pub open spec fn text(self) -> Seq<char> {
        let tail = two_digits(self.minutes as nat) + seq![':'] + two_digits(self.seconds as nat);
        if self.hours > 0 {
            two_digits(self.hours as nat) + seq![':'] + tail
        } else {
            tail
        }
    }

    /// Writes the time as `HH:MM:SS`, or as `MM:SS` where there is no whole
    /// hour.
    pub fn format(&self) -> (text: String)
        ensures
            text@ == self.text(),
    {
        proof {
            reveal_strlit(":");
        }
        let mut text: String = String::new();
        if self.hours > 0 {
            push_two_digits(&mut text, self.hours);
            text.append(":");
        }
        push_two_digits(&mut text, self.minutes);
        text.append(":");
        push_two_digits(&mut text, self.seconds);
        text
    }
}

/// The parts shown for a span add up to its whole seconds, and the minutes and
/// seconds stay below sixty, as long as the hours fit.
pub proof fn law_parts_add_up(n: i128)
    requires
        n >= 0,
    ensures
        Span::Finite(n).parts().minutes < 60,
        Span::Finite(n).parts().seconds < 60,
        n as int / HOUR as int <= u64::MAX ==> {
            let hms = Span::Finite(n).parts();
            hms.hours * 3600 + hms.minutes * 60 + hms.seconds == n as int / SECOND as int
        },
{
}

/// What `hms` gives for a span: whole hours as far as they fit, and beside them
/// less than sixty minutes and less than sixty seconds, which together fall short
/// of the span by less than a second. Less than no time is no time, and endless
/// time is as many hours as there can be.
pub proof fn law_hms(span: Span, hms: Hms)
    requires
        call_ensures(Span::hms, (&span,), hms),
    ensures
        hms.minutes < 60,
        hms.seconds < 60,
        span matches Span::Finite(n) ==> {
            let minutes = hms.hours * 60 + hms.minutes;
            let shown = (minutes * 60 + hms.seconds) * 1_000_000_000;
            let excess = (n - shown) % 3_600_000_000_000;
            if n < 0 {
                shown == 0
            } else if hms.hours < u64::MAX {
                0 <= n - shown < 1_000_000_000
            } else {
                0 <= excess < 1_000_000_000 && shown <= n
            }
        },
        span is Endless ==> hms.hours == u64::MAX && hms.minutes == 0 && hms.seconds == 0,
{
}

/// What `format` writes: the hours if there are any, the minutes and the seconds,
/// each as a numeral of two digits or more, with colons between them.
pub proof fn law_format(hms: Hms, text: String)
    requires
        call_ensures(Hms::format, (&hms,), text),
    ensures
        exists|h: Seq<char>, m: Seq<char>, s: Seq<char>|
            {
                &&& text@ == (if hms.hours > 0 {
                    h + seq![':'] + m + seq![':'] + s
                } else {
                    m + seq![':'] + s
                })
                &&& #[trigger] writes(h, hms.hours as nat)
                &&& #[trigger] writes(m, hms.minutes as nat)
                &&& #[trigger] writes(s, hms.seconds as nat)
                &&& h.len() == 2 || h.len() > 2 && h[0] != '0'
                &&& m.len() == 2 || m.len() > 2 && m[0] != '0'
                &&& s.len() == 2 || s.len() > 2 && s[0] != '0'
            },
{
    lemma_two_digits_writes(hms.hours as nat);
    lemma_two_digits_writes(hms.minutes as nat);
    lemma_two_digits_writes(hms.seconds as nat);
    let h = two_digits(hms.hours as nat);
    let m = two_digits(hms.minutes as nat);
    let s = two_digits(hms.seconds as nat);
    assert(text@ =~= (if hms.hours > 0 {
        h + seq![':'] + m + seq![':'] + s
    } else {
        m + seq![':'] + s
    }));
    assert(writes(h, hms.hours as nat) && writes(m, hms.minutes as nat) && writes(
        s,
        hms.seconds as nat,
    ));
}

} // verus!
