# countdown

A countdown timer for the terminal, with its logic in a library that Verus
verifies.

    countdown [DURATION]

The duration is `HH:MM:SS`, `MM:SS` or plain seconds; without one the timer runs
for a minute. `q`, `Esc` and `Ctrl-C` quit. At the end the timer beeps, sends a
desktop notification, and closes three seconds later.

The library, in `src/`:

- `duration` reads a duration from the command line;
- `app` keeps the timer's state, and `run` takes a timer from start to end and
  says what holds on the way;
- `span`, `ratio` and `numeral` are times, fractions and numerals;
- `clock`, `screen` and `style` decide what is drawn, and where;
- `wav` makes the sound;
- `event` says which keys quit.

The library counts time in whole nanoseconds and keeps fractions exact. It is
handed clock readings and key events, and hands back what is to be drawn, played
and sent. `app/` is the program around it: the terminal, the clock, the sound
device and the notification service, and what needs floating-point numbers.
