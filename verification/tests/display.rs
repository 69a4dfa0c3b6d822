use countdown::app::App;
use countdown::clock::{clock_face, Shape};
use countdown::ratio::Ratio;
use countdown::screen::{
    arrange, band_limits, content_limits, percent_label, place, side_limits, Area, FrameInput,
    Screen,
};
use countdown::screen::Limit::{Length, Min, Percentage};
use countdown::span::{Span, SECOND};
use countdown::style::{Color, Style, TextRun};

const S: u64 = 1_000_000_000;

fn at(now: u64) -> FrameInput {
    FrameInput {
        clock_progress: now,
        clock_remaining: now,
        gauge_progress: now,
        gauge_remaining: now,
        label: now,
        half_up: false,
    }
}

fn text(line: &[TextRun]) -> String {
    line.iter().map(|run| run.text.as_str()).collect()
}

fn dots(shapes: &[Shape]) -> usize {
    shapes.iter().filter(|s| matches!(s, Shape::Dot { .. })).count()
}

fn rows(content: Area, from: u16, to: u16) -> Area {
    Area {
        x: content.x,
        y: content.y + from,
        width: content.width,
        height: to - from,
    }
}

fn percent(p: u32, size: u16) -> u16 {
    ((p * u32::from(size) + 50) / 100) as u16
}

fn content(area: Area) -> Area {
    Area {
        x: area.x + percent(10, area.width),
        y: area.y + percent(8, area.height),
        width: percent(90, area.width) - percent(10, area.width),
        height: percent(92, area.height) - percent(8, area.height),
    }
}

fn full(area: Area) -> Screen {
    let c = content(area);
    Screen {
        title: rows(c, 0, 3),
        clock: rows(c, 3, c.height - 6),
        gauge: rows(c, c.height - 6, c.height - 5),
        label: rows(c, c.height - 4, c.height - 3),
        footer: rows(c, c.height - 2, c.height),
    }
}

fn squeezed(c: Area) -> Screen {
    let title = c.height.saturating_sub(10).min(3);
    let below = title + c.height.min(10);
    let rest = c.height.saturating_sub(13);
    let edge = |k: u16| below + (2 * k * rest + 5) / 10;
    Screen {
        title: rows(c, 0, title),
        clock: rows(c, title, below),
        gauge: rows(c, edge(0), edge(1)),
        label: rows(c, edge(2), edge(3)),
        footer: rows(c, edge(4), edge(5)),
    }
}

#[test]
fn a_usual_terminal_is_laid_out() {
    let screen = arrange(Area { x: 0, y: 0, width: 80, height: 24 });
    assert_eq!(screen.title, Area { x: 8, y: 2, width: 64, height: 3 });
    assert_eq!(screen.clock, Area { x: 8, y: 5, width: 64, height: 11 });
    assert_eq!(screen.gauge, Area { x: 8, y: 16, width: 64, height: 1 });
    assert_eq!(screen.label, Area { x: 8, y: 18, width: 64, height: 1 });
    assert_eq!(screen.footer, Area { x: 8, y: 20, width: 64, height: 2 });
}

#[test]
fn two_of_the_seven_rows_stay_empty() {
    let rows: Vec<Area> = (0..7).map(|y| Area { x: 1, y, width: 9, height: 1 }).collect();
    let screen = place(&rows);
    assert_eq!(screen.title, rows[0]);
    assert_eq!(screen.clock, rows[1]);
    assert_eq!(screen.gauge, rows[2]);
    assert_eq!(screen.label, rows[4]);
    assert_eq!(screen.footer, rows[6]);
}

#[test]
fn every_frame_with_room_is_laid_out_in_full() {
    for height in 0..=260 {
        for (x, y, width) in [(0, 0, 80), (3, 7, 133), (1, 2, height)] {
            let area = Area { x, y, width, height };
            if content(area).height >= 19 {
                assert_eq!(arrange(area), full(area));
            }
        }
    }
    for width in 0..=260 {
        let area = Area { x: 5, y: 0, width, height: 60 };
        assert_eq!(arrange(area), full(area));
    }
}

#[test]
fn large_frames_are_laid_out_in_full() {
    for size in [1_000, 10_000, 30_000, 60_000, 65_000] {
        let area = Area { x: 500, y: 250, width: size, height: size };
        assert_eq!(arrange(area), full(area));
    }
}

#[test]
fn a_frame_past_the_last_coordinate_is_cut_off() {
    let screen = arrange(Area { x: 65_435, y: 65_435, width: 500, height: 500 });
    let cut = Area { x: 65_435, y: 65_435, width: 100, height: 100 };
    assert_eq!(screen, full(cut));
}

#[test]
fn small_frames_keep_every_part_inside_and_in_order() {
    for height in 0..40 {
        for y in [0, 1, 9, 100, 1_023, 40_000, 65_000] {
            let area = Area { x: 0, y, width: 40, height };
            let c = content(area);
            let s = arrange(area);
            for part in [s.title, s.clock, s.gauge, s.label, s.footer] {
                assert_eq!((part.x, part.width), (c.x, c.width));
                assert!(c.y <= part.y);
                assert!(part.y + part.height <= c.y + c.height);
            }
            assert_eq!(s.title.y, c.y);
            assert_eq!(s.title.y + s.title.height, s.clock.y);
            assert_eq!(s.clock.y + s.clock.height, s.gauge.y);
            assert!(s.gauge.y + s.gauge.height <= s.label.y);
            assert!(s.label.y + s.label.height <= s.footer.y);
            assert_eq!(s.footer.y + s.footer.height, c.y + c.height);
            if c.height < 19 {
                assert_eq!(s, squeezed(c));
            }
        }
    }
}

#[test]
fn the_limits_are_those_of_the_display() {
    assert_eq!(band_limits(), vec![Percentage(8), Percentage(84), Percentage(8)]);
    assert_eq!(side_limits(), vec![Percentage(10), Percentage(80), Percentage(10)]);
    assert_eq!(
        content_limits(),
        vec![Length(3), Min(10), Length(1), Length(1), Length(1), Length(1), Length(2)]
    );
}

#[test]
fn a_percentage_has_one_digit_after_the_point() {
    for half_up in [false, true] {
        let label = |num: u128, den: u128| percent_label(Ratio { num, den }, half_up);
        assert_eq!(label(0, 1), "0.0%");
        assert_eq!(label(80, 100), "80.0%");
        assert_eq!(label(9_996, 10_000), "100.0%");
        assert_eq!(label(9_994, 10_000), "99.9%");
        assert_eq!(label(1, 3), "33.3%");
        assert_eq!(label(2, 3), "66.7%");
        assert_eq!(label(u128::MAX, u128::MAX), "100.0%");
        assert_eq!(label(u128::MAX / 3, u128::MAX), "33.3%");
    }
}

#[test]
fn halves_of_the_last_digit_are_rounded_as_asked() {
    for t in 0..1_000 {
        let half = Ratio { num: 2 * t + 1, den: 2_000 };
        assert_eq!(percent_label(half, false), format!("{}.{}%", t / 10, t % 10));
        assert_eq!(percent_label(half, true), format!("{}.{}%", (t + 1) / 10, (t + 1) % 10));
        let below = Ratio { num: 20 * t + 9, den: 20_000 };
        assert_eq!(percent_label(below, true), percent_label(half, false));
        let above = Ratio { num: 20 * t + 11, den: 20_000 };
        assert_eq!(percent_label(above, false), percent_label(half, true));
    }
    let app = App::new(Span::Finite(400 * SECOND));
    assert_eq!(app.render_gauge(S, S, false).label.text, "0.2%");
    assert_eq!(app.render_gauge(S, S, true).label.text, "0.3%");
}

#[test]
fn percentages_agree_with_those_of_floating_point_numbers() {
    for den in [7u128, 60, 101, 400, 999, 2_000, 3_601, 10_007] {
        for num in 0..=den {
            let percent = num as f64 / den as f64 * 100.0;
            let shown: f64 = format!("{:.1}", percent).parse().unwrap();
            let label = percent_label(Ratio { num, den }, shown > percent);
            assert_eq!(label, format!("{:.1}%", percent));
        }
    }
}

#[test]
fn each_figure_has_its_own_reading() {
    let app = App::new(Span::Finite(10 * SECOND));
    let readings = FrameInput {
        clock_progress: S,
        clock_remaining: 6 * S,
        gauge_progress: 2 * S,
        gauge_remaining: 9 * S,
        label: 3 * S,
        half_up: false,
    };
    let picture = app.render(Area { x: 0, y: 0, width: 80, height: 24 }, readings);
    assert_eq!(picture.clock, clock_face(app.progress(S), Color::Yellow, false));
    assert_eq!(picture.gauge.label.text, "20.0%");
    assert_eq!(picture.gauge.fill, Color::Red);
    assert_eq!(text(&picture.label), "remaining  00:07");
}

#[test]
fn the_static_face_does_not_change() {
    for (num, done) in [(0, false), (50, false), (100, true)] {
        let face = clock_face(Ratio { num, den: 100 }, Color::Green, done);
        let still: Vec<Shape> = face
            .iter()
            .copied()
            .filter(|shape| match shape {
                Shape::Circle { .. } => true,
                Shape::Ray { from, .. } => *from == 50,
                _ => false,
            })
            .collect();
        assert_eq!(still.len(), 16);
        assert_eq!(still[2], Shape::Circle { radius: 62, color: Color::Background });
        for h in 0..12 {
            assert_eq!(
                still[3 + h],
                Shape::Ray {
                    turn: Ratio { num: h as u128, den: 12 },
                    from: 50,
                    to: 58,
                    color: Color::Comment
                }
            );
        }
        assert_eq!(still[15], Shape::Circle { radius: 4, color: Color::Foreground });
    }
}

#[test]
fn the_face_starts_with_one_dot() {
    let face = clock_face(Ratio { num: 0, den: 1 }, Color::Green, false);
    assert_eq!(face.len(), 2 + 1 + 1 + 12 + 1 + 1);
    assert_eq!(face[0], Shape::Circle { radius: 90, color: Color::Highlight });
    assert_eq!(face[1], Shape::Circle { radius: 78, color: Color::Comment });
    assert_eq!(
        face[2],
        Shape::Dot {
            turn: Ratio { num: 0, den: 360 },
            radius: 78,
            glyph: '•',
            color: Color::Green
        }
    );
    assert_eq!(face[3], Shape::Circle { radius: 62, color: Color::Background });
    assert_eq!(
        face[4 + 11],
        Shape::Ray {
            turn: Ratio { num: 11, den: 12 },
            from: 50,
            to: 58,
            color: Color::Comment
        }
    );
    assert_eq!(
        face[16],
        Shape::Ray {
            turn: Ratio { num: 0, den: 1 },
            from: 0,
            to: 55,
            color: Color::Green
        }
    );
    assert_eq!(face[17], Shape::Circle { radius: 4, color: Color::Foreground });
}

#[test]
fn the_finished_face_has_all_dots_and_a_check_mark() {
    let face = clock_face(Ratio { num: 7, den: 7 }, Color::Cyan, true);
    assert_eq!(dots(&face), 360);
    assert_eq!(
        face[face.len() - 2],
        Shape::Mark {
            x: -10,
            y: 5,
            glyph: '✓',
            style: Style { fg: Some(Color::Cyan), bg: None, bold: true }
        }
    );
}

#[test]
fn dots_follow_the_progress() {
    for den in [1u128, 7, 60, 359, 360, 361, 1_000, 60_000_000_000] {
        for eighth in 0..=8 {
            let num = den * eighth / 8;
            let face = clock_face(Ratio { num, den }, Color::Red, false);
            let lit = (0..360).filter(|i| i * den <= 360 * num).count();
            assert_eq!(dots(&face), lit);
        }
    }
    let most = u128::MAX;
    assert_eq!(dots(&clock_face(Ratio { num: most, den: most }, Color::Red, false)), 360);
    assert_eq!(dots(&clock_face(Ratio { num: most / 2, den: most }, Color::Red, false)), 180);
    assert_eq!(dots(&clock_face(Ratio { num: most / 2 + 1, den: most }, Color::Red, false)), 181);
    assert_eq!(dots(&clock_face(Ratio { num: 1, den: 2 }, Color::Red, false)), 181);
    assert_eq!(dots(&clock_face(Ratio { num: 1, den: 720 }, Color::Red, false)), 1);
    assert_eq!(dots(&clock_face(Ratio { num: 1, den: 360 }, Color::Red, false)), 2);
}

#[test]
fn a_running_timer_is_pictured() {
    let mut app = App::new(Span::Finite(3_700 * SECOND));
    app.start();
    let frame = Area { x: 0, y: 0, width: 80, height: 24 };
    let picture = app.render(frame, at(25 * S));
    assert_eq!(picture.screen, arrange(frame));
    assert_eq!(picture.background, Color::Background);
    assert_eq!(picture.title_border, Color::Highlight);
    assert_eq!(picture.clock_background, Color::DarkBackground);
    assert_eq!(text(&picture.title), "  ⏱  COUNTDOWN TIMER  ⏱  ");
    assert_eq!(picture.title[1].style, Style { fg: Some(Color::Blue), bg: None, bold: true });
    assert_eq!(text(&picture.label), "remaining  01:01:15");
    assert_eq!(text(&picture.footer), " q   quit     Esc   quit");
    assert_eq!(
        picture.footer[2].style,
        Style { fg: Some(Color::Background), bg: Some(Color::Comment), bold: false }
    );
    assert_eq!(picture.gauge.fill, Color::Green);
    assert_eq!(picture.gauge.track, Color::Highlight);
    assert_eq!(picture.gauge.progress, app.progress(25 * S));
    assert_eq!(picture.gauge.label.text, "0.7%");
    assert_eq!(
        picture.gauge.label.style,
        Style { fg: Some(Color::Foreground), bg: None, bold: true }
    );
    assert_eq!(picture.clock, clock_face(app.progress(25 * S), Color::Green, false));
}

#[test]
fn a_finished_timer_is_pictured() {
    let mut app = App::new(Span::Finite(10 * SECOND));
    app.start();
    app.check_finish(10 * S);
    let picture = app.render(Area { x: 0, y: 0, width: 80, height: 24 }, at(11 * S));
    assert_eq!(text(&picture.label), "remaining  00:00");
    assert_eq!(text(&picture.footer), " ✓  TIMER COMPLETE — closing in 3 s ");
    assert_eq!(
        picture.footer[0].style,
        Style { fg: Some(Color::Background), bg: Some(Color::Cyan), bold: true }
    );
    assert_eq!(picture.gauge.fill, Color::Cyan);
    assert_eq!(dots(&picture.clock), 360);
}

#[test]
fn the_palette_has_its_colors() {
    assert_eq!(Color::Background.rgb(), (0x1a, 0x1b, 0x26));
    assert_eq!(Color::DarkBackground.rgb(), (0x16, 0x17, 0x21));
    assert_eq!(Color::Highlight.rgb(), (0x29, 0x2e, 0x42));
    assert_eq!(Color::Foreground.rgb(), (0xc0, 0xca, 0xf5));
    assert_eq!(Color::Comment.rgb(), (0x56, 0x5f, 0x89));
    assert_eq!(Color::Blue.rgb(), (0x7a, 0xa2, 0xf7));
    assert_eq!(Color::Cyan.rgb(), (0x7d, 0xcf, 0xff));
    assert_eq!(Color::Green.rgb(), (0x9e, 0xce, 0x6a));
    assert_eq!(Color::Yellow.rgb(), (0xe0, 0xaf, 0x68));
    assert_eq!(Color::Red.rgb(), (0xf7, 0x76, 0x8e));
}
