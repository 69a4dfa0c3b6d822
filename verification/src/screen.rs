//! What the screen shows, and where.

use ratatui::layout::{Constraint, Layout, Rect};
use vstd::prelude::*;

use crate::app::{App, AppView};
use crate::clock::{clock_face, face, lemma_face, lemma_lit_below_count, lit_count, Shape};
use crate::numeral::{
    decimal, lemma_decimal_writes, lemma_two_digits_writes, numeral_value, push_decimal, two_digits,
    writes,
};
use crate::ratio::Ratio;
use crate::span::{law_parts_add_up, Hms, Span};
use crate::style::{bold, boxed, inked, line_view, Color, RunView, Style, TextRun};

verus! {

/// A rectangle of terminal cells.
#[derive(Clone, Copy, Debug, PartialEq, Eq, Structural)]
pub struct Area {
    pub x: u16,
    pub y: u16,
    pub width: u16,
    pub height: u16,
}

/// How much room a part of an area wants.
#[derive(Clone, Copy, Debug, PartialEq, Eq, Structural)]
pub enum Limit {
    /// This part of a hundred of the whole.
    Percentage(u16),
    /// This many cells.
    Length(u16),
    /// This many cells or more.
    Min(u16),
}

/// Where the parts of the display go.
#[derive(Clone, Copy, Debug, PartialEq, Eq, Structural)]
pub struct Screen {
    pub title: Area,
    pub clock: Area,
    pub gauge: Area,
    pub label: Area,
    pub footer: Area,
}

/// A bar that fills with the progress, and the text on it.
#[derive(Debug)]
pub struct Gauge {
    pub progress: Ratio,
    pub fill: Color,
    pub track: Color,
    pub label: TextRun,
}

/// What comes from outside for one frame. The clock is read anew for each figure
/// that is drawn, so no two readings need agree.
#[derive(Clone, Copy, Debug, PartialEq, Eq, Structural)]
pub struct FrameInput {
    /// For the arc and the hand of the clock.
    pub clock_progress: u64,
    /// For the colour of the clock.
    pub clock_remaining: u64,
    /// For the bar of the gauge and its text.
    pub gauge_progress: u64,
    /// For the colour of the gauge.
    pub gauge_remaining: u64,
    /// For the remaining time.
    pub label: u64,
    /// Where the percentage lies halfway between two texts, the larger is shown.
    pub half_up: bool,
}

/// Everything that is drawn for one frame. The lines of text are centred.
#[derive(Debug)]
pub struct Picture {
    pub background: Color,
    pub screen: Screen,
    pub title: Vec<TextRun>,
    pub title_border: Color,
    pub clock: Vec<Shape>,
    pub clock_background: Color,
    pub gauge: Gauge,
    pub label: Vec<TextRun>,
    pub footer: Vec<TextRun>,
}

/// Where a range of cells ends; coordinates stop at the largest `u16`.
pub open spec fn range_end(start: u16, size: u16) -> int {
    if start + size > u16::MAX {
        u16::MAX as int
    } else {
        start + size
    }
}

/// How many cells a range has.
pub open spec fn extent(start: u16, size: u16) -> int {
    range_end(start, size) - start
}

impl Limit {
    /// The number in the limit.
    pub open spec fn amount(self) -> int {
        match self {
            Limit::Percentage(n) => n as int,
            Limit::Length(n) => n as int,
            Limit::Min(n) => n as int,
        }
    }
}

/// The sum of the numbers in the first `i` limits.
pub open spec fn amount_before(limits: Seq<Limit>, i: int) -> int
    decreases i,
{
    if i <= 0 {
        0
    } else {
        amount_before(limits, i - 1) + limits[i - 1].amount()
    }
}

/// All limits are percentages, and together they make up the whole.
pub open spec fn is_shared_out(limits: Seq<Limit>) -> bool {
    &&& forall|i: int| 0 <= i < limits.len() ==> (#[trigger] limits[i]) is Percentage
    &&& amount_before(limits, limits.len() as int) == 100
}

/// `percent` hundredths of `size`, rounded to a whole number, halves upwards.
pub open spec fn percent_of(percent: int, size: int) -> int {
    (percent * size + 50) / 100
}

/// The limit `m` is a least size, and all others are exact sizes.
pub open spec fn is_stack(limits: Seq<Limit>, m: int) -> bool {
    &&& 0 <= m < limits.len()
    &&& limits[m] is Min
    &&& forall|i: int| 0 <= i < limits.len() && i != m ==> (#[trigger] limits[i]) is Length
}

/// The smaller of two numbers.
pub open spec fn least(a: int, b: int) -> int {
    if a <= b {
        a
    } else {
        b
    }
}

/// Where part `i` starts in a stack over `size` cells, in which the part `m`
/// takes what the others leave.
pub open spec fn stack_start(limits: Seq<Limit>, m: int, size: int, i: int) -> int {
    if i <= m {
        amount_before(limits, i)
    } else {
        size - amount_before(limits, limits.len() as int) + amount_before(limits, i)
    }
}

/// How the content is cut: title, clock, gauge, an empty row, label, an empty row
/// and footer.
pub open spec fn content_stack() -> Seq<Limit> {
    seq![
        Limit::Length(3),
        Limit::Min(CLOCK_HEIGHT),
        Limit::Length(1),
        Limit::Length(1),
        Limit::Length(1),
        Limit::Length(1),
        Limit::Length(2),
    ]
}

/// Where part `i` of the content starts if it has `size` rows, too few for all of
/// it. The clock gets its rows first, as far as there are any. The title is next,
/// up to its three rows. The five parts below the clock share evenly what is
/// left, each edge rounded to a whole row.
pub open spec fn squeezed_start(size: int, i: int) -> int {
    let title = if size <= CLOCK_HEIGHT {
        0
    } else {
        least(3, size - CLOCK_HEIGHT)
    };
    let below = title + least(CLOCK_HEIGHT as int, size);
    if i <= 0 {
        0
    } else if i == 1 {
        title
    } else if i == 2 {
        below
    } else if i == 3 {
        below + percent_of(20, size - below)
    } else if i == 4 {
        below + percent_of(40, size - below)
    } else if i == 5 {
        below + percent_of(60, size - below)
    } else if i == 6 {
        below + percent_of(80, size - below)
    } else {
        size
    }
}

/// The range of `length` cells at `at` goes from offset `from` up to offset `to`
/// of the cells that start at `start`.
pub open spec fn covers(start: u16, at: u16, length: u16, from: int, to: int) -> bool {
    at == start + from && at + length == start + to
}

/// Cuts an area into rows, top to bottom: `ratatui::layout::Layout::vertical`,
/// then `split` on the area.
///
/// There is one row for each limit. A row keeps the area's left edge and width,
/// and lies between the area's top and bottom. The first row starts at the top,
/// and each further row starts where the one before it ends. The split meets as
/// many limits as it can, least sizes before exact ones, and rounds each edge to
/// a whole cell. So percentages that make up the whole are all met; exact sizes
/// beside one least size are all met where there is room, while the least size
/// takes the rest; and where there is too little room, the least size is met as
/// far as the area goes, no exact size is exceeded, and no row is left over
/// below. Which exact sizes give way then is stated for the stack of the content
/// alone. There the solver's weakest weight decides, which keeps neighbouring rows
/// as alike as can be: first the footer loses its second row, then the five rows
/// below the clock shrink alike, and the title, beside the tall clock, shrinks
/// last.
#[verifier::external_body]
fn split_rows(area: Area, limits: &Vec<Limit>) -> (rows: Vec<Area>)
    requires
        0 < limits@.len() <= 16,
    ensures
        rows@.len() == limits@.len(),
        forall|i: int|
            0 <= i < rows@.len() ==> {
                &&& (#[trigger] rows@[i]).x == area.x
                &&& rows@[i].width == area.width
                &&& area.y <= rows@[i].y
                &&& rows@[i].y + rows@[i].height <= range_end(area.y, area.height)
            },
        rows@[0].y == area.y,
        forall|i: int, j: int|
            #![trigger rows@[i], rows@[j]]
            0 <= i < rows@.len() && j == i + 1 && j < rows@.len() ==> rows@[i].y + rows@[i].height
                == rows@[j].y,
        is_shared_out(limits@) ==> forall|i: int|
            0 <= i < rows@.len() ==> covers(
                area.y,
                (#[trigger] rows@[i]).y,
                rows@[i].height,
                percent_of(amount_before(limits@, i), extent(area.y, area.height)),
                percent_of(amount_before(limits@, i + 1), extent(area.y, area.height)),
            ),
        forall|m: int, i: int|
            #![trigger limits@[m], rows@[i]]
            is_stack(limits@, m) && amount_before(limits@, limits@.len() as int) <= extent(
                area.y,
                area.height,
            ) && 0 <= i < rows@.len() ==> covers(
                area.y,
                rows@[i].y,
                rows@[i].height,
                stack_start(limits@, m, extent(area.y, area.height), i),
                stack_start(limits@, m, extent(area.y, area.height), i + 1),
            ),
        forall|m: int|
            is_stack(limits@, m) && (#[trigger] limits@[m]).amount() <= i16::MAX && extent(
                area.y,
                area.height,
            ) < amount_before(limits@, limits@.len() as int) ==> {
                &&& rows@[m].height == least(limits@[m].amount(), extent(area.y, area.height))
                &&& rows@[limits@.len() - 1].y + rows@[limits@.len() - 1].height == range_end(
                    area.y,
                    area.height,
                )
                &&& forall|i: int|
                    0 <= i < rows@.len() && i != m ==> (#[trigger] rows@[i]).height
                        <= limits@[i].amount()
            },
        limits@ == content_stack() && extent(area.y, area.height) < FULL_HEIGHT ==> forall|i: int|
            0 <= i < rows@.len() ==> covers(
                area.y,
                (#[trigger] rows@[i]).y,
                rows@[i].height,
                squeezed_start(extent(area.y, area.height), i),
                squeezed_start(extent(area.y, area.height), i + 1),
            ),
{
    let limits = limits.iter().map(|limit| match *limit {
        Limit::Percentage(n) => Constraint::Percentage(n),
        Limit::Length(n) => Constraint::Length(n),
        Limit::Min(n) => Constraint::Min(n),
    });
    let rect = Rect { x: area.x, y: area.y, width: area.width, height: area.height };
    let parts = Layout::vertical(limits).split(rect);
    parts.iter().map(|r| Area { x: r.x, y: r.y, width: r.width, height: r.height }).collect()
}

/// Cuts an area into columns, left to right:
/// `ratatui::layout::Layout::horizontal`, then `split` on the area.
///
/// There is one column for each limit. A column keeps the area's top edge and
/// height, and lies between the area's left and right edge. Percentages that
/// make up the whole are all met, each edge rounded to a whole cell. What other
/// limits come to is not stated.
#[verifier::external_body]
fn split_columns(area: Area, limits: &Vec<Limit>) -> (columns: Vec<Area>)
    requires
        0 < limits@.len() <= 16,
    ensures
        columns@.len() == limits@.len(),
        forall|i: int|
            0 <= i < columns@.len() ==> {
                &&& (#[trigger] columns@[i]).y == area.y
                &&& columns@[i].height == area.height
                &&& area.x <= columns@[i].x
                &&& columns@[i].x + columns@[i].width <= range_end(area.x, area.width)
            },
        is_shared_out(limits@) ==> forall|i: int|
            0 <= i < columns@.len() ==> covers(
                area.x,
                (#[trigger] columns@[i]).x,
                columns@[i].width,
                percent_of(amount_before(limits@, i), extent(area.x, area.width)),
                percent_of(amount_before(limits@, i + 1), extent(area.x, area.width)),
            ),
{
    let limits = limits.iter().map(|limit| match *limit {
        Limit::Percentage(n) => Constraint::Percentage(n),
        Limit::Length(n) => Constraint::Length(n),
        Limit::Min(n) => Constraint::Min(n),
    });
    let rect = Rect { x: area.x, y: area.y, width: area.width, height: area.height };
    let parts = Layout::horizontal(limits).split(rect);
    parts.iter().map(|r| Area { x: r.x, y: r.y, width: r.width, height: r.height }).collect()
}

/// The cells from eight to ninety-two hundredths of the height and from a tenth
/// to nine tenths of the width, edges rounded to whole cells.
pub open spec fn content_area(area: Area) -> Area {
    let height = extent(area.y, area.height);
    let width = extent(area.x, area.width);
    Area {
        x: (area.x + percent_of(10, width)) as u16,
        y: (area.y + percent_of(8, height)) as u16,
        width: (percent_of(90, width) - percent_of(10, width)) as u16,
        height: (percent_of(92, height) - percent_of(8, height)) as u16,
    }
}

/// The rows `from` up to `to` of an area.
pub open spec fn rows_of(area: Area, from: int, to: int) -> Area {
    Area { x: area.x, y: (area.y + from) as u16, width: area.width, height: (to - from) as u16 }
}

/// Each part of the display takes whole rows of the content area.
pub open spec fn stays_in(screen: Screen, content: Area) -> bool {
    &&& takes_rows(screen.title, content)
    &&& takes_rows(screen.clock, content)
    &&& takes_rows(screen.gauge, content)
    &&& takes_rows(screen.label, content)
    &&& takes_rows(screen.footer, content)
}

/// The part takes whole rows of the area.
pub open spec fn takes_rows(part: Area, area: Area) -> bool {
    &&& part.x == area.x
    &&& part.width == area.width
    &&& area.y <= part.y
    &&& part.y + part.height <= area.y + area.height
}

/// The display where there is room for all of it: three rows of title, the
/// clock, one row of gauge, an empty one, one row of label, an empty one, two
/// rows of footer.
pub open spec fn full_screen(content: Area) -> Screen {
    let height = content.height as int;
    Screen {
        title: rows_of(content, 0, 3),
        clock: rows_of(content, 3, height - 6),
        gauge: rows_of(content, height - 6, height - 5),
        label: rows_of(content, height - 4, height - 3),
        footer: rows_of(content, height - 2, height),
    }
}

/// Rows of content that the whole display needs.
pub const FULL_HEIGHT: u16 = 19;

/// Rows that the clock gets before any other part, if there are as many.
pub const CLOCK_HEIGHT: u16 = 10;

/// The display where there is too little room for all of it.
pub open spec fn squeezed_screen(content: Area) -> Screen {
    let height = content.height as int;
    Screen {
        title: rows_of(content, 0, squeezed_start(height, 1)),
        clock: rows_of(content, squeezed_start(height, 1), squeezed_start(height, 2)),
        gauge: rows_of(content, squeezed_start(height, 2), squeezed_start(height, 3)),
        label: rows_of(content, squeezed_start(height, 4), squeezed_start(height, 5)),
        footer: rows_of(content, squeezed_start(height, 6), height),
    }
}

/// Where the parts of the display go in the content.
pub open spec fn arranged(content: Area) -> Screen {
    if content.height >= FULL_HEIGHT {
        full_screen(content)
    } else {
        squeezed_screen(content)
    }
}

/// How the frame is cut into a band above the content, the band of the content
/// and a band below it.
pub fn band_limits() -> (limits: Vec<Limit>)
    ensures
        limits@ == seq![Limit::Percentage(8), Limit::Percentage(84), Limit::Percentage(8)],
{
    vec![Limit::Percentage(8), Limit::Percentage(84), Limit::Percentage(8)]
}

/// How the band of the content is cut into a left margin, the content and a
/// right margin.
pub fn side_limits() -> (limits: Vec<Limit>)
    ensures
        limits@ == seq![Limit::Percentage(10), Limit::Percentage(80), Limit::Percentage(10)],
{
    vec![Limit::Percentage(10), Limit::Percentage(80), Limit::Percentage(10)]
}

/// How the content is cut into its seven rows.
pub fn content_limits() -> (limits: Vec<Limit>)
    ensures
        limits@ == content_stack(),
{
    vec![
        Limit::Length(3),
        Limit::Min(CLOCK_HEIGHT),
        Limit::Length(1),
        Limit::Length(1),
        Limit::Length(1),
        Limit::Length(1),
        Limit::Length(2),
    ]
}

/// Picks the parts of the display from the seven rows of the content; the two
/// rows not picked stay empty.
pub fn place(rows: &Vec<Area>) -> (screen: Screen)
    requires
        rows@.len() == 7,
    ensures
        screen == (Screen {
            title: rows@[0],
            clock: rows@[1],
            gauge: rows@[2],
            label: rows@[4],
            footer: rows@[6],
        }),
{
    Screen { title: rows[0], clock: rows[1], gauge: rows[2], label: rows[4], footer: rows[6] }
}

/// Finds the content in the middle of an area.
pub fn find_content(area: Area) -> (content: Area)
    ensures
        content == content_area(area),
{
    let bands: Vec<Limit> = band_limits();
    let sides: Vec<Limit> = side_limits();
    proof {
        reveal_with_fuel(amount_before, 4);
    }
    let vertical: Vec<Area> = split_rows(area, &bands);
    let middle: Area = vertical[1];
    let horizontal: Vec<Area> = split_columns(middle, &sides);
    horizontal[1]
}

/// Finds the place of each part of the display in the content.
pub fn arrange_content(content: Area) -> (screen: Screen)
    requires
        content.y + content.height <= u16::MAX,
    ensures
        screen == arranged(content),
{
    let stack: Vec<Limit> = content_limits();
    proof {
        reveal_with_fuel(amount_before, 8);
    }
    let rows: Vec<Area> = split_rows(content, &stack);
    proof {
        if content.height >= FULL_HEIGHT {
            assert(is_stack(stack@, 1));
        } else {
            lemma_squeezed(content.height as int);
        }
    }
    place(&rows)
}

/// Where there is too little room, the parts of the content follow each other,
/// have no more rows than they are meant to have, and fill the room.
proof fn lemma_squeezed(size: int)
    requires
        0 <= size < FULL_HEIGHT,
    ensures
        squeezed_start(size, 0) == 0,
        0 <= squeezed_start(size, 1) <= 3,
        squeezed_start(size, 2) == squeezed_start(size, 1) + least(CLOCK_HEIGHT as int, size),
        squeezed_start(size, 2) <= squeezed_start(size, 3) <= squeezed_start(size, 2) + 1,
        squeezed_start(size, 3) <= squeezed_start(size, 4) <= squeezed_start(size, 3) + 1,
        squeezed_start(size, 4) <= squeezed_start(size, 5) <= squeezed_start(size, 4) + 1,
        squeezed_start(size, 5) <= squeezed_start(size, 6) <= squeezed_start(size, 5) + 1,
        squeezed_start(size, 6) <= squeezed_start(size, 7) <= squeezed_start(size, 6) + 1,
        squeezed_start(size, 7) == size,
{
}

/// Finds the place of each part of the display in an area.
pub fn arrange(area: Area) -> (screen: Screen)
    ensures
        screen == arranged(content_area(area)),
{
    let content: Area = find_content(area);
    arrange_content(content)
}

/// Every cell of the area `inner` is a cell of the area `outer`.
pub open spec fn lies_in(inner: Area, outer: Area) -> bool {
    &&& outer.x <= inner.x
    &&& outer.y <= inner.y
    &&& inner.x + inner.width <= range_end(outer.x, outer.width)
    &&& inner.y + inner.height <= range_end(outer.y, outer.height)
}

/// Nothing is drawn outside the frame: the parts of the display lie in the area
/// that was given.
pub proof fn law_parts_in_frame(area: Area)
    ensures
        ({
            let screen = arranged(content_area(area));
            &&& stays_in(screen, content_area(area))
            &&& lies_in(content_area(area), area)
            &&& lies_in(screen.title, area)
            &&& lies_in(screen.clock, area)
            &&& lies_in(screen.gauge, area)
            &&& lies_in(screen.label, area)
            &&& lies_in(screen.footer, area)
        }),
{
    let content = content_area(area);
    if content.height < FULL_HEIGHT {
        lemma_squeezed(content.height as int);
    }
}

/// Whatever the room, the parts of the display follow each other downwards and do
/// not overlap, the title starts with the content and the footer ends with it,
/// and the clock has its ten rows before any other part has one.
pub proof fn law_parts_in_order(content: Area)
    requires
        content.y + content.height <= u16::MAX,
    ensures
        ({
            let screen = arranged(content);
            &&& screen.title.y == content.y
            &&& screen.title.y + screen.title.height == screen.clock.y
            &&& screen.clock.y + screen.clock.height == screen.gauge.y
            &&& screen.gauge.y + screen.gauge.height <= screen.label.y
            &&& screen.label.y + screen.label.height <= screen.footer.y
            &&& screen.footer.y + screen.footer.height == content.y + content.height
            &&& screen.clock.height >= least(CLOCK_HEIGHT as int, content.height as int)
            &&& screen.title.height <= 3
            &&& screen.gauge.height <= 1
            &&& screen.label.height <= 1
            &&& screen.footer.height <= 2
        }),
{
    if content.height < FULL_HEIGHT {
        lemma_squeezed(content.height as int);
    }
}

/// Where there is room for the whole display its parts stand one below the
/// other without overlapping, the clock has ten rows or more, the footer ends
/// with the content, and every part stays in the content.
pub proof fn law_parts_apart(content: Area)
    requires
        content.height >= FULL_HEIGHT,
        content.y + content.height <= u16::MAX,
    ensures
        ({
            let screen = full_screen(content);
            &&& stays_in(screen, content)
            &&& screen.title.y == content.y
            &&& screen.title.y + screen.title.height == screen.clock.y
            &&& screen.clock.y + screen.clock.height == screen.gauge.y
            &&& screen.clock.height >= 10
            &&& screen.gauge.y + screen.gauge.height < screen.label.y
            &&& screen.label.y + screen.label.height < screen.footer.y
            &&& screen.footer.y + screen.footer.height == content.y + content.height
        }),
{
}

/// The title line.
pub open spec fn title_line() -> Seq<RunView> {
    seq![
        inked("  ⏱  "@, Color::Cyan),
        bold("COUNTDOWN TIMER"@, Color::Blue),
        inked("  ⏱  "@, Color::Cyan),
    ]
}

/// The line below the gauge.
pub open spec fn label_line(time: Seq<char>) -> Seq<RunView> {
    seq![inked("remaining  "@, Color::Comment), bold(time, Color::Cyan)]
}

/// The last line once the timer has finished.
pub open spec fn banner_line() -> Seq<RunView> {
    seq![
        boxed(" ✓  TIMER COMPLETE — closing in 3 s "@, Color::Background, Color::Cyan, true),
    ]
}

/// The last line while the timer has not finished.
pub open spec fn hint_line() -> Seq<RunView> {
    seq![
        boxed(" q "@, Color::Background, Color::Comment, false),
        inked("  quit    "@, Color::Comment),
        boxed(" Esc "@, Color::Background, Color::Comment, false),
        inked("  quit"@, Color::Comment),
    ]
}

/// `t` tenths of a percent are as near to the fraction as tenths of a percent
/// get.
pub open spec fn is_nearest_tenth(progress: Ratio, t: nat) -> bool {
    &&& 2 * (1000 * progress.num - t * progress.den) <= progress.den
    &&& 2 * (t * progress.den - 1000 * progress.num) <= progress.den
}

/// The fraction lies halfway between `t` and `t + 1` tenths of a percent.
pub open spec fn is_half_tenth(progress: Ratio, t: nat) -> bool {
    2000 * progress.num == (2 * t + 1) * progress.den
}

/// `t` is the fraction in tenths of a percent, rounded to a whole number: the
/// nearest one, and of two equally near ones the larger if `half_up` says so.
pub open spec fn is_rounded_tenth(progress: Ratio, half_up: bool, t: nat) -> bool {
    &&& is_nearest_tenth(progress, t)
    &&& half_up ==> !is_half_tenth(progress, t)
    &&& !half_up && t > 0 ==> !is_half_tenth(progress, (t - 1) as nat)
}

/// `t` tenths of a percent, with one digit after the point.
pub open spec fn percent_text(t: nat) -> Seq<char> {
    decimal(t / 10) + seq!['.'] + decimal(t % 10) + seq!['%']
}

/// The text is the fraction as a percentage, rounded to one digit after the
/// point.
pub open spec fn tells_percent(text: Seq<char>, progress: Ratio, half_up: bool) -> bool {
    exists|t: nat| #[trigger] is_rounded_tenth(progress, half_up, t) && text == percent_text(t)
}

impl AppView {
    /// The gauge shows the timer at a reading for the bar and one for the
    /// colour.
    pub open spec fn gauged_by(
        self,
        gauge: Gauge,
        progress_at: u64,
        remaining_at: u64,
        half_up: bool,
    ) -> bool {
        &&& gauge.progress == self.progress(progress_at)
        &&& gauge.fill == self.accent(remaining_at)
        &&& gauge.track == Color::Highlight
        &&& gauge.label@ == bold(gauge.label.text@, Color::Foreground)
        &&& tells_percent(gauge.label.text@, self.progress(progress_at), half_up)
    }

    /// The last line: a banner once the timer has finished, before that a hint.
    pub open spec fn footer_line(self) -> Seq<RunView> {
        if self.done {
            banner_line()
        } else {
            hint_line()
        }
    }

    /// The picture shows the timer at readings of the clock.
    pub open spec fn shown_by(self, picture: Picture, at: FrameInput) -> bool {
        &&& picture.background == Color::Background
        &&& line_view(picture.title@) == title_line()
        &&& picture.title_border == Color::Highlight
        &&& picture.clock@ == face(
            self.progress(at.clock_progress),
            self.accent(at.clock_remaining),
            self.done,
        )
        &&& picture.clock_background == Color::DarkBackground
        &&& self.gauged_by(picture.gauge, at.gauge_progress, at.gauge_remaining, at.half_up)
        &&& line_view(picture.label@) == label_line(self.remaining(at.label).parts().text())
        &&& line_view(picture.footer@) == self.footer_line()
    }
}

/// Writes a fraction as a percentage, rounded to one digit after the point.
/// Halves are rounded up or down as `half_up` says.
pub fn percent_label(progress: Ratio, half_up: bool) -> (text: String)
    requires
        progress.in_unit(),
    ensures
        tells_percent(text@, progress, half_up),
{
    // The first number of tenths that the fraction is less than half a tenth
    // above, or half a tenth where halves are rounded down.
    let mut t: u64 = 0;
    while t < 1000 && passes_half(progress, half_up, t)
        invariant
            progress.in_unit(),
            t <= 1000,
            t > 0 ==> is_past_half(progress, half_up, t - 1),
        ensures
            t <= 1000,
            t > 0 ==> is_past_half(progress, half_up, t - 1),
            t < 1000 ==> !is_past_half(progress, half_up, t as int),
        decreases 1000 - t,
    {
        t = t + 1;
    }
    proof {
        reveal_strlit(".");
        reveal_strlit("%");
        let d: int = progress.den as int;
        let k: int = t as int;
        assert((2 * k - 1) * d == 2 * (k * d) - d) by (nonlinear_arith);
        assert((2 * (k - 1) + 1) * d == 2 * (k * d) - d) by (nonlinear_arith);
        assert((2 * k + 1) * d == 2 * (k * d) + d) by (nonlinear_arith);
        assert(k == 0 ==> k * d == 0) by (nonlinear_arith);
        assert(k == 1000 ==> k * d == 1000 * d) by (nonlinear_arith);
        assert(is_rounded_tenth(progress, half_up, t as nat));
    }
    let mut text: String = String::new();
    push_decimal(&mut text, t / 10);
    text.append(".");
    push_decimal(&mut text, t % 10);
    text.append("%");
    assert(text@ =~= percent_text(t as nat));
    text
}

/// The fraction is to be rounded to more than `t` tenths of a percent.
spec fn is_past_half(progress: Ratio, half_up: bool, t: int) -> bool {
    if half_up {
        (2 * t + 1) * progress.den <= 2000 * progress.num
    } else {
        (2 * t + 1) * progress.den < 2000 * progress.num
    }
}

/// Tells whether the fraction is to be rounded to more than `t` tenths of a
/// percent.
fn passes_half(progress: Ratio, half_up: bool, t: u64) -> (yes: bool)
    requires
        progress.in_unit(),
        t < 1000,
    ensures
        yes == is_past_half(progress, half_up, t as int),
{
    if half_up {
        progress.is_at_least(2 * t as u128 + 1, 2000)
    } else {
        // More than a part of the whole is over exactly if less than the rest of
        // it is left.
        let left: Ratio = Ratio { num: progress.den - progress.num, den: progress.den };
        proof {
            let d: int = progress.den as int;
            let n: int = progress.num as int;
            let k: int = 2 * t as int + 1;
            assert((2000 - k) * d == 2000 * d - k * d) by (nonlinear_arith);
            assert(2000 * (d - n) == 2000 * d - 2000 * n);
        }
        !left.is_at_least(2000 - (2 * t as u128 + 1), 2000)
    }
}

/// The text of a percentage is settled: no two numbers of tenths are what a
/// fraction rounds to.
pub proof fn law_percent_is_settled(progress: Ratio, half_up: bool, s: nat, t: nat)
    requires
        progress.in_unit(),
        is_rounded_tenth(progress, half_up, s),
        is_rounded_tenth(progress, half_up, t),
    ensures
        s == t,
{
    let d: int = progress.den as int;
    let a: int = s as int;
    let b: int = t as int;
    assert(a * d - b * d == (a - b) * d) by (nonlinear_arith);
    assert((2 * a + 1) * d == 2 * (a * d) + d) by (nonlinear_arith);
    assert((2 * b + 1) * d == 2 * (b * d) + d) by (nonlinear_arith);
    if a < b {
        assert((b - a) * d >= d && (b - a >= 2 ==> (b - a) * d >= 2 * d)) by (nonlinear_arith)
            requires
                a < b,
                d > 0,
        ;
        assert((a - b) * d == -((b - a) * d)) by (nonlinear_arith);
    } else if b < a {
        assert((a - b) * d >= d && (a - b >= 2 ==> (a - b) * d >= 2 * d)) by (nonlinear_arith)
            requires
                b < a,
                d > 0,
        ;
    }
}

impl App {
    /// The title line.
    pub fn render_title(&self) -> (line: Vec<TextRun>)
        ensures
            line_view(line@) == title_line(),
    {
        let line: Vec<TextRun> = vec![
            TextRun::new("  ⏱  ", Color::Cyan, None, false),
            TextRun::new("COUNTDOWN TIMER", Color::Blue, None, true),
            TextRun::new("  ⏱  ", Color::Cyan, None, false),
        ];
        line
    }

    /// What is drawn on the clock face, at a reading for the arc and the hand and
    /// one for the colour.
    pub fn render_clock(&self, progress_at: u64, remaining_at: u64) -> (shapes: Vec<Shape>)
        requires
            self@.measurable(),
        ensures
            shapes@ == face(self@.progress(progress_at), self@.accent(remaining_at), self@.done),
    {
        clock_face(self.progress(progress_at), self.accent(remaining_at), self.is_done())
    }

    /// The gauge, at a reading for the bar and one for the colour. Halves of the
    /// last digit of the percentage are rounded as `half_up` says.
    pub fn render_gauge(&self, progress_at: u64, remaining_at: u64, half_up: bool) -> (gauge: Gauge)
        requires
            self@.measurable(),
        ensures
            self@.gauged_by(gauge, progress_at, remaining_at, half_up),
            gauge.progress.in_unit(),
    {
        let progress: Ratio = self.progress(progress_at);
        let text: String = percent_label(progress, half_up);
        Gauge {
            progress,
            fill: self.accent(remaining_at),
            track: Color::Highlight,
            label: TextRun::new(text.as_str(), Color::Foreground, None, true),
        }
    }

    /// The line that tells the remaining time.
    pub fn render_time_label(&self, now: u64) -> (line: Vec<TextRun>)
        ensures
            line_view(line@) == label_line(self@.remaining(now).parts().text()),
    {
        let time: String = self.remaining(now).hms().format();
        let line: Vec<TextRun> = vec![
            TextRun::new("remaining  ", Color::Comment, None, false),
            TextRun::new(time.as_str(), Color::Cyan, None, true),
        ];
        line
    }

    /// The last line once the timer has finished.
    pub fn render_done_banner(&self) -> (line: Vec<TextRun>)
        ensures
            line_view(line@) == banner_line(),
    {
        let line: Vec<TextRun> = vec![
            TextRun::new(
                " ✓  TIMER COMPLETE — closing in 3 s ",
                Color::Background,
                Some(Color::Cyan),
                true,
            ),
        ];
        line
    }

    /// The last line while the timer has not finished.
    pub fn render_hint(&self) -> (line: Vec<TextRun>)
        ensures
            line_view(line@) == hint_line(),
    {
        let line: Vec<TextRun> = vec![
            TextRun::new(" q ", Color::Background, Some(Color::Comment), false),
            TextRun::new("  quit    ", Color::Comment, None, false),
            TextRun::new(" Esc ", Color::Background, Some(Color::Comment), false),
            TextRun::new("  quit", Color::Comment, None, false),
        ];
        line
    }

    /// What is drawn where, with the parts of the display in given places.
    pub fn compose(&self, screen: Screen, at: FrameInput) -> (picture: Picture)
        requires
            self@.measurable(),
        ensures
            picture.screen == screen,
            self@.shown_by(picture, at),
    {
        Picture {
            background: Color::Background,
            screen,
            title: self.render_title(),
            title_border: Color::Highlight,
            clock: self.render_clock(at.clock_progress, at.clock_remaining),
            clock_background: Color::DarkBackground,
            gauge: self.render_gauge(at.gauge_progress, at.gauge_remaining, at.half_up),
            label: self.render_time_label(at.label),
            footer: if self.is_done() {
                self.render_done_banner()
            } else {
                self.render_hint()
            },
        }
    }

    /// What is drawn where in an area.
    pub fn render(&self, area: Area, at: FrameInput) -> (picture: Picture)
        requires
            self@.measurable(),
        ensures
            picture.screen == arranged(content_area(area)),
            self@.shown_by(picture, at),
    {
        self.compose(arrange(area), at)
    }
}

/// The content that `find_content` finds in an area starts a tenth of the width
/// from the left and ends nine tenths from it, starts eight hundredths of the
/// height from the top and ends ninety-two from it, each edge at the nearest
/// cell. Cells past the largest coordinate do not count.
pub proof fn law_content_margins(area: Area, content: Area)
    requires
        call_ensures(find_content, (area,), content),
    ensures
        ({
            let width = if area.x + area.width > 65_535 {
                65_535 - area.x
            } else {
                area.width as int
            };
            let height = if area.y + area.height > 65_535 {
                65_535 - area.y
            } else {
                area.height as int
            };
            let left = content.x - area.x;
            let top = content.y - area.y;
            &&& -50 < 100 * left - 10 * width <= 50
            &&& -50 < 100 * (left + content.width) - 90 * width <= 50
            &&& -50 < 100 * top - 8 * height <= 50
            &&& -50 < 100 * (top + content.height) - 92 * height <= 50
        }),
{
}

/// The parts that `arrange_content` places take the whole width of the content
/// and follow each other from its first row to its last. With nineteen rows or
/// more the title has three, the gauge and the label one each, with one row
/// between them and one below, the footer two, and the clock the rest. With fewer
/// the clock has ten as long as there are ten, the title up to three of what is
/// left, and the rest is cut into five equal rows: the gauge, a gap, the label, a
/// gap and the footer, each edge at the nearest row.
pub proof fn law_parts_placed(content: Area, screen: Screen)
    requires
        content.y + content.height <= 65_535,
        call_ensures(arrange_content, (content,), screen),
    ensures
        screen.title.x == content.x && screen.title.width == content.width,
        screen.clock.x == content.x && screen.clock.width == content.width,
        screen.gauge.x == content.x && screen.gauge.width == content.width,
        screen.label.x == content.x && screen.label.width == content.width,
        screen.footer.x == content.x && screen.footer.width == content.width,
        screen.title.y == content.y,
        screen.clock.y == screen.title.y + screen.title.height,
        screen.gauge.y == screen.clock.y + screen.clock.height,
        screen.footer.y + screen.footer.height == content.y + content.height,
        content.height >= 19 ==> {
            &&& screen.title.height == 3
            &&& screen.gauge.height == 1
            &&& screen.label.y == screen.gauge.y + 2
            &&& screen.label.height == 1
            &&& screen.footer.y == screen.label.y + 2
            &&& screen.footer.height == 2
        },
        content.height < 19 ==> {
            let below = screen.gauge.y;
            let rest = content.y + content.height - below;
            &&& content.height <= 10 ==> screen.clock.height == content.height
            &&& content.height >= 10 ==> screen.clock.height == 10
            &&& content.height >= 13 ==> screen.title.height == 3
            &&& 10 <= content.height <= 13 ==> screen.title.height == content.height - 10
            &&& -5 < 10 * (screen.gauge.y + screen.gauge.height - below) - 2 * rest <= 5
            &&& -5 < 10 * (screen.label.y - below) - 4 * rest <= 5
            &&& -5 < 10 * (screen.label.y + screen.label.height - below) - 6 * rest <= 5
            &&& -5 < 10 * (screen.footer.y - below) - 8 * rest <= 5
        },
{
    if content.height < FULL_HEIGHT {
        lemma_squeezed(content.height as int);
    }
}

/// The parts that `arrange` places lie in the middle of the area: each starts a
/// tenth of the width from the left and ends nine tenths from it, the title starts
/// eight hundredths of the height from the top and the footer ends ninety-two
/// from it, each edge at the nearest cell, where cells past the largest coordinate
/// do not count. They follow each other downwards. Where the rows suffice, all
/// parts but the clock have their full height; where not, the clock has up to ten
/// rows before the title has one, and the title up to three before the others
/// have one.
pub proof fn law_display_placed(area: Area, screen: Screen)
    requires
        call_ensures(arrange, (area,), screen),
    ensures
        ({
            let width = if area.x + area.width > 65_535 {
                65_535 - area.x
            } else {
                area.width as int
            };
            let height = if area.y + area.height > 65_535 {
                65_535 - area.y
            } else {
                area.height as int
            };
            let left = screen.title.x - area.x;
            let top = screen.title.y - area.y;
            let bottom = screen.footer.y + screen.footer.height - area.y;
            let rows = bottom - top;
            &&& -50 < 100 * left - 10 * width <= 50
            &&& -50 < 100 * (left + screen.title.width) - 90 * width <= 50
            &&& -50 < 100 * top - 8 * height <= 50
            &&& -50 < 100 * bottom - 92 * height <= 50
            &&& screen.clock.x == screen.title.x && screen.clock.width == screen.title.width
            &&& screen.gauge.x == screen.title.x && screen.gauge.width == screen.title.width
            &&& screen.label.x == screen.title.x && screen.label.width == screen.title.width
            &&& screen.footer.x == screen.title.x && screen.footer.width == screen.title.width
            &&& screen.clock.y == screen.title.y + screen.title.height
            &&& screen.gauge.y == screen.clock.y + screen.clock.height
            &&& rows >= 19 ==> {
                &&& screen.title.height == 3
                &&& screen.gauge.height == 1
                &&& screen.label.y == screen.gauge.y + 2
                &&& screen.label.height == 1
                &&& screen.footer.y == screen.label.y + 2
                &&& screen.footer.height == 2
            }
            &&& rows < 19 ==> {
                let below = screen.gauge.y;
                let rest = area.y + bottom - below;
                &&& rows <= 10 ==> screen.clock.height == rows
                &&& rows >= 10 ==> screen.clock.height == 10
                &&& rows >= 13 ==> screen.title.height == 3
                &&& 10 <= rows <= 13 ==> screen.title.height == rows - 10
                &&& -5 < 10 * (screen.gauge.y + screen.gauge.height - below) - 2 * rest <= 5
                &&& -5 < 10 * (screen.label.y - below) - 4 * rest <= 5
                &&& -5 < 10 * (screen.label.y + screen.label.height - below) - 6 * rest <= 5
                &&& -5 < 10 * (screen.footer.y - below) - 8 * rest <= 5
            }
        }),
{
    let content = content_area(area);
    if content.height < FULL_HEIGHT {
        lemma_squeezed(content.height as int);
    }
}

proof fn lemma_percent(text: Seq<char>, progress: Ratio, half_up: bool)
    requires
        progress.in_unit(),
        tells_percent(text, progress, half_up),
    ensures
        text.len() >= 4,
        ({
            let n = text.len() as int;
            let whole = text.take(n - 3);
            let t = 10 * numeral_value(whole) + (text[n - 2] as int - '0' as int);
            let above = 2 * (1000 * progress.num - t * progress.den);
            &&& writes(whole, numeral_value(whole))
            &&& whole.len() > 1 ==> whole[0] != '0'
            &&& text[n - 3] == '.'
            &&& '0' <= text[n - 2] <= '9'
            &&& text[n - 1] == '%'
            &&& -progress.den <= above <= progress.den
            &&& above == progress.den ==> !half_up
            &&& above == -progress.den ==> half_up
        }),
        progress.num == progress.den ==> text == seq!['1', '0', '0', '.', '0', '%'],
        progress.num == 0 ==> text == seq!['0', '.', '0', '%'],
{
    let t = choose|t: nat| #[trigger]
        is_rounded_tenth(progress, half_up, t) && text == percent_text(t);
    let n = text.len() as int;
    let d: int = progress.den as int;
    lemma_decimal_writes(t / 10);
    lemma_decimal_writes(t % 10);
    assert(text.take(n - 3) =~= decimal(t / 10));
    assert(text[n - 2] == decimal(t % 10)[0]);
    assert(t % 10 == text[n - 2] as int - '0' as int);
    assert((2 * t + 1) * d == 2 * (t * d) + d) by (nonlinear_arith);
    assert((2 * (t - 1) + 1) * d == 2 * (t * d) - d) by (nonlinear_arith);
    assert(t == 0 ==> t * d == 0) by (nonlinear_arith);
    if progress.num == progress.den {
        assert(1000nat * d == 1000 * d) by (nonlinear_arith);
        assert((2 * 1000nat + 1) * d == 2001 * d) by (nonlinear_arith);
        assert((2 * 999nat + 1) * d == 1999 * d) by (nonlinear_arith);
        assert(is_rounded_tenth(progress, half_up, 1000));
        law_percent_is_settled(progress, half_up, 1000, t);
        reveal_with_fuel(decimal, 4);
        assert(text =~= seq!['1', '0', '0', '.', '0', '%']);
    }
    if progress.num == 0 {
        assert((2 * 0nat + 1) * d == d) by (nonlinear_arith);
        assert(is_rounded_tenth(progress, half_up, 0));
        law_percent_is_settled(progress, half_up, 0, t);
        reveal_with_fuel(decimal, 2);
        assert(text =~= seq!['0', '.', '0', '%']);
    }
}

/// What `percent_label` writes is a numeral, a point, one digit and a percent
/// sign. The tenths of a percent that it tells are the nearest to the fraction;
/// exactly between two it is the larger if halves go up and else the smaller.
pub proof fn law_percent_label(progress: Ratio, half_up: bool, text: String)
    requires
        progress.den > 0,
        progress.num <= progress.den,
        call_ensures(percent_label, (progress, half_up), text),
    ensures
        text@.len() >= 4,
        ({
            let n = text@.len() as int;
            let whole = text@.take(n - 3);
            let t = 10 * numeral_value(whole) + (text@[n - 2] as int - '0' as int);
            let above = 2 * (1000 * progress.num - t * progress.den);
            &&& writes(whole, numeral_value(whole))
            &&& whole.len() > 1 ==> whole[0] != '0'
            &&& text@[n - 3] == '.'
            &&& '0' <= text@[n - 2] <= '9'
            &&& text@[n - 1] == '%'
            &&& -progress.den <= above <= progress.den
            &&& above == progress.den ==> !half_up
            &&& above == -progress.den ==> half_up
        }),
        progress.num == progress.den ==> text@ == seq!['1', '0', '0', '.', '0', '%'],
        progress.num == 0 ==> text@ == seq!['0', '.', '0', '%'],
{
    lemma_percent(text@, progress, half_up);
}

/// The bar of the gauge that `render_gauge` gives is filled to the share of the
/// duration that is over, whether or not the timer has finished: its fraction
/// times the duration is the reading, and from the end of the duration on it is
/// full and its text is `100.0%`. For an endless timer it is empty.
pub proof fn law_gauge_bar(
    app: App,
    progress_at: u64,
    remaining_at: u64,
    half_up: bool,
    gauge: Gauge,
)
    requires
        app@.total != Span::Finite(0),
        call_ensures(App::render_gauge, (&app, progress_at, remaining_at, half_up), gauge),
    ensures
        gauge.progress.den > 0,
        gauge.progress.num <= gauge.progress.den,
        app@.total matches Span::Finite(t) ==> {
            &&& progress_at <= t ==> gauge.progress.num * t == progress_at * gauge.progress.den
            &&& t <= progress_at ==> gauge.progress.num == gauge.progress.den
            &&& t <= progress_at ==> gauge.label.text@ == seq!['1', '0', '0', '.', '0', '%']
        },
        app@.total is Endless ==> gauge.progress.num == 0 && gauge.label.text@ == seq![
            '0',
            '.',
            '0',
            '%',
        ],
{
    lemma_percent(gauge.label.text@, gauge.progress, half_up);
    if let Span::Finite(t) = app@.total {
        if progress_at <= t {
            assert(gauge.progress.num == progress_at && gauge.progress.den == t);
        }
    }
}

/// The text of the gauge that `render_gauge` gives tells the share of the
/// duration that is over, in tenths of a percent: the nearest, and exactly
/// between two the larger if halves go up and else the smaller. It is bold, in
/// the colour of plain text.
pub proof fn law_gauge_text(
    app: App,
    progress_at: u64,
    remaining_at: u64,
    half_up: bool,
    gauge: Gauge,
    t: i128,
)
    requires
        app@.total == Span::Finite(t),
        t > 0,
        progress_at <= t,
        call_ensures(App::render_gauge, (&app, progress_at, remaining_at, half_up), gauge),
    ensures
        gauge.label.text@.len() >= 4,
        ({
            let text = gauge.label.text@;
            let n = text.len() as int;
            let whole = text.take(n - 3);
            let tenths = 10 * numeral_value(whole) + (text[n - 2] as int - '0' as int);
            let above = 2 * (1000 * progress_at - tenths * t);
            &&& writes(whole, numeral_value(whole))
            &&& whole.len() > 1 ==> whole[0] != '0'
            &&& text[n - 3] == '.'
            &&& '0' <= text[n - 2] <= '9'
            &&& text[n - 1] == '%'
            &&& -t <= above <= t
            &&& above == t ==> !half_up
            &&& above == -t ==> half_up
        }),
        gauge.label.style.fg == Some(Color::Foreground),
        gauge.label.style.bg is None,
        gauge.label.style.bold,
{
    lemma_percent(gauge.label.text@, gauge.progress, half_up);
}

/// The gauge that `render_gauge` gives is coloured by how much of the duration
/// remains: cyan if the timer has finished, else green for more than half, red
/// for a fifth or less and yellow in between, and red for an endless timer. What
/// is not filled has the highlight's colour.
pub proof fn law_gauge_color(
    app: App,
    progress_at: u64,
    remaining_at: u64,
    half_up: bool,
    gauge: Gauge,
)
    requires
        app@.total != Span::Finite(0),
        call_ensures(App::render_gauge, (&app, progress_at, remaining_at, half_up), gauge),
    ensures
        gauge.track == Color::Highlight,
        app@.done ==> gauge.fill == Color::Cyan,
        !app@.done ==> {
            &&& app@.total matches Span::Finite(t) ==> {
                let left = if remaining_at < t {
                    t - remaining_at
                } else {
                    0
                };
                &&& gauge.fill == Color::Green <==> 2 * left > t
                &&& gauge.fill == Color::Red <==> 5 * left <= t
                &&& gauge.fill == Color::Green || gauge.fill == Color::Yellow || gauge.fill
                    == Color::Red
            }
            &&& app@.total is Endless ==> gauge.fill == Color::Red
        },
{
}

/// The clock that `render_clock` draws shows the share of the duration that is
/// over: the one line from the centre stands at that fraction of a turn, and of
/// the 360 dots those are there that the share has reached. Both have the colour
/// of the share that remains, and the check mark is there exactly if the timer
/// has finished.
pub proof fn law_clock_shows_timer(
    app: App,
    progress_at: u64,
    remaining_at: u64,
    shapes: Vec<Shape>,
)
    requires
        app@.total != Span::Finite(0),
        call_ensures(App::render_clock, (&app, progress_at, remaining_at), shapes),
    ensures
        ({
            let (over, whole) = match app@.total {
                Span::Finite(t) => if t < 0 {
                    (1int, 1int)
                } else if progress_at < t {
                    (progress_at as int, t as int)
                } else {
                    (t as int, t as int)
                },
                Span::Endless => (0int, 1int),
            };
            let accent = if app@.done {
                Color::Cyan
            } else {
                match app@.total {
                    Span::Finite(t) => {
                        let left = if remaining_at < t {
                            t - remaining_at
                        } else {
                            0
                        };
                        if 2 * left > t {
                            Color::Green
                        } else if 5 * left > t {
                            Color::Yellow
                        } else {
                            Color::Red
                        }
                    },
                    Span::Endless => Color::Red,
                }
            };
            &&& exists|k: int|
                {
                    &&& 0 <= k < shapes@.len()
                    &&& (#[trigger] shapes@[k]) matches Shape::Ray { turn, from, to, color } && from
                        == 0 && color == accent && turn.den > 0 && turn.num * whole == over * turn.den
                    &&& forall|j: int|
                        0 <= j < shapes@.len() && (#[trigger] shapes@[j]) is Ray && shapes@[j]->from
                            == 0 ==> j == k
                }
            &&& forall|j: int|
                0 <= j < shapes@.len() ==> ((#[trigger] shapes@[j]) matches Shape::Dot {
                    turn,
                    radius,
                    glyph,
                    color,
                } ==> turn.num == j - 2 && turn.den == 360 && color == accent)
            &&& forall|j: int|
                2 <= j < 362 && (j - 2) * whole <= 360 * over <==> 2 <= j < shapes@.len() && (
                #[trigger] shapes@[j]) is Dot
            &&& app@.done <==> exists|j: int|
                0 <= j < shapes@.len() && (#[trigger] shapes@[j]) is Mark
        }),
{
    lemma_clock_shows(app@, progress_at, remaining_at, shapes@);
}

proof fn lemma_clock_shows(
    app: AppView,
    progress_at: u64,
    remaining_at: u64,
    shapes: Seq<Shape>,
)
    requires
        app.total != Span::Finite(0),
        shapes == face(app.progress(progress_at), app.accent(remaining_at), app.done),
    ensures
        ({
            let (over, whole) = match app.total {
                Span::Finite(t) => if t < 0 {
                    (1int, 1int)
                } else if progress_at < t {
                    (progress_at as int, t as int)
                } else {
                    (t as int, t as int)
                },
                Span::Endless => (0int, 1int),
            };
            let accent = if app.done {
                Color::Cyan
            } else {
                match app.total {
                    Span::Finite(t) => {
                        let left = if remaining_at < t {
                            t - remaining_at
                        } else {
                            0
                        };
                        if 2 * left > t {
                            Color::Green
                        } else if 5 * left > t {
                            Color::Yellow
                        } else {
                            Color::Red
                        }
                    },
                    Span::Endless => Color::Red,
                }
            };
            &&& exists|k: int|
                {
                    &&& 0 <= k < shapes.len()
                    &&& (#[trigger] shapes[k]) matches Shape::Ray { turn, from, to, color } && from
                        == 0 && color == accent && turn.den > 0 && turn.num * whole == over * turn.den
                    &&& forall|j: int|
                        0 <= j < shapes.len() && (#[trigger] shapes[j]) is Ray && shapes[j]->from
                            == 0 ==> j == k
                }
            &&& forall|j: int|
                0 <= j < shapes.len() ==> ((#[trigger] shapes[j]) matches Shape::Dot {
                    turn,
                    radius,
                    glyph,
                    color,
                } ==> turn.num == j - 2 && turn.den == 360 && color == accent)
            &&& forall|j: int|
                2 <= j < 362 && (j - 2) * whole <= 360 * over <==> 2 <= j < shapes.len() && (
                #[trigger] shapes[j]) is Dot
            &&& app.done <==> exists|j: int|
                0 <= j < shapes.len() && (#[trigger] shapes[j]) is Mark
        }),
{
    let progress = app.progress(progress_at);
    let accent = app.accent(remaining_at);
    let k = lit_count(progress);
    lemma_face(progress, accent, app.done);
    assert(shapes[15 + k] is Ray);
    if app.done {
        assert(shapes[16 + k] is Mark);
    }
    let over = progress.num as int;
    let whole = progress.den as int;
    assert forall|j: int| 2 <= j < 362 && (j - 2) * whole <= 360 * over <==> 2 <= j < shapes.len() && (
    #[trigger] shapes[j]) is Dot by {
        if 2 <= j < 362 {
            lemma_lit_below_count(progress, j - 2);
        }
    }
}

proof fn lemma_time_text(hms: Hms, time: Seq<char>)
    requires
        hms.minutes < 60,
        hms.seconds < 60,
        time == hms.text(),
    ensures
        hms.hours == 0 ==> {
            &&& time.len() == 5
            &&& writes(time.subrange(0, 2), hms.minutes as nat)
            &&& time[2] == ':'
            &&& writes(time.subrange(3, 5), hms.seconds as nat)
            &&& time[0] as int - '0' as int == hms.minutes / 10
            &&& time[1] as int - '0' as int == hms.minutes % 10
            &&& time[3] as int - '0' as int == hms.seconds / 10
            &&& time[4] as int - '0' as int == hms.seconds % 10
        },
        hms.hours > 0 ==> {
            let k = time.len() - 6;
            &&& k >= 2
            &&& writes(time.take(k), hms.hours as nat)
            &&& k > 2 ==> time[0] != '0'
            &&& time[k] == ':'
            &&& writes(time.subrange(k + 1, k + 3), hms.minutes as nat)
            &&& time[k + 3] == ':'
            &&& writes(time.subrange(k + 4, k + 6), hms.seconds as nat)
            &&& time[k + 1] as int - '0' as int == hms.minutes / 10
            &&& time[k + 2] as int - '0' as int == hms.minutes % 10
            &&& time[k + 4] as int - '0' as int == hms.seconds / 10
            &&& time[k + 5] as int - '0' as int == hms.seconds % 10
        },
{
    lemma_two_digits_writes(hms.hours as nat);
    lemma_two_digits_writes(hms.minutes as nat);
    lemma_two_digits_writes(hms.seconds as nat);
    let h = two_digits(hms.hours as nat);
    let m = two_digits(hms.minutes as nat);
    let s = two_digits(hms.seconds as nat);
    if hms.hours == 0 {
        assert(time.subrange(0, 2) =~= m);
        assert(time.subrange(3, 5) =~= s);
        assert(time[0] == m[0] && time[1] == m[1] && time[3] == s[0] && time[4] == s[1]);
    } else {
        let k = time.len() - 6;
        assert(time.take(k) =~= h);
        assert(time.subrange(k + 1, k + 3) =~= m);
        assert(time.subrange(k + 4, k + 6) =~= s);
        assert(time[0] == h[0]);
        assert(time[k + 1] == m[0] && time[k + 2] == m[1]);
        assert(time[k + 4] == s[0] && time[k + 5] == s[1]);
    }
}

proof fn lemma_clock_digits(secs: int, hours: int, min: int, sec: int)
    requires
        secs == 3600 * hours + 60 * min + sec,
        0 <= hours,
        0 <= min < 60,
        0 <= sec < 60,
    ensures
        min / 10 == secs % 3600 / 600,
        min % 10 == secs / 60 % 10,
        sec / 10 == secs % 60 / 10,
        sec % 10 == secs % 10,
        hours == 0 <==> secs < 3600,
        hours == 0 ==> min / 10 == secs / 600,
{
    let a = min / 10;
    let b = min % 10;
    let c = sec / 10;
    let d = sec % 10;
    assert(min == 10 * a + b && 0 <= a < 6 && 0 <= b < 10);
    assert(sec == 10 * c + d && 0 <= c < 6 && 0 <= d < 10);
    assert(secs / 3600 == hours && secs % 3600 == 600 * a + 60 * b + 10 * c + d);
    assert((600 * a + 60 * b + 10 * c + d) / 600 == a);
    assert(secs / 60 == 60 * hours + 10 * a + b && secs % 60 == 10 * c + d);
    assert((60 * hours + 10 * a + b) % 10 == b);
    assert((10 * c + d) / 10 == c);
    assert(secs % 10 == d);
}

/// The line that `render_time_label` gives tells how many whole seconds remain.
/// Below an hour that is two digits of minutes, a colon and two digits of
/// seconds. From an hour on, hours of two digits or more and a colon stand before
/// them. Minutes and seconds stay below sixty. The time is bold and cyan, behind
/// a label in the colour of comments.
pub proof fn law_time_label(app: App, now: u64, line: Vec<TextRun>, t: i128, secs: int)
    requires
        app@.total == Span::Finite(t),
        secs == (if now < t {
            (t - now) / 1_000_000_000
        } else {
            0
        }),
        secs / 3600 <= u64::MAX,
        call_ensures(App::render_time_label, (&app, now), line),
    ensures
        line@.len() == 2,
        line@[0].text@ == "remaining  "@,
        line@[0].style == (Style { fg: Some(Color::Comment), bg: None, bold: false }),
        line@[1].style == (Style { fg: Some(Color::Cyan), bg: None, bold: true }),
        ({
            let time = line@[1].text@;
            let k = time.len() - 6;
            &&& secs < 3600 ==> {
                let min = numeral_value(time.subrange(0, 2));
                let sec = numeral_value(time.subrange(3, 5));
                &&& time.len() == 5
                &&& writes(time.subrange(0, 2), min)
                &&& time[2] == ':'
                &&& writes(time.subrange(3, 5), sec)
                &&& sec < 60
                &&& 60 * min + sec == secs
                &&& time[0] as int - '0' as int == secs / 600
                &&& time[1] as int - '0' as int == secs / 60 % 10
                &&& time[3] as int - '0' as int == secs % 60 / 10
                &&& time[4] as int - '0' as int == secs % 10
            }
            &&& secs >= 3600 ==> {
                let h = numeral_value(time.take(k));
                let min = numeral_value(time.subrange(k + 1, k + 3));
                let sec = numeral_value(time.subrange(k + 4, k + 6));
                &&& k >= 2
                &&& writes(time.take(k), h)
                &&& k > 2 ==> time[0] != '0'
                &&& time[k] == ':'
                &&& writes(time.subrange(k + 1, k + 3), min)
                &&& time[k + 3] == ':'
                &&& writes(time.subrange(k + 4, k + 6), sec)
                &&& min < 60
                &&& sec < 60
                &&& 3600 * h + 60 * min + sec == secs
                &&& time[k + 1] as int - '0' as int == secs % 3600 / 600
                &&& time[k + 2] as int - '0' as int == secs / 60 % 10
                &&& time[k + 4] as int - '0' as int == secs % 60 / 10
                &&& time[k + 5] as int - '0' as int == secs % 10
            }
        }),
{
    let left = app@.remaining(now);
    law_parts_add_up(left->Finite_0);
    lemma_label_line(line@, left.parts().text());
    lemma_time_text(left.parts(), line@[1].text@);
    let hms = left.parts();
    lemma_clock_digits(secs, hms.hours as int, hms.minutes as int, hms.seconds as int);
}

proof fn lemma_label_line(line: Seq<TextRun>, time: Seq<char>)
    requires
        line_view(line) == label_line(time),
    ensures
        line.len() == 2,
        line[0].text@ == "remaining  "@,
        line[0].style == (Style { fg: Some(Color::Comment), bg: None, bold: false }),
        line[1].text@ == time,
        line[1].style == (Style { fg: Some(Color::Cyan), bg: None, bold: true }),
{
    assert(line_view(line).len() == 2);
    assert(line_view(line)[0] == line[0]@);
    assert(line_view(line)[1] == line[1]@);
}

/// For an endless timer `render_time_label` writes as many hours as there can be,
/// and no minutes and seconds.
pub proof fn law_endless_time_label(app: App, now: u64, line: Vec<TextRun>)
    requires
        app@.total is Endless,
        call_ensures(App::render_time_label, (&app, now), line),
    ensures
        line@.len() == 2,
        line@[0].text@ == "remaining  "@,
        ({
            let time = line@[1].text@;
            let k = time.len() - 6;
            &&& k >= 2
            &&& writes(time.take(k), 18_446_744_073_709_551_615)
            &&& time[0] != '0'
            &&& time.skip(k) == seq![':', '0', '0', ':', '0', '0']
        }),
{
    let hms = app@.remaining(now).parts();
    let time = line@[1].text@;
    let k = time.len() - 6;
    lemma_label_line(line@, hms.text());
    lemma_two_digits_writes(hms.hours as nat);
    assert(time.take(k) =~= two_digits(hms.hours as nat));
    assert(time[0] == two_digits(hms.hours as nat)[0]);
    assert(time.skip(k) =~= seq![':', '0', '0', ':', '0', '0']);
}

proof fn lemma_title_line(line: Seq<TextRun>)
    requires
        line_view(line) == title_line(),
    ensures
        line.len() == 3,
        line[0].text@ == "  ⏱  "@ && line[1].text@ == "COUNTDOWN TIMER"@ && line[2].text@
            == "  ⏱  "@,
        line[0].style == (Style { fg: Some(Color::Cyan), bg: None, bold: false }),
        line[1].style == (Style { fg: Some(Color::Blue), bg: None, bold: true }),
        line[2].style == line[0].style,
{
    assert(line_view(line).len() == 3);
    assert(line_view(line)[0] == line[0]@);
    assert(line_view(line)[1] == line[1]@);
    assert(line_view(line)[2] == line[2]@);
}

proof fn lemma_footer_line(app: AppView, line: Seq<TextRun>)
    requires
        line_view(line) == app.footer_line(),
    ensures
        app.done ==> {
            &&& line.len() == 1
            &&& line[0].text@ == " ✓  TIMER COMPLETE — closing in 3 s "@
            &&& line[0].style == (Style {
                fg: Some(Color::Background),
                bg: Some(Color::Cyan),
                bold: true,
            })
        },
        !app.done ==> {
            &&& line.len() == 4
            &&& line[0].text@ == " q "@ && line[1].text@ == "  quit    "@
            &&& line[2].text@ == " Esc "@ && line[3].text@ == "  quit"@
            &&& line[0].style == (Style {
                fg: Some(Color::Background),
                bg: Some(Color::Comment),
                bold: false,
            })
            &&& line[1].style == (Style { fg: Some(Color::Comment), bg: None, bold: false })
            &&& line[2].style == line[0].style && line[3].style == line[1].style
        },
{
    assert(line_view(line).len() == line.len());
    assert(line_view(line)[0] == line[0]@);
    if !app.done {
        assert(line_view(line)[1] == line[1]@);
        assert(line_view(line)[2] == line[2]@);
        assert(line_view(line)[3] == line[3]@);
    }
}

/// The title that `render_title` gives names the program, in bold blue between
/// two cyan clocks.
pub proof fn law_title(app: App, line: Vec<TextRun>)
    requires
        call_ensures(App::render_title, (&app,), line),
    ensures
        line@.len() == 3,
        line@[0].text@ == "  ⏱  "@ && line@[1].text@ == "COUNTDOWN TIMER"@ && line@[2].text@
            == "  ⏱  "@,
        line@[0].style == (Style { fg: Some(Color::Cyan), bg: None, bold: false }),
        line@[1].style == (Style { fg: Some(Color::Blue), bg: None, bold: true }),
        line@[2].style == line@[0].style,
{
    lemma_title_line(line@);
}

/// The banner that `render_done_banner` gives says in bold on cyan that the timer
/// is complete and closes in three seconds.
pub proof fn law_banner(app: App, line: Vec<TextRun>)
    requires
        call_ensures(App::render_done_banner, (&app,), line),
    ensures
        line@.len() == 1,
        line@[0].text@ == " ✓  TIMER COMPLETE — closing in 3 s "@,
        line@[0].style == (Style {
            fg: Some(Color::Background),
            bg: Some(Color::Cyan),
            bold: true,
        }),
{
    lemma_footer_line(AppView { done: true, ..app@ }, line@);
}

/// The hint that `render_hint` gives names the two keys that quit, each in a box.
pub proof fn law_hint(app: App, line: Vec<TextRun>)
    requires
        call_ensures(App::render_hint, (&app,), line),
    ensures
        line@.len() == 4,
        line@[0].text@ == " q "@ && line@[1].text@ == "  quit    "@,
        line@[2].text@ == " Esc "@ && line@[3].text@ == "  quit"@,
        line@[0].style == (Style {
            fg: Some(Color::Background),
            bg: Some(Color::Comment),
            bold: false,
        }),
        line@[1].style == (Style { fg: Some(Color::Comment), bg: None, bold: false }),
        line@[2].style == line@[0].style && line@[3].style == line@[1].style,
{
    lemma_footer_line(AppView { done: false, ..app@ }, line@);
}

/// The clock in the picture that `compose` or `render` gives shows the timer at
/// the two readings for the clock: its one line from the centre and its dots tell
/// the share of the duration that is over at the first, and have the colour of
/// the share that remains at the second. The check mark is there exactly if the
/// timer has finished.
pub proof fn law_picture_clock(
    app: App,
    screen: Screen,
    area: Area,
    at: FrameInput,
    picture: Picture,
)
    requires
        app@.total != Span::Finite(0),
        call_ensures(App::compose, (&app, screen, at), picture) || call_ensures(
            App::render,
            (&app, area, at),
            picture,
        ),
    ensures
        picture.clock_background == Color::DarkBackground,
        ({
            let shapes = picture.clock@;
            let (over, whole) = match app@.total {
                Span::Finite(t) => if t < 0 {
                    (1int, 1int)
                } else if at.clock_progress < t {
                    (at.clock_progress as int, t as int)
                } else {
                    (t as int, t as int)
                },
                Span::Endless => (0int, 1int),
            };
            let accent = if app@.done {
                Color::Cyan
            } else {
                match app@.total {
                    Span::Finite(t) => {
                        let left = if at.clock_remaining < t {
                            t - at.clock_remaining
                        } else {
                            0
                        };
                        if 2 * left > t {
                            Color::Green
                        } else if 5 * left > t {
                            Color::Yellow
                        } else {
                            Color::Red
                        }
                    },
                    Span::Endless => Color::Red,
                }
            };
            &&& exists|k: int|
                {
                    &&& 0 <= k < shapes.len()
                    &&& (#[trigger] shapes[k]) matches Shape::Ray { turn, from, to, color } && from
                        == 0 && color == accent && turn.den > 0 && turn.num * whole == over * turn.den
                    &&& forall|j: int|
                        0 <= j < shapes.len() && (#[trigger] shapes[j]) is Ray && shapes[j]->from
                            == 0 ==> j == k
                }
            &&& forall|j: int|
                0 <= j < shapes.len() ==> ((#[trigger] shapes[j]) matches Shape::Dot {
                    turn,
                    radius,
                    glyph,
                    color,
                } ==> turn.num == j - 2 && turn.den == 360 && color == accent)
            &&& forall|j: int|
                2 <= j < 362 && (j - 2) * whole <= 360 * over <==> 2 <= j < shapes.len() && (
                #[trigger] shapes[j]) is Dot
            &&& app@.done <==> exists|j: int|
                0 <= j < shapes.len() && (#[trigger] shapes[j]) is Mark
        }),
{
    lemma_clock_shows(app@, at.clock_progress, at.clock_remaining, picture.clock@);
}

/// The gauge in the picture that `compose` or `render` gives shows the timer at
/// the two readings for the gauge: it is filled to the share of the duration that
/// is over at the first, which its text tells in tenths of a percent, and has the
/// colour of the share that remains at the second.
pub proof fn law_picture_gauge(
    app: App,
    screen: Screen,
    area: Area,
    at: FrameInput,
    picture: Picture,
)
    requires
        app@.total != Span::Finite(0),
        call_ensures(App::compose, (&app, screen, at), picture) || call_ensures(
            App::render,
            (&app, area, at),
            picture,
        ),
    ensures
        picture.gauge.label.text@.len() >= 4,
        ({
            let gauge = picture.gauge;
            let text = gauge.label.text@;
            let n = text.len() as int;
            let whole = text.take(n - 3);
            let tenths = 10 * numeral_value(whole) + (text[n - 2] as int - '0' as int);
            let (over, whole_time) = match app@.total {
                Span::Finite(t) => if t < 0 {
                    (1int, 1int)
                } else if at.gauge_progress < t {
                    (at.gauge_progress as int, t as int)
                } else {
                    (t as int, t as int)
                },
                Span::Endless => (0int, 1int),
            };
            let accent = if app@.done {
                Color::Cyan
            } else {
                match app@.total {
                    Span::Finite(t) => {
                        let left = if at.gauge_remaining < t {
                            t - at.gauge_remaining
                        } else {
                            0
                        };
                        if 2 * left > t {
                            Color::Green
                        } else if 5 * left > t {
                            Color::Yellow
                        } else {
                            Color::Red
                        }
                    },
                    Span::Endless => Color::Red,
                }
            };
            let above = 2 * (1000 * over - tenths * whole_time);
            &&& gauge.progress.den > 0
            &&& gauge.progress.num * whole_time == over * gauge.progress.den
            &&& gauge.fill == accent
            &&& gauge.track == Color::Highlight
            &&& writes(whole, numeral_value(whole))
            &&& whole.len() > 1 ==> whole[0] != '0'
            &&& text[n - 3] == '.'
            &&& '0' <= text[n - 2] <= '9'
            &&& text[n - 1] == '%'
            &&& -whole_time <= above <= whole_time
            &&& above == whole_time ==> !at.half_up
            &&& above == -whole_time ==> at.half_up
            &&& gauge.label.style == (Style { fg: Some(Color::Foreground), bg: None, bold: true })
        }),
{
    lemma_percent(picture.gauge.label.text@, picture.gauge.progress, at.half_up);
}

/// The lines of the picture that `compose` or `render` gives: the title, the time
/// that remains at the reading for the label, and at the foot the banner if the
/// timer has finished and else the hint.
pub proof fn law_picture_lines(
    app: App,
    screen: Screen,
    area: Area,
    at: FrameInput,
    picture: Picture,
    t: i128,
    secs: int,
)
    requires
        app@.total == Span::Finite(t),
        t != 0,
        secs == (if at.label < t {
            (t - at.label) / 1_000_000_000
        } else {
            0
        }),
        secs / 3600 <= u64::MAX,
        call_ensures(App::compose, (&app, screen, at), picture) || call_ensures(
            App::render,
            (&app, area, at),
            picture,
        ),
    ensures
        picture.background == Color::Background,
        picture.title_border == Color::Highlight,
        picture.title@.len() == 3 && picture.title@[1].text@ == "COUNTDOWN TIMER"@,
        picture.title@[0].text@ == "  ⏱  "@ && picture.title@[2].text@ == "  ⏱  "@,
        picture.title@[0].style == (Style { fg: Some(Color::Cyan), bg: None, bold: false }),
        picture.title@[1].style == (Style { fg: Some(Color::Blue), bg: None, bold: true }),
        picture.title@[2].style == picture.title@[0].style,
        picture.label@.len() == 2 && picture.label@[0].text@ == "remaining  "@,
        picture.label@[0].style == (Style { fg: Some(Color::Comment), bg: None, bold: false }),
        picture.label@[1].style == (Style { fg: Some(Color::Cyan), bg: None, bold: true }),
        ({
            let time = picture.label@[1].text@;
            let k = time.len() - 6;
            &&& secs < 3600 ==> {
                let min = numeral_value(time.subrange(0, 2));
                let sec = numeral_value(time.subrange(3, 5));
                &&& time.len() == 5
                &&& writes(time.subrange(0, 2), min)
                &&& time[2] == ':'
                &&& writes(time.subrange(3, 5), sec)
                &&& sec < 60
                &&& 60 * min + sec == secs
                &&& time[0] as int - '0' as int == secs / 600
                &&& time[1] as int - '0' as int == secs / 60 % 10
                &&& time[3] as int - '0' as int == secs % 60 / 10
                &&& time[4] as int - '0' as int == secs % 10
            }
            &&& secs >= 3600 ==> {
                let h = numeral_value(time.take(k));
                let min = numeral_value(time.subrange(k + 1, k + 3));
                let sec = numeral_value(time.subrange(k + 4, k + 6));
                &&& k >= 2
                &&& writes(time.take(k), h)
                &&& k > 2 ==> time[0] != '0'
                &&& time[k] == ':'
                &&& writes(time.subrange(k + 1, k + 3), min)
                &&& time[k + 3] == ':'
                &&& writes(time.subrange(k + 4, k + 6), sec)
                &&& min < 60
                &&& sec < 60
                &&& 3600 * h + 60 * min + sec == secs
                &&& time[k + 1] as int - '0' as int == secs % 3600 / 600
                &&& time[k + 2] as int - '0' as int == secs / 60 % 10
                &&& time[k + 4] as int - '0' as int == secs % 60 / 10
                &&& time[k + 5] as int - '0' as int == secs % 10
            }
        }),
        app@.done ==> {
            &&& picture.footer@.len() == 1
            &&& picture.footer@[0].text@ == " ✓  TIMER COMPLETE — closing in 3 s "@
            &&& picture.footer@[0].style == (Style {
                fg: Some(Color::Background),
                bg: Some(Color::Cyan),
                bold: true,
            })
        },
        !app@.done ==> {
            &&& picture.footer@.len() == 4
            &&& picture.footer@[0].text@ == " q "@ && picture.footer@[1].text@ == "  quit    "@
            &&& picture.footer@[2].text@ == " Esc "@ && picture.footer@[3].text@ == "  quit"@
            &&& picture.footer@[0].style == (Style {
                fg: Some(Color::Background),
                bg: Some(Color::Comment),
                bold: false,
            })
            &&& picture.footer@[1].style == (Style {
                fg: Some(Color::Comment),
                bg: None,
                bold: false,
            })
            &&& picture.footer@[2].style == picture.footer@[0].style
            &&& picture.footer@[3].style == picture.footer@[1].style
        },
{
    let left = app@.remaining(at.label);
    law_parts_add_up(left->Finite_0);
    lemma_label_line(picture.label@, left.parts().text());
    lemma_time_text(left.parts(), picture.label@[1].text@);
    let hms = left.parts();
    lemma_clock_digits(secs, hms.hours as int, hms.minutes as int, hms.seconds as int);
    lemma_title_line(picture.title@);
    lemma_footer_line(app@, picture.footer@);
}

/// The picture that `compose` gives has its parts in the places that were asked
/// for. In the picture that `render` gives they are in the middle of the area and
/// follow each other downwards: each from one tenth to nine tenths of the width,
/// and together from eight to ninety-two hundredths of the height, edges at the
/// nearest cell. With nineteen rows or more all but the clock have their full
/// height.
pub proof fn law_picture_places(
    app: App,
    screen: Screen,
    area: Area,
    at: FrameInput,
    picture: Picture,
)
    requires
        app@.total != Span::Finite(0),
    ensures
        call_ensures(App::compose, (&app, screen, at), picture) ==> picture.screen == screen,
        call_ensures(App::render, (&app, area, at), picture) ==> {
            let width = if area.x + area.width > 65_535 {
                65_535 - area.x
            } else {
                area.width as int
            };
            let height = if area.y + area.height > 65_535 {
                65_535 - area.y
            } else {
                area.height as int
            };
            let s = picture.screen;
            let left = s.title.x - area.x;
            let top = s.title.y - area.y;
            let bottom = s.footer.y + s.footer.height - area.y;
            let rows = bottom - top;
            &&& -50 < 100 * left - 10 * width <= 50
            &&& -50 < 100 * (left + s.title.width) - 90 * width <= 50
            &&& -50 < 100 * top - 8 * height <= 50
            &&& -50 < 100 * bottom - 92 * height <= 50
            &&& s.clock.x == s.title.x && s.clock.width == s.title.width
            &&& s.gauge.x == s.title.x && s.gauge.width == s.title.width
            &&& s.label.x == s.title.x && s.label.width == s.title.width
            &&& s.footer.x == s.title.x && s.footer.width == s.title.width
            &&& s.clock.y == s.title.y + s.title.height
            &&& s.gauge.y == s.clock.y + s.clock.height
            &&& rows >= 19 ==> {
                &&& s.title.height == 3
                &&& s.gauge.height == 1
                &&& s.label.y == s.gauge.y + 2
                &&& s.label.height == 1
                &&& s.footer.y == s.label.y + 2
                &&& s.footer.height == 2
            }
            &&& rows < 19 ==> {
                let below = s.gauge.y;
                let rest = area.y + bottom - below;
                &&& rows <= 10 ==> s.clock.height == rows
                &&& rows >= 10 ==> s.clock.height == 10
                &&& rows >= 13 ==> s.title.height == 3
                &&& 10 <= rows <= 13 ==> s.title.height == rows - 10
                &&& -5 < 10 * (s.gauge.y + s.gauge.height - below) - 2 * rest <= 5
                &&& -5 < 10 * (s.label.y - below) - 4 * rest <= 5
                &&& -5 < 10 * (s.label.y + s.label.height - below) - 6 * rest <= 5
                &&& -5 < 10 * (s.footer.y - below) - 8 * rest <= 5
            }
        },
{
    let content = content_area(area);
    if content.height < FULL_HEIGHT {
        lemma_squeezed(content.height as int);
    }
}

/// The limits by which the frame is cut: the margins on both sides are alike, and
/// with what is between them they make up the whole. Of the content's seven rows
/// the second is the one that takes what the others leave.
pub proof fn law_limits(bands: Vec<Limit>, sides: Vec<Limit>, rows: Vec<Limit>)
    requires
        call_ensures(band_limits, (), bands),
        call_ensures(side_limits, (), sides),
        call_ensures(content_limits, (), rows),
    ensures
        bands@.len() == 3 && bands@[0] == Limit::Percentage(8) && bands@[2] == bands@[0],
        bands@[1] matches Limit::Percentage(n) && n == 100 - 8 - 8,
        sides@.len() == 3 && sides@[0] == Limit::Percentage(10) && sides@[2] == sides@[0],
        sides@[1] matches Limit::Percentage(n) && n == 100 - 10 - 10,
        rows@.len() == 7 && rows@[1] == Limit::Min(10),
        rows@[0] == Limit::Length(3) && rows@[6] == Limit::Length(2),
        forall|i: int| 2 <= i < 6 ==> #[trigger] rows@[i] == Limit::Length(1),
{
}

/// Of the seven rows of the content the first is the title's, the second the
/// clock's, the third the gauge's, the fifth the label's and the last the
/// footer's.
pub proof fn law_rows_picked(rows: Vec<Area>, screen: Screen)
    requires
        rows@.len() == 7,
        call_ensures(place, (&rows,), screen),
    ensures
        screen.title == rows@[0] && screen.clock == rows@[1] && screen.gauge == rows@[2],
        screen.label == rows@[4] && screen.footer == rows@[6],
{
}

/// In the picture of an endless timer the label has as many hours as there can
/// be, and no minutes and seconds.
pub proof fn law_endless_picture_label(
    app: App,
    screen: Screen,
    area: Area,
    at: FrameInput,
    picture: Picture,
)
    requires
        app@.total is Endless,
        call_ensures(App::compose, (&app, screen, at), picture) || call_ensures(
            App::render,
            (&app, area, at),
            picture,
        ),
    ensures
        picture.label@.len() == 2,
        ({
            let time = picture.label@[1].text@;
            let k = time.len() - 6;
            &&& k >= 2
            &&& writes(time.take(k), 18_446_744_073_709_551_615)
            &&& time.skip(k) == seq![':', '0', '0', ':', '0', '0']
        }),
{
    let hms = app@.remaining(at.label).parts();
    let time = picture.label@[1].text@;
    let k = time.len() - 6;
    lemma_label_line(picture.label@, hms.text());
    lemma_two_digits_writes(hms.hours as nat);
    assert(time.take(k) =~= two_digits(hms.hours as nat));
    assert(time.skip(k) =~= seq![':', '0', '0', ':', '0', '0']);
}

/// Whatever clock is drawn, by `render_clock` or in the picture that `compose` or
/// `render` gives: before the arc stand the outer ring and the track, after it the
/// inner face, a tick for each of the twelve hours, the hand, the check mark of a
/// finished timer, and the dot in the middle.
pub proof fn law_clock_is_complete(
    app: App,
    progress_at: u64,
    remaining_at: u64,
    drawn: Vec<Shape>,
    screen: Screen,
    area: Area,
    at: FrameInput,
    picture: Picture,
)
    requires
        app@.total != Span::Finite(0),
        ({
            ||| call_ensures(App::render_clock, (&app, progress_at, remaining_at), drawn)
            ||| call_ensures(App::compose, (&app, screen, at), picture) && picture.clock == drawn
            ||| call_ensures(App::render, (&app, area, at), picture) && picture.clock == drawn
        }),
    ensures
        ({
            let shapes = drawn@;
            let last = shapes.len() - 1;
            let hand = if app@.done {
                last - 2
            } else {
                last - 1
            };
            &&& 16 <= hand <= 375
            &&& shapes[0] == (Shape::Circle { radius: 90, color: Color::Highlight })
            &&& shapes[1] == (Shape::Circle { radius: 78, color: Color::Comment })
            &&& forall|j: int|
                2 <= j < hand - 13 ==> ((#[trigger] shapes[j]) matches Shape::Dot {
                    turn,
                    radius,
                    glyph,
                    color,
                } && radius == 78 && glyph == '•')
            &&& shapes[hand - 13] == (Shape::Circle { radius: 62, color: Color::Background })
            &&& forall|j: int|
                hand - 12 <= j < hand ==> ((#[trigger] shapes[j]) matches Shape::Ray {
                    turn,
                    from,
                    to,
                    color,
                } && turn.num == j - (hand - 12) && turn.den == 12 && from == 50 && to == 58
                    && color == Color::Comment)
            &&& shapes[hand] matches Shape::Ray { turn, from, to, color } && from == 0 && to == 55
            &&& app@.done ==> shapes[hand + 1] == (Shape::Mark {
                x: -10i32,
                y: 5,
                glyph: '✓',
                style: Style { fg: Some(Color::Cyan), bg: None, bold: true },
            })
            &&& shapes[last] == (Shape::Circle { radius: 4, color: Color::Foreground })
        }),
{
    if call_ensures(App::render_clock, (&app, progress_at, remaining_at), drawn) {
        lemma_face(app@.progress(progress_at), app@.accent(remaining_at), app@.done);
    } else {
        lemma_face(app@.progress(at.clock_progress), app@.accent(at.clock_remaining), app@.done);
    }
}

} // verus!
