//! The clock face: two rings, an arc of dots that grows with the progress,
//! twelve ticks and a hand.
//!
//! Lengths are in hundredths of the distance from the centre to the edge of the
//! drawing area. Angles are fractions of a full turn, clockwise from the top.

use vstd::prelude::*;

use crate::ratio::Ratio;
use crate::style::{Color, Style};

verus! {

/// Dots on a full arc.
pub const ARC_STEPS: u128 = 360;

/// Hour ticks on the face.
pub const TICKS: u128 = 12;

/// Radius of the track, on which the dots lie.
pub const TRACK_RADIUS: u32 = 78;

/// One thing drawn on the clock face.
#[derive(Clone, Copy, Debug, PartialEq, Eq, Structural)]
pub enum Shape {
    /// A circle round the centre.
    Circle { radius: u32, color: Color },
    /// A character at a distance from the centre.
    Dot { turn: Ratio, radius: u32, glyph: char, color: Color },
    /// A line that points away from the centre.
    Ray { turn: Ratio, from: u32, to: u32, color: Color },
    /// A character at a place given by its coordinates, `y` upwards.
    Mark { x: i32, y: i32, glyph: char, style: Style },
}

/// The dot `i` of the arc is part of the progress shown: `i` steps of the arc
/// are at most the progress.
pub open spec fn is_lit(progress: Ratio, i: int) -> bool {
    progress.reaches(i, ARC_STEPS as int)
}

/// The dot `i` of the arc.
pub open spec fn dot(i: int, accent: Color) -> Shape {
    Shape::Dot {
        turn: Ratio { num: i as u128, den: ARC_STEPS },
        radius: TRACK_RADIUS,
        glyph: '•',
        color: accent,
    }
}

/// The lit ones among the first `n` dots of the arc, in order.
pub open spec fn lit_dots(progress: Ratio, accent: Color, n: nat) -> Seq<Shape>
    decreases n,
{
    if n == 0 {
        Seq::empty()
    } else {
        let before = lit_dots(progress, accent, (n - 1) as nat);
        if is_lit(progress, n - 1) {
            before.push(dot(n - 1, accent))
        } else {
            before
        }
    }
}

/// The tick of hour `h`.
pub open spec fn tick(h: int) -> Shape {
    Shape::Ray {
        turn: Ratio { num: h as u128, den: TICKS },
        from: 50,
        to: 58,
        color: Color::Comment,
    }
}

/// The outer ring and the track, drawn first.
pub open spec fn rings() -> Seq<Shape> {
    seq![
        Shape::Circle { radius: 90, color: Color::Highlight },
        Shape::Circle { radius: TRACK_RADIUS, color: Color::Comment },
    ]
}

/// The inner face and its twelve ticks, drawn over the arc.
pub open spec fn dial() -> Seq<Shape> {
    seq![Shape::Circle { radius: 62, color: Color::Background }] + Seq::new(
        TICKS as nat,
        |h: int| tick(h),
    )
}

/// The dot in the middle, drawn last.
pub open spec fn centre() -> Shape {
    Shape::Circle { radius: 4, color: Color::Foreground }
}

/// The hand, and the check mark of a finished timer.
pub open spec fn pointer(progress: Ratio, accent: Color, done: bool) -> Seq<Shape> {
    let hand = seq![Shape::Ray { turn: progress, from: 0, to: 55, color: accent }];
    let check = Shape::Mark {
        x: -10i32,
        y: 5,
        glyph: '✓',
        style: Style { fg: Some(Color::Cyan), bg: None, bold: true },
    };
    if done {
        hand.push(check)
    } else {
        hand
    }
}

/// Everything on the clock face, in the order in which it is drawn.
pub open spec fn face(progress: Ratio, accent: Color, done: bool) -> Seq<Shape> {
    rings() + lit_dots(progress, accent, ARC_STEPS as nat) + dial() + pointer(
        progress,
        accent,
        done,
    ) + seq![centre()]
}

/// Lists what is drawn on the clock face, first to last.
pub fn clock_face(progress: Ratio, accent: Color, done: bool) -> (shapes: Vec<Shape>)
    requires
        progress.in_unit(),
    ensures
        shapes@ == face(progress, accent, done),
{
    let mut shapes: Vec<Shape> = Vec::new();
    shapes.push(Shape::Circle { radius: 90, color: Color::Highlight });
    shapes.push(Shape::Circle { radius: TRACK_RADIUS, color: Color::Comment });

    let ghost first = shapes@;
    let mut i: u128 = 0;
    while i < ARC_STEPS
        invariant
            progress.in_unit(),
            i <= ARC_STEPS,
            shapes@ == first + lit_dots(progress, accent, i as nat),
        decreases ARC_STEPS - i,
    {
        if progress.is_at_least(i, ARC_STEPS) {
            shapes.push(
                Shape::Dot {
                    turn: Ratio { num: i, den: ARC_STEPS },
                    radius: TRACK_RADIUS,
                    glyph: '•',
                    color: accent,
                },
            );
        }
        i = i + 1;
    }

    shapes.push(Shape::Circle { radius: 62, color: Color::Background });

    let ghost before = shapes@;
    let mut h: u128 = 0;
    while h < TICKS
        invariant
            h <= TICKS,
            shapes@ == before + Seq::new(h as nat, |k: int| tick(k)),
        decreases TICKS - h,
    {
        shapes.push(
            Shape::Ray {
                turn: Ratio { num: h, den: TICKS },
                from: 50,
                to: 58,
                color: Color::Comment,
            },
        );
        h = h + 1;
    }

    shapes.push(Shape::Ray { turn: progress, from: 0, to: 55, color: accent });
    if done {
        shapes.push(
            Shape::Mark {
                x: -10,
                y: 5,
                glyph: '✓',
                style: Style { fg: Some(Color::Cyan), bg: None, bold: true },
            },
        );
    }
    shapes.push(Shape::Circle { radius: 4, color: Color::Foreground });
    shapes
}

/// The number of dots shown for a progress.
pub open spec fn lit_count(progress: Ratio) -> int {
    let steps = ARC_STEPS * progress.num / progress.den as int + 1;
    if steps < ARC_STEPS {
        steps
    } else {
        ARC_STEPS as int
    }
}

pub(crate) proof fn lemma_lit_below_count(progress: Ratio, i: int)
    requires
        progress.in_unit(),
        0 <= i < ARC_STEPS,
    ensures
        is_lit(progress, i) <==> i < lit_count(progress),
{
    let n: int = ARC_STEPS * progress.num;
    let d: int = progress.den as int;
    assert(i * d <= n <==> i <= n / d) by (nonlinear_arith)
        requires
            d > 0,
    ;
}

proof fn lemma_lit_dots_prefix(progress: Ratio, accent: Color, n: nat)
    requires
        progress.in_unit(),
        n <= ARC_STEPS,
    ensures
        lit_dots(progress, accent, n).len() == (if n <= lit_count(progress) {
            n as int
        } else {
            lit_count(progress)
        }),
        forall|i: int|
            0 <= i < lit_dots(progress, accent, n).len() ==> lit_dots(progress, accent, n)[i]
                == dot(i, accent),
    decreases n,
{
    if n > 0 {
        lemma_lit_dots_prefix(progress, accent, (n - 1) as nat);
        lemma_lit_below_count(progress, n - 1);
    } else {
        assert(ARC_STEPS * progress.num / progress.den as int >= 0) by (nonlinear_arith)
            requires
                progress.den > 0,
        ;
    }
}

/// The arc has no gaps: it is the first dots of the circle, one for the top and
/// one for each whole step of the progress, and no more than the full circle.
pub proof fn law_arc_is_unbroken(progress: Ratio, accent: Color)
    requires
        progress.in_unit(),
    ensures
        lit_dots(progress, accent, ARC_STEPS as nat) == Seq::new(
            lit_count(progress) as nat,
            |i: int| dot(i, accent),
        ),
        1 <= lit_count(progress) <= ARC_STEPS,
{
    lemma_lit_dots_prefix(progress, accent, ARC_STEPS as nat);
    lemma_lit_below_count(progress, 0);
}

/// The arc never shrinks while the progress grows.
pub proof fn law_arc_grows(earlier: Ratio, later: Ratio)
    requires
        earlier.in_unit(),
        later.in_unit(),
        earlier.at_most(later),
    ensures
        lit_count(earlier) <= lit_count(later),
        forall|i: int| 0 <= i && is_lit(earlier, i) ==> is_lit(later, i),
{
    assert forall|i: int| 0 <= i && is_lit(earlier, i) implies is_lit(later, i) by {
        let a: int = earlier.num as int;
        let b: int = earlier.den as int;
        let c: int = later.num as int;
        let d: int = later.den as int;
        assert(i * d <= 360 * c) by (nonlinear_arith)
            requires
                i * b <= 360 * a,
                a * d <= c * b,
                b > 0,
                d > 0,
                0 <= i,
        {
            assert((i * d) * b <= (360 * c) * b);
        }
    }
    law_arc_is_unbroken(earlier, Color::Red);
    lemma_lit_below_count(earlier, lit_count(earlier) - 1);
    lemma_lit_below_count(later, lit_count(earlier) - 1);
}

/// The static part of the face is the same whatever the timer's state: the two
/// rings come first, the inner face and the twelve ticks follow the arc, the
/// middle dot comes last, and beside them there are only the arc, the hand and
/// the check mark.
pub proof fn law_static_face(progress: Ratio, accent: Color, done: bool)
    requires
        progress.in_unit(),
    ensures
        ({
            let shapes = face(progress, accent, done);
            let k = lit_count(progress);
            &&& shapes.take(2) == rings()
            &&& shapes.subrange(2, 2 + k) == Seq::new(k as nat, |i: int| dot(i, accent))
            &&& shapes.subrange(2 + k, 15 + k) == dial()
            &&& shapes.subrange(15 + k, shapes.len() - 1) == pointer(progress, accent, done)
            &&& shapes.last() == centre()
        }),
{
    law_arc_is_unbroken(progress, accent);
    let shapes = face(progress, accent, done);
    let k = lit_count(progress);
    assert(shapes.take(2) =~= rings());
    assert(shapes.subrange(2, 2 + k) =~= lit_dots(progress, accent, ARC_STEPS as nat));
    assert(shapes.subrange(2 + k, 15 + k) =~= dial());
    assert(shapes.subrange(15 + k, shapes.len() - 1) =~= pointer(progress, accent, done));
}

/// Among the shapes that `clock_face` lists there is one line from the centre,
/// the hand. It has the accent's colour, is shorter than the face, and stands at
/// the fraction of a turn that the progress is of the whole.
pub proof fn law_hand_shows_progress(
    progress: Ratio,
    accent: Color,
    done: bool,
    shapes: Vec<Shape>,
)
    requires
        progress.den > 0,
        progress.num <= progress.den,
        call_ensures(clock_face, (progress, accent, done), shapes),
    ensures
        exists|k: int|
            {
                &&& 0 <= k < shapes@.len()
                &&& (#[trigger] shapes@[k]) matches Shape::Ray { turn, from, to, color } && {
                    &&& from == 0
                    &&& to == 55
                    &&& color == accent
                    &&& turn.den > 0
                    &&& turn.num * progress.den == progress.num * turn.den
                }
                &&& forall|j: int|
                    0 <= j < shapes@.len() && (#[trigger] shapes@[j]) is Ray && shapes@[j]->from
                        == 0 ==> j == k
            },
{
    lemma_face(progress, accent, done);
    let k = 15 + lit_count(progress);
    assert(shapes@[k] is Ray);
}

/// The dots that `clock_face` lists are the arc: on the track, in the accent's
/// colour, one for each of the 360 steps of a turn that the progress has reached
/// and for no other, in order from the top, right after the two rings.
pub proof fn law_arc_shows_progress(
    progress: Ratio,
    accent: Color,
    done: bool,
    shapes: Vec<Shape>,
)
    requires
        progress.den > 0,
        progress.num <= progress.den,
        call_ensures(clock_face, (progress, accent, done), shapes),
    ensures
        forall|j: int|
            0 <= j < shapes@.len() ==> ((#[trigger] shapes@[j]) matches Shape::Dot {
                turn,
                radius,
                glyph,
                color,
            } ==> {
                &&& turn.num == j - 2
                &&& turn.den == 360
                &&& turn.num < 360
                &&& turn.num * progress.den <= 360 * progress.num
                &&& radius == 78
                &&& glyph == '•'
                &&& color == accent
            }),
        forall|j: int|
            2 <= j < 362 && (j - 2) * progress.den <= 360 * progress.num ==> j < shapes@.len() && (
            #[trigger] shapes@[j]) is Dot,
{
    lemma_face(progress, accent, done);
    assert forall|j: int| 0 <= j < shapes@.len() && (#[trigger] shapes@[j]) is Dot implies (j - 2)
        * progress.den <= 360 * progress.num by {
        lemma_lit_below_count(progress, j - 2);
    }
    assert forall|j: int| 2 <= j < 362 && (j - 2) * progress.den <= 360 * progress.num implies j
        < shapes@.len() && (#[trigger] shapes@[j]) is Dot by {
        lemma_lit_below_count(progress, j - 2);
    }
}

/// Beside the arc and the hand, `clock_face` lists: before the arc the outer ring
/// and the track, after it the inner face and a tick for each of the twelve
/// hours, after the hand a check mark if and only if the timer is done, and last
/// the dot in the middle.
pub proof fn law_face_is_complete(
    progress: Ratio,
    accent: Color,
    done: bool,
    shapes: Vec<Shape>,
)
    requires
        progress.den > 0,
        progress.num <= progress.den,
        call_ensures(clock_face, (progress, accent, done), shapes),
    ensures
        ({
            let last = shapes@.len() - 1;
            let hand = if done {
                last - 2
            } else {
                last - 1
            };
            &&& 16 <= hand <= 375
            &&& shapes@[0] == (Shape::Circle { radius: 90, color: Color::Highlight })
            &&& shapes@[1] == (Shape::Circle { radius: 78, color: Color::Comment })
            &&& forall|j: int| 2 <= j < hand - 13 ==> (#[trigger] shapes@[j]) is Dot
            &&& shapes@[hand - 13] == (Shape::Circle { radius: 62, color: Color::Background })
            &&& forall|j: int|
                hand - 12 <= j < hand ==> ((#[trigger] shapes@[j]) matches Shape::Ray {
                    turn,
                    from,
                    to,
                    color,
                } && turn.num == j - (hand - 12) && turn.den == 12 && from == 50 && to == 58
                    && color == Color::Comment)
            &&& shapes@[hand] is Ray && shapes@[hand]->from == 0
            &&& done ==> shapes@[hand + 1] == (Shape::Mark {
                x: -10i32,
                y: 5,
                glyph: '✓',
                style: Style { fg: Some(Color::Cyan), bg: None, bold: true },
            })
            &&& shapes@[last] == (Shape::Circle { radius: 4, color: Color::Foreground })
        }),
{
    lemma_face(progress, accent, done);
}

/// Where each shape of the face stands in the list.
pub(crate) proof fn lemma_face(progress: Ratio, accent: Color, done: bool)
    requires
        progress.in_unit(),
    ensures
        ({
            let shapes = face(progress, accent, done);
            let k = lit_count(progress);
            &&& 1 <= k <= ARC_STEPS
            &&& shapes.len() == 17 + k + (if done {
                1int
            } else {
                0int
            })
            &&& shapes[0] == rings()[0]
            &&& shapes[1] == rings()[1]
            &&& forall|j: int| 2 <= j < 2 + k ==> #[trigger] shapes[j] == dot(j - 2, accent)
            &&& shapes[2 + k] == (Shape::Circle { radius: 62, color: Color::Background })
            &&& forall|j: int| 3 + k <= j < 15 + k ==> #[trigger] shapes[j] == tick(j - 3 - k)
            &&& shapes[15 + k] == pointer(progress, accent, done)[0]
            &&& done ==> shapes[16 + k] == pointer(progress, accent, done)[1]
            &&& shapes[shapes.len() - 1] == centre()
        }),
{
    law_arc_is_unbroken(progress, accent);
}

} // verus!
