//! Colours and styled text.

use vstd::prelude::*;

verus! {

/// The colours of the display, after the TokyoNight Storm palette.
#[derive(Clone, Copy, Debug, PartialEq, Eq, Structural)]
pub enum Color {
    Background,
    DarkBackground,
    Highlight,
    Foreground,
    Comment,
    Blue,
    Cyan,
    Green,
    Yellow,
    Red,
}

/// How a piece of text looks. What is `None` is left as it is.
#[derive(Clone, Copy, Debug, PartialEq, Eq, Structural)]
pub struct Style {
    pub fg: Option<Color>,
    pub bg: Option<Color>,
    pub bold: bool,
}

/// A piece of text in one style.
#[derive(Debug)]
pub struct TextRun {
    pub text: String,
    pub style: Style,
}

/// The characters and the style of a `TextRun`.
pub struct RunView {
    pub text: Seq<char>,
    pub style: Style,
}

impl View for TextRun {
    type V = RunView;

    open spec fn view(&self) -> RunView {
        RunView { text: self.text@, style: self.style }
    }
}

/// The characters and styles of a line of text.
pub open spec fn line_view(line: Seq<TextRun>) -> Seq<RunView> {
    line.map_values(|run: TextRun| run@)
}

/// A piece of text in the colour `fg`, otherwise plain.
pub open spec fn inked(text: Seq<char>, fg: Color) -> RunView {
    RunView { text, style: Style { fg: Some(fg), bg: None, bold: false } }
}

/// A piece of bold text in the colour `fg`.
pub open spec fn bold(text: Seq<char>, fg: Color) -> RunView {
    RunView { text, style: Style { fg: Some(fg), bg: None, bold: true } }
}

/// A piece of text in the colour `fg` on the colour `bg`.
pub open spec fn boxed(text: Seq<char>, fg: Color, bg: Color, bold: bool) -> RunView {
    RunView { text, style: Style { fg: Some(fg), bg: Some(bg), bold } }
}

impl Color {
    /// The red, green and blue parts of the colour.
    pub open spec fn channels(self) -> (u8, u8, u8) {
        match self {
            Color::Background => (0x1a, 0x1b, 0x26),
            Color::DarkBackground => (0x16, 0x17, 0x21),
            Color::Highlight => (0x29, 0x2e, 0x42),
            Color::Foreground => (0xc0, 0xca, 0xf5),
            Color::Comment => (0x56, 0x5f, 0x89),
            Color::Blue => (0x7a, 0xa2, 0xf7),
            Color::Cyan => (0x7d, 0xcf, 0xff),
            Color::Green => (0x9e, 0xce, 0x6a),
            Color::Yellow => (0xe0, 0xaf, 0x68),
            Color::Red => (0xf7, 0x76, 0x8e),
        }
    }

    /// Returns the red, green and blue parts of the colour.
    pub fn rgb(&self) -> (rgb: (u8, u8, u8))
        ensures
            rgb == self.channels(),
    {
        match *self {
            Color::Background => (0x1a, 0x1b, 0x26),
            Color::DarkBackground => (0x16, 0x17, 0x21),
            Color::Highlight => (0x29, 0x2e, 0x42),
            Color::Foreground => (0xc0, 0xca, 0xf5),
            Color::Comment => (0x56, 0x5f, 0x89),
            Color::Blue => (0x7a, 0xa2, 0xf7),
            Color::Cyan => (0x7d, 0xcf, 0xff),
            Color::Green => (0x9e, 0xce, 0x6a),
            Color::Yellow => (0xe0, 0xaf, 0x68),
            Color::Red => (0xf7, 0x76, 0x8e),
        }
    }
}

/// No two colours of the display look the same.
pub proof fn law_colors_differ(a: Color, b: Color)
    requires
        a.channels() == b.channels(),
    ensures
        a == b,
{
}

impl TextRun {
    /// Makes a piece of text.
    pub fn new(text: &str, fg: Color, bg: Option<Color>, bold: bool) -> (run: TextRun)
        ensures
            run@ == (RunView { text: text@, style: Style { fg: Some(fg), bg, bold } }),
    {
        TextRun { text: text.to_owned(), style: Style { fg: Some(fg), bg, bold } }
    }
}

/// What `rgb` gives, as one number: the palette.
pub proof fn law_palette(color: Color, rgb: (u8, u8, u8))
    requires
        call_ensures(Color::rgb, (&color,), rgb),
    ensures
        ({
            let code = 65_536 * rgb.0 + 256 * rgb.1 + rgb.2;
            &&& color == Color::Background <==> code == 0x1a1b26
            &&& color == Color::DarkBackground <==> code == 0x161721
            &&& color == Color::Highlight <==> code == 0x292e42
            &&& color == Color::Foreground <==> code == 0xc0caf5
            &&& color == Color::Comment <==> code == 0x565f89
            &&& color == Color::Blue <==> code == 0x7aa2f7
            &&& color == Color::Cyan <==> code == 0x7dcfff
            &&& color == Color::Green <==> code == 0x9ece6a
            &&& color == Color::Yellow <==> code == 0xe0af68
            &&& color == Color::Red <==> code == 0xf7768e
        }),
{
}

/// A piece of text has the characters, the colours and the weight that it was
/// made with.
pub proof fn law_text_run(
    text: &str,
    fg: Color,
    bg: Option<Color>,
    bold: bool,
    run: TextRun,
)
    requires
        call_ensures(TextRun::new, (text, fg, bg, bold), run),
    ensures
        run.text@ == text@,
        run.style.fg == Some(fg),
        run.style.bg == bg,
        run.style.bold == bold,
{
}

} // verus!
