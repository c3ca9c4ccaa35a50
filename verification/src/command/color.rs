use vstd::prelude::*;
use vstd::string::StringExecFns;
use colorful::Colorful;
use colorful::RGB;

verus! {

/// The colours that the commands write in.
#[derive(Debug, Clone, Copy, PartialEq, Eq, Structural)]
pub enum Shade {
    /// The colour of the names of nodes and other things that a command is
    /// about.
    PrimaryResource,
    /// The colour of the mark that stands before good news.
    OkMark,
}

impl Shade {
    /// The red, green and blue parts of the colour.
    pub open spec fn spec_rgb(self) -> (u8, u8, u8) {
        match self {
            Shade::PrimaryResource => (0x4f, 0xda, 0xb8),
            Shade::OkMark => (0xa8, 0xc9, 0x7d),
        }
    }

    /// The red, green and blue parts of the colour.
    pub fn rgb(self) -> (parts: (u8, u8, u8))
        ensures
            parts == self.spec_rgb(),
    {
        match self {
            Shade::PrimaryResource => (0x4f, 0xda, 0xb8),
            Shade::OkMark => (0xa8, 0xc9, 0x7d),
        }
    }
}

/// The character for a digit.
pub open spec fn digit(d: int) -> char
    recommends
        0 <= d <= 9,
{
    (0x30 + d) as u8 as char
}

/// A number below 256 in decimal, without leading zeros.
pub open spec fn decimal(n: u8) -> Seq<char> {
    if n < 10 {
        seq![digit(n as int)]
    } else if n < 100 {
        seq![digit(n as int / 10), digit(n as int % 10)]
    } else {
        seq![digit(n as int / 100), digit(n as int / 10 % 10), digit(n as int % 10)]
    }
}

/// A text set in a colour for the terminal: the escape sequence that turns
/// the foreground to the colour, the text, and the escape sequence that
/// turns everything back.
pub open spec fn painted(text: Seq<char>, rgb: (u8, u8, u8)) -> Seq<char> {
    "\x1B[38;2;"@ + decimal(rgb.0) + ";"@ + decimal(rgb.1) + ";"@ + decimal(rgb.2) + "m"@ + text
        + "\x1B[0m"@
}

/// Sets `text` in the colour with the parts `r`, `g` and `b`, with
/// colorful's `color` given an `RGB`. What comes back is written out above:
/// colorful opens with `ESC[38;2;`, the three parts in decimal with
/// semicolons between them and `m`, then gives the text as it is, and closes
/// with `ESC[0m`.
#[verifier::external_body]
fn paint(text: &str, r: u8, g: u8, b: u8) -> (colored: String)
    ensures
        colored@ == painted(text@, (r, g, b)),
{
    text.color(RGB::new(r, g, b)).to_string()
}

/// The text set in the colour `shade`.
pub fn colored(text: &str, shade: Shade) -> (colored: String)
    ensures
        colored@ == painted(text@, shade.spec_rgb()),
{
    let (r, g, b) = shade.rgb();
    paint(text, r, g, b)
}

/// The mark that stands before good news.
pub const CHECK_MARK: &'static str = "\u{2714}";

/// Good news: the mark in its colour, a space, and the message.
pub fn fmt_ok(message: &str) -> (line: String)
    ensures
        line@ == painted(CHECK_MARK@, Shade::OkMark.spec_rgb()) + " "@ + message@,
{
    colored(CHECK_MARK, Shade::OkMark).concat(" ").concat(message)
}

} // verus!
