//! The sixteen terminal colors and the independent style attributes.

use vstd::prelude::*;

verus! {

/// The closed set of sixteen terminal colors: eight base hues, each with a
/// bright counterpart.
#[derive(Copy, Clone, Debug, PartialEq, Eq, Structural)]
pub enum Color {
    Black,
    Red,
    Green,
    Yellow,
    Blue,
    Magenta,
    Cyan,
    White,
    BrightBlack,
    BrightRed,
    BrightGreen,
    BrightYellow,
    BrightBlue,
    BrightMagenta,
    BrightCyan,
    BrightWhite,
}

impl Color {
    /// Whether this color is one of the eight bright variants.
    pub open spec fn is_bright(self) -> bool {
        match self {
            Color::BrightBlack | Color::BrightRed | Color::BrightGreen | Color::BrightYellow
                | Color::BrightBlue | Color::BrightMagenta | Color::BrightCyan
                | Color::BrightWhite => true,
            _ => false,
        }
    }

    /// The base hue of a bright color; a no-op on the base half.
    pub open spec fn spec_normal(self) -> Color {
        match self {
            Color::BrightBlack => Color::Black,
            Color::BrightRed => Color::Red,
            Color::BrightGreen => Color::Green,
            Color::BrightYellow => Color::Yellow,
            Color::BrightBlue => Color::Blue,
            Color::BrightMagenta => Color::Magenta,
            Color::BrightCyan => Color::Cyan,
            Color::BrightWhite => Color::White,
            _ => self,
        }
    }

    /// The bright variant of a base hue; a no-op on the bright half.
    pub open spec fn spec_bright(self) -> Color {
        match self {
            Color::Black => Color::BrightBlack,
            Color::Red => Color::BrightRed,
            Color::Green => Color::BrightGreen,
            Color::Yellow => Color::BrightYellow,
            Color::Blue => Color::BrightBlue,
            Color::Magenta => Color::BrightMagenta,
            Color::Cyan => Color::BrightCyan,
            Color::White => Color::BrightWhite,
            _ => self,
        }
    }

    /// Maps a bright color to its base hue and leaves base hues unchanged.
    #[verifier::when_used_as_spec(spec_normal)]
    pub fn normal(self) -> (c: Color)
        ensures
            c == self.spec_normal(),
    {
        match self {
            Color::BrightBlack => Color::Black,
            Color::BrightRed => Color::Red,
            Color::BrightGreen => Color::Green,
            Color::BrightYellow => Color::Yellow,
            Color::BrightBlue => Color::Blue,
            Color::BrightMagenta => Color::Magenta,
            Color::BrightCyan => Color::Cyan,
            Color::BrightWhite => Color::White,
            _ => self,
        }
    }

    /// Maps a base hue to its bright variant and leaves bright colors unchanged.
    #[verifier::when_used_as_spec(spec_bright)]
    pub fn bright(self) -> (c: Color)
        ensures
            c == self.spec_bright(),
    {
        match self {
            Color::Black => Color::BrightBlack,
            Color::Red => Color::BrightRed,
            Color::Green => Color::BrightGreen,
            Color::Yellow => Color::BrightYellow,
            Color::Blue => Color::BrightBlue,
            Color::Magenta => Color::BrightMagenta,
            Color::Cyan => Color::BrightCyan,
            Color::White => Color::BrightWhite,
            _ => self,
        }
    }
}

/// `normal` and `bright` are inverse bijections between the two halves of the
/// color set and no-ops on the half they already target.
pub proof fn lemma_color_brightness_involution(c: Color)
    ensures
        !c.is_bright() ==> c.spec_normal() == c,
        c.is_bright() ==> c.spec_bright() == c,
        !c.is_bright() ==> c.spec_bright().is_bright() && c.spec_bright().spec_normal() == c,
        c.is_bright() ==> !c.spec_normal().is_bright() && c.spec_normal().spec_bright() == c,
{
}

/// The independent boolean style attributes. `Bold` and `Faint` act on the
/// separately tracked bold flag of a [`crate::state::RenderState`]; the rest
/// compose as an unordered set.
#[derive(Copy, Clone, Debug, PartialEq, Eq, Structural)]
pub enum Style {
    Bold,
    Faint,
    Italic,
    Underline,
    BlinkSlow,
    BlinkFast,
    Reverse,
    Hidden,
    Crossed,
}

/// The set of style attributes that live outside the bold flag, one membership
/// bit per attribute.
#[derive(Copy, Clone, Debug, PartialEq, Eq, Structural)]
pub struct StyleSet {
    pub italic: bool,
    pub underline: bool,
    pub blink_slow: bool,
    pub blink_fast: bool,
    pub reverse: bool,
    pub hidden: bool,
    pub crossed: bool,
}

impl StyleSet {
    /// The set with no attribute active.
    pub open spec fn spec_empty() -> StyleSet {
        StyleSet {
            italic: false,
            underline: false,
            blink_slow: false,
            blink_fast: false,
            reverse: false,
            hidden: false,
            crossed: false,
        }
    }

    /// Constructs the empty set.
    pub fn empty() -> (s: StyleSet)
        ensures
            s == StyleSet::spec_empty(),
    {
        StyleSet {
            italic: false,
            underline: false,
            blink_slow: false,
            blink_fast: false,
            reverse: false,
            hidden: false,
            crossed: false,
        }
    }

    /// Membership. `Bold` and `Faint` are never members: they are tracked by
    /// the bold flag instead.
    pub open spec fn contains(self, style: Style) -> bool {
        match style {
            Style::Bold => false,
            Style::Faint => false,
            Style::Italic => self.italic,
            Style::Underline => self.underline,
            Style::BlinkSlow => self.blink_slow,
            Style::BlinkFast => self.blink_fast,
            Style::Reverse => self.reverse,
            Style::Hidden => self.hidden,
            Style::Crossed => self.crossed,
        }
    }

    /// The set with `style` added. Adding `Bold` or `Faint` leaves the set
    /// unchanged.
    pub open spec fn spec_insert(self, style: Style) -> StyleSet {
        match style {
            Style::Bold => self,
            Style::Faint => self,
            Style::Italic => StyleSet { italic: true, ..self },
            Style::Underline => StyleSet { underline: true, ..self },
            Style::BlinkSlow => StyleSet { blink_slow: true, ..self },
            Style::BlinkFast => StyleSet { blink_fast: true, ..self },
            Style::Reverse => StyleSet { reverse: true, ..self },
            Style::Hidden => StyleSet { hidden: true, ..self },
            Style::Crossed => StyleSet { crossed: true, ..self },
        }
    }

    /// Adds one attribute to the set.
    #[verifier::when_used_as_spec(spec_insert)]
    pub fn insert(self, style: Style) -> (r: StyleSet)
        ensures
            r == self.spec_insert(style),
    {
        match style {
            Style::Bold => self,
            Style::Faint => self,
            Style::Italic => StyleSet { italic: true, ..self },
            Style::Underline => StyleSet { underline: true, ..self },
            Style::BlinkSlow => StyleSet { blink_slow: true, ..self },
            Style::BlinkFast => StyleSet { blink_fast: true, ..self },
            Style::Reverse => StyleSet { reverse: true, ..self },
            Style::Hidden => StyleSet { hidden: true, ..self },
            Style::Crossed => StyleSet { crossed: true, ..self },
        }
    }
}

/// Insertion into the style set is idempotent.
pub proof fn lemma_style_insert_idempotent(s: StyleSet, style: Style)
    ensures
        s.spec_insert(style).spec_insert(style) == s.spec_insert(style),
{
}

} // verus!
