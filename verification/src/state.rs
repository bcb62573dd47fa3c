//! The render state held by each backend and the abstract operations that
//! mutate it.

use vstd::prelude::*;

use crate::color::Color;
use crate::color::Style;
use crate::color::StyleSet;

verus! {

/// The style state a backend tracks for the lifetime of one stream: current
/// foreground and background color, the bold flag (kept apart from the style
/// set because it interacts with color brightness and with `Faint`), and the
/// remaining active styles.
#[derive(Copy, Clone, Debug, PartialEq, Eq, Structural)]
pub struct RenderState {
    pub fg: Color,
    pub bg: Color,
    pub bold: bool,
    pub styles: StyleSet,
}

impl RenderState {
    /// The state established by a reset: white on black, not bold, no styles.
    pub open spec fn spec_default() -> RenderState {
        RenderState {
            fg: Color::White,
            bg: Color::Black,
            bold: false,
            styles: StyleSet::spec_empty(),
        }
    }
}

impl Default for RenderState {
    /// Constructs the reset state.
    fn default() -> (s: RenderState)
        ensures
            s == RenderState::spec_default(),
    {
        RenderState {
            fg: Color::White,
            bg: Color::Black,
            bold: false,
            styles: StyleSet::empty(),
        }
    }
}

/// One abstract backend operation, as dispatched by the SGR interpreter and
/// the decoder. `Print` carries a decoded character; `Raw` carries a control
/// character passed through verbatim.
#[derive(Copy, Clone, Debug, PartialEq, Eq, Structural)]
pub enum TermOp {
    Print(char),
    Raw(char),
    SetFg(Color),
    SetBg(Color),
    Reset,
    AddStyle(Style),
}

/// How one operation transforms the render state. `Print` and `Raw` leave it
/// unchanged; `AddStyle(Bold)` sets the bold flag without touching the style
/// set; `AddStyle(Faint)` clears the bold flag; any other style is inserted
/// into the set.
pub open spec fn apply_op(s: RenderState, op: TermOp) -> RenderState {
    match op {
        TermOp::Print(_) => s,
        TermOp::Raw(_) => s,
        TermOp::SetFg(c) => RenderState { fg: c, ..s },
        TermOp::SetBg(c) => RenderState { bg: c, ..s },
        TermOp::Reset => RenderState::spec_default(),
        TermOp::AddStyle(style) => match style {
            Style::Bold => RenderState { bold: true, ..s },
            Style::Faint => RenderState { bold: false, ..s },
            _ => RenderState { styles: s.styles.spec_insert(style), ..s },
        },
    }
}

/// Folds a sequence of operations over a starting state.
pub open spec fn apply_ops(s: RenderState, ops: Seq<TermOp>) -> RenderState
    decreases ops.len(),
{
    if ops.len() == 0 {
        s
    } else {
        apply_op(apply_ops(s, ops.drop_last()), ops.last())
    }
}

/// The foreground a backend actually displays: the bright variant of the
/// chosen hue while the bold flag is set, the hue itself otherwise.
pub open spec fn effective_fg(s: RenderState) -> Color {
    if s.bold {
        s.fg.spec_bright()
    } else {
        s.fg
    }
}

/// Applying a reset twice in a row yields the same render state as applying
/// it once.
pub proof fn lemma_reset_idempotent(s: RenderState)
    ensures
        apply_op(apply_op(s, TermOp::Reset), TermOp::Reset) == apply_op(s, TermOp::Reset),
{
}

/// Appending one operation to a fold is one more application.
pub proof fn lemma_apply_ops_snoc(s: RenderState, ops: Seq<TermOp>, op: TermOp)
    ensures
        apply_ops(s, ops.push(op)) == apply_op(apply_ops(s, ops), op),
{
    assert(ops.push(op).drop_last() =~= ops);
}

/// Bold/bright interaction: enabling bold and choosing a base foreground hue
/// (in either order) makes the effective foreground the bright variant of the
/// hue; a subsequent `Faint` clears the bold flag without clearing the chosen
/// hue, so the effective foreground reverts to the base variant.
pub proof fn lemma_bold_bright_interaction(s: RenderState, c: Color)
    requires
        !c.is_bright(),
    ensures
        ({
            let b = apply_ops(s, seq![TermOp::AddStyle(Style::Bold), TermOp::SetFg(c)]);
            &&& b.bold
            &&& b.fg == c
            &&& effective_fg(b) == c.spec_bright()
            &&& effective_fg(b).is_bright()
        }),
        ({
            let f = apply_ops(
                s,
                seq![TermOp::AddStyle(Style::Bold), TermOp::SetFg(c), TermOp::AddStyle(Style::Faint)],
            );
            &&& !f.bold
            &&& f.fg == c
            &&& effective_fg(f) == c
        }),
{
    let o1 = TermOp::AddStyle(Style::Bold);
    let o2 = TermOp::SetFg(c);
    let o3 = TermOp::AddStyle(Style::Faint);
    assert(seq![o1] =~= Seq::<TermOp>::empty().push(o1));
    assert(seq![o1, o2] =~= seq![o1].push(o2));
    assert(seq![o1, o2, o3] =~= seq![o1, o2].push(o3));
    lemma_apply_ops_snoc(s, Seq::empty(), o1);
    lemma_apply_ops_snoc(s, seq![o1], o2);
    lemma_apply_ops_snoc(s, seq![o1, o2], o3);
    crate::color::lemma_color_brightness_involution(c);
}

} // verus!
