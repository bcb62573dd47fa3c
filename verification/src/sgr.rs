//! The SGR parameter interpreter: one parsed parameter list becomes a
//! sequence of backend operations.

use vstd::prelude::*;

use crate::color::Color;
use crate::color::Style;
use crate::state::TermOp;
use crate::terminal::Terminal;

verus! {

/// The style selected by SGR parameter `p`, for `p` in `1..=8`.
pub open spec fn style_for_param(p: u16) -> Style {
    if p == 1 {
        Style::Bold
    } else if p == 2 {
        Style::Faint
    } else if p == 3 {
        Style::Italic
    } else if p == 4 {
        Style::Underline
    } else if p == 5 {
        Style::BlinkSlow
    } else if p == 6 {
        Style::BlinkFast
    } else if p == 7 {
        Style::Reverse
    } else {
        Style::Hidden
    }
}

/// The base hue selected by an SGR color digit, for `i` in `0..=7`.
pub open spec fn base_color(i: int) -> Color {
    if i == 0 {
        Color::Black
    } else if i == 1 {
        Color::Red
    } else if i == 2 {
        Color::Green
    } else if i == 3 {
        Color::Yellow
    } else if i == 4 {
        Color::Blue
    } else if i == 5 {
        Color::Magenta
    } else if i == 6 {
        Color::Cyan
    } else {
        Color::White
    }
}

/// The operations one SGR parameter stands for: `0` resets; `1..=8` add a
/// style; `30..=37` and `90..=97` select a base or bright foreground;
/// `40..=47` and `100..=107` a base or bright background. Every other value
/// is deliberately ignored and yields no operation.
pub open spec fn sgr_param_ops(p: u16) -> Seq<TermOp> {
    if p == 0 {
        seq![TermOp::Reset]
    } else if 1 <= p && p <= 8 {
        seq![TermOp::AddStyle(style_for_param(p))]
    } else if 30 <= p && p <= 37 {
        seq![TermOp::SetFg(base_color(p - 30))]
    } else if 40 <= p && p <= 47 {
        seq![TermOp::SetBg(base_color(p - 40))]
    } else if 90 <= p && p <= 97 {
        seq![TermOp::SetFg(base_color(p - 90).spec_bright())]
    } else if 100 <= p && p <= 107 {
        seq![TermOp::SetBg(base_color(p - 100).spec_bright())]
    } else {
        Seq::empty()
    }
}

/// The operations of a parameter list, in list order.
pub open spec fn sgr_list_ops(params: Seq<u16>) -> Seq<TermOp>
    decreases params.len(),
{
    if params.len() == 0 {
        Seq::empty()
    } else {
        sgr_list_ops(params.drop_last()) + sgr_param_ops(params.last())
    }
}

/// The operations of one whole SGR sequence: an empty parameter list stands
/// for a single implicit reset.
pub open spec fn sgr_ops(params: Seq<u16>) -> Seq<TermOp> {
    if params.len() == 0 {
        seq![TermOp::Reset]
    } else {
        sgr_list_ops(params)
    }
}

/// Extending a parameter list appends that parameter's operations.
pub proof fn lemma_sgr_list_snoc(params: Seq<u16>, p: u16)
    ensures
        sgr_list_ops(params.push(p)) == sgr_list_ops(params) + sgr_param_ops(p),
{
    assert(params.push(p).drop_last() =~= params);
}

/// Interprets one SGR parameter list against a backend, dispatching the
/// operations of [`sgr_ops`] in order. Recognized parameters take effect even
/// when unrecognized values stand between them.
pub fn handle_formatting<T: Terminal>(term: &mut T, params: &Vec<u16>)
    requires
        old(term).inv(),
    ensures
        final(term).inv(),
        final(term).ops() == old(term).ops() + sgr_ops(params@),
{
    let ghost ops0 = term.ops();
    if params.len() == 0 {
        term.apply(TermOp::Reset);
        proof {
            assert(ops0.push(TermOp::Reset) =~= ops0 + seq![TermOp::Reset]);
        }
        return;
    }
    let mut i: usize = 0;
    while i < params.len()
        invariant
            term.inv(),
            i <= params@.len(),
            0 < params@.len(),
            term.ops() == ops0 + sgr_list_ops(params@.take(i as int)),
        decreases params@.len() - i,
    {
        let p = params[i];
        proof {
            assert(params@.take(i + 1) =~= params@.take(i as int).push(p));
            lemma_sgr_list_snoc(params@.take(i as int), p);
        }
        let ghost pre = term.ops();
        match p {
            0 => term.apply(TermOp::Reset),
            1 => term.apply(TermOp::AddStyle(Style::Bold)),
            2 => term.apply(TermOp::AddStyle(Style::Faint)),
            3 => term.apply(TermOp::AddStyle(Style::Italic)),
            4 => term.apply(TermOp::AddStyle(Style::Underline)),
            5 => term.apply(TermOp::AddStyle(Style::BlinkSlow)),
            6 => term.apply(TermOp::AddStyle(Style::BlinkFast)),
            7 => term.apply(TermOp::AddStyle(Style::Reverse)),
            8 => term.apply(TermOp::AddStyle(Style::Hidden)),
            30 => term.apply(TermOp::SetFg(Color::Black)),
            31 => term.apply(TermOp::SetFg(Color::Red)),
            32 => term.apply(TermOp::SetFg(Color::Green)),
            33 => term.apply(TermOp::SetFg(Color::Yellow)),
            34 => term.apply(TermOp::SetFg(Color::Blue)),
            35 => term.apply(TermOp::SetFg(Color::Magenta)),
            36 => term.apply(TermOp::SetFg(Color::Cyan)),
            37 => term.apply(TermOp::SetFg(Color::White)),
            40 => term.apply(TermOp::SetBg(Color::Black)),
            41 => term.apply(TermOp::SetBg(Color::Red)),
            42 => term.apply(TermOp::SetBg(Color::Green)),
            43 => term.apply(TermOp::SetBg(Color::Yellow)),
            44 => term.apply(TermOp::SetBg(Color::Blue)),
            45 => term.apply(TermOp::SetBg(Color::Magenta)),
            46 => term.apply(TermOp::SetBg(Color::Cyan)),
            47 => term.apply(TermOp::SetBg(Color::White)),
            90 => term.apply(TermOp::SetFg(Color::BrightBlack)),
            91 => term.apply(TermOp::SetFg(Color::BrightRed)),
            92 => term.apply(TermOp::SetFg(Color::BrightGreen)),
            93 => term.apply(TermOp::SetFg(Color::BrightYellow)),
            94 => term.apply(TermOp::SetFg(Color::BrightBlue)),
            95 => term.apply(TermOp::SetFg(Color::BrightMagenta)),
            96 => term.apply(TermOp::SetFg(Color::BrightCyan)),
            97 => term.apply(TermOp::SetFg(Color::BrightWhite)),
            100 => term.apply(TermOp::SetBg(Color::BrightBlack)),
            101 => term.apply(TermOp::SetBg(Color::BrightRed)),
            102 => term.apply(TermOp::SetBg(Color::BrightGreen)),
            103 => term.apply(TermOp::SetBg(Color::BrightYellow)),
            104 => term.apply(TermOp::SetBg(Color::BrightBlue)),
            105 => term.apply(TermOp::SetBg(Color::BrightMagenta)),
            106 => term.apply(TermOp::SetBg(Color::BrightCyan)),
            107 => term.apply(TermOp::SetBg(Color::BrightWhite)),
            _ => {
                // Unrecognized SGR value: skipped; the rest of the list still
                // takes effect.
            },
        }
        proof {
            assert(term.ops() =~= ops0 + sgr_list_ops(params@.take(i + 1)));
        }
        i = i + 1;
    }
    proof {
        assert(params@.take(params@.len() as int) =~= params@);
    }
}

} // verus!
