//! The markup backend: renders the operation stream as nested styled regions
//! in a self-contained HTML document, built lazily so that consecutive style
//! changes with no text between them collapse into a single region
//! transition.

use vstd::prelude::*;

use vstd::string::StringExecFns;

use crate::color::Color;
use crate::color::Style;
use crate::color::StyleSet;
use crate::state::RenderState;
use crate::state::TermOp;
use crate::state::apply_op;
use crate::state::apply_ops;
use crate::terminal::Terminal;

verus! {

/// The document prologue: boilerplate, the stylesheet (one class per color
/// and background variant plus the bold modifier, whose combination with a
/// hue resolves to the hue's bright variant), and the opening of the single
/// pre-formatted content region.
pub open spec fn header_text() -> Seq<char> {
    "<!DOCTYPE html>
<html>
<head>
    <title>ansi2html</title>
    <meta charset='utf-8'/>
    <style>
        html {
            background: #212121;
            color: #FFFFFF;
        }

        .black { color: #212121; }
        .red { color: #E51C23; }
        .green { color: #259B24; }
        .yellow { color: #FFEB3B; }
        .blue { color: #5677FC; }
        .magenta { color: #9C27B0; }
        .cyan { color: #00BCD4; }
        .white { color: #F5F5F5; }
        .bright-black, .bold.black { color: #9E9E9E; }
        .bright-red, .bold.red { color: #FF5177; }
        .bright-green, .bold.green { color: #5AF158; }
        .bright-yellow, .bold.yellow { color: #FFFF00; }
        .bright-blue, .bold.blue { color: #6889FF; }
        .bright-magenta, .bold.magenta { color: #E040FB; }
        .bright-cyan, .bold.cyan { color: #18FFFF; }
        .bright-white, .bold.white { color: #FFFFFF; }

        .bg-black { background-color: #212121; }
        .bg-red { background-color: #E51C23; }
        .bg-green { background-color: #259B24; }
        .bg-yellow { background-color: #FFEB3B; }
        .bg-blue { background-color: #5677FC; }
        .bg-magenta { background-color: #9C27B0; }
        .bg-cyan { background-color: #00BCD4; }
        .bg-white { background-color: #F5F5F5; }
        .bg-bright-black { background-color: #9E9E9E; }
        .bg-bright-red { background-color: #FF5177; }
        .bg-bright-green { background-color: #5AF158; }
        .bg-bright-yellow { background-color: #FFFF00; }
        .bg-bright-blue { background-color: #6889FF; }
        .bg-bright-magenta { background-color: #E040FB; }
        .bg-bright-cyan { background-color: #18FFFF; }
        .bg-bright-white { background-color: #FFFFFF; }

        .bold { font-weight: bold; }

    </style>
</head>
<body>

<pre>
"@
}

/// The closing document boilerplate.
pub open spec fn footer_text() -> Seq<char> {
    "\n</pre>\n\n</body>\n</html>"@
}

/// The markup that closes one region.
pub open spec fn span_close_text() -> Seq<char> {
    "</span>"@
}

/// The stylesheet class for a foreground color.
pub open spec fn fg_class_text(c: Color) -> Seq<char> {
    match c {
        Color::Black => "black"@,
        Color::Red => "red"@,
        Color::Green => "green"@,
        Color::Yellow => "yellow"@,
        Color::Blue => "blue"@,
        Color::Magenta => "magenta"@,
        Color::Cyan => "cyan"@,
        Color::White => "white"@,
        Color::BrightBlack => "bright-black"@,
        Color::BrightRed => "bright-red"@,
        Color::BrightGreen => "bright-green"@,
        Color::BrightYellow => "bright-yellow"@,
        Color::BrightBlue => "bright-blue"@,
        Color::BrightMagenta => "bright-magenta"@,
        Color::BrightCyan => "bright-cyan"@,
        Color::BrightWhite => "bright-white"@,
    }
}

/// The stylesheet class for a background color.
pub open spec fn bg_class_text(c: Color) -> Seq<char> {
    match c {
        Color::Black => "bg-black"@,
        Color::Red => "bg-red"@,
        Color::Green => "bg-green"@,
        Color::Yellow => "bg-yellow"@,
        Color::Blue => "bg-blue"@,
        Color::Magenta => "bg-magenta"@,
        Color::Cyan => "bg-cyan"@,
        Color::White => "bg-white"@,
        Color::BrightBlack => "bg-bright-black"@,
        Color::BrightRed => "bg-bright-red"@,
        Color::BrightGreen => "bg-bright-green"@,
        Color::BrightYellow => "bg-bright-yellow"@,
        Color::BrightBlue => "bg-bright-blue"@,
        Color::BrightMagenta => "bg-bright-magenta"@,
        Color::BrightCyan => "bg-bright-cyan"@,
        Color::BrightWhite => "bg-bright-white"@,
    }
}

/// The inline CSS for the style set: italic and hidden as properties, and
/// underline and crossed combined into one text-decoration property.
pub open spec fn style_css_text(ss: StyleSet) -> Seq<char> {
    (if ss.italic {
        "font-style: italic;"@
    } else {
        Seq::empty()
    }) + (if ss.hidden {
        "visibility: hidden;"@
    } else {
        Seq::empty()
    }) + (if ss.underline || ss.crossed {
        "text-decoration: "@ + (if ss.underline {
            " underline"@
        } else {
            Seq::empty()
        }) + (if ss.crossed {
            " line-through"@
        } else {
            Seq::empty()
        }) + ";"@
    } else {
        Seq::empty()
    })
}

/// The markup that opens one region for a render state.
pub open spec fn span_open_text(s: RenderState) -> Seq<char> {
    "<span class='"@ + fg_class_text(s.fg) + " "@ + bg_class_text(s.bg) + (if s.bold {
        " bold"@
    } else {
        Seq::empty()
    }) + "' style='"@ + style_css_text(s.styles) + "'>"@
}

/// How one printed character appears in the document: the five HTML-reserved
/// characters become entities, everything else stands for itself.
pub open spec fn escape_text(c: char) -> Seq<char> {
    if c == '&' {
        "&amp;"@
    } else if c == '<' {
        "&lt;"@
    } else if c == '>' {
        "&gt;"@
    } else if c == '"' {
        "&quot;"@
    } else if c == '\'' {
        "&#x27;"@
    } else {
        seq![c]
    }
}

/// The abstract state of the markup backend: the render state, whether the
/// open region is stale, and the document text so far.
pub struct HtmlTrace {
    pub state: RenderState,
    pub dirty: bool,
    pub out: Seq<char>,
}

/// The document text once any pending region transition has been executed.
pub open spec fn flushed_out(t: HtmlTrace) -> Seq<char> {
    if t.dirty {
        t.out + span_close_text() + span_open_text(t.state)
    } else {
        t.out
    }
}

/// How one operation advances the markup backend: text first executes the
/// pending region transition, while style operations only update the render
/// state and mark the open region stale.
pub open spec fn html_step(t: HtmlTrace, op: TermOp) -> HtmlTrace {
    match op {
        TermOp::Print(c) => HtmlTrace {
            state: t.state,
            dirty: false,
            out: flushed_out(t) + escape_text(c),
        },
        TermOp::Raw(c) => HtmlTrace { state: t.state, dirty: false, out: flushed_out(t) + seq![c] },
        _ => HtmlTrace { state: apply_op(t.state, op), dirty: true, out: t.out },
    }
}

/// The markup backend's abstract state after a history of operations,
/// starting from the freshly opened document.
pub open spec fn html_trace(ops: Seq<TermOp>) -> HtmlTrace
    decreases ops.len(),
{
    if ops.len() == 0 {
        HtmlTrace {
            state: RenderState::spec_default(),
            dirty: false,
            out: header_text() + span_open_text(RenderState::spec_default()),
        }
    } else {
        html_step(html_trace(ops.drop_last()), ops.last())
    }
}

/// The finished document for a history: pending transition executed, the open
/// region closed, and the closing boilerplate appended.
pub open spec fn html_doc(ops: Seq<TermOp>) -> Seq<char> {
    flushed_out(html_trace(ops)) + span_close_text() + footer_text()
}

/// The render state tracked by the markup trace is exactly the fold of the
/// operations over the default state.
pub proof fn lemma_html_trace_state(ops: Seq<TermOp>)
    ensures
        html_trace(ops).state == apply_ops(RenderState::spec_default(), ops),
    decreases ops.len(),
{
    if ops.len() > 0 {
        lemma_html_trace_state(ops.drop_last());
    }
}

/// Relies on String::push: appends exactly one character.
#[verifier::external_body]
fn push_char(s: &mut String, ch: char)
    ensures
        final(s)@ == old(s)@.push(ch),
{
    s.push(ch);
}

/// The inline CSS of a style set, in the fixed attribute order of
/// [`style_css_text`].
pub fn ansi_style_to_html(styles: &StyleSet) -> (r: String)
    ensures
        r@ == style_css_text(*styles),
{
    let mut css = String::new();
    let mut deco = String::new();
    if styles.italic {
        css.append("font-style: italic;");
    }
    if styles.hidden {
        css.append("visibility: hidden;");
    }
    if styles.underline {
        deco.append(" underline");
    }
    if styles.crossed {
        deco.append(" line-through");
    }
    if styles.underline || styles.crossed {
        css.append("text-decoration: ");
        css.append(deco.as_str());
        css.append(";");
    }
    proof {
        assert(css@ =~= style_css_text(*styles));
    }
    css
}

/// The markup backend. It owns the document buffer; the caller drains it with
/// [`HtmlWriter::finalize`] once the stream ends.
pub struct HtmlWriter {
    out: String,
    fg_color: Color,
    bg_color: Color,
    bold: bool,
    styles: StyleSet,
    span_needs_reopen: bool,
    history: Ghost<Seq<TermOp>>,
}

impl HtmlWriter {
    /// The render state held in the concrete fields.
    pub closed spec fn render_state(&self) -> RenderState {
        RenderState { fg: self.fg_color, bg: self.bg_color, bold: self.bold, styles: self.styles }
    }

    /// Constructs a writer whose buffer holds the document prologue and the
    /// opening of the default-state region.
    pub fn new() -> (w: HtmlWriter)
        ensures
            w.inv(),
            w.ops() == Seq::<TermOp>::empty(),
    {
        let mut w = HtmlWriter {
            out: String::new(),
            fg_color: Color::White,
            bg_color: Color::Black,
            bold: false,
            styles: StyleSet::empty(),
            span_needs_reopen: false,
            history: Ghost(Seq::empty()),
        };
        w.out.append(
            "<!DOCTYPE html>
<html>
<head>
    <title>ansi2html</title>
    <meta charset='utf-8'/>
    <style>
        html {
            background: #212121;
            color: #FFFFFF;
        }

        .black { color: #212121; }
        .red { color: #E51C23; }
        .green { color: #259B24; }
        .yellow { color: #FFEB3B; }
        .blue { color: #5677FC; }
        .magenta { color: #9C27B0; }
        .cyan { color: #00BCD4; }
        .white { color: #F5F5F5; }
        .bright-black, .bold.black { color: #9E9E9E; }
        .bright-red, .bold.red { color: #FF5177; }
        .bright-green, .bold.green { color: #5AF158; }
        .bright-yellow, .bold.yellow { color: #FFFF00; }
        .bright-blue, .bold.blue { color: #6889FF; }
        .bright-magenta, .bold.magenta { color: #E040FB; }
        .bright-cyan, .bold.cyan { color: #18FFFF; }
        .bright-white, .bold.white { color: #FFFFFF; }

        .bg-black { background-color: #212121; }
        .bg-red { background-color: #E51C23; }
        .bg-green { background-color: #259B24; }
        .bg-yellow { background-color: #FFEB3B; }
        .bg-blue { background-color: #5677FC; }
        .bg-magenta { background-color: #9C27B0; }
        .bg-cyan { background-color: #00BCD4; }
        .bg-white { background-color: #F5F5F5; }
        .bg-bright-black { background-color: #9E9E9E; }
        .bg-bright-red { background-color: #FF5177; }
        .bg-bright-green { background-color: #5AF158; }
        .bg-bright-yellow { background-color: #FFFF00; }
        .bg-bright-blue { background-color: #6889FF; }
        .bg-bright-magenta { background-color: #E040FB; }
        .bg-bright-cyan { background-color: #18FFFF; }
        .bg-bright-white { background-color: #FFFFFF; }

        .bold { font-weight: bold; }

    </style>
</head>
<body>

<pre>
",
        );
        w.open_span();
        proof {
            assert(w.out@ =~= header_text() + span_open_text(RenderState::spec_default()));
        }
        w
    }

    /// The stylesheet class of the current foreground color.
    pub fn fg_color_class(&self) -> (r: &'static str)
        ensures
            r@ == fg_class_text(self.render_state().fg),
    {
        match self.fg_color {
            Color::Black => "black",
            Color::Red => "red",
            Color::Green => "green",
            Color::Yellow => "yellow",
            Color::Blue => "blue",
            Color::Magenta => "magenta",
            Color::Cyan => "cyan",
            Color::White => "white",
            Color::BrightBlack => "bright-black",
            Color::BrightRed => "bright-red",
            Color::BrightGreen => "bright-green",
            Color::BrightYellow => "bright-yellow",
            Color::BrightBlue => "bright-blue",
            Color::BrightMagenta => "bright-magenta",
            Color::BrightCyan => "bright-cyan",
            Color::BrightWhite => "bright-white",
        }
    }

    /// The stylesheet class of the current background color.
    pub fn bg_color_class(&self) -> (r: &'static str)
        ensures
            r@ == bg_class_text(self.render_state().bg),
    {
        match self.bg_color {
            Color::Black => "bg-black",
            Color::Red => "bg-red",
            Color::Green => "bg-green",
            Color::Yellow => "bg-yellow",
            Color::Blue => "bg-blue",
            Color::Magenta => "bg-magenta",
            Color::Cyan => "bg-cyan",
            Color::White => "bg-white",
            Color::BrightBlack => "bg-bright-black",
            Color::BrightRed => "bg-bright-red",
            Color::BrightGreen => "bg-bright-green",
            Color::BrightYellow => "bg-bright-yellow",
            Color::BrightBlue => "bg-bright-blue",
            Color::BrightMagenta => "bg-bright-magenta",
            Color::BrightCyan => "bg-bright-cyan",
            Color::BrightWhite => "bg-bright-white",
        }
    }

    /// Opens a region reflecting the current render state.
    fn open_span(&mut self)
        ensures
            final(self).out@ == old(self).out@ + span_open_text(old(self).render_state()),
            final(self).render_state() == old(self).render_state(),
            final(self).span_needs_reopen == old(self).span_needs_reopen,
            final(self).history == old(self).history,
    {
        let fg = self.fg_color_class();
        let bg = self.bg_color_class();
        let style = ansi_style_to_html(&self.styles);
        self.out.append("<span class='");
        self.out.append(fg);
        self.out.append(" ");
        self.out.append(bg);
        if self.bold {
            self.out.append(" bold");
        }
        self.out.append("' style='");
        self.out.append(style.as_str());
        self.out.append("'>");
        proof {
            assert(self.out@ =~= old(self).out@ + span_open_text(old(self).render_state()));
        }
    }

    /// Closes the currently open region.
    fn close_span(&mut self)
        ensures
            final(self).out@ == old(self).out@ + span_close_text(),
            final(self).render_state() == old(self).render_state(),
            final(self).span_needs_reopen == old(self).span_needs_reopen,
            final(self).history == old(self).history,
    {
        self.out.append("</span>");
    }

    /// Marks the open region stale; the transition itself is deferred to the
    /// next text output.
    fn reopen_span(&mut self)
        ensures
            final(self).out@ == old(self).out@,
            final(self).render_state() == old(self).render_state(),
            final(self).span_needs_reopen == true,
            final(self).history == old(self).history,
    {
        self.span_needs_reopen = true;
    }

    /// Executes the pending region transition, if one is due: closes the open
    /// region and opens a new one reflecting the current render state.
    fn execute_reopen_span(&mut self)
        ensures
            final(self).out@ == (if old(self).span_needs_reopen {
                old(self).out@ + span_close_text() + span_open_text(old(self).render_state())
            } else {
                old(self).out@
            }),
            final(self).render_state() == old(self).render_state(),
            final(self).span_needs_reopen == false,
            final(self).history == old(self).history,
    {
        if self.span_needs_reopen {
            self.close_span();
            self.open_span();
            self.span_needs_reopen = false;
        }
    }

    /// Renders one decoded character, escaped, executing any pending region
    /// transition first.
    pub fn print(&mut self, ch: char)
        requires
            old(self).inv(),
        ensures
            final(self).inv(),
            final(self).ops() == old(self).ops().push(TermOp::Print(ch)),
    {
        let ghost h0 = self.history@;
        self.execute_reopen_span();
        if ch == '&' {
            self.out.append("&amp;");
        } else if ch == '<' {
            self.out.append("&lt;");
        } else if ch == '>' {
            self.out.append("&gt;");
        } else if ch == '"' {
            self.out.append("&quot;");
        } else if ch == '\'' {
            self.out.append("&#x27;");
        } else {
            push_char(&mut self.out, ch);
        }
        self.history = Ghost(h0.push(TermOp::Print(ch)));
        proof {
            assert(h0.push(TermOp::Print(ch)).drop_last() =~= h0);
            assert(self.out@ =~= html_trace(self.history@).out);
        }
    }

    /// Passes one character through unescaped, executing any pending region
    /// transition first.
    pub fn write_raw(&mut self, ch: char)
        requires
            old(self).inv(),
        ensures
            final(self).inv(),
            final(self).ops() == old(self).ops().push(TermOp::Raw(ch)),
    {
        let ghost h0 = self.history@;
        self.execute_reopen_span();
        push_char(&mut self.out, ch);
        self.history = Ghost(h0.push(TermOp::Raw(ch)));
        proof {
            assert(h0.push(TermOp::Raw(ch)).drop_last() =~= h0);
            assert(self.out@ =~= html_trace(self.history@).out);
        }
    }

    /// Ends the stream: executes any pending region transition, closes the
    /// open region, appends the closing boilerplate, and hands the whole
    /// document back.
    pub fn finalize(self) -> (r: String)
        requires
            self.inv(),
        ensures
            r@ == html_doc(self.ops()),
    {
        let mut w = self;
        w.execute_reopen_span();
        w.close_span();
        w.out.append("\n</pre>\n\n</body>\n</html>");
        proof {
            assert(w.out@ =~= html_doc(self.ops()));
        }
        w.out
    }
}

impl HtmlWriter {
    /// Replaces the current foreground color; the open region is marked
    /// stale.
    pub fn set_fg_color(&mut self, color: Color)
        requires
            old(self).inv(),
        ensures
            final(self).inv(),
            final(self).ops() == old(self).ops().push(TermOp::SetFg(color)),
    {
        let ghost h0 = self.history@;
        self.fg_color = color;
        self.reopen_span();
        self.history = Ghost(h0.push(TermOp::SetFg(color)));
        proof {
            assert(h0.push(TermOp::SetFg(color)).drop_last() =~= h0);
        }
    }

    /// Replaces the current background color; the open region is marked
    /// stale.
    pub fn set_bg_color(&mut self, color: Color)
        requires
            old(self).inv(),
        ensures
            final(self).inv(),
            final(self).ops() == old(self).ops().push(TermOp::SetBg(color)),
    {
        let ghost h0 = self.history@;
        self.bg_color = color;
        self.reopen_span();
        self.history = Ghost(h0.push(TermOp::SetBg(color)));
        proof {
            assert(h0.push(TermOp::SetBg(color)).drop_last() =~= h0);
        }
    }

    /// Restores the default render state; the open region is marked stale.
    pub fn reset_style(&mut self)
        requires
            old(self).inv(),
        ensures
            final(self).inv(),
            final(self).ops() == old(self).ops().push(TermOp::Reset),
    {
        let ghost h0 = self.history@;
        self.styles = StyleSet::empty();
        self.fg_color = Color::White;
        self.bg_color = Color::Black;
        self.bold = false;
        self.reopen_span();
        self.history = Ghost(h0.push(TermOp::Reset));
        proof {
            assert(h0.push(TermOp::Reset).drop_last() =~= h0);
        }
    }

    /// Adds one style attribute. Every state change marks the open region
    /// stale, bold and faint included: their effect reaches the document
    /// through the region's class list at the next transition.
    pub fn add_style(&mut self, style: Style)
        requires
            old(self).inv(),
        ensures
            final(self).inv(),
            final(self).ops() == old(self).ops().push(TermOp::AddStyle(style)),
    {
        let ghost h0 = self.history@;
        match style {
            Style::Bold => {
                self.bold = true;
            },
            Style::Faint => {
                self.bold = false;
            },
            _ => {
                self.styles = self.styles.insert(style);
            },
        }
        self.reopen_span();
        self.history = Ghost(h0.push(TermOp::AddStyle(style)));
        proof {
            assert(h0.push(TermOp::AddStyle(style)).drop_last() =~= h0);
        }
    }

    /// Dispatches one operation to the named methods.
    fn apply_op(&mut self, op: TermOp)
        requires
            old(self).inv(),
        ensures
            final(self).inv(),
            final(self).history@ == old(self).history@.push(op),
    {
        match op {
            TermOp::Print(c) => self.print(c),
            TermOp::Raw(c) => self.write_raw(c),
            TermOp::SetFg(color) => self.set_fg_color(color),
            TermOp::SetBg(color) => self.set_bg_color(color),
            TermOp::Reset => self.reset_style(),
            TermOp::AddStyle(style) => self.add_style(style),
        }
    }
}

impl Terminal for HtmlWriter {
    /// The recorded operation history.
    closed spec fn ops(&self) -> Seq<TermOp> {
        self.history@
    }

    /// The concrete fields agree with the trace of the history.
    closed spec fn inv(&self) -> bool {
        let t = html_trace(self.history@);
        &&& self.render_state() == t.state
        &&& self.span_needs_reopen == t.dirty
        &&& self.out@ == t.out
    }

    fn apply(&mut self, op: TermOp) {
        self.apply_op(op);
    }
}

/// The render state the markup backend tracks is exactly the fold of its
/// recorded history over the default state.
pub proof fn lemma_html_state_from_history(w: &HtmlWriter)
    requires
        w.inv(),
    ensures
        w.render_state() == crate::terminal::term_state(w),
{
    lemma_html_trace_state(w.ops());
}

/// An operation that changes state rather than producing text.
pub open spec fn is_style_op(op: TermOp) -> bool {
    match op {
        TermOp::Print(_) => false,
        TermOp::Raw(_) => false,
        _ => true,
    }
}

/// Lazy-reopen collapsing: two consecutive style operations with no print
/// between them produce exactly one region transition when text next
/// arrives, whatever the operations and the prior history.
pub proof fn lemma_lazy_reopen_collapse(ops: Seq<TermOp>, op1: TermOp, op2: TermOp, c: char)
    requires
        is_style_op(op1),
        is_style_op(op2),
    ensures
        ({
            let t = html_trace(ops);
            let st2 = apply_op(apply_op(t.state, op1), op2);
            html_trace(ops.push(op1).push(op2).push(TermOp::Print(c))).out == t.out
                + span_close_text() + span_open_text(st2) + escape_text(c)
        }),
{
    let t = html_trace(ops);
    assert(ops.push(op1).drop_last() =~= ops);
    assert(html_trace(ops.push(op1)) == html_step(t, op1));
    assert(ops.push(op1).push(op2).drop_last() =~= ops.push(op1));
    assert(html_trace(ops.push(op1).push(op2)) == html_step(html_trace(ops.push(op1)), op2));
    assert(ops.push(op1).push(op2).push(TermOp::Print(c)).drop_last() =~= ops.push(op1).push(op2));
    assert(html_trace(ops.push(op1).push(op2).push(TermOp::Print(c))) == html_step(
        html_trace(ops.push(op1).push(op2)),
        TermOp::Print(c),
    ));
    assert(html_trace(ops.push(op1).push(op2).push(TermOp::Print(c))).out =~= t.out
        + span_close_text() + span_open_text(apply_op(apply_op(t.state, op1), op2)) + escape_text(
        c,
    ));
}

/// Bold reaches the document as brightness: enabling bold and choosing a
/// base foreground hue makes the next text open a region whose class list
/// carries the hue's class and the bold marker — the pair the stylesheet
/// resolves to the hue's bright color — and the effective foreground of the
/// state is exactly the bright variant.
pub proof fn lemma_bold_bright_markup(ops: Seq<TermOp>, c: Color, x: char)
    requires
        !c.is_bright(),
    ensures
        ({
            let t = html_trace(ops);
            let bold_ops = ops.push(TermOp::AddStyle(Style::Bold)).push(TermOp::SetFg(c));
            let st2 = apply_op(apply_op(t.state, TermOp::AddStyle(Style::Bold)), TermOp::SetFg(c));
            &&& html_trace(bold_ops.push(TermOp::Print(x))).out == t.out + span_close_text()
                + "<span class='"@ + fg_class_text(c) + " "@ + bg_class_text(t.state.bg)
                + " bold"@ + "' style='"@ + style_css_text(t.state.styles) + "'>"@
                + escape_text(x)
            &&& crate::state::effective_fg(st2) == c.spec_bright()
        }),
{
    lemma_lazy_reopen_collapse(ops, TermOp::AddStyle(Style::Bold), TermOp::SetFg(c), x);
    crate::color::lemma_color_brightness_involution(c);
}

/// The text a run of printing operations contributes to the document.
pub open spec fn plain_ops_text(ops: Seq<TermOp>) -> Seq<char>
    decreases ops.len(),
{
    if ops.len() == 0 {
        Seq::empty()
    } else {
        plain_ops_text(ops.drop_last()) + (match ops.last() {
            TermOp::Print(c) => escape_text(c),
            TermOp::Raw(c) => seq![c],
            _ => Seq::empty(),
        })
    }
}

/// A run of printing operations, starting with no pending transition,
/// appends exactly its per-character text: no region is opened or closed and
/// the render state is untouched.
pub proof fn lemma_plain_ops_render(ops: Seq<TermOp>, tail: Seq<TermOp>)
    requires
        html_trace(ops).dirty == false,
        forall|i: int| 0 <= i < tail.len() ==> !is_style_op(#[trigger] tail[i]),
    ensures
        html_trace(ops + tail).out == html_trace(ops).out + plain_ops_text(tail),
        html_trace(ops + tail).dirty == false,
        html_trace(ops + tail).state == html_trace(ops).state,
    decreases tail.len(),
{
    if tail.len() == 0 {
        assert(ops + tail =~= ops);
    } else {
        lemma_plain_ops_render(ops, tail.drop_last());
        assert((ops + tail).drop_last() =~= ops + tail.drop_last());
        assert((ops + tail).last() == tail.last());
        assert(html_trace(ops + tail).out =~= html_trace(ops).out + plain_ops_text(tail));
    }
}

/// The document text of ESC-free ASCII input: each C0 control byte stands
/// for itself, every other byte is rendered by [`escape_text`].
pub open spec fn plain_bytes_text(bytes: Seq<u8>) -> Seq<char>
    decreases bytes.len(),
{
    if bytes.len() == 0 {
        Seq::empty()
    } else {
        plain_bytes_text(bytes.drop_last()) + (if bytes.last() < 0x20 {
            seq![bytes.last() as char]
        } else {
            escape_text(bytes.last() as char)
        })
    }
}

/// The per-operation text of the plain operations of a byte sequence is its
/// per-byte text.
proof fn lemma_plain_bytes_text(bytes: Seq<u8>)
    ensures
        plain_ops_text(bytes.map_values(|b: u8| crate::shim::plain_op(b))) == plain_bytes_text(
            bytes,
        ),
    decreases bytes.len(),
{
    let g = |b: u8| crate::shim::plain_op(b);
    if bytes.len() == 0 {
        assert(bytes.map_values(g) =~= Seq::<TermOp>::empty());
    } else {
        lemma_plain_bytes_text(bytes.drop_last());
        assert(bytes.map_values(g) =~= bytes.drop_last().map_values(g).push(g(bytes.last())));
        assert(bytes.map_values(g).drop_last() =~= bytes.drop_last().map_values(g));
    }
}

/// Plain-text identity for the markup backend: a fresh pipeline fed ASCII
/// input holding no ESC byte yields the document prologue, the default
/// region, and the input text itself, each character rendered by
/// [`escape_text`] — so, entities aside, the output text equals the input.
pub proof fn lemma_plain_text_identity_markup(bytes: Seq<u8>)
    requires
        forall|i: int| 0 <= i < bytes.len() ==> bytes[i] != 0x1B && bytes[i] < 0x80,
    ensures
        ({
            let ops = crate::shim::stream_ops(crate::decoder::ground_model(), bytes);
            html_trace(ops).out == header_text() + span_open_text(RenderState::spec_default())
                + plain_bytes_text(bytes)
        }),
{
    let m = crate::decoder::ground_model();
    let g = |b: u8| crate::shim::plain_op(b);
    let ops = crate::shim::stream_ops(m, bytes);
    crate::shim::lemma_plain_ascii_ops(m, bytes);
    lemma_plain_bytes_text(bytes);
    assert(forall|i: int|
        0 <= i < bytes.map_values(g).len() ==> !is_style_op(#[trigger] bytes.map_values(g)[i]));
    lemma_plain_ops_render(Seq::empty(), bytes.map_values(g));
    assert(Seq::<TermOp>::empty() + bytes.map_values(g) =~= bytes.map_values(g));
}


/// The document text of printable characters: each one rendered by
/// [`escape_text`].
pub open spec fn escaped_chars_text(chars: Seq<char>) -> Seq<char>
    decreases chars.len(),
{
    if chars.len() == 0 {
        Seq::empty()
    } else {
        escaped_chars_text(chars.drop_last()) + escape_text(chars.last())
    }
}

/// The per-operation text of the plain-text operations of a character
/// sequence is its escaped text; a C0 control passes through raw and stands
/// for itself under [`escape_text`] as well.
proof fn lemma_escaped_chars_text(chars: Seq<char>)
    ensures
        plain_ops_text(chars.map_values(|c: char| crate::shim::char_op(c))) == escaped_chars_text(
            chars,
        ),
    decreases chars.len(),
{
    let g = |c: char| crate::shim::char_op(c);
    if chars.len() == 0 {
        assert(chars.map_values(g) =~= Seq::<TermOp>::empty());
    } else {
        lemma_escaped_chars_text(chars.drop_last());
        let c = chars.last();
        if (c as u32) < 0x20 {
            assert(escape_text(c) =~= seq![c]);
        }
        assert(chars.map_values(g) =~= chars.drop_last().map_values(g).push(g(c)));
        assert(chars.map_values(g).drop_last() =~= chars.drop_last().map_values(g));
        assert(plain_ops_text(chars.map_values(g)) =~= escaped_chars_text(chars));
    }
}

/// Plain-text identity for the markup backend over UTF-8 input: a fresh
/// pipeline fed the encoding of text holding no escape character yields the
/// document prologue, the default region, and the text itself, each
/// character rendered by [`escape_text`] — so, entities aside, the output
/// text equals the input.
pub proof fn lemma_utf8_text_identity_markup(chars: Seq<char>)
    requires
        forall|i: int| 0 <= i < chars.len() ==> chars[i] as u32 != 0x1B,
    ensures
        ({
            let ops = crate::shim::stream_ops(
                crate::decoder::ground_model(),
                vstd::utf8::encode_utf8(chars),
            );
            html_trace(ops).out == header_text() + span_open_text(RenderState::spec_default())
                + escaped_chars_text(chars)
        }),
{
    let g = |c: char| crate::shim::char_op(c);
    crate::shim::lemma_utf8_plain_ops(crate::decoder::ground_model(), chars);
    lemma_escaped_chars_text(chars);
    assert(forall|i: int|
        0 <= i < chars.map_values(g).len() ==> !is_style_op(#[trigger] chars.map_values(g)[i]));
    lemma_plain_ops_render(Seq::empty(), chars.map_values(g));
    assert(Seq::<TermOp>::empty() + chars.map_values(g) =~= chars.map_values(g));
}

} // verus!
