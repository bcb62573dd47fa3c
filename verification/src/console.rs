//! The console backend: renders the operation stream as a list of console
//! commands — text writes and read-modify-write updates of the console's
//! attribute word. The caller executes each update against the console's
//! live word, so attribute changes made from outside are respected.

use vstd::prelude::*;

use crate::color::Color;
use crate::color::Style;
use crate::color::StyleSet;
use crate::state::RenderState;
use crate::state::TermOp;
use crate::state::apply_ops;
use crate::state::lemma_apply_ops_snoc;
use crate::terminal::Terminal;

verus! {

/// The intensity bit of the foreground nibble of a console attribute word.
pub const FG_INTENSITY: u16 = 0x08;

/// The foreground nibble of a console attribute word.
pub const FG_MASK: u16 = 0x0F;

/// The background nibble of a console attribute word.
pub const BG_MASK: u16 = 0xF0;

/// The default attribute word: plain white on black, no intensity.
pub const DEFAULT_ATTRS: u16 = 0x07;

/// The red/green/blue half of a color's foreground bits: the hue encodes as
/// blue, green and red bits.
pub open spec fn hue_bits(c: Color) -> u16 {
    match c.spec_normal() {
        Color::Black => 0x00,
        Color::Blue => 0x01,
        Color::Green => 0x02,
        Color::Cyan => 0x03,
        Color::Red => 0x04,
        Color::Magenta => 0x05,
        Color::Yellow => 0x06,
        _ => 0x07,
    }
}

/// A color's foreground bits: its hue bits, plus the intensity bit for the
/// bright half.
pub open spec fn fg_bits(c: Color) -> u16 {
    (hue_bits(c) + if c.is_bright() {
        FG_INTENSITY
    } else {
        0u16
    }) as u16
}

/// A color's background bits: the foreground bits shifted into the
/// background nibble.
pub open spec fn bg_bits(c: Color) -> u16 {
    (fg_bits(c) * 16) as u16
}

/// One read-modify-write of the console attribute word: the live word's
/// `clear` bits are cleared, then the `set` bits are set.
#[derive(Copy, Clone, Debug, PartialEq, Eq, Structural)]
pub struct AttrUpdate {
    pub clear: u16,
    pub set: u16,
}

/// The word an update turns the live attribute word into.
pub open spec fn updated_attrs(live: u16, update: AttrUpdate) -> u16 {
    (live & !update.clear) | update.set
}

/// Applies one attribute update to a live attribute word.
pub fn apply_update(live: u16, update: AttrUpdate) -> (r: u16)
    ensures
        r == updated_attrs(live, update),
{
    (live & !update.clear) | update.set
}

/// One console command: write one character, or update the attribute word.
/// Text always precedes the attribute updates issued after it, so attribute
/// changes never bleed into earlier text.
#[derive(Copy, Clone, Debug, PartialEq, Eq, Structural)]
pub enum ConsoleCmd {
    Text(char),
    SetAttrs(AttrUpdate),
}

/// The commands one operation issues, given the render state it finds.
/// Colors rewrite their nibble — the foreground together with the intensity
/// bit, which carries the bold flag; a reset rewrites the whole word to the
/// default; bold and faint set and clear the intensity bit. Other styles
/// have no console-attribute equivalent and issue nothing: they are
/// accepted, recorded in the render state, and produce no visible effect.
pub open spec fn cmds_of_op(st: RenderState, op: TermOp) -> Seq<ConsoleCmd> {
    match op {
        TermOp::Print(c) => seq![ConsoleCmd::Text(c)],
        TermOp::Raw(c) => seq![ConsoleCmd::Text(c)],
        TermOp::SetFg(c) => seq![
            ConsoleCmd::SetAttrs(
                AttrUpdate {
                    clear: FG_MASK,
                    set: fg_bits(c) | (if st.bold {
                        FG_INTENSITY
                    } else {
                        0u16
                    }),
                },
            ),
        ],
        TermOp::SetBg(c) => seq![
            ConsoleCmd::SetAttrs(AttrUpdate { clear: BG_MASK, set: bg_bits(c) }),
        ],
        TermOp::Reset => seq![
            ConsoleCmd::SetAttrs(AttrUpdate { clear: 0xFFFF, set: DEFAULT_ATTRS }),
        ],
        TermOp::AddStyle(style) => match style {
            Style::Bold => seq![
                ConsoleCmd::SetAttrs(AttrUpdate { clear: 0u16, set: FG_INTENSITY }),
            ],
            Style::Faint => seq![
                ConsoleCmd::SetAttrs(AttrUpdate { clear: FG_INTENSITY, set: 0u16 }),
            ],
            _ => Seq::empty(),
        },
    }
}

/// The command list a history of operations issues, threading the render
/// state each operation finds.
pub open spec fn console_cmds(ops: Seq<TermOp>) -> Seq<ConsoleCmd>
    decreases ops.len(),
{
    if ops.len() == 0 {
        Seq::empty()
    } else {
        console_cmds(ops.drop_last()) + cmds_of_op(
            apply_ops(RenderState::spec_default(), ops.drop_last()),
            ops.last(),
        )
    }
}

/// The console backend. It records the commands to perform; the caller
/// drains them with [`ConsoleTerm::commands`] or
/// [`ConsoleTerm::into_commands`] and executes them against the live
/// console.
pub struct ConsoleTerm {
    state: RenderState,
    cmds: Vec<ConsoleCmd>,
    history: Ghost<Seq<TermOp>>,
}

impl ConsoleTerm {
    /// The render state tracked alongside the command list.
    pub closed spec fn render_state(&self) -> RenderState {
        self.state
    }

    /// Constructs a backend with an empty command list, assuming the console
    /// starts in the default state.
    pub fn new() -> (t: ConsoleTerm)
        ensures
            t.inv(),
            t.ops() == Seq::<TermOp>::empty(),
    {
        let t = ConsoleTerm {
            state: RenderState {
                fg: Color::White,
                bg: Color::Black,
                bold: false,
                styles: StyleSet::empty(),
            },
            cmds: Vec::new(),
            history: Ghost(Seq::empty()),
        };
        t
    }

    /// The commands recorded so far.
    pub fn commands(&self) -> (r: &Vec<ConsoleCmd>)
        requires
            self.inv(),
        ensures
            r@ == console_cmds(self.ops()),
    {
        &self.cmds
    }

    /// Hands the recorded commands back, consuming the backend.
    pub fn into_commands(self) -> (r: Vec<ConsoleCmd>)
        requires
            self.inv(),
        ensures
            r@ == console_cmds(self.ops()),
    {
        self.cmds
    }

    /// Writes one character; text is ordered before any later attribute
    /// update.
    pub fn print(&mut self, ch: char)
        requires
            old(self).inv(),
        ensures
            final(self).inv(),
            final(self).ops() == old(self).ops().push(TermOp::Print(ch)),
    {
        let ghost h0 = self.history@;
        self.cmds.push(ConsoleCmd::Text(ch));
        self.history = Ghost(h0.push(TermOp::Print(ch)));
        proof {
            assert(h0.push(TermOp::Print(ch)).drop_last() =~= h0);
            lemma_apply_ops_snoc(RenderState::spec_default(), h0, TermOp::Print(ch));
            assert(self.cmds@ =~= console_cmds(self.history@));
        }
    }

    /// Writes one control character verbatim.
    pub fn write_raw(&mut self, ch: char)
        requires
            old(self).inv(),
        ensures
            final(self).inv(),
            final(self).ops() == old(self).ops().push(TermOp::Raw(ch)),
    {
        let ghost h0 = self.history@;
        self.cmds.push(ConsoleCmd::Text(ch));
        self.history = Ghost(h0.push(TermOp::Raw(ch)));
        proof {
            assert(h0.push(TermOp::Raw(ch)).drop_last() =~= h0);
            lemma_apply_ops_snoc(RenderState::spec_default(), h0, TermOp::Raw(ch));
            assert(self.cmds@ =~= console_cmds(self.history@));
        }
    }

    /// Replaces the foreground: the foreground nibble is rewritten from the
    /// new hue and the current bold flag, leaving the background untouched.
    pub fn set_fg_color(&mut self, color: Color)
        requires
            old(self).inv(),
        ensures
            final(self).inv(),
            final(self).ops() == old(self).ops().push(TermOp::SetFg(color)),
    {
        let ghost h0 = self.history@;
        let op = TermOp::SetFg(color);
        let bits = fg_attr_bits(color) | (if self.state.bold {
            FG_INTENSITY
        } else {
            0u16
        });
        self.cmds.push(ConsoleCmd::SetAttrs(AttrUpdate { clear: FG_MASK, set: bits }));
        self.state = RenderState { fg: color, ..self.state };
        self.history = Ghost(h0.push(op));
        proof {
            assert(h0.push(op).drop_last() =~= h0);
            lemma_apply_ops_snoc(RenderState::spec_default(), h0, op);
            assert(self.cmds@ =~= console_cmds(self.history@));
        }
    }

    /// Replaces the background: the background nibble is rewritten, leaving
    /// the foreground untouched.
    pub fn set_bg_color(&mut self, color: Color)
        requires
            old(self).inv(),
        ensures
            final(self).inv(),
            final(self).ops() == old(self).ops().push(TermOp::SetBg(color)),
    {
        let ghost h0 = self.history@;
        let op = TermOp::SetBg(color);
        let bits = bg_attr_bits(color);
        self.cmds.push(ConsoleCmd::SetAttrs(AttrUpdate { clear: BG_MASK, set: bits }));
        self.state = RenderState { bg: color, ..self.state };
        self.history = Ghost(h0.push(op));
        proof {
            assert(h0.push(op).drop_last() =~= h0);
            lemma_apply_ops_snoc(RenderState::spec_default(), h0, op);
            assert(self.cmds@ =~= console_cmds(self.history@));
        }
    }

    /// Resets the attribute word to the default and the render state with
    /// it.
    pub fn reset_style(&mut self)
        requires
            old(self).inv(),
        ensures
            final(self).inv(),
            final(self).ops() == old(self).ops().push(TermOp::Reset),
    {
        let ghost h0 = self.history@;
        self.cmds.push(ConsoleCmd::SetAttrs(AttrUpdate { clear: 0xFFFF, set: DEFAULT_ATTRS }));
        self.state = RenderState {
            fg: Color::White,
            bg: Color::Black,
            bold: false,
            styles: StyleSet::empty(),
        };
        self.history = Ghost(h0.push(TermOp::Reset));
        proof {
            assert(h0.push(TermOp::Reset).drop_last() =~= h0);
            lemma_apply_ops_snoc(RenderState::spec_default(), h0, TermOp::Reset);
            assert(self.cmds@ =~= console_cmds(self.history@));
        }
    }

    /// Adds one style attribute: bold sets the intensity bit, faint clears
    /// it; every other style is recorded but has no console-attribute
    /// equivalent and issues no command.
    pub fn add_style(&mut self, style: Style)
        requires
            old(self).inv(),
        ensures
            final(self).inv(),
            final(self).ops() == old(self).ops().push(TermOp::AddStyle(style)),
    {
        let ghost h0 = self.history@;
        let op = TermOp::AddStyle(style);
        match style {
            Style::Bold => {
                self.cmds.push(ConsoleCmd::SetAttrs(AttrUpdate { clear: 0u16, set: FG_INTENSITY }));
                self.state = RenderState { bold: true, ..self.state };
            },
            Style::Faint => {
                self.cmds.push(ConsoleCmd::SetAttrs(AttrUpdate { clear: FG_INTENSITY, set: 0u16 }));
                self.state = RenderState { bold: false, ..self.state };
            },
            _ => {
                self.state = RenderState { styles: self.state.styles.insert(style), ..self.state };
            },
        }
        self.history = Ghost(h0.push(op));
        proof {
            assert(h0.push(op).drop_last() =~= h0);
            lemma_apply_ops_snoc(RenderState::spec_default(), h0, op);
            assert(self.cmds@ =~= console_cmds(self.history@));
        }
    }

    /// Dispatches one operation to the named methods.
    fn apply_op(&mut self, op: TermOp)
        requires
            old(self).inv(),
        ensures
            final(self).inv(),
            final(self).history@ == old(self).history@.push(op),
    {
        match op {
            TermOp::Print(c) => self.print(c),
            TermOp::Raw(c) => self.write_raw(c),
            TermOp::SetFg(color) => self.set_fg_color(color),
            TermOp::SetBg(color) => self.set_bg_color(color),
            TermOp::Reset => self.reset_style(),
            TermOp::AddStyle(style) => self.add_style(style),
        }
    }
}

impl Terminal for ConsoleTerm {
    /// The recorded operation history.
    closed spec fn ops(&self) -> Seq<TermOp> {
        self.history@
    }

    /// The tracked render state and the command list agree with the recorded
    /// history.
    closed spec fn inv(&self) -> bool {
        &&& self.state == apply_ops(RenderState::spec_default(), self.history@)
        &&& self.cmds@ == console_cmds(self.history@)
    }

    fn apply(&mut self, op: TermOp) {
        self.apply_op(op);
    }
}

/// A color's foreground bits.
fn fg_attr_bits(color: Color) -> (r: u16)
    ensures
        r == fg_bits(color),
{
    match color {
        Color::Black => 0x00,
        Color::Red => 0x04,
        Color::Green => 0x02,
        Color::Yellow => 0x06,
        Color::Blue => 0x01,
        Color::Magenta => 0x05,
        Color::Cyan => 0x03,
        Color::White => 0x07,
        Color::BrightBlack => 0x08,
        Color::BrightRed => 0x0C,
        Color::BrightGreen => 0x0A,
        Color::BrightYellow => 0x0E,
        Color::BrightBlue => 0x09,
        Color::BrightMagenta => 0x0D,
        Color::BrightCyan => 0x0B,
        Color::BrightWhite => 0x0F,
    }
}

/// A color's background bits.
fn bg_attr_bits(color: Color) -> (r: u16)
    ensures
        r == bg_bits(color),
{
    match color {
        Color::Black => 0x00,
        Color::Red => 0x40,
        Color::Green => 0x20,
        Color::Yellow => 0x60,
        Color::Blue => 0x10,
        Color::Magenta => 0x50,
        Color::Cyan => 0x30,
        Color::White => 0x70,
        Color::BrightBlack => 0x80,
        Color::BrightRed => 0xC0,
        Color::BrightGreen => 0xA0,
        Color::BrightYellow => 0xE0,
        Color::BrightBlue => 0x90,
        Color::BrightMagenta => 0xD0,
        Color::BrightCyan => 0xB0,
        Color::BrightWhite => 0xF0,
    }
}

/// The render state a console backend tracks is exactly the fold of its
/// recorded history over the default state.
pub proof fn lemma_console_state_from_history(t: &ConsoleTerm)
    requires
        t.inv(),
    ensures
        t.render_state() == crate::terminal::term_state(t),
{
}

/// Bold realizes the bright foreground: for a base hue, the foreground bits
/// written while the bold flag is set are exactly the bits of the hue's
/// bright variant.
pub proof fn lemma_console_bold_is_bright(c: Color)
    requires
        !c.is_bright(),
    ensures
        fg_bits(c) | FG_INTENSITY == fg_bits(c.spec_bright()),
{
    crate::color::lemma_color_brightness_involution(c);
    let h = fg_bits(c);
    assert(h < 8);
    assert(h < 8 ==> (h | 0x08u16) == h + 8) by (bit_vector);
}

/// The text a run of printing operations writes to the console.
pub open spec fn plain_cmds(bytes: Seq<u8>) -> Seq<ConsoleCmd>
    decreases bytes.len(),
{
    if bytes.len() == 0 {
        Seq::empty()
    } else {
        plain_cmds(bytes.drop_last()).push(ConsoleCmd::Text(bytes.last() as char))
    }
}

/// Plain-text identity for the console backend: ESC-free ASCII input issues
/// exactly one text command per byte, carrying that byte's character, and no
/// attribute update.
pub proof fn lemma_plain_text_identity_console(bytes: Seq<u8>)
    requires
        forall|i: int| 0 <= i < bytes.len() ==> bytes[i] != 0x1B && bytes[i] < 0x80,
    ensures
        console_cmds(crate::shim::stream_ops(crate::decoder::ground_model(), bytes)) == plain_cmds(
            bytes,
        ),
{
    crate::shim::lemma_plain_ascii_ops(crate::decoder::ground_model(), bytes);
    lemma_plain_ops_cmds(bytes);
}

/// The command list of the plain operations of a byte sequence is one text
/// command per byte.
proof fn lemma_plain_ops_cmds(bytes: Seq<u8>)
    ensures
        console_cmds(bytes.map_values(|b: u8| crate::shim::plain_op(b))) == plain_cmds(bytes),
    decreases bytes.len(),
{
    let g = |b: u8| crate::shim::plain_op(b);
    if bytes.len() == 0 {
        assert(bytes.map_values(g) =~= Seq::<TermOp>::empty());
    } else {
        lemma_plain_ops_cmds(bytes.drop_last());
        assert(bytes.map_values(g) =~= bytes.drop_last().map_values(g).push(g(bytes.last())));
        assert(bytes.map_values(g).drop_last() =~= bytes.drop_last().map_values(g));
        assert(console_cmds(bytes.map_values(g)) =~= plain_cmds(bytes));
    }
}


/// The console commands of printable text: one text write per character.
pub open spec fn text_cmds(chars: Seq<char>) -> Seq<ConsoleCmd>
    decreases chars.len(),
{
    if chars.len() == 0 {
        Seq::empty()
    } else {
        text_cmds(chars.drop_last()).push(ConsoleCmd::Text(chars.last()))
    }
}

/// The command list of the plain-text operations of a character sequence is
/// one text command per character.
proof fn lemma_text_cmds(chars: Seq<char>)
    ensures
        console_cmds(chars.map_values(|c: char| crate::shim::char_op(c))) == text_cmds(chars),
    decreases chars.len(),
{
    let g = |c: char| crate::shim::char_op(c);
    if chars.len() == 0 {
        assert(chars.map_values(g) =~= Seq::<TermOp>::empty());
    } else {
        lemma_text_cmds(chars.drop_last());
        assert(chars.map_values(g) =~= chars.drop_last().map_values(g).push(g(chars.last())));
        assert(chars.map_values(g).drop_last() =~= chars.drop_last().map_values(g));
        assert(console_cmds(chars.map_values(g)) =~= text_cmds(chars));
    }
}

/// Plain-text identity for the console backend over UTF-8 input: the
/// encoding of text holding no escape character issues exactly one text
/// command per character and no attribute update.
pub proof fn lemma_utf8_text_identity_console(chars: Seq<char>)
    requires
        forall|i: int| 0 <= i < chars.len() ==> chars[i] as u32 != 0x1B,
    ensures
        console_cmds(
            crate::shim::stream_ops(
                crate::decoder::ground_model(),
                vstd::utf8::encode_utf8(chars),
            ),
        ) == text_cmds(chars),
{
    crate::shim::lemma_utf8_plain_ops(crate::decoder::ground_model(), chars);
    lemma_text_cmds(chars);
}

} // verus!
