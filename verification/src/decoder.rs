//! The incremental byte-stream decoder: a finite-state machine that
//! classifies each input byte exactly once and emits typed parse events.
//!
//! States: `Ground` (printable bytes print, C0 controls execute), `Escape`
//! (after ESC, awaiting a classifying byte), `CsiCollect` (after `ESC [`,
//! accumulating parameters and intermediates until a final byte), and
//! `StringIgnore` (OSC/DCS-style string sequences, consumed without events
//! until BEL or `ESC \`). A fifth state, `Utf8Collect`, gathers the
//! continuation bytes of a multi-byte UTF-8 scalar so that printable text is
//! decoded to characters.
//!
//! Resynchronization policy: a parameter buffer exceeding [`CSI_BYTE_CAP`]
//! collected bytes makes the pending sequence malformed; it is discarded with
//! no event and classification resumes in `Ground` from the next byte. A
//! non-continuation byte inside a pending UTF-8 scalar likewise discards the
//! incomplete scalar and is itself reclassified in `Ground`, so no control
//! byte is ever swallowed.

use vstd::prelude::*;

use vstd::utf8::char_is_scalar;
use vstd::utf8::char_u32_cast;
use vstd::utf8::encode_scalar;
use vstd::utf8::encode_utf8;
use vstd::utf8::has_width_1_encoding;
use vstd::utf8::has_width_2_encoding;
use vstd::utf8::has_width_3_encoding;
use vstd::utf8::is_scalar;
use vstd::utf8::last_continuation_byte;
use vstd::utf8::leading_byte_width_1;
use vstd::utf8::leading_byte_width_2;
use vstd::utf8::leading_byte_width_3;
use vstd::utf8::leading_byte_width_4;
use vstd::utf8::second_last_continuation_byte;
use vstd::utf8::third_last_continuation_byte;

verus! {

/// The most parameter and intermediate bytes one CSI sequence may collect
/// before it is treated as malformed and discarded.
pub const CSI_BYTE_CAP: usize = 64;

/// Accumulated SGR parameter values saturate here; every recognized SGR value
/// lies well below this limit, so saturation only affects values that are
/// ignored anyway.
pub const PARAM_LIMIT: u16 = 1000;

/// The decoder's control state.
#[derive(Copy, Clone, Debug, PartialEq, Eq, Structural)]
pub enum DecState {
    /// Default state: bytes are plain output or C0 controls.
    Ground,
    /// An ESC byte was seen; the next byte classifies the sequence.
    Escape,
    /// Inside `ESC [`: collecting parameter and intermediate bytes.
    CsiCollect,
    /// Inside an OSC/DCS-style string sequence: consuming without events.
    StringIgnore,
    /// Collecting the continuation bytes of one UTF-8 scalar.
    Utf8Collect { need: u8, acc: u32 },
}

/// The decoder's full abstract state.
pub struct DecModel {
    pub state: DecState,
    pub params: Seq<u16>,
    pub cur: u16,
    pub inters: Seq<u8>,
    pub count: nat,
}

/// The upper bound kept on the UTF-8 accumulator while `need` continuation
/// bytes are still missing; it shrinks as bytes arrive so that the shift-in
/// arithmetic can never overflow.
pub open spec fn utf8_acc_bound(need: u8) -> int {
    if need == 3 {
        0x20
    } else if need == 2 {
        0x800
    } else {
        0x20000
    }
}

impl DecModel {
    /// Well-formedness: all accumulators within their bounds. Every stored
    /// parameter and intermediate consumed at least one counted byte, so the
    /// byte cap bounds both buffers.
    pub open spec fn wf(self) -> bool {
        &&& self.cur <= PARAM_LIMIT
        &&& self.params.len() <= self.count
        &&& self.inters.len() <= self.count
        &&& self.count <= CSI_BYTE_CAP
        &&& match self.state {
            DecState::Utf8Collect { need, acc } => 1 <= need <= 3 && acc < utf8_acc_bound(need),
            _ => true,
        }
    }
}

/// The state of a freshly constructed decoder.
pub open spec fn ground_model() -> DecModel {
    DecModel {
        state: DecState::Ground,
        params: Seq::empty(),
        cur: 0,
        inters: Seq::empty(),
        count: 0,
    }
}

/// A typed parse event, at the specification level.
pub enum EventModel {
    /// One decoded printable character.
    Print(char),
    /// One C0 control byte outside any sequence, passed through verbatim.
    Execute(u8),
    /// One complete control sequence: parameters, intermediates, final byte.
    Csi { params: Seq<u16>, inters: Seq<u8>, fin: u8 },
}

/// One complete CSI sequence as produced by the decoder.
#[derive(Debug, PartialEq)]
pub struct CsiSeq {
    pub params: Vec<u16>,
    pub inters: Vec<u8>,
    pub fin: u8,
}

/// A typed parse event.
#[derive(Debug, PartialEq)]
pub enum Event {
    Print(char),
    Execute(u8),
    Csi(CsiSeq),
}

impl View for Event {
    type V = EventModel;

    open spec fn view(&self) -> EventModel {
        match self {
            Event::Print(c) => EventModel::Print(*c),
            Event::Execute(b) => EventModel::Execute(*b),
            Event::Csi(cs) => EventModel::Csi {
                params: cs.params@,
                inters: cs.inters@,
                fin: cs.fin,
            },
        }
    }
}

/// The character a completed UTF-8 accumulation decodes to: the scalar itself
/// when valid, the replacement character otherwise.
pub open spec fn decoded_char(v: u32) -> char {
    if is_scalar(v) {
        v as char
    } else {
        '\u{FFFD}'
    }
}

/// One parameter digit folded into the running value, saturating at
/// [`PARAM_LIMIT`].
pub open spec fn sat_param(cur: u16, d: u16) -> u16 {
    if cur * 10 + d > PARAM_LIMIT {
        PARAM_LIMIT
    } else {
        (cur * 10 + d) as u16
    }
}

/// One transition from `Ground`.
pub open spec fn step_ground(m: DecModel, b: u8) -> (DecModel, Option<EventModel>) {
    if b == 0x1B {
        (DecModel { state: DecState::Escape, ..m }, None)
    } else if b < 0x20 {
        (m, Some(EventModel::Execute(b)))
    } else if b < 0x80 {
        (m, Some(EventModel::Print(b as char)))
    } else if 0xC0 <= b && b <= 0xDF {
        (DecModel { state: DecState::Utf8Collect { need: 1, acc: (b & 0x1F) as u32 }, ..m }, None)
    } else if 0xE0 <= b && b <= 0xEF {
        (DecModel { state: DecState::Utf8Collect { need: 2, acc: (b & 0x0F) as u32 }, ..m }, None)
    } else if 0xF0 <= b && b <= 0xF7 {
        (DecModel { state: DecState::Utf8Collect { need: 3, acc: (b & 0x07) as u32 }, ..m }, None)
    } else {
        // A stray continuation byte or an invalid lead byte.
        (m, Some(EventModel::Print('\u{FFFD}')))
    }
}

/// One transition from `Escape`.
pub open spec fn step_escape(m: DecModel, b: u8) -> (DecModel, Option<EventModel>) {
    if b == 0x5B {
        (
            DecModel {
                state: DecState::CsiCollect,
                params: Seq::empty(),
                cur: 0,
                inters: Seq::empty(),
                count: 0,
            },
            None,
        )
    } else if b == 0x50 || b == 0x58 || b == 0x5D || b == 0x5E || b == 0x5F {
        // DCS, SOS, OSC, PM, APC: string sequences, consumed without events.
        (DecModel { state: DecState::StringIgnore, ..m }, None)
    } else if b == 0x1B {
        (m, None)
    } else {
        // Any other escape sequence is recognized and dropped.
        (DecModel { state: DecState::Ground, ..m }, None)
    }
}

/// One transition from `CsiCollect`.
pub open spec fn step_csi(m: DecModel, b: u8) -> (DecModel, Option<EventModel>) {
    if b == 0x1B {
        (DecModel { state: DecState::Escape, ..m }, None)
    } else if 0x30 <= b && b <= 0x39 {
        if m.count >= CSI_BYTE_CAP {
            (DecModel { state: DecState::Ground, ..m }, None)
        } else {
            (
                DecModel { cur: sat_param(m.cur, (b - 0x30) as u16), count: m.count + 1, ..m },
                None,
            )
        }
    } else if b == 0x3B {
        if m.count >= CSI_BYTE_CAP {
            (DecModel { state: DecState::Ground, ..m }, None)
        } else {
            (DecModel { params: m.params.push(m.cur), cur: 0, count: m.count + 1, ..m }, None)
        }
    } else if 0x3A <= b && b <= 0x3F {
        // Private parameter markers: consumed without effect.
        (m, None)
    } else if 0x20 <= b && b <= 0x2F {
        if m.count >= CSI_BYTE_CAP {
            (DecModel { state: DecState::Ground, ..m }, None)
        } else {
            (DecModel { inters: m.inters.push(b), count: m.count + 1, ..m }, None)
        }
    } else if 0x40 <= b && b <= 0x7E {
        (
            ground_model(),
            Some(EventModel::Csi { params: m.params.push(m.cur), inters: m.inters, fin: b }),
        )
    } else {
        // C0 controls and other bytes inside a sequence: consumed silently.
        (m, None)
    }
}

/// One transition from `StringIgnore`.
pub open spec fn step_string(m: DecModel, b: u8) -> (DecModel, Option<EventModel>) {
    if b == 0x07 {
        (DecModel { state: DecState::Ground, ..m }, None)
    } else if b == 0x1B {
        // `ESC \` terminates via the Escape state; any other escape likewise
        // leaves the string.
        (DecModel { state: DecState::Escape, ..m }, None)
    } else {
        (m, None)
    }
}

/// One transition from `Utf8Collect`.
pub open spec fn step_utf8(m: DecModel, need: u8, acc: u32, b: u8) -> (
    DecModel,
    Option<EventModel>,
) {
    if 0x80 <= b && b <= 0xBF {
        let v = (acc * 64 + (b & 0x3F)) as u32;
        if need == 1 {
            (DecModel { state: DecState::Ground, ..m }, Some(EventModel::Print(decoded_char(v))))
        } else {
            (
                DecModel { state: DecState::Utf8Collect { need: (need - 1) as u8, acc: v }, ..m },
                None,
            )
        }
    } else {
        // The pending scalar is incomplete: drop it and reclassify this byte.
        step_ground(DecModel { state: DecState::Ground, ..m }, b)
    }
}

/// One transition of the decoder: the next state and at most one event.
pub open spec fn step(m: DecModel, b: u8) -> (DecModel, Option<EventModel>) {
    match m.state {
        DecState::Ground => step_ground(m, b),
        DecState::Escape => step_escape(m, b),
        DecState::CsiCollect => step_csi(m, b),
        DecState::StringIgnore => step_string(m, b),
        DecState::Utf8Collect { need, acc } => step_utf8(m, need, acc, b),
    }
}

/// Folds [`step`] over a whole byte sequence, collecting the emitted events.
pub open spec fn run(m: DecModel, bytes: Seq<u8>) -> (DecModel, Seq<EventModel>)
    decreases bytes.len(),
{
    if bytes.len() == 0 {
        (m, Seq::empty())
    } else {
        let (m1, evs) = run(m, bytes.drop_last());
        let (m2, ev) = step(m1, bytes.last());
        (
            m2,
            match ev {
                Some(e) => evs.push(e),
                None => evs,
            },
        )
    }
}

/// Running a concatenation runs the two parts in turn.
pub proof fn lemma_run_concat(m: DecModel, a: Seq<u8>, b: Seq<u8>)
    ensures
        run(m, a + b).0 == run(run(m, a).0, b).0,
        run(m, a + b).1 == run(m, a).1 + run(run(m, a).0, b).1,
    decreases b.len(),
{
    if b.len() == 0 {
        assert(a + b =~= a);
        assert(run(m, a).1 + run(run(m, a).0, b).1 =~= run(m, a).1);
    } else {
        lemma_run_concat(m, a, b.drop_last());
        assert((a + b).drop_last() =~= a + b.drop_last());
        assert((a + b).last() == b.last());
        let m1 = run(run(m, a).0, b).0;
        match step(run(run(m, a).0, b.drop_last()).0, b.last()).1 {
            Some(e) => {
                assert(run(m, a).1 + run(run(m, a).0, b).1 =~= (run(m, a).1 + run(
                    run(m, a).0,
                    b.drop_last(),
                ).1).push(e));
            },
            None => {},
        }
    }
}

/// Relies on `char::from_u32`: returns `Some` exactly for Unicode scalar
/// values (at most 0x10FFFF and not a surrogate), which convert losslessly.
#[verifier::external_body]
fn char_from_u32(v: u32) -> (r: Option<char>)
    ensures
        r == if is_scalar(v) {
            Some(v as char)
        } else {
            None::<char>
        },
{
    char::from_u32(v)
}

/// The incremental decoder. Feed it one byte at a time; each byte yields at
/// most one event, and malformed input only ever discards the pending
/// sequence before classification resumes.
pub struct Decoder {
    state: DecState,
    params: Vec<u16>,
    cur: u16,
    inters: Vec<u8>,
    count: usize,
}

impl View for Decoder {
    type V = DecModel;

    closed spec fn view(&self) -> DecModel {
        DecModel {
            state: self.state,
            params: self.params@,
            cur: self.cur,
            inters: self.inters@,
            count: self.count as nat,
        }
    }
}

impl Decoder {
    /// Constructs a decoder in the `Ground` state.
    pub fn new() -> (d: Decoder)
        ensures
            d@ == ground_model(),
            d@.wf(),
    {
        let d = Decoder {
            state: DecState::Ground,
            params: Vec::new(),
            cur: 0,
            inters: Vec::new(),
            count: 0,
        };
        proof {
            assert(d@ =~= ground_model());
        }
        d
    }

    /// Consumes one byte and returns the event it completes, if any; the
    /// transition taken is exactly [`step`].
    pub fn advance(&mut self, b: u8) -> (r: Option<Event>)
        requires
            old(self)@.wf(),
        ensures
            final(self)@.wf(),
            final(self)@ == step(old(self)@, b).0,
            match r {
                Some(e) => step(old(self)@, b).1 == Some(e@),
                None => step(old(self)@, b).1 is None,
            },
    {
        let st = self.state;
        match st {
            DecState::Ground => self.advance_ground(b),
            DecState::Escape => self.advance_escape(b),
            DecState::CsiCollect => self.advance_csi(b),
            DecState::StringIgnore => self.advance_string(b),
            DecState::Utf8Collect { need, acc } => self.advance_utf8(need, acc, b),
        }
    }

    fn advance_ground(&mut self, b: u8) -> (r: Option<Event>)
        requires
            old(self)@.wf(),
            old(self)@.state == DecState::Ground,
        ensures
            final(self)@.wf(),
            final(self)@ == step_ground(old(self)@, b).0,
            match r {
                Some(e) => step_ground(old(self)@, b).1 == Some(e@),
                None => step_ground(old(self)@, b).1 is None,
            },
    {
        if b == 0x1B {
            self.state = DecState::Escape;
            None
        } else if b < 0x20 {
            Some(Event::Execute(b))
        } else if b < 0x80 {
            Some(Event::Print(b as char))
        } else if 0xC0 <= b && b <= 0xDF {
            proof {
                assert(b & 0x1F < 0x20) by (bit_vector);
            }
            self.state = DecState::Utf8Collect { need: 1, acc: (b & 0x1F) as u32 };
            None
        } else if 0xE0 <= b && b <= 0xEF {
            proof {
                assert(b & 0x0F < 0x10) by (bit_vector);
            }
            self.state = DecState::Utf8Collect { need: 2, acc: (b & 0x0F) as u32 };
            None
        } else if 0xF0 <= b && b <= 0xF7 {
            proof {
                assert(b & 0x07 < 0x08) by (bit_vector);
            }
            self.state = DecState::Utf8Collect { need: 3, acc: (b & 0x07) as u32 };
            None
        } else {
            Some(Event::Print('\u{FFFD}'))
        }
    }

    fn advance_escape(&mut self, b: u8) -> (r: Option<Event>)
        requires
            old(self)@.wf(),
            old(self)@.state == DecState::Escape,
        ensures
            final(self)@.wf(),
            final(self)@ == step_escape(old(self)@, b).0,
            match r {
                Some(e) => step_escape(old(self)@, b).1 == Some(e@),
                None => step_escape(old(self)@, b).1 is None,
            },
    {
        if b == 0x5B {
            self.state = DecState::CsiCollect;
            self.params.clear();
            self.cur = 0;
            self.inters.clear();
            self.count = 0;
            None
        } else if b == 0x50 || b == 0x58 || b == 0x5D || b == 0x5E || b == 0x5F {
            self.state = DecState::StringIgnore;
            None
        } else if b == 0x1B {
            None
        } else {
            self.state = DecState::Ground;
            None
        }
    }

    fn advance_csi(&mut self, b: u8) -> (r: Option<Event>)
        requires
            old(self)@.wf(),
            old(self)@.state == DecState::CsiCollect,
        ensures
            final(self)@.wf(),
            final(self)@ == step_csi(old(self)@, b).0,
            match r {
                Some(e) => step_csi(old(self)@, b).1 == Some(e@),
                None => step_csi(old(self)@, b).1 is None,
            },
    {
        if b == 0x1B {
            self.state = DecState::Escape;
            None
        } else if 0x30 <= b && b <= 0x39 {
            if self.count >= CSI_BYTE_CAP {
                self.state = DecState::Ground;
            } else {
                let d = (b - 0x30) as u16;
                let t = self.cur * 10 + d;
                self.cur = if t > PARAM_LIMIT {
                    PARAM_LIMIT
                } else {
                    t
                };
                self.count = self.count + 1;
            }
            None
        } else if b == 0x3B {
            if self.count >= CSI_BYTE_CAP {
                self.state = DecState::Ground;
            } else {
                self.params.push(self.cur);
                self.cur = 0;
                self.count = self.count + 1;
            }
            None
        } else if 0x3A <= b && b <= 0x3F {
            None
        } else if 0x20 <= b && b <= 0x2F {
            if self.count >= CSI_BYTE_CAP {
                self.state = DecState::Ground;
            } else {
                self.inters.push(b);
                self.count = self.count + 1;
            }
            None
        } else if 0x40 <= b && b <= 0x7E {
            self.params.push(self.cur);
            let mut ps: Vec<u16> = Vec::new();
            core::mem::swap(&mut ps, &mut self.params);
            let mut ins: Vec<u8> = Vec::new();
            core::mem::swap(&mut ins, &mut self.inters);
            self.cur = 0;
            self.count = 0;
            self.state = DecState::Ground;
            proof {
                assert(final(self)@ =~= ground_model());
            }
            Some(Event::Csi(CsiSeq { params: ps, inters: ins, fin: b }))
        } else {
            None
        }
    }

    fn advance_string(&mut self, b: u8) -> (r: Option<Event>)
        requires
            old(self)@.wf(),
            old(self)@.state == DecState::StringIgnore,
        ensures
            final(self)@.wf(),
            final(self)@ == step_string(old(self)@, b).0,
            match r {
                Some(e) => step_string(old(self)@, b).1 == Some(e@),
                None => step_string(old(self)@, b).1 is None,
            },
    {
        if b == 0x07 {
            self.state = DecState::Ground;
        } else if b == 0x1B {
            self.state = DecState::Escape;
        }
        None
    }

    fn advance_utf8(&mut self, need: u8, acc: u32, b: u8) -> (r: Option<Event>)
        requires
            old(self)@.wf(),
            old(self)@.state == (DecState::Utf8Collect { need, acc }),
        ensures
            final(self)@.wf(),
            final(self)@ == step_utf8(old(self)@, need, acc, b).0,
            match r {
                Some(e) => step_utf8(old(self)@, need, acc, b).1 == Some(e@),
                None => step_utf8(old(self)@, need, acc, b).1 is None,
            },
    {
        if 0x80 <= b && b <= 0xBF {
            proof {
                assert(b & 0x3F < 0x40) by (bit_vector);
            }
            let v = acc * 64 + ((b & 0x3F) as u32);
            if need == 1 {
                self.state = DecState::Ground;
                let c = match char_from_u32(v) {
                    Some(c) => c,
                    None => '\u{FFFD}',
                };
                Some(Event::Print(c))
            } else {
                self.state = DecState::Utf8Collect { need: need - 1, acc: v };
                None
            }
        } else {
            self.state = DecState::Ground;
            self.advance_ground(b)
        }
    }
}


/// Bit-level facts about a one-byte encoding as this decoder consumes it.
proof fn lemma_width_1_bits(v: u32)
    by (bit_vector)
    requires
        v <= 0x7F,
    ensures
        ({
            let b1 = leading_byte_width_1(v);
            &&& b1 < 0x80
            &&& b1 == v
        }),
{
}

/// Bit-level facts about a two-byte encoding as this decoder consumes it.
proof fn lemma_width_2_bits(v: u32)
    by (bit_vector)
    requires
        has_width_2_encoding(v),
    ensures
        ({
            let b1 = leading_byte_width_2(v);
            let b2 = last_continuation_byte(v);
            &&& 0xC0 <= b1 <= 0xDF
            &&& 0x80 <= b2 <= 0xBF
            &&& ((b1 & 0x1F) as u32) * 64 + ((b2 & 0x3F) as u32) == v
        }),
{
}

/// Bit-level facts about a three-byte encoding as this decoder consumes it.
proof fn lemma_width_3_bits(v: u32)
    by (bit_vector)
    requires
        0x800 <= v <= 0xFFFF,
    ensures
        ({
            let b1 = leading_byte_width_3(v);
            let b2 = second_last_continuation_byte(v);
            let b3 = last_continuation_byte(v);
            &&& 0xE0 <= b1 <= 0xEF
            &&& 0x80 <= b2 <= 0xBF
            &&& 0x80 <= b3 <= 0xBF
            &&& (((b1 & 0x0F) as u32) * 64 + ((b2 & 0x3F) as u32)) * 64 + ((b3 & 0x3F) as u32)
                == v
        }),
{
}

/// Bit-level facts about a four-byte encoding as this decoder consumes it.
proof fn lemma_width_4_bits(v: u32)
    by (bit_vector)
    requires
        0x10000 <= v <= 0x10FFFF,
    ensures
        ({
            let b1 = leading_byte_width_4(v);
            let b2 = third_last_continuation_byte(v);
            let b3 = second_last_continuation_byte(v);
            let b4 = last_continuation_byte(v);
            &&& 0xF0 <= b1 <= 0xF7
            &&& 0x80 <= b2 <= 0xBF
            &&& 0x80 <= b3 <= 0xBF
            &&& 0x80 <= b4 <= 0xBF
            &&& ((((b1 & 0x07) as u32) * 64 + ((b2 & 0x3F) as u32)) * 64 + ((b3 & 0x3F) as u32))
                * 64 + ((b4 & 0x3F) as u32) == v
        }),
{
}

/// The UTF-8 encoding of one plain-text character — any character but the
/// escape character — decodes back to exactly its event, with the decoder
/// state untouched.
pub proof fn lemma_scalar_round_trip(m: DecModel, c: char)
    requires
        m.state == DecState::Ground,
        c as u32 != 0x1B,
    ensures
        run(m, encode_scalar(c as u32)).0 == m,
        run(m, encode_scalar(c as u32)).1 == seq![char_event(c)],
{
    let v = c as u32;
    char_is_scalar(c);
    char_u32_cast(c, v);
    let bytes = encode_scalar(v);
    assert(run(m, Seq::<u8>::empty()).0 == m);
    if has_width_1_encoding(v) {
        let b1 = leading_byte_width_1(v);
        lemma_width_1_bits(v);
        assert(bytes =~= seq![b1]);
        assert(seq![b1].drop_last() =~= Seq::<u8>::empty());
        if v < 0x20 {
            assert(run(m, bytes).1 =~= seq![char_event(c)]);
        } else {
            assert(b1 as char == c);
            assert(run(m, bytes).1 =~= seq![char_event(c)]);
        }
    } else if has_width_2_encoding(v) {
        let b1 = leading_byte_width_2(v);
        let b2 = last_continuation_byte(v);
        lemma_width_2_bits(v);
        assert(bytes =~= seq![b1, b2]);
        assert(seq![b1].drop_last() =~= Seq::<u8>::empty());
        assert(seq![b1, b2].drop_last() =~= seq![b1]);
        let m1 = DecModel { state: DecState::Utf8Collect { need: 1, acc: (b1 & 0x1F) as u32 }, ..m };
        assert(run(m, seq![b1]).0 == m1);
        assert(run(m, seq![b1]).1 =~= Seq::<EventModel>::empty());
        assert(decoded_char(v) == c);
        assert(run(m, bytes).1 =~= seq![EventModel::Print(c)]);
    } else if has_width_3_encoding(v) {
        let b1 = leading_byte_width_3(v);
        let b2 = second_last_continuation_byte(v);
        let b3 = last_continuation_byte(v);
        lemma_width_3_bits(v);
        assert(bytes =~= seq![b1, b2, b3]);
        assert(seq![b1].drop_last() =~= Seq::<u8>::empty());
        assert(seq![b1, b2].drop_last() =~= seq![b1]);
        assert(seq![b1, b2, b3].drop_last() =~= seq![b1, b2]);
        let m1 = DecModel { state: DecState::Utf8Collect { need: 2, acc: (b1 & 0x0F) as u32 }, ..m };
        assert(run(m, seq![b1]).0 == m1);
        assert(run(m, seq![b1]).1 =~= Seq::<EventModel>::empty());
        let acc2 = (((b1 & 0x0F) as u32) * 64 + ((b2 & 0x3F) as u32)) as u32;
        let m2 = DecModel { state: DecState::Utf8Collect { need: 1, acc: acc2 }, ..m };
        assert(run(m, seq![b1, b2]).0 == m2);
        assert(run(m, seq![b1, b2]).1 =~= Seq::<EventModel>::empty());
        assert(decoded_char(v) == c);
        assert(run(m, bytes).1 =~= seq![EventModel::Print(c)]);
    } else {
        let b1 = leading_byte_width_4(v);
        let b2 = third_last_continuation_byte(v);
        let b3 = second_last_continuation_byte(v);
        let b4 = last_continuation_byte(v);
        lemma_width_4_bits(v);
        assert(bytes =~= seq![b1, b2, b3, b4]);
        assert(seq![b1].drop_last() =~= Seq::<u8>::empty());
        assert(seq![b1, b2].drop_last() =~= seq![b1]);
        assert(seq![b1, b2, b3].drop_last() =~= seq![b1, b2]);
        assert(seq![b1, b2, b3, b4].drop_last() =~= seq![b1, b2, b3]);
        let m1 = DecModel { state: DecState::Utf8Collect { need: 3, acc: (b1 & 0x07) as u32 }, ..m };
        assert(run(m, seq![b1]).0 == m1);
        assert(run(m, seq![b1]).1 =~= Seq::<EventModel>::empty());
        let acc2 = (((b1 & 0x07) as u32) * 64 + ((b2 & 0x3F) as u32)) as u32;
        let m2 = DecModel { state: DecState::Utf8Collect { need: 2, acc: acc2 }, ..m };
        assert(run(m, seq![b1, b2]).0 == m2);
        assert(run(m, seq![b1, b2]).1 =~= Seq::<EventModel>::empty());
        let acc3 = (acc2 * 64 + ((b3 & 0x3F) as u32)) as u32;
        let m3 = DecModel { state: DecState::Utf8Collect { need: 1, acc: acc3 }, ..m };
        assert(run(m, seq![b1, b2, b3]).0 == m3);
        assert(run(m, seq![b1, b2, b3]).1 =~= Seq::<EventModel>::empty());
        assert(decoded_char(v) == c);
        assert(run(m, bytes).1 =~= seq![EventModel::Print(c)]);
    }
}

/// The event one plain-text character produces: C0 control characters
/// execute, everything else prints.
pub open spec fn char_event(c: char) -> EventModel {
    if (c as u32) < 0x20 {
        EventModel::Execute((c as u32) as u8)
    } else {
        EventModel::Print(c)
    }
}

/// Plain-text identity at the decoder: the UTF-8 encoding of text holding no
/// escape character decodes to exactly one event per character — `Execute`
/// for C0 controls, `Print` for everything else — and the decoder state is
/// untouched.
pub proof fn lemma_utf8_plain_text_events(m: DecModel, chars: Seq<char>)
    requires
        m.state == DecState::Ground,
        forall|i: int| 0 <= i < chars.len() ==> chars[i] as u32 != 0x1B,
    ensures
        run(m, encode_utf8(chars)).0 == m,
        run(m, encode_utf8(chars)).1 == chars.map_values(|c: char| char_event(c)),
    decreases chars.len(),
{
    let f = |c: char| char_event(c);
    if chars.len() == 0 {
        assert(encode_utf8(chars) =~= Seq::<u8>::empty());
        assert(chars.map_values(f) =~= Seq::<EventModel>::empty());
    } else {
        let c0 = chars[0];
        lemma_scalar_round_trip(m, c0);
        lemma_utf8_plain_text_events(m, chars.drop_first());
        lemma_run_concat(m, encode_scalar(c0 as u32), encode_utf8(chars.drop_first()));
        assert(chars.map_values(f) =~= seq![f(c0)] + chars.drop_first().map_values(f));
        assert(run(m, encode_utf8(chars)).1 =~= chars.map_values(f));
    }
}

} // verus!
