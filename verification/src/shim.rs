//! The pipeline shim: raw bytes run through the decoder and the resulting
//! events are dispatched as backend operations.

use vstd::prelude::*;

use crate::decoder::DecModel;
use crate::decoder::DecState;
use crate::decoder::Decoder;
use crate::decoder::Event;
use crate::decoder::EventModel;
use crate::decoder::ground_model;
use crate::decoder::run;
use crate::decoder::step;
use crate::sgr::handle_formatting;
use crate::sgr::sgr_ops;
use crate::state::TermOp;
use crate::terminal::Terminal;

verus! {

/// The operations one parse event dispatches: prints print, C0 controls pass
/// through raw, a CSI sequence with final byte `m` is interpreted as SGR, and
/// any other control sequence is consumed without effect.
pub open spec fn event_ops(e: EventModel) -> Seq<TermOp> {
    match e {
        EventModel::Print(c) => seq![TermOp::Print(c)],
        EventModel::Execute(b) => seq![TermOp::Raw(b as char)],
        EventModel::Csi { params, fin, .. } => if fin == 0x6D {
            sgr_ops(params)
        } else {
            Seq::empty()
        },
    }
}

/// The operations of a sequence of events, in order.
pub open spec fn events_ops(es: Seq<EventModel>) -> Seq<TermOp>
    decreases es.len(),
{
    if es.len() == 0 {
        Seq::empty()
    } else {
        events_ops(es.drop_last()) + event_ops(es.last())
    }
}

/// Appending one event appends its operations.
pub proof fn lemma_events_ops_snoc(es: Seq<EventModel>, e: EventModel)
    ensures
        events_ops(es.push(e)) == events_ops(es) + event_ops(e),
{
    assert(es.push(e).drop_last() =~= es);
}

/// All operations a byte sequence dispatches when decoding starts in state
/// `m`.
pub open spec fn stream_ops(m: DecModel, bytes: Seq<u8>) -> Seq<TermOp> {
    events_ops(run(m, bytes).1)
}

/// The shim wraps a backend and feeds it from an incremental decoder.
pub struct Shim<T: Terminal> {
    pub decoder: Decoder,
    pub terminal: T,
}

impl<T: Terminal> Shim<T> {
    /// Pipeline well-formedness: the decoder's bounds and the backend's
    /// invariant both hold.
    pub open spec fn wf(self) -> bool {
        self.decoder@.wf() && self.terminal.inv()
    }

    /// Wraps a backend with a fresh decoder in the `Ground` state.
    pub fn new(terminal: T) -> (s: Shim<T>)
        requires
            terminal.inv(),
        ensures
            s.wf(),
            s.decoder@ == ground_model(),
            s.terminal == terminal,
    {
        Shim { decoder: Decoder::new(), terminal }
    }

    /// Feeds one byte: the decoder takes one step and a completed event, if
    /// any, is dispatched to the backend.
    pub fn advance(&mut self, b: u8)
        requires
            old(self).wf(),
        ensures
            final(self).wf(),
            final(self).decoder@ == step(old(self).decoder@, b).0,
            final(self).terminal.ops() == old(self).terminal.ops() + (match step(
                old(self).decoder@,
                b,
            ).1 {
                Some(e) => event_ops(e),
                None => Seq::empty(),
            }),
    {
        let ghost ops0 = self.terminal.ops();
        let r = self.decoder.advance(b);
        match r {
            Some(Event::Print(c)) => {
                self.terminal.apply(TermOp::Print(c));
                proof {
                    assert(ops0.push(TermOp::Print(c)) =~= ops0 + seq![TermOp::Print(c)]);
                }
            },
            Some(Event::Execute(eb)) => {
                self.terminal.apply(TermOp::Raw(eb as char));
                proof {
                    assert(ops0.push(TermOp::Raw(eb as char)) =~= ops0 + seq![
                        TermOp::Raw(eb as char),
                    ]);
                }
            },
            Some(Event::Csi(cs)) => {
                if cs.fin == 0x6D {
                    handle_formatting(&mut self.terminal, &cs.params);
                } else {
                    proof {
                        assert(ops0 + Seq::<TermOp>::empty() =~= ops0);
                    }
                }
            },
            None => {
                proof {
                    assert(ops0 + Seq::<TermOp>::empty() =~= ops0);
                }
            },
        }
    }

    /// Decodes and dispatches a whole buffer, byte by byte; the whole buffer
    /// is always consumed.
    pub fn write(&mut self, buf: &[u8]) -> (n: usize)
        requires
            old(self).wf(),
        ensures
            n == buf@.len(),
            final(self).wf(),
            final(self).decoder@ == run(old(self).decoder@, buf@).0,
            final(self).terminal.ops() == old(self).terminal.ops() + stream_ops(
                old(self).decoder@,
                buf@,
            ),
    {
        let ghost m0 = self.decoder@;
        let ghost ops0 = self.terminal.ops();
        let mut i: usize = 0;
        while i < buf.len()
            invariant
                self.wf(),
                i <= buf@.len(),
                self.decoder@ == run(m0, buf@.take(i as int)).0,
                self.terminal.ops() == ops0 + events_ops(run(m0, buf@.take(i as int)).1),
            decreases buf@.len() - i,
        {
            let b = buf[i];
            proof {
                assert(buf@.take(i + 1).drop_last() =~= buf@.take(i as int));
                assert(buf@.take(i + 1).last() == b);
            }
            self.advance(b);
            proof {
                match step(run(m0, buf@.take(i as int)).0, b).1 {
                    Some(e) => {
                        lemma_events_ops_snoc(run(m0, buf@.take(i as int)).1, e);
                    },
                    None => {},
                }
                assert(self.terminal.ops() =~= ops0 + events_ops(run(m0, buf@.take(i + 1)).1));
            }
            i = i + 1;
        }
        proof {
            assert(buf@.take(buf@.len() as int) =~= buf@);
        }
        buf.len()
    }
}

/// The single event an ESC-free ASCII byte produces in `Ground`.
pub open spec fn plain_event(b: u8) -> EventModel {
    if b < 0x20 {
        EventModel::Execute(b)
    } else {
        EventModel::Print(b as char)
    }
}

/// The single operation an ESC-free ASCII byte dispatches.
pub open spec fn plain_op(b: u8) -> TermOp {
    if b < 0x20 {
        TermOp::Raw(b as char)
    } else {
        TermOp::Print(b as char)
    }
}

/// Plain-text identity at the decoder: ASCII input holding no ESC byte
/// decodes to exactly one event per byte — `Execute` for C0 controls, `Print`
/// for everything else — and the decoder state is untouched.
pub proof fn lemma_plain_ascii_events(m: DecModel, bytes: Seq<u8>)
    requires
        m.state == DecState::Ground,
        forall|i: int| 0 <= i < bytes.len() ==> bytes[i] != 0x1B && bytes[i] < 0x80,
    ensures
        run(m, bytes).0 == m,
        run(m, bytes).1 == bytes.map_values(|b: u8| plain_event(b)),
    decreases bytes.len(),
{
    let f = |b: u8| plain_event(b);
    if bytes.len() == 0 {
        assert(bytes.map_values(f) =~= Seq::<EventModel>::empty());
    } else {
        lemma_plain_ascii_events(m, bytes.drop_last());
        assert(bytes.map_values(f) =~= bytes.drop_last().map_values(f).push(f(bytes.last())));
    }
}

/// Plain-text identity at the operation level: ESC-free ASCII bytes dispatch
/// exactly one operation per byte, carrying that byte's character, and the
/// decoder state is untouched.
pub proof fn lemma_plain_ascii_ops(m: DecModel, bytes: Seq<u8>)
    requires
        m.state == DecState::Ground,
        forall|i: int| 0 <= i < bytes.len() ==> bytes[i] != 0x1B && bytes[i] < 0x80,
    ensures
        run(m, bytes).0 == m,
        stream_ops(m, bytes) == bytes.map_values(|b: u8| plain_op(b)),
    decreases bytes.len(),
{
    let f = |b: u8| plain_event(b);
    let g = |b: u8| plain_op(b);
    lemma_plain_ascii_events(m, bytes);
    if bytes.len() == 0 {
        assert(bytes.map_values(g) =~= Seq::<TermOp>::empty());
    } else {
        lemma_plain_ascii_ops(m, bytes.drop_last());
        lemma_plain_ascii_events(m, bytes.drop_last());
        assert(bytes.map_values(f) =~= bytes.drop_last().map_values(f).push(f(bytes.last())));
        lemma_events_ops_snoc(bytes.drop_last().map_values(f), f(bytes.last()));
        assert(event_ops(f(bytes.last())) =~= seq![g(bytes.last())]);
        assert(bytes.map_values(g) =~= bytes.drop_last().map_values(g).push(g(bytes.last())));
        assert(stream_ops(m, bytes) =~= bytes.map_values(g));
    }
}

/// While in `StringIgnore`, bytes other than BEL and ESC are consumed with no
/// event and no state change.
proof fn lemma_string_ignores_body(m: DecModel, body: Seq<u8>)
    requires
        m.state == DecState::StringIgnore,
        forall|i: int| 0 <= i < body.len() ==> body[i] != 0x07 && body[i] != 0x1B,
    ensures
        run(m, body).0 == m,
        run(m, body).1 == Seq::<EventModel>::empty(),
    decreases body.len(),
{
    if body.len() > 0 {
        lemma_string_ignores_body(m, body.drop_last());
    }
}

/// Unsupported-sequence safety: an OSC/DCS-style introducer and arbitrary
/// bytes up to its BEL terminator are fully consumed — zero events, and the
/// decoder returns to `Ground` exactly as it was.
pub proof fn lemma_string_sequence_ignored(m: DecModel, intro: u8, body: Seq<u8>)
    requires
        m.state == DecState::Ground,
        intro == 0x50 || intro == 0x58 || intro == 0x5D || intro == 0x5E || intro == 0x5F,
        forall|i: int| 0 <= i < body.len() ==> body[i] != 0x07 && body[i] != 0x1B,
    ensures
        run(m, seq![0x1Bu8, intro] + body + seq![0x07u8]).0 == m,
        run(m, seq![0x1Bu8, intro] + body + seq![0x07u8]).1 == Seq::<EventModel>::empty(),
{
    let prefix = seq![0x1Bu8, intro];
    let mesc = DecModel { state: DecState::Escape, ..m };
    let mstr = DecModel { state: DecState::StringIgnore, ..m };
    assert(run(m, Seq::<u8>::empty()).0 == m);
    assert(seq![0x1Bu8].drop_last() =~= Seq::<u8>::empty());
    assert(run(m, seq![0x1Bu8]).0 == mesc);
    assert(run(m, seq![0x1Bu8]).1 =~= Seq::<EventModel>::empty());
    assert(prefix.drop_last() =~= seq![0x1Bu8]);
    assert(run(m, prefix).0 == mstr);
    assert(run(m, prefix).1 =~= Seq::<EventModel>::empty());
    crate::decoder::lemma_run_concat(m, prefix, body);
    lemma_string_ignores_body(mstr, body);
    crate::decoder::lemma_run_concat(m, prefix + body, seq![0x07u8]);
    assert(run(mstr, Seq::<u8>::empty()).0 == mstr);
    assert(seq![0x07u8].drop_last() =~= Seq::<u8>::empty());
    assert(run(mstr, seq![0x07u8]).0 == m);
    assert(prefix + body + seq![0x07u8] =~= (prefix + body) + seq![0x07u8]);
    assert(run(m, prefix + body + seq![0x07u8]).1 =~= Seq::<EventModel>::empty());
}


/// The operation one plain-text character dispatches: C0 controls pass
/// through raw, everything else prints.
pub open spec fn char_op(c: char) -> TermOp {
    if (c as u32) < 0x20 {
        TermOp::Raw(c)
    } else {
        TermOp::Print(c)
    }
}

/// The operations of a run of plain-text events are the matching per-character
/// operations.
proof fn lemma_char_events_ops(chars: Seq<char>)
    ensures
        events_ops(chars.map_values(|c: char| crate::decoder::char_event(c))) == chars.map_values(
            |c: char| char_op(c),
        ),
    decreases chars.len(),
{
    let f = |c: char| crate::decoder::char_event(c);
    let g = |c: char| char_op(c);
    if chars.len() == 0 {
        assert(chars.map_values(f) =~= Seq::<EventModel>::empty());
        assert(chars.map_values(g) =~= Seq::<TermOp>::empty());
    } else {
        lemma_char_events_ops(chars.drop_last());
        let c = chars.last();
        if (c as u32) < 0x20 {
            vstd::utf8::char_u32_cast(c, c as u32);
            assert(((c as u32) as u8) as char == c);
        }
        assert(event_ops(f(c)) =~= seq![g(c)]);
        assert(chars.map_values(f) =~= chars.drop_last().map_values(f).push(f(c)));
        assert(chars.map_values(f).drop_last() =~= chars.drop_last().map_values(f));
        assert(chars.map_values(g) =~= chars.drop_last().map_values(g).push(g(c)));
        assert(events_ops(chars.map_values(f)) =~= chars.map_values(g));
    }
}

/// Plain-text identity at the operation level: the UTF-8 encoding of text
/// holding no escape character dispatches exactly one operation per
/// character — raw for C0 controls, print for everything else — and the
/// decoder state is untouched.
pub proof fn lemma_utf8_plain_ops(m: DecModel, chars: Seq<char>)
    requires
        m.state == DecState::Ground,
        forall|i: int| 0 <= i < chars.len() ==> chars[i] as u32 != 0x1B,
    ensures
        run(m, vstd::utf8::encode_utf8(chars)).0 == m,
        stream_ops(m, vstd::utf8::encode_utf8(chars)) == chars.map_values(|c: char| char_op(c)),
{
    crate::decoder::lemma_utf8_plain_text_events(m, chars);
    lemma_char_events_ops(chars);
}

} // verus!
