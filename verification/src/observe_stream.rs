//! Batched observe-stream payload: up to fifty tap events and a count of
//! events the producer had to drop, with its wire codec.
use vstd::prelude::*;

use crate::wire::{
    be_u16, be_u32, be_u32_at, be_u16_at, encode_outcome, exact_len, get_u32,
    lemma_splice_concat, lemma_splice_empty, lemma_u16_from_window, lemma_u32_from_window,
    lemma_u16_image_at, lemma_u32_image_at,
    put_u32, put_u8, splice, CodecError,
};

use hibana::integration::runtime::TapEvent;
use hibana::integration::wire::{CodecError as WireError, Payload, WireEncode, WirePayload};

verus! {

/// Bytes before the first event of an encoded batch: count and lost events.
pub const TAP_BATCH_HEADER_LEN: usize = 5;

/// Bytes of one encoded tap event.
pub const TAP_EVENT_WIRE_LEN: usize = 20;

/// Most events one batch holds.
pub const TAP_BATCH_MAX_EVENTS: usize = 50;

/// The fields of one tap event: timestamp, event identifier, causal key and
/// three context words.
#[derive(Clone, Copy, Debug, Default, PartialEq, Eq)]
pub struct TapRecord {
    pub ts: u32,
    pub id: u16,
    pub causal_key: u16,
    pub arg0: u32,
    pub arg1: u32,
    pub arg2: u32,
}

impl TapRecord {
    /// The zero event.
    pub fn zero() -> (r: TapRecord)
        ensures
            r == (TapRecord { ts: 0, id: 0, causal_key: 0, arg0: 0, arg1: 0, arg2: 0 }),
    {
        TapRecord { ts: 0, id: 0, causal_key: 0, arg0: 0, arg1: 0, arg2: 0 }
    }

    /// Wire image of a tap event: the fields big-endian in declaration order.
    pub open spec fn wire_bytes(self) -> Seq<u8> {
        be_u32(self.ts) + be_u16(self.id) + be_u16(self.causal_key) + be_u32(self.arg0) + be_u32(
            self.arg1,
        ) + be_u32(self.arg2)
    }

    /// The event read from the twenty bytes of `s`.
    pub open spec fn read(s: Seq<u8>) -> TapRecord {
        TapRecord {
            ts: be_u32_at(s, 0),
            id: be_u16_at(s, 4),
            causal_key: be_u16_at(s, 6),
            arg0: be_u32_at(s, 8),
            arg1: be_u32_at(s, 12),
            arg2: be_u32_at(s, 16),
        }
    }

    /// Exact decoding of one tap event.
    pub open spec fn parse(s: Seq<u8>) -> Result<TapRecord, CodecError> {
        match exact_len(s.len() as int, 20, "payload length") {
            Err(e) => Err(e),
            Ok(_) => Ok(TapRecord::read(s)),
        }
    }
}

/// Encodes one event with hibana's `TapEvent` wire codec
/// (`WireEncode::encode_into` on the slice from `at`). The contract claims
/// what that codec's source shows: a remainder shorter than twenty bytes is
/// refused as truncated and left alone; otherwise the twenty-byte big-endian
/// image of the event is written at `at` and twenty is returned.
#[verifier::external_body]
fn tap_event_encode_at(event: &TapRecord, out: &mut [u8], at: usize) -> (r: Result<usize, CodecError>)
    requires
        at <= old(out)@.len(),
    ensures
        old(out)@.len() < at + 20 ==> r is Err && r->Err_0 == CodecError::Truncated && final(out)@ == old(out)@,
        old(out)@.len() >= at + 20 ==> r is Ok && r->Ok_0 == 20 && final(out)@ == splice(old(out)@, at as int, event.wire_bytes()),
{
    let wire_event = TapEvent {
        ts: event.ts,
        id: event.id,
        causal_key: event.causal_key,
        arg0: event.arg0,
        arg1: event.arg1,
        arg2: event.arg2,
    };
    match wire_event.encode_into(&mut out[at..]) {
        Ok(n) => Ok(n),
        Err(WireError::Truncated) => Err(CodecError::Truncated),
        Err(WireError::Invalid(m)) => Err(CodecError::Invalid(m)),
    }
}

/// Decodes one event with hibana's `TapEvent` wire codec
/// (`WirePayload::decode_payload`). The contract claims what that codec's
/// source shows: exactly twenty bytes are required (fewer is truncated, more
/// is invalid with the text "payload length"), read big-endian field by
/// field.
#[verifier::external_body]
fn tap_event_decode(input: &[u8]) -> (r: Result<TapRecord, CodecError>)
    ensures
        r == TapRecord::parse(input@),
{
    match <TapEvent as WirePayload>::decode_payload(Payload::new(input)) {
        Ok(e) => Ok(
            TapRecord {
                ts: e.ts,
                id: e.id,
                causal_key: e.causal_key,
                arg0: e.arg0,
                arg1: e.arg1,
                arg2: e.arg2,
            },
        ),
        Err(WireError::Truncated) => Err(CodecError::Truncated),
        Err(WireError::Invalid(m)) => Err(CodecError::Invalid(m)),
    }
}

/// Concatenated wire images of a run of events.
pub open spec fn events_wire(events: Seq<TapRecord>) -> Seq<u8>
    decreases events.len(),
{
    if events.len() == 0 {
        Seq::empty()
    } else {
        events_wire(events.drop_last()) + events.last().wire_bytes()
    }
}

/// Wire image of a batch: event count, lost events big-endian, then the
/// events.
pub open spec fn batch_wire(events: Seq<TapRecord>, lost_events: u32) -> Seq<u8> {
    seq![events.len() as u8] + be_u32(lost_events) + events_wire(events)
}

/// The `count` events stored back to back after the header of `s`.
pub open spec fn events_read(s: Seq<u8>, count: nat) -> Seq<TapRecord> {
    Seq::new(count, |i: int| TapRecord::read(s.subrange(5 + 20 * i, 25 + 20 * i)))
}

/// Exact decoding of a batch into its events and lost-event count: the
/// header must be present, at most fifty events may be announced, and the
/// input must end exactly after the announced events.
pub open spec fn batch_parse(s: Seq<u8>) -> Result<(Seq<TapRecord>, u32), CodecError> {
    if s.len() < 5 {
        Err(CodecError::Truncated)
    } else {
        let count = s[0] as nat;
        if count > 50 {
            Err(CodecError::Invalid("batch count exceeds maximum"))
        } else {
            let expected = 5 + count * 20;
            if s.len() < expected {
                Err(CodecError::Truncated)
            } else if s.len() != expected {
                Err(CodecError::Invalid("trailing bytes after TapBatch"))
            } else {
                Ok((events_read(s, count), be_u32_at(s, 1)))
            }
        }
    }
}

/// Batched observe-stream payload.
#[derive(Debug)]
pub struct TapBatch {
    events: Vec<TapRecord>,
    lost_events: u32,
}

impl View for TapBatch {
    /// The events in order and the lost-event count.
    type V = (Seq<TapRecord>, u32);

    closed spec fn view(&self) -> (Seq<TapRecord>, u32) {
        (self.events@, self.lost_events)
    }
}

impl TapBatch {
    #[verifier::type_invariant]
    spec fn bounded(self) -> bool {
        self.events@.len() <= 50
    }

    /// The batch with no events and nothing lost.
    pub fn empty() -> (r: TapBatch)
        ensures
            r@ == (Seq::<TapRecord>::empty(), 0u32),
    {
        TapBatch { events: Vec::new(), lost_events: 0 }
    }

    /// Appends `event` if the batch has room; reports whether it did.
    pub fn push(&mut self, event: TapRecord) -> (r: bool)
        ensures
            r == (old(self)@.0.len() < 50),
            r ==> final(self)@ == (old(self)@.0.push(event), old(self)@.1),
            !r ==> final(self)@ == old(self)@,
    {
        proof {
            use_type_invariant(&*self);
        }
        if self.events.len() < TAP_BATCH_MAX_EVENTS {
            let mut events = Vec::new();
            std::mem::swap(&mut events, &mut self.events);
            events.push(event);
            self.events = events;
            true
        } else {
            false
        }
    }

    /// Number of events held; never more than fifty.
    pub fn len(&self) -> (r: usize)
        ensures
            r == self@.0.len(),
            r <= 50,
    {
        proof {
            use_type_invariant(self);
        }
        self.events.len()
    }

    /// Number of events the producer dropped.
    pub fn lost_events(&self) -> (r: u32)
        ensures
            r == self@.1,
    {
        self.lost_events
    }

    /// Records how many events the producer dropped.
    pub fn set_lost_events(&mut self, lost: u32)
        ensures
            final(self)@ == (old(self)@.0, lost),
    {
        proof {
            use_type_invariant(&*self);
        }
        self.lost_events = lost;
    }

    /// The events held, in order.
    pub fn events(&self) -> (r: &[TapRecord])
        ensures
            r@ == self@.0,
    {
        self.events.as_slice()
    }

    /// Encoded length of the batch.
    pub fn encoded_len(&self) -> (r: Option<usize>)
        ensures
            r == Some((5 + 20 * self@.0.len()) as usize),
    {
        proof {
            use_type_invariant(self);
        }
        Some(TAP_BATCH_HEADER_LEN + self.events.len() * TAP_EVENT_WIRE_LEN)
    }

    pub fn encode_into(&self, out: &mut [u8]) -> (r: Result<usize, CodecError>)
        ensures
            encode_outcome(batch_wire(self@.0, self@.1), old(out)@, final(out)@, r),
    {
        proof {
            use_type_invariant(self);
            lemma_events_wire_len(self.events@);
        }
        let len = self.events.len();
        let total_len = TAP_BATCH_HEADER_LEN + len * TAP_EVENT_WIRE_LEN;
        if out.len() < total_len {
            return Err(CodecError::Truncated);
        }
        let ghost s0 = out@;
        put_u8(out, 0, len as u8);
        put_u32(out, 1, self.lost_events);
        let ghost header = seq![len as u8] + be_u32(self.lost_events);
        proof {
            lemma_splice_concat(s0, 0, seq![len as u8], be_u32(self.lost_events));
            lemma_splice_empty(s0, 0);
        }
        let mut offset: usize = TAP_BATCH_HEADER_LEN;
        let mut i: usize = 0;
        while i < len
            invariant
                len == self.events@.len(),
                len <= 50,
                total_len == 5 + 20 * len,
                total_len <= s0.len(),
                i <= len,
                offset == 5 + 20 * i,
                header.len() == 5,
                out@ == splice(s0, 0, header + events_wire(self.events@.take(i as int))),
            decreases len - i,
        {
            proof {
                lemma_events_wire_len(self.events@.take(i as int));
                assert(self.events@.take(i + 1).drop_last() =~= self.events@.take(i as int));
            }
            let r = tap_event_encode_at(&self.events[i], out, offset);
            proof {
                lemma_splice_concat(
                    s0,
                    0,
                    header + events_wire(self.events@.take(i as int)),
                    self.events@[i as int].wire_bytes(),
                );
                assert(header + events_wire(self.events@.take(i as int)) + self.events@[i as int].wire_bytes()
                    =~= header + events_wire(self.events@.take(i + 1)));
            }
            offset = offset + TAP_EVENT_WIRE_LEN;
            i = i + 1;
        }
        proof {
            assert(self.events@.take(len as int) =~= self.events@);
            assert(header + events_wire(self.events@) =~= batch_wire(self@.0, self@.1));
        }
        Ok(total_len)
    }

    pub fn decode_payload(input: &[u8]) -> (r: Result<TapBatch, CodecError>)
        ensures
            match r {
                Ok(b) => batch_parse(input@) == Ok::<(Seq<TapRecord>, u32), CodecError>(b@),
                Err(e) => batch_parse(input@) == Err::<(Seq<TapRecord>, u32), CodecError>(e),
            },
    {
        if input.len() < TAP_BATCH_HEADER_LEN {
            return Err(CodecError::Truncated);
        }
        let count = input[0] as usize;
        if count > TAP_BATCH_MAX_EVENTS {
            return Err(CodecError::Invalid("batch count exceeds maximum"));
        }
        let lost_events = get_u32(input, 1);
        let expected_len = TAP_BATCH_HEADER_LEN + count * TAP_EVENT_WIRE_LEN;
        if input.len() < expected_len {
            return Err(CodecError::Truncated);
        }
        if input.len() != expected_len {
            return Err(CodecError::Invalid("trailing bytes after TapBatch"));
        }
        let mut batch = TapBatch::empty();
        batch.set_lost_events(lost_events);
        let ghost want = events_read(input@, count as nat);
        let mut offset: usize = TAP_BATCH_HEADER_LEN;
        let mut i: usize = 0;
        while i < count
            invariant
                count <= 50,
                input@.len() == 5 + 20 * count,
                i <= count,
                offset == 5 + 20 * i,
                want == events_read(input@, count as nat),
                batch@ == (want.take(i as int), lost_events),
            decreases count - i,
        {
            let event = match tap_event_decode(
                vstd::slice::slice_subrange(input, offset, offset + TAP_EVENT_WIRE_LEN),
            ) {
                Ok(e) => e,
                Err(e) => return Err(e),
            };
            let pushed = batch.push(event);
            proof {
                assert(want.take(i + 1) =~= want.take(i as int).push(event));
            }
            offset = offset + TAP_EVENT_WIRE_LEN;
            i = i + 1;
        }
        proof {
            assert(want.take(count as int) =~= want);
        }
        Ok(batch)
    }
}

impl Default for TapBatch {
    fn default() -> (r: TapBatch)
        ensures
            r@ == (Seq::<TapRecord>::empty(), 0u32),
    {
        TapBatch::empty()
    }
}

/// The wire images of a run of events take twenty bytes each.
pub proof fn lemma_events_wire_len(events: Seq<TapRecord>)
    ensures
        events_wire(events).len() == 20 * events.len(),
    decreases events.len(),
{
    if events.len() > 0 {
        lemma_events_wire_len(events.drop_last());
    }
}

/// Decoding the wire image of an event gives it back.
pub proof fn tap_record_roundtrip(v: TapRecord)
    ensures
        TapRecord::read(v.wire_bytes()) == v,
        TapRecord::parse(v.wire_bytes()) == Ok::<TapRecord, CodecError>(v),
{
    let w = v.wire_bytes();
    assert(w.subrange(0, 4) =~= be_u32(v.ts));
    assert(w.subrange(4, 6) =~= be_u16(v.id));
    assert(w.subrange(6, 8) =~= be_u16(v.causal_key));
    assert(w.subrange(8, 12) =~= be_u32(v.arg0));
    assert(w.subrange(12, 16) =~= be_u32(v.arg1));
    assert(w.subrange(16, 20) =~= be_u32(v.arg2));
    lemma_u32_from_window(w, 0, v.ts);
    lemma_u16_from_window(w, 4, v.id);
    lemma_u16_from_window(w, 6, v.causal_key);
    lemma_u32_from_window(w, 8, v.arg0);
    lemma_u32_from_window(w, 12, v.arg1);
    lemma_u32_from_window(w, 16, v.arg2);
}

/// Any twenty bytes are the wire image of the event they decode to.
pub proof fn tap_record_canonical(s: Seq<u8>)
    requires
        s.len() == 20,
    ensures
        TapRecord::read(s).wire_bytes() == s,
{
    lemma_u32_image_at(s, 0);
    lemma_u16_image_at(s, 4);
    lemma_u16_image_at(s, 6);
    lemma_u32_image_at(s, 8);
    lemma_u32_image_at(s, 12);
    lemma_u32_image_at(s, 16);
    assert(TapRecord::read(s).wire_bytes() =~= s);
}

/// The `i`-th twenty-byte window of a run of event images is the image of
/// the `i`-th event.
pub proof fn lemma_events_wire_window(events: Seq<TapRecord>, i: int)
    requires
        0 <= i < events.len(),
    ensures
        events_wire(events).subrange(20 * i, 20 * i + 20) == events[i].wire_bytes(),
    decreases events.len(),
{
    let init = events.drop_last();
    lemma_events_wire_len(init);
    let w = events_wire(events);
    if i < events.len() - 1 {
        lemma_events_wire_window(init, i);
        assert(w.subrange(20 * i, 20 * i + 20) =~= events_wire(init).subrange(20 * i, 20 * i + 20));
    } else {
        assert(w.subrange(20 * i, 20 * i + 20) =~= events.last().wire_bytes());
    }
}

/// The events read back to back after the header are the ones whose images
/// fill the body.
pub proof fn lemma_events_read_image(s: Seq<u8>, count: nat)
    requires
        5 + 20 * count <= s.len(),
    ensures
        events_wire(events_read(s, count)) == s.subrange(5, 5 + 20 * count as int),
    decreases count,
{
    if count == 0 {
        assert(events_wire(events_read(s, 0)) =~= s.subrange(5, 5));
    } else {
        let c = (count - 1) as nat;
        lemma_events_read_image(s, c);
        assert(events_read(s, count).drop_last() =~= events_read(s, c));
        let ci = c as int;
        let win = s.subrange(5 + 20 * ci, 25 + 20 * ci);
        tap_record_canonical(win);
        assert(events_read(s, count).last() == TapRecord::read(win));
        assert(s.subrange(5, 5 + 20 * ci) + win =~= s.subrange(5, 5 + 20 * count as int));
    }
}

/// Decoding the wire image of a batch of at most fifty events gives the
/// events and the lost-event count back.
pub proof fn tap_batch_roundtrip(events: Seq<TapRecord>, lost_events: u32)
    requires
        events.len() <= 50,
    ensures
        batch_parse(batch_wire(events, lost_events)) == Ok::<(Seq<TapRecord>, u32), CodecError>(
            (events, lost_events),
        ),
{
    let w = batch_wire(events, lost_events);
    let body = events_wire(events);
    lemma_events_wire_len(events);
    assert(w[0] == events.len() as u8);
    assert(w.subrange(1, 5) =~= be_u32(lost_events));
    lemma_u32_from_window(w, 1, lost_events);
    let count = events.len();
    assert forall|i: int| 0 <= i < count implies #[trigger] events_read(w, count)[i] == events[i] by {
        lemma_events_wire_window(events, i);
        assert(w.subrange(5 + 20 * i, 25 + 20 * i) =~= body.subrange(20 * i, 20 * i + 20));
        tap_record_roundtrip(events[i]);
    }
    assert(events_read(w, count) =~= events);
}

/// A batch decodes only from its exact wire image.
pub proof fn tap_batch_canonical(s: Seq<u8>)
    ensures
        batch_parse(s) matches Ok(b) ==> batch_wire(b.0, b.1) == s,
{
    if batch_parse(s) is Ok {
        let count = s[0] as nat;
        let b = batch_parse(s)->Ok_0;
        lemma_events_read_image(s, count);
        lemma_u32_image_at(s, 1);
        assert(b.0.len() == count);
        assert(batch_wire(b.0, b.1) =~= s);
    }
}

/// A batch followed by further bytes does not decode.
pub proof fn tap_batch_rejects_trailing(events: Seq<TapRecord>, lost_events: u32, extra: Seq<u8>)
    requires
        events.len() <= 50,
        extra.len() > 0,
    ensures
        batch_parse(batch_wire(events, lost_events) + extra) is Err,
{
    lemma_events_wire_len(events);
    let s = batch_wire(events, lost_events) + extra;
    assert(s[0] == events.len() as u8);
}

/// A tap event goes on the wire as twenty bytes: timestamp (four bytes),
/// identifier (two), causal key (two), then the three context words (four
/// each), all big-endian in declaration order.
pub proof fn tap_record_layout(v: TapRecord)
    ensures
        v.wire_bytes().len() == 20,
        v.wire_bytes().subrange(0, 4) == be_u32(v.ts),
        v.wire_bytes().subrange(4, 6) == be_u16(v.id),
        v.wire_bytes().subrange(6, 8) == be_u16(v.causal_key),
        v.wire_bytes().subrange(8, 12) == be_u32(v.arg0),
        v.wire_bytes().subrange(12, 16) == be_u32(v.arg1),
        v.wire_bytes().subrange(16, 20) == be_u32(v.arg2),
{
    let w = v.wire_bytes();
    assert(w.subrange(0, 4) =~= be_u32(v.ts));
    assert(w.subrange(4, 6) =~= be_u16(v.id));
    assert(w.subrange(6, 8) =~= be_u16(v.causal_key));
    assert(w.subrange(8, 12) =~= be_u32(v.arg0));
    assert(w.subrange(12, 16) =~= be_u32(v.arg1));
    assert(w.subrange(16, 20) =~= be_u32(v.arg2));
}

/// A batch goes on the wire as the event count (one byte), the lost-event
/// count big-endian (four bytes), then event `i` in the twenty bytes from
/// offset `5 + 20 i`.
pub proof fn tap_batch_layout(events: Seq<TapRecord>, lost_events: u32, i: int)
    requires
        events.len() <= 50,
        0 <= i < events.len(),
    ensures
        batch_wire(events, lost_events).len() == 5 + 20 * events.len(),
        batch_wire(events, lost_events)[0] as int == events.len(),
        batch_wire(events, lost_events).subrange(1, 5) == be_u32(lost_events),
        batch_wire(events, lost_events).subrange(5 + 20 * i, 25 + 20 * i) == events[i].wire_bytes(),
{
    let w = batch_wire(events, lost_events);
    lemma_events_wire_len(events);
    lemma_events_wire_window(events, i);
    assert(w.subrange(1, 5) =~= be_u32(lost_events));
    assert(w.subrange(5 + 20 * i, 25 + 20 * i) =~= events_wire(events).subrange(20 * i, 20 * i + 20));
}

/// A well-sized batch image decodes to its lost-event count (the big-endian
/// word at offset 1) and to the events that its twenty-byte windows decode
/// to, in order.
pub proof fn tap_batch_decode_layout(s: Seq<u8>, i: int)
    requires
        s.len() >= 5,
        s[0] <= 50,
        s.len() == 5 + 20 * s[0],
        0 <= i < s[0],
    ensures
        batch_parse(s) matches Ok(b) && b.0.len() == s[0] && b.1 == be_u32_at(s, 1)
            && TapRecord::parse(s.subrange(5 + 20 * i, 25 + 20 * i)) == Ok::<TapRecord, CodecError>(b.0[i]),
{
}

} // verus!
