//! The per-tick event batch: decoding the host's wire format and planning
//! which mod callbacks receive which events.
//!
//! Wire format (all little-endian): `u32` event count, then per event a
//! `u16` type, `u16` field-1 length and `u16` field-2 length, followed by
//! the field bytes. A tick event (type 0) carries its `u64` tick number
//! right after the header instead of fields.
use vstd::prelude::*;
use crate::host_api::DispatchTables;
use crate::names::{NameMap, NameSet};
use crate::text::owned;
use crate::wire::{
    le_u16, le_u32, le_u64, read_u16_le, read_u32_le, read_u64_le, u16_bytes, u32_bytes,
    lemma_u16_round_trip, lemma_u32_round_trip,
};

verus! {

/// A byte range inside the batch buffer.
#[derive(Clone, Copy, PartialEq, Eq, Structural)]
pub struct Span {
    pub start: usize,
    pub len: usize,
}

/// One decoded event; string fields are ranges of the batch buffer.
#[derive(Clone, Copy, PartialEq, Eq, Structural)]
pub enum BatchEvent {
    Tick { tick: u64 },
    PlayerJoin { player: Span },
    PlayerLeave { player: Span },
    ChatMessage { player: Span, message: Span },
    BlockBreak { player: Span, block: Span },
    BlockPlace { player: Span, block: Span },
    PlayerDeath { player: Span },
}

/// The span of `len` bytes at `start`.
pub open spec fn span(start: int, len: int) -> Span {
    Span { start: start as usize, len: len as usize }
}

/// Decode the event whose header starts at `pos` (which must hold a full
/// header): the event, if its type is known and its payload fits in the
/// buffer, and where the next header starts.
pub open spec fn decode_step(d: Seq<u8>, pos: int) -> (Option<BatchEvent>, int) {
    let et = le_u16(d, pos);
    let f1 = le_u16(d, pos + 2);
    let f2 = le_u16(d, pos + 4);
    let p = pos + 6;
    if et == 0 {
        if p + 8 <= d.len() {
            (Some(BatchEvent::Tick { tick: le_u64(d, p) as u64 }), p + 8)
        } else {
            (None, p)
        }
    } else if et == 1 || et == 2 {
        if p + f1 <= d.len() {
            let player = span(p, f1);
            (
                Some(
                    if et == 1 {
                        BatchEvent::PlayerJoin { player }
                    } else {
                        BatchEvent::PlayerLeave { player }
                    },
                ),
                p + f1,
            )
        } else {
            (None, p)
        }
    } else if et == 3 || et == 4 || et == 5 {
        if p + f1 + f2 <= d.len() {
            let a = span(p, f1);
            let b = span(p + f1, f2);
            (
                Some(
                    if et == 3 {
                        BatchEvent::ChatMessage { player: a, message: b }
                    } else if et == 4 {
                        BatchEvent::BlockBreak { player: a, block: b }
                    } else {
                        BatchEvent::BlockPlace { player: a, block: b }
                    },
                ),
                p + f1 + f2,
            )
        } else {
            (None, p)
        }
    } else if et == 6 {
        if p + f1 <= d.len() {
            (Some(BatchEvent::PlayerDeath { player: span(p, f1) }), p + f1)
        } else {
            (None, p)
        }
    } else {
        (None, p + f1 + f2)
    }
}

/// The events of at most `remaining` headers from `pos` on, stopping when
/// no full header is left.
pub open spec fn decode_from(d: Seq<u8>, pos: int, remaining: nat) -> Seq<BatchEvent>
    decreases remaining,
{
    if remaining == 0 || pos + 6 > d.len() {
        Seq::empty()
    } else {
        let (ev, next) = decode_step(d, pos);
        let rest = decode_from(d, next, (remaining - 1) as nat);
        match ev {
            Some(e) => seq![e] + rest,
            None => rest,
        }
    }
}

/// The events of a whole batch buffer; a buffer without a count has none.
pub open spec fn batch_events(d: Seq<u8>) -> Seq<BatchEvent> {
    if d.len() < 4 {
        Seq::empty()
    } else {
        decode_from(d, 4, le_u32(d, 0) as nat)
    }
}

/// Decode a batch buffer into its events, in order.
pub fn decode_batch(data: &[u8]) -> (events: Vec<BatchEvent>)
    ensures
        events@ == batch_events(data@),
{
    let mut events: Vec<BatchEvent> = Vec::new();
    if data.len() < 4 {
        return events;
    }
    let count = read_u32_le(data, 0);
    let ghost d = data@;
    let ghost full = decode_from(d, 4, count as nat);
    let mut pos: usize = 4;
    let mut i: u32 = 0;
    while i < count
        invariant
            d == data@,
            pos <= data.len(),
            i <= count,
            full == decode_from(d, 4, count as nat),
            full == events@ + decode_from(d, pos as int, (count - i) as nat),
        ensures
            full == events@,
        decreases count - i,
    {
        let n = data.len();
        if n - pos < 6 {
            assert(decode_from(d, pos as int, (count - i) as nat) =~= Seq::<BatchEvent>::empty());
            assert(full =~= events@);
            break;
        }
        let etype = read_u16_le(data, pos);
        let f1 = read_u16_le(data, pos + 2) as usize;
        let f2 = read_u16_le(data, pos + 4) as usize;
        let p = pos + 6;
        let ghost step = decode_step(d, pos as int);
        let ghost rest = decode_from(d, step.1, (count - i - 1) as nat);
        assert(decode_from(d, pos as int, (count - i) as nat) == match step.0 {
            Some(e) => seq![e] + rest,
            None => rest,
        });
        let ghost prev = events@;
        if etype == 0 {
            if n - p >= 8 {
                let tick = read_u64_le(data, p);
                events.push(BatchEvent::Tick { tick });
                pos = p + 8;
            } else {
                pos = p;
            }
        } else if etype == 1 || etype == 2 {
            if n - p >= f1 {
                let player = Span { start: p, len: f1 };
                if etype == 1 {
                    events.push(BatchEvent::PlayerJoin { player });
                } else {
                    events.push(BatchEvent::PlayerLeave { player });
                }
                pos = p + f1;
            } else {
                pos = p;
            }
        } else if etype == 3 || etype == 4 || etype == 5 {
            if n - p >= f1 && n - p - f1 >= f2 {
                let a = Span { start: p, len: f1 };
                let b = Span { start: p + f1, len: f2 };
                if etype == 3 {
                    events.push(BatchEvent::ChatMessage { player: a, message: b });
                } else if etype == 4 {
                    events.push(BatchEvent::BlockBreak { player: a, block: b });
                } else {
                    events.push(BatchEvent::BlockPlace { player: a, block: b });
                }
                pos = p + f1 + f2;
            } else {
                pos = p;
            }
        } else if etype == 6 {
            if n - p >= f1 {
                events.push(BatchEvent::PlayerDeath { player: Span { start: p, len: f1 } });
                pos = p + f1;
            } else {
                pos = p;
            }
        } else {
            if n - p < f1 || n - p - f1 < f2 {
                // The next header would start past the end: nothing is left.
                assert(rest =~= Seq::<BatchEvent>::empty());
                assert(full =~= events@);
                break;
            }
            pos = p + f1 + f2;
        }
        proof {
            assert(pos == step.1);
            match step.0 {
                Some(e) => {
                    assert(events@ =~= prev.push(e));
                    assert(full =~= events@ + rest);
                },
                None => {
                    assert(events@ =~= prev);
                },
            }
        }
        i = i + 1;
    }
    events
}

// ---------------------------------------------------------------------------
// The wire format, written
// ---------------------------------------------------------------------------

/// One event as the host writes it: type, field lengths, field bytes.
pub open spec fn wire_event(kind: u16, f1: Seq<u8>, f2: Seq<u8>) -> Seq<u8> {
    u16_bytes(kind) + u16_bytes(f1.len() as u16) + u16_bytes(f2.len() as u16) + f1 + f2
}

/// Events as the host writes them, one after another.
pub open spec fn wire_events(evs: Seq<(u16, Seq<u8>, Seq<u8>)>) -> Seq<u8>
    decreases evs.len(),
{
    if evs.len() == 0 {
        Seq::empty()
    } else {
        wire_event(evs[0].0, evs[0].1, evs[0].2) + wire_events(evs.drop_first())
    }
}

/// A whole batch as the host writes it: the event count, then the events.
pub open spec fn wire_batch(evs: Seq<(u16, Seq<u8>, Seq<u8>)>) -> Seq<u8> {
    u32_bytes(evs.len() as u32) + wire_events(evs)
}

/// An event the host can write: fields fit their `u16` lengths; a tick
/// carries exactly its 8-byte number; join, leave and death have no
/// second field.
pub open spec fn writable_event(e: (u16, Seq<u8>, Seq<u8>)) -> bool {
    &&& e.1.len() < 65536
    &&& e.2.len() < 65536
    &&& e.0 == 0 ==> e.1.len() == 8 && e.2.len() == 0
    &&& (e.0 == 1 || e.0 == 2 || e.0 == 6) ==> e.2.len() == 0
}

/// The events a reader should find in `evs` written from offset `p`:
/// each known kind with its fields' byte ranges, unknown kinds dropped.
pub open spec fn expected_events(evs: Seq<(u16, Seq<u8>, Seq<u8>)>, p: int) -> Seq<BatchEvent>
    decreases evs.len(),
{
    if evs.len() == 0 {
        Seq::empty()
    } else {
        let k = evs[0].0;
        let f1 = evs[0].1;
        let f2 = evs[0].2;
        let q = p + 6;
        let rest = expected_events(evs.drop_first(), q + f1.len() + f2.len());
        let a = span(q, f1.len() as int);
        let b = span(q + f1.len(), f2.len() as int);
        if k == 0 {
            seq![BatchEvent::Tick { tick: le_u64(f1, 0) as u64 }] + rest
        } else if k == 1 {
            seq![BatchEvent::PlayerJoin { player: a }] + rest
        } else if k == 2 {
            seq![BatchEvent::PlayerLeave { player: a }] + rest
        } else if k == 3 {
            seq![BatchEvent::ChatMessage { player: a, message: b }] + rest
        } else if k == 4 {
            seq![BatchEvent::BlockBreak { player: a, block: b }] + rest
        } else if k == 5 {
            seq![BatchEvent::BlockPlace { player: a, block: b }] + rest
        } else if k == 6 {
            seq![BatchEvent::PlayerDeath { player: a }] + rest
        } else {
            rest
        }
    }
}

proof fn lemma_decode_wire_events(d: Seq<u8>, p: int, evs: Seq<(u16, Seq<u8>, Seq<u8>)>)
    requires
        0 <= p,
        p + wire_events(evs).len() <= d.len(),
        d.subrange(p, p + wire_events(evs).len()) == wire_events(evs),
        forall|i: int| 0 <= i < evs.len() ==> writable_event(#[trigger] evs[i]),
    ensures
        decode_from(d, p, evs.len()) == expected_events(evs, p),
    decreases evs.len(),
{
    if evs.len() > 0 {
        let k = evs[0].0;
        let f1 = evs[0].1;
        let f2 = evs[0].2;
        assert(writable_event(evs[0]));
        let w = wire_event(k, f1, f2);
        let rest = evs.drop_first();
        let wr = wire_events(rest);
        assert(wire_events(evs) == w + wr);
        let n1 = f1.len() as u16;
        let n2 = f2.len() as u16;
        assert(w.len() == 6 + f1.len() + f2.len());
        assert forall|i: int| 0 <= i < w.len() implies d[p + i] == #[trigger] w[i] by {
            assert(d.subrange(p, p + wire_events(evs).len())[i] == wire_events(evs)[i]);
        }
        assert(d.subrange(p, p + 2) =~= u16_bytes(k)) by {
            assert(d[p] == w[0]);
            assert(d[p + 1] == w[1]);
        }
        assert(d.subrange(p + 2, p + 4) =~= u16_bytes(n1)) by {
            assert(d[p + 2] == w[2]);
            assert(d[p + 3] == w[3]);
        }
        assert(d.subrange(p + 4, p + 6) =~= u16_bytes(n2)) by {
            assert(d[p + 4] == w[4]);
            assert(d[p + 5] == w[5]);
        }
        lemma_u16_round_trip(d, p, k);
        lemma_u16_round_trip(d, p + 2, n1);
        lemma_u16_round_trip(d, p + 4, n2);
        let next = p + 6 + f1.len() + f2.len();
        assert forall|i: int| 0 <= i < f1.len() implies d[p + 6 + i] == #[trigger] f1[i] by {
            assert(d[p + 6 + i] == w[6 + i]);
        }
        if k == 0 {
            assert(le_u64(d, p + 6) == le_u64(f1, 0)) by {
                assert(d[p + 6] == f1[0]);
                assert(d[p + 7] == f1[1]);
                assert(d[p + 8] == f1[2]);
                assert(d[p + 9] == f1[3]);
                assert(d[p + 10] == f1[4]);
                assert(d[p + 11] == f1[5]);
                assert(d[p + 12] == f1[6]);
                assert(d[p + 13] == f1[7]);
            }
        }
        assert(d.subrange(next, next + wr.len()) =~= wr) by {
            assert forall|i: int| 0 <= i < wr.len() implies d.subrange(next, next + wr.len())[i]
                == wr[i] by {
                assert(d.subrange(p, p + wire_events(evs).len())[w.len() + i] == wire_events(
                    evs,
                )[w.len() + i]);
            }
        }
        assert forall|i: int| 0 <= i < rest.len() implies writable_event(#[trigger] rest[i]) by {
            assert(rest[i] == evs[i + 1]);
        }
        lemma_decode_wire_events(d, next, rest);
        assert(decode_step(d, p).1 == next);
    }
}

/// Reading a batch gives back what the host wrote: for events the host
/// can write, the decoded events are, in order, those of known kind, each
/// pointing at the bytes of its own fields; unknown kinds are skipped.
pub proof fn lemma_batch_round_trip(evs: Seq<(u16, Seq<u8>, Seq<u8>)>)
    requires
        evs.len() <= u32::MAX,
        forall|i: int| 0 <= i < evs.len() ==> writable_event(#[trigger] evs[i]),
    ensures
        batch_events(wire_batch(evs)) == expected_events(evs, 4),
{
    let d = wire_batch(evs);
    let n = evs.len() as u32;
    assert(d.subrange(0, 4) =~= u32_bytes(n));
    lemma_u32_round_trip(d, 0, n);
    assert(d.subrange(4, 4 + wire_events(evs).len() as int) =~= wire_events(evs));
    lemma_decode_wire_events(d, 4, evs);
}

// ---------------------------------------------------------------------------
// Dispatch planning
// ---------------------------------------------------------------------------

/// One callback invocation: the mod, the position of its callback in the
/// table for the event's kind, and the event.
pub struct Delivery {
    pub mod_name: String,
    pub index: usize,
    pub event: BatchEvent,
}

/// A delivery as a value: mod name, callback position, event.
pub open spec fn delivery_view(x: Delivery) -> (Seq<char>, int, BatchEvent) {
    (x.mod_name@, x.index as int, x.event)
}

/// The names in the table that serves events of `e`'s kind, in order.
pub open spec fn table_keys<T, P, S>(t: DispatchTables<T, P, S>, e: BatchEvent) -> Seq<Seq<char>> {
    match e {
        BatchEvent::Tick { .. } => t.tick.keys(),
        BatchEvent::PlayerJoin { .. } => t.events.player_join.keys(),
        BatchEvent::PlayerLeave { .. } => t.events.player_leave.keys(),
        BatchEvent::ChatMessage { .. } => t.events.chat_message.keys(),
        BatchEvent::BlockBreak { .. } => t.events.block_break.keys(),
        BatchEvent::BlockPlace { .. } => t.events.block_place.keys(),
        BatchEvent::PlayerDeath { .. } => t.events.player_death.keys(),
    }
}

/// Event `e` for each of the first `n` names in `keys` that is not in
/// `skip`, in table order.
pub open spec fn fan_out(keys: Seq<Seq<char>>, skip: Set<Seq<char>>, e: BatchEvent, n: nat) -> Seq<
    (Seq<char>, int, BatchEvent),
>
    decreases n,
{
    if n == 0 {
        Seq::empty()
    } else {
        let prev = fan_out(keys, skip, e, (n - 1) as nat);
        let k = keys[n - 1];
        if skip.contains(k) {
            prev
        } else {
            prev.push((k, n - 1, e))
        }
    }
}

/// Every event of `events`, in order, to every mod registered for its
/// kind that is not quarantined.
pub open spec fn batch_plan<T, P, S>(t: DispatchTables<T, P, S>, events: Seq<BatchEvent>) -> Seq<
    (Seq<char>, int, BatchEvent),
>
    decreases events.len(),
{
    if events.len() == 0 {
        Seq::empty()
    } else {
        let e = events.last();
        let keys = table_keys(t, e);
        batch_plan(t, events.drop_last()) + fan_out(keys, t.quarantined@, e, keys.len())
    }
}

/// Append to `out` a delivery of `event` for each name of `names` not in
/// `skip`.
fn fan_out_into<X>(names: &NameMap<X>, skip: &NameSet, event: BatchEvent, out: &mut Vec<Delivery>)
    ensures
        final(out)@.map_values(|x: Delivery| delivery_view(x)) == old(out)@.map_values(
            |x: Delivery| delivery_view(x),
        ) + fan_out(names.keys(), skip@, event, names.keys().len()),
{
    let ghost base = old(out)@.map_values(|x: Delivery| delivery_view(x));
    let n = names.len();
    let mut i: usize = 0;
    while i < n
        invariant
            n == names.keys().len(),
            i <= n,
            out@.map_values(|x: Delivery| delivery_view(x)) == base + fan_out(
                names.keys(),
                skip@,
                event,
                i as nat,
            ),
        decreases n - i,
    {
        let name = names.key_at(i);
        let ghost prev = out@;
        if !skip.contains(name.as_str()) {
            out.push(Delivery { mod_name: owned(name.as_str()), index: i, event });
            assert(out@.map_values(|x: Delivery| delivery_view(x)) =~= prev.map_values(
                |x: Delivery| delivery_view(x),
            ).push((names.keys()[i as int], i as int, event)));
        }
        i = i + 1;
    }
}

/// Plan a batch: for each event in order, one delivery per mod that has
/// a callback for the event's kind and is not quarantined. Mods that
/// panic during the batch are quarantined only afterwards, so they still
/// receive the rest of this batch.
pub fn plan_batch<T, P, S>(tables: &DispatchTables<T, P, S>, events: &[BatchEvent]) -> (plan: Vec<
    Delivery,
>)
    ensures
        plan@.map_values(|x: Delivery| delivery_view(x)) == batch_plan(*tables, events@),
{
    let mut plan: Vec<Delivery> = Vec::new();
    let mut i: usize = 0;
    while i < events.len()
        invariant
            i <= events@.len(),
            plan@.map_values(|x: Delivery| delivery_view(x)) == batch_plan(
                *tables,
                events@.take(i as int),
            ),
        decreases events.len() - i,
    {
        let e = events[i];
        let q = &tables.quarantined;
        match e {
            BatchEvent::Tick { .. } => fan_out_into(&tables.tick, q, e, &mut plan),
            BatchEvent::PlayerJoin { .. } => fan_out_into(&tables.events.player_join, q, e, &mut plan),
            BatchEvent::PlayerLeave { .. } => fan_out_into(&tables.events.player_leave, q, e, &mut plan),
            BatchEvent::ChatMessage { .. } => fan_out_into(&tables.events.chat_message, q, e, &mut plan),
            BatchEvent::BlockBreak { .. } => fan_out_into(&tables.events.block_break, q, e, &mut plan),
            BatchEvent::BlockPlace { .. } => fan_out_into(&tables.events.block_place, q, e, &mut plan),
            BatchEvent::PlayerDeath { .. } => fan_out_into(&tables.events.player_death, q, e, &mut plan),
        }
        assert(events@.take(i + 1).drop_last() =~= events@.take(i as int));
        i = i + 1;
    }
    assert(events@.take(events.len() as int) =~= events@);
    plan
}

/// Plan the single-tick entry point: tick `tick` to every mod with a tick
/// callback that is not quarantined, in table order. This is the plan of
/// a batch holding that one tick, so the batch laws hold of it too.
pub fn plan_tick<T, P, S>(tables: &DispatchTables<T, P, S>, tick: u64) -> (plan: Vec<Delivery>)
    ensures
        plan@.map_values(|x: Delivery| delivery_view(x)) == fan_out(
            tables.tick.keys(),
            tables.quarantined@,
            BatchEvent::Tick { tick },
            tables.tick.keys().len(),
        ),
        plan@.map_values(|x: Delivery| delivery_view(x)) == batch_plan(
            *tables,
            seq![BatchEvent::Tick { tick }],
        ),
        forall|i: int|
            0 <= i < plan@.len() ==> !tables.quarantined@.contains(#[trigger] plan@[i].mod_name@),
{
    let mut plan: Vec<Delivery> = Vec::new();
    assert(plan@.map_values(|x: Delivery| delivery_view(x)) =~= Seq::empty());
    fan_out_into(&tables.tick, &tables.quarantined, BatchEvent::Tick { tick }, &mut plan);
    proof {
        let e = BatchEvent::Tick { tick };
        let one = seq![e];
        assert(one.drop_last() =~= Seq::<BatchEvent>::empty());
        assert(one.last() == e);
        assert(one.len() == 1);
        assert(batch_plan(*tables, one.drop_last()) =~= Seq::empty());
        assert(table_keys(*tables, e) == tables.tick.keys());
        assert(batch_plan(*tables, one) =~= fan_out(
            tables.tick.keys(),
            tables.quarantined@,
            e,
            tables.tick.keys().len(),
        ));
        lemma_fan_out_sound(tables.tick.keys(), tables.quarantined@, e, tables.tick.keys().len());
        assert forall|i: int|
            0 <= i < plan@.len() implies !tables.quarantined@.contains(
            #[trigger] plan@[i].mod_name@,
        ) by {
            let views = plan@.map_values(|x: Delivery| delivery_view(x));
            assert(views[i] == delivery_view(plan@[i]));
        }
    }
    plan
}

/// Quarantine every mod that panicked: later dispatches skip it.
pub fn quarantine_panicked<T, P, S>(tables: &mut DispatchTables<T, P, S>, panicked: &[String])
    ensures
        final(tables).quarantined@ == old(tables).quarantined@.union(
            panicked@.map_values(|s: String| s@).to_set(),
        ),
        final(tables).tick == old(tables).tick,
        final(tables).events == old(tables).events,
{
    let ghost names = panicked@.map_values(|s: String| s@);
    let mut i: usize = 0;
    while i < panicked.len()
        invariant
            i <= panicked@.len(),
            names == panicked@.map_values(|s: String| s@),
            tables.quarantined@ == old(tables).quarantined@.union(names.take(i as int).to_set()),
            tables.tick == old(tables).tick,
            tables.events == old(tables).events,
        decreases panicked.len() - i,
    {
        tables.quarantined.insert(owned(panicked[i].as_str()));
        assert(names.take(i + 1).to_set() =~= names.take(i as int).to_set().insert(names[i as int]))
            by {
            let a = names.take(i as int);
            let b = names.take(i + 1);
            assert(b =~= a.push(names[i as int]));
            assert forall|x: Seq<char>| b.to_set().contains(x) <==> a.to_set().insert(
                names[i as int],
            ).contains(x) by {
                if b.contains(x) {
                    let j = choose|j: int| 0 <= j < b.len() && b[j] == x;
                    if j < a.len() {
                        assert(a[j] == x);
                    }
                }
                if a.contains(x) {
                    let j = choose|j: int| 0 <= j < a.len() && a[j] == x;
                    assert(b[j] == x);
                }
                if x == names[i as int] {
                    assert(b[i as int] == x);
                }
            }
        }
        assert(tables.quarantined@ =~= old(tables).quarantined@.union(
            names.take(i + 1).to_set(),
        ));
        i = i + 1;
    }
    assert(names.take(panicked.len() as int) =~= names);
}

// ---------------------------------------------------------------------------
// Laws
// ---------------------------------------------------------------------------

/// Every delivery of `fan_out` names a mod at the position it gives, that
/// mod is not skipped, and the delivered event is `e`.
proof fn lemma_fan_out_sound(keys: Seq<Seq<char>>, skip: Set<Seq<char>>, e: BatchEvent, n: nat)
    requires
        n <= keys.len(),
    ensures
        forall|i: int|
            0 <= i < fan_out(keys, skip, e, n).len() ==> {
                let d = #[trigger] fan_out(keys, skip, e, n)[i];
                &&& 0 <= d.1 < n
                &&& keys[d.1] == d.0
                &&& !skip.contains(d.0)
                &&& d.2 == e
            },
    decreases n,
{
    if n > 0 {
        lemma_fan_out_sound(keys, skip, e, (n - 1) as nat);
    }
}

/// Every delivery of a batch plan goes to a mod that is registered for
/// the event's kind, at the position the delivery gives, and that is not
/// quarantined; and its event is one of the batch's events.
pub proof fn lemma_plan_delivers_only_to_registered_unquarantined<T, P, S>(
    t: DispatchTables<T, P, S>,
    events: Seq<BatchEvent>,
)
    ensures
        forall|i: int|
            0 <= i < batch_plan(t, events).len() ==> {
                let d = #[trigger] batch_plan(t, events)[i];
                &&& 0 <= d.1 < table_keys(t, d.2).len()
                &&& table_keys(t, d.2)[d.1] == d.0
                &&& !t.quarantined@.contains(d.0)
                &&& events.contains(d.2)
            },
    decreases events.len(),
{
    if events.len() > 0 {
        let e = events.last();
        let keys = table_keys(t, e);
        let prev = batch_plan(t, events.drop_last());
        let tail = fan_out(keys, t.quarantined@, e, keys.len());
        lemma_plan_delivers_only_to_registered_unquarantined(t, events.drop_last());
        lemma_fan_out_sound(keys, t.quarantined@, e, keys.len());
        assert forall|i: int| 0 <= i < batch_plan(t, events).len() implies {
            let d = #[trigger] batch_plan(t, events)[i];
            &&& 0 <= d.1 < table_keys(t, d.2).len()
            &&& table_keys(t, d.2)[d.1] == d.0
            &&& !t.quarantined@.contains(d.0)
            &&& events.contains(d.2)
        } by {
            if i < prev.len() {
                assert(batch_plan(t, events)[i] == prev[i]);
                let ev = prev[i].2;
                assert(events.drop_last().contains(ev));
                let j = choose|j: int| 0 <= j < events.drop_last().len() && events.drop_last()[j] == ev;
                assert(events[j] == ev);
            } else {
                assert(batch_plan(t, events)[i] == tail[i - prev.len()]);
                assert(events[events.len() - 1] == e);
            }
        }
    }
}

/// A quarantined mod receives nothing from a batch.
pub proof fn lemma_quarantined_mod_receives_nothing<T, P, S>(
    t: DispatchTables<T, P, S>,
    events: Seq<BatchEvent>,
    name: Seq<char>,
)
    requires
        t.quarantined@.contains(name),
    ensures
        forall|i: int| 0 <= i < batch_plan(t, events).len() ==> #[trigger] batch_plan(t, events)[i].0 != name,
{
    lemma_plan_delivers_only_to_registered_unquarantined(t, events);
    assert forall|i: int| 0 <= i < batch_plan(t, events).len() implies #[trigger] batch_plan(t, events)[i].0 != name by {
        let d = batch_plan(t, events)[i];
    }
}

/// A registered, unquarantined mod receives the event: `fan_out` includes
/// the name at each unskipped position.
proof fn lemma_fan_out_complete(keys: Seq<Seq<char>>, skip: Set<Seq<char>>, e: BatchEvent, n: nat, j: int)
    requires
        n <= keys.len(),
        0 <= j < n,
        !skip.contains(keys[j]),
    ensures
        fan_out(keys, skip, e, n).contains((keys[j], j, e)),
    decreases n,
{
    let prev = fan_out(keys, skip, e, (n - 1) as nat);
    if j < n - 1 {
        lemma_fan_out_complete(keys, skip, e, (n - 1) as nat, j);
        let w = choose|w: int| 0 <= w < prev.len() && prev[w] == (keys[j], j, e);
        if !skip.contains(keys[n - 1]) {
            assert(fan_out(keys, skip, e, n)[w] == (keys[j], j, e));
        }
    } else {
        assert(fan_out(keys, skip, e, n)[prev.len() as int] == (keys[j], j, e));
    }
}

/// Each event of a batch reaches every mod registered for its kind that
/// is not quarantined.
pub proof fn lemma_plan_reaches_every_unquarantined_mod<T, P, S>(
    t: DispatchTables<T, P, S>,
    events: Seq<BatchEvent>,
    k: int,
    j: int,
)
    requires
        0 <= k < events.len(),
        0 <= j < table_keys(t, events[k]).len(),
        !t.quarantined@.contains(table_keys(t, events[k])[j]),
    ensures
        batch_plan(t, events).contains((table_keys(t, events[k])[j], j, events[k])),
    decreases events.len(),
{
    let e = events.last();
    let keys = table_keys(t, e);
    let prev = batch_plan(t, events.drop_last());
    let tail = fan_out(keys, t.quarantined@, e, keys.len());
    if k < events.len() - 1 {
        assert(events.drop_last()[k] == events[k]);
        lemma_plan_reaches_every_unquarantined_mod(t, events.drop_last(), k, j);
        let w = choose|w: int| 0 <= w < prev.len() && prev[w] == (table_keys(t, events[k])[j], j, events[k]);
        assert(batch_plan(t, events)[w] == prev[w]);
    } else {
        lemma_fan_out_complete(keys, t.quarantined@, e, keys.len(), j);
        let w = choose|w: int| 0 <= w < tail.len() && tail[w] == (keys[j], j, e);
        assert(batch_plan(t, events)[prev.len() + w] == tail[w]);
    }
}

/// A mod that panicked during a dispatch cycle, once quarantined by
/// `quarantine_panicked`, receives nothing from any later batch.
pub proof fn lemma_panicked_mod_skipped_afterwards<T, P, S>(
    before: DispatchTables<T, P, S>,
    after: DispatchTables<T, P, S>,
    panicked: Seq<Seq<char>>,
    events: Seq<BatchEvent>,
    name: Seq<char>,
)
    requires
        after.quarantined@ == before.quarantined@.union(panicked.to_set()),
        panicked.contains(name),
    ensures
        forall|i: int| 0 <= i < batch_plan(after, events).len() ==> #[trigger] batch_plan(after, events)[i].0 != name,
{
    assert(panicked.to_set().contains(name));
    lemma_quarantined_mod_receives_nothing(after, events, name);
}

/// Each event goes to the mods registered for its own kind: a delivery
/// of a tick names a mod of the tick table at the position it gives, a
/// delivery of a block placement a mod of the block-place table, and so
/// on for every kind; no delivery names a quarantined mod; and every
/// unquarantined mod of a kind's table receives every event of that kind.
pub proof fn lemma_events_reach_their_own_kind<T, P, S>(
    t: DispatchTables<T, P, S>,
    events: Seq<BatchEvent>,
)
    ensures
        forall|i: int|
            0 <= i < batch_plan(t, events).len() ==> {
                let d = #[trigger] batch_plan(t, events)[i];
                &&& d.2 is Tick ==> 0 <= d.1 < t.tick.keys().len() && t.tick.keys()[d.1] == d.0
                &&& d.2 is PlayerJoin ==> 0 <= d.1 < t.events.player_join.keys().len() && t.events.player_join.keys()[d.1] == d.0
                &&& d.2 is PlayerLeave ==> 0 <= d.1 < t.events.player_leave.keys().len() && t.events.player_leave.keys()[d.1] == d.0
                &&& d.2 is ChatMessage ==> 0 <= d.1 < t.events.chat_message.keys().len() && t.events.chat_message.keys()[d.1] == d.0
                &&& d.2 is BlockBreak ==> 0 <= d.1 < t.events.block_break.keys().len() && t.events.block_break.keys()[d.1] == d.0
                &&& d.2 is BlockPlace ==> 0 <= d.1 < t.events.block_place.keys().len() && t.events.block_place.keys()[d.1] == d.0
                &&& d.2 is PlayerDeath ==> 0 <= d.1 < t.events.player_death.keys().len() && t.events.player_death.keys()[d.1] == d.0
                &&& !t.quarantined@.contains(d.0)
                &&& events.contains(d.2)
            },
        forall|k: int, j: int|
            0 <= k < events.len() && events[k] is Tick && 0 <= j < t.tick.keys().len()
                && !t.quarantined@.contains(t.tick.keys()[j]) ==> #[trigger] batch_plan(t, events).contains(
                (t.tick.keys()[j], j, #[trigger] events[k]),
            ),
        forall|k: int, j: int|
            0 <= k < events.len() && events[k] is PlayerJoin && 0 <= j < t.events.player_join.keys().len()
                && !t.quarantined@.contains(t.events.player_join.keys()[j]) ==> #[trigger] batch_plan(t, events).contains(
                (t.events.player_join.keys()[j], j, #[trigger] events[k]),
            ),
        forall|k: int, j: int|
            0 <= k < events.len() && events[k] is PlayerLeave && 0 <= j < t.events.player_leave.keys().len()
                && !t.quarantined@.contains(t.events.player_leave.keys()[j]) ==> #[trigger] batch_plan(t, events).contains(
                (t.events.player_leave.keys()[j], j, #[trigger] events[k]),
            ),
        forall|k: int, j: int|
            0 <= k < events.len() && events[k] is ChatMessage && 0 <= j < t.events.chat_message.keys().len()
                && !t.quarantined@.contains(t.events.chat_message.keys()[j]) ==> #[trigger] batch_plan(t, events).contains(
                (t.events.chat_message.keys()[j], j, #[trigger] events[k]),
            ),
        forall|k: int, j: int|
            0 <= k < events.len() && events[k] is BlockBreak && 0 <= j < t.events.block_break.keys().len()
                && !t.quarantined@.contains(t.events.block_break.keys()[j]) ==> #[trigger] batch_plan(t, events).contains(
                (t.events.block_break.keys()[j], j, #[trigger] events[k]),
            ),
        forall|k: int, j: int|
            0 <= k < events.len() && events[k] is BlockPlace && 0 <= j < t.events.block_place.keys().len()
                && !t.quarantined@.contains(t.events.block_place.keys()[j]) ==> #[trigger] batch_plan(t, events).contains(
                (t.events.block_place.keys()[j], j, #[trigger] events[k]),
            ),
        forall|k: int, j: int|
            0 <= k < events.len() && events[k] is PlayerDeath && 0 <= j < t.events.player_death.keys().len()
                && !t.quarantined@.contains(t.events.player_death.keys()[j]) ==> #[trigger] batch_plan(t, events).contains(
                (t.events.player_death.keys()[j], j, #[trigger] events[k]),
            ),
{
    lemma_plan_delivers_only_to_registered_unquarantined(t, events);
    assert forall|i: int| 0 <= i < batch_plan(t, events).len() implies {
        let d = #[trigger] batch_plan(t, events)[i];
                &&& d.2 is Tick ==> 0 <= d.1 < t.tick.keys().len() && t.tick.keys()[d.1] == d.0
                &&& d.2 is PlayerJoin ==> 0 <= d.1 < t.events.player_join.keys().len() && t.events.player_join.keys()[d.1] == d.0
                &&& d.2 is PlayerLeave ==> 0 <= d.1 < t.events.player_leave.keys().len() && t.events.player_leave.keys()[d.1] == d.0
                &&& d.2 is ChatMessage ==> 0 <= d.1 < t.events.chat_message.keys().len() && t.events.chat_message.keys()[d.1] == d.0
                &&& d.2 is BlockBreak ==> 0 <= d.1 < t.events.block_break.keys().len() && t.events.block_break.keys()[d.1] == d.0
                &&& d.2 is BlockPlace ==> 0 <= d.1 < t.events.block_place.keys().len() && t.events.block_place.keys()[d.1] == d.0
                &&& d.2 is PlayerDeath ==> 0 <= d.1 < t.events.player_death.keys().len() && t.events.player_death.keys()[d.1] == d.0
        &&& !t.quarantined@.contains(d.0)
        &&& events.contains(d.2)
    } by {
        let d = batch_plan(t, events)[i];
        assert(0 <= d.1 < table_keys(t, d.2).len() && table_keys(t, d.2)[d.1] == d.0);
    }
    assert forall|k: int, j: int|
        0 <= k < events.len() && events[k] is Tick && 0 <= j < t.tick.keys().len()
            && !t.quarantined@.contains(t.tick.keys()[j]) implies #[trigger] batch_plan(t, events).contains(
            (t.tick.keys()[j], j, #[trigger] events[k]),
        ) by {
        assert(table_keys(t, events[k]) == t.tick.keys());
        lemma_plan_reaches_every_unquarantined_mod(t, events, k, j);
    }
    assert forall|k: int, j: int|
        0 <= k < events.len() && events[k] is PlayerJoin && 0 <= j < t.events.player_join.keys().len()
            && !t.quarantined@.contains(t.events.player_join.keys()[j]) implies #[trigger] batch_plan(t, events).contains(
            (t.events.player_join.keys()[j], j, #[trigger] events[k]),
        ) by {
        assert(table_keys(t, events[k]) == t.events.player_join.keys());
        lemma_plan_reaches_every_unquarantined_mod(t, events, k, j);
    }
    assert forall|k: int, j: int|
        0 <= k < events.len() && events[k] is PlayerLeave && 0 <= j < t.events.player_leave.keys().len()
            && !t.quarantined@.contains(t.events.player_leave.keys()[j]) implies #[trigger] batch_plan(t, events).contains(
            (t.events.player_leave.keys()[j], j, #[trigger] events[k]),
        ) by {
        assert(table_keys(t, events[k]) == t.events.player_leave.keys());
        lemma_plan_reaches_every_unquarantined_mod(t, events, k, j);
    }
    assert forall|k: int, j: int|
        0 <= k < events.len() && events[k] is ChatMessage && 0 <= j < t.events.chat_message.keys().len()
            && !t.quarantined@.contains(t.events.chat_message.keys()[j]) implies #[trigger] batch_plan(t, events).contains(
            (t.events.chat_message.keys()[j], j, #[trigger] events[k]),
        ) by {
        assert(table_keys(t, events[k]) == t.events.chat_message.keys());
        lemma_plan_reaches_every_unquarantined_mod(t, events, k, j);
    }
    assert forall|k: int, j: int|
        0 <= k < events.len() && events[k] is BlockBreak && 0 <= j < t.events.block_break.keys().len()
            && !t.quarantined@.contains(t.events.block_break.keys()[j]) implies #[trigger] batch_plan(t, events).contains(
            (t.events.block_break.keys()[j], j, #[trigger] events[k]),
        ) by {
        assert(table_keys(t, events[k]) == t.events.block_break.keys());
        lemma_plan_reaches_every_unquarantined_mod(t, events, k, j);
    }
    assert forall|k: int, j: int|
        0 <= k < events.len() && events[k] is BlockPlace && 0 <= j < t.events.block_place.keys().len()
            && !t.quarantined@.contains(t.events.block_place.keys()[j]) implies #[trigger] batch_plan(t, events).contains(
            (t.events.block_place.keys()[j], j, #[trigger] events[k]),
        ) by {
        assert(table_keys(t, events[k]) == t.events.block_place.keys());
        lemma_plan_reaches_every_unquarantined_mod(t, events, k, j);
    }
    assert forall|k: int, j: int|
        0 <= k < events.len() && events[k] is PlayerDeath && 0 <= j < t.events.player_death.keys().len()
            && !t.quarantined@.contains(t.events.player_death.keys()[j]) implies #[trigger] batch_plan(t, events).contains(
            (t.events.player_death.keys()[j], j, #[trigger] events[k]),
        ) by {
        assert(table_keys(t, events[k]) == t.events.player_death.keys());
        lemma_plan_reaches_every_unquarantined_mod(t, events, k, j);
    }
}

} // verus!
