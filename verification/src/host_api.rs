//! Per-runtime registries shared between the runtime and the host: mod
//! configs, commands, event callbacks, the cross-thread outbox and the
//! cached world snapshot.
use vstd::prelude::*;
use crate::names::{NameMap, NameSet};
use vstd::utf8::{decode_utf8, valid_utf8};
use crate::text::{owned, push_str, string_from_utf8_lossy, lossy_decode};
use crate::wire::{
    le_u16, le_u32, le_i64, read_u16_le, read_u32_le, read_i64_le, u16_bytes, u32_bytes, u64_bytes,
    lemma_u16_round_trip, lemma_u32_round_trip, lemma_i64_round_trip,
};

verus! {

// ---------------------------------------------------------------------------
// Mod config storage
// ---------------------------------------------------------------------------

/// The raw `config.toml` of each loaded mod, by mod name.
pub struct ConfigStore {
    configs: NameMap<Vec<u8>>,
}

impl ConfigStore {
    /// The stored configs.
    pub closed spec fn view(&self) -> Map<Seq<char>, Seq<u8>> {
        self.configs.view().map_values(|v: Vec<u8>| v@)
    }

    /// An empty store.
    pub fn new() -> (s: Self)
        ensures
            s@ == Map::<Seq<char>, Seq<u8>>::empty(),
    {
        let s = ConfigStore { configs: NameMap::new() };
        assert(s@ =~= Map::<Seq<char>, Seq<u8>>::empty());
        s
    }

    /// Store (or replace) the config of mod `name`.
    pub fn insert(&mut self, name: &str, data: Vec<u8>)
        ensures
            final(self)@ == old(self)@.insert(name@, data@),
    {
        self.configs.insert(owned(name), data);
        assert(self@ =~= old(self)@.insert(name@, data@));
    }

    /// A copy of the config of mod `name`, if it has one.
    pub fn get(&self, name: &str) -> (r: Option<Vec<u8>>)
        ensures
            r is None <==> !self@.contains_key(name@),
            r matches Some(v) ==> v@ == self@[name@],
    {
        match self.configs.get(name) {
            Some(v) => {
                let c = v.clone();
                assert(c@ =~= v@);
                Some(c)
            },
            None => None,
        }
    }
}

// ---------------------------------------------------------------------------
// Command registry
// ---------------------------------------------------------------------------

/// The error text for a second registration of command `name`.
pub open spec fn duplicate_command_message(name: Seq<char>) -> Seq<char> {
    "command '/"@ + name + "' already registered by another mod"@
}

/// Registered chat commands and their callbacks, by command name.
pub struct CommandRegistry<C> {
    commands: NameMap<C>,
}

impl<C: Copy> CommandRegistry<C> {
    /// The registered callbacks.
    pub closed spec fn view(&self) -> Map<Seq<char>, C> {
        self.commands.view()
    }

    /// An empty registry.
    pub fn new() -> (r: Self)
        ensures
            r@ == Map::<Seq<char>, C>::empty(),
    {
        CommandRegistry { commands: NameMap::new() }
    }

    /// Register `callback` under `name`. A name that is already taken is
    /// refused and the registry is left as it was.
    pub fn register(&mut self, name: &str, callback: C) -> (r: Result<(), String>)
        ensures
            r is Ok <==> !old(self)@.contains_key(name@),
            r is Ok ==> final(self)@ == old(self)@.insert(name@, callback),
            r matches Err(msg) ==> final(self)@ == old(self)@ && msg@
                == duplicate_command_message(name@),
    {
        if self.commands.contains_key(name) {
            let mut msg = owned("command '/");
            push_str(&mut msg, name);
            push_str(&mut msg, "' already registered by another mod");
            return Err(msg);
        }
        self.commands.insert(owned(name), callback);
        Ok(())
    }

    /// The callback registered under `name`, if any.
    pub fn lookup(&self, name: &str) -> (r: Option<C>)
        ensures
            r is None <==> !self@.contains_key(name@),
            r matches Some(c) ==> c == self@[name@],
    {
        match self.commands.get(name) {
            Some(c) => Some(*c),
            None => None,
        }
    }

    /// Hand `args` to the callback registered under `name`, through
    /// `invoke`; false when no command has that name.
    pub fn dispatch<F>(&self, name: &str, args: &str, invoke: F) -> (handled: bool)
        where
            F: FnOnce(C, &str),
        requires
            self@.contains_key(name@) ==> invoke.requires((self@[name@], args)),
        ensures
            handled == self@.contains_key(name@),
            handled ==> invoke.ensures((self@[name@], args), ()),
    {
        match self.lookup(name) {
            Some(cb) => {
                invoke(cb, args);
                true
            },
            None => false,
        }
    }
}

// ---------------------------------------------------------------------------
// Event callback tables
// ---------------------------------------------------------------------------

/// Per-event callbacks of the loaded mods, by mod name. `P` is the type
/// of the one-string callbacks (join, leave), `S` that of the two-string
/// ones (chat, block break and place, death).
pub struct ModEventCallbacks<P, S> {
    pub player_join: NameMap<P>,
    pub player_leave: NameMap<P>,
    pub chat_message: NameMap<S>,
    pub block_break: NameMap<S>,
    pub block_place: NameMap<S>,
    pub player_death: NameMap<S>,
}

impl<P, S> ModEventCallbacks<P, S> {
    /// No callbacks at all.
    pub open spec fn is_empty(&self) -> bool {
        &&& self.player_join.keys().len() == 0
        &&& self.player_leave.keys().len() == 0
        &&& self.chat_message.keys().len() == 0
        &&& self.block_break.keys().len() == 0
        &&& self.block_place.keys().len() == 0
        &&& self.player_death.keys().len() == 0
    }

    /// Empty tables.
    pub fn new() -> (c: Self)
        ensures
            c.is_empty(),
    {
        ModEventCallbacks {
            player_join: NameMap::new(),
            player_leave: NameMap::new(),
            chat_message: NameMap::new(),
            block_break: NameMap::new(),
            block_place: NameMap::new(),
            player_death: NameMap::new(),
        }
    }
}

/// Everything a dispatch cycle reads: tick callbacks (`T`), event
/// callbacks, and the mods quarantined after a panic.
pub struct DispatchTables<T, P, S> {
    pub tick: NameMap<T>,
    pub events: ModEventCallbacks<P, S>,
    pub quarantined: NameSet,
}

impl<T, P, S> DispatchTables<T, P, S> {
    /// Empty tables with nobody quarantined.
    pub fn new() -> (d: Self)
        ensures
            d.tick.keys().len() == 0,
            d.events.is_empty(),
            d.quarantined@ == Set::<Seq<char>>::empty(),
    {
        DispatchTables { tick: NameMap::new(), events: ModEventCallbacks::new(), quarantined: NameSet::new() }
    }
}

// ---------------------------------------------------------------------------
// World snapshot
// ---------------------------------------------------------------------------

/// The world state the host serialises once per tick: player count,
/// world time and the names of the players online.
pub struct WorldSnapshot {
    pub player_count: u32,
    pub world_time: i64,
    pub player_names: Vec<String>,
}

/// The (start, length) of each length-prefixed name from `pos` on, at
/// most `remaining` of them, stopping at the first whose prefix or bytes
/// run past the end of `d`.
pub open spec fn name_spans(d: Seq<u8>, pos: int, remaining: nat) -> Seq<(int, int)>
    decreases remaining,
{
    if remaining == 0 || pos + 2 > d.len() {
        Seq::empty()
    } else {
        let len = le_u16(d, pos);
        let start = pos + 2;
        if start + len > d.len() {
            Seq::empty()
        } else {
            seq![(start, len)] + name_spans(d, start + len, (remaining - 1) as nat)
        }
    }
}

/// The text of a name's bytes: their UTF-8 decoding when they are valid
/// UTF-8, else their lenient decoding (invalid sequences replaced).
pub open spec fn name_text(b: Seq<u8>) -> Seq<char> {
    if valid_utf8(b) {
        decode_utf8(b)
    } else {
        lossy_decode(b)
    }
}

/// The text of a name span.
pub open spec fn span_text(d: Seq<u8>, s: (int, int)) -> Seq<char> {
    name_text(d.subrange(s.0, s.0 + s.1))
}

/// The player names of a serialised snapshot: up to the announced count
/// of names that lie wholly inside the buffer.
pub open spec fn snapshot_names(d: Seq<u8>) -> Seq<Seq<char>> {
    name_spans(d, 12, le_u32(d, 0) as nat).map_values(|s: (int, int)| span_text(d, s))
}

impl WorldSnapshot {
    /// The player names as text.
    pub open spec fn names_view(&self) -> Seq<Seq<char>> {
        self.player_names@.map_values(|s: String| s@)
    }

    /// Decode a snapshot: `u32` player count, `i64` world time, then that
    /// many `u16`-length-prefixed UTF-8 names, all little-endian. A buffer
    /// shorter than the 12-byte header is refused; names that do not fit
    /// in the buffer end the list.
    pub fn parse(data: &[u8]) -> (r: Option<Self>)
        ensures
            r is None <==> data@.len() < 12,
            r matches Some(s) ==> {
                &&& s.player_count == le_u32(data@, 0)
                &&& s.world_time == le_i64(data@, 4)
                &&& s.names_view() == snapshot_names(data@)
            },
    {
        if data.len() < 12 {
            return None;
        }
        let count = read_u32_le(data, 0);
        let time = read_i64_le(data, 4);
        let ghost d = data@;
        let ghost full = name_spans(d, 12, count as nat);
        let ghost mut done: Seq<(int, int)> = Seq::empty();
        let mut names: Vec<String> = Vec::new();
        let mut pos: usize = 12;
        let mut i: u32 = 0;
        while i < count
            invariant
                d == data@,
                12 <= pos <= data.len(),
                i <= count,
                full == name_spans(d, 12, count as nat),
                full == done + name_spans(d, pos as int, (count - i) as nat),
                names@.map_values(|s: String| s@) == done.map_values(
                    |s: (int, int)| span_text(d, s),
                ),
            ensures
                d == data@,
                12 <= pos <= data.len(),
                full == done + name_spans(d, pos as int, (count - i) as nat),
                names@.map_values(|s: String| s@) == done.map_values(
                    |s: (int, int)| span_text(d, s),
                ),
                name_spans(d, pos as int, (count - i) as nat) == Seq::<(int, int)>::empty(),
            decreases count - i,
        {
            if data.len() - pos < 2 {
                assert(name_spans(d, pos as int, (count - i) as nat) =~= Seq::<(int, int)>::empty());
                break;
            }
            let len = read_u16_le(data, pos) as usize;
            let start = pos + 2;
            if data.len() - start < len {
                assert(name_spans(d, pos as int, (count - i) as nat) =~= Seq::<(int, int)>::empty());
                break;
            }
            let name = string_from_utf8_lossy(&data[start..start + len]);
            proof {
                let rest = name_spans(d, (start + len) as int, (count - i - 1) as nat);
                assert(name_spans(d, pos as int, (count - i) as nat) == seq![
                    (start as int, len as int),
                ] + rest);
                assert(data@.subrange(start as int, (start + len) as int) =~= d.subrange(
                    start as int,
                    start + len,
                ));
                let old_names = names@.map_values(|s: String| s@);
                let new_done = done.push((start as int, len as int));
                assert(full =~= new_done + rest);
                done = new_done;
            }
            let ghost prev = names@;
            names.push(name);
            proof {
                assert(names@.map_values(|s: String| s@) =~= prev.map_values(|s: String| s@).push(
                    name@,
                ));
                assert(done.map_values(|s: (int, int)| span_text(d, s)) =~= done.drop_last().map_values(
                    |s: (int, int)| span_text(d, s),
                ).push(span_text(d, (start as int, len as int))));
            }
            pos = start + len;
            i = i + 1;
        }
        proof {
            assert(full =~= done);
        }
        Some(WorldSnapshot { player_count: count, world_time: time, player_names: names })
    }
}

/// Player names as the host writes them: each as a `u16` length and its
/// bytes.
pub open spec fn wire_names(names: Seq<Seq<u8>>) -> Seq<u8>
    decreases names.len(),
{
    if names.len() == 0 {
        Seq::empty()
    } else {
        u16_bytes(names[0].len() as u16) + names[0] + wire_names(names.drop_first())
    }
}

/// A snapshot as the host writes it.
pub open spec fn wire_snapshot(count: u32, time: i64, names: Seq<Seq<u8>>) -> Seq<u8> {
    u32_bytes(count) + u64_bytes(time as u64) + wire_names(names)
}

proof fn lemma_read_wire_names(d: Seq<u8>, p: int, names: Seq<Seq<u8>>)
    requires
        0 <= p,
        p + wire_names(names).len() <= d.len(),
        d.subrange(p, p + wire_names(names).len()) == wire_names(names),
        forall|i: int| 0 <= i < names.len() ==> (#[trigger] names[i]).len() < 65536,
    ensures
        name_spans(d, p, names.len()).map_values(|s: (int, int)| span_text(d, s)) == names.map_values(
            |n: Seq<u8>| name_text(n),
        ),
    decreases names.len(),
{
    if names.len() == 0 {
        assert(name_spans(d, p, 0).map_values(|s: (int, int)| span_text(d, s)) =~= names.map_values(
            |n: Seq<u8>| name_text(n),
        ));
    } else {
        let n0 = names[0];
        let len = n0.len() as u16;
        let rest = names.drop_first();
        let w = wire_names(names);
        let wr = wire_names(rest);
        assert(w == u16_bytes(len) + n0 + wr);
        assert forall|i: int| 0 <= i < w.len() implies d[p + i] == #[trigger] w[i] by {
            assert(d.subrange(p, p + w.len())[i] == w[i]);
        }
        assert(d.subrange(p, p + 2) =~= u16_bytes(len)) by {
            assert(d[p] == w[0]);
            assert(d[p + 1] == w[1]);
        }
        lemma_u16_round_trip(d, p, len);
        let start = p + 2;
        let next = start + n0.len();
        assert(d.subrange(start, next) =~= n0) by {
            assert forall|i: int| 0 <= i < n0.len() implies d.subrange(start, next)[i] == n0[i] by {
                assert(d[p + 2 + i] == w[2 + i]);
            }
        }
        assert(d.subrange(next, next + wr.len()) =~= wr) by {
            assert forall|i: int| 0 <= i < wr.len() implies d.subrange(next, next + wr.len())[i]
                == wr[i] by {
                assert(d[next + i] == w[2 + n0.len() + i]);
            }
        }
        assert forall|i: int| 0 <= i < rest.len() implies (#[trigger] rest[i]).len() < 65536 by {
            assert(rest[i] == names[i + 1]);
        }
        lemma_read_wire_names(d, next, rest);
        let spans = name_spans(d, p, names.len());
        let tail = name_spans(d, next, rest.len());
        assert(spans == seq![(start, n0.len() as int)] + tail);
        assert(spans.map_values(|s: (int, int)| span_text(d, s)) =~= seq![name_text(n0)]
            + tail.map_values(|s: (int, int)| span_text(d, s)));
        assert(names.map_values(|n: Seq<u8>| name_text(n)) =~= seq![name_text(n0)]
            + rest.map_values(|n: Seq<u8>| name_text(n)));
    }
}

/// Reading a snapshot gives back what the host wrote: the count, the
/// world time, and each name's text, exactly its decoding when the name
/// is valid UTF-8.
pub proof fn lemma_snapshot_round_trip(time: i64, names: Seq<Seq<u8>>)
    requires
        names.len() <= u32::MAX,
        forall|i: int| 0 <= i < names.len() ==> (#[trigger] names[i]).len() < 65536,
    ensures
        ({
            let d = wire_snapshot(names.len() as u32, time, names);
            &&& d.len() >= 12
            &&& le_u32(d, 0) == names.len()
            &&& le_i64(d, 4) == time
            &&& snapshot_names(d) == names.map_values(|n: Seq<u8>| name_text(n))
        }),
{
    let count = names.len() as u32;
    let d = wire_snapshot(count, time, names);
    assert(d.subrange(0, 4) =~= u32_bytes(count));
    lemma_u32_round_trip(d, 0, count);
    assert(d.subrange(4, 12) =~= u64_bytes(time as u64));
    lemma_i64_round_trip(d, 4, time);
    let w = wire_names(names);
    assert(d.subrange(12, 12 + w.len() as int) =~= w);
    lemma_read_wire_names(d, 12, names);
}

// ---------------------------------------------------------------------------
// Cross-thread outbox
// ---------------------------------------------------------------------------

/// A game-state write requested off the game main thread, held until the
/// next tick delivers it on the main thread.
pub enum Outbound {
    Message(String),
    Command(String),
}

/// What an outbound write is: its kind (true for a chat message) and text.
pub open spec fn outbound_view(o: Outbound) -> (bool, Seq<char>) {
    match o {
        Outbound::Message(m) => (true, m@),
        Outbound::Command(c) => (false, c@),
    }
}

/// Writes queued for the main thread, in the order they were requested.
pub struct Outbox {
    pending: Vec<Outbound>,
}

impl Outbox {
    /// The queued writes, oldest first.
    pub closed spec fn view(&self) -> Seq<(bool, Seq<char>)> {
        self.pending@.map_values(|o: Outbound| outbound_view(o))
    }

    /// An empty outbox.
    pub fn new() -> (o: Self)
        ensures
            o@ == Seq::<(bool, Seq<char>)>::empty(),
    {
        let o = Outbox { pending: Vec::new() };
        assert(o@ =~= Seq::<(bool, Seq<char>)>::empty());
        o
    }

    /// Queue a chat message.
    pub fn queue_message(&mut self, msg: &str)
        ensures
            final(self)@ == old(self)@.push((true, msg@)),
    {
        self.pending.push(Outbound::Message(owned(msg)));
        assert(self@ =~= old(self)@.push((true, msg@)));
    }

    /// Queue a console command.
    pub fn queue_command(&mut self, cmd: &str)
        ensures
            final(self)@ == old(self)@.push((false, cmd@)),
    {
        self.pending.push(Outbound::Command(owned(cmd)));
        assert(self@ =~= old(self)@.push((false, cmd@)));
    }

    /// Routes a chat message: on the game main thread it is to go out at
    /// once (`true`, nothing queued); from any other thread it is queued
    /// for the next tick (`false`).
    pub fn route_message(&mut self, on_main_thread: bool, msg: &str) -> (deliver_now: bool)
        ensures
            deliver_now == on_main_thread,
            on_main_thread ==> final(self)@ == old(self)@,
            !on_main_thread ==> final(self)@ == old(self)@.push((true, msg@)),
    {
        if !on_main_thread {
            self.queue_message(msg);
        }
        on_main_thread
    }

    /// Routes a console command as [`Outbox::route_message`] routes a
    /// message.
    pub fn route_command(&mut self, on_main_thread: bool, cmd: &str) -> (deliver_now: bool)
        ensures
            deliver_now == on_main_thread,
            on_main_thread ==> final(self)@ == old(self)@,
            !on_main_thread ==> final(self)@ == old(self)@.push((false, cmd@)),
    {
        if !on_main_thread {
            self.queue_command(cmd);
        }
        on_main_thread
    }

    /// Take every queued write, oldest first, leaving the outbox empty.
    pub fn take_all(&mut self) -> (items: Vec<Outbound>)
        ensures
            items@.map_values(|o: Outbound| outbound_view(o)) == old(self)@,
            final(self)@ == Seq::<(bool, Seq<char>)>::empty(),
    {
        let mut items = Vec::new();
        std::mem::swap(&mut items, &mut self.pending);
        assert(self@ =~= Seq::<(bool, Seq<char>)>::empty());
        items
    }

    /// Number of queued writes.
    pub fn len(&self) -> (n: usize)
        ensures
            n == self@.len(),
    {
        self.pending.len()
    }
}

} // verus!
