//! The runtime kernel: one per runtime handle, owning every per-runtime
//! registry, with a three-state lifecycle.
use vstd::prelude::*;
use crate::abi::{RESULT_ERR_WRONG_STATE, RESULT_OK};
use crate::error::ErrorChannel;
use crate::host_api::{CommandRegistry, ConfigStore, DispatchTables, Outbox, WorldSnapshot};
use crate::mod_loader::ModRegistry;
use crate::names::NameMap;
use crate::text::{join_with, owned};
use crate::exports::fit_to_buffer;
use vstd::string::StringSliceAdditionalSpecFns;
use vstd::utf8::encode_utf8;

verus! {

// ---------------------------------------------------------------------------
// Lifecycle state machine
// ---------------------------------------------------------------------------

/// A stage in a runtime's life. A kernel starts `Ready` and moves
/// forward only: `Ready` to `ShuttingDown` to `Dead`.
#[derive(Debug, Clone, Copy, PartialEq, Eq, Structural)]
pub enum RuntimeState {
    Ready,
    ShuttingDown,
    Dead,
}

/// The two legal moves of the lifecycle.
pub open spec fn legal_transition(from: RuntimeState, to: RuntimeState) -> bool {
    (from == RuntimeState::Ready && to == RuntimeState::ShuttingDown) || (from
        == RuntimeState::ShuttingDown && to == RuntimeState::Dead)
}

impl RuntimeState {
    /// Whether moving from `self` to `target` is legal.
    pub fn can_transition_to(self, target: RuntimeState) -> (ok: bool)
        ensures
            ok == legal_transition(self, target),
    {
        match (self, target) {
            (RuntimeState::Ready, RuntimeState::ShuttingDown) => true,
            (RuntimeState::ShuttingDown, RuntimeState::Dead) => true,
            _ => false,
        }
    }

    /// The state's name as the runtime prints it.
    pub fn name(self) -> (s: &'static str)
        ensures
            self == RuntimeState::Ready ==> s@ == "READY"@,
            self == RuntimeState::ShuttingDown ==> s@ == "SHUTTING_DOWN"@,
            self == RuntimeState::Dead ==> s@ == "DEAD"@,
    {
        match self {
            RuntimeState::Ready => "READY",
            RuntimeState::ShuttingDown => "SHUTTING_DOWN",
            RuntimeState::Dead => "DEAD",
        }
    }
}

/// How far along the lifecycle a state is.
pub open spec fn stage(s: RuntimeState) -> int {
    match s {
        RuntimeState::Ready => 0,
        RuntimeState::ShuttingDown => 1,
        RuntimeState::Dead => 2,
    }
}

/// The lifecycle only moves forward, one stage at a time, and nothing
/// leaves `Dead`.
pub proof fn lemma_lifecycle_moves_forward(from: RuntimeState, to: RuntimeState)
    ensures
        legal_transition(from, to) ==> stage(to) == stage(from) + 1,
        from == RuntimeState::Dead ==> !legal_transition(from, to),
        !legal_transition(from, from),
{
}

// ---------------------------------------------------------------------------
// Kernel
// ---------------------------------------------------------------------------

/// The types a runtime is built from: what keeps a loaded mod alive, the
/// callback types a mod exports, and the host connection.
pub trait ModAbi {
    type Loaded;
    type Tick: Copy;
    type OneStr: Copy;
    type TwoStr: Copy;
    type Hook: Copy;
    type Command: Copy;
    type Host;
}

/// Per-runtime lifecycle callbacks, by mod name.
pub struct LifecycleRegistry<L> {
    pub server_start: NameMap<L>,
    pub server_stop: NameMap<L>,
}

/// The optional callbacks a mod exports.
pub struct ModExports<A: ModAbi> {
    pub tick_callback: Option<A::Tick>,
    pub server_start_callback: Option<A::Hook>,
    pub server_stop_callback: Option<A::Hook>,
    pub player_join_callback: Option<A::OneStr>,
    pub player_leave_callback: Option<A::OneStr>,
    pub chat_message_callback: Option<A::TwoStr>,
    pub block_break_callback: Option<A::TwoStr>,
    pub block_place_callback: Option<A::TwoStr>,
    pub player_death_callback: Option<A::TwoStr>,
}

/// All per-runtime mutable state.
pub struct RuntimeData<A: ModAbi> {
    pub registry: ModRegistry<A::Loaded>,
    pub dispatch: DispatchTables<A::Tick, A::OneStr, A::TwoStr>,
    pub lifecycle: LifecycleRegistry<A::Hook>,
    pub errors: ErrorChannel,
    pub host_api: A::Host,
    pub outbox: Outbox,
    pub commands: CommandRegistry<A::Command>,
    pub configs: ConfigStore,
    /// World snapshot refreshed once per tick while someone consumes it.
    pub snapshot: Option<WorldSnapshot>,
    /// Reusable buffer for the snapshot upcall.
    pub snapshot_buf: Vec<u8>,
    /// Live consumers of the per-tick snapshot refresh; while zero the
    /// refresh is skipped.
    pub snapshot_consumers: u32,
}

/// `m2` is `m` with `v` inserted under `k` when there is a `v`, and `m`
/// itself otherwise.
pub open spec fn insert_if<V>(m: Map<Seq<char>, V>, k: Seq<char>, v: Option<V>, m2: Map<Seq<char>, V>) -> bool {
    match v {
        Some(x) => m2 == m.insert(k, x),
        None => m2 == m,
    }
}

/// A freshly created runtime's state: nothing loaded, registered,
/// quarantined, queued or cached.
pub open spec fn fresh_data<A: ModAbi>(d: RuntimeData<A>) -> bool {
    &&& d.registry@ == Map::<Seq<char>, A::Loaded>::empty()
    &&& d.dispatch.tick.keys().len() == 0
    &&& d.dispatch.events.is_empty()
    &&& d.dispatch.quarantined@ == Set::<Seq<char>>::empty()
    &&& d.lifecycle.server_start.keys().len() == 0
    &&& d.lifecycle.server_stop.keys().len() == 0
    &&& d.errors@ == Seq::<(u64, Seq<char>)>::empty()
    &&& d.outbox@ == Seq::<(bool, Seq<char>)>::empty()
    &&& d.commands@ == Map::<Seq<char>, A::Command>::empty()
    &&& d.configs@ == Map::<Seq<char>, Seq<u8>>::empty()
    &&& d.snapshot is None
    &&& d.snapshot_buf@.len() == 0
    &&& d.snapshot_consumers == 0
}

impl<A: ModAbi> RuntimeData<A> {
    /// Register a freshly loaded mod: record it, store its config, and
    /// enter each callback it exports in the matching table.
    pub fn register_mod(
        &mut self,
        name: &str,
        loaded: A::Loaded,
        exports: ModExports<A>,
        config: Option<Vec<u8>>,
    )
        ensures
            final(self).registry@ == old(self).registry@.insert(name@, loaded),
            config matches Some(c) ==> final(self).configs@ == old(self).configs@.insert(name@, c@),
            config is None ==> final(self).configs@ == old(self).configs@,
            insert_if(old(self).lifecycle.server_start@, name@, exports.server_start_callback, final(self).lifecycle.server_start@),
            insert_if(old(self).lifecycle.server_stop@, name@, exports.server_stop_callback, final(self).lifecycle.server_stop@),
            insert_if(old(self).dispatch.tick@, name@, exports.tick_callback, final(self).dispatch.tick@),
            insert_if(old(self).dispatch.events.player_join@, name@, exports.player_join_callback, final(self).dispatch.events.player_join@),
            insert_if(old(self).dispatch.events.player_leave@, name@, exports.player_leave_callback, final(self).dispatch.events.player_leave@),
            insert_if(old(self).dispatch.events.chat_message@, name@, exports.chat_message_callback, final(self).dispatch.events.chat_message@),
            insert_if(old(self).dispatch.events.block_break@, name@, exports.block_break_callback, final(self).dispatch.events.block_break@),
            insert_if(old(self).dispatch.events.block_place@, name@, exports.block_place_callback, final(self).dispatch.events.block_place@),
            insert_if(old(self).dispatch.events.player_death@, name@, exports.player_death_callback, final(self).dispatch.events.player_death@),
            final(self).dispatch.quarantined@ == old(self).dispatch.quarantined@,
            final(self).commands@ == old(self).commands@,
            final(self).errors@ == old(self).errors@,
            final(self).errors.last_id() == old(self).errors.last_id(),
            final(self).outbox@ == old(self).outbox@,
            final(self).host_api == old(self).host_api,
            final(self).snapshot == old(self).snapshot,
            final(self).snapshot_buf@ == old(self).snapshot_buf@,
            final(self).snapshot_consumers == old(self).snapshot_consumers,
    {
        self.registry.insert(owned(name), loaded);
        if let Some(cfg) = config {
            self.configs.insert(name, cfg);
        }
        if let Some(cb) = exports.server_start_callback {
            self.lifecycle.server_start.insert(owned(name), cb);
        }
        if let Some(cb) = exports.server_stop_callback {
            self.lifecycle.server_stop.insert(owned(name), cb);
        }
        if let Some(cb) = exports.tick_callback {
            self.dispatch.tick.insert(owned(name), cb);
        }
        if let Some(cb) = exports.player_join_callback {
            self.dispatch.events.player_join.insert(owned(name), cb);
        }
        if let Some(cb) = exports.player_leave_callback {
            self.dispatch.events.player_leave.insert(owned(name), cb);
        }
        if let Some(cb) = exports.chat_message_callback {
            self.dispatch.events.chat_message.insert(owned(name), cb);
        }
        if let Some(cb) = exports.block_break_callback {
            self.dispatch.events.block_break.insert(owned(name), cb);
        }
        if let Some(cb) = exports.block_place_callback {
            self.dispatch.events.block_place.insert(owned(name), cb);
        }
        if let Some(cb) = exports.player_death_callback {
            self.dispatch.events.player_death.insert(owned(name), cb);
        }
    }
}

/// The consumer count after a snapshot query: the refresh switches on at
/// the first query and stays on.
pub open spec fn opened(consumers: u32) -> u32 {
    if consumers == 0 {
        1
    } else {
        consumers
    }
}

/// The bytes of the player names joined by commas.
pub open spec fn player_list_bytes(names: Seq<String>) -> Seq<u8> {
    join_with(names.map_values(|n: String| encode_utf8(n@)), 44u8)
}

impl<A: ModAbi> RuntimeData<A> {
    /// Whether the per-tick snapshot refresh should run: only while some
    /// query consumes it.
    pub fn snapshot_wanted(&self) -> (b: bool)
        ensures
            b == (self.snapshot_consumers > 0),
    {
        self.snapshot_consumers > 0
    }

    /// Cache a freshly refreshed snapshot.
    pub fn store_snapshot(&mut self, snap: WorldSnapshot)
        ensures
            *final(self) == (RuntimeData { snapshot: Some(snap), ..*old(self) }),
    {
        self.snapshot = Some(snap);
    }

    /// Register a snapshot consumer: the first query switches the
    /// per-tick refresh on.
    pub fn want_snapshot(&mut self)
        ensures
            *final(self) == (RuntimeData { snapshot_consumers: opened(old(self).snapshot_consumers), ..*old(self) }),
    {
        if self.snapshot_consumers == 0 {
            self.snapshot_consumers = 1;
        }
    }

    /// The online player count from the cached snapshot; -1 until the
    /// first refresh. Switches the refresh on.
    pub fn snapshot_player_count(&mut self) -> (n: i32)
        ensures
            *final(self) == (RuntimeData { snapshot_consumers: opened(old(self).snapshot_consumers), ..*old(self) }),
            old(self).snapshot matches Some(s) ==> n == s.player_count as i32,
            old(self).snapshot is None ==> n == -1,
    {
        self.want_snapshot();
        match &self.snapshot {
            Some(s) => s.player_count as i32,
            None => -1,
        }
    }

    /// The world time from the cached snapshot; -1 until the first
    /// refresh. Switches the refresh on.
    pub fn snapshot_world_time(&mut self) -> (t: i64)
        ensures
            *final(self) == (RuntimeData { snapshot_consumers: opened(old(self).snapshot_consumers), ..*old(self) }),
            old(self).snapshot matches Some(s) ==> t == s.world_time,
            old(self).snapshot is None ==> t == -1,
    {
        self.want_snapshot();
        match &self.snapshot {
            Some(s) => s.world_time,
            None => -1,
        }
    }

    /// The cached player names joined by commas, cut to `cap` bytes;
    /// empty until the first refresh. Switches the refresh on.
    pub fn snapshot_player_list(&mut self, cap: u32) -> (out: Vec<u8>)
        ensures
            *final(self) == (RuntimeData { snapshot_consumers: opened(old(self).snapshot_consumers), ..*old(self) }),
            old(self).snapshot matches Some(s) ==> out@ == player_list_bytes(s.player_names@).take(
                out@.len() as int,
            ) && out@.len() == (if player_list_bytes(s.player_names@).len() < cap {
                player_list_bytes(s.player_names@).len() as int
            } else {
                cap as int
            }),
            old(self).snapshot is None ==> out@.len() == 0,
    {
        self.want_snapshot();
        match &self.snapshot {
            Some(s) => {
                let joined = join_names_bytes(&s.player_names);
                let fitted = fit_to_buffer(joined.as_slice(), cap);
                let mut out: Vec<u8> = Vec::new();
                out.extend_from_slice(fitted);
                assert(out@ =~= fitted@);
                out
            },
            None => Vec::new(),
        }
    }
}

/// The UTF-8 bytes of `names` joined by commas.
fn join_names_bytes(names: &Vec<String>) -> (out: Vec<u8>)
    ensures
        out@ == player_list_bytes(names@),
{
    let ghost parts = names@.map_values(|n: String| encode_utf8(n@));
    let mut out: Vec<u8> = Vec::new();
    let mut i: usize = 0;
    while i < names.len()
        invariant
            i <= names@.len(),
            parts == names@.map_values(|n: String| encode_utf8(n@)),
            out@ == join_with(parts.take(i as int), 44u8),
        decreases names.len() - i,
    {
        let ghost prev = out@;
        if i > 0 {
            out.push(44u8);
        }
        let b = names[i].as_str().as_bytes();
        out.extend_from_slice(b);
        proof {
            let t = parts.take(i + 1);
            assert(t.drop_last() =~= parts.take(i as int));
            assert(t.last() == b@);
            if i == 0 {
                assert(out@ =~= t[0]);
            } else {
                assert(out@ =~= prev + seq![44u8] + b@);
            }
        }
        i = i + 1;
    }
    assert(parts.take(names.len() as int) =~= parts);
    out
}

/// A runtime kernel: its data and its lifecycle state.
pub struct RuntimeKernel<A: ModAbi> {
    data: RuntimeData<A>,
    state: RuntimeState,
}

impl<A: ModAbi> RuntimeKernel<A> {
    /// The kernel's data.
    pub closed spec fn data_view(&self) -> RuntimeData<A> {
        self.data
    }

    /// The kernel's lifecycle state.
    pub closed spec fn state_view(&self) -> RuntimeState {
        self.state
    }

    /// A new kernel in the `Ready` state with empty registries, talking to
    /// the host through `host`.
    pub fn new(host: A::Host) -> (k: Self)
        ensures
            k.state_view() == RuntimeState::Ready,
            fresh_data(k.data_view()),
            k.data_view().host_api == host,
    {
        RuntimeKernel {
            data: RuntimeData {
                registry: ModRegistry::new(),
                dispatch: DispatchTables::new(),
                lifecycle: LifecycleRegistry { server_start: NameMap::new(), server_stop: NameMap::new() },
                errors: ErrorChannel::new(),
                host_api: host,
                outbox: Outbox::new(),
                commands: CommandRegistry::new(),
                configs: ConfigStore::new(),
                snapshot: None,
                snapshot_buf: Vec::new(),
                snapshot_consumers: 0,
            },
            state: RuntimeState::Ready,
        }
    }

    /// The kernel's data, for reading.
    pub fn data(&self) -> (d: &RuntimeData<A>)
        ensures
            *d == self.data_view(),
    {
        &self.data
    }

    /// The kernel's data, for changing. The lifecycle state is untouched.
    pub fn data_mut(&mut self) -> (d: &mut RuntimeData<A>)
        ensures
            *d == old(self).data_view(),
            final(self).data_view() == *final(d),
            final(self).state_view() == old(self).state_view(),
    {
        &mut self.data
    }

    /// The current lifecycle state.
    pub fn state(&self) -> (s: RuntimeState)
        ensures
            s == self.state_view(),
    {
        self.state
    }

    /// Begin shutdown: `Ready` to `ShuttingDown`. From any other state the
    /// move is refused with the current state and nothing changes.
    pub fn begin_shutdown(&mut self) -> (r: Result<(), RuntimeState>)
        ensures
            r is Ok <==> old(self).state_view() == RuntimeState::Ready,
            r is Ok ==> final(self).state_view() == RuntimeState::ShuttingDown,
            r matches Err(s) ==> s == old(self).state_view() && final(self).state_view() == old(
                self,
            ).state_view(),
            final(self).data_view() == old(self).data_view(),
    {
        let target = RuntimeState::ShuttingDown;
        if self.state.can_transition_to(target) {
            self.state = target;
            Ok(())
        } else {
            Err(self.state)
        }
    }

    /// Shut the kernel down, `Ready` through `ShuttingDown` to `Dead`,
    /// answering the host's result code: `RESULT_OK`, or
    /// `RESULT_ERR_WRONG_STATE` with nothing changed when the kernel is not
    /// `Ready` (a second shutdown).
    pub fn shutdown(&mut self) -> (code: u32)
        ensures
            old(self).state_view() == RuntimeState::Ready ==> code == RESULT_OK
                && final(self).state_view() == RuntimeState::Dead,
            old(self).state_view() != RuntimeState::Ready ==> code == RESULT_ERR_WRONG_STATE
                && final(self).state_view() == old(self).state_view(),
            final(self).data_view() == old(self).data_view(),
    {
        if self.begin_shutdown().is_err() {
            return RESULT_ERR_WRONG_STATE;
        }
        match self.finish_shutdown() {
            Ok(()) => RESULT_OK,
            Err(_) => RESULT_ERR_WRONG_STATE,
        }
    }

    /// Complete shutdown: `ShuttingDown` to `Dead`. From any other state
    /// the move is refused with the current state and nothing changes.
    pub fn finish_shutdown(&mut self) -> (r: Result<(), RuntimeState>)
        ensures
            r is Ok <==> old(self).state_view() == RuntimeState::ShuttingDown,
            r is Ok ==> final(self).state_view() == RuntimeState::Dead,
            r matches Err(s) ==> s == old(self).state_view() && final(self).state_view() == old(
                self,
            ).state_view(),
            final(self).data_view() == old(self).data_view(),
    {
        let target = RuntimeState::Dead;
        if self.state.can_transition_to(target) {
            self.state = target;
            Ok(())
        } else {
            Err(self.state)
        }
    }
}

} // verus!
