//! The mod-side SDK: player-list parsing, log levels, the command
//! trampoline pool, the current-runtime slot, the mod context and the
//! event kinds a mod can handle.
use vstd::prelude::*;
use crate::text::{
    chars_of, decimal, join_with, lossy_decode, owned, push_decimal, push_str, str_eq,
    string_from_chars, string_from_utf8_lossy, str_or,
};
use vstd::utf8::{decode_utf8, valid_utf8};

verus! {

// ---------------------------------------------------------------------------
// Event payload text
// ---------------------------------------------------------------------------

/// The text of an event payload without copying: empty when there is no
/// payload (a null pointer, such as `player_death`'s missing cause),
/// `"<invalid utf-8>"` when the bytes are not UTF-8.
pub fn read_str<'a>(bytes: Option<&'a [u8]>) -> (s: &'a str)
    ensures
        bytes is None ==> s@ == Seq::<char>::empty(),
        bytes matches Some(b) ==> (valid_utf8(b@) ==> s@ == decode_utf8(b@)),
        bytes matches Some(b) ==> (!valid_utf8(b@) ==> s@ == "<invalid utf-8>"@),
{
    str_or(bytes, "<invalid utf-8>")
}

// ---------------------------------------------------------------------------
// Player list
// ---------------------------------------------------------------------------

/// The pieces of `s` between occurrences of `sep` (`str::split`): one
/// more piece than there are separators, empty pieces included.
pub open spec fn split_on(s: Seq<char>, sep: char) -> Seq<Seq<char>>
    decreases s.len(),
{
    if s.len() == 0 {
        seq![Seq::<char>::empty()]
    } else {
        let rest = split_on(s.drop_last(), sep);
        if s.last() == sep {
            rest.push(Seq::<char>::empty())
        } else {
            rest.update(rest.len() - 1, rest.last().push(s.last()))
        }
    }
}

/// `split_on` never yields an empty list of pieces.
pub proof fn lemma_split_on_nonempty(s: Seq<char>, sep: char)
    ensures
        split_on(s, sep).len() >= 1,
    decreases s.len(),
{
    if s.len() > 0 {
        lemma_split_on_nonempty(s.drop_last(), sep);
    }
}

/// A name is non-empty.
pub open spec fn non_empty(p: Seq<char>) -> bool {
    p.len() > 0
}

/// The player names in a comma-separated list: its non-empty pieces.
pub open spec fn player_names(s: Seq<char>) -> Seq<Seq<char>> {
    split_on(s, ',').filter(|p: Seq<char>| non_empty(p))
}

proof fn lemma_filter_push(s: Seq<Seq<char>>, x: Seq<char>)
    ensures
        s.push(x).filter(|p: Seq<char>| non_empty(p)) == if non_empty(x) {
            s.filter(|p: Seq<char>| non_empty(p)).push(x)
        } else {
            s.filter(|p: Seq<char>| non_empty(p))
        },
{
    reveal_with_fuel(Seq::filter, 1);
    assert(s.push(x).drop_last() =~= s);
}

/// Parse a comma-separated player list (the host's `get_player_list`
/// format) into names, skipping empty pieces.
pub fn parse_player_list(s: &str) -> (names: Vec<String>)
    ensures
        names@.map_values(|n: String| n@) == player_names(s@),
{
    let cs = chars_of(s);
    let mut out: Vec<String> = Vec::new();
    let mut cur: Vec<char> = Vec::new();
    let mut i: usize = 0;
    assert(cs@.take(0) =~= Seq::<char>::empty());
    while i < cs.len()
        invariant
            cs@ == s@,
            i <= cs.len(),
            split_on(cs@.take(i as int), ',').len() >= 1,
            out@.map_values(|n: String| n@) == split_on(cs@.take(i as int), ',').drop_last().filter(
                |p: Seq<char>| non_empty(p),
            ),
            cur@ == split_on(cs@.take(i as int), ',').last(),
        decreases cs.len() - i,
    {
        let ghost pieces = split_on(cs@.take(i as int), ',');
        let ghost prev_out = out@.map_values(|n: String| n@);
        let c = cs[i];
        assert(cs@.take(i + 1).drop_last() =~= cs@.take(i as int));
        assert(cs@.take(i + 1).last() == c);
        if c == ',' {
            if cur.len() > 0 {
                let name = string_from_chars(cur.as_slice());
                out.push(name);
            }
            proof {
                lemma_filter_push(pieces.drop_last(), pieces.last());
                assert(pieces.drop_last().push(pieces.last()) =~= pieces);
                assert(split_on(cs@.take(i + 1), ',').drop_last() =~= pieces);
                assert(out@.map_values(|n: String| n@) =~= pieces.filter(
                    |p: Seq<char>| non_empty(p),
                ));
            }
            cur = Vec::new();
            proof {
                assert(cur@ =~= split_on(cs@.take(i + 1), ',').last());
            }
        } else {
            cur.push(c);
            proof {
                let next = split_on(cs@.take(i + 1), ',');
                assert(next.drop_last() =~= pieces.drop_last());
            }
        }
        i = i + 1;
    }
    let ghost pieces = split_on(cs@.take(i as int), ',');
    if cur.len() > 0 {
        let name = string_from_chars(cur.as_slice());
        out.push(name);
    }
    proof {
        lemma_filter_push(pieces.drop_last(), pieces.last());
        assert(pieces.drop_last().push(pieces.last()) =~= pieces);
        assert(cs@.take(i as int) =~= s@);
        assert(out@.map_values(|n: String| n@) =~= pieces.filter(|p: Seq<char>| non_empty(p)));
    }
    out
}

/// The names joined with commas, as the host writes a player list.
pub open spec fn join_names(names: Seq<Seq<char>>) -> Seq<char> {
    join_with(names, ',')
}

/// A player name the list format can carry: non-empty, no comma.
pub open spec fn listable_name(n: Seq<char>) -> bool {
    n.len() > 0 && !n.contains(',')
}

proof fn lemma_split_on_concat(s: Seq<char>, t: Seq<char>, sep: char)
    ensures
        split_on(s + seq![sep] + t, sep) == split_on(s, sep) + split_on(t, sep),
    decreases t.len(),
{
    let u = s + seq![sep] + t;
    if t.len() == 0 {
        assert(u.drop_last() =~= s);
        assert(split_on(u, sep) =~= split_on(s, sep) + split_on(t, sep));
    } else {
        assert(u.drop_last() =~= s + seq![sep] + t.drop_last());
        lemma_split_on_concat(s, t.drop_last(), sep);
        lemma_split_on_nonempty(t.drop_last(), sep);
        lemma_split_on_nonempty(s, sep);
        let a = split_on(s, sep);
        let b = split_on(t.drop_last(), sep);
        if t.last() == sep {
            assert(split_on(u, sep) =~= a + b.push(Seq::<char>::empty()));
        } else {
            assert((a + b).update((a + b).len() - 1, (a + b).last().push(t.last())) =~= a + b.update(
                b.len() - 1,
                b.last().push(t.last()),
            ));
        }
    }
}

proof fn lemma_split_on_name(x: Seq<char>, sep: char)
    requires
        !x.contains(sep),
    ensures
        split_on(x, sep) == seq![x],
    decreases x.len(),
{
    if x.len() == 0 {
        assert(x =~= Seq::<char>::empty());
        assert(split_on(x, sep) =~= seq![x]);
    } else {
        assert(!x.drop_last().contains(sep)) by {
            if x.drop_last().contains(sep) {
                let i = choose|i: int| 0 <= i < x.drop_last().len() && x.drop_last()[i] == sep;
                assert(x[i] == sep);
            }
        }
        lemma_split_on_name(x.drop_last(), sep);
        assert(x[x.len() - 1] == x.last());
        assert(x.last() != sep);
        assert(x.drop_last().push(x.last()) =~= x);
        let rest = split_on(x.drop_last(), sep);
        assert(split_on(x, sep) == rest.update(rest.len() - 1, rest.last().push(x.last())));
        assert(split_on(x, sep) =~= seq![x]);
    }
}

/// Parsing a list that joins names the format can carry gives back
/// exactly those names, in order.
pub proof fn lemma_player_list_round_trip(names: Seq<Seq<char>>)
    requires
        forall|i: int| 0 <= i < names.len() ==> listable_name(#[trigger] names[i]),
    ensures
        player_names(join_names(names)) == names,
    decreases names.len(),
{
    broadcast use Seq::filter_distributes_over_add;

    if names.len() == 0 {
        reveal_with_fuel(Seq::filter, 2);
        assert(player_names(join_names(names)) =~= names);
    } else if names.len() == 1 {
        lemma_split_on_name(names[0], ',');
        reveal_with_fuel(Seq::filter, 2);
        assert(seq![names[0]].drop_last() =~= Seq::<Seq<char>>::empty());
        assert(player_names(join_names(names)) =~= names);
    } else {
        let init = names.drop_last();
        assert forall|i: int| 0 <= i < init.len() implies listable_name(#[trigger] init[i]) by {
            assert(init[i] == names[i]);
        }
        lemma_player_list_round_trip(init);
        assert(listable_name(names[names.len() - 1]));
        lemma_split_on_name(names.last(), ',');
        lemma_split_on_concat(join_names(init), names.last(), ',');
        reveal_with_fuel(Seq::filter, 2);
        assert(seq![names.last()].drop_last() =~= Seq::<Seq<char>>::empty());
        assert(seq![names.last()].filter(|p: Seq<char>| non_empty(p)) =~= seq![names.last()]);
        assert(init.push(names.last()) =~= names);
        assert(player_names(join_names(names)) =~= names);
    }
}

// ---------------------------------------------------------------------------
// Log levels
// ---------------------------------------------------------------------------

/// Log levels understood by the runtime.
#[derive(Debug, Clone, Copy, PartialEq, Eq, Structural)]
pub enum LogLevel {
    Info,
    Warn,
    Error,
}

impl LogLevel {
    /// The level's wire code: 1 info, 2 warn, 3 error.
    pub fn code(self) -> (c: u32)
        ensures
            self == LogLevel::Info ==> c == 1,
            self == LogLevel::Warn ==> c == 2,
            self == LogLevel::Error ==> c == 3,
    {
        match self {
            LogLevel::Info => 1,
            LogLevel::Warn => 2,
            LogLevel::Error => 3,
        }
    }
}

// ---------------------------------------------------------------------------
// Command trampoline pool
// ---------------------------------------------------------------------------

/// How many commands one mod can register: one pre-generated trampoline
/// per slot.
pub const COMMAND_SLOT_COUNT: usize = 64;

/// Every slot holds a handler.
pub open spec fn all_taken<H>(s: Seq<Option<H>>) -> bool {
    forall|i: int| 0 <= i < s.len() ==> s[i] is Some
}

/// `i` is the lowest free slot.
pub open spec fn is_first_free<H>(s: Seq<Option<H>>, i: int) -> bool {
    &&& 0 <= i < s.len()
    &&& s[i] is None
    &&& forall|j: int| 0 <= j < i ==> s[j] is Some
}

/// The first `k` slots are taken and all the others are free.
pub open spec fn filled_prefix<H>(s: Seq<Option<H>>, k: int) -> bool {
    &&& 0 <= k <= s.len()
    &&& forall|i: int| 0 <= i < k ==> s[i] is Some
    &&& forall|i: int| k <= i < s.len() ==> s[i] is None
}

/// Registrations on a fresh pool with nothing released between them take
/// the slots in order: while the first `k` slots are taken (`new` starts
/// at `k == 0`), the lowest free slot is `k` and no other, filling it
/// leaves the first `k + 1` taken, and once every slot is taken the pool
/// refuses. So the `k`-th successful registration takes slot `k`, and at
/// most `COMMAND_SLOT_COUNT` succeed.
pub proof fn lemma_registrations_fill_slots_in_order<H>(s: Seq<Option<H>>, k: int, h: H)
    requires
        filled_prefix(s, k),
    ensures
        k < s.len() ==> is_first_free(s, k) && filled_prefix(s.update(k, Some(h)), k + 1),
        forall|i: int| #[trigger] is_first_free(s, i) ==> i == k,
        k == s.len() <==> all_taken(s),
{
    if k < s.len() {
        assert(s[k] is None);
    }
}

/// The error when every command slot is taken.
pub open spec fn pool_full_message() -> Seq<char> {
    "command pool exhausted (max "@ + decimal(COMMAND_SLOT_COUNT as nat) + " commands per mod)"@
}

/// The error when the runtime already knows the command `name`.
pub open spec fn duplicate_name_message(name: Seq<char>) -> Seq<char> {
    "command '/"@ + name + "' already registered"@
}

/// The command handlers of a mod, one per trampoline slot. The runtime's
/// callback carries no user data, so each command needs its own slot.
pub struct CommandSlots<H> {
    slots: Vec<Option<H>>,
}

impl<H: Copy> CommandSlots<H> {
    /// The handler in each slot.
    pub closed spec fn view(&self) -> Seq<Option<H>> {
        self.slots@
    }

    /// A pool of empty slots.
    pub fn new() -> (p: Self)
        ensures
            p@.len() == COMMAND_SLOT_COUNT,
            forall|i: int| 0 <= i < COMMAND_SLOT_COUNT ==> p@[i] is None,
            filled_prefix(p@, 0),
    {
        let mut slots: Vec<Option<H>> = Vec::new();
        let mut i: usize = 0;
        while i < COMMAND_SLOT_COUNT
            invariant
                i <= COMMAND_SLOT_COUNT,
                slots@.len() == i,
                forall|j: int| 0 <= j < i ==> slots@[j] is None,
            decreases COMMAND_SLOT_COUNT - i,
        {
            slots.push(None);
            i = i + 1;
        }
        CommandSlots { slots }
    }

    /// Put `handler` in the first free slot and return that slot, or
    /// `None` when every slot is taken.
    pub fn register_command_slot(&mut self, handler: H) -> (r: Option<usize>)
        ensures
            final(self)@.len() == old(self)@.len(),
            r is None <==> forall|i: int| 0 <= i < old(self)@.len() ==> old(self)@[i] is Some,
            r is None ==> final(self)@ == old(self)@,
            r matches Some(i) ==> i < old(self)@.len() && old(self)@[i as int] is None && (forall|j: int|
                0 <= j < i ==> old(self)@[j] is Some) && final(self)@ == old(self)@.update(
                i as int,
                Some(handler),
            ),
    {
        let mut i: usize = 0;
        while i < self.slots.len()
            invariant
                i <= self.slots@.len(),
                self.slots@ == old(self).slots@,
                forall|j: int| 0 <= j < i ==> self.slots@[j] is Some,
            decreases self.slots.len() - i,
        {
            if self.slots[i].is_none() {
                self.slots.set(i, Some(handler));
                return Some(i);
            }
            i = i + 1;
        }
        None
    }

    /// Free slot `index` so a later registration can reuse it.
    pub fn release_command_slot(&mut self, index: usize)
        requires
            index < old(self)@.len(),
        ensures
            final(self)@ == old(self)@.update(index as int, None),
    {
        self.slots.set(index, None);
    }

    /// Registers command `name` for `handler`: takes the first free slot,
    /// asks the runtime to register the name with that slot's trampoline
    /// (`register`, given the slot, answers 0 on success), and frees the
    /// slot again when the runtime refuses. The pool is left unchanged on
    /// every error.
    pub fn register_command_with<F: FnOnce(usize) -> u32>(
        &mut self,
        name: &str,
        handler: H,
        register: F,
    ) -> (r: Result<(), String>)
        requires
            forall|i: usize| register.requires((i,)),
        ensures
            all_taken(old(self)@) ==> (r matches Err(m) && m@ == pool_full_message()),
            r is Ok ==> exists|i: int|
                is_first_free(old(self)@, i) && final(self)@ == old(self)@.update(i, Some(handler))
                    && register.ensures((i as usize,), 0u32),
            r matches Err(m) ==> final(self)@ == old(self)@ && (all_taken(old(self)@) || (m@
                == duplicate_name_message(name@) && exists|i: int, status: u32|
                #![trigger is_first_free(old(self)@, i), register.ensures((i as usize,), status)]
                is_first_free(old(self)@, i) && status != 0 && register.ensures(
                    (i as usize,),
                    status,
                ))),
    {
        match self.register_command_slot(handler) {
            None => {
                let mut m = owned("command pool exhausted (max ");
                push_decimal(&mut m, COMMAND_SLOT_COUNT as u128);
                push_str(&mut m, " commands per mod)");
                Err(m)
            },
            Some(idx) => {
                let status = register(idx);
                if status != 0 {
                    self.release_command_slot(idx);
                    assert(self@ =~= old(self)@);
                    let mut m = owned("command '/");
                    push_str(&mut m, name);
                    push_str(&mut m, "' already registered");
                    assert(is_first_free(old(self)@, idx as int) && register.ensures(
                        ((idx as int) as usize,),
                        status,
                    ));
                    Err(m)
                } else {
                    assert(is_first_free(old(self)@, idx as int));
                    Ok(())
                }
            },
        }
    }

    /// The handler in slot `index`, if any.
    pub fn handler(&self, index: usize) -> (r: Option<H>)
        requires
            index < self@.len(),
        ensures
            r == self@[index as int],
    {
        self.slots[index]
    }
}

// ---------------------------------------------------------------------------
// Current runtime API
// ---------------------------------------------------------------------------

/// The runtime API a mod was initialised with and the mod's name, once
/// the entry point has stored them.
pub struct ApiSlot<A> {
    current: Option<(A, &'static str)>,
}

impl<A: Copy> ApiSlot<A> {
    /// What the slot holds.
    pub closed spec fn view(&self) -> Option<(A, Seq<char>)> {
        match self.current {
            Some((a, n)) => Some((a, n@)),
            None => None,
        }
    }

    /// An empty slot.
    pub fn new() -> (s: Self)
        ensures
            s@ is None,
    {
        ApiSlot { current: None }
    }

    /// Remember `api` and the mod's name.
    pub fn store_api(&mut self, api: A, mod_name: &'static str)
        ensures
            final(self)@ == Some((api, mod_name@)),
    {
        self.current = Some((api, mod_name));
    }

    /// Run `f` on the stored API; `None` when nothing is stored.
    pub fn with_api<R, F: FnOnce(A) -> R>(&self, f: F) -> (r: Option<R>)
        requires
            self@ matches Some((a, _)) ==> f.requires((a,)),
        ensures
            r is None <==> self@ is None,
            r matches Some(x) ==> (self@ matches Some((a, _)) && f.ensures((a,), x)),
    {
        match self.current {
            Some((api, _)) => Some(f(api)),
            None => None,
        }
    }

    /// The stored mod name.
    pub fn current_mod_name(&self) -> (r: Option<&'static str>)
        ensures
            r is None <==> self@ is None,
            r matches Some(n) ==> (self@ matches Some((_, m)) && n@ == m),
    {
        match self.current {
            Some((_, n)) => Some(n),
            None => None,
        }
    }
}

// ---------------------------------------------------------------------------
// Context
// ---------------------------------------------------------------------------

/// A mod's window on the runtime: the runtime API, the runtime handle
/// (always 0, "any live runtime") and the mod's name.
pub struct Context<A> {
    pub api: A,
    pub handle: u64,
    pub mod_name: &'static str,
}

impl<A: Copy> Clone for Context<A> {
    fn clone(&self) -> (c: Self)
        ensures
            c == *self,
    {
        Context { api: self.api, handle: self.handle, mod_name: self.mod_name }
    }
}

impl<A: Copy> Copy for Context<A> {

}

impl<A: Copy> Context<A> {
    /// The context the entry point hands to the mod's init function.
    pub fn from_api(api: A, mod_name: &'static str) -> (c: Self)
        ensures
            c.api == api,
            c.handle == 0,
            c.mod_name@ == mod_name@,
    {
        Context { api, handle: 0, mod_name }
    }
}

/// The text of a mod's config as the runtime wrote it into `buf`: `None`
/// when it wrote nothing (the package has no config.toml), else the
/// first `n` bytes decoded as UTF-8, invalid sequences replaced.
pub fn config_text(buf: &[u8], n: u32) -> (r: Option<String>)
    requires
        n <= buf.len(),
    ensures
        r is None <==> n == 0,
        r matches Some(s) ==> s@ == lossy_decode(buf@.subrange(0, n as int)),
{
    if n == 0 {
        None
    } else {
        Some(string_from_utf8_lossy(&buf[0..n as usize]))
    }
}

// ---------------------------------------------------------------------------
// Error type
// ---------------------------------------------------------------------------

/// The error a mod's hooks return to signal failure.
pub struct FerrumError {
    message: String,
}

impl FerrumError {
    /// The error's message.
    pub closed spec fn view(&self) -> Seq<char> {
        self.message@
    }

    /// An error with message `msg`.
    pub fn new(msg: &str) -> (e: Self)
        ensures
            e@ == msg@,
    {
        FerrumError { message: owned(msg) }
    }

    /// The error's message.
    pub fn message(&self) -> (m: &str)
        ensures
            m@ == self@,
    {
        self.message.as_str()
    }

    /// The error as it is displayed: `FerrumError: <message>`.
    pub fn describe(&self) -> (s: String)
        ensures
            s@ == "FerrumError: "@ + self@,
    {
        let mut s = owned("FerrumError: ");
        push_str(&mut s, self.message.as_str());
        s
    }
}

impl From<String> for FerrumError {
    /// An error whose message is `msg`.
    fn from(msg: String) -> (e: Self)
        ensures
            e@ == msg@,
    {
        FerrumError { message: msg }
    }
}

impl vstd::std_specs::convert::FromSpecImpl<String> for FerrumError {
    open spec fn obeys_from_spec() -> bool {
        true
    }

    closed spec fn from_spec(msg: String) -> FerrumError {
        FerrumError { message: msg }
    }
}

// ---------------------------------------------------------------------------
// Event kinds
// ---------------------------------------------------------------------------

/// The argument types an event handler takes.
#[derive(Clone, Copy, Debug, PartialEq, Eq, Structural)]
pub enum ArgSpec {
    Str,
    U64,
}

/// What a handler for an event kind exports and takes.
pub struct EventSpec {
    pub symbol: &'static str,
    pub args: Vec<ArgSpec>,
}

/// The exported symbol and argument list for event kind `kind`, or
/// `None` for an unknown kind.
pub open spec fn event_table(kind: Seq<char>) -> Option<(Seq<char>, Seq<ArgSpec>)> {
    if kind == "tick"@ {
        Some(("morrow_mod_tick"@, seq![ArgSpec::U64]))
    } else if kind == "server_start"@ {
        Some(("morrow_mod_server_start"@, Seq::empty()))
    } else if kind == "server_stop"@ {
        Some(("morrow_mod_server_stop"@, Seq::empty()))
    } else if kind == "player_join"@ {
        Some(("morrow_mod_player_join"@, seq![ArgSpec::Str]))
    } else if kind == "player_leave"@ {
        Some(("morrow_mod_player_leave"@, seq![ArgSpec::Str]))
    } else if kind == "chat_message"@ {
        Some(("morrow_mod_chat_message"@, seq![ArgSpec::Str, ArgSpec::Str]))
    } else if kind == "block_break"@ {
        Some(("morrow_mod_block_break"@, seq![ArgSpec::Str, ArgSpec::Str]))
    } else if kind == "block_place"@ {
        Some(("morrow_mod_block_place"@, seq![ArgSpec::Str, ArgSpec::Str]))
    } else if kind == "player_death"@ {
        Some(("morrow_mod_player_death"@, seq![ArgSpec::Str, ArgSpec::Str]))
    } else {
        None
    }
}

fn make_spec(symbol: &'static str, n_str: usize, tick: bool) -> (e: EventSpec)
    requires
        n_str <= 2,
    ensures
        e.symbol@ == symbol@,
        tick ==> e.args@ == seq![ArgSpec::U64],
        !tick ==> e.args@ == Seq::new(n_str as nat, |i: int| ArgSpec::Str),
{
    let mut args: Vec<ArgSpec> = Vec::new();
    if tick {
        args.push(ArgSpec::U64);
        assert(args@ =~= seq![ArgSpec::U64]);
    } else {
        let mut i: usize = 0;
        while i < n_str
            invariant
                i <= n_str,
                args@ == Seq::new(i as nat, |j: int| ArgSpec::Str),
            decreases n_str - i,
        {
            args.push(ArgSpec::Str);
            assert(args@ =~= Seq::new((i + 1) as nat, |j: int| ArgSpec::Str));
            i = i + 1;
        }
    }
    EventSpec { symbol, args }
}

/// The export symbol and handler arguments for an event kind.
pub fn event_spec(kind: &str) -> (r: Option<EventSpec>)
    ensures
        r is None <==> event_table(kind@) is None,
        r matches Some(e) ==> event_table(kind@) == Some((e.symbol@, e.args@)),
{
    let r = if str_eq(kind, "tick") {
        Some(make_spec("morrow_mod_tick", 0, true))
    } else if str_eq(kind, "server_start") {
        Some(make_spec("morrow_mod_server_start", 0, false))
    } else if str_eq(kind, "server_stop") {
        Some(make_spec("morrow_mod_server_stop", 0, false))
    } else if str_eq(kind, "player_join") {
        Some(make_spec("morrow_mod_player_join", 1, false))
    } else if str_eq(kind, "player_leave") {
        Some(make_spec("morrow_mod_player_leave", 1, false))
    } else if str_eq(kind, "chat_message") {
        Some(make_spec("morrow_mod_chat_message", 2, false))
    } else if str_eq(kind, "block_break") {
        Some(make_spec("morrow_mod_block_break", 2, false))
    } else if str_eq(kind, "block_place") {
        Some(make_spec("morrow_mod_block_place", 2, false))
    } else if str_eq(kind, "player_death") {
        Some(make_spec("morrow_mod_player_death", 2, false))
    } else {
        None
    };
    proof {
        assert(Seq::new(0, |i: int| ArgSpec::Str) =~= Seq::<ArgSpec>::empty());
        assert(Seq::new(1, |i: int| ArgSpec::Str) =~= seq![ArgSpec::Str]);
        assert(Seq::new(2, |i: int| ArgSpec::Str) =~= seq![ArgSpec::Str, ArgSpec::Str]);
    }
    r
}

/// The event kinds are exactly the nine documented ones, and each is
/// exported under `morrow_mod_` followed by the kind's own name, with the
/// handler arguments its documentation gives: `tick` takes a `u64`,
/// `server_start` and `server_stop` nothing, `player_join` and
/// `player_leave` one `&str`, the other four two `&str`.
pub proof fn lemma_event_kinds_and_symbols(kind: Seq<char>)
    ensures
        event_table(kind) is Some <==> (kind == "tick"@ || kind == "server_start"@ || kind == "server_stop"@ || kind == "player_join"@ || kind == "player_leave"@ || kind == "chat_message"@ || kind == "block_break"@ || kind == "block_place"@ || kind == "player_death"@),
        event_table(kind) matches Some(e) ==> e.0 == "morrow_mod_"@ + kind,
        kind == "tick"@ ==> (event_table(kind) matches Some(e) && e.1 == seq![ArgSpec::U64]),
        (kind == "server_start"@ || kind == "server_stop"@) ==> (event_table(kind) matches Some(e)
            && e.1 == Seq::<ArgSpec>::empty()),
        (kind == "player_join"@ || kind == "player_leave"@) ==> (event_table(kind) matches Some(e)
            && e.1 == seq![ArgSpec::Str]),
        (kind == "chat_message"@ || kind == "block_break"@ || kind == "block_place"@ || kind
            == "player_death"@) ==> (event_table(kind) matches Some(e) && e.1 == seq![
            ArgSpec::Str,
            ArgSpec::Str,
        ]),
{
    reveal_strlit("morrow_mod_");
    reveal_strlit("tick");
    reveal_strlit("morrow_mod_tick");
    reveal_strlit("server_start");
    reveal_strlit("morrow_mod_server_start");
    reveal_strlit("server_stop");
    reveal_strlit("morrow_mod_server_stop");
    reveal_strlit("player_join");
    reveal_strlit("morrow_mod_player_join");
    reveal_strlit("player_leave");
    reveal_strlit("morrow_mod_player_leave");
    reveal_strlit("chat_message");
    reveal_strlit("morrow_mod_chat_message");
    reveal_strlit("block_break");
    reveal_strlit("morrow_mod_block_break");
    reveal_strlit("block_place");
    reveal_strlit("morrow_mod_block_place");
    reveal_strlit("player_death");
    reveal_strlit("morrow_mod_player_death");
    if kind == "tick"@ {
        assert("morrow_mod_tick"@ =~= "morrow_mod_"@ + "tick"@);
        assert(event_table(kind) == Some(("morrow_mod_tick"@, seq![ArgSpec::U64])));
    }
    if kind == "server_start"@ {
        assert("morrow_mod_server_start"@ =~= "morrow_mod_"@ + "server_start"@);
        assert(event_table(kind) == Some(("morrow_mod_server_start"@, Seq::<ArgSpec>::empty())));
    }
    if kind == "server_stop"@ {
        assert("morrow_mod_server_stop"@ =~= "morrow_mod_"@ + "server_stop"@);
        assert(event_table(kind) == Some(("morrow_mod_server_stop"@, Seq::<ArgSpec>::empty())));
    }
    if kind == "player_join"@ {
        assert("player_join"@[0] != "server_stop"@[0]);
        assert("morrow_mod_player_join"@ =~= "morrow_mod_"@ + "player_join"@);
        assert(event_table(kind) == Some(("morrow_mod_player_join"@, seq![ArgSpec::Str])));
    }
    if kind == "player_leave"@ {
        assert("player_leave"@[0] != "server_start"@[0]);
        assert("morrow_mod_player_leave"@ =~= "morrow_mod_"@ + "player_leave"@);
        assert(event_table(kind) == Some(("morrow_mod_player_leave"@, seq![ArgSpec::Str])));
    }
    if kind == "chat_message"@ {
        assert("chat_message"@[0] != "server_start"@[0]);
        assert("chat_message"@[0] != "player_leave"@[0]);
        assert("morrow_mod_chat_message"@ =~= "morrow_mod_"@ + "chat_message"@);
        assert(event_table(kind) == Some(("morrow_mod_chat_message"@, seq![ArgSpec::Str, ArgSpec::Str])));
    }
    if kind == "block_break"@ {
        assert("block_break"@[0] != "server_stop"@[0]);
        assert("block_break"@[0] != "player_join"@[0]);
        assert("morrow_mod_block_break"@ =~= "morrow_mod_"@ + "block_break"@);
        assert(event_table(kind) == Some(("morrow_mod_block_break"@, seq![ArgSpec::Str, ArgSpec::Str])));
    }
    if kind == "block_place"@ {
        assert("block_place"@[0] != "server_stop"@[0]);
        assert("block_place"@[0] != "player_join"@[0]);
        assert("block_place"@[6] != "block_break"@[6]);
        assert("morrow_mod_block_place"@ =~= "morrow_mod_"@ + "block_place"@);
        assert(event_table(kind) == Some(("morrow_mod_block_place"@, seq![ArgSpec::Str, ArgSpec::Str])));
    }
    if kind == "player_death"@ {
        assert("player_death"@[0] != "server_start"@[0]);
        assert("player_death"@[7] != "player_leave"@[7]);
        assert("player_death"@[0] != "chat_message"@[0]);
        assert("morrow_mod_player_death"@ =~= "morrow_mod_"@ + "player_death"@);
        assert(event_table(kind) == Some(("morrow_mod_player_death"@, seq![ArgSpec::Str, ArgSpec::Str])));
    }
}

/// Two different event kinds are never exported under the same symbol,
/// so a handler is only ever called for the kind it was written for.
pub proof fn lemma_event_symbols_distinct(k1: Seq<char>, k2: Seq<char>)
    requires
        event_table(k1) is Some,
        event_table(k2) is Some,
        k1 != k2,
    ensures
        event_table(k1).unwrap().0 != event_table(k2).unwrap().0,
{
    lemma_event_kinds_and_symbols(k1);
    lemma_event_kinds_and_symbols(k2);
    let p = "morrow_mod_"@;
    if p + k1 == p + k2 {
        assert((p + k1).subrange(p.len() as int, (p + k1).len() as int) =~= k1);
        assert((p + k2).subrange(p.len() as int, (p + k2).len() as int) =~= k2);
    }
}

} // verus!
