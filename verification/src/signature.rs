//! The rules that the SDK's attribute macros apply to the function they
//! mark: a mod's entry point (`mod_main`) and its event handlers
//! (`event(kind)`). A macro reads the function's header; the header is
//! described here by the parts that the rules look at.
use vstd::prelude::*;
use crate::sdk::{ArgSpec, EventSpec, event_spec, event_table};
use crate::text::{decimal, owned, push_decimal, push_str};

verus! {

/// The shape of a type as written in a function header.
pub enum TypeShape {
    /// `&T` or `&mut T`.
    Reference(Box<TypeShape>),
    /// `*const T` or `*mut T`.
    Pointer(Box<TypeShape>),
    /// A path type such as `Context` or `morrow::Context`: the names of
    /// its segments, in order.
    Path(Vec<String>),
    /// A tuple type with this many elements; `()` has none.
    Tuple(usize),
    /// Any other type.
    Other,
}

/// One parameter of a function header.
pub enum ParamShape {
    /// `self`, `&self` or `&mut self`.
    Receiver,
    /// A typed parameter `pattern: T`.
    Typed(TypeShape),
}

/// The return type of a function header.
pub enum ReturnShape {
    /// No `->` at all.
    Default,
    /// `-> T`.
    Type(TypeShape),
}

/// The parts of a function header that the attribute macros check.
pub struct FnShape {
    /// Whether the header declares generic parameters.
    pub generic: bool,
    pub inputs: Vec<ParamShape>,
    pub output: ReturnShape,
}

/// The type is a path whose last segment is `name`.
pub open spec fn path_named(ty: TypeShape, name: Seq<char>) -> bool {
    match ty {
        TypeShape::Path(segs) => segs@.len() > 0 && segs@.last()@ == name,
        _ => false,
    }
}

/// The type is a reference to a path whose last segment is `name`.
pub open spec fn reference_to(ty: TypeShape, name: Seq<char>) -> bool {
    match ty {
        TypeShape::Reference(elem) => path_named(*elem, name),
        _ => false,
    }
}

/// The header returns `()`, written or implied.
pub open spec fn unit_return(out: ReturnShape) -> bool {
    match out {
        ReturnShape::Default => true,
        ReturnShape::Type(TypeShape::Tuple(n)) => n == 0,
        _ => false,
    }
}

/// Whether `ty` is a path type whose last segment is `name`.
pub fn is_path_named(ty: &TypeShape, name: &str) -> (b: bool)
    ensures
        b == path_named(*ty, name@),
{
    match ty {
        TypeShape::Path(segs) => {
            if segs.len() == 0 {
                false
            } else {
                crate::text::str_eq(segs[segs.len() - 1].as_str(), name)
            }
        },
        _ => false,
    }
}

/// Whether `ty` is `&T` or `&mut T` with `T` a path named `name`.
pub fn is_reference_to(ty: &TypeShape, name: &str) -> (b: bool)
    ensures
        b == reference_to(*ty, name@),
{
    match ty {
        TypeShape::Reference(elem) => is_path_named(&**elem, name),
        _ => false,
    }
}

/// Whether the header returns `()`.
pub fn returns_unit(sig: &FnShape) -> (b: bool)
    ensures
        b == unit_return(sig.output),
{
    match &sig.output {
        ReturnShape::Default => true,
        ReturnShape::Type(TypeShape::Tuple(n)) => *n == 0,
        _ => false,
    }
}

fn is_receiver(p: &ParamShape) -> (b: bool)
    ensures
        b == (*p is Receiver),
{
    match p {
        ParamShape::Receiver => true,
        _ => false,
    }
}

// ---------------------------------------------------------------------------
// The entry point
// ---------------------------------------------------------------------------

/// Why a function cannot be a mod's entry point.
#[derive(Clone, Copy, Debug, PartialEq, Eq, Structural)]
pub enum EntryError {
    /// The first parameter is `self`.
    Method,
    /// The function declares generic parameters.
    Generic,
    /// It takes this many parameters, neither one nor two.
    Arity(usize),
    /// The first parameter is not a reference to `Context`.
    ContextArg,
    /// The second parameter is not a pointer to `RuntimeApi`.
    RuntimeApiArg,
    /// The return type is not a `Result`.
    ReturnType,
}

/// The parameter is `&Context` or `&mut Context` (by last path segment).
pub open spec fn context_param(p: ParamShape) -> bool {
    match p {
        ParamShape::Typed(ty) => reference_to(ty, "Context"@),
        ParamShape::Receiver => false,
    }
}

/// The parameter is `*const RuntimeApi` or `*mut RuntimeApi`.
pub open spec fn runtime_api_param(p: ParamShape) -> bool {
    match p {
        ParamShape::Typed(TypeShape::Pointer(elem)) => path_named(*elem, "RuntimeApi"@),
        _ => false,
    }
}

/// The return type is a path named `Result`.
pub open spec fn result_return(out: ReturnShape) -> bool {
    match out {
        ReturnShape::Type(ty) => path_named(ty, "Result"@),
        ReturnShape::Default => false,
    }
}

/// The entry-point rule, checked in this order: not a method, not
/// generic, one parameter (`&mut Context`) or two (the older form, with
/// `*const RuntimeApi` second), and a `Result` return. `Ok(true)` is the
/// two-parameter form.
pub open spec fn entry_rule(sig: FnShape) -> Result<bool, EntryError> {
    let ps = sig.inputs@;
    if ps.len() > 0 && ps[0] is Receiver {
        Err(EntryError::Method)
    } else if sig.generic {
        Err(EntryError::Generic)
    } else if ps.len() != 1 && ps.len() != 2 {
        Err(EntryError::Arity(ps.len() as usize))
    } else if !context_param(ps[0]) {
        Err(EntryError::ContextArg)
    } else if ps.len() == 2 && !runtime_api_param(ps[1]) {
        Err(EntryError::RuntimeApiArg)
    } else if !result_return(sig.output) {
        Err(EntryError::ReturnType)
    } else {
        Ok(ps.len() == 2)
    }
}

/// The first parameter of an entry point must be a reference to `Context`.
pub fn check_context_arg(arg: &ParamShape) -> (r: Result<(), EntryError>)
    ensures
        r is Ok <==> context_param(*arg),
        r matches Err(e) ==> e == EntryError::ContextArg,
{
    match arg {
        ParamShape::Typed(ty) => {
            if is_reference_to(ty, "Context") {
                Ok(())
            } else {
                Err(EntryError::ContextArg)
            }
        },
        ParamShape::Receiver => Err(EntryError::ContextArg),
    }
}

/// The second parameter of the two-parameter entry point must be a
/// pointer to `RuntimeApi`.
pub fn check_legacy_api_arg(arg: &ParamShape) -> (r: Result<(), EntryError>)
    ensures
        r is Ok <==> runtime_api_param(*arg),
        r matches Err(e) ==> e == EntryError::RuntimeApiArg,
{
    match arg {
        ParamShape::Typed(TypeShape::Pointer(elem)) => {
            if is_path_named(&**elem, "RuntimeApi") {
                Ok(())
            } else {
                Err(EntryError::RuntimeApiArg)
            }
        },
        _ => Err(EntryError::RuntimeApiArg),
    }
}

/// An entry point must return a `Result`.
pub fn check_result_return(sig: &FnShape) -> (r: Result<(), EntryError>)
    ensures
        r is Ok <==> result_return(sig.output),
        r matches Err(e) ==> e == EntryError::ReturnType,
{
    match &sig.output {
        ReturnShape::Type(ty) => {
            if is_path_named(ty, "Result") {
                Ok(())
            } else {
                Err(EntryError::ReturnType)
            }
        },
        ReturnShape::Default => Err(EntryError::ReturnType),
    }
}

/// Checks a function marked as a mod's entry point. `Ok(false)` is the
/// one-parameter form, called with the context alone; `Ok(true)` the
/// two-parameter form, called with the context and the API pointer.
pub fn check_mod_main(sig: &FnShape) -> (r: Result<bool, EntryError>)
    ensures
        r == entry_rule(*sig),
{
    let n = sig.inputs.len();
    if n > 0 && is_receiver(&sig.inputs[0]) {
        return Err(EntryError::Method);
    }
    if sig.generic {
        return Err(EntryError::Generic);
    }
    let legacy = if n == 1 {
        false
    } else if n == 2 {
        true
    } else {
        return Err(EntryError::Arity(n));
    };
    check_context_arg(&sig.inputs[0])?;
    if legacy {
        check_legacy_api_arg(&sig.inputs[1])?;
    }
    check_result_return(sig)?;
    Ok(legacy)
}

/// An entry point is accepted exactly in its two documented forms,
/// `fn(&mut Context) -> Result<..>` and the older
/// `fn(&mut Context, *const RuntimeApi) -> Result<..>`, never generic;
/// the answer says which form it is.
pub proof fn lemma_entry_accepted_iff_documented(sig: FnShape)
    ensures
        entry_rule(sig) is Ok <==> {
            let ps = sig.inputs@;
            &&& !sig.generic
            &&& (ps.len() == 1 || ps.len() == 2)
            &&& context_param(ps[0])
            &&& (ps.len() == 2 ==> runtime_api_param(ps[1]))
            &&& result_return(sig.output)
        },
        entry_rule(sig) matches Ok(two) ==> two == (sig.inputs@.len() == 2),
{
}

/// The diagnostic for an entry-point error.
pub open spec fn entry_message(e: EntryError) -> Seq<char> {
    match e {
        EntryError::Method => "#[morrow::mod_main] cannot be used on a method (no `self`)"@,
        EntryError::Generic => "#[morrow::mod_main] function must not be generic"@,
        EntryError::Arity(n) => "#[morrow::mod_main] function must take `&mut Context` (or legacy `&mut Context, *const RuntimeApi`), found "@
            + decimal(n as nat) + " arguments"@,
        EntryError::ContextArg => "#[morrow::mod_main] first argument must be `&mut Context`"@,
        EntryError::RuntimeApiArg => "#[morrow::mod_main] second argument must be `*const RuntimeApi`"@,
        EntryError::ReturnType => "#[morrow::mod_main] function must return `Result<(), MorrowError>`"@,
    }
}

impl EntryError {
    /// The diagnostic the entry-point macro reports for this error.
    pub fn message(&self) -> (s: String)
        ensures
            s@ == entry_message(*self),
    {
        match self {
            EntryError::Method => owned("#[morrow::mod_main] cannot be used on a method (no `self`)"),
            EntryError::Generic => owned("#[morrow::mod_main] function must not be generic"),
            EntryError::Arity(n) => {
                let mut s = owned(
                    "#[morrow::mod_main] function must take `&mut Context` (or legacy `&mut Context, *const RuntimeApi`), found ",
                );
                push_decimal(&mut s, *n as u128);
                push_str(&mut s, " arguments");
                s
            },
            EntryError::ContextArg => owned("#[morrow::mod_main] first argument must be `&mut Context`"),
            EntryError::RuntimeApiArg => owned("#[morrow::mod_main] second argument must be `*const RuntimeApi`"),
            EntryError::ReturnType => owned("#[morrow::mod_main] function must return `Result<(), MorrowError>`"),
        }
    }
}

// ---------------------------------------------------------------------------
// Event handlers
// ---------------------------------------------------------------------------

/// Why a function cannot handle an event kind.
#[derive(Clone, Copy, Debug, PartialEq, Eq, Structural)]
pub enum HandlerError {
    /// The kind is not one of the event kinds.
    UnknownKind,
    /// The function declares generic parameters.
    Generic,
    /// The first parameter is `self`.
    Method,
    /// The kind's handlers take `expected` parameters; this one `found`.
    Arity { expected: usize, found: usize },
    /// The parameter at `index` (from 0) is not of the type `want`.
    Arg { index: usize, want: ArgSpec },
    /// The function does not return `()`.
    ReturnType,
}

/// The parameter has the type that `want` stands for: `&str` (by last
/// path segment, through a reference) or `u64`.
pub open spec fn param_fits(p: ParamShape, want: ArgSpec) -> bool {
    match p {
        ParamShape::Typed(ty) => match want {
            ArgSpec::Str => reference_to(ty, "str"@),
            ArgSpec::U64 => path_named(ty, "u64"@),
        },
        ParamShape::Receiver => false,
    }
}

/// The first position from `i` on whose parameter does not fit.
pub open spec fn first_misfit(ps: Seq<ParamShape>, want: Seq<ArgSpec>, i: nat) -> Option<nat>
    decreases ps.len() - i,
{
    if i >= ps.len() || i >= want.len() {
        None
    } else if !param_fits(ps[i as int], want[i as int]) {
        Some(i)
    } else {
        first_misfit(ps, want, i + 1)
    }
}

/// Only the first parameter of a header can be `self`.
pub open spec fn receiver_only_first(sig: FnShape) -> bool {
    forall|i: int| 0 < i < sig.inputs@.len() ==> !(#[trigger] sig.inputs@[i] is Receiver)
}

/// The handler rule for event kind `kind`, checked in this order: a known
/// kind, not generic, not a method, as many parameters as the kind's
/// handlers take, each of its type, and a `()` return. `Ok` holds the
/// kind's export symbol and argument list.
pub open spec fn handler_rule(kind: Seq<char>, sig: FnShape) -> Result<
    (Seq<char>, Seq<ArgSpec>),
    HandlerError,
> {
    match event_table(kind) {
        None => Err(HandlerError::UnknownKind),
        Some(entry) => {
            let want = entry.1;
            let ps = sig.inputs@;
            if sig.generic {
                Err(HandlerError::Generic)
            } else if ps.len() > 0 && ps[0] is Receiver {
                Err(HandlerError::Method)
            } else if ps.len() != want.len() {
                Err(HandlerError::Arity { expected: want.len() as usize, found: ps.len() as usize })
            } else {
                match first_misfit(ps, want, 0) {
                    Some(i) => Err(HandlerError::Arg { index: i as usize, want: want[i as int] }),
                    None => if unit_return(sig.output) {
                        Ok(entry)
                    } else {
                        Err(HandlerError::ReturnType)
                    },
                }
            }
        },
    }
}

proof fn lemma_no_misfit(ps: Seq<ParamShape>, want: Seq<ArgSpec>, i: nat)
    requires
        ps.len() == want.len(),
    ensures
        first_misfit(ps, want, i) is None <==> forall|j: int|
            i <= j < ps.len() ==> param_fits(#[trigger] ps[j], want[j]),
    decreases ps.len() - i,
{
    if i < ps.len() {
        lemma_no_misfit(ps, want, i + 1);
    }
}

/// A handler is accepted exactly when it has the signature documented for
/// its event kind: not generic, one parameter per argument of the kind,
/// each `&str` or `u64` as the kind says, and a `()` return. It is then
/// exported under the kind's symbol.
pub proof fn lemma_handler_accepted_iff_documented(kind: Seq<char>, sig: FnShape)
    requires
        event_table(kind) is Some,
    ensures
        handler_rule(kind, sig) is Ok <==> {
            let want = event_table(kind).unwrap().1;
            &&& !sig.generic
            &&& sig.inputs@.len() == want.len()
            &&& forall|j: int| 0 <= j < want.len() ==> param_fits(#[trigger] sig.inputs@[j], want[j])
            &&& unit_return(sig.output)
        },
        handler_rule(kind, sig) is Ok ==> handler_rule(kind, sig) == Ok::<
            (Seq<char>, Seq<ArgSpec>),
            HandlerError,
        >(event_table(kind).unwrap()),
{
    let want = event_table(kind).unwrap().1;
    let ps = sig.inputs@;
    if ps.len() == want.len() {
        lemma_no_misfit(ps, want, 0);
        if ps.len() > 0 && ps[0] is Receiver {
            assert(!param_fits(ps[0], want[0]));
        }
    }
}

fn param_fits_exec(p: &ParamShape, want: ArgSpec) -> (b: bool)
    ensures
        b == param_fits(*p, want),
{
    match p {
        ParamShape::Typed(ty) => match want {
            ArgSpec::Str => is_reference_to(ty, "str"),
            ArgSpec::U64 => is_path_named(ty, "u64"),
        },
        ParamShape::Receiver => false,
    }
}

/// Checks a function marked as the handler of event kind `kind`, and
/// gives the kind's export symbol and argument list when it passes.
pub fn check_event_handler(kind: &str, sig: &FnShape) -> (r: Result<EventSpec, HandlerError>)
    requires
        receiver_only_first(*sig),
    ensures
        r is Ok <==> handler_rule(kind@, *sig) is Ok,
        r matches Ok(e) ==> handler_rule(kind@, *sig) == Ok::<
            (Seq<char>, Seq<ArgSpec>),
            HandlerError,
        >((e.symbol@, e.args@)),
        r matches Err(x) ==> handler_rule(kind@, *sig) == Err::<(Seq<char>, Seq<ArgSpec>), HandlerError>(
            x,
        ),
{
    let spec = match event_spec(kind) {
        Some(s) => s,
        None => return Err(HandlerError::UnknownKind),
    };
    if sig.generic {
        return Err(HandlerError::Generic);
    }
    let n = sig.inputs.len();
    if n > 0 && is_receiver(&sig.inputs[0]) {
        return Err(HandlerError::Method);
    }
    if n != spec.args.len() {
        return Err(HandlerError::Arity { expected: spec.args.len(), found: n });
    }
    let mut i: usize = 0;
    while i < n
        invariant
            i <= n,
            n == sig.inputs@.len(),
            n == spec.args@.len(),
            event_table(kind@) == Some((spec.symbol@, spec.args@)),
            !sig.generic,
            !(n > 0 && sig.inputs@[0] is Receiver),
            first_misfit(sig.inputs@, spec.args@, 0) == first_misfit(
                sig.inputs@,
                spec.args@,
                i as nat,
            ),
        decreases n - i,
    {
        let want = spec.args[i];
        if !param_fits_exec(&sig.inputs[i], want) {
            return Err(HandlerError::Arg { index: i, want });
        }
        i = i + 1;
    }
    if !returns_unit(sig) {
        return Err(HandlerError::ReturnType);
    }
    Ok(spec)
}

/// The diagnostic for a handler error on event kind `kind`.
pub open spec fn handler_message(e: HandlerError, kind: Seq<char>) -> Seq<char> {
    let head = "#[morrow::event("@ + kind + ")] "@;
    match e {
        HandlerError::UnknownKind => "unknown event kind '"@ + kind
            + "'; expected one of: tick, server_start, server_stop, player_join, player_leave, chat_message, block_break, block_place, player_death"@,
        HandlerError::Generic => head + "handler must not be generic"@,
        HandlerError::Method => head + "cannot be used on a method (no `self`)"@,
        HandlerError::Arity { expected, found } => head + "expects "@ + decimal(expected as nat)
            + " argument(s), found "@ + decimal(found as nat),
        HandlerError::Arg { index, want } => head + "argument "@ + decimal((index + 1) as nat)
            + " must be `"@ + (match want {
            ArgSpec::Str => "&str"@,
            ArgSpec::U64 => "u64"@,
        }) + "`"@,
        HandlerError::ReturnType => head + "handler must return `()`"@,
    }
}

impl HandlerError {
    /// The diagnostic the event macro reports for this error on `kind`.
    pub fn message(&self, kind: &str) -> (s: String)
        ensures
            s@ == handler_message(*self, kind@),
    {
        match self {
            HandlerError::UnknownKind => {
                let mut s = owned("unknown event kind '");
                push_str(&mut s, kind);
                push_str(
                    &mut s,
                    "'; expected one of: tick, server_start, server_stop, player_join, player_leave, chat_message, block_break, block_place, player_death",
                );
                s
            },
            _ => {
                let mut s = owned("#[morrow::event(");
                push_str(&mut s, kind);
                push_str(&mut s, ")] ");
                match self {
                    HandlerError::Generic => push_str(&mut s, "handler must not be generic"),
                    HandlerError::Method => push_str(&mut s, "cannot be used on a method (no `self`)"),
                    HandlerError::Arity { expected, found } => {
                        push_str(&mut s, "expects ");
                        push_decimal(&mut s, *expected as u128);
                        push_str(&mut s, " argument(s), found ");
                        push_decimal(&mut s, *found as u128);
                    },
                    HandlerError::Arg { index, want } => {
                        push_str(&mut s, "argument ");
                        push_decimal(&mut s, *index as u128 + 1);
                        push_str(&mut s, " must be `");
                        match want {
                            ArgSpec::Str => push_str(&mut s, "&str"),
                            ArgSpec::U64 => push_str(&mut s, "u64"),
                        }
                        push_str(&mut s, "`");
                    },
                    HandlerError::ReturnType => push_str(&mut s, "handler must return `()`"),
                    HandlerError::UnknownKind => {},
                }
                s
            },
        }
    }
}

/// The entry-point rule on the header itself: an entry point is accepted
/// exactly when it is not generic, takes `&Context` or `&mut Context`
/// (by last path segment) and, in the two-parameter form, a pointer to
/// `RuntimeApi`, and returns a path type whose last segment is `Result`;
/// the answer is whether it is the two-parameter form.
pub proof fn lemma_entry_rule_on_shapes(sig: FnShape)
    ensures
        entry_rule(sig) is Ok <==> {
            &&& !sig.generic
            &&& sig.inputs@.len() == 1 || sig.inputs@.len() == 2
            &&& sig.inputs@[0] matches ParamShape::Typed(TypeShape::Reference(c))
            &&& *c matches TypeShape::Path(cs)
            &&& cs@.len() > 0
            &&& cs@.last()@ == "Context"@
            &&& sig.inputs@.len() == 2 ==> (sig.inputs@[1] matches ParamShape::Typed(
                TypeShape::Pointer(a),
            ) && (*a matches TypeShape::Path(aps) && aps@.len() > 0 && aps@.last()@
                == "RuntimeApi"@))
            &&& sig.output matches ReturnShape::Type(TypeShape::Path(rs))
            &&& rs@.len() > 0
            &&& rs@.last()@ == "Result"@
        },
        entry_rule(sig) matches Ok(two) ==> two == (sig.inputs@.len() == 2),
{
}

/// The handler rule on the header itself: a handler for a known kind is
/// accepted exactly when it is not generic, has one parameter per
/// argument of the kind, each a reference to a path ending in `str`
/// where the kind passes text and a path ending in `u64` where it passes
/// a number, and returns `()` (nothing written, or `-> ()`).
pub proof fn lemma_handler_rule_on_shapes(kind: Seq<char>, sig: FnShape)
    requires
        event_table(kind) is Some,
    ensures
        handler_rule(kind, sig) is Ok <==> {
            let want = event_table(kind).unwrap().1;
            &&& !sig.generic
            &&& sig.inputs@.len() == want.len()
            &&& forall|j: int|
                0 <= j < want.len() ==> (want[j] is Str ==> (#[trigger] sig.inputs@[j] matches ParamShape::Typed(
                    TypeShape::Reference(e),
                ) && (*e matches TypeShape::Path(ps) && ps@.len() > 0 && ps@.last()@ == "str"@)))
                    && (want[j] is U64 ==> (sig.inputs@[j] matches ParamShape::Typed(
                    TypeShape::Path(ps),
                ) && ps@.len() > 0 && ps@.last()@ == "u64"@))
            &&& (sig.output is Default || (sig.output matches ReturnShape::Type(TypeShape::Tuple(n))
                && n == 0))
        },
{
    lemma_handler_accepted_iff_documented(kind, sig);
    let want = event_table(kind).unwrap().1;
    assert forall|j: int| 0 <= j < want.len() implies (param_fits(sig.inputs@[j], want[j]) <==> ((
    want[j] is Str ==> (sig.inputs@[j] matches ParamShape::Typed(TypeShape::Reference(e)) && (
    *e matches TypeShape::Path(ps) && ps@.len() > 0 && ps@.last()@ == "str"@))) && (want[j] is U64
        ==> (sig.inputs@[j] matches ParamShape::Typed(TypeShape::Path(ps)) && ps@.len() > 0
        && ps@.last()@ == "u64"@)))) by {
    }
}

} // verus!
