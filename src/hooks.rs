//! The hook registry, the dispatcher, and the plans that the semantic handlers
//! carry out on the symbolic state.
use vstd::prelude::*;
use crate::demangle::{demangle_name, demangling_of};
use crate::names::{
    balanced, canonical, canonical_signature, depth_after, lemma_canonical_ignores_template_args,
};
use crate::text::str_eq;
use crate::types::{bits_of, fits, get_bits_from_type, IrType};
use crate::utils::{get_function_name, Callee};

verus! {

/// Why a call could not be handled.
#[derive(Debug, Clone, Copy, PartialEq, Eq)]
pub enum HookError {
    /// The call goes through inline assembly or a value that names no function.
    UnresolvableCallTarget,
    /// The call has another number of arguments than its handler takes.
    ArityMismatch { expected: usize, actual: usize },
    /// A type that the handler needs to size has no width in whole bits that fits.
    UnsizedType,
    /// No entry matches the call and no default is set.
    NoHandler,
}

/// The semantic handlers that calls can be routed to.
#[derive(Debug, Clone, Copy, PartialEq, Eq)]
pub enum Handler {
    /// Reads the payload out of a wrapped value.
    UnsafeUnverified,
    /// Writes a value's payload through a wrapper and returns the wrapper.
    TaintedAssign,
    /// Computes the address of an element of a wrapped array.
    TaintedIndex,
    /// Computes the address of an element of a fixed-size array.
    StdArrayIndex,
    /// Reads the pointer that a wrapped pointer holds.
    TaintedDeref,
    /// Allocates concrete storage for the sandbox.
    MallocInSandbox,
    /// Returns a fresh value of the callee's return type.
    GenericStub,
}

/// One registered key and its handler.
#[derive(Debug, Clone)]
pub struct HookEntry {
    pub key: String,
    pub handler: Handler,
}

/// The handler that the newest of the first `n` entries with this key holds.
pub open spec fn newest(entries: Seq<HookEntry>, key: Seq<char>, n: int) -> Option<Handler>
    decreases n,
{
    if n <= 0 || n > entries.len() {
        None
    } else if entries[n - 1].key@ == key {
        Some(entries[n - 1].handler)
    } else {
        newest(entries, key, n - 1)
    }
}

/// The mapping that a list of entries stands for: each key to its newest handler.
pub open spec fn entries_map(entries: Seq<HookEntry>) -> Map<Seq<char>, Handler> {
    Map::new(
        |k: Seq<char>| newest(entries, k, entries.len() as int) is Some,
        |k: Seq<char>| newest(entries, k, entries.len() as int)->0,
    )
}

/// Handlers by exact symbol name and by canonical signature, and the default.
/// Built before exploration and only read during it.
#[derive(Debug, Clone)]
pub struct HookRegistry {
    exact: Vec<HookEntry>,
    canonical: Vec<HookEntry>,
    default: Option<Handler>,
}

/// The mappings of a registry.
pub struct RegistryView {
    pub exact: Map<Seq<char>, Handler>,
    pub canonical: Map<Seq<char>, Handler>,
    pub default: Option<Handler>,
}

impl View for HookRegistry {
    type V = RegistryView;

    closed spec fn view(&self) -> RegistryView {
        RegistryView {
            exact: entries_map(self.exact@),
            canonical: entries_map(self.canonical@),
            default: self.default,
        }
    }
}

proof fn lemma_newest_push(entries: Seq<HookEntry>, e: HookEntry, key: Seq<char>)
    ensures
        newest(entries.push(e), key, entries.len() + 1int) == if e.key@ == key {
            Some(e.handler)
        } else {
            newest(entries, key, entries.len() as int)
        },
{
    lemma_newest_prefix(entries, e, key, entries.len() as int);
}

proof fn lemma_newest_prefix(entries: Seq<HookEntry>, e: HookEntry, key: Seq<char>, n: int)
    requires
        0 <= n <= entries.len(),
    ensures
        newest(entries.push(e), key, n) == newest(entries, key, n),
    decreases n,
{
    if n > 0 {
        lemma_newest_prefix(entries, e, key, n - 1);
    }
}

proof fn lemma_map_push(entries: Seq<HookEntry>, e: HookEntry)
    ensures
        entries_map(entries.push(e)) == entries_map(entries).insert(e.key@, e.handler),
{
    assert forall|k: Seq<char>| #[trigger]
        newest(entries.push(e), k, entries.push(e).len() as int) == if e.key@ == k {
            Some(e.handler)
        } else {
            newest(entries, k, entries.len() as int)
        } by {
        lemma_newest_push(entries, e, k);
    }
    assert(entries_map(entries.push(e)) =~= entries_map(entries).insert(e.key@, e.handler));
}

/// The handler of the newest entry with this key, found from the end.
fn find_newest(entries: &Vec<HookEntry>, key: &str) -> (r: Option<Handler>)
    ensures
        r == newest(entries@, key@, entries@.len() as int),
{
    let mut n: usize = entries.len();
    while n > 0
        invariant
            n <= entries.len(),
            newest(entries@, key@, entries@.len() as int) == newest(entries@, key@, n as int),
        decreases n,
    {
        if str_eq(entries[n - 1].key.as_str(), key) {
            return Some(entries[n - 1].handler);
        }
        n = n - 1;
    }
    None
}

/// The explicit entry that a call matches: an exact entry for the symbol, else an
/// entry for the canonical signature of its demangled name (of the symbol itself
/// where it does not demangle).
pub open spec fn find_spec(reg: RegistryView, name: Seq<char>, demangled: Option<Seq<char>>) -> Option<Handler> {
    let text = match demangled {
        Some(d) => d,
        None => name,
    };
    if reg.exact.contains_key(name) {
        Some(reg.exact[name])
    } else if reg.canonical.contains_key(canonical(text)) {
        Some(reg.canonical[canonical(text)])
    } else {
        None
    }
}

/// What a call resolves to: its explicit entry, else the default.
pub open spec fn lookup_spec(reg: RegistryView, name: Seq<char>, demangled: Option<Seq<char>>) -> Option<Handler> {
    match find_spec(reg, name, demangled) {
        Some(h) => Some(h),
        None => reg.default,
    }
}

/// The view of an optional demangled name.
pub open spec fn opt_str(d: Option<&str>) -> Option<Seq<char>> {
    match d {
        Some(t) => Some(t@),
        None => None,
    }
}

/// Calls of two instantiations of one generic operation reach the same handler,
/// unless a symbol has an exact entry of its own: the demangled texts `p<x>q` and
/// `p<y>q`, with `x` and `y` balanced template arguments and `p` closing every
/// span it opens, resolve alike.
pub proof fn lemma_dispatch_ignores_template_args(
    reg: RegistryView,
    name1: Seq<char>,
    name2: Seq<char>,
    p: Seq<char>,
    x: Seq<char>,
    y: Seq<char>,
    q: Seq<char>,
)
    requires
        !reg.exact.contains_key(name1),
        !reg.exact.contains_key(name2),
        depth_after(0, p) == 0,
        balanced(x),
        balanced(y),
    ensures
        lookup_spec(reg, name1, Some(p + seq!['<'] + x + seq!['>'] + q)) == lookup_spec(
            reg,
            name2,
            Some(p + seq!['<'] + y + seq!['>'] + q),
        ),
{
    lemma_canonical_ignores_template_args(p, x, y, q);
}

impl HookRegistry {
    /// A registry with no entries and no default.
    pub fn new() -> (r: Self)
        ensures
            r@.exact == Map::<Seq<char>, Handler>::empty(),
            r@.canonical == Map::<Seq<char>, Handler>::empty(),
            r@.default is None,
    {
        let r = HookRegistry { exact: Vec::new(), canonical: Vec::new(), default: None };
        assert(r@.exact =~= Map::<Seq<char>, Handler>::empty());
        assert(r@.canonical =~= Map::<Seq<char>, Handler>::empty());
        r
    }

    /// Routes every call whose canonical signature is `signature` to `handler`,
    /// in place of an earlier entry for it.
    pub fn register(&mut self, signature: &str, handler: Handler)
        ensures
            final(self)@.canonical == old(self)@.canonical.insert(signature@, handler),
            final(self)@.exact == old(self)@.exact,
            final(self)@.default == old(self)@.default,
    {
        let e = HookEntry { key: String::from_str(signature), handler };
        proof {
            lemma_map_push(self.canonical@, e);
        }
        self.canonical.push(e);
    }

    /// Routes calls of exactly the symbol `name` to `handler`, in place of an
    /// earlier entry for it.
    pub fn register_exact(&mut self, name: &str, handler: Handler)
        ensures
            final(self)@.exact == old(self)@.exact.insert(name@, handler),
            final(self)@.canonical == old(self)@.canonical,
            final(self)@.default == old(self)@.default,
    {
        let e = HookEntry { key: String::from_str(name), handler };
        proof {
            lemma_map_push(self.exact@, e);
        }
        self.exact.push(e);
    }

    /// Routes every call that no entry matches to `handler`.
    pub fn register_default(&mut self, handler: Handler)
        ensures
            final(self)@.default == Some(handler),
            final(self)@.exact == old(self)@.exact,
            final(self)@.canonical == old(self)@.canonical,
    {
        self.default = Some(handler);
    }

    /// The explicit entry for a call of the symbol `name`, whose demangled text is
    /// `demangled` where it demangles; the default is not consulted.
    pub fn find(&self, name: &str, demangled: Option<&str>) -> (r: Option<Handler>)
        ensures
            r == find_spec(self@, name@, opt_str(demangled)),
    {
        match find_newest(&self.exact, name) {
            Some(h) => return Some(h),
            None => {},
        }
        let text = match demangled {
            Some(d) => d,
            None => name,
        };
        let key = canonical_signature(text);
        find_newest(&self.canonical, key.as_str())
    }

    /// The handler for calls that no entry matches.
    pub fn default_handler(&self) -> (r: Option<Handler>)
        ensures
            r == self@.default,
    {
        self.default
    }

    /// The handler for a call of the symbol `name`: its explicit entry, else the default.
    pub fn lookup(&self, name: &str, demangled: Option<&str>) -> (r: Option<Handler>)
        ensures
            r == lookup_spec(self@, name@, opt_str(demangled)),
    {
        match self.find(name, demangled) {
            Some(h) => Some(h),
            None => self.default,
        }
    }
}

/// Resolves a call site to its handler: fails where the call names no function;
/// otherwise demangles the name and looks it up (exact entry, canonical signature,
/// default), and fails where nothing matches.
pub fn dispatch(registry: &HookRegistry, call: &Callee) -> (r: Result<Handler, HookError>)
    ensures
        !(call is Function) ==> r == Err::<Handler, HookError>(HookError::UnresolvableCallTarget),
        call matches Callee::Function(name) ==> r == match lookup_spec(
            registry@,
            name@,
            demangling_of(name@),
        ) {
            Some(h) => Ok::<Handler, HookError>(h),
            None => Err(HookError::NoHandler),
        },
{
    let name = match get_function_name(call) {
        Some(n) => n,
        None => return Err(HookError::UnresolvableCallTarget),
    };
    let demangled = demangle_name(name.as_str());
    let text: Option<&str> = match &demangled {
        Some(d) => Some(d.as_str()),
        None => None,
    };
    match registry.lookup(name.as_str(), text) {
        Some(h) => Ok(h),
        None => Err(HookError::NoHandler),
    }
}

/// The sandbox operations that `add_hooks` routes, by canonical signature.
pub open spec fn with_sandbox_hooks(m: Map<Seq<char>, Handler>) -> Map<Seq<char>, Handler> {
    m.insert("rlbox::tainted_base_impl::UNSAFE_unverified"@, Handler::UnsafeUnverified).insert(
        "rlbox::tainted_volatile::operator="@,
        Handler::TaintedAssign,
    ).insert("rlbox::tainted_base_impl::operator[]"@, Handler::TaintedIndex).insert(
        "std::array::operator[]"@,
        Handler::StdArrayIndex,
    ).insert("rlbox::tainted_base_impl::operator*"@, Handler::TaintedDeref).insert(
        "rlbox::rlbox_sandbox::malloc_in_sandbox"@,
        Handler::MallocInSandbox,
    ).insert("rlbox::tainted_base_impl::copy_and_verify"@, Handler::GenericStub).insert(
        "rlbox::rlbox_sandbox::rlbox_sandbox"@,
        Handler::GenericStub,
    ).insert("rlbox::rlbox_sandbox::create_sandbox"@, Handler::GenericStub)
}

/// Registers the handlers of the sandbox operations, and the generic stub as the
/// default for calls that nothing else handles.
pub fn add_hooks(registry: &mut HookRegistry)
    ensures
        final(registry)@.canonical == with_sandbox_hooks(old(registry)@.canonical),
        final(registry)@.exact == old(registry)@.exact,
        final(registry)@.default == Some(Handler::GenericStub),
{
    registry.register("rlbox::tainted_base_impl::UNSAFE_unverified", Handler::UnsafeUnverified);
    registry.register("rlbox::tainted_volatile::operator=", Handler::TaintedAssign);
    registry.register("rlbox::tainted_base_impl::operator[]", Handler::TaintedIndex);
    registry.register("std::array::operator[]", Handler::StdArrayIndex);
    registry.register("rlbox::tainted_base_impl::operator*", Handler::TaintedDeref);
    registry.register("rlbox::rlbox_sandbox::malloc_in_sandbox", Handler::MallocInSandbox);
    registry.register("rlbox::tainted_base_impl::copy_and_verify", Handler::GenericStub);
    registry.register("rlbox::rlbox_sandbox::rlbox_sandbox", Handler::GenericStub);
    registry.register("rlbox::rlbox_sandbox::create_sandbox", Handler::GenericStub);
    registry.register_default(Handler::GenericStub);
}

/// What a handler does to the symbolic state. Argument positions refer to the
/// call's arguments; widths are in bits.
#[derive(Debug, Clone, Copy, PartialEq, Eq)]
pub enum Effect {
    /// Read `bits` at the address that argument `address_arg` holds; return what was read.
    ReadThrough { address_arg: usize, bits: u64 },
    /// Take the payload of argument `value_arg` (`bits` read at the address it
    /// holds where `by_reference`, else its own value), write it at the address
    /// that argument `dest_arg` holds, and return that address.
    AssignThrough { dest_arg: usize, value_arg: usize, by_reference: bool, bits: u64 },
    /// Take the index from argument `index_arg` (`index_bits` read at the address it
    /// holds where `by_reference`, else its own value), zero-extend it to the
    /// address width, and return `base + index * element_bytes`, with `base` the
    /// value of argument `base_arg`.
    ElementAddress {
        base_arg: usize,
        index_arg: usize,
        by_reference: bool,
        index_bits: u64,
        element_bytes: u64,
    },
    /// Allocate `bits` of fresh storage at a concrete address; return the address.
    Allocate { bits: u64 },
    /// Return nothing.
    ReturnVoid,
    /// Return a fresh unconstrained value of `bits`.
    Fresh { bits: u64 },
}

/// The width of a type, where it has a nonzero one that fits in 64 bits.
pub open spec fn width(t: IrType, ptr: nat) -> Option<u64> {
    if fits(t, ptr) && bits_of(t, ptr)->0 > 0 {
        Some(bits_of(t, ptr)->0 as u64)
    } else {
        None
    }
}

/// What a pointer type in address space zero points to.
pub open spec fn pointee_of(t: IrType) -> Option<IrType> {
    match t {
        IrType::Pointer { pointee, addr_space } => if addr_space == 0 {
            Some(*pointee)
        } else {
            None
        },
        _ => None,
    }
}

/// The width of what a pointer type points to.
pub open spec fn pointee_width(t: IrType, ptr: nat) -> Option<u64> {
    match pointee_of(t) {
        Some(p) => width(p, ptr),
        None => None,
    }
}

/// How an argument of type `t` carries its payload: through a pointer (with the
/// pointee's width), or as a value (with its own width).
pub open spec fn payload(t: IrType, ptr: nat) -> Option<(bool, u64)> {
    match pointee_of(t) {
        Some(p) => match width(p, ptr) {
            Some(b) => Some((true, b)),
            None => None,
        },
        None => match width(t, ptr) {
            Some(b) => Some((false, b)),
            None => None,
        },
    }
}

/// What the default handler does for a callee with return type `ret`: nothing
/// for void; for a pointer, fresh storage of the pointee's size (a fresh pointer
/// value where the pointee has no size); otherwise a fresh value of the type's width.
pub open spec fn default_plan(ret: IrType, ptr: nat) -> Result<Effect, HookError> {
    match ret {
        IrType::Void => Ok(Effect::ReturnVoid),
        IrType::Pointer { .. } => match pointee_width(ret, ptr) {
            Some(b) => Ok(Effect::Allocate { bits: b }),
            None => if ptr > 0 {
                Ok(Effect::Fresh { bits: ptr as u64 })
            } else {
                Err(HookError::UnsizedType)
            },
        },
        _ => match width(ret, ptr) {
            Some(b) => Ok(Effect::Fresh { bits: b }),
            None => Err(HookError::UnsizedType),
        },
    }
}

/// The arity check that each handler makes first.
pub open spec fn arity(expected: usize, args: Seq<IrType>, then: Result<Effect, HookError>) -> Result<Effect, HookError> {
    if args.len() != expected {
        Err(HookError::ArityMismatch { expected, actual: args.len() as usize })
    } else {
        then
    }
}

/// What a handler does for a call with arguments of types `args` to a callee
/// returning `ret`, with pointers `ptr` bits wide.
pub open spec fn plan_spec(h: Handler, args: Seq<IrType>, ret: IrType, ptr: nat) -> Result<Effect, HookError> {
    match h {
        Handler::UnsafeUnverified | Handler::TaintedDeref => arity(
            1,
            args,
            match width(ret, ptr) {
                Some(b) => Ok(Effect::ReadThrough { address_arg: 0, bits: b }),
                None => Err(HookError::UnsizedType),
            },
        ),
        Handler::TaintedAssign => arity(
            2,
            args,
            match payload(args[1], ptr) {
                Some((r, b)) => Ok(
                    Effect::AssignThrough { dest_arg: 0, value_arg: 1, by_reference: r, bits: b },
                ),
                None => Err(HookError::UnsizedType),
            },
        ),
        Handler::TaintedIndex | Handler::StdArrayIndex => arity(
            2,
            args,
            match (payload(args[1], ptr), pointee_width(ret, ptr)) {
                (Some((r, ib)), Some(eb)) => if eb % 8 == 0 {
                    Ok(
                        Effect::ElementAddress {
                            base_arg: 0,
                            index_arg: 1,
                            by_reference: r,
                            index_bits: ib,
                            element_bytes: eb / 8,
                        },
                    )
                } else {
                    Err(HookError::UnsizedType)
                },
                _ => Err(HookError::UnsizedType),
            },
        ),
        Handler::MallocInSandbox => arity(
            1,
            args,
            match pointee_width(ret, ptr) {
                Some(b) => Ok(Effect::Allocate { bits: b }),
                None => Err(HookError::UnsizedType),
            },
        ),
        Handler::GenericStub => default_plan(ret, ptr),
    }
}

/// The width of a type, where it has a nonzero one that fits in 64 bits.
fn width_of(t: &IrType, pointer_size: u64) -> (r: Option<u64>)
    ensures
        r == width(*t, pointer_size as nat),
{
    match get_bits_from_type(t, pointer_size) {
        Some(b) => if b > 0 {
            Some(b)
        } else {
            None
        },
        None => None,
    }
}

/// What a pointer type in address space zero points to.
fn pointee(t: &IrType) -> (r: Option<&IrType>)
    ensures
        r matches Some(p) ==> pointee_of(*t) == Some(*p),
        r is None ==> pointee_of(*t) is None,
{
    crate::utils::get_pointer_type(t)
}

/// The width of what a pointer type points to.
fn pointee_width_of(t: &IrType, pointer_size: u64) -> (r: Option<u64>)
    ensures
        r == pointee_width(*t, pointer_size as nat),
{
    match pointee(t) {
        Some(p) => width_of(p, pointer_size),
        None => None,
    }
}

/// How an argument of type `t` carries its payload.
fn payload_of(t: &IrType, pointer_size: u64) -> (r: Option<(bool, u64)>)
    ensures
        r == payload(*t, pointer_size as nat),
{
    match pointee(t) {
        Some(p) => match width_of(p, pointer_size) {
            Some(b) => Some((true, b)),
            None => None,
        },
        None => match width_of(t, pointer_size) {
            Some(b) => Some((false, b)),
            None => None,
        },
    }
}

/// What the default handler does for a callee returning `ret` (see `default_plan`).
pub fn default_return_plan(ret: &IrType, pointer_size: u64) -> (r: Result<Effect, HookError>)
    ensures
        r == default_plan(*ret, pointer_size as nat),
{
    match ret {
        IrType::Void => Ok(Effect::ReturnVoid),
        IrType::Pointer { .. } => match pointee_width_of(ret, pointer_size) {
            Some(b) => Ok(Effect::Allocate { bits: b }),
            None => if pointer_size > 0 {
                Ok(Effect::Fresh { bits: pointer_size })
            } else {
                Err(HookError::UnsizedType)
            },
        },
        _ => match width_of(ret, pointer_size) {
            Some(b) => Ok(Effect::Fresh { bits: b }),
            None => Err(HookError::UnsizedType),
        },
    }
}

/// What `handler` does for a call with arguments of types `arg_types` to a callee
/// returning `return_type` (see `plan_spec`): the arity is checked first, then
/// each width the effect needs is taken from those types.
pub fn plan_call(
    handler: Handler,
    arg_types: &Vec<IrType>,
    return_type: &IrType,
    pointer_size: u64,
) -> (r: Result<Effect, HookError>)
    ensures
        r == plan_spec(handler, arg_types@, *return_type, pointer_size as nat),
{
    let n = arg_types.len();
    match handler {
        Handler::UnsafeUnverified | Handler::TaintedDeref => {
            if n != 1 {
                return Err(HookError::ArityMismatch { expected: 1, actual: n });
            }
            match width_of(return_type, pointer_size) {
                Some(b) => Ok(Effect::ReadThrough { address_arg: 0, bits: b }),
                None => Err(HookError::UnsizedType),
            }
        },
        Handler::TaintedAssign => {
            if n != 2 {
                return Err(HookError::ArityMismatch { expected: 2, actual: n });
            }
            match payload_of(&arg_types[1], pointer_size) {
                Some((r, b)) => Ok(
                    Effect::AssignThrough { dest_arg: 0, value_arg: 1, by_reference: r, bits: b },
                ),
                None => Err(HookError::UnsizedType),
            }
        },
        Handler::TaintedIndex | Handler::StdArrayIndex => {
            if n != 2 {
                return Err(HookError::ArityMismatch { expected: 2, actual: n });
            }
            match (payload_of(&arg_types[1], pointer_size), pointee_width_of(return_type, pointer_size)) {
                (Some((r, ib)), Some(eb)) => if eb % 8 == 0 {
                    Ok(
                        Effect::ElementAddress {
                            base_arg: 0,
                            index_arg: 1,
                            by_reference: r,
                            index_bits: ib,
                            element_bytes: eb / 8,
                        },
                    )
                } else {
                    Err(HookError::UnsizedType)
                },
                _ => Err(HookError::UnsizedType),
            }
        },
        Handler::MallocInSandbox => {
            if n != 1 {
                return Err(HookError::ArityMismatch { expected: 1, actual: n });
            }
            match pointee_width_of(return_type, pointer_size) {
                Some(b) => Ok(Effect::Allocate { bits: b }),
                None => Err(HookError::UnsizedType),
            }
        },
        Handler::GenericStub => default_return_plan(return_type, pointer_size),
    }
}

} // verus!
