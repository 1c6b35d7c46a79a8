//! Helpers on call sites: the called function's name and the argument count.
use vstd::prelude::*;
use crate::hooks::HookError;
use crate::types::IrType;

verus! {

/// What a call site calls.
#[derive(Debug, Clone)]
pub enum Callee {
    /// A function referred to by its global name.
    Function(String),
    /// A constant or computed operand that names no function (a cast, a function
    /// pointer, a numbered global).
    Unnamed,
    /// Inline assembly.
    InlineAssembly,
}

/// The name of the function a call site calls, where it names one directly.
pub fn get_function_name(call: &Callee) -> (r: Option<String>)
    ensures
        r matches Some(n) ==> (call matches Callee::Function(m) && n@ == m@),
        r is None ==> !(call is Function),
{
    match call {
        Callee::Function(name) => Some(name.clone()),
        _ => None,
    }
}

/// The call's arguments, where there are exactly `expected_count` of them.
pub fn get_args_exact<A>(call_args: Vec<A>, expected_count: usize) -> (r: Result<Vec<A>, HookError>)
    ensures
        call_args.len() == expected_count ==> r == Ok::<Vec<A>, HookError>(call_args),
        call_args.len() != expected_count ==> r == Err::<Vec<A>, HookError>(
            HookError::ArityMismatch { expected: expected_count, actual: call_args.len() },
        ),
{
    if call_args.len() != expected_count {
        return Err(HookError::ArityMismatch { expected: expected_count, actual: call_args.len() });
    }
    Ok(call_args)
}

/// The type a pointer type points to, in address space zero; nothing for any
/// other type.
pub fn get_pointer_type(ty: &IrType) -> (r: Option<&IrType>)
    ensures
        r matches Some(p) ==> (ty matches IrType::Pointer { pointee, addr_space } && addr_space
            == 0 && *p == *pointee),
        r is None ==> !(ty matches IrType::Pointer { addr_space, .. } && addr_space == 0),
{
    match ty {
        IrType::Pointer { pointee, addr_space } => if *addr_space == 0 {
            Some(&**pointee)
        } else {
            None
        },
        _ => None,
    }
}

} // verus!
