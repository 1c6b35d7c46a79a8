use test_haybale::hooks::{
    add_hooks, default_return_plan, dispatch, plan_call, Effect, Handler, HookError, HookRegistry,
};
use test_haybale::types::{get_bits_from_type, FpKind, IrType};
use test_haybale::utils::{get_args_exact, get_function_name, get_pointer_type, Callee};

fn ptr_to(t: IrType) -> IrType {
    IrType::Pointer { pointee: Box::new(t), addr_space: 0 }
}

fn i(bits: u32) -> IrType {
    IrType::Integer { bits }
}

fn sandbox_registry() -> HookRegistry {
    let mut r = HookRegistry::new();
    add_hooks(&mut r);
    r
}

#[test]
fn lookup_by_canonical_signature() {
    let r = sandbox_registry();
    let cases = [
        ("rlbox::tainted_base_impl<rlbox::tainted_volatile, int, rlbox::rlbox_noop_sandbox>::UNSAFE_unverified() const", Handler::UnsafeUnverified),
        ("rlbox::tainted_volatile<int, rlbox::rlbox_noop_sandbox>& rlbox::tainted_volatile<int, rlbox::rlbox_noop_sandbox>::operator=<int>(int&&)", Handler::TaintedAssign),
        ("rlbox::tainted_base_impl<rlbox::tainted_volatile, int [4], rlbox::rlbox_noop_sandbox>::operator[]<int>(int&&)", Handler::TaintedIndex),
        ("std::array<int, (unsigned long)4>::operator[](unsigned long)", Handler::StdArrayIndex),
        ("rlbox::tainted_base_impl<rlbox::tainted, int (*) [4], rlbox::rlbox_noop_sandbox>::operator*() const", Handler::TaintedDeref),
        ("rlbox::tainted<int (*) [4], rlbox::rlbox_noop_sandbox> rlbox::rlbox_sandbox<rlbox::rlbox_noop_sandbox>::malloc_in_sandbox<int [4]>()", Handler::MallocInSandbox),
        ("bool rlbox::rlbox_sandbox<rlbox::rlbox_noop_sandbox>::create_sandbox<>()", Handler::GenericStub),
    ];
    for (demangled, h) in cases {
        assert_eq!(r.lookup("_Zsym", Some(demangled)), Some(h));
    }
}

#[test]
fn lookup_through_the_demangler() {
    let r = sandbox_registry();
    let mangled = "_ZNK5rlbox17tainted_base_implINS_16tainted_volatileEiNS_18rlbox_noop_sandboxEE17UNSAFE_unverifiedEv";
    let parsed = test_haybale::demangle::demangle_and_parse_cpp_function(mangled).unwrap();
    assert_eq!(parsed.function_name, "UNSAFE_unverified");
    let key = test_haybale::names::canonical_signature(
        "rlbox::tainted_base_impl<rlbox::tainted_volatile, int, rlbox::rlbox_noop_sandbox>::UNSAFE_unverified() const",
    );
    assert_eq!(r.lookup(mangled, Some(key.as_str())), Some(Handler::UnsafeUnverified));
}

#[test]
fn exact_entries_come_first_and_last_registration_wins() {
    let mut r = sandbox_registry();
    r.register_exact("_Z3foov", Handler::TaintedDeref);
    assert_eq!(r.lookup("_Z3foov", Some("std::array<int, 4ul>::operator[](unsigned long)")), Some(Handler::TaintedDeref));
    r.register("std::array::operator[]", Handler::MallocInSandbox);
    assert_eq!(r.lookup("_Z1xv", Some("std::array<char, 2ul>::operator[](unsigned long)")), Some(Handler::MallocInSandbox));
}

#[test]
fn unknown_calls_go_to_the_default() {
    let r = sandbox_registry();
    assert_eq!(r.lookup("printf", None), Some(Handler::GenericStub));
    let empty = HookRegistry::new();
    assert_eq!(empty.lookup("printf", None), None);
    let mut c = HookRegistry::new();
    c.register("malloc", Handler::MallocInSandbox);
    assert_eq!(c.lookup("malloc", None), Some(Handler::MallocInSandbox));
}

#[test]
fn dispatch_needs_a_named_callee() {
    let r = sandbox_registry();
    assert_eq!(dispatch(&r, &Callee::InlineAssembly), Err(HookError::UnresolvableCallTarget));
    assert_eq!(dispatch(&r, &Callee::Unnamed), Err(HookError::UnresolvableCallTarget));
    let f = Callee::Function("_ZNSt5arrayIiLm4EEixEm".to_string());
    assert_eq!(dispatch(&r, &f), Ok(Handler::StdArrayIndex));
    let unsafe_extract = Callee::Function(
        "_ZNK5rlbox17tainted_base_implINS_16tainted_volatileEiNS_18rlbox_noop_sandboxEE17UNSAFE_unverifiedEv".to_string(),
    );
    assert_eq!(dispatch(&r, &unsafe_extract), Ok(Handler::UnsafeUnverified));
    assert_eq!(dispatch(&r, &Callee::Function("printf".to_string())), Ok(Handler::GenericStub));
    assert_eq!(dispatch(&HookRegistry::new(), &f), Err(HookError::NoHandler));
}

#[test]
fn function_name_of_callee() {
    assert_eq!(get_function_name(&Callee::Function("f".to_string())), Some("f".to_string()));
    assert_eq!(get_function_name(&Callee::InlineAssembly), None);
}

#[test]
fn arity_is_checked() {
    assert_eq!(get_args_exact(vec![1, 2], 2), Ok(vec![1, 2]));
    assert_eq!(get_args_exact(vec![1, 2], 1), Err(HookError::ArityMismatch { expected: 1, actual: 2 }));
    let r = plan_call(Handler::TaintedIndex, &vec![ptr_to(i(32))], &ptr_to(i(32)), 64);
    assert_eq!(r, Err(HookError::ArityMismatch { expected: 2, actual: 1 }));
}

#[test]
fn extract_and_deref_read_the_return_width() {
    let args = vec![ptr_to(i(32))];
    assert_eq!(plan_call(Handler::UnsafeUnverified, &args, &i(32), 64), Ok(Effect::ReadThrough { address_arg: 0, bits: 32 }));
    assert_eq!(plan_call(Handler::TaintedDeref, &args, &ptr_to(i(8)), 64), Ok(Effect::ReadThrough { address_arg: 0, bits: 64 }));
    assert_eq!(plan_call(Handler::UnsafeUnverified, &args, &IrType::Void, 64), Err(HookError::UnsizedType));
}

#[test]
fn assignment_writes_the_payload() {
    let args = vec![ptr_to(i(32)), ptr_to(i(16))];
    assert_eq!(
        plan_call(Handler::TaintedAssign, &args, &ptr_to(i(32)), 64),
        Ok(Effect::AssignThrough { dest_arg: 0, value_arg: 1, by_reference: true, bits: 16 })
    );
    let by_value = vec![ptr_to(i(32)), i(64)];
    assert_eq!(
        plan_call(Handler::TaintedAssign, &by_value, &ptr_to(i(32)), 64),
        Ok(Effect::AssignThrough { dest_arg: 0, value_arg: 1, by_reference: false, bits: 64 })
    );
}

#[test]
fn index_scales_by_element_size() {
    let args = vec![ptr_to(IrType::Struct { elements: vec![] }), ptr_to(i(32))];
    assert_eq!(
        plan_call(Handler::TaintedIndex, &args, &ptr_to(i(64)), 64),
        Ok(Effect::ElementAddress { base_arg: 0, index_arg: 1, by_reference: true, index_bits: 32, element_bytes: 8 })
    );
    let by_value = vec![ptr_to(i(8)), i(64)];
    assert_eq!(
        plan_call(Handler::StdArrayIndex, &by_value, &ptr_to(i(32)), 64),
        Ok(Effect::ElementAddress { base_arg: 0, index_arg: 1, by_reference: false, index_bits: 64, element_bytes: 4 })
    );
    assert_eq!(plan_call(Handler::StdArrayIndex, &by_value, &ptr_to(i(1)), 64), Err(HookError::UnsizedType));
}

#[test]
fn sandbox_allocation_sizes_the_pointee() {
    let arr = IrType::Array { element: Box::new(i(32)), num_elements: 4 };
    assert_eq!(plan_call(Handler::MallocInSandbox, &vec![i(64)], &ptr_to(arr), 64), Ok(Effect::Allocate { bits: 128 }));
    assert_eq!(plan_call(Handler::MallocInSandbox, &vec![i(64)], &i(32), 64), Err(HookError::UnsizedType));
}

#[test]
fn default_handler_follows_the_return_type() {
    assert_eq!(default_return_plan(&IrType::Void, 64), Ok(Effect::ReturnVoid));
    assert_eq!(default_return_plan(&i(16), 64), Ok(Effect::Fresh { bits: 16 }));
    assert_eq!(default_return_plan(&ptr_to(i(8)), 64), Ok(Effect::Allocate { bits: 8 }));
    let empty = IrType::Struct { elements: vec![] };
    assert_eq!(default_return_plan(&ptr_to(empty), 64), Ok(Effect::Fresh { bits: 64 }));
    let pair = IrType::Struct { elements: vec![i(32), IrType::Fp(FpKind::Double)] };
    assert_eq!(default_return_plan(&pair, 64), Ok(Effect::Fresh { bits: 96 }));
    assert_eq!(default_return_plan(&IrType::Metadata, 64), Err(HookError::UnsizedType));
    assert_eq!(plan_call(Handler::GenericStub, &vec![], &i(8), 64), Ok(Effect::Fresh { bits: 8 }));
}

#[test]
fn bits_of_types() {
    assert_eq!(get_bits_from_type(&IrType::Void, 64), Some(0));
    assert_eq!(get_bits_from_type(&i(7), 64), Some(7));
    assert_eq!(get_bits_from_type(&ptr_to(i(8)), 32), Some(32));
    assert_eq!(get_bits_from_type(&IrType::Fp(FpKind::X86Fp80), 64), Some(80));
    assert_eq!(get_bits_from_type(&IrType::Fp(FpKind::Half), 64), Some(16));
    assert_eq!(get_bits_from_type(&IrType::Func, 64), Some(64));
    let opaque = IrType::NamedStruct { name: "S".to_string(), fields: None };
    assert_eq!(get_bits_from_type(&opaque, 64), None);
    let named = IrType::NamedStruct { name: "P".to_string(), fields: Some(vec![i(32), i(8), ptr_to(i(8))]) };
    assert_eq!(get_bits_from_type(&named, 64), Some(104));
    let arr = IrType::Array { element: Box::new(i(32)), num_elements: 4 };
    assert_eq!(get_bits_from_type(&arr, 64), Some(128));
    let vec4 = IrType::Vector { element: Box::new(i(8)), num_elements: 16 };
    assert_eq!(get_bits_from_type(&vec4, 64), Some(128));
    let st = IrType::Struct { elements: vec![i(32), i(64), ptr_to(i(8))] };
    assert_eq!(get_bits_from_type(&st, 64), Some(160));
    assert_eq!(get_bits_from_type(&IrType::Label, 64), None);
    assert_eq!(get_bits_from_type(&IrType::Struct { elements: vec![i(8), IrType::Token] }, 64), None);
    let huge = IrType::Array { element: Box::new(i(64)), num_elements: usize::MAX };
    assert_eq!(get_bits_from_type(&huge, 64), None);
}

#[test]
fn pointee_of_pointer_types() {
    let p = ptr_to(i(32));
    assert!(matches!(get_pointer_type(&p), Some(IrType::Integer { bits: 32 })));
    let far = IrType::Pointer { pointee: Box::new(i(32)), addr_space: 1 };
    assert!(get_pointer_type(&far).is_none());
    assert!(get_pointer_type(&i(32)).is_none());
}

#[test]
fn find_ignores_the_default() {
    let r = sandbox_registry();
    assert_eq!(r.find("printf", None), None);
    assert_eq!(r.default_handler(), Some(Handler::GenericStub));
    assert_eq!(
        r.find("_Z1x", Some("rlbox::tainted_base_impl<int>::operator*() const")),
        Some(Handler::TaintedDeref)
    );
    assert_eq!(HookRegistry::new().default_handler(), None);
}

#[test]
fn index_into_wrapped_class_uses_its_real_size() {
    // the element is a class holding one int: 4 bytes, not a pointer's width
    let wrapper = IrType::NamedStruct { name: "class.tainted".to_string(), fields: Some(vec![i(32)]) };
    let args = vec![ptr_to(i(8)), ptr_to(i(32))];
    assert_eq!(
        plan_call(Handler::TaintedIndex, &args, &ptr_to(wrapper), 64),
        Ok(Effect::ElementAddress { base_arg: 0, index_arg: 1, by_reference: true, index_bits: 32, element_bytes: 4 })
    );
    let opaque = IrType::NamedStruct { name: "class.x".to_string(), fields: None };
    assert_eq!(plan_call(Handler::MallocInSandbox, &vec![i(64)], &ptr_to(opaque), 64), Err(HookError::UnsizedType));
}
