use test_haybale::checkers::{
    check_div_by_zero, check_null_deref, check_oob, check_other_failure, check_trace, compute_gep_offset,
    monitor_div_by_zero, monitor_oob, query_verdict, report_message, size_of_aggregate, CheckErr,
    EngineError, GepIndex, GepTerm, InstrOp, PathResult, Query,
};
use test_haybale::exec::check_traces;
use test_haybale::types::IrType;

fn ptr_to(t: IrType) -> IrType {
    IrType::Pointer { pointee: Box::new(t), addr_space: 0 }
}

fn int_array(n: usize) -> IrType {
    IrType::Array { element: Box::new(IrType::Integer { bits: 32 }), num_elements: n }
}

fn failed_with(e: CheckErr) -> PathResult {
    PathResult::Failed(EngineError::OtherError(report_message(&e)))
}

#[test]
fn null_dereference_reported() {
    let r = check_null_deref(&PathResult::Failed(EngineError::NullPointerDereference));
    assert!(matches!(r, Err(CheckErr::NullDereference(_))));
    assert!(check_null_deref(&PathResult::Return).is_ok());
    assert!(check_null_deref(&PathResult::Failed(EngineError::Unsat)).is_ok());
}

#[test]
fn report_message_round_trips() {
    let m = report_message(&CheckErr::DivisionByZero("udiv %3".to_string()));
    assert_eq!(m, "CheckErr::DividedByZero:udiv %3");
    let r = check_div_by_zero(&PathResult::Failed(EngineError::OtherError(m)));
    assert!(matches!(r, Err(CheckErr::DivisionByZero(d)) if d == "udiv %3"));
    let o = failed_with(CheckErr::OutOfBounds("gep".to_string()));
    assert!(matches!(check_oob(&o), Err(CheckErr::OutOfBounds(d)) if d == "gep"));
    assert!(check_div_by_zero(&o).is_ok());
}

#[test]
fn other_engine_errors_pass() {
    let r = PathResult::Failed(EngineError::OtherError("CheckErr::Oo".to_string()));
    assert!(check_trace(&r).is_ok());
    assert!(check_trace(&PathResult::Failed(EngineError::LoopBoundExceeded(3))).is_ok());
    assert!(check_trace(&PathResult::Failed(EngineError::Unsat)).is_ok());
    assert!(check_trace(&PathResult::ReturnVoid).is_ok());
    assert!(check_trace(&PathResult::Abort).is_ok());
}

#[test]
fn other_engine_errors_have_a_diagnostic() {
    let r = PathResult::Failed(EngineError::OtherError("CheckErr::Oo".to_string()));
    assert!(matches!(check_other_failure(&r), Err(CheckErr::Other(d)) if d == "CheckErr::Oo"));
    let l = check_other_failure(&PathResult::Failed(EngineError::LoopBoundExceeded(3)));
    assert!(matches!(l, Err(CheckErr::Other(d)) if d == "loop bound exceeded"));
    let u = check_other_failure(&PathResult::Failed(EngineError::UnsupportedInstruction("gep".to_string())));
    assert!(matches!(u, Err(CheckErr::Other(d)) if d == "unsupported instruction: gep"));
    assert!(check_other_failure(&PathResult::Return).is_ok());
}

#[test]
fn gep_offset_into_named_class() {
    let class = IrType::NamedStruct {
        name: "class.pair".to_string(),
        fields: Some(vec![IrType::Integer { bits: 32 }, IrType::Integer { bits: 64 }]),
    };
    let base = ptr_to(class);
    assert_eq!(
        compute_gep_offset(&base, &vec![GepIndex::Constant(0), GepIndex::Constant(1)], 64),
        Some((4, vec![GepTerm { position: 0, scale: 12 }]))
    );
    let q = monitor_oob(&InstrOp::GetElementPtr { in_bounds: true }, &base, 64);
    assert_eq!(q, Ok(Some(Query::OffsetAtLeast { size_bytes: 12 })));
}

#[test]
fn division_monitor_asks_about_divisor() {
    for op in [InstrOp::UDiv, InstrOp::SDiv, InstrOp::URem, InstrOp::SRem] {
        assert_eq!(monitor_div_by_zero(&op), Some(Query::DivisorIsZero { operand: 1 }));
    }
    assert_eq!(monitor_div_by_zero(&InstrOp::Other), None);
    assert_eq!(monitor_div_by_zero(&InstrOp::GetElementPtr { in_bounds: true }), None);
}

#[test]
fn division_monitor_verdicts() {
    let q = monitor_div_by_zero(&InstrOp::SDiv).unwrap();
    // an unconstrained divisor: the solver finds `divisor == 0` satisfiable
    let unconstrained = query_verdict(&q, true, "sdiv %a, %b".to_string());
    assert!(matches!(unconstrained, Err(CheckErr::DivisionByZero(_))));
    // a divisor guarded by `!= 0`: the query is unsatisfiable
    assert!(query_verdict(&q, false, "sdiv %a, %b".to_string()).is_ok());
}

#[test]
fn bounds_monitor_asks_about_aggregate_size() {
    let addr = ptr_to(int_array(4));
    let q = monitor_oob(&InstrOp::GetElementPtr { in_bounds: true }, &addr, 64);
    assert_eq!(q, Ok(Some(Query::OffsetAtLeast { size_bytes: 16 })));
    let q = q.unwrap().unwrap();
    // a constant offset of 16 bytes reaches the size: satisfiable
    assert!(matches!(query_verdict(&q, true, "gep".to_string()), Err(CheckErr::OutOfBounds(_))));
    // offsets below 16 on every path: unsatisfiable
    assert!(query_verdict(&q, false, "gep".to_string()).is_ok());
}

#[test]
fn bounds_monitor_skips_unattributed_computation() {
    let addr = ptr_to(int_array(4));
    assert_eq!(monitor_oob(&InstrOp::GetElementPtr { in_bounds: false }, &addr, 64), Ok(None));
    assert_eq!(monitor_oob(&InstrOp::UDiv, &addr, 64), Ok(None));
}

#[test]
fn bounds_monitor_needs_byte_sized_aggregate() {
    let bit = ptr_to(IrType::Integer { bits: 1 });
    assert_eq!(size_of_aggregate(&bit, 64), None);
    assert!(monitor_oob(&InstrOp::GetElementPtr { in_bounds: true }, &bit, 64).is_err());
    assert!(monitor_oob(&InstrOp::GetElementPtr { in_bounds: true }, &IrType::Label, 64).is_err());
    assert_eq!(size_of_aggregate(&ptr_to(IrType::Integer { bits: 64 }), 64), Some(8));
}

#[test]
fn pipeline_stops_at_first_failure() {
    let r = check_trace(&PathResult::Failed(EngineError::NullPointerDereference));
    assert!(matches!(r, Err(CheckErr::NullDereference(_))));
    let d = failed_with(CheckErr::DivisionByZero("x".to_string()));
    assert!(matches!(check_trace(&d), Err(CheckErr::DivisionByZero(_))));
}

#[test]
fn unchecked_index_path_is_out_of_bounds() {
    // paths of a function indexing a 4-element array with an unchecked index:
    // the bounds monitor ended one of them
    let traces = vec![PathResult::Return, failed_with(CheckErr::OutOfBounds("gep".to_string()))];
    let verdicts = check_traces(&traces);
    assert_eq!(verdicts.len(), 2);
    assert!(verdicts[0].is_ok());
    assert!(matches!(verdicts[1], Err(CheckErr::OutOfBounds(_))));
    // with a guard clamping the index to [0, 4) every path returns normally
    let guarded = vec![PathResult::Return, PathResult::Return];
    assert!(check_traces(&guarded).iter().all(|v| v.is_ok()));
}

#[test]
fn maybe_null_pointer_path_is_null_dereference() {
    let traces = vec![PathResult::Failed(EngineError::NullPointerDereference), PathResult::ReturnVoid];
    let verdicts = check_traces(&traces);
    assert!(matches!(verdicts[0], Err(CheckErr::NullDereference(_))));
    assert!(verdicts[1].is_ok());
}

#[test]
fn gep_offset_of_array_element() {
    let base = ptr_to(int_array(4));
    let r = compute_gep_offset(&base, &vec![GepIndex::Constant(0), GepIndex::Operand], 64);
    assert_eq!(
        r,
        Some((0, vec![GepTerm { position: 0, scale: 16 }, GepTerm { position: 1, scale: 4 }]))
    );
}

#[test]
fn gep_offset_through_struct_fields() {
    let halves = IrType::Array { element: Box::new(IrType::Integer { bits: 16 }), num_elements: 2 };
    let st = IrType::Struct {
        elements: vec![IrType::Integer { bits: 32 }, IrType::Integer { bits: 64 }, halves],
    };
    let base = ptr_to(st);
    let idx = vec![GepIndex::Constant(0), GepIndex::Constant(2), GepIndex::Operand];
    assert_eq!(
        compute_gep_offset(&base, &idx, 64),
        Some((12, vec![GepTerm { position: 0, scale: 16 }, GepTerm { position: 2, scale: 2 }]))
    );
    let bad = vec![GepIndex::Constant(0), GepIndex::Operand];
    assert_eq!(compute_gep_offset(&base, &bad, 64), None);
    let out_of_range = vec![GepIndex::Constant(0), GepIndex::Constant(3)];
    assert_eq!(compute_gep_offset(&base, &out_of_range, 64), None);
}

#[test]
fn gep_offset_edge_cases() {
    assert_eq!(compute_gep_offset(&IrType::Integer { bits: 64 }, &vec![], 64), Some((0, vec![])));
    assert_eq!(compute_gep_offset(&IrType::Integer { bits: 64 }, &vec![GepIndex::Operand], 64), None);
    let scalar = ptr_to(IrType::Integer { bits: 32 });
    assert_eq!(
        compute_gep_offset(&scalar, &vec![GepIndex::Operand], 64),
        Some((0, vec![GepTerm { position: 0, scale: 4 }]))
    );
    assert_eq!(compute_gep_offset(&scalar, &vec![GepIndex::Operand, GepIndex::Operand], 64), None);
}
