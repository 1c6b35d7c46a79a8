//! The per-instruction monitors and the per-path checker pipeline.
use vstd::prelude::*;
use crate::text::{push_str, strip_prefix};
use crate::utils::get_pointer_type;
use crate::types::{
    bits_of, fits, fits_all, get_bits_from_type, lemma_fits_prefix, sum_bits,
    IrType,
};

verus! {

/// A safety violation found on a path, with a diagnostic.
#[derive(Debug, Clone)]
pub enum CheckErr {
    NullDereference(String),
    DivisionByZero(String),
    OutOfBounds(String),
    /// The engine ended the path on an error of another kind.
    Other(String),
}

/// The kind of a violation and its diagnostic text.
pub enum CheckErrView {
    NullDereference(Seq<char>),
    DivisionByZero(Seq<char>),
    OutOfBounds(Seq<char>),
    Other(Seq<char>),
}

impl View for CheckErr {
    type V = CheckErrView;

    open spec fn view(&self) -> CheckErrView {
        match self {
            CheckErr::NullDereference(d) => CheckErrView::NullDereference(d@),
            CheckErr::DivisionByZero(d) => CheckErrView::DivisionByZero(d@),
            CheckErr::OutOfBounds(d) => CheckErrView::OutOfBounds(d@),
            CheckErr::Other(d) => CheckErrView::Other(d@),
        }
    }
}

/// The verdict of one check: pass, or the violation found.
pub type CheckResult = Result<(), CheckErr>;

/// The view of a verdict.
pub open spec fn verdict_view(r: CheckResult) -> Option<CheckErrView> {
    match r {
        Ok(()) => None,
        Err(e) => Some(e@),
    }
}

/// The errors by which the engine ends a path.
#[derive(Debug, Clone)]
pub enum EngineError {
    Unsat,
    LoopBoundExceeded(usize),
    NullPointerDereference,
    FunctionNotFound(String),
    SolverError(String),
    UnsupportedInstruction(String),
    MalformedInstruction(String),
    UnreachableInstruction,
    FailedToResolveFunctionPointer(u64),
    HookReturnValueMismatch(String),
    OtherError(String),
}

/// How a completed path ended.
#[derive(Debug, Clone)]
pub enum PathResult {
    Return,
    ReturnVoid,
    Throw,
    Abort,
    Failed(EngineError),
}

/// The text that marks a division-by-zero report in the engine's error channel.
pub open spec fn div_tag() -> Seq<char> {
    "CheckErr::DividedByZero:"@
}

/// The text that marks an out-of-bounds report in the engine's error channel.
pub open spec fn oob_tag() -> Seq<char> {
    "CheckErr::Oob:"@
}

/// The message under which a monitor reports a violation through the engine.
pub open spec fn report_of(e: CheckErrView) -> Seq<char> {
    match e {
        CheckErrView::DivisionByZero(d) => div_tag() + d,
        CheckErrView::OutOfBounds(d) => oob_tag() + d,
        CheckErrView::NullDereference(d) => d,
        CheckErrView::Other(d) => d,
    }
}

/// Whether `s` starts with `p`.
pub open spec fn starts_with(s: Seq<char>, p: Seq<char>) -> bool {
    p.len() <= s.len() && s.take(p.len() as int) == p
}

/// The division-by-zero report that an engine message carries, if it carries one.
pub open spec fn div_report(m: Seq<char>) -> Option<Seq<char>> {
    if starts_with(m, div_tag()) {
        Some(m.skip(div_tag().len() as int))
    } else {
        None
    }
}

/// The out-of-bounds report that an engine message carries, if it carries one.
pub open spec fn oob_report(m: Seq<char>) -> Option<Seq<char>> {
    if starts_with(m, oob_tag()) {
        Some(m.skip(oob_tag().len() as int))
    } else {
        None
    }
}

/// The message under which a monitor reports a division by zero or an
/// out-of-bounds access through the engine's error channel.
pub fn report_message(e: &CheckErr) -> (r: String)
    ensures
        r@ == report_of(e@),
{
    let mut r = String::new();
    match e {
        CheckErr::DivisionByZero(d) => {
            push_str(&mut r, "CheckErr::DividedByZero:");
            push_str(&mut r, d.as_str());
        },
        CheckErr::OutOfBounds(d) => {
            push_str(&mut r, "CheckErr::Oob:");
            push_str(&mut r, d.as_str());
        },
        CheckErr::NullDereference(d) => {
            push_str(&mut r, d.as_str());
        },
        CheckErr::Other(d) => {
            push_str(&mut r, d.as_str());
        },
    }
    r
}

/// Reports a null dereference where the engine ended the path on one.
pub fn check_null_deref(result: &PathResult) -> (r: CheckResult)
    ensures
        r is Err <==> (result matches PathResult::Failed(EngineError::NullPointerDereference)),
        r matches Err(e) ==> e@ == CheckErrView::NullDereference("null pointer dereference"@),
{
    match result {
        PathResult::Failed(EngineError::NullPointerDereference) => Err(
            CheckErr::NullDereference(String::from_str("null pointer dereference")),
        ),
        _ => Ok(()),
    }
}

/// Reports a division by zero where the division monitor ended the path.
pub fn check_div_by_zero(result: &PathResult) -> (r: CheckResult)
    ensures
        verdict_view(r) == (match result {
            PathResult::Failed(EngineError::OtherError(m)) => match div_report(m@) {
                Some(d) => Some(CheckErrView::DivisionByZero(d)),
                None => None,
            },
            _ => None,
        }),
{
    match result {
        PathResult::Failed(EngineError::OtherError(m)) => {
            match strip_prefix(m.as_str(), "CheckErr::DividedByZero:") {
                Some(d) => Err(CheckErr::DivisionByZero(d)),
                None => Ok(()),
            }
        },
        _ => Ok(()),
    }
}

/// Reports an out-of-bounds access where the bounds monitor ended the path.
pub fn check_oob(result: &PathResult) -> (r: CheckResult)
    ensures
        verdict_view(r) == (match result {
            PathResult::Failed(EngineError::OtherError(m)) => match oob_report(m@) {
                Some(d) => Some(CheckErrView::OutOfBounds(d)),
                None => None,
            },
            _ => None,
        }),
{
    match result {
        PathResult::Failed(EngineError::OtherError(m)) => {
            match strip_prefix(m.as_str(), "CheckErr::Oob:") {
                Some(d) => Err(CheckErr::OutOfBounds(d)),
                None => Ok(()),
            }
        },
        _ => Ok(()),
    }
}

/// What an engine error says, as the diagnostic of an `Other` verdict.
pub open spec fn failure_text(e: EngineError) -> Seq<char> {
    match e {
        EngineError::Unsat => "unsat"@,
        EngineError::LoopBoundExceeded(_) => "loop bound exceeded"@,
        EngineError::NullPointerDereference => "null pointer dereference"@,
        EngineError::FunctionNotFound(s) => "function not found: "@ + s@,
        EngineError::SolverError(s) => "solver error: "@ + s@,
        EngineError::UnsupportedInstruction(s) => "unsupported instruction: "@ + s@,
        EngineError::MalformedInstruction(s) => "malformed instruction: "@ + s@,
        EngineError::UnreachableInstruction => "unreachable instruction"@,
        EngineError::FailedToResolveFunctionPointer(_) => "unresolvable function pointer"@,
        EngineError::HookReturnValueMismatch(s) => "hook return value mismatch: "@ + s@,
        EngineError::OtherError(s) => s@,
    }
}

/// The diagnostic of an engine error (see `failure_text`).
pub fn failure_message(e: &EngineError) -> (r: String)
    ensures
        r@ == failure_text(*e),
{
    let mut r = String::new();
    let (head, tail): (&str, Option<&String>) = match e {
        EngineError::Unsat => ("unsat", None),
        EngineError::LoopBoundExceeded(_) => ("loop bound exceeded", None),
        EngineError::NullPointerDereference => ("null pointer dereference", None),
        EngineError::FunctionNotFound(s) => ("function not found: ", Some(s)),
        EngineError::SolverError(s) => ("solver error: ", Some(s)),
        EngineError::UnsupportedInstruction(s) => ("unsupported instruction: ", Some(s)),
        EngineError::MalformedInstruction(s) => ("malformed instruction: ", Some(s)),
        EngineError::UnreachableInstruction => ("unreachable instruction", None),
        EngineError::FailedToResolveFunctionPointer(_) => ("unresolvable function pointer", None),
        EngineError::HookReturnValueMismatch(s) => ("hook return value mismatch: ", Some(s)),
        EngineError::OtherError(s) => ("", Some(s)),
    };
    push_str(&mut r, head);
    match tail {
        Some(t) => push_str(&mut r, t.as_str()),
        None => {},
    }
    proof {
        reveal_strlit("");
    }
    assert(r@ =~= failure_text(*e));
    r
}

/// Reports, as `Other`, a path that the engine ended on an error. This is a
/// diagnostic beside the pipeline: `check_trace` passes such a path unless one of
/// its three checks classifies the error.
pub fn check_other_failure(result: &PathResult) -> (r: CheckResult)
    ensures
        verdict_view(r) == (match result {
            PathResult::Failed(e) => Some(CheckErrView::Other(failure_text(*e))),
            _ => None,
        }),
{
    match result {
        PathResult::Failed(e) => Err(CheckErr::Other(failure_message(e))),
        _ => Ok(()),
    }
}

/// The verdict on a path: the first violation in the order null dereference,
/// division by zero, out of bounds; none otherwise.
pub open spec fn trace_verdict(result: PathResult) -> Option<CheckErrView> {
    match result {
        PathResult::Failed(EngineError::NullPointerDereference) => Some(
            CheckErrView::NullDereference("null pointer dereference"@),
        ),
        PathResult::Failed(EngineError::OtherError(m)) => match div_report(m@) {
            Some(d) => Some(CheckErrView::DivisionByZero(d)),
            None => match oob_report(m@) {
                Some(d) => Some(CheckErrView::OutOfBounds(d)),
                None => None,
            },
        },
        _ => None,
    }
}

/// A violation that a monitor reports through the engine's error channel comes
/// back out of the pipeline as itself: a division by zero or an out-of-bounds
/// access, with its diagnostic.
pub proof fn lemma_report_resurfaces(e: CheckErrView, message: String)
    requires
        e is DivisionByZero || e is OutOfBounds,
        message@ == report_of(e),
    ensures
        trace_verdict(PathResult::Failed(EngineError::OtherError(message))) == Some(e),
{
    reveal_strlit("CheckErr::DividedByZero:");
    reveal_strlit("CheckErr::Oob:");
    let m = report_of(e);
    match e {
        CheckErrView::DivisionByZero(d) => {
            assert(m.take(div_tag().len() as int) =~= div_tag());
            assert(m.skip(div_tag().len() as int) =~= d);
        },
        CheckErrView::OutOfBounds(d) => {
            if starts_with(m, div_tag()) {
                assert(m.take(div_tag().len() as int)[10] == div_tag()[10]);
            }
            assert(m.take(oob_tag().len() as int) =~= oob_tag());
            assert(m.skip(oob_tag().len() as int) =~= d);
        },
        _ => {},
    }
}

/// Runs the checks on one completed path, stopping at the first violation.
pub fn check_trace(trace: &PathResult) -> (r: CheckResult)
    ensures
        verdict_view(r) == trace_verdict(*trace),
{
    let null = check_null_deref(trace);
    if null.is_err() {
        return null;
    }
    let div = check_div_by_zero(trace);
    if div.is_err() {
        return div;
    }
    let oob = check_oob(trace);
    if oob.is_err() {
        return oob;
    }
    Ok(())
}

/// The instructions that the monitors look at; every other one is `Other`.
#[derive(Debug, Clone, Copy, PartialEq, Eq)]
pub enum InstrOp {
    UDiv,
    SDiv,
    URem,
    SRem,
    GetElementPtr { in_bounds: bool },
    Other,
}

/// A satisfiability question that a monitor poses against the current path
/// condition, extended by its constraint for that question only.
#[derive(Debug, Clone, Copy, PartialEq, Eq)]
pub enum Query {
    /// Can the operand at this position be zero?
    DivisorIsZero { operand: usize },
    /// Can the byte offset of the address computation be at least this many bytes?
    OffsetAtLeast { size_bytes: u64 },
}

/// Whether an instruction divides or takes a remainder.
pub open spec fn is_division(op: InstrOp) -> bool {
    op is UDiv || op is SDiv || op is URem || op is SRem
}

/// What the division monitor asks of an instruction: whether its divisor (the
/// second operand) can be zero, for a division or remainder; nothing otherwise.
pub fn monitor_div_by_zero(instr: &InstrOp) -> (r: Option<Query>)
    ensures
        r == (if is_division(*instr) {
            Some(Query::DivisorIsZero { operand: 1 })
        } else {
            None
        }),
{
    match instr {
        InstrOp::UDiv | InstrOp::SDiv | InstrOp::URem | InstrOp::SRem => Some(
            Query::DivisorIsZero { operand: 1 },
        ),
        _ => None,
    }
}

/// The size in bytes of what a pointer type points to, where the pointee can be
/// sized in whole bytes.
pub open spec fn aggregate_bytes(address_ty: IrType, ptr: nat) -> Option<nat> {
    match address_ty {
        IrType::Pointer { pointee, addr_space } => if addr_space == 0 && fits(*pointee, ptr)
            && bits_of(*pointee, ptr)->0 % 8 == 0 {
            Some(bits_of(*pointee, ptr)->0 / 8)
        } else {
            None
        },
        _ => None,
    }
}

/// The size in bytes of the aggregate that an address of type `address_ty` points into.
pub fn size_of_aggregate(address_ty: &IrType, pointer_size: u64) -> (r: Option<u64>)
    ensures
        r matches Some(n) ==> aggregate_bytes(*address_ty, pointer_size as nat) == Some(n as nat),
        r is None ==> aggregate_bytes(*address_ty, pointer_size as nat) is None,
{
    let pointee = get_pointer_type(address_ty)?;
    let bits = get_bits_from_type(pointee, pointer_size)?;
    if bits % 8 != 0 {
        return None;
    }
    Some(bits / 8)
}

/// What the bounds monitor asks of an instruction: for an address computation
/// marked in-bounds, whether its byte offset can reach the size of the aggregate
/// it points into; nothing for any other instruction. Fails where that size
/// cannot be had in whole bytes.
pub fn monitor_oob(instr: &InstrOp, address_ty: &IrType, pointer_size: u64) -> (r: Result<
    Option<Query>,
    String,
>)
    ensures
        (*instr == InstrOp::GetElementPtr { in_bounds: true }) ==> match aggregate_bytes(
            *address_ty,
            pointer_size as nat,
        ) {
            Some(n) => r == Ok::<Option<Query>, String>(
                Some(Query::OffsetAtLeast { size_bytes: n as u64 }),
            ),
            None => r is Err,
        },
        !(*instr == InstrOp::GetElementPtr { in_bounds: true }) ==> r == Ok::<
            Option<Query>,
            String,
        >(None),
{
    match instr {
        InstrOp::GetElementPtr { in_bounds } => {
            if !*in_bounds {
                return Ok(None);
            }
            match size_of_aggregate(address_ty, pointer_size) {
                Some(n) => Ok(Some(Query::OffsetAtLeast { size_bytes: n })),
                None => Err(String::from_str("the addressed aggregate has no size in whole bytes")),
            }
        },
        _ => Ok(None),
    }
}

/// The verdict on a divisor: a division by zero where it can be zero.
pub fn can_be_zero(satisfiable: bool, detail: String) -> (r: CheckResult)
    ensures
        verdict_view(r) == (if satisfiable {
            Some(CheckErrView::DivisionByZero(detail@))
        } else {
            None
        }),
{
    if satisfiable {
        Err(CheckErr::DivisionByZero(detail))
    } else {
        Ok(())
    }
}

/// The verdict of a monitor's question: a violation of its kind exactly where the
/// solver found the question satisfiable, with `detail` as its diagnostic.
pub fn query_verdict(query: &Query, satisfiable: bool, detail: String) -> (r: CheckResult)
    ensures
        verdict_view(r) == (if !satisfiable {
            None
        } else {
            match query {
                Query::DivisorIsZero { .. } => Some(CheckErrView::DivisionByZero(detail@)),
                Query::OffsetAtLeast { .. } => Some(CheckErrView::OutOfBounds(detail@)),
            }
        }),
{
    match query {
        Query::DivisorIsZero { .. } => can_be_zero(satisfiable, detail),
        Query::OffsetAtLeast { .. } => if satisfiable {
            Err(CheckErr::OutOfBounds(detail))
        } else {
            Ok(())
        },
    }
}

/// An index operand of an address computation: a compile-time constant, or a
/// value known only on the path.
#[derive(Debug, Clone, Copy, PartialEq, Eq)]
pub enum GepIndex {
    Constant(u64),
    Operand,
}

/// One term of a byte offset: the index at `position` times `scale` bytes.
#[derive(Debug, Clone, Copy, PartialEq, Eq)]
pub struct GepTerm {
    pub position: usize,
    pub scale: u64,
}

/// The size in whole bytes of a type, where it has one that fits in 64 bits.
pub open spec fn byte_size(t: IrType, ptr: nat) -> Option<u64> {
    if fits(t, ptr) && bits_of(t, ptr)->0 % 8 == 0 {
        Some((bits_of(t, ptr)->0 / 8) as u64)
    } else {
        None
    }
}

/// The byte offset of field `k` of a struct: the sizes of the fields before it.
pub open spec fn field_offset(fields: Seq<IrType>, k: int, ptr: nat) -> Option<nat> {
    let before = fields.take(k);
    if fits_all(before, ptr) && sum_bits(before, ptr)->0 % 8 == 0 {
        Some(sum_bits(before, ptr)->0 / 8)
    } else {
        None
    }
}

/// The offset that the indices from `i` on add inside a value of type `t`: a
/// constant number of bytes (from struct fields) and the scaled index terms (one
/// per array or vector step); named structs count as structs where they are
/// defined. Nothing where an index steps into a type without
/// elements, where a struct is indexed by a non-constant or out of range, or where
/// a size is not in whole bytes.
pub open spec fn gep_from(t: IrType, idx: Seq<GepIndex>, i: int, ptr: nat) -> Option<(nat, Seq<GepTerm>)>
    decreases idx.len() - i,
{
    if i < 0 || i >= idx.len() {
        Some((0, Seq::empty()))
    } else {
        match t {
            IrType::Array { element, .. } => match (byte_size(*element, ptr), gep_from(*element, idx, i + 1, ptr)) {
                (Some(s), Some((c, ts))) => Some((c, seq![GepTerm { position: i as usize, scale: s }] + ts)),
                _ => None,
            },
            IrType::Vector { element, .. } => match (byte_size(*element, ptr), gep_from(*element, idx, i + 1, ptr)) {
                (Some(s), Some((c, ts))) => Some((c, seq![GepTerm { position: i as usize, scale: s }] + ts)),
                _ => None,
            },
            IrType::Struct { elements } | IrType::NamedStruct { fields: Some(elements), .. } => match idx[i] {
                GepIndex::Constant(k) => if k < elements.len() {
                    match (field_offset(elements@, k as int, ptr), gep_from(elements@[k as int], idx, i + 1, ptr)) {
                        (Some(f), Some((c, ts))) => Some((f + c, ts)),
                        _ => None,
                    }
                } else {
                    None
                },
                GepIndex::Operand => None,
            },
            _ => None,
        }
    }
}

/// The byte offset of an address computation from a base of type `base_ty`: the
/// first index steps over whole pointees, the others into them.
pub open spec fn gep_offset(base_ty: IrType, idx: Seq<GepIndex>, ptr: nat) -> Option<(nat, Seq<GepTerm>)> {
    if idx.len() == 0 {
        Some((0, Seq::empty()))
    } else {
        match base_ty {
            IrType::Pointer { pointee, addr_space } => if addr_space == 0 {
                match (byte_size(*pointee, ptr), gep_from(*pointee, idx, 1, ptr)) {
                    (Some(s), Some((c, ts))) => Some((c, seq![GepTerm { position: 0, scale: s }] + ts)),
                    _ => None,
                }
            } else {
                None
            },
            _ => None,
        }
    }
}

/// The size in whole bytes of a type.
fn byte_size_of(t: &IrType, pointer_size: u64) -> (r: Option<u64>)
    ensures
        r == byte_size(*t, pointer_size as nat),
{
    match get_bits_from_type(t, pointer_size) {
        Some(b) => if b % 8 == 0 {
            Some(b / 8)
        } else {
            None
        },
        None => None,
    }
}

/// The byte offset of field `k` of a struct.
fn field_offset_of(fields: &Vec<IrType>, k: usize, pointer_size: u64) -> (r: Option<u64>)
    requires
        k <= fields.len(),
    ensures
        r matches Some(n) ==> field_offset(fields@, k as int, pointer_size as nat) == Some(n as nat),
        r is None ==> field_offset(fields@, k as int, pointer_size as nat) is None,
{
    let ghost ptr = pointer_size as nat;
    let mut total: u64 = 0;
    let mut j: usize = 0;
    assert(fields@.take(0) =~= Seq::<IrType>::empty());
    while j < k
        invariant
            j <= k <= fields.len(),
            ptr == pointer_size as nat,
            fits_all(fields@.take(j as int), ptr),
            sum_bits(fields@.take(j as int), ptr) == Some(total as nat),
        decreases k - j,
    {
        let ghost pre = fields@.take(j as int);
        let ghost next = fields@.take(j + 1);
        assert(next.drop_last() =~= pre);
        assert(next.last() == fields@[j as int]);
        let e = &fields[j];
        let got = get_bits_from_type(e, pointer_size);
        match got {
            Some(b) => match total.checked_add(b) {
                Some(t) => {
                    assert(sum_bits(next, ptr) == Some((total + b) as nat));
                    total = t;
                },
                None => {
                    proof {
                        assert(sum_bits(next, ptr) == Some((total + b) as nat));
                        if fits_all(fields@.take(k as int), ptr) {
                            lemma_fits_prefix(fields@.take(k as int), ptr, j + 1);
                        }
                        assert(fields@.take(k as int).take(j + 1) =~= next);
                    }
                    return None;
                },
            },
            None => {
                proof {
                    if fits_all(fields@.take(k as int), ptr) {
                        lemma_fits_prefix(fields@.take(k as int), ptr, j + 1);
                    }
                    assert(fields@.take(k as int).take(j + 1) =~= next);
                }
                return None;
            },
        }
        j = j + 1;
    }
    if total % 8 != 0 {
        return None;
    }
    Some(total / 8)
}

/// The byte offset of an address computation (see `gep_offset`): a constant part
/// and one scaled term per index that steps over elements. Nothing where the
/// offset cannot be formed, or its constant part does not fit in 64 bits.
pub fn compute_gep_offset(base_ty: &IrType, indices: &Vec<GepIndex>, pointer_size: u64) -> (r: Option<(u64, Vec<GepTerm>)>)
    ensures
        r matches Some((c, ts)) ==> gep_offset(*base_ty, indices@, pointer_size as nat) == Some((c as nat, ts@)),
        r is None ==> (gep_offset(*base_ty, indices@, pointer_size as nat) matches Some((c, _)) ==> c > u64::MAX),
{
    let ghost ptr = pointer_size as nat;
    let ghost idx = indices@;
    let mut terms: Vec<GepTerm> = Vec::new();
    if indices.len() == 0 {
        return Some((0, terms));
    }
    let pointee = match get_pointer_type(base_ty) {
        Some(p) => p,
        None => return None,
    };
    let first = match byte_size_of(pointee, pointer_size) {
        Some(s) => s,
        None => return None,
    };
    terms.push(GepTerm { position: 0, scale: first });
    let mut constant: u64 = 0;
    let mut cur: &IrType = pointee;
    let mut i: usize = 1;
    let ghost whole = gep_offset(*base_ty, idx, ptr);
    assert(whole == match gep_from(*cur, idx, 1, ptr) {
        Some((c, ts)) => Some((c, seq![GepTerm { position: 0, scale: first }] + ts)),
        None => None,
    });
    while i < indices.len()
        invariant
            1 <= i <= indices.len(),
            idx == indices@,
            ptr == pointer_size as nat,
            whole == gep_offset(*base_ty, idx, ptr),
            whole == match gep_from(*cur, idx, i as int, ptr) {
                Some((c, ts)) => Some(((constant + c) as nat, terms@ + ts)),
                None => None,
            },
        decreases indices.len() - i,
    {
        let ghost before = terms@;
        match cur {
            IrType::Array { element, .. } | IrType::Vector { element, .. } => {
                let s = match byte_size_of(element, pointer_size) {
                    Some(s) => s,
                    None => return None,
                };
                terms.push(GepTerm { position: i, scale: s });
                proof {
                    match gep_from(**element, idx, i + 1, ptr) {
                        Some((c, ts)) => {
                            assert(before + (seq![GepTerm { position: i as usize, scale: s }] + ts) =~= terms@ + ts);
                        },
                        None => {},
                    }
                }
                cur = &**element;
            },
            IrType::Struct { elements } | IrType::NamedStruct { fields: Some(elements), .. } => {
                let k = match indices[i] {
                    GepIndex::Constant(k) => k,
                    GepIndex::Operand => return None,
                };
                if k >= elements.len() as u64 {
                    return None;
                }
                let f = match field_offset_of(elements, k as usize, pointer_size) {
                    Some(f) => f,
                    None => return None,
                };
                constant = match constant.checked_add(f) {
                    Some(c) => c,
                    None => return None,
                };
                cur = &elements[k as usize];
            },
            _ => return None,
        }
        i = i + 1;
    }
    assert(terms@ + Seq::<GepTerm>::empty() =~= terms@);
    Some((constant, terms))
}

} // verus!
