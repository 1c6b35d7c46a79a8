//! A model of the IR types that the handlers and monitors size, and their widths.
use vstd::prelude::*;

verus! {

/// The floating-point formats of the IR.
#[derive(Debug, Clone, Copy, PartialEq, Eq)]
pub enum FpKind {
    Half,
    BFloat,
    Single,
    Double,
    Fp128,
    X86Fp80,
    PpcFp128,
}

/// An IR type, as far as its size is concerned.
#[derive(Debug)]
pub enum IrType {
    Void,
    Integer { bits: u32 },
    Pointer { pointee: Box<IrType>, addr_space: u32 },
    Fp(FpKind),
    Func,
    Vector { element: Box<IrType>, num_elements: usize },
    Array { element: Box<IrType>, num_elements: usize },
    Struct { elements: Vec<IrType> },
    /// A struct known by name, with its fields where it is defined (opaque otherwise).
    NamedStruct { name: String, fields: Option<Vec<IrType>> },
    X86Mmx,
    X86Amx,
    Metadata,
    Label,
    Token,
}

/// The width in bits of a floating-point format.
pub open spec fn fp_bits(k: FpKind) -> nat {
    match k {
        FpKind::Half => 16,
        FpKind::BFloat => 16,
        FpKind::Single => 32,
        FpKind::Double => 64,
        FpKind::Fp128 => 128,
        FpKind::X86Fp80 => 80,
        FpKind::PpcFp128 => 128,
    }
}

/// The width in bits of a type, with pointers (and functions, which are reached
/// through one) `ptr` bits wide: an array or vector is its element times its
/// length, a struct (named and defined, or literal) the sum of its fields. Opaque
/// structs and types that hold no value to size (MMX, AMX, metadata, labels,
/// tokens) have none.
pub open spec fn bits_of(t: IrType, ptr: nat) -> Option<nat>
    decreases t,
{
    match t {
        IrType::Void => Some(0),
        IrType::Integer { bits } => Some(bits as nat),
        IrType::Pointer { .. } => Some(ptr),
        IrType::Fp(k) => Some(fp_bits(k)),
        IrType::Func => Some(ptr),
        IrType::Vector { element, num_elements } => match bits_of(*element, ptr) {
            Some(b) => Some(b * (num_elements as nat)),
            None => None,
        },
        IrType::Array { element, num_elements } => match bits_of(*element, ptr) {
            Some(b) => Some(b * (num_elements as nat)),
            None => None,
        },
        IrType::Struct { elements } => sum_bits(elements@, ptr),
        IrType::NamedStruct { fields: Some(elements), .. } => sum_bits(elements@, ptr),
        _ => None,
    }
}

/// The fields of a literal struct or of a defined named struct.
pub open spec fn struct_fields(t: IrType) -> Option<Vec<IrType>> {
    match t {
        IrType::Struct { elements } => Some(elements),
        IrType::NamedStruct { fields, .. } => fields,
        _ => None,
    }
}

/// The sum of the widths of a list of types, if each has one.
pub open spec fn sum_bits(ts: Seq<IrType>, ptr: nat) -> Option<nat>
    decreases ts,
{
    if ts.len() == 0 {
        Some(0)
    } else {
        match (sum_bits(ts.drop_last(), ptr), bits_of(ts.last(), ptr)) {
            (Some(a), Some(b)) => Some(a + b),
            _ => None,
        }
    }
}

/// Whether every width met while sizing `t` (each element, product and partial
/// sum) fits in 64 bits, so that `bits_of` can be computed in a `u64`.
pub open spec fn fits(t: IrType, ptr: nat) -> bool
    decreases t,
{
    match t {
        IrType::Vector { element, num_elements } => fits(*element, ptr) && bits_of(
            *element,
            ptr,
        )->0 * (num_elements as nat) <= u64::MAX,
        IrType::Array { element, num_elements } => fits(*element, ptr) && bits_of(
            *element,
            ptr,
        )->0 * (num_elements as nat) <= u64::MAX,
        IrType::Struct { elements } => fits_all(elements@, ptr),
        IrType::NamedStruct { fields: Some(elements), .. } => fits_all(elements@, ptr),
        IrType::NamedStruct { fields: None, .. } => false,
        IrType::X86Mmx | IrType::X86Amx | IrType::Metadata | IrType::Label | IrType::Token => false,
        _ => true,
    }
}

/// Whether each type of a list fits, and so does each partial sum from the left.
pub open spec fn fits_all(ts: Seq<IrType>, ptr: nat) -> bool
    decreases ts,
{
    if ts.len() == 0 {
        true
    } else {
        fits_all(ts.drop_last(), ptr) && fits(ts.last(), ptr) && sum_bits(ts, ptr) is Some
            && sum_bits(ts, ptr)->0 <= u64::MAX
    }
}

/// A list whose partial sums fit has prefixes whose partial sums fit.
pub proof fn lemma_fits_prefix(ts: Seq<IrType>, ptr: nat, k: int)
    requires
        0 <= k <= ts.len(),
        fits_all(ts, ptr),
    ensures
        fits_all(ts.take(k), ptr),
    decreases ts.len(),
{
    if k < ts.len() {
        assert(ts.drop_last() =~= ts.take(ts.len() - 1));
        lemma_fits_prefix(ts.drop_last(), ptr, k);
        assert(ts.drop_last().take(k) =~= ts.take(k));
    } else {
        assert(ts.take(k) =~= ts);
    }
}

/// The width in bits of a type (see `bits_of`), where each width met on the way
/// fits in 64 bits; nothing otherwise.
pub fn get_bits_from_type(type_of: &IrType, pointer_size: u64) -> (r: Option<u64>)
    ensures
        r is Some <==> fits(*type_of, pointer_size as nat),
        r matches Some(b) ==> bits_of(*type_of, pointer_size as nat) == Some(b as nat),
    decreases type_of,
{
    let ghost ptr = pointer_size as nat;
    match type_of {
        IrType::Void => Some(0),
        IrType::Integer { bits } => Some(*bits as u64),
        IrType::Pointer { .. } => Some(pointer_size),
        IrType::Fp(k) => Some(
            match k {
                FpKind::Half => 16,
                FpKind::BFloat => 16,
                FpKind::Single => 32,
                FpKind::Double => 64,
                FpKind::Fp128 => 128,
                FpKind::X86Fp80 => 80,
                FpKind::PpcFp128 => 128,
            },
        ),
        IrType::Func => Some(pointer_size),
        IrType::Vector { element, num_elements } => match get_bits_from_type(element, pointer_size) {
            Some(b) => b.checked_mul(*num_elements as u64),
            None => None,
        },
        IrType::Array { element, num_elements } => match get_bits_from_type(element, pointer_size) {
            Some(b) => b.checked_mul(*num_elements as u64),
            None => None,
        },
        IrType::Struct { elements } | IrType::NamedStruct { fields: Some(elements), .. } => {
            let mut total: u64 = 0;
            let mut i: usize = 0;
            assert(elements@.take(0) =~= Seq::<IrType>::empty());
            while i < elements.len()
                invariant
                    i <= elements.len(),
                    ptr == pointer_size as nat,
                    struct_fields(*type_of) == Some(*elements),
                    fits_all(elements@.take(i as int), ptr),
                    sum_bits(elements@.take(i as int), ptr) == Some(total as nat),
                decreases elements.len() - i,
            {
                let ghost pre = elements@.take(i as int);
                let ghost next = elements@.take(i + 1);
                assert(next.drop_last() =~= pre);
                assert(next.last() == elements@[i as int]);
                assert(next.len() == i + 1);
                proof {
                    assert(decreases_to!(elements => elements@[i as int]));
                }
                let e = &elements[i];
                assert(*e == elements@[i as int]);
                let got = get_bits_from_type(e, pointer_size);
                proof {
                    if let Some(b) = got {
                        assert(bits_of(next.last(), ptr) == Some(b as nat));
                        assert(sum_bits(next, ptr) == Some((total + b) as nat));
                    }
                }
                match got {
                    Some(b) => match total.checked_add(b) {
                        Some(t) => {
                            assert(sum_bits(next, ptr) == Some((total + b) as nat));
                            total = t;
                        },
                        None => {
                            proof {
                                assert(sum_bits(next, ptr) == Some((total + b) as nat));
                                assert(!fits_all(next, ptr));
                                if fits_all(elements@, ptr) {
                                    lemma_fits_prefix(elements@, ptr, i + 1);
                                }
                            }
                            return None;
                        },
                    },
                    None => {
                        proof {
                            assert(!fits(next.last(), ptr));
                            assert(!fits_all(next, ptr));
                            if fits_all(elements@, ptr) {
                                lemma_fits_prefix(elements@, ptr, i + 1);
                            }
                        }
                        return None;
                    },
                }
                i = i + 1;
            }
            assert(elements@.take(i as int) =~= elements@);
            Some(total)
        },
        IrType::NamedStruct { fields: None, .. } => None,
        IrType::X86Mmx => None,
        IrType::X86Amx => None,
        IrType::Metadata => None,
        IrType::Label => None,
        IrType::Token => None,
    }
}

} // verus!
