use vstd::prelude::*;
use crate::dtype::DataType;
use crate::float::{
    f32_le, f32_le_bits, f32_is_nan, f32_to_f64, f32_to_f64_bits, f64_le, f64_le_bits, f64_is_nan,
    i64_to_f64, i64_to_f64_bits, int_to_f32, int_to_f32_bits, u64_to_f64, u64_to_f64_bits,
};

verus! {

/// One cell of a column.  Integer cells are carried widened (`i64`/`u64`),
/// float cells as their IEEE-754 bit patterns, and `Absent` marks a null
/// position.  The element type of the owning column says which variant its
/// valid cells use and which range they lie in.
#[derive(Clone, Copy, Debug, PartialEq, Eq, Structural)]
pub enum Scalar {
    Absent,
    Bool(bool),
    Int(i64),
    UInt(u64),
    F32Bits(u32),
    F64Bits(u64),
}

/// The cell is a valid inhabitant of the element type.
pub open spec fn scalar_fits(s: Scalar, t: DataType) -> bool {
    match t {
        DataType::Boolean => s is Bool,
        DataType::Int8 => s matches Scalar::Int(v) && -0x80 <= v <= 0x7F,
        DataType::Int16 => s matches Scalar::Int(v) && -0x8000 <= v <= 0x7FFF,
        DataType::Int32 => s matches Scalar::Int(v) && -0x8000_0000 <= v <= 0x7FFF_FFFF,
        DataType::Int64 => s is Int,
        DataType::UInt8 => s matches Scalar::UInt(v) && v <= 0xFF,
        DataType::UInt16 => s matches Scalar::UInt(v) && v <= 0xFFFF,
        DataType::UInt32 => s matches Scalar::UInt(v) && v <= 0xFFFF_FFFF,
        DataType::UInt64 => s is UInt,
        DataType::Float32 => s is F32Bits,
        DataType::Float64 => s is F64Bits,
        _ => false,
    }
}

/// Runtime test matching [`scalar_fits`].
pub fn scalar_fits_check(s: &Scalar, t: &DataType) -> (r: bool)
    ensures
        r == scalar_fits(*s, *t),
{
    match (s, t) {
        (Scalar::Bool(_), DataType::Boolean) => true,
        (Scalar::Int(v), DataType::Int8) => -0x80 <= *v && *v <= 0x7F,
        (Scalar::Int(v), DataType::Int16) => -0x8000 <= *v && *v <= 0x7FFF,
        (Scalar::Int(v), DataType::Int32) => -0x8000_0000 <= *v && *v <= 0x7FFF_FFFF,
        (Scalar::Int(_), DataType::Int64) => true,
        (Scalar::UInt(v), DataType::UInt8) => *v <= 0xFF,
        (Scalar::UInt(v), DataType::UInt16) => *v <= 0xFFFF,
        (Scalar::UInt(v), DataType::UInt32) => *v <= 0xFFFF_FFFF,
        (Scalar::UInt(_), DataType::UInt64) => true,
        (Scalar::F32Bits(_), DataType::Float32) => true,
        (Scalar::F64Bits(_), DataType::Float64) => true,
        _ => false,
    }
}

/// The engine's element conversion into target type `to`.  Meaningful when
/// the source type fits the target (see [`crate::lattice::fits`]); null
/// cells stay null, integer moves between the two carriers keep the value,
/// and conversions into floats follow the exact (or, for wide integers into
/// binary64, round-to-nearest-even) bit-pattern constructions of
/// [`crate::float`].
pub open spec fn cast_scalar(s: Scalar, to: DataType) -> Scalar {
    match s {
        Scalar::Absent => Scalar::Absent,
        Scalar::Bool(v) => Scalar::Bool(v),
        Scalar::Int(v) => if to.is_signed() {
            Scalar::Int(v)
        } else if to == DataType::Float64 {
            Scalar::F64Bits(i64_to_f64_bits(v))
        } else if to == DataType::Float32 {
            Scalar::F32Bits(int_to_f32_bits(v as int))
        } else {
            Scalar::Int(v)
        },
        Scalar::UInt(v) => if to.is_unsigned() {
            Scalar::UInt(v)
        } else if to.is_signed() {
            Scalar::Int(v as i64)
        } else if to == DataType::Float64 {
            Scalar::F64Bits(u64_to_f64_bits(v))
        } else if to == DataType::Float32 {
            Scalar::F32Bits(int_to_f32_bits(v as int))
        } else {
            Scalar::UInt(v)
        },
        Scalar::F32Bits(b) => if to == DataType::Float64 {
            Scalar::F64Bits(f32_to_f64_bits(b))
        } else {
            Scalar::F32Bits(b)
        },
        Scalar::F64Bits(b) => Scalar::F64Bits(b),
    }
}

/// Executable conversion matching [`cast_scalar`], for cells that fit a
/// source type convertible to `to`.
pub fn cast_scalar_exec(s: &Scalar, from: &DataType, to: &DataType) -> (r: Scalar)
    requires
        crate::lattice::fits(*from, *to),
        scalar_fits(*s, *from) || *s == Scalar::Absent,
    ensures
        r == cast_scalar(*s, *to),
{
    match s {
        Scalar::Absent => Scalar::Absent,
        Scalar::Bool(v) => Scalar::Bool(*v),
        Scalar::Int(v) => {
            if to.check_signed() {
                Scalar::Int(*v)
            } else if *to == DataType::Float64 {
                Scalar::F64Bits(i64_to_f64(*v))
            } else if *to == DataType::Float32 {
                Scalar::F32Bits(int_to_f32(*v))
            } else {
                Scalar::Int(*v)
            }
        },
        Scalar::UInt(v) => {
            if to.check_unsigned() {
                Scalar::UInt(*v)
            } else if to.check_signed() {
                Scalar::Int(*v as i64)
            } else if *to == DataType::Float64 {
                Scalar::F64Bits(u64_to_f64(*v))
            } else if *to == DataType::Float32 {
                Scalar::F32Bits(int_to_f32(*v as i64))
            } else {
                Scalar::UInt(*v)
            }
        },
        Scalar::F32Bits(b) => {
            if *to == DataType::Float64 {
                Scalar::F64Bits(f32_to_f64(*b))
            } else {
                Scalar::F32Bits(*b)
            }
        },
        Scalar::F64Bits(b) => Scalar::F64Bits(*b),
    }
}

/// Ordered `<=` between two cells of one comparison type: total order on
/// the integer carriers, IEEE-754 ordered comparison on float patterns
/// (false on NaN), false between unrelated variants.
pub open spec fn scalar_le(a: Scalar, b: Scalar) -> bool {
    match (a, b) {
        (Scalar::Int(x), Scalar::Int(y)) => x <= y,
        (Scalar::UInt(x), Scalar::UInt(y)) => x <= y,
        (Scalar::F32Bits(x), Scalar::F32Bits(y)) => f32_le(x, y),
        (Scalar::F64Bits(x), Scalar::F64Bits(y)) => f64_le(x, y),
        _ => false,
    }
}

/// The cell is a floating-point NaN pattern.
pub open spec fn scalar_is_nan(s: Scalar) -> bool {
    match s {
        Scalar::F32Bits(b) => f32_is_nan(b),
        Scalar::F64Bits(b) => f64_is_nan(b),
        _ => false,
    }
}

/// Runtime comparison matching [`scalar_le`].
pub fn scalar_le_exec(a: &Scalar, b: &Scalar) -> (r: bool)
    ensures
        r == scalar_le(*a, *b),
{
    match (a, b) {
        (Scalar::Int(x), Scalar::Int(y)) => *x <= *y,
        (Scalar::UInt(x), Scalar::UInt(y)) => *x <= *y,
        (Scalar::F32Bits(x), Scalar::F32Bits(y)) => f32_le_bits(*x, *y),
        (Scalar::F64Bits(x), Scalar::F64Bits(y)) => f64_le_bits(*x, *y),
        _ => false,
    }
}

/// The cell order is transitive.
pub proof fn lemma_scalar_le_trans(a: Scalar, b: Scalar, c: Scalar)
    requires
        scalar_le(a, b),
        scalar_le(b, c),
    ensures
        scalar_le(a, c),
{
}

/// The cell order is reflexive exactly away from NaN (for cells it relates
/// at all).
pub proof fn lemma_scalar_le_refl(a: Scalar)
    requires
        a is Int || a is UInt || a is F32Bits || a is F64Bits,
    ensures
        scalar_le(a, a) == !scalar_is_nan(a),
{
}

} // verus!
