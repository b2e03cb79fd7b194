use vstd::prelude::*;
use crate::dtype::{DataType, Error};

verus! {

// The binary coercion lattice.  `comparison_op` unifies two element types
// into the triple (output type, optional bridging type, comparison type);
// the ternary promotion of the `between` driver is synthesized by applying
// it twice, so that it cannot disagree with the binary comparison
// operators.

/// Integer element type of the given signedness and width.
pub open spec fn int_of_width(signed: bool, w: nat) -> DataType {
    if signed {
        if w <= 8 {
            DataType::Int8
        } else if w <= 16 {
            DataType::Int16
        } else if w <= 32 {
            DataType::Int32
        } else {
            DataType::Int64
        }
    } else {
        if w <= 8 {
            DataType::UInt8
        } else if w <= 16 {
            DataType::UInt16
        } else if w <= 32 {
            DataType::UInt32
        } else {
            DataType::UInt64
        }
    }
}

/// The float width a numeric operand demands: its own width for floats,
/// and for integers the width of the narrowest float that holds every one
/// of its values, capped at 64.
pub open spec fn float_need(t: DataType) -> nat {
    if t.is_float() {
        t.width()
    } else if t.width() <= 16 {
        32
    } else {
        64
    }
}

/// The common comparison type of two numeric element types: the
/// numerically widest of the two under the engine's promotion rules.
/// Same-signedness integers widen to the larger width; mixed signedness
/// promotes to the signed type one step wider than the unsigned operand
/// (or to binary64 when a 64-bit unsigned is involved); integer/float
/// mixes promote to a float wide enough for the integer, capped at 64.
pub open spec fn promote_numeric(a: DataType, b: DataType) -> DataType {
    if a.is_float() || b.is_float() {
        if float_need(a) >= 64 || float_need(b) >= 64 {
            DataType::Float64
        } else {
            DataType::Float32
        }
    } else if a.is_signed() == b.is_signed() {
        int_of_width(a.is_signed(), if a.width() >= b.width() {
            a.width()
        } else {
            b.width()
        })
    } else {
        let sw = if a.is_signed() {
            a.width()
        } else {
            b.width()
        };
        let uw = if a.is_signed() {
            b.width()
        } else {
            a.width()
        };
        if uw >= 64 {
            DataType::Float64
        } else {
            int_of_width(true, if sw >= 2 * uw {
                sw
            } else {
                2 * uw
            })
        }
    }
}

/// The coercion lattice on two element types: `None` when no comparison is
/// defined between them.  Null and the host-object type absorb; two
/// booleans compare as booleans; numeric pairs promote.  The bridging
/// (intermediate) type is `None` throughout, since every promoted pair
/// reaches its comparison type by one direct lossless cast.
pub open spec fn comparison_op_spec(a: DataType, b: DataType) -> Option<
    (DataType, Option<DataType>, DataType),
> {
    if a == DataType::Null || b == DataType::Null {
        Some((DataType::Boolean, None, DataType::Null))
    } else if a == DataType::HostObject || b == DataType::HostObject {
        Some((DataType::Boolean, None, DataType::HostObject))
    } else if a == DataType::Boolean && b == DataType::Boolean {
        Some((DataType::Boolean, None, DataType::Boolean))
    } else if a.is_numeric() && b.is_numeric() {
        Some((DataType::Boolean, None, promote_numeric(a, b)))
    } else {
        None
    }
}

/// [`comparison_op_spec`] with its failure case spelled as the error the
/// kernels propagate.
pub open spec fn comparison_op_res(a: DataType, b: DataType) -> Result<
    (DataType, Option<DataType>, DataType),
    Error,
> {
    match comparison_op_spec(a, b) {
        Some(t) => Ok(t),
        None => Err(Error::TypeMismatch(a, b)),
    }
}

/// The engine defines a conversion from `a` into `b`.  All of these are
/// lossless except the conversions of 64-bit integers into binary64,
/// which round to nearest.
pub open spec fn fits(a: DataType, b: DataType) -> bool {
    (a == b && a.is_storable()) || (a.is_numeric() && b.is_numeric() && (
    (a.is_signed() && b.is_signed() && a.width() <= b.width()) || (a.is_unsigned()
        && b.is_unsigned() && a.width() <= b.width()) || (a.is_unsigned() && b.is_signed()
        && a.width() < b.width()) || (b == DataType::Float32 && a.is_integer() && a.width() <= 16)
        || (b == DataType::Float64 && a.is_integer()) || (a == DataType::Float32 && b
        == DataType::Float64)))
}

/// Runtime test matching [`fits`].
pub fn fits_check(a: &DataType, b: &DataType) -> (r: bool)
    ensures
        r == fits(*a, *b),
{
    (*a == *b && a.check_storable()) || (a.check_numeric() && b.check_numeric() && (
    (a.check_signed() && b.check_signed() && a.bit_width() <= b.bit_width()) || (a.check_unsigned()
        && b.check_unsigned() && a.bit_width() <= b.bit_width()) || (a.check_unsigned()
        && b.check_signed() && a.bit_width() < b.bit_width()) || (*b == DataType::Float32
        && (a.check_signed() || a.check_unsigned()) && a.bit_width() <= 16) || (*b
        == DataType::Float64 && (a.check_signed() || a.check_unsigned())) || (*a
        == DataType::Float32 && *b == DataType::Float64)))
}

/// Both numeric operands convert into their promoted comparison type.
pub proof fn lemma_promote_fits(a: DataType, b: DataType)
    requires
        a.is_numeric(),
        b.is_numeric(),
    ensures
        promote_numeric(a, b).is_numeric(),
        fits(a, promote_numeric(a, b)),
        fits(b, promote_numeric(a, b)),
{
}

/// Definedness of conversions is transitive.
pub proof fn lemma_fits_trans(a: DataType, b: DataType, c: DataType)
    requires
        fits(a, b),
        fits(b, c),
    ensures
        fits(a, c),
{
}

/// When the comparison type of two types is numeric, both operands are
/// numeric and convert into it.
pub proof fn lemma_comp_numeric_fits(a: DataType, b: DataType)
    requires
        comparison_op_spec(a, b) is Some,
        comparison_op_spec(a, b)->Some_0.2.is_numeric(),
    ensures
        a.is_numeric(),
        b.is_numeric(),
        fits(a, comparison_op_spec(a, b)->Some_0.2),
        fits(b, comparison_op_spec(a, b)->Some_0.2),
{
    lemma_promote_fits(a, b);
}

/// The lattice, executably: the triple (output type, bridging type,
/// comparison type), or `TypeMismatch` when no comparison is defined.
pub fn comparison_op(a: &DataType, b: &DataType) -> (r: Result<
    (DataType, Option<DataType>, DataType),
    Error,
>)
    ensures
        r == comparison_op_res(*a, *b),
{
    if *a == DataType::Null || *b == DataType::Null {
        Ok((DataType::Boolean, None, DataType::Null))
    } else if *a == DataType::HostObject || *b == DataType::HostObject {
        Ok((DataType::Boolean, None, DataType::HostObject))
    } else if *a == DataType::Boolean && *b == DataType::Boolean {
        Ok((DataType::Boolean, None, DataType::Boolean))
    } else if a.check_numeric() && b.check_numeric() {
        Ok((DataType::Boolean, None, promote_numeric_exec(a, b)))
    } else {
        Err(Error::TypeMismatch(*a, *b))
    }
}

/// Runtime promotion matching [`promote_numeric`].
pub fn promote_numeric_exec(a: &DataType, b: &DataType) -> (r: DataType)
    requires
        a.is_numeric(),
        b.is_numeric(),
    ensures
        r == promote_numeric(*a, *b),
{
    if a.check_float() || b.check_float() {
        if float_need_exec(a) >= 64 || float_need_exec(b) >= 64 {
            DataType::Float64
        } else {
            DataType::Float32
        }
    } else if a.check_signed() == b.check_signed() {
        let w = if a.bit_width() >= b.bit_width() {
            a.bit_width()
        } else {
            b.bit_width()
        };
        int_of_width_exec(a.check_signed(), w)
    } else {
        let sw = if a.check_signed() {
            a.bit_width()
        } else {
            b.bit_width()
        };
        let uw = if a.check_signed() {
            b.bit_width()
        } else {
            a.bit_width()
        };
        if uw >= 64 {
            DataType::Float64
        } else {
            int_of_width_exec(true, if sw >= 2 * uw {
                sw
            } else {
                2 * uw
            })
        }
    }
}

/// Runtime float demand matching [`float_need`].
pub fn float_need_exec(t: &DataType) -> (r: u64)
    ensures
        r == float_need(*t),
{
    if t.check_float() {
        t.bit_width()
    } else if t.bit_width() <= 16 {
        32
    } else {
        64
    }
}

/// Runtime constructor matching [`int_of_width`].
pub fn int_of_width_exec(signed: bool, w: u64) -> (r: DataType)
    ensures
        r == int_of_width(signed, w as nat),
{
    if signed {
        if w <= 8 {
            DataType::Int8
        } else if w <= 16 {
            DataType::Int16
        } else if w <= 32 {
            DataType::Int32
        } else {
            DataType::Int64
        }
    } else {
        if w <= 8 {
            DataType::UInt8
        } else if w <= 16 {
            DataType::UInt16
        } else if w <= 32 {
            DataType::UInt32
        } else {
            DataType::UInt64
        }
    }
}

} // verus!
