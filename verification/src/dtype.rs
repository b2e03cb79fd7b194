use vstd::prelude::*;

verus! {

/// The logical element type of one slot of a column.
///
/// `Null`, the numeric primitives and `Boolean` are storable in a
/// [`crate::series::Series`].  `HostObject` stands for values that live in an
/// external host runtime (their comparison is delegated at the application
/// boundary), and `Composite` stands for the structured types that are out of
/// scope for the comparison kernels; neither is storable here, but both take
/// part in the coercion lattice.
#[derive(Clone, Copy, Debug, PartialEq, Eq, Structural)]
pub enum DataType {
    Null,
    Boolean,
    Int8,
    Int16,
    Int32,
    Int64,
    UInt8,
    UInt16,
    UInt32,
    UInt64,
    Float32,
    Float64,
    HostObject,
    Composite,
}

impl DataType {
    /// The signed integer element types.
    pub open spec fn is_signed(self) -> bool {
        self == DataType::Int8 || self == DataType::Int16 || self == DataType::Int32
            || self == DataType::Int64
    }

    /// The unsigned integer element types.
    pub open spec fn is_unsigned(self) -> bool {
        self == DataType::UInt8 || self == DataType::UInt16 || self == DataType::UInt32
            || self == DataType::UInt64
    }

    /// Any integer element type.
    pub open spec fn is_integer(self) -> bool {
        self.is_signed() || self.is_unsigned()
    }

    /// The floating-point element types.
    pub open spec fn is_float(self) -> bool {
        self == DataType::Float32 || self == DataType::Float64
    }

    /// The numeric primitives: the element types the monomorphic
    /// comparison kernels are generated for.
    pub open spec fn is_numeric(self) -> bool {
        self.is_integer() || self.is_float()
    }

    /// Element types whose cells a column can hold directly.
    pub open spec fn is_storable(self) -> bool {
        self == DataType::Null || self == DataType::Boolean || self.is_numeric()
    }

    /// Bit width of a numeric element type (0 for the others).
    pub open spec fn width(self) -> nat {
        match self {
            DataType::Int8 => 8,
            DataType::Int16 => 16,
            DataType::Int32 => 32,
            DataType::Int64 => 64,
            DataType::UInt8 => 8,
            DataType::UInt16 => 16,
            DataType::UInt32 => 32,
            DataType::UInt64 => 64,
            DataType::Float32 => 32,
            DataType::Float64 => 64,
            _ => 0,
        }
    }

    /// Runtime test matching [`DataType::is_signed`].
    pub fn check_signed(&self) -> (r: bool)
        ensures
            r == self.is_signed(),
    {
        matches!(self, DataType::Int8 | DataType::Int16 | DataType::Int32 | DataType::Int64)
    }

    /// Runtime test matching [`DataType::is_unsigned`].
    pub fn check_unsigned(&self) -> (r: bool)
        ensures
            r == self.is_unsigned(),
    {
        matches!(self, DataType::UInt8 | DataType::UInt16 | DataType::UInt32 | DataType::UInt64)
    }

    /// Runtime test matching [`DataType::is_float`].
    pub fn check_float(&self) -> (r: bool)
        ensures
            r == self.is_float(),
    {
        matches!(self, DataType::Float32 | DataType::Float64)
    }

    /// Runtime test matching [`DataType::is_numeric`].
    pub fn check_numeric(&self) -> (r: bool)
        ensures
            r == self.is_numeric(),
    {
        self.check_signed() || self.check_unsigned() || self.check_float()
    }

    /// Runtime test matching [`DataType::is_storable`].
    pub fn check_storable(&self) -> (r: bool)
        ensures
            r == self.is_storable(),
    {
        matches!(self, DataType::Null | DataType::Boolean) || self.check_numeric()
    }

    /// Runtime bit width matching [`DataType::width`].
    pub fn bit_width(&self) -> (r: u64)
        ensures
            r == self.width(),
    {
        match self {
            DataType::Int8 => 8,
            DataType::Int16 => 16,
            DataType::Int32 => 32,
            DataType::Int64 => 64,
            DataType::UInt8 => 8,
            DataType::UInt16 => 16,
            DataType::UInt32 => 32,
            DataType::UInt64 => 64,
            DataType::Float32 => 32,
            DataType::Float64 => 64,
            _ => 0,
        }
    }
}

/// The failure cases of the kernels and of the coercion lattice.
#[derive(Clone, Copy, Debug, PartialEq, Eq, Structural)]
pub enum Error {
    /// No comparison is defined between the two element types.
    TypeMismatch(DataType, DataType),
    /// The engine defines no conversion from the first type to the second.
    CastError(DataType, DataType),
    /// Input lengths disagree and neither side is a broadcastable scalar.
    LengthMismatch,
    /// The resolved comparison type is neither a numeric primitive, nor
    /// `Null`, nor the host-object type.
    UnsupportedType(DataType),
    /// The lattice returned a non-boolean output type for a predicate shape,
    /// or some other impossible state was reached.
    InternalInvariant,
}

} // verus!
