use vstd::prelude::*;
use crate::dtype::{DataType, Error};
use crate::lattice::{
    comparison_op, comparison_op_res, fits, fits_check, lemma_comp_numeric_fits, lemma_fits_trans,
};
use crate::scalar::{
    cast_scalar, cast_scalar_exec, scalar_fits, scalar_fits_check, scalar_le, scalar_le_exec,
    Scalar,
};

verus! {

/// Mathematical model of a column: a name, an element type, and the
/// parallel validity and cell sequences.
#[verifier::ext_equal]
pub struct SeriesModel {
    pub name: Seq<char>,
    pub dtype: DataType,
    pub validity: Seq<bool>,
    pub cells: Seq<Scalar>,
}

/// A column: an ordered sequence of equally-typed cells with a parallel
/// validity bitmap and a name.  A clear validity bit means the cell is
/// logically null (and is carried as [`Scalar::Absent`]).
#[derive(Debug, PartialEq)]
pub struct Series {
    pub name: String,
    pub dtype: DataType,
    pub validity: Vec<bool>,
    pub cells: Vec<Scalar>,
}

impl View for Series {
    type V = SeriesModel;

    open spec fn view(&self) -> SeriesModel {
        SeriesModel {
            name: self.name@,
            dtype: self.dtype,
            validity: self.validity@,
            cells: self.cells@,
        }
    }
}

/// Cell `i` agrees with its validity bit: valid cells inhabit the element
/// type, null cells are `Absent`.
pub open spec fn cell_ok(m: SeriesModel, i: int) -> bool {
    if m.validity[i] {
        scalar_fits(m.cells[i], m.dtype)
    } else {
        m.cells[i] == Scalar::Absent
    }
}

/// Well-formedness of a column model.
pub open spec fn wf_model(m: SeriesModel) -> bool {
    &&& m.dtype.is_storable()
    &&& m.validity.len() == m.cells.len()
    &&& forall|i: int| 0 <= i < m.cells.len() ==> #[trigger] cell_ok(m, i)
}

/// Interpretation of a `Result` of columns over models.
pub open spec fn res_model(r: Result<Series, Error>) -> Result<SeriesModel, Error> {
    match r {
        Ok(s) => Ok(s@),
        Err(e) => Err(e),
    }
}

/// The slot of `cells` at `i` fits `t` (null slots always do).
pub open spec fn slot_ok(cs: Seq<Option<Scalar>>, t: DataType, i: int) -> bool {
    match cs[i] {
        Some(c) => scalar_fits(c, t),
        None => true,
    }
}

/// An all-null boolean column model of the given name and length.
pub open spec fn all_null_model(name: Seq<char>, len: nat) -> SeriesModel {
    SeriesModel {
        name: name,
        dtype: DataType::Boolean,
        validity: Seq::new(len, |i: int| false),
        cells: Seq::new(len, |i: int| Scalar::Absent),
    }
}

/// Model of a cast column: same name and validity, cells converted.
pub open spec fn cast_series(m: SeriesModel, to: DataType) -> SeriesModel {
    SeriesModel {
        name: m.name,
        dtype: to,
        validity: m.validity,
        cells: Seq::new(m.cells.len(), |i: int| cast_scalar(m.cells[i], to)),
    }
}

/// Model of the cast operation: defined exactly when the engine converts
/// the source element type into `to`, null-preserving, elementwise.
pub open spec fn cast_model(m: SeriesModel, to: DataType) -> Result<SeriesModel, Error> {
    if fits(m.dtype, to) {
        Ok(cast_series(m, to))
    } else {
        Err(Error::CastError(m.dtype, to))
    }
}

/// The three lengths broadcast together: each pair agrees or one side is a
/// scalar (length 1).
pub open spec fn bcast_ok(a: nat, b: nat, c: nat) -> bool {
    (a == b || a == 1 || b == 1) && (a == c || a == 1 || c == 1) && (b == c || b == 1 || c == 1)
}

/// The common broadcast length: the first length that is not 1.
pub open spec fn bcast_len(a: nat, b: nat, c: nat) -> nat {
    if a != 1 {
        a
    } else if b != 1 {
        b
    } else {
        c
    }
}

/// Index into a possibly-broadcast column: a length-1 column serves its
/// single row everywhere.
pub open spec fn bidx(len: nat, i: int) -> int {
    if len == 1 {
        0
    } else {
        i
    }
}

/// The double application of the binary lattice that unifies the three
/// operand types of `between`: value with lower, value with upper, then
/// the two comparison types with each other.
pub open spec fn between_plan(vt: DataType, lt: DataType, ut: DataType) -> Result<
    (DataType, Option<DataType>, DataType),
    Error,
> {
    match comparison_op_res(vt, lt) {
        Err(e) => Err(e),
        Ok((_, _, lower_cmp)) => match comparison_op_res(vt, ut) {
            Err(e) => Err(e),
            Ok((_, _, upper_cmp)) => comparison_op_res(lower_cmp, upper_cmp),
        },
    }
}

/// Row `i` of the output is valid: all three (broadcast) operands are.
pub open spec fn between_valid_at(v: SeriesModel, l: SeriesModel, u: SeriesModel, i: int) -> bool {
    v.validity[bidx(v.cells.len(), i)] && l.validity[bidx(l.cells.len(), i)]
        && u.validity[bidx(u.cells.len(), i)]
}

/// Value of a valid output row: both inclusive bound checks, after the
/// three operands are cast to the comparison type.
pub open spec fn between_value_at(
    v: SeriesModel,
    l: SeriesModel,
    u: SeriesModel,
    comp: DataType,
    i: int,
) -> bool {
    let vc = cast_scalar(v.cells[bidx(v.cells.len(), i)], comp);
    let lc = cast_scalar(l.cells[bidx(l.cells.len(), i)], comp);
    let uc = cast_scalar(u.cells[bidx(u.cells.len(), i)], comp);
    scalar_le(lc, vc) && scalar_le(vc, uc)
}

/// The boolean column produced by the primitive kernel.
pub open spec fn between_cells(
    v: SeriesModel,
    l: SeriesModel,
    u: SeriesModel,
    comp: DataType,
) -> SeriesModel {
    let n = bcast_len(v.cells.len(), l.cells.len(), u.cells.len());
    SeriesModel {
        name: v.name,
        dtype: DataType::Boolean,
        validity: Seq::new(n, |i: int| between_valid_at(v, l, u, i)),
        cells: Seq::new(
            n,
            |i: int|
                if between_valid_at(v, l, u, i) {
                    Scalar::Bool(between_value_at(v, l, u, comp, i))
                } else {
                    Scalar::Absent
                },
        ),
    }
}

/// Full model of `between`: the lattice is applied twice; a `Null`
/// comparison type short-circuits to an all-null boolean column of the
/// value's length; a numeric comparison type runs the broadcast check and
/// the kernel; any other comparison type is unsupported.
pub open spec fn between_model(v: SeriesModel, l: SeriesModel, u: SeriesModel) -> Result<
    SeriesModel,
    Error,
> {
    match between_plan(v.dtype, l.dtype, u.dtype) {
        Err(e) => Err(e),
        Ok((out_t, _intermediate, comp)) => {
            if out_t != DataType::Boolean {
                Err(Error::InternalInvariant)
            } else if comp == DataType::Null {
                Ok(all_null_model(v.name, v.cells.len()))
            } else if comp.is_numeric() {
                if !bcast_ok(v.cells.len(), l.cells.len(), u.cells.len()) {
                    Err(Error::LengthMismatch)
                } else {
                    Ok(between_cells(v, l, u, comp))
                }
            } else {
                Err(Error::UnsupportedType(comp))
            }
        },
    }
}

/// When the plan resolves to a numeric comparison type, every operand
/// type converts into it.
pub proof fn lemma_between_plan_fits(vt: DataType, lt: DataType, ut: DataType)
    requires
        between_plan(vt, lt, ut) is Ok,
        between_plan(vt, lt, ut)->Ok_0.2.is_numeric(),
    ensures
        ({
            let comp = between_plan(vt, lt, ut)->Ok_0.2;
            fits(vt, comp) && fits(lt, comp) && fits(ut, comp)
        }),
{
    let lower_cmp = comparison_op_res(vt, lt)->Ok_0.2;
    let upper_cmp = comparison_op_res(vt, ut)->Ok_0.2;
    let comp = between_plan(vt, lt, ut)->Ok_0.2;
    lemma_comp_numeric_fits(lower_cmp, upper_cmp);
    lemma_comp_numeric_fits(vt, lt);
    lemma_comp_numeric_fits(vt, ut);
    lemma_fits_trans(vt, lower_cmp, comp);
    lemma_fits_trans(lt, lower_cmp, comp);
    lemma_fits_trans(ut, upper_cmp, comp);
}

/// Converting a fitting cell yields a cell fitting the target type.
pub proof fn lemma_cast_fits(s: Scalar, from: DataType, to: DataType)
    requires
        fits(from, to),
        scalar_fits(s, from),
    ensures
        scalar_fits(cast_scalar(s, to), to),
{
}

impl Series {
    /// The column's invariant.
    pub open spec fn wf(&self) -> bool {
        wf_model(self@)
    }

    /// Builds a column of the given element type from optional cells
    /// (`None` marks a null row); `None` is returned when the type cannot
    /// be stored or some cell does not inhabit it.
    pub fn try_new(name: &str, dtype: DataType, slots: Vec<Option<Scalar>>) -> (r: Option<Series>)
        ensures
            r is Some <==> (dtype.is_storable() && forall|i: int|
                0 <= i < slots@.len() ==> #[trigger] slot_ok(slots@, dtype, i)),
            r matches Some(s) ==> {
                &&& s.wf()
                &&& s@.name == name@
                &&& s@.dtype == dtype
                &&& s@.cells.len() == slots@.len()
                &&& s@.validity.len() == slots@.len()
                &&& forall|i: int|
                    0 <= i < slots@.len() ==> s@.validity[i] == (#[trigger] slots@[i] is Some)
                &&& forall|i: int|
                    0 <= i < slots@.len() ==> s@.cells[i] == (match slots@[i] {
                        Some(c) => c,
                        None => Scalar::Absent,
                    })
            },
    {
        if !dtype.check_storable() {
            return None;
        }
        let mut validity: Vec<bool> = Vec::new();
        let mut cells: Vec<Scalar> = Vec::new();
        let mut i: usize = 0;
        while i < slots.len()
            invariant
                i <= slots@.len(),
                validity@.len() == i,
                cells@.len() == i,
                dtype.is_storable(),
                forall|j: int| 0 <= j < i ==> #[trigger] slot_ok(slots@, dtype, j),
                forall|j: int| 0 <= j < i ==> validity@[j] == (#[trigger] slots@[j] is Some),
                forall|j: int|
                    0 <= j < i ==> cells@[j] == (match #[trigger] slots@[j] {
                        Some(c) => c,
                        None => Scalar::Absent,
                    }),
            decreases slots@.len() - i,
        {
            match &slots[i] {
                Some(c) => {
                    if !scalar_fits_check(c, &dtype) {
                        proof {
                            assert(!slot_ok(slots@, dtype, i as int));
                        }
                        return None;
                    }
                    validity.push(true);
                    cells.push(*c);
                },
                None => {
                    validity.push(false);
                    cells.push(Scalar::Absent);
                },
            }
            i = i + 1;
        }
        let s = Series { name: name.to_owned(), dtype, validity, cells };
        proof {
            assert forall|i: int| 0 <= i < s@.cells.len() implies #[trigger] cell_ok(s@, i) by {
                assert(slot_ok(slots@, dtype, i));
            };
        }
        Some(s)
    }

    /// An all-null column of the given name, element type and length.
    pub fn full_null(name: &str, dtype: &DataType, length: usize) -> (s: Series)
        requires
            dtype.is_storable(),
        ensures
            s.wf(),
            s@.name == name@,
            s@.dtype == *dtype,
            s@.cells.len() == length,
            s@.validity.len() == length,
            forall|i: int| 0 <= i < length ==> !(#[trigger] s@.validity[i]),
            forall|i: int| 0 <= i < length ==> #[trigger] s@.cells[i] == Scalar::Absent,
    {
        let mut validity: Vec<bool> = Vec::new();
        let mut cells: Vec<Scalar> = Vec::new();
        let mut i: usize = 0;
        while i < length
            invariant
                i <= length,
                validity@.len() == i,
                cells@.len() == i,
                forall|j: int| 0 <= j < i ==> !(#[trigger] validity@[j]),
                forall|j: int| 0 <= j < i ==> #[trigger] cells@[j] == Scalar::Absent,
            decreases length - i,
        {
            validity.push(false);
            cells.push(Scalar::Absent);
            i = i + 1;
        }
        let s = Series { name: name.to_owned(), dtype: *dtype, validity, cells };
        proof {
            assert forall|i: int| 0 <= i < s@.cells.len() implies #[trigger] cell_ok(s@, i) by {}
        }
        s
    }

    /// Runtime test of the column invariant, for callers that assembled a
    /// column from raw parts rather than through the constructors.
    pub fn check_wf(&self) -> (r: bool)
        ensures
            r == self.wf(),
    {
        if !self.dtype.check_storable() {
            return false;
        }
        if self.validity.len() != self.cells.len() {
            return false;
        }
        let mut i: usize = 0;
        while i < self.cells.len()
            invariant
                i <= self@.cells.len(),
                self@.validity.len() == self@.cells.len(),
                self@.dtype.is_storable(),
                forall|j: int| 0 <= j < i ==> #[trigger] cell_ok(self@, j),
            decreases self@.cells.len() - i,
        {
            let ok = if self.validity[i] {
                scalar_fits_check(&self.cells[i], &self.dtype)
            } else {
                matches!(self.cells[i], Scalar::Absent)
            };
            if !ok {
                proof {
                    assert(!cell_ok(self@, i as int));
                }
                return false;
            }
            i = i + 1;
        }
        true
    }

    /// Number of rows.
    pub fn len(&self) -> (r: usize)
        ensures
            r == self@.cells.len(),
    {
        self.cells.len()
    }

    /// The column's name.
    pub fn name(&self) -> (r: &str)
        ensures
            r@ == self@.name,
    {
        self.name.as_str()
    }

    /// The column's element type.
    pub fn data_type(&self) -> (r: &DataType)
        ensures
            *r == self@.dtype,
    {
        &self.dtype
    }

    /// Element-wise conversion into the target type: fresh column, same
    /// name and validity, `CastError` when the engine defines no
    /// conversion for the type pair.
    pub fn cast(&self, to: &DataType) -> (r: Result<Series, Error>)
        requires
            self.wf(),
        ensures
            res_model(r) == cast_model(self@, *to),
            r matches Ok(s) ==> s.wf(),
    {
        if !fits_check(&self.dtype, to) {
            return Err(Error::CastError(self.dtype, *to));
        }
        let mut validity: Vec<bool> = Vec::new();
        let mut cells: Vec<Scalar> = Vec::new();
        let mut i: usize = 0;
        while i < self.cells.len()
            invariant
                i <= self@.cells.len(),
                self.wf(),
                fits(self@.dtype, *to),
                validity@.len() == i,
                cells@.len() == i,
                forall|j: int| 0 <= j < i ==> validity@[j] == self@.validity[j],
                forall|j: int|
                    0 <= j < i ==> #[trigger] cells@[j] == cast_scalar(self@.cells[j], *to),
            decreases self@.cells.len() - i,
        {
            proof {
                assert(cell_ok(self@, i as int));
            }
            validity.push(self.validity[i]);
            cells.push(cast_scalar_exec(&self.cells[i], &self.dtype, to));
            i = i + 1;
        }
        let s = Series { name: self.name.as_str().to_owned(), dtype: *to, validity, cells };
        proof {
            assert(s@.validity =~= cast_series(self@, *to).validity);
            assert(s@.cells =~= cast_series(self@, *to).cells);
            assert(s@ =~= cast_series(self@, *to));
            assert forall|i: int| 0 <= i < s@.cells.len() implies #[trigger] cell_ok(s@, i) by {
                assert(cell_ok(self@, i));
                if self@.validity[i] {
                    lemma_cast_fits(self@.cells[i], self@.dtype, *to);
                }
            };
        }
        Ok(s)
    }

    /// The ternary range predicate: element-wise, whether each value lies
    /// between its per-row lower and upper bound, inclusive on both ends.
    ///
    /// The coercion lattice is applied twice to unify the three element
    /// types; the inputs are cast to the resolved comparison type and the
    /// kernel compares under that type's order (IEEE-754 ordered
    /// comparison for floats, so any NaN yields `false`).  Validity
    /// propagates conjunctively; a `Null` comparison type yields an
    /// all-null boolean column of the value's length; length-1 inputs
    /// broadcast.  The result carries the value column's name.
    ///
    /// A host-object comparison type never arises here, since columns hold
    /// no host values: the application layer owns host-typed columns,
    /// consults the lattice itself, and delegates those to the host
    /// runtime before calling in.
    pub fn between(&self, lower: &Series, upper: &Series) -> (r: Result<Series, Error>)
        requires
            self.wf(),
            lower.wf(),
            upper.wf(),
        ensures
            res_model(r) == between_model(self@, lower@, upper@),
            r matches Ok(out) ==> out.wf() && out@.dtype == DataType::Boolean && out@.name
                == self@.name,
    {
        let lower_cmp = match comparison_op(&self.dtype, &lower.dtype) {
            Ok(t) => t.2,
            Err(e) => {
                return Err(e);
            },
        };
        let upper_cmp = match comparison_op(&self.dtype, &upper.dtype) {
            Ok(t) => t.2,
            Err(e) => {
                return Err(e);
            },
        };
        let (output_type, _intermediate, comp) = match comparison_op(&lower_cmp, &upper_cmp) {
            Ok(t) => t,
            Err(e) => {
                return Err(e);
            },
        };
        // The lattice reaches every comparison type by direct casts, so it
        // never asks for a bridging pre-cast of the three inputs.
        proof {
            assert(_intermediate is None);
        }
        if output_type != DataType::Boolean {
            // the lattice owes a boolean output for a predicate shape
            return Err(Error::InternalInvariant);
        }
        if comp == DataType::Null {
            let out = Series::full_null(self.name(), &DataType::Boolean, self.len());
            proof {
                let m = all_null_model(self@.name, self@.cells.len());
                assert(out@.validity =~= m.validity);
                assert(out@.cells =~= m.cells);
                assert(out@ =~= m);
            }
            return Ok(out);
        }
        if !comp.check_numeric() {
            return Err(Error::UnsupportedType(comp));
        }
        proof {
            lemma_between_plan_fits(self@.dtype, lower@.dtype, upper@.dtype);
        }
        let cv = match self.cast(&comp) {
            Ok(c) => c,
            Err(e) => {
                proof {
                    assert(false);
                }
                return Err(e);
            },
        };
        let cl = match lower.cast(&comp) {
            Ok(c) => c,
            Err(e) => {
                proof {
                    assert(false);
                }
                return Err(e);
            },
        };
        let cu = match upper.cast(&comp) {
            Ok(c) => c,
            Err(e) => {
                proof {
                    assert(false);
                }
                return Err(e);
            },
        };
        let n1 = cv.cells.len();
        let n2 = cl.cells.len();
        let n3 = cu.cells.len();
        if !((n1 == n2 || n1 == 1 || n2 == 1) && (n1 == n3 || n1 == 1 || n3 == 1) && (n2 == n3
            || n2 == 1 || n3 == 1)) {
            return Err(Error::LengthMismatch);
        }
        let n = if n1 != 1 {
            n1
        } else if n2 != 1 {
            n2
        } else {
            n3
        };
        let ghost vm = self@;
        let ghost lm = lower@;
        let ghost um = upper@;
        let mut validity: Vec<bool> = Vec::new();
        let mut cells: Vec<Scalar> = Vec::new();
        let mut i: usize = 0;
        while i < n
            invariant
                i <= n,
                self.wf(),
                lower.wf(),
                upper.wf(),
                vm == self@,
                lm == lower@,
                um == upper@,
                comp.is_numeric(),
                cv.wf(),
                cl.wf(),
                cu.wf(),
                cv@ == cast_series(vm, comp),
                cl@ == cast_series(lm, comp),
                cu@ == cast_series(um, comp),
                n1 == vm.cells.len(),
                n2 == lm.cells.len(),
                n3 == um.cells.len(),
                n1 == cv@.cells.len(),
                n2 == cl@.cells.len(),
                n3 == cu@.cells.len(),
                n == bcast_len(n1 as nat, n2 as nat, n3 as nat),
                bcast_ok(n1 as nat, n2 as nat, n3 as nat),
                validity@.len() == i,
                cells@.len() == i,
                forall|j: int|
                    0 <= j < i ==> #[trigger] validity@[j] == between_valid_at(vm, lm, um, j),
                forall|j: int|
                    0 <= j < i ==> #[trigger] cells@[j] == (if between_valid_at(vm, lm, um, j) {
                        Scalar::Bool(between_value_at(vm, lm, um, comp, j))
                    } else {
                        Scalar::Absent
                    }),
            decreases n - i,
        {
            let vi = if n1 == 1 {
                0
            } else {
                i
            };
            let li = if n2 == 1 {
                0
            } else {
                i
            };
            let ui = if n3 == 1 {
                0
            } else {
                i
            };
            let valid = self.validity[vi] && lower.validity[li] && upper.validity[ui];
            proof {
                assert(valid == between_valid_at(vm, lm, um, i as int));
            }
            if valid {
                let a = scalar_le_exec(&cl.cells[li], &cv.cells[vi]);
                let b = scalar_le_exec(&cv.cells[vi], &cu.cells[ui]);
                validity.push(true);
                cells.push(Scalar::Bool(a && b));
            } else {
                validity.push(false);
                cells.push(Scalar::Absent);
            }
            i = i + 1;
        }
        let out = Series {
            name: self.name.as_str().to_owned(),
            dtype: DataType::Boolean,
            validity,
            cells,
        };
        proof {
            let bc = between_cells(vm, lm, um, comp);
            assert(out@.validity =~= bc.validity);
            assert(out@.cells =~= bc.cells);
            assert(out@ =~= bc);
            assert(forall|i: int| 0 <= i < out@.cells.len() ==> #[trigger] cell_ok(out@, i));
        }
        Ok(out)
    }
}

} // verus!
