use vstd::prelude::*;
use vstd::arithmetic::mul::{lemma_mul_inequality, lemma_mul_inequality_converse};
use vstd::arithmetic::power2::{lemma_pow2_pos, pow2};
use crate::dtype::{DataType, Error};
use crate::float::{lemma_i64_to_f64_exact, lemma_int_to_f32_exact, lemma_u64_to_f64_exact};
use crate::lattice::fits;
use crate::scalar::{
    cast_scalar, lemma_scalar_le_refl, lemma_scalar_le_trans, scalar_fits, scalar_is_nan,
    scalar_le, Scalar,
};
use crate::series::{
    all_null_model, bcast_len, bcast_ok, between_cells, between_model, between_plan,
    between_valid_at, between_value_at, bidx, cast_series, cell_ok, lemma_between_plan_fits,
    lemma_cast_fits, wf_model, SeriesModel,
};

verus! {

// The laws of the `between` kernel, stated over its model; the kernel's
// own contract ties every execution to that model.

/// Length preservation: a successful result has parallel validity and cell
/// sequences whose length is the value column's length on the all-null
/// path, and the common broadcast length of the three inputs otherwise.
pub proof fn lemma_between_length(v: SeriesModel, l: SeriesModel, u: SeriesModel)
    requires
        between_model(v, l, u) is Ok,
    ensures
        ({
            let out = between_model(v, l, u)->Ok_0;
            let comp = between_plan(v.dtype, l.dtype, u.dtype)->Ok_0.2;
            &&& out.validity.len() == out.cells.len()
            &&& (comp == DataType::Null ==> out.cells.len() == v.cells.len())
            &&& (comp != DataType::Null ==> out.cells.len() == bcast_len(
                v.cells.len(),
                l.cells.len(),
                u.cells.len(),
            ))
        }),
{
}

/// Null propagation: on the kernel path, an output row is valid exactly
/// when all three (broadcast) input rows are.
pub proof fn lemma_between_null_propagation(v: SeriesModel, l: SeriesModel, u: SeriesModel)
    requires
        between_model(v, l, u) is Ok,
        between_plan(v.dtype, l.dtype, u.dtype)->Ok_0.2.is_numeric(),
    ensures
        ({
            let out = between_model(v, l, u)->Ok_0;
            forall|i: int|
                0 <= i < out.cells.len() ==> #[trigger] out.validity[i] == (v.validity[bidx(
                    v.cells.len(),
                    i,
                )] && l.validity[bidx(l.cells.len(), i)] && u.validity[bidx(u.cells.len(), i)])
        }),
{
}

/// All-null short-circuit: a null-typed value column always yields a
/// length-preserving all-null boolean column, whatever the bound columns
/// hold, and no kernel runs.
pub proof fn lemma_between_all_null_shortcut(v: SeriesModel, l: SeriesModel, u: SeriesModel)
    requires
        v.dtype == DataType::Null,
    ensures
        between_model(v, l, u) == Ok::<SeriesModel, Error>(all_null_model(v.name, v.cells.len())),
{
}

/// Inclusivity: a valid output row holds exactly the conjunction of the
/// two inclusive bound checks, under the comparison type's order.
pub proof fn lemma_between_inclusivity(v: SeriesModel, l: SeriesModel, u: SeriesModel, i: int)
    requires
        between_model(v, l, u) is Ok,
        between_plan(v.dtype, l.dtype, u.dtype)->Ok_0.2.is_numeric(),
        0 <= i < between_model(v, l, u)->Ok_0.cells.len(),
        between_model(v, l, u)->Ok_0.validity[i],
    ensures
        ({
            let out = between_model(v, l, u)->Ok_0;
            let comp = between_plan(v.dtype, l.dtype, u.dtype)->Ok_0.2;
            let vc = cast_scalar(v.cells[bidx(v.cells.len(), i)], comp);
            let lc = cast_scalar(l.cells[bidx(l.cells.len(), i)], comp);
            let uc = cast_scalar(u.cells[bidx(u.cells.len(), i)], comp);
            out.cells[i] == Scalar::Bool(scalar_le(lc, vc) && scalar_le(vc, uc))
        }),
{
}

/// Empty range: when the (cast) lower bound does not lie below the (cast)
/// upper bound, a valid output row is false — an empty range rejects
/// every value, and is not an error.
pub proof fn lemma_between_empty_range(v: SeriesModel, l: SeriesModel, u: SeriesModel, i: int)
    requires
        between_model(v, l, u) is Ok,
        between_plan(v.dtype, l.dtype, u.dtype)->Ok_0.2.is_numeric(),
        0 <= i < between_model(v, l, u)->Ok_0.cells.len(),
        between_model(v, l, u)->Ok_0.validity[i],
        !scalar_le(
            cast_scalar(
                l.cells[bidx(l.cells.len(), i)],
                between_plan(v.dtype, l.dtype, u.dtype)->Ok_0.2,
            ),
            cast_scalar(
                u.cells[bidx(u.cells.len(), i)],
                between_plan(v.dtype, l.dtype, u.dtype)->Ok_0.2,
            ),
        ),
    ensures
        between_model(v, l, u)->Ok_0.cells[i] == Scalar::Bool(false),
{
    let comp = between_plan(v.dtype, l.dtype, u.dtype)->Ok_0.2;
    let vc = cast_scalar(v.cells[bidx(v.cells.len(), i)], comp);
    let lc = cast_scalar(l.cells[bidx(l.cells.len(), i)], comp);
    let uc = cast_scalar(u.cells[bidx(u.cells.len(), i)], comp);
    if scalar_le(lc, vc) && scalar_le(vc, uc) {
        lemma_scalar_le_trans(lc, vc, uc);
    }
}

/// Degeneracy: when value, lower and upper coincide at a row (and are not
/// NaN), the row is true — both endpoints are inclusive.
pub proof fn lemma_between_degenerate(v: SeriesModel, l: SeriesModel, u: SeriesModel, i: int)
    requires
        wf_model(v),
        wf_model(l),
        wf_model(u),
        between_model(v, l, u) is Ok,
        between_plan(v.dtype, l.dtype, u.dtype)->Ok_0.2.is_numeric(),
        0 <= i < between_model(v, l, u)->Ok_0.cells.len(),
        between_model(v, l, u)->Ok_0.validity[i],
        ({
            let comp = between_plan(v.dtype, l.dtype, u.dtype)->Ok_0.2;
            let vc = cast_scalar(v.cells[bidx(v.cells.len(), i)], comp);
            let lc = cast_scalar(l.cells[bidx(l.cells.len(), i)], comp);
            let uc = cast_scalar(u.cells[bidx(u.cells.len(), i)], comp);
            lc == vc && uc == vc && !scalar_is_nan(vc)
        }),
    ensures
        between_model(v, l, u)->Ok_0.cells[i] == Scalar::Bool(true),
{
    let comp = between_plan(v.dtype, l.dtype, u.dtype)->Ok_0.2;
    let vc = cast_scalar(v.cells[bidx(v.cells.len(), i)], comp);
    lemma_between_plan_fits(v.dtype, l.dtype, u.dtype);
    assert(cell_ok(v, bidx(v.cells.len(), i)));
    lemma_cast_fits(v.cells[bidx(v.cells.len(), i)], v.dtype, comp);
    assert(scalar_fits(vc, comp));
    lemma_scalar_le_refl(vc);
}

/// Purity: the result is a function of the input models alone — two runs
/// on the same inputs agree, and the borrowed inputs are never changed.
pub proof fn lemma_between_pure(
    v: SeriesModel,
    l: SeriesModel,
    u: SeriesModel,
    r1: Result<SeriesModel, Error>,
    r2: Result<SeriesModel, Error>,
)
    requires
        r1 == between_model(v, l, u),
        r2 == between_model(v, l, u),
    ensures
        r1 == r2,
{
}

/// Mathematical integer value of an integer-carrier cell.
pub open spec fn scalar_int_val(s: Scalar) -> int {
    match s {
        Scalar::Int(v) => v as int,
        Scalar::UInt(v) => v as int,
        _ => 0,
    }
}

/// Casting into an integer type keeps the integer value.
pub proof fn lemma_int_cast_val(a: Scalar, fa: DataType, t: DataType)
    requires
        fa.is_integer(),
        t.is_integer(),
        fits(fa, t),
        scalar_fits(a, fa),
    ensures
        scalar_int_val(cast_scalar(a, t)) == scalar_int_val(a),
        scalar_fits(cast_scalar(a, t), t),
        cast_scalar(a, t) is Int || cast_scalar(a, t) is UInt,
{
    lemma_cast_fits(a, fa, t);
}

/// Comparison of two integer cells after a common integer cast is the
/// comparison of their integer values.
pub proof fn lemma_int_cast_le(a: Scalar, b: Scalar, fa: DataType, fb: DataType, t: DataType)
    requires
        fa.is_integer(),
        fb.is_integer(),
        t.is_integer(),
        fits(fa, t),
        fits(fb, t),
        scalar_fits(a, fa),
        scalar_fits(b, fb),
    ensures
        scalar_le(cast_scalar(a, t), cast_scalar(b, t)) == (scalar_int_val(a) <= scalar_int_val(
            b,
        )),
{
    lemma_int_cast_val(a, fa, t);
    lemma_int_cast_val(b, fb, t);
}

/// Comparison of two integer cells of at most 32 bits after casting both
/// to binary64 is the comparison of their integer values: the conversion
/// is exact and order-preserving in that range.
pub proof fn lemma_f64_cast_le(a: Scalar, b: Scalar, fa: DataType, fb: DataType)
    requires
        fa.is_integer(),
        fa.width() <= 32,
        fb.is_integer(),
        fb.width() <= 32,
        scalar_fits(a, fa),
        scalar_fits(b, fb),
    ensures
        scalar_le(cast_scalar(a, DataType::Float64), cast_scalar(b, DataType::Float64)) == (
        scalar_int_val(a) <= scalar_int_val(b)),
{
    let ia = scalar_int_val(a);
    let ib = scalar_int_val(b);
    let p = pow2(1074) as int;
    lemma_pow2_pos(1074);
    let ba = match a {
        Scalar::Int(x) => {
            lemma_i64_to_f64_exact(x);
            crate::float::i64_to_f64_bits(x)
        },
        Scalar::UInt(x) => {
            lemma_u64_to_f64_exact(x);
            crate::float::u64_to_f64_bits(x)
        },
        _ => 0u64,
    };
    let bb = match b {
        Scalar::Int(x) => {
            lemma_i64_to_f64_exact(x);
            crate::float::i64_to_f64_bits(x)
        },
        Scalar::UInt(x) => {
            lemma_u64_to_f64_exact(x);
            crate::float::u64_to_f64_bits(x)
        },
        _ => 0u64,
    };
    assert(crate::float::f64_dval(ba) == ia * p);
    assert(crate::float::f64_dval(bb) == ib * p);
    if ia <= ib {
        lemma_mul_inequality(ia, ib, p);
    }
    if ia * p <= ib * p {
        lemma_mul_inequality_converse(ia, ib, p);
    }
}

/// Comparison of two integer cells of at most 16 bits after casting both
/// to binary32 is the comparison of their integer values: the conversion
/// is exact and order-preserving in that range.
pub proof fn lemma_f32_cast_le(a: Scalar, b: Scalar, fa: DataType, fb: DataType)
    requires
        fa.is_integer(),
        fa.width() <= 16,
        fb.is_integer(),
        fb.width() <= 16,
        scalar_fits(a, fa),
        scalar_fits(b, fb),
    ensures
        scalar_le(cast_scalar(a, DataType::Float32), cast_scalar(b, DataType::Float32)) == (
        scalar_int_val(a) <= scalar_int_val(b)),
{
    let ia = scalar_int_val(a);
    let ib = scalar_int_val(b);
    let p = pow2(149) as int;
    lemma_pow2_pos(149);
    lemma_int_to_f32_exact(ia);
    lemma_int_to_f32_exact(ib);
    if ia <= ib {
        lemma_mul_inequality(ia, ib, p);
    }
    if ia * p <= ib * p {
        lemma_mul_inequality_converse(ia, ib, p);
    }
}

/// Commuting with cast, through binary32: for integer columns of at most
/// 16 bits — whose every value binary32 represents exactly — `between`
/// gives the same answer before and after all three inputs are cast to
/// `Float32`.
pub proof fn lemma_between_float32_cast_commutes(v: SeriesModel, l: SeriesModel, u: SeriesModel)
    requires
        wf_model(v),
        wf_model(l),
        wf_model(u),
        v.dtype.is_integer() && v.dtype.width() <= 16,
        l.dtype.is_integer() && l.dtype.width() <= 16,
        u.dtype.is_integer() && u.dtype.width() <= 16,
    ensures
        between_model(
            cast_series(v, DataType::Float32),
            cast_series(l, DataType::Float32),
            cast_series(u, DataType::Float32),
        ) == between_model(v, l, u),
{
    let ft = DataType::Float32;
    let cv = cast_series(v, ft);
    let cl = cast_series(l, ft);
    let cu = cast_series(u, ft);
    let comp = between_plan(v.dtype, l.dtype, u.dtype)->Ok_0.2;
    assert(between_plan(v.dtype, l.dtype, u.dtype) is Ok);
    assert(comp.is_integer());
    assert(between_plan(ft, ft, ft) is Ok);
    assert(between_plan(ft, ft, ft)->Ok_0.2 == ft);
    assert(between_plan(ft, ft, ft)->Ok_0.0 == DataType::Boolean);
    lemma_between_plan_fits(v.dtype, l.dtype, u.dtype);
    if !bcast_ok(v.cells.len(), l.cells.len(), u.cells.len()) {
        assert(between_model(cv, cl, cu) == Err::<SeriesModel, Error>(Error::LengthMismatch));
        assert(between_model(v, l, u) == Err::<SeriesModel, Error>(Error::LengthMismatch));
    } else {
        let o1 = between_cells(cv, cl, cu, ft);
        let o2 = between_cells(v, l, u, comp);
        assert forall|i: int| 0 <= i < o1.validity.len() implies #[trigger] o1.validity[i]
            == o2.validity[i] by {}
        assert forall|i: int| 0 <= i < o1.cells.len() implies #[trigger] o1.cells[i]
            == o2.cells[i] by {
            if between_valid_at(v, l, u, i) {
                let va = v.cells[bidx(v.cells.len(), i)];
                let la = l.cells[bidx(l.cells.len(), i)];
                let ua = u.cells[bidx(u.cells.len(), i)];
                assert(cell_ok(v, bidx(v.cells.len(), i)));
                assert(cell_ok(l, bidx(l.cells.len(), i)));
                assert(cell_ok(u, bidx(u.cells.len(), i)));
                lemma_int_cast_le(la, va, l.dtype, v.dtype, comp);
                lemma_int_cast_le(va, ua, v.dtype, u.dtype, comp);
                lemma_f32_cast_le(la, va, l.dtype, v.dtype);
                lemma_f32_cast_le(va, ua, v.dtype, u.dtype);
                assert(between_value_at(cv, cl, cu, ft, i) == between_value_at(v, l, u, comp, i));
            }
        }
        assert(o1.validity =~= o2.validity);
        assert(o1.cells =~= o2.cells);
        assert(o1 =~= o2);
    }
}

/// Commuting with cast, through binary64: for integer columns of at most
/// 32 bits — whose every value binary64 represents exactly — `between`
/// gives the same answer before and after all three inputs are cast to
/// `Float64`.
pub proof fn lemma_between_float64_cast_commutes(v: SeriesModel, l: SeriesModel, u: SeriesModel)
    requires
        wf_model(v),
        wf_model(l),
        wf_model(u),
        v.dtype.is_integer() && v.dtype.width() <= 32,
        l.dtype.is_integer() && l.dtype.width() <= 32,
        u.dtype.is_integer() && u.dtype.width() <= 32,
    ensures
        between_model(
            cast_series(v, DataType::Float64),
            cast_series(l, DataType::Float64),
            cast_series(u, DataType::Float64),
        ) == between_model(v, l, u),
{
    let ft = DataType::Float64;
    let cv = cast_series(v, ft);
    let cl = cast_series(l, ft);
    let cu = cast_series(u, ft);
    let comp = between_plan(v.dtype, l.dtype, u.dtype)->Ok_0.2;
    assert(between_plan(v.dtype, l.dtype, u.dtype) is Ok);
    assert(comp.is_integer());
    assert(between_plan(ft, ft, ft) is Ok);
    assert(between_plan(ft, ft, ft)->Ok_0.2 == ft);
    assert(between_plan(ft, ft, ft)->Ok_0.0 == DataType::Boolean);
    lemma_between_plan_fits(v.dtype, l.dtype, u.dtype);
    if !bcast_ok(v.cells.len(), l.cells.len(), u.cells.len()) {
        assert(between_model(cv, cl, cu) == Err::<SeriesModel, Error>(Error::LengthMismatch));
        assert(between_model(v, l, u) == Err::<SeriesModel, Error>(Error::LengthMismatch));
    } else {
        let o1 = between_cells(cv, cl, cu, ft);
        let o2 = between_cells(v, l, u, comp);
        assert forall|i: int| 0 <= i < o1.validity.len() implies #[trigger] o1.validity[i]
            == o2.validity[i] by {}
        assert forall|i: int| 0 <= i < o1.cells.len() implies #[trigger] o1.cells[i]
            == o2.cells[i] by {
            if between_valid_at(v, l, u, i) {
                let va = v.cells[bidx(v.cells.len(), i)];
                let la = l.cells[bidx(l.cells.len(), i)];
                let ua = u.cells[bidx(u.cells.len(), i)];
                assert(cell_ok(v, bidx(v.cells.len(), i)));
                assert(cell_ok(l, bidx(l.cells.len(), i)));
                assert(cell_ok(u, bidx(u.cells.len(), i)));
                // on the un-cast side, the kernel compares integer values
                lemma_int_cast_le(la, va, l.dtype, v.dtype, comp);
                lemma_int_cast_le(va, ua, v.dtype, u.dtype, comp);
                // and the binary64 comparisons after the common cast agree
                lemma_f64_cast_le(la, va, l.dtype, v.dtype);
                lemma_f64_cast_le(va, ua, v.dtype, u.dtype);
                assert(between_value_at(cv, cl, cu, ft, i) == between_value_at(v, l, u, comp, i));
            }
        }
        assert(o1.validity =~= o2.validity);
        assert(o1.cells =~= o2.cells);
        assert(o1 =~= o2);
    }
}

/// Commuting with cast: for integer columns of one signedness class,
/// `between` gives the same answer before and after all three inputs are
/// (losslessly) cast to a common integer type.  (Casts that pass through
/// floating point may round 64-bit integers and are excluded.)
pub proof fn lemma_between_cast_commutes(v: SeriesModel, l: SeriesModel, u: SeriesModel, t: DataType)
    requires
        wf_model(v),
        wf_model(l),
        wf_model(u),
        (v.dtype.is_signed() && l.dtype.is_signed() && u.dtype.is_signed()) || (
        v.dtype.is_unsigned() && l.dtype.is_unsigned() && u.dtype.is_unsigned()),
        t.is_integer(),
        fits(v.dtype, t),
        fits(l.dtype, t),
        fits(u.dtype, t),
    ensures
        between_model(cast_series(v, t), cast_series(l, t), cast_series(u, t)) == between_model(
            v,
            l,
            u,
        ),
{
    let cv = cast_series(v, t);
    let cl = cast_series(l, t);
    let cu = cast_series(u, t);
    let comp = between_plan(v.dtype, l.dtype, u.dtype)->Ok_0.2;
    assert(between_plan(v.dtype, l.dtype, u.dtype) is Ok);
    assert(comp.is_integer());
    assert(between_plan(t, t, t) is Ok);
    assert(between_plan(t, t, t)->Ok_0.2 == t);
    assert(between_plan(t, t, t)->Ok_0.0 == DataType::Boolean);
    lemma_between_plan_fits(v.dtype, l.dtype, u.dtype);
    if !bcast_ok(v.cells.len(), l.cells.len(), u.cells.len()) {
        assert(between_model(cv, cl, cu) == Err::<SeriesModel, Error>(Error::LengthMismatch));
        assert(between_model(v, l, u) == Err::<SeriesModel, Error>(Error::LengthMismatch));
    } else {
        let o1 = between_cells(cv, cl, cu, t);
        let o2 = between_cells(v, l, u, comp);
        assert forall|i: int| 0 <= i < o1.validity.len() implies #[trigger] o1.validity[i]
            == o2.validity[i] by {}
        assert forall|i: int| 0 <= i < o1.cells.len() implies #[trigger] o1.cells[i]
            == o2.cells[i] by {
            if between_valid_at(v, l, u, i) {
                let va = v.cells[bidx(v.cells.len(), i)];
                let la = l.cells[bidx(l.cells.len(), i)];
                let ua = u.cells[bidx(u.cells.len(), i)];
                assert(cell_ok(v, bidx(v.cells.len(), i)));
                assert(cell_ok(l, bidx(l.cells.len(), i)));
                assert(cell_ok(u, bidx(u.cells.len(), i)));
                // on the un-cast side, the kernel compares integer values
                lemma_int_cast_le(la, va, l.dtype, v.dtype, comp);
                lemma_int_cast_le(va, ua, v.dtype, u.dtype, comp);
                // and so does the comparison after the common cast
                lemma_int_cast_val(va, v.dtype, t);
                lemma_int_cast_val(la, l.dtype, t);
                lemma_int_cast_val(ua, u.dtype, t);
                lemma_int_cast_le(cast_scalar(la, t), cast_scalar(va, t), t, t, t);
                lemma_int_cast_le(cast_scalar(va, t), cast_scalar(ua, t), t, t, t);
                assert(between_value_at(cv, cl, cu, t, i) == between_value_at(v, l, u, comp, i));
            }
        }
        assert(o1.validity =~= o2.validity);
        assert(o1.cells =~= o2.cells);
        assert(o1 =~= o2);
    }
}

} // verus!
