use daft_kernels::dtype::{DataType, Error};
use daft_kernels::scalar::Scalar;
use daft_kernels::series::Series;

fn series_of(name: &str, dtype: DataType, cells: Vec<Option<Scalar>>) -> Series {
    Series::try_new(name, dtype, cells).expect("cells must fit the element type")
}

fn int64s(name: &str, vals: &[Option<i64>]) -> Series {
    let cells = vals.iter().map(|v| v.map(Scalar::Int)).collect();
    series_of(name, DataType::Int64, cells)
}

fn f64s(name: &str, vals: &[f64]) -> Series {
    let cells = vals
        .iter()
        .map(|v| Some(Scalar::F64Bits(v.to_bits())))
        .collect();
    series_of(name, DataType::Float64, cells)
}

/// The validity/value pairs of a boolean column.
fn bools(s: &Series) -> Vec<Option<bool>> {
    assert_eq!(s.dtype, DataType::Boolean);
    s.validity
        .iter()
        .zip(s.cells.iter())
        .map(|(v, c)| {
            if *v {
                match c {
                    Scalar::Bool(b) => Some(*b),
                    other => panic!("boolean column holds {:?}", other),
                }
            } else {
                None
            }
        })
        .collect()
}

#[test]
fn test_between_all_null() {
    let value = Series::full_null("value", &DataType::Null, 2);
    let lower = Series::full_null("lower", &DataType::Int64, 2);
    let upper = Series::full_null("upper", &DataType::Int64, 2);
    let _ = value.between(&lower, &upper).unwrap();
}

#[test]
fn all_null_value_short_circuits() {
    let value = Series::full_null("value", &DataType::Null, 2);
    let lower = int64s("lower", &[Some(1), Some(2)]);
    let upper = int64s("upper", &[Some(3), Some(4)]);
    let out = value.between(&lower, &upper).unwrap();
    assert_eq!(out.name(), "value");
    assert_eq!(out.len(), 2);
    assert_eq!(bools(&out), vec![None, None]);
}

#[test]
fn basic_inclusive_range() {
    let value = int64s("value", &[Some(1), Some(2), Some(3), Some(4), Some(5)]);
    let lower = int64s("lower", &[Some(0); 5]);
    let upper = int64s("upper", &[Some(3); 5]);
    let out = value.between(&lower, &upper).unwrap();
    assert_eq!(
        bools(&out),
        vec![Some(true), Some(true), Some(true), Some(false), Some(false)]
    );
}

#[test]
fn null_rows_propagate() {
    let value = int64s("value", &[Some(1), None, Some(3)]);
    let lower = int64s("lower", &[Some(1); 3]);
    let upper = int64s("upper", &[Some(3); 3]);
    let out = value.between(&lower, &upper).unwrap();
    assert_eq!(bools(&out), vec![Some(true), None, Some(true)]);
}

#[test]
fn mixed_types_promote_to_float64() {
    let value = series_of(
        "value",
        DataType::Int32,
        vec![
            Some(Scalar::Int(1)),
            Some(Scalar::Int(2)),
            Some(Scalar::Int(3)),
        ],
    );
    let lower = f64s("lower", &[0.5, 1.5, 3.5]);
    let upper = int64s("upper", &[Some(10); 3]);
    let out = value.between(&lower, &upper).unwrap();
    assert_eq!(bools(&out), vec![Some(true), Some(true), Some(false)]);
}

#[test]
fn nan_rows_are_false_not_null() {
    let value = f64s("value", &[1.0, f64::NAN, 2.0]);
    let lower = f64s("lower", &[0.0, 0.0, 0.0]);
    let upper = f64s("upper", &[3.0, 3.0, 3.0]);
    let out = value.between(&lower, &upper).unwrap();
    assert_eq!(bools(&out), vec![Some(true), Some(false), Some(true)]);
}

#[test]
fn empty_range_is_false_not_error() {
    let value = int64s("value", &[Some(1), Some(2), Some(3)]);
    let lower = int64s("lower", &[Some(2); 3]);
    let upper = int64s("upper", &[Some(1); 3]);
    let out = value.between(&lower, &upper).unwrap();
    assert_eq!(bools(&out), vec![Some(false), Some(false), Some(false)]);
}

#[test]
fn scalar_bounds_broadcast() {
    let value = int64s("value", &[Some(1), Some(2), Some(3)]);
    let lower = int64s("lower", &[Some(2)]);
    let upper = int64s("upper", &[Some(2)]);
    let out = value.between(&lower, &upper).unwrap();
    assert_eq!(bools(&out), vec![Some(false), Some(true), Some(false)]);
}

#[test]
fn scalar_value_broadcasts_to_bound_length() {
    let value = int64s("value", &[Some(2)]);
    let lower = int64s("lower", &[Some(1), Some(3)]);
    let upper = int64s("upper", &[Some(5), Some(5)]);
    let out = value.between(&lower, &upper).unwrap();
    assert_eq!(bools(&out), vec![Some(true), Some(false)]);
}

#[test]
fn length_mismatch_is_an_error() {
    let value = int64s("value", &[Some(1), Some(2)]);
    let lower = int64s("lower", &[Some(0); 3]);
    let upper = int64s("upper", &[Some(3); 3]);
    assert_eq!(value.between(&lower, &upper), Err(Error::LengthMismatch));
}

#[test]
fn boolean_operands_are_unsupported() {
    let t = series_of("value", DataType::Boolean, vec![Some(Scalar::Bool(true))]);
    let l = series_of("lower", DataType::Boolean, vec![Some(Scalar::Bool(false))]);
    let u = series_of("upper", DataType::Boolean, vec![Some(Scalar::Bool(true))]);
    assert_eq!(
        t.between(&l, &u),
        Err(Error::UnsupportedType(DataType::Boolean))
    );
}

#[test]
fn boolean_against_numbers_is_a_type_mismatch() {
    let t = series_of("value", DataType::Boolean, vec![Some(Scalar::Bool(true))]);
    let l = int64s("lower", &[Some(0)]);
    let u = int64s("upper", &[Some(1)]);
    assert_eq!(
        t.between(&l, &u),
        Err(Error::TypeMismatch(DataType::Boolean, DataType::Int64))
    );
}

#[test]
fn negative_zero_equals_positive_zero() {
    let value = f64s("value", &[0.0]);
    let lower = f64s("lower", &[-0.0]);
    let upper = f64s("upper", &[-0.0]);
    let out = value.between(&lower, &upper).unwrap();
    assert_eq!(bools(&out), vec![Some(true)]);
}

#[test]
fn unsigned_value_against_signed_bounds() {
    let value = series_of(
        "value",
        DataType::UInt64,
        vec![Some(Scalar::UInt(u64::MAX)), Some(Scalar::UInt(7))],
    );
    let lower = int64s("lower", &[Some(0), Some(0)]);
    let upper = int64s("upper", &[Some(i64::MAX), Some(10)]);
    let out = value.between(&lower, &upper).unwrap();
    assert_eq!(bools(&out), vec![Some(false), Some(true)]);
}

#[test]
fn wide_integers_round_to_nearest_binary64() {
    let bound = (1u64 << 60) as f64;
    let value = int64s("value", &[Some((1i64 << 60) + 1)]);
    let lower = f64s("lower", &[bound]);
    let upper = f64s("upper", &[bound]);
    let out = value.between(&lower, &upper).unwrap();
    assert_eq!(bools(&out), vec![Some(true)]);
}

#[test]
fn small_int_against_float32_bounds() {
    let value = series_of("value", DataType::Int16, vec![Some(Scalar::Int(100))]);
    let lower = series_of(
        "lower",
        DataType::Float32,
        vec![Some(Scalar::F32Bits(99.5f32.to_bits()))],
    );
    let upper = series_of(
        "upper",
        DataType::Float32,
        vec![Some(Scalar::F32Bits(100.5f32.to_bits()))],
    );
    let out = value.between(&lower, &upper).unwrap();
    assert_eq!(bools(&out), vec![Some(true)]);
}

#[test]
fn repeated_calls_agree() {
    let value = int64s("value", &[Some(1), None, Some(3)]);
    let lower = int64s("lower", &[Some(1); 3]);
    let upper = int64s("upper", &[Some(3); 3]);
    let a = value.between(&lower, &upper).unwrap();
    let b = value.between(&lower, &upper).unwrap();
    assert_eq!(bools(&a), bools(&b));
    assert_eq!(a.name(), b.name());
    // and the inputs still carry what they were built with
    assert_eq!(value.cells[0], Scalar::Int(1));
    assert_eq!(value.validity[1], false);
}

#[test]
fn cast_commutes_through_binary64() {
    let value = series_of(
        "value",
        DataType::Int32,
        vec![Some(Scalar::Int(-5)), Some(Scalar::Int(3)), None],
    );
    let lower = series_of(
        "lower",
        DataType::UInt16,
        vec![Some(Scalar::UInt(0)), Some(Scalar::UInt(1)), Some(Scalar::UInt(2))],
    );
    let upper = series_of(
        "upper",
        DataType::Int8,
        vec![Some(Scalar::Int(7)), Some(Scalar::Int(7)), Some(Scalar::Int(7))],
    );
    let direct = value.between(&lower, &upper).unwrap();
    let cv = value.cast(&DataType::Float64).unwrap();
    let cl = lower.cast(&DataType::Float64).unwrap();
    let cu = upper.cast(&DataType::Float64).unwrap();
    let casted = cv.between(&cl, &cu).unwrap();
    assert_eq!(bools(&direct), vec![Some(false), Some(true), None]);
    assert_eq!(bools(&direct), bools(&casted));
}

#[test]
fn cast_commutes_through_binary32() {
    let value = series_of(
        "value",
        DataType::Int16,
        vec![Some(Scalar::Int(-30000)), Some(Scalar::Int(12))],
    );
    let lower = series_of(
        "lower",
        DataType::Int8,
        vec![Some(Scalar::Int(-100)), Some(Scalar::Int(-100))],
    );
    let upper = series_of(
        "upper",
        DataType::UInt8,
        vec![Some(Scalar::UInt(100)), Some(Scalar::UInt(100))],
    );
    let direct = value.between(&lower, &upper).unwrap();
    let cv = value.cast(&DataType::Float32).unwrap();
    let cl = lower.cast(&DataType::Float32).unwrap();
    let cu = upper.cast(&DataType::Float32).unwrap();
    let casted = cv.between(&cl, &cu).unwrap();
    assert_eq!(bools(&direct), vec![Some(false), Some(true)]);
    assert_eq!(bools(&direct), bools(&casted));
}

#[test]
fn cast_commutes_on_lossless_integer_widening() {
    let value = series_of(
        "value",
        DataType::Int16,
        vec![Some(Scalar::Int(5)), Some(Scalar::Int(-3))],
    );
    let lower = series_of(
        "lower",
        DataType::Int8,
        vec![Some(Scalar::Int(-4)), Some(Scalar::Int(-4))],
    );
    let upper = series_of(
        "upper",
        DataType::Int32,
        vec![Some(Scalar::Int(4)), Some(Scalar::Int(4))],
    );
    let direct = value.between(&lower, &upper).unwrap();
    let cv = value.cast(&DataType::Int64).unwrap();
    let cl = lower.cast(&DataType::Int64).unwrap();
    let cu = upper.cast(&DataType::Int64).unwrap();
    let casted = cv.between(&cl, &cu).unwrap();
    assert_eq!(bools(&direct), bools(&casted));
}
