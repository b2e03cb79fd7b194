use daft_kernels::dtype::{DataType, Error};
use daft_kernels::float::{f32_le_bits, f32_to_f64, f64_le_bits, i64_to_f64, int_to_f32, u64_to_f64};
use daft_kernels::lattice::comparison_op;
use daft_kernels::scalar::Scalar;
use daft_kernels::series::Series;

#[test]
fn unsigned_to_binary64_matches_hardware() {
    let samples: [u64; 16] = [
        0,
        1,
        2,
        3,
        42,
        (1 << 52) - 1,
        1 << 52,
        (1 << 53) - 1,
        (1 << 53) + 1,
        (1 << 53) + 3,
        (1 << 60) + 1,
        u64::MAX,
        u64::MAX - 1,
        0x8000_0000_0000_0001,
        0xFFFF_FFFF_0000_0001,
        12_345_678_901_234_567,
    ];
    for &x in samples.iter() {
        assert_eq!(u64_to_f64(x), (x as f64).to_bits(), "x = {}", x);
    }
}

#[test]
fn signed_to_binary64_matches_hardware() {
    let samples: [i64; 12] = [
        0,
        1,
        -1,
        i64::MAX,
        i64::MIN,
        i64::MIN + 1,
        -(1 << 53) - 1,
        (1 << 53) + 1,
        -42,
        -(1 << 60) - 7,
        987_654_321,
        -987_654_321_987,
    ];
    for &x in samples.iter() {
        assert_eq!(i64_to_f64(x), (x as f64).to_bits(), "x = {}", x);
    }
}

#[test]
fn binary32_widening_matches_hardware() {
    let samples: [u32; 12] = [
        0,
        0x8000_0000,          // -0.0
        1,                    // smallest subnormal
        0x007F_FFFF,          // largest subnormal
        0x8000_0001,          // negative subnormal
        0x0080_0000,          // smallest normal
        0x3F80_0000,          // 1.0
        0xBF80_0000,          // -1.0
        0x7F7F_FFFF,          // largest finite
        0x7F80_0000,          // +inf
        0xFF80_0000,          // -inf
        0x7FC0_0000,          // quiet NaN
    ];
    for &b in samples.iter() {
        assert_eq!(
            f32_to_f64(b),
            (f32::from_bits(b) as f64).to_bits(),
            "b = {:#x}",
            b
        );
    }
}

#[test]
fn small_int_to_binary32_matches_hardware() {
    let samples: [i64; 11] = [0, 1, -1, 2, 100, -100, 255, -256, 32767, -32768, 65536];
    for &v in samples.iter() {
        assert_eq!(int_to_f32(v), (v as f32).to_bits(), "v = {}", v);
    }
}

#[test]
fn binary64_ordered_compare_matches_hardware() {
    let samples: [f64; 12] = [
        0.0,
        -0.0,
        1.0,
        -1.0,
        1.5,
        f64::MIN_POSITIVE,
        -f64::MIN_POSITIVE,
        f64::INFINITY,
        f64::NEG_INFINITY,
        f64::NAN,
        f64::MAX,
        5e-324,
    ];
    for &a in samples.iter() {
        for &b in samples.iter() {
            assert_eq!(
                f64_le_bits(a.to_bits(), b.to_bits()),
                a <= b,
                "a = {}, b = {}",
                a,
                b
            );
        }
    }
}

#[test]
fn binary32_ordered_compare_matches_hardware() {
    let samples: [f32; 10] = [
        0.0,
        -0.0,
        1.0,
        -1.0,
        f32::MIN_POSITIVE,
        f32::INFINITY,
        f32::NEG_INFINITY,
        f32::NAN,
        f32::MAX,
        1e-45,
    ];
    for &a in samples.iter() {
        for &b in samples.iter() {
            assert_eq!(
                f32_le_bits(a.to_bits(), b.to_bits()),
                a <= b,
                "a = {}, b = {}",
                a,
                b
            );
        }
    }
}

#[test]
fn lattice_unifies_null_host_and_numbers() {
    assert_eq!(
        comparison_op(&DataType::Null, &DataType::Int64),
        Ok((DataType::Boolean, None, DataType::Null))
    );
    assert_eq!(
        comparison_op(&DataType::HostObject, &DataType::Float32),
        Ok((DataType::Boolean, None, DataType::HostObject))
    );
    assert_eq!(
        comparison_op(&DataType::Null, &DataType::HostObject),
        Ok((DataType::Boolean, None, DataType::Null))
    );
    assert_eq!(
        comparison_op(&DataType::Int32, &DataType::Float64),
        Ok((DataType::Boolean, None, DataType::Float64))
    );
    assert_eq!(
        comparison_op(&DataType::Int16, &DataType::Float32),
        Ok((DataType::Boolean, None, DataType::Float32))
    );
    assert_eq!(
        comparison_op(&DataType::Int32, &DataType::Float32),
        Ok((DataType::Boolean, None, DataType::Float64))
    );
    assert_eq!(
        comparison_op(&DataType::Int8, &DataType::UInt8),
        Ok((DataType::Boolean, None, DataType::Int16))
    );
    assert_eq!(
        comparison_op(&DataType::Int64, &DataType::UInt32),
        Ok((DataType::Boolean, None, DataType::Int64))
    );
    assert_eq!(
        comparison_op(&DataType::Int64, &DataType::UInt64),
        Ok((DataType::Boolean, None, DataType::Float64))
    );
    assert_eq!(
        comparison_op(&DataType::UInt8, &DataType::UInt32),
        Ok((DataType::Boolean, None, DataType::UInt32))
    );
    assert_eq!(
        comparison_op(&DataType::Boolean, &DataType::Boolean),
        Ok((DataType::Boolean, None, DataType::Boolean))
    );
    assert_eq!(
        comparison_op(&DataType::Boolean, &DataType::Int8),
        Err(Error::TypeMismatch(DataType::Boolean, DataType::Int8))
    );
    assert_eq!(
        comparison_op(&DataType::Composite, &DataType::Composite),
        Err(Error::TypeMismatch(DataType::Composite, DataType::Composite))
    );
}

#[test]
fn cast_converts_values_and_keeps_nulls() {
    let s = Series::try_new(
        "xs",
        DataType::Int32,
        vec![Some(Scalar::Int(-7)), None, Some(Scalar::Int(1000))],
    )
    .unwrap();
    let c = s.cast(&DataType::Float64).unwrap();
    assert_eq!(c.name(), "xs");
    assert_eq!(c.dtype, DataType::Float64);
    assert_eq!(c.cells[0], Scalar::F64Bits((-7.0f64).to_bits()));
    assert_eq!(c.validity[1], false);
    assert_eq!(c.cells[1], Scalar::Absent);
    assert_eq!(c.cells[2], Scalar::F64Bits((1000.0f64).to_bits()));
}

#[test]
fn undefined_casts_are_errors() {
    let s = Series::try_new("xs", DataType::Int64, vec![Some(Scalar::Int(1))]).unwrap();
    assert!(matches!(
        s.cast(&DataType::Int8),
        Err(Error::CastError(DataType::Int64, DataType::Int8))
    ));
    assert!(matches!(
        s.cast(&DataType::Float32),
        Err(Error::CastError(DataType::Int64, DataType::Float32))
    ));
    let n = Series::full_null("ns", &DataType::Null, 1);
    assert!(matches!(
        n.cast(&DataType::Int64),
        Err(Error::CastError(DataType::Null, DataType::Int64))
    ));
}

#[test]
fn ill_typed_cells_are_rejected() {
    assert!(Series::try_new("xs", DataType::Int8, vec![Some(Scalar::Int(200))]).is_none());
    assert!(Series::try_new("xs", DataType::UInt8, vec![Some(Scalar::Int(2))]).is_none());
    assert!(Series::try_new("xs", DataType::HostObject, vec![None]).is_none());
    assert!(Series::try_new("xs", DataType::Int8, vec![Some(Scalar::Int(-128))]).is_some());
}
