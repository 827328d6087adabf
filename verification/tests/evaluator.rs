use lsdb_server::batch::Batch;
use lsdb_server::batch::Column;
use lsdb_server::batch::ColumnData;
use lsdb_server::error::EngineError;
use lsdb_server::eval::FloatBits;
use lsdb_server::eval::create_boolean_mask;
use lsdb_server::eval::parse_int_literal;
use lsdb_server::floatcmp::CmpOutcome;
use lsdb_server::floatcmp::cmp_f32_bits;
use lsdb_server::floatcmp::cmp_f64_bits;
use lsdb_server::params::Predicate;
use lsdb_server::request::parse_filters;

fn float_bits_for(preds: &[Predicate]) -> Vec<FloatBits> {
    preds
        .iter()
        .map(|p| FloatBits {
            as_f64: p.literal.parse::<f64>().ok().map(f64::to_bits),
            as_f32: p.literal.parse::<f32>().ok().map(f32::to_bits),
        })
        .collect()
}

fn f64_col(name: &str, cells: &[Option<f64>]) -> Column {
    Column {
        name: name.to_string(),
        data: ColumnData::Float64(cells.iter().map(|c| c.map(f64::to_bits)).collect()),
    }
}

#[test]
fn test_parse_int_literal_bounds() {
    assert_eq!(parse_int_literal("0"), Some(0));
    assert_eq!(parse_int_literal("+42"), Some(42));
    assert_eq!(parse_int_literal("-42"), Some(-42));
    assert_eq!(parse_int_literal("9223372036854775807"), Some(i64::MAX));
    assert_eq!(parse_int_literal("-9223372036854775808"), Some(i64::MIN));
    assert_eq!(parse_int_literal("9223372036854775808"), None);
    assert_eq!(parse_int_literal("-9223372036854775809"), None);
    assert_eq!(parse_int_literal("99999999999999999999999999"), None);
    assert_eq!(parse_int_literal("30.0"), None);
    assert_eq!(parse_int_literal(""), None);
    assert_eq!(parse_int_literal("-"), None);
    assert_eq!(parse_int_literal("007"), Some(7));
}

#[test]
fn test_float_cmp_agrees_with_hardware() {
    let values: [f64; 11] = [
        f64::NEG_INFINITY,
        -1.5e300,
        -30.3,
        -0.0,
        0.0,
        5e-324,
        1.0,
        30.1241,
        1.5e300,
        f64::INFINITY,
        f64::NAN,
    ];
    for &a in &values {
        for &b in &values {
            let got = cmp_f64_bits(a.to_bits(), b.to_bits());
            let want = match a.partial_cmp(&b) {
                Some(std::cmp::Ordering::Less) => CmpOutcome::Less,
                Some(std::cmp::Ordering::Equal) => CmpOutcome::Equal,
                Some(std::cmp::Ordering::Greater) => CmpOutcome::Greater,
                None => CmpOutcome::Unordered,
            };
            assert_eq!(got, want, "cmp_f64_bits({a}, {b})");
        }
    }
    let values32: [f32; 7] = [f32::NEG_INFINITY, -0.0, 0.0, 1.5, -2.25, f32::INFINITY, f32::NAN];
    for &a in &values32 {
        for &b in &values32 {
            let got = cmp_f32_bits(a.to_bits(), b.to_bits());
            let want = match a.partial_cmp(&b) {
                Some(std::cmp::Ordering::Less) => CmpOutcome::Less,
                Some(std::cmp::Ordering::Equal) => CmpOutcome::Equal,
                Some(std::cmp::Ordering::Greater) => CmpOutcome::Greater,
                None => CmpOutcome::Unordered,
            };
            assert_eq!(got, want, "cmp_f32_bits({a}, {b})");
        }
    }
}

#[test]
fn test_mask_no_predicates_is_all_true() {
    let batch = Batch { columns: vec![f64_col("RA", &[Some(1.0), Some(2.0), None])] };
    let mask = create_boolean_mask(&batch, &Vec::new(), &Vec::new()).unwrap();
    assert_eq!(mask, vec![true, true, true]);
}

#[test]
fn test_mask_range_boundaries() {
    // closed lower bound, open upper bound, per operator
    let batch = Batch {
        columns: vec![f64_col(
            "RA",
            &[Some(29.999), Some(30.0), Some(30.001), Some(39.999), Some(40.0), None],
        )],
    };
    let preds = parse_filters("RA>=30.0,RA<40.0").unwrap();
    let fbs = float_bits_for(&preds);
    let mask = create_boolean_mask(&batch, &preds, &fbs).unwrap();
    assert_eq!(mask, vec![false, true, true, true, false, false]);
}

#[test]
fn test_mask_null_never_satisfies() {
    let batch = Batch {
        columns: vec![Column {
            name: "N".to_string(),
            data: ColumnData::Int32(vec![Some(1), None, Some(0)]),
        }],
    };
    // a null cell fails even the not-equal operator
    let preds = parse_filters("N!=0").unwrap();
    let fbs = float_bits_for(&preds);
    let mask = create_boolean_mask(&batch, &preds, &fbs).unwrap();
    assert_eq!(mask, vec![true, false, false]);
}

#[test]
fn test_mask_nan_satisfies_only_not_equal() {
    let batch = Batch { columns: vec![f64_col("X", &[Some(f64::NAN), Some(1.0)])] };
    for (filter, expect_nan) in [
        ("X<1", false),
        ("X<=1", false),
        ("X>1", false),
        ("X>=1", false),
        ("X==1", false),
        ("X!=1", true),
    ] {
        let preds = parse_filters(filter).unwrap();
        let fbs = float_bits_for(&preds);
        let mask = create_boolean_mask(&batch, &preds, &fbs).unwrap();
        assert_eq!(mask[0], expect_nan, "{filter}");
    }
}

#[test]
fn test_mask_absent_column_is_all_false() {
    let batch = Batch { columns: vec![f64_col("RA", &[Some(1.0), Some(2.0)])] };
    let preds = parse_filters("GHOST>0").unwrap();
    let fbs = float_bits_for(&preds);
    let mask = create_boolean_mask(&batch, &preds, &fbs).unwrap();
    assert_eq!(mask, vec![false, false]);
}

#[test]
fn test_mask_unsupported_column_type() {
    let batch = Batch {
        columns: vec![Column {
            name: "TAG".to_string(),
            data: ColumnData::Other(vec![Some(7), Some(8)]),
        }],
    };
    let preds = parse_filters("TAG>0").unwrap();
    let fbs = float_bits_for(&preds);
    assert_eq!(
        create_boolean_mask(&batch, &preds, &fbs).unwrap_err(),
        EngineError::UnsupportedType
    );
}

#[test]
fn test_mask_literal_type_errors() {
    let batch = Batch {
        columns: vec![
            Column { name: "K".to_string(), data: ColumnData::Int8(vec![Some(1)]) },
            Column { name: "B".to_string(), data: ColumnData::Boolean(vec![Some(true)]) },
        ],
    };
    // a decimal literal does not type against an integer column
    let preds = parse_filters("K>30.5").unwrap();
    let fbs = float_bits_for(&preds);
    assert_eq!(
        create_boolean_mask(&batch, &preds, &fbs).unwrap_err(),
        EngineError::LiteralTypeError
    );
    // nor does a value outside the column's 8-bit range
    let preds = parse_filters("K>1000").unwrap();
    let fbs = float_bits_for(&preds);
    assert_eq!(
        create_boolean_mask(&batch, &preds, &fbs).unwrap_err(),
        EngineError::LiteralTypeError
    );
    // booleans compare as zero and one, and take nothing else
    let preds = parse_filters("B==1").unwrap();
    let fbs = float_bits_for(&preds);
    assert_eq!(create_boolean_mask(&batch, &preds, &fbs).unwrap(), vec![true]);
    let preds = parse_filters("B==2").unwrap();
    let fbs = float_bits_for(&preds);
    assert_eq!(
        create_boolean_mask(&batch, &preds, &fbs).unwrap_err(),
        EngineError::LiteralTypeError
    );
}

#[test]
fn test_mask_float32_column() {
    let batch = Batch {
        columns: vec![Column {
            name: "P".to_string(),
            data: ColumnData::Float32(
                vec![Some(0.25f32.to_bits()), Some(0.75f32.to_bits()), None],
            ),
        }],
    };
    let preds = parse_filters("P>0.5").unwrap();
    let fbs = float_bits_for(&preds);
    let mask = create_boolean_mask(&batch, &preds, &fbs).unwrap();
    assert_eq!(mask, vec![false, true, false]);
}

#[test]
fn test_mask_integer_widths() {
    let batch = Batch {
        columns: vec![
            Column { name: "A".to_string(), data: ColumnData::Int16(vec![Some(-5), Some(5)]) },
            Column { name: "B".to_string(), data: ColumnData::Int64(vec![Some(i64::MIN), Some(0)]) },
        ],
    };
    let preds = parse_filters("A<=0,B<0").unwrap();
    let fbs = float_bits_for(&preds);
    let mask = create_boolean_mask(&batch, &preds, &fbs).unwrap();
    assert_eq!(mask, vec![true, false]);
}
