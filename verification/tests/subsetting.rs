use lsdb_server::batch::Batch;
use lsdb_server::batch::Column;
use lsdb_server::batch::ColumnData;
use lsdb_server::error::EngineError;
use lsdb_server::eval::FloatBits;
use lsdb_server::params::Predicate;
use lsdb_server::pipeline::plan_request;
use lsdb_server::pipeline::process_batch;
use lsdb_server::pipeline::process_batches;
use lsdb_server::schema::ColumnSchema;
use lsdb_server::schema::ColumnType;

fn params(kv: &[(&str, &str)]) -> Vec<(String, String)> {
    kv.iter().map(|(k, v)| (k.to_string(), v.to_string())).collect()
}

fn float_bits_for(preds: &[Predicate]) -> Vec<FloatBits> {
    preds
        .iter()
        .map(|p| FloatBits {
            as_f64: p.literal.parse::<f64>().ok().map(f64::to_bits),
            as_f32: p.literal.parse::<f32>().ok().map(f32::to_bits),
        })
        .collect()
}

fn f64_col(name: &str, cells: &[Option<f64>]) -> Column {
    Column {
        name: name.to_string(),
        data: ColumnData::Float64(cells.iter().map(|c| c.map(f64::to_bits)).collect()),
    }
}

fn f64_cells(col: &Column) -> Vec<Option<f64>> {
    match &col.data {
        ColumnData::Float64(v) => v.iter().map(|c| c.map(f64::from_bits)).collect(),
        other => panic!("expected a 64-bit float column, got {:?}", other.dtype()),
    }
}

fn sky_schema() -> Vec<ColumnSchema> {
    vec![
        ColumnSchema::new("RA".to_string(), ColumnType::Float64),
        ColumnSchema::new("DEC".to_string(), ColumnType::Float64),
        ColumnSchema::new("MAG".to_string(), ColumnType::Float64),
    ]
}

fn sky_batch(rows: usize) -> Batch {
    // a deterministic spread of positions and magnitudes
    let ra: Vec<Option<f64>> = (0..rows).map(|i| Some((i as f64) * 60.0 / (rows as f64))).collect();
    let dec: Vec<Option<f64>> =
        (0..rows).map(|i| Some(-30.0 + (i as f64) * 40.0 / (rows as f64))).collect();
    let mag: Vec<Option<f64>> = (0..rows).map(|i| Some(10.0 + (i % 17) as f64 * 0.5)).collect();
    Batch {
        columns: vec![f64_col("RA", &ra), f64_col("DEC", &dec), f64_col("MAG", &mag)],
    }
}

#[test]
fn test_scenario_select_and_filter() {
    // three 64-bit float columns, a selection of two, and a two-sided filter
    let rows = 1000;
    let source = sky_schema();
    let metadata = vec![("pipeline".to_string(), "v1".to_string())];
    let p = params(&[("columns", "RA,DEC"), ("filters", "RA>=30.0,DEC<=-10.0")]);
    let plan = plan_request(&source, &metadata, &p).unwrap();

    let batch = sky_batch(rows);
    let ra_in = f64_cells(&batch.columns[0]);
    let dec_in = f64_cells(&batch.columns[1]);
    let out = process_batch(&plan.canonical, &plan.selection, &plan.predicates, &float_bits_for(
        &plan.predicates,
    ), &batch)
        .unwrap();

    // canonical shape: all three columns, in source order, despite the selection
    assert_eq!(out.columns.len(), 3);
    assert_eq!(out.columns[0].name, "RA");
    assert_eq!(out.columns[1].name, "DEC");
    assert_eq!(out.columns[2].name, "MAG");

    // exactly the rows satisfying both predicates survive, in order
    let expected: Vec<(f64, f64)> = ra_in
        .iter()
        .zip(dec_in.iter())
        .filter_map(|(r, d)| {
            let (r, d) = (r.unwrap(), d.unwrap());
            if r >= 30.0 && d <= -10.0 { Some((r, d)) } else { None }
        })
        .collect();
    assert!(!expected.is_empty());
    let ra_out = f64_cells(&out.columns[0]);
    let dec_out = f64_cells(&out.columns[1]);
    assert_eq!(ra_out.len(), expected.len());
    for (i, (r, d)) in expected.iter().enumerate() {
        assert_eq!(ra_out[i], Some(*r));
        assert_eq!(dec_out[i], Some(*d));
    }

    // the unselected column keeps its place but carries only nulls
    let mag_out = f64_cells(&out.columns[2]);
    assert_eq!(mag_out.len(), expected.len());
    assert!(mag_out.iter().all(|c| c.is_none()));
}

#[test]
fn test_no_parameters_round_trip() {
    // no selection and no filters: the output repeats the source, value for value
    let source = sky_schema();
    let metadata = Vec::new();
    let plan = plan_request(&source, &metadata, &Vec::new()).unwrap();
    assert_eq!(plan.predicates.len(), 0);

    let batch = sky_batch(64);
    let out = process_batch(&plan.canonical, &plan.selection, &plan.predicates, &Vec::new(), &batch)
        .unwrap();
    assert_eq!(out.columns.len(), batch.columns.len());
    for (a, b) in out.columns.iter().zip(batch.columns.iter()) {
        assert_eq!(a.name, b.name);
        assert_eq!(f64_cells(a), f64_cells(b));
    }
}

#[test]
fn test_exclude_wins_over_columns() {
    // with both `columns` and `exclude_cols`, the exclusion decides alone
    let source = sky_schema();
    let p = params(&[("columns", "RA,DEC"), ("exclude_cols", "DEC")]);
    let plan = plan_request(&source, &Vec::new(), &p).unwrap();
    assert_eq!(plan.selection, vec!["RA".to_string(), "MAG".to_string()]);

    let batch = sky_batch(8);
    let out = process_batch(&plan.canonical, &plan.selection, &plan.predicates, &Vec::new(), &batch)
        .unwrap();
    assert_eq!(out.columns.len(), 3);
    assert!(f64_cells(&out.columns[0]).iter().all(|c| c.is_some()));
    assert!(f64_cells(&out.columns[1]).iter().all(|c| c.is_none()));
    assert!(f64_cells(&out.columns[2]).iter().all(|c| c.is_some()));
}

#[test]
fn test_malformed_filter_yields_no_output() {
    // the whole request fails before any batch is processed
    let source = sky_schema();
    let p = params(&[("filters", "foo@@bar")]);
    assert!(matches!(
        plan_request(&source, &Vec::new(), &p),
        Err(EngineError::MalformedFilter)
    ));
}

#[test]
fn test_failing_batch_discards_output() {
    // an error in any batch aborts the run: no partial output survives
    let source = vec![ColumnSchema::new("K".to_string(), ColumnType::Int32)];
    let p = params(&[("filters", "K>=2.5")]);
    let plan = plan_request(&source, &Vec::new(), &p).unwrap();
    let batches = vec![
        Batch {
            columns: vec![Column {
                name: "K".to_string(),
                data: ColumnData::Int32(vec![Some(1), Some(2)]),
            }],
        },
    ];
    let r = process_batches(&plan.canonical, &plan.selection, &plan.predicates, &float_bits_for(
        &plan.predicates,
    ), &batches);
    assert!(matches!(r, Err(EngineError::LiteralTypeError)));
}

#[test]
fn test_metadata_passes_through() {
    let source = sky_schema();
    let metadata = vec![
        ("hips_order".to_string(), "5".to_string()),
        ("provenance".to_string(), "survey dr3".to_string()),
    ];
    let plan = plan_request(&source, &metadata, &Vec::new()).unwrap();
    assert_eq!(plan.canonical.metadata, metadata);
}

#[test]
fn test_system_index_dropped_unless_requested() {
    let mut source = sky_schema();
    source.push(ColumnSchema::new("_hipscat_index".to_string(), ColumnType::Other));

    // by default the index column leaves the canonical schema entirely
    let plan = plan_request(&source, &Vec::new(), &params(&[("columns", "RA")])).unwrap();
    let names: Vec<&str> = plan.canonical.columns.iter().map(|c| c.name.as_str()).collect();
    assert_eq!(names, vec!["RA", "DEC", "MAG"]);

    // named in the selection, it stays and passes through verbatim
    let plan =
        plan_request(&source, &Vec::new(), &params(&[("columns", "RA,_hipscat_index")])).unwrap();
    let names: Vec<&str> = plan.canonical.columns.iter().map(|c| c.name.as_str()).collect();
    assert_eq!(names, vec!["RA", "DEC", "MAG", "_hipscat_index"]);

    let mut batch = sky_batch(4);
    batch.columns.push(Column {
        name: "_hipscat_index".to_string(),
        data: ColumnData::Other(vec![Some(10), Some(11), Some(12), Some(13)]),
    });
    let out = process_batch(&plan.canonical, &plan.selection, &plan.predicates, &Vec::new(), &batch)
        .unwrap();
    assert_eq!(out.columns.len(), 4);
    match &out.columns[3].data {
        ColumnData::Other(v) => assert_eq!(v, &vec![Some(10), Some(11), Some(12), Some(13)]),
        _ => panic!("index column should keep its type"),
    }
    // DEC was not selected, so it carries nulls; RA was, so it survives
    assert!(f64_cells(&out.columns[0]).iter().all(|c| c.is_some()));
    assert!(f64_cells(&out.columns[1]).iter().all(|c| c.is_none()));
}

#[test]
fn test_reconcile_synthesizes_missing_column() {
    // a batch missing a canonical column gets it back as nulls of the right type
    let source = sky_schema();
    let plan = plan_request(&source, &Vec::new(), &Vec::new()).unwrap();
    let batch = Batch { columns: vec![f64_col("RA", &[Some(1.0), Some(2.0)])] };
    let out = process_batch(&plan.canonical, &plan.selection, &plan.predicates, &Vec::new(), &batch)
        .unwrap();
    assert_eq!(out.columns.len(), 3);
    assert_eq!(out.columns[1].name, "DEC");
    assert_eq!(f64_cells(&out.columns[1]), vec![None, None]);
    assert_eq!(f64_cells(&out.columns[0]), vec![Some(1.0), Some(2.0)]);
}

#[test]
fn test_filter_on_missing_column_keeps_nothing() {
    // the reconciled column is all nulls, and nulls satisfy no predicate
    let source = sky_schema();
    let p = params(&[("filters", "MAG<99")]);
    let plan = plan_request(&source, &Vec::new(), &p).unwrap();
    let batch = Batch { columns: vec![f64_col("RA", &[Some(1.0), Some(2.0)])] };
    let out = process_batch(&plan.canonical, &plan.selection, &plan.predicates, &float_bits_for(
        &plan.predicates,
    ), &batch)
        .unwrap();
    assert_eq!(f64_cells(&out.columns[0]), Vec::<Option<f64>>::new());
}
