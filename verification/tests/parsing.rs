use lsdb_server::error::EngineError;
use lsdb_server::params::CompareOp;
use lsdb_server::params::parse_condition;
use lsdb_server::request::parse_columns_from_params_to_str;
use lsdb_server::request::parse_filters;
use lsdb_server::request::parse_request;

fn params(kv: &[(&str, &str)]) -> Vec<(String, String)> {
    kv.iter().map(|(k, v)| (k.to_string(), v.to_string())).collect()
}

#[test]
fn parser_test_parse_condition() {
    let p = parse_condition("ra>=30.1241").unwrap();
    assert_eq!(p.column, "ra");
    assert_eq!(p.op, CompareOp::Ge);
    assert_eq!(p.literal, "30.1241");

    let p = parse_condition("dec<=-30.3").unwrap();
    assert_eq!(p.column, "dec");
    assert_eq!(p.op, CompareOp::Le);
    assert_eq!(p.literal, "-30.3");

    let p = parse_condition("dec>4").unwrap();
    assert_eq!(p.column, "dec");
    assert_eq!(p.op, CompareOp::Gt);
    assert_eq!(p.literal, "4");
}

#[test]
fn parsers_test_parse_condition() {
    let p = parse_condition("ra>=30.1241").unwrap();
    assert_eq!(p.column, "ra");
    assert_eq!(p.op, CompareOp::Ge);
    assert_eq!(p.literal, "30.1241");

    let p = parse_condition("dec<=-30.3").unwrap();
    assert_eq!(p.column, "dec");
    assert_eq!(p.op, CompareOp::Le);
    assert_eq!(p.literal, "-30.3");

    let p = parse_condition("dec>4").unwrap();
    assert_eq!(p.column, "dec");
    assert_eq!(p.op, CompareOp::Gt);
    assert_eq!(p.literal, "4");

    let p = parse_condition("dec=4").unwrap();
    assert_eq!(p.column, "dec");
    assert_eq!(p.op, CompareOp::Eq);
    assert_eq!(p.literal, "4");
}

#[test]
fn test_condition_operators() {
    assert_eq!(parse_condition("a<1").unwrap().op, CompareOp::Lt);
    assert_eq!(parse_condition("a<=1").unwrap().op, CompareOp::Le);
    assert_eq!(parse_condition("a>1").unwrap().op, CompareOp::Gt);
    assert_eq!(parse_condition("a>=1").unwrap().op, CompareOp::Ge);
    assert_eq!(parse_condition("a=1").unwrap().op, CompareOp::Eq);
    assert_eq!(parse_condition("a==1").unwrap().op, CompareOp::Eq);
    assert_eq!(parse_condition("a!=1").unwrap().op, CompareOp::Ne);
}

#[test]
fn test_condition_rejects_malformed() {
    // the malformed token of the grammar's counter-example
    assert_eq!(parse_condition("foo@@bar"), Err(EngineError::MalformedFilter));
    assert!(parse_condition("").is_err());
    assert!(parse_condition("a>").is_err());
    assert!(parse_condition(">1").is_err());
    assert!(parse_condition("a!1").is_err());
    assert!(parse_condition("a>1.5.6").is_err());
    assert!(parse_condition("a>30.").is_err());
    assert!(parse_condition("a>.5").is_err());
    assert!(parse_condition("a>-").is_err());
    assert!(parse_condition("a>1x").is_err());
    assert!(parse_condition("9a>1").is_err());
}

#[test]
fn test_condition_signs_and_underscores() {
    let p = parse_condition("_flux_r>=+3.5").unwrap();
    assert_eq!(p.column, "_flux_r");
    assert_eq!(p.op, CompareOp::Ge);
    assert_eq!(p.literal, "+3.5");

    let p = parse_condition("mag<-0.25").unwrap();
    assert_eq!(p.literal, "-0.25");
}

#[test]
fn test_parse_filters_all_or_nothing() {
    let ps = parse_filters("RA>=30.1241,DEC<=-30.3,RA>30,DEC<=30,RA==1,RA=1,RA!=0").unwrap();
    assert_eq!(ps.len(), 7);
    assert_eq!(ps[0].column, "RA");
    assert_eq!(ps[0].op, CompareOp::Ge);
    assert_eq!(ps[6].op, CompareOp::Ne);
    assert_eq!(ps[6].literal, "0");

    // one malformed token refuses the whole list
    assert_eq!(
        parse_filters("RA>=30.1241,foo@@bar,DEC<=-30.3"),
        Err(EngineError::MalformedFilter)
    );
    assert!(parse_filters("").is_err());
}

#[test]
fn test_parse_columns_from_params_to_str() {
    let p = params(&[("columns", "RA,DEC")]);
    assert_eq!(
        parse_columns_from_params_to_str(&p),
        Some(vec!["RA".to_string(), "DEC".to_string()])
    );

    // the legacy alias
    let p = params(&[("cols", "MAG")]);
    assert_eq!(parse_columns_from_params_to_str(&p), Some(vec!["MAG".to_string()]));

    let p = params(&[("filters", "RA>1")]);
    assert_eq!(parse_columns_from_params_to_str(&p), None);
}

#[test]
fn test_parse_request_aliases_and_defaults() {
    let p = params(&[("query", "ra>=30.1241")]);
    let req = parse_request(&p).unwrap();
    assert!(req.selected_columns.is_none());
    assert!(req.excluded_columns.is_none());
    assert_eq!(req.predicates.len(), 1);
    assert_eq!(req.predicates[0].column, "ra");

    // no filters parameter at all: no predicates
    let p = params(&[("columns", "RA")]);
    let req = parse_request(&p).unwrap();
    assert_eq!(req.predicates.len(), 0);

    let p = params(&[("exclude_cols", "DEC,MAG")]);
    let req = parse_request(&p).unwrap();
    assert_eq!(
        req.excluded_columns,
        Some(vec!["DEC".to_string(), "MAG".to_string()])
    );

    // a malformed filter refuses the whole request
    let p = params(&[("columns", "RA"), ("filters", "foo@@bar")]);
    assert!(matches!(parse_request(&p), Err(EngineError::MalformedFilter)));
}
