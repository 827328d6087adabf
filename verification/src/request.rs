//! The typed, validated request built once from the raw string-keyed
//! parameters, and the resolution of the effective column selection.

use vstd::prelude::*;

use crate::error::EngineError;
use crate::params::CompareOp;
use crate::params::Predicate;
use crate::params::parse_condition;
use crate::params::spec_parse_condition;
use crate::schema::CanonicalSchema;
use crate::strutil::lookup_param;
use crate::strutil::spec_lookup;
use crate::strutil::split_commas;
use crate::strutil::split_commas_exec;
use crate::strutil::str_views;
use crate::strutil::vec_contains_str;

verus! {

/// The validated request: an explicit column selection, columns to exclude,
/// and the conjunction of filter predicates. Built once from the raw
/// parameters; immutable afterwards.
pub struct RequestParameters {
    pub selected_columns: Option<Vec<String>>,
    pub excluded_columns: Option<Vec<String>>,
    pub predicates: Vec<Predicate>,
}

/// The raw column selection of a request: the `columns` parameter, or its
/// legacy alias `cols`.
pub open spec fn spec_columns_param(ps: Seq<(String, String)>) -> Option<Seq<char>> {
    match spec_lookup(ps, "columns"@) {
        Some(v) => Some(v),
        None => spec_lookup(ps, "cols"@),
    }
}

/// The raw filter list of a request: the `filters` parameter, or its legacy
/// alias `query`.
pub open spec fn spec_filters_param(ps: Seq<(String, String)>) -> Option<Seq<char>> {
    match spec_lookup(ps, "filters"@) {
        Some(v) => Some(v),
        None => spec_lookup(ps, "query"@),
    }
}

/// The column, operator and literal of each predicate of a run.
pub open spec fn pred_views(ps: Seq<Predicate>) -> Seq<(Seq<char>, CompareOp, Seq<char>)> {
    ps.map_values(|p: Predicate| (p.column@, p.op, p.literal@))
}

/// What parsing a token list yields: every token's comparison when all of
/// them match the grammar, and nothing as soon as one does not.
pub open spec fn spec_parse_tokens(toks: Seq<Seq<char>>) -> Option<
    Seq<(Seq<char>, CompareOp, Seq<char>)>,
>
    decreases toks.len(),
{
    if toks.len() == 0 {
        Some(Seq::empty())
    } else {
        match spec_parse_condition(toks[0]) {
            Some(p) => match spec_parse_tokens(toks.skip(1)) {
                Some(rest) => Some(seq![p] + rest),
                None => None,
            },
            None => None,
        }
    }
}

/// What parsing a raw comma-separated filter parameter yields.
pub open spec fn spec_parse_filters(s: Seq<char>) -> Option<
    Seq<(Seq<char>, CompareOp, Seq<char>)>,
> {
    spec_parse_tokens(split_commas(s))
}

/// Splits the `columns` (or legacy `cols`) parameter into the selected
/// column names. Nothing is returned when the request does not select.
pub fn parse_columns_from_params_to_str(params: &Vec<(String, String)>) -> (r: Option<Vec<String>>)
    ensures
        match spec_columns_param(params@) {
            Some(s) => r matches Some(v) && v.deep_view() == split_commas(s),
            None => r is None,
        },
{
    match lookup_param(params, "columns") {
        Some(v) => Some(split_commas_exec(v.as_str())),
        None => match lookup_param(params, "cols") {
            Some(v) => Some(split_commas_exec(v.as_str())),
            None => None,
        },
    }
}

/// Parses a comma-separated filter parameter into predicates, all-or-nothing:
/// one malformed token refuses the whole list.
pub fn parse_filters(filters: &str) -> (r: Result<Vec<Predicate>, EngineError>)
    ensures
        r is Ok <==> spec_parse_filters(filters@) is Some,
        r matches Ok(ps) ==> Some(pred_views(ps@)) == spec_parse_filters(filters@),
        r matches Err(e) ==> e == EngineError::MalformedFilter,
{
    let toks = split_commas_exec(filters);
    let ghost all = split_commas(filters@);
    let mut preds: Vec<Predicate> = Vec::new();
    let mut i: usize = 0;
    proof {
        assert(all.skip(0) =~= all);
    }
    while i < toks.len()
        invariant
            0 <= i <= toks.len(),
            all == split_commas(filters@),
            toks.deep_view() == all,
            (spec_parse_tokens(all) is Some) == (spec_parse_tokens(all.skip(i as int)) is Some),
            spec_parse_tokens(all) matches Some(v) ==> v == pred_views(preds@)
                + spec_parse_tokens(all.skip(i as int)).unwrap(),
        decreases toks.len() - i,
    {
        let ghost rest = all.skip(i as int);
        proof {
            assert(rest[0] == toks.deep_view()[i as int]);
            assert(toks.deep_view()[i as int] == toks@[i as int]@);
            assert(rest.skip(1) =~= all.skip(i as int + 1));
        }
        let ghost prev = pred_views(preds@);
        match parse_condition(toks[i].as_str()) {
            Ok(p) => {
                let ghost pv = (p.column@, p.op, p.literal@);
                preds.push(p);
                proof {
                    assert(pred_views(preds@) =~~= prev.push(pv));
                    if spec_parse_tokens(rest.skip(1)) is Some {
                        let tail = spec_parse_tokens(rest.skip(1)).unwrap();
                        assert(prev.push(pv) + tail =~~= prev + (seq![pv] + tail));
                    }
                }
            },
            Err(_) => {
                proof {
                    assert(spec_parse_condition(rest[0]) is None);
                    assert(spec_parse_tokens(rest) is None);
                }
                return Err(EngineError::MalformedFilter);
            },
        }
        i = i + 1;
    }
    proof {
        assert(all.skip(toks.len() as int) =~= Seq::<Seq<char>>::empty());
        if spec_parse_tokens(all) is Some {
            assert(spec_parse_tokens(all).unwrap() =~~= pred_views(preds@));
        }
    }
    Ok(preds)
}

/// The selected column names a raw parameter list asks for, when it selects.
pub open spec fn spec_selected(ps: Seq<(String, String)>) -> Option<Seq<Seq<char>>> {
    match spec_columns_param(ps) {
        Some(s) => Some(split_commas(s)),
        None => None,
    }
}

/// The excluded column names a raw parameter list asks for, when it excludes.
pub open spec fn spec_excluded(ps: Seq<(String, String)>) -> Option<Seq<Seq<char>>> {
    match spec_lookup(ps, "exclude_cols"@) {
        Some(s) => Some(split_commas(s)),
        None => None,
    }
}

/// Whether the filters of a raw parameter list all match the grammar; a
/// request with no filter parameter trivially does.
pub open spec fn spec_filters_ok(ps: Seq<(String, String)>) -> bool {
    match spec_filters_param(ps) {
        Some(s) => spec_parse_filters(s) is Some,
        None => true,
    }
}

/// The predicates a raw parameter list asks for, when its filters parse; no
/// filter parameter means no predicates at all.
pub open spec fn spec_predicates(ps: Seq<(String, String)>) -> Seq<
    (Seq<char>, CompareOp, Seq<char>),
> {
    match spec_filters_param(ps) {
        Some(s) => match spec_parse_filters(s) {
            Some(v) => v,
            None => Seq::empty(),
        },
        None => Seq::empty(),
    }
}

/// Builds the validated request from the raw key-value parameters.
///
/// The selection comes from `columns`/`cols`, the exclusion from
/// `exclude_cols`, and the predicates from `filters`/`query`. A missing
/// filter parameter means no filtering at all; a malformed one refuses the
/// whole request.
pub fn parse_request(params: &Vec<(String, String)>) -> (r: Result<RequestParameters, EngineError>)
    ensures
        r is Ok <==> spec_filters_ok(params@),
        r matches Ok(req) ==> crate::strutil::opt_str_views(req.selected_columns) == spec_selected(
            params@,
        ),
        r matches Ok(req) ==> crate::strutil::opt_str_views(req.excluded_columns) == spec_excluded(
            params@,
        ),
        r matches Ok(req) ==> pred_views(req.predicates@) == spec_predicates(params@),
        r matches Err(e) ==> e == EngineError::MalformedFilter,
{
    let selected_columns = parse_columns_from_params_to_str(params);
    proof {
        if selected_columns is Some {
            crate::strutil::lemma_str_views_deep(&selected_columns.unwrap());
        }
    }
    let excluded_columns = match lookup_param(params, "exclude_cols") {
        Some(v) => {
            let toks = split_commas_exec(v.as_str());
            proof {
                crate::strutil::lemma_str_views_deep(&toks);
            }
            Some(toks)
        },
        None => None,
    };
    let filters_param = match lookup_param(params, "filters") {
        Some(v) => Some(v),
        None => lookup_param(params, "query"),
    };
    let predicates = match filters_param {
        Some(s) => match parse_filters(s.as_str()) {
            Ok(ps) => ps,
            Err(e) => {
                return Err(e);
            },
        },
        None => Vec::new(),
    };
    proof {
        assert(pred_views(Seq::<Predicate>::empty()) =~= Seq::<
            (Seq<char>, CompareOp, Seq<char>),
        >::empty());
    }
    Ok(RequestParameters { selected_columns, excluded_columns, predicates })
}

/// The canonical names that survive exclusion: canonical order, excluded
/// names dropped.
pub open spec fn spec_minus(names: Seq<Seq<char>>, excluded: Seq<Seq<char>>) -> Seq<Seq<char>>
    decreases names.len(),
{
    if names.len() == 0 {
        Seq::empty()
    } else {
        let rest = spec_minus(names.skip(1), excluded);
        if excluded.contains(names[0]) {
            rest
        } else {
            seq![names[0]] + rest
        }
    }
}

/// The effective column selection of a request against the canonical names:
/// an exclusion list wins over an explicit selection; with neither, every
/// canonical column is selected.
pub open spec fn spec_resolve_selection(
    names: Seq<Seq<char>>,
    selected: Option<Seq<Seq<char>>>,
    excluded: Option<Seq<Seq<char>>>,
) -> Seq<Seq<char>> {
    match excluded {
        Some(ex) => spec_minus(names, ex),
        None => match selected {
            Some(sel) => sel,
            None => names,
        },
    }
}

/// The names of the canonical columns, in canonical order.
pub open spec fn spec_canonical_names(canonical: CanonicalSchema) -> Seq<Seq<char>> {
    canonical.columns@.map_values(|c: crate::schema::ColumnSchema| c.name@)
}

/// Resolves the effective column selection of a request.
///
/// When `exclude_cols` was supplied it wins: the selection becomes the
/// canonical columns minus the excluded names, and any explicit `columns`
/// list is discarded. Otherwise the explicit list is the selection, and with
/// neither parameter every canonical column is selected.
pub fn resolve_selection(canonical: &CanonicalSchema, request: &RequestParameters) -> (r: Vec<
    String,
>)
    ensures
        str_views(r@) == spec_resolve_selection(
            spec_canonical_names(*canonical),
            crate::strutil::opt_str_views(request.selected_columns),
            crate::strutil::opt_str_views(request.excluded_columns),
        ),
{
    let ghost names = spec_canonical_names(*canonical);
    match &request.excluded_columns {
        Some(ex) => {
            let ghost exv = str_views(ex@);
            let mut out: Vec<String> = Vec::new();
            let mut i: usize = 0;
            proof {
                assert(names.skip(0) =~= names);
                assert(str_views(out@) + spec_minus(names, exv) =~= spec_minus(names, exv));
            }
            while i < canonical.columns.len()
                invariant
                    0 <= i <= canonical.columns.len(),
                    names == spec_canonical_names(*canonical),
                    exv == str_views(ex@),
                    names.len() == canonical.columns.len(),
                    spec_minus(names, exv) == str_views(out@) + spec_minus(
                        names.skip(i as int),
                        exv,
                    ),
                decreases canonical.columns.len() - i,
            {
                let ghost pre = str_views(out@);
                let ghost rest = names.skip(i as int);
                proof {
                    assert(rest[0] == names[i as int]);
                    assert(rest.skip(1) =~= names.skip(i as int + 1));
                    crate::strutil::lemma_contains_str_views(ex@, names[i as int]);
                }
                if !vec_contains_str(ex, canonical.columns[i].name.as_str()) {
                    out.push(canonical.columns[i].name.clone());
                    proof {
                        assert(str_views(out@) =~~= pre.push(names[i as int]));
                        assert(pre.push(names[i as int]) + spec_minus(
                            names.skip(i as int + 1),
                            exv,
                        ) =~~= pre + spec_minus(rest, exv));
                    }
                }
                i = i + 1;
            }
            proof {
                assert(names.skip(canonical.columns.len() as int) =~= Seq::<Seq<char>>::empty());
                assert(str_views(out@) + spec_minus(
                    names.skip(canonical.columns.len() as int),
                    exv,
                ) =~= str_views(out@));
            }
            out
        },
        None => match &request.selected_columns {
            Some(sel) => {
                let mut out: Vec<String> = Vec::new();
                let mut i: usize = 0;
                while i < sel.len()
                    invariant
                        0 <= i <= sel.len(),
                        str_views(out@) == str_views(sel@.subrange(0, i as int)),
                    decreases sel.len() - i,
                {
                    let ghost pre = str_views(out@);
                    out.push(sel[i].clone());
                    proof {
                        assert(str_views(out@) =~~= pre.push(sel@[i as int]@));
                        assert(str_views(sel@.subrange(0, i as int + 1)) =~~= str_views(
                            sel@.subrange(0, i as int),
                        ).push(sel@[i as int]@));
                    }
                    i = i + 1;
                }
                proof {
                    assert(sel@.subrange(0, sel.len() as int) =~= sel@);
                }
                out
            },
            None => {
                let mut out: Vec<String> = Vec::new();
                let mut i: usize = 0;
                while i < canonical.columns.len()
                    invariant
                        0 <= i <= canonical.columns.len(),
                        str_views(out@) == spec_canonical_names(*canonical).subrange(0, i as int),
                    decreases canonical.columns.len() - i,
                {
                    let ghost pre = str_views(out@);
                    out.push(canonical.columns[i].name.clone());
                    proof {
                        assert(str_views(out@) =~~= pre.push(
                            canonical.columns@[i as int].name@,
                        ));
                        assert(spec_canonical_names(*canonical).subrange(0, i as int + 1)
                            =~~= spec_canonical_names(*canonical).subrange(0, i as int).push(
                            canonical.columns@[i as int].name@,
                        ));
                    }
                    i = i + 1;
                }
                proof {
                    assert(spec_canonical_names(*canonical).subrange(
                        0,
                        canonical.columns.len() as int,
                    ) =~= spec_canonical_names(*canonical));
                }
                out
            },
        },
    }
}

/// An exclusion list wins unconditionally: whatever explicit selection a
/// request carries beside it, the effective selection is the canonical
/// names minus the excluded ones, and the explicit selection plays no part.
pub proof fn lemma_exclude_wins(
    names: Seq<Seq<char>>,
    selected: Option<Seq<Seq<char>>>,
    excluded: Seq<Seq<char>>,
)
    ensures
        spec_resolve_selection(names, selected, Some(excluded)) == spec_minus(names, excluded),
        spec_resolve_selection(names, selected, Some(excluded)) == spec_resolve_selection(
            names,
            None,
            Some(excluded),
        ),
{
}

} // verus!
