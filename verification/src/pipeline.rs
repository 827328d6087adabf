//! The batch-wise pipeline: reconcile each batch to the canonical shape,
//! drop the rows the mask refuses, null the unselected columns, and hand the
//! batch back for writing — the whole file streaming through one batch at a
//! time.

use vstd::prelude::*;

use crate::batch::Batch;
use crate::batch::CellsView;
use crate::batch::Column;
use crate::batch::ColumnData;
use crate::batch::column_views;
use crate::batch::copy_column_data;
use crate::batch::find_column;
use crate::batch::null_column;
use crate::batch::spec_null_cells;
use crate::error::EngineError;
use crate::eval::FloatBits;
use crate::eval::create_boolean_mask;
use crate::eval::lemma_eval_mask_len;
use crate::eval::spec_eval_mask;
use crate::eval::spec_find_cells;
use crate::params::Predicate;
use crate::request::parse_request;
use crate::request::pred_views;
use crate::request::resolve_selection;
use crate::request::spec_canonical_names;
use crate::request::spec_excluded;
use crate::request::spec_filters_ok;
use crate::request::spec_predicates;
use crate::request::spec_resolve_selection;
use crate::request::spec_selected;
use crate::schema::CanonicalSchema;
use crate::schema::ColumnSchema;
use crate::schema::ColumnType;
use crate::schema::col_views;
use crate::schema::derive_canonical_schema;
use crate::schema::spec_canonical_columns;
use crate::schema::spec_index_requested;
use crate::schema::system_index_name;
use crate::strutil::lemma_contains_str_views;
use crate::strutil::str_views;
use crate::strutil::vec_contains_str;

verus! {

/// The cells that survive a mask, in row order.
pub open spec fn filter_seq<T>(s: Seq<T>, m: Seq<bool>) -> Seq<T>
    recommends
        s.len() == m.len(),
    decreases s.len(),
{
    if s.len() == 0 || m.len() == 0 {
        Seq::empty()
    } else {
        let rest = filter_seq(s.drop_last(), m.drop_last());
        if m.last() {
            rest.push(s.last())
        } else {
            rest
        }
    }
}

/// The rows a mask retains, in row order.
pub open spec fn selected_rows(m: Seq<bool>) -> Seq<int>
    decreases m.len(),
{
    if m.len() == 0 {
        Seq::empty()
    } else {
        let rest = selected_rows(m.drop_last());
        if m.last() {
            rest.push(m.len() - 1)
        } else {
            rest
        }
    }
}

/// Filtering picks whole rows: element `j` of the filtered run is the cell
/// at the `j`-th retained row, and every retained row passed the mask. Row
/// compaction therefore keeps relative row order and tears no row apart.
pub proof fn lemma_filter_seq_rows<T>(s: Seq<T>, m: Seq<bool>)
    requires
        s.len() == m.len(),
    ensures
        filter_seq(s, m) == selected_rows(m).map_values(|i: int| s[i]),
        forall|j: int|
            0 <= j < selected_rows(m).len() ==> 0 <= #[trigger] selected_rows(m)[j] < m.len()
                && m[selected_rows(m)[j]],
    decreases s.len(),
{
    if s.len() == 0 {
        assert(filter_seq(s, m) =~= selected_rows(m).map_values(|i: int| s[i]));
    } else {
        lemma_filter_seq_rows(s.drop_last(), m.drop_last());
        let r0 = selected_rows(m.drop_last());
        assert(r0.map_values(|i: int| s.drop_last()[i]) =~= r0.map_values(|i: int| s[i]));
        if m.last() {
            assert(selected_rows(m) == r0.push(m.len() - 1));
            assert(filter_seq(s, m) =~= selected_rows(m).map_values(|i: int| s[i]));
        } else {
            assert(filter_seq(s, m) =~= selected_rows(m).map_values(|i: int| s[i]));
        }
    }
}

/// One column's cells filtered by a mask, whatever the column's type.
pub open spec fn filter_cells(cv: CellsView, m: Seq<bool>) -> CellsView {
    match cv {
        CellsView::Int8(v) => CellsView::Int8(filter_seq(v, m)),
        CellsView::Int16(v) => CellsView::Int16(filter_seq(v, m)),
        CellsView::Int32(v) => CellsView::Int32(filter_seq(v, m)),
        CellsView::Int64(v) => CellsView::Int64(filter_seq(v, m)),
        CellsView::Float32(v) => CellsView::Float32(filter_seq(v, m)),
        CellsView::Float64(v) => CellsView::Float64(filter_seq(v, m)),
        CellsView::Boolean(v) => CellsView::Boolean(filter_seq(v, m)),
        CellsView::Other(v) => CellsView::Other(filter_seq(v, m)),
    }
}

/// Filtering keeps a column's type and gives every column the same new
/// length: one cell per retained row.
pub proof fn lemma_filter_cells_shape(cv: CellsView, m: Seq<bool>)
    requires
        cv.len() == m.len(),
    ensures
        filter_cells(cv, m).dtype() == cv.dtype(),
        filter_cells(cv, m).len() == selected_rows(m).len(),
{
    match cv {
        CellsView::Int8(v) => lemma_filter_seq_rows(v, m),
        CellsView::Int16(v) => lemma_filter_seq_rows(v, m),
        CellsView::Int32(v) => lemma_filter_seq_rows(v, m),
        CellsView::Int64(v) => lemma_filter_seq_rows(v, m),
        CellsView::Float32(v) => lemma_filter_seq_rows(v, m),
        CellsView::Float64(v) => lemma_filter_seq_rows(v, m),
        CellsView::Boolean(v) => lemma_filter_seq_rows(v, m),
        CellsView::Other(v) => lemma_filter_seq_rows(v, m),
    }
}

/// The cells that survive a mask, as an executable pass.
fn filter_cells_vec<T: Copy>(v: &Vec<Option<T>>, mask: &Vec<bool>) -> (r: Vec<Option<T>>)
    requires
        v@.len() == mask@.len(),
    ensures
        r@ == filter_seq(v@, mask@),
{
    let mut out: Vec<Option<T>> = Vec::new();
    let mut i: usize = 0;
    proof {
        assert(out@ =~= filter_seq(v@.subrange(0, 0), mask@.subrange(0, 0)));
    }
    while i < v.len()
        invariant
            0 <= i <= v@.len(),
            v@.len() == mask@.len(),
            out@ == filter_seq(v@.subrange(0, i as int), mask@.subrange(0, i as int)),
        decreases v.len() - i,
    {
        proof {
            assert(v@.subrange(0, i as int + 1).drop_last() =~= v@.subrange(0, i as int));
            assert(mask@.subrange(0, i as int + 1).drop_last() =~= mask@.subrange(0, i as int));
            assert(v@.subrange(0, i as int + 1).last() == v@[i as int]);
            assert(mask@.subrange(0, i as int + 1).last() == mask@[i as int]);
        }
        if mask[i] {
            out.push(v[i]);
        }
        i = i + 1;
    }
    proof {
        assert(v@.subrange(0, v@.len() as int) =~= v@);
        assert(mask@.subrange(0, mask@.len() as int) =~= mask@);
    }
    out
}

/// One column filtered by a mask.
fn filter_column_data(c: &ColumnData, mask: &Vec<bool>) -> (r: ColumnData)
    requires
        c@.len() == mask@.len(),
    ensures
        r@ == filter_cells(c@, mask@),
{
    match c {
        ColumnData::Int8(v) => ColumnData::Int8(filter_cells_vec(v, mask)),
        ColumnData::Int16(v) => ColumnData::Int16(filter_cells_vec(v, mask)),
        ColumnData::Int32(v) => ColumnData::Int32(filter_cells_vec(v, mask)),
        ColumnData::Int64(v) => ColumnData::Int64(filter_cells_vec(v, mask)),
        ColumnData::Float32(v) => ColumnData::Float32(filter_cells_vec(v, mask)),
        ColumnData::Float64(v) => ColumnData::Float64(filter_cells_vec(v, mask)),
        ColumnData::Boolean(v) => ColumnData::Boolean(filter_cells_vec(v, mask)),
        ColumnData::Other(v) => ColumnData::Other(filter_cells_vec(v, mask)),
    }
}

/// A batch with only the rows the mask retains, column for column.
pub open spec fn spec_compact(views: Seq<(Seq<char>, CellsView)>, m: Seq<bool>) -> Seq<
    (Seq<char>, CellsView),
> {
    Seq::new(views.len(), |i: int| (views[i].0, filter_cells(views[i].1, m)))
}

/// Retains only the rows where the mask is true, preserving relative row
/// order; names, types and column order stay untouched.
pub fn compact_batch(batch: &Batch, mask: &Vec<bool>) -> (r: Batch)
    requires
        batch.wf(),
        mask@.len() == batch.spec_row_count(),
    ensures
        column_views(r.columns@) == spec_compact(column_views(batch.columns@), mask@),
        r.wf(),
        r.columns@.len() == batch.columns@.len(),
        batch.columns@.len() > 0 ==> r.spec_row_count() == selected_rows(mask@).len(),
{
    let ghost target = spec_compact(column_views(batch.columns@), mask@);
    let mut out: Vec<Column> = Vec::new();
    let mut i: usize = 0;
    while i < batch.columns.len()
        invariant
            0 <= i <= batch.columns@.len(),
            batch.wf(),
            mask@.len() == batch.spec_row_count(),
            target == spec_compact(column_views(batch.columns@), mask@),
            out@.len() == i,
            forall|j: int| 0 <= j < i ==> (#[trigger] out@[j])@ == target[j],
            forall|j: int|
                0 <= j < i ==> (#[trigger] out@[j]).data@.len() == selected_rows(mask@).len(),
        decreases batch.columns.len() - i,
    {
        let data = filter_column_data(&batch.columns[i].data, mask);
        proof {
            lemma_filter_cells_shape(batch.columns@[i as int].data@, mask@);
        }
        let col = Column { name: batch.columns[i].name.clone(), data };
        out.push(col);
        i = i + 1;
    }
    let r = Batch { columns: out };
    proof {
        assert(column_views(r.columns@) =~= target);
        if batch.columns@.len() > 0 {
            assert(r.columns@[0].data@.len() == selected_rows(mask@).len());
        }
    }
    r
}

/// A batch brought to the canonical shape: for each canonical column, the
/// batch's own column where the name and type agree, an all-null column of
/// the declared type otherwise.
pub open spec fn spec_reconcile(
    views: Seq<(Seq<char>, CellsView)>,
    canon: Seq<ColumnSchema>,
    rows: nat,
) -> Seq<(Seq<char>, CellsView)> {
    Seq::new(
        canon.len(),
        |i: int|
            (
                canon[i].name@,
                match spec_find_cells(views, canon[i].name@) {
                    Some(cells) => if cells.dtype() == canon[i].dtype {
                        cells
                    } else {
                        spec_null_cells(canon[i].dtype, rows)
                    },
                    None => spec_null_cells(canon[i].dtype, rows),
                },
            ),
    )
}

/// Reconciles a batch to the canonical schema: every canonical column, in
/// canonical order, reusing the batch's column where present by name and
/// type and synthesizing an all-null column otherwise. Cannot fail.
pub fn reconcile_batch(batch: &Batch, canonical: &CanonicalSchema) -> (r: Batch)
    requires
        batch.wf(),
    ensures
        column_views(r.columns@) == spec_reconcile(
            column_views(batch.columns@),
            canonical.columns@,
            batch.spec_row_count(),
        ),
        r.wf(),
        r.matches_schema(*canonical),
        r.columns@.len() == canonical.columns@.len(),
        canonical.columns@.len() == 0 ==> r.spec_row_count() == 0,
        canonical.columns@.len() > 0 ==> r.spec_row_count() == batch.spec_row_count(),
{
    let rows = batch.num_rows();
    let ghost target = spec_reconcile(
        column_views(batch.columns@),
        canonical.columns@,
        batch.spec_row_count(),
    );
    let mut out: Vec<Column> = Vec::new();
    let mut i: usize = 0;
    while i < canonical.columns.len()
        invariant
            0 <= i <= canonical.columns@.len(),
            batch.wf(),
            rows == batch.spec_row_count(),
            target == spec_reconcile(
                column_views(batch.columns@),
                canonical.columns@,
                batch.spec_row_count(),
            ),
            out@.len() == i,
            forall|j: int| 0 <= j < i ==> (#[trigger] out@[j])@ == target[j],
            forall|j: int| 0 <= j < i ==> (#[trigger] out@[j]).data@.len() == rows,
        decreases canonical.columns.len() - i,
    {
        let entry = &canonical.columns[i];
        proof {
            crate::eval::lemma_find_cells_bridge(batch.columns@, entry.name@);
        }
        let data = match find_column(&batch.columns, entry.name.as_str()) {
            Some(c) => {
                proof {
                    crate::batch::lemma_find_column_some(batch.columns@, entry.name@);
                    let w = choose|w: int|
                        0 <= w < batch.columns@.len() && #[trigger] batch.columns@[w] == *c;
                    assert(batch.columns@[w].data@.len() == rows);
                }
                if c.data.dtype() == entry.dtype {
                    copy_column_data(&c.data)
                } else {
                    null_column(entry.dtype, rows)
                }
            },
            None => null_column(entry.dtype, rows),
        };
        let col = Column { name: entry.name.clone(), data };
        out.push(col);
        i = i + 1;
    }
    let r = Batch { columns: out };
    proof {
        assert(column_views(r.columns@) =~= target);
        if canonical.columns@.len() > 0 {
            assert(r.columns@[0].data@.len() == rows);
        }
    }
    r
}

/// A batch with the unselected columns emptied: the full canonical column
/// set stays, but a column neither selected nor the system index carries
/// nulls of its own type and length.
pub open spec fn spec_project(
    views: Seq<(Seq<char>, CellsView)>,
    selection: Seq<Seq<char>>,
) -> Seq<(Seq<char>, CellsView)> {
    Seq::new(
        views.len(),
        |i: int|
            (
                views[i].0,
                if views[i].0 == system_index_name() || selection.contains(views[i].0) {
                    views[i].1
                } else {
                    spec_null_cells(views[i].1.dtype(), views[i].1.len())
                },
            ),
    )
}

/// Projects the effective selection: every canonical column keeps its place,
/// name and type, but one that is neither selected nor the system index is
/// replaced by nulls of the same length. The system index column, when the
/// canonical schema kept it, passes through verbatim whatever the selection.
pub fn project_batch(batch: &Batch, selection: &Vec<String>) -> (r: Batch)
    ensures
        column_views(r.columns@) == spec_project(
            column_views(batch.columns@),
            str_views(selection@),
        ),
        batch.wf() ==> r.wf(),
        r.columns@.len() == batch.columns@.len(),
        r.spec_row_count() == batch.spec_row_count(),
{
    let ghost target = spec_project(column_views(batch.columns@), str_views(selection@));
    let mut out: Vec<Column> = Vec::new();
    let mut i: usize = 0;
    while i < batch.columns.len()
        invariant
            0 <= i <= batch.columns@.len(),
            target == spec_project(column_views(batch.columns@), str_views(selection@)),
            out@.len() == i,
            forall|j: int| 0 <= j < i ==> (#[trigger] out@[j])@ == target[j],
            forall|j: int|
                0 <= j < i ==> (#[trigger] out@[j]).data@.len() == batch.columns@[j].data@.len(),
        decreases batch.columns.len() - i,
    {
        let col = &batch.columns[i];
        let keep = crate::schema::is_system_index(col.name.as_str()) || vec_contains_str(
            selection,
            col.name.as_str(),
        );
        proof {
            lemma_contains_str_views(selection@, col.name@);
        }
        let data = if keep {
            copy_column_data(&col.data)
        } else {
            null_column(col.data.dtype(), col.data.len())
        };
        out.push(Column { name: col.name.clone(), data });
        i = i + 1;
    }
    let r = Batch { columns: out };
    proof {
        assert(column_views(r.columns@) =~= target);
        if batch.columns@.len() > 0 {
            assert(r.columns@[0].data@.len() == batch.columns@[0].data@.len());
        }
    }
    r
}

/// What one batch becomes, start to finish: reconciled to the canonical
/// shape, compacted by the predicates' mask when there are predicates, and
/// projected to the effective selection — or the typed failure that aborts
/// the request.
pub open spec fn spec_process_batch(
    canonical: CanonicalSchema,
    selection: Seq<Seq<char>>,
    preds: Seq<Predicate>,
    fbs: Seq<FloatBits>,
    batch: Batch,
) -> Result<Seq<(Seq<char>, CellsView)>, EngineError> {
    let rows = batch.spec_row_count();
    let rv = spec_reconcile(column_views(batch.columns@), canonical.columns@, rows);
    let rv_rows: nat = if canonical.columns@.len() == 0 {
        0
    } else {
        rows
    };
    if preds.len() == 0 {
        Ok(spec_project(rv, selection))
    } else {
        match spec_eval_mask(rv, rv_rows, preds, fbs) {
            Ok(m) => Ok(spec_project(spec_compact(rv, m), selection)),
            Err(e) => Err(e),
        }
    }
}

/// Processes one batch through the whole pipeline: reconcile, filter,
/// project. The output always has exactly the canonical schema's columns, in
/// canonical order and with the canonical types, whatever the parameters
/// asked for; only a predicate whose column type or literal refuses aborts.
pub fn process_batch(
    canonical: &CanonicalSchema,
    selection: &Vec<String>,
    preds: &Vec<Predicate>,
    float_literals: &Vec<FloatBits>,
    batch: &Batch,
) -> (r: Result<Batch, EngineError>)
    requires
        batch.wf(),
        float_literals@.len() == preds@.len(),
    ensures
        r is Ok <==> spec_process_batch(
            *canonical,
            str_views(selection@),
            preds@,
            float_literals@,
            *batch,
        ) is Ok,
        r matches Ok(out) ==> column_views(out.columns@) == spec_process_batch(
            *canonical,
            str_views(selection@),
            preds@,
            float_literals@,
            *batch,
        ).unwrap(),
        r matches Ok(out) ==> out.wf() && out.matches_schema(*canonical),
        r matches Err(e) ==> spec_process_batch(
            *canonical,
            str_views(selection@),
            preds@,
            float_literals@,
            *batch,
        ) == Err::<Seq<(Seq<char>, CellsView)>, _>(e),
{
    let reconciled = reconcile_batch(batch, canonical);
    let filtered = if preds.len() == 0 {
        reconciled
    } else {
        let mask = match create_boolean_mask(&reconciled, preds, float_literals) {
            Ok(m) => m,
            Err(e) => {
                return Err(e);
            },
        };
        proof {
            lemma_eval_mask_len(
                column_views(reconciled.columns@),
                reconciled.spec_row_count(),
                preds@,
                float_literals@,
            );
        }
        compact_batch(&reconciled, &mask)
    };
    let projected = project_batch(&filtered, selection);
    proof {
        let target = spec_process_batch(
            *canonical,
            str_views(selection@),
            preds@,
            float_literals@,
            *batch,
        );
        assert(column_views(projected.columns@) == target.unwrap());
        assert(forall|j: int|
            0 <= j < projected.columns@.len() ==> (#[trigger] projected.columns@[j])@
                == column_views(projected.columns@)[j]);
    }
    Ok(projected)
}

/// Everything one request needs, fixed once before the first batch flows:
/// the canonical output shape, the effective column selection, and the
/// validated predicates.
pub struct RequestPlan {
    pub canonical: CanonicalSchema,
    pub selection: Vec<String>,
    pub predicates: Vec<Predicate>,
}

/// The names of a run of canonical column views.
pub open spec fn spec_names_of(cols: Seq<(Seq<char>, ColumnType)>) -> Seq<Seq<char>> {
    cols.map_values(|p: (Seq<char>, ColumnType)| p.0)
}

/// Fixes the plan of one request: parses and validates the raw parameters,
/// derives the canonical schema from the source schema, and resolves the
/// effective column selection against it. Fails exactly where a filter token
/// is malformed, before any batch is touched.
pub fn plan_request(
    source_columns: &Vec<ColumnSchema>,
    metadata: &Vec<(String, String)>,
    params: &Vec<(String, String)>,
) -> (r: Result<RequestPlan, EngineError>)
    ensures
        r is Ok <==> spec_filters_ok(params@),
        r matches Ok(plan) ==> col_views(plan.canonical.columns@) == spec_canonical_columns(
            source_columns@,
            spec_index_requested(spec_selected(params@)),
        ),
        r matches Ok(plan) ==> plan.canonical.metadata.deep_view() == metadata.deep_view(),
        r matches Ok(plan) ==> str_views(plan.selection@) == spec_resolve_selection(
            spec_names_of(
                spec_canonical_columns(
                    source_columns@,
                    spec_index_requested(spec_selected(params@)),
                ),
            ),
            spec_selected(params@),
            spec_excluded(params@),
        ),
        r matches Ok(plan) ==> pred_views(plan.predicates@) == spec_predicates(params@),
        r matches Err(e) ==> e == EngineError::MalformedFilter,
{
    let req = match parse_request(params) {
        Ok(req) => req,
        Err(e) => {
            return Err(e);
        },
    };
    let canonical = derive_canonical_schema(source_columns, metadata, &req.selected_columns);
    let selection = resolve_selection(&canonical, &req);
    proof {
        assert(spec_canonical_names(canonical) =~= spec_names_of(col_views(canonical.columns@)));
    }
    Ok(RequestPlan { canonical, selection, predicates: req.predicates })
}

/// Processes a run of batches in file order, all-or-nothing: the outputs in
/// the same order, or the first failure with nothing kept of the partial
/// output.
pub fn process_batches(
    canonical: &CanonicalSchema,
    selection: &Vec<String>,
    preds: &Vec<Predicate>,
    float_literals: &Vec<FloatBits>,
    batches: &Vec<Batch>,
) -> (r: Result<Vec<Batch>, EngineError>)
    requires
        forall|i: int| 0 <= i < batches@.len() ==> (#[trigger] batches@[i]).wf(),
        float_literals@.len() == preds@.len(),
    ensures
        r is Ok <==> (forall|i: int|
            0 <= i < batches@.len() ==> spec_process_batch(
                *canonical,
                str_views(selection@),
                preds@,
                float_literals@,
                #[trigger] batches@[i],
            ) is Ok),
        r matches Ok(outs) ==> outs@.len() == batches@.len() && (forall|i: int|
            0 <= i < batches@.len() ==> column_views((#[trigger] outs@[i]).columns@)
                == spec_process_batch(
                *canonical,
                str_views(selection@),
                preds@,
                float_literals@,
                batches@[i],
            ).unwrap() && outs@[i].wf() && outs@[i].matches_schema(*canonical)),
        r matches Err(e) ==> exists|i: int|
            0 <= i < batches@.len() && spec_process_batch(
                *canonical,
                str_views(selection@),
                preds@,
                float_literals@,
                #[trigger] batches@[i],
            ) == Err::<Seq<(Seq<char>, CellsView)>, _>(e),
{
    let mut outs: Vec<Batch> = Vec::new();
    let mut i: usize = 0;
    while i < batches.len()
        invariant
            0 <= i <= batches@.len(),
            forall|k: int| 0 <= k < batches@.len() ==> (#[trigger] batches@[k]).wf(),
            float_literals@.len() == preds@.len(),
            outs@.len() == i,
            forall|k: int|
                0 <= k < i ==> spec_process_batch(
                    *canonical,
                    str_views(selection@),
                    preds@,
                    float_literals@,
                    #[trigger] batches@[k],
                ) is Ok,
            forall|k: int|
                0 <= k < i ==> column_views((#[trigger] outs@[k]).columns@) == spec_process_batch(
                    *canonical,
                    str_views(selection@),
                    preds@,
                    float_literals@,
                    batches@[k],
                ).unwrap() && outs@[k].wf() && outs@[k].matches_schema(*canonical),
        decreases batches.len() - i,
    {
        match process_batch(canonical, selection, preds, float_literals, &batches[i]) {
            Ok(out) => {
                outs.push(out);
            },
            Err(e) => {
                return Err(e);
            },
        }
        i = i + 1;
    }
    Ok(outs)
}

} // verus!
