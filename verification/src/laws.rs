//! What holds of every request, stated once and proved from the stages'
//! contracts: shape invariance, the all-true mask without filters, that
//! retained rows satisfy every predicate with the operators' boundary
//! semantics, and the identity round trip.

use vstd::prelude::*;

use crate::batch::Batch;
use crate::batch::CellsView;
use crate::batch::column_views;
use crate::batch::lemma_null_cells_shape;
use crate::error::EngineError;
use crate::eval::FloatBits;
use crate::eval::lemma_find_cells_at;
use crate::eval::lemma_find_cells_member;
use crate::eval::spec_eval_mask;
use crate::eval::spec_find_cells;
use crate::eval::spec_pred_mask;
use crate::eval::spec_pred_row;
use crate::eval::spec_typed_literal;
use crate::params::CompareOp;
use crate::params::Predicate;
use crate::pipeline::spec_compact;
use crate::pipeline::spec_process_batch;
use crate::pipeline::spec_project;
use crate::pipeline::spec_reconcile;
use crate::request::spec_canonical_names;
use crate::schema::CanonicalSchema;

verus! {

/// Shape invariance: whatever the selection and the filters, a processed
/// batch has exactly the canonical schema's columns — their count, names,
/// order and declared types.
pub proof fn lemma_shape_invariance(
    canonical: CanonicalSchema,
    selection: Seq<Seq<char>>,
    preds: Seq<Predicate>,
    fbs: Seq<FloatBits>,
    batch: Batch,
)
    requires
        batch.wf(),
    ensures
        spec_process_batch(canonical, selection, preds, fbs, batch) matches Ok(out) ==> {
            &&& out.len() == canonical.columns@.len()
            &&& forall|i: int|
                0 <= i < out.len() ==> (#[trigger] out[i]).0 == canonical.columns@[i].name@
                    && out[i].1.dtype() == canonical.columns@[i].dtype
        },
{
    let rows = batch.spec_row_count();
    let rv = spec_reconcile(column_views(batch.columns@), canonical.columns@, rows);
    assert forall|i: int| 0 <= i < rv.len() implies (#[trigger] rv[i]).0
        == canonical.columns@[i].name@ && rv[i].1.dtype() == canonical.columns@[i].dtype by {
        lemma_null_cells_shape(canonical.columns@[i].dtype, rows);
    }
    if spec_process_batch(canonical, selection, preds, fbs, batch) is Ok {
        let out = spec_process_batch(canonical, selection, preds, fbs, batch).unwrap();
        if preds.len() == 0 {
            assert forall|i: int| 0 <= i < out.len() implies (#[trigger] out[i]).0
                == canonical.columns@[i].name@ && out[i].1.dtype()
                == canonical.columns@[i].dtype by {
                lemma_null_cells_shape(rv[i].1.dtype(), rv[i].1.len());
            }
        } else {
            let rv_rows: nat = if canonical.columns@.len() == 0 {
                0
            } else {
                rows
            };
            let m = spec_eval_mask(rv, rv_rows, preds, fbs).unwrap();
            let cv = spec_compact(rv, m);
            assert forall|i: int| 0 <= i < cv.len() implies (#[trigger] cv[i]).0
                == canonical.columns@[i].name@ && cv[i].1.dtype()
                == canonical.columns@[i].dtype by {}
            assert forall|i: int| 0 <= i < out.len() implies (#[trigger] out[i]).0
                == canonical.columns@[i].name@ && out[i].1.dtype()
                == canonical.columns@[i].dtype by {
                lemma_null_cells_shape(cv[i].1.dtype(), cv[i].1.len());
            }
        }
    }
}

/// With no filter predicates the mask is all-true for every batch, the
/// pipeline cannot fail, and the output carries exactly the input's row
/// count in every column.
pub proof fn lemma_no_filters_keeps_all_rows(
    canonical: CanonicalSchema,
    selection: Seq<Seq<char>>,
    batch: Batch,
)
    requires
        batch.wf(),
    ensures
        spec_eval_mask(
            spec_reconcile(
                column_views(batch.columns@),
                canonical.columns@,
                batch.spec_row_count(),
            ),
            batch.spec_row_count(),
            Seq::empty(),
            Seq::empty(),
        ) == Ok::<_, EngineError>(Seq::new(batch.spec_row_count(), |i: int| true)),
        spec_process_batch(canonical, selection, Seq::empty(), Seq::empty(), batch) is Ok,
        ({
            let out = spec_process_batch(
                canonical,
                selection,
                Seq::empty(),
                Seq::empty(),
                batch,
            ).unwrap();
            forall|j: int|
                0 <= j < out.len() ==> (#[trigger] out[j]).1.len() == batch.spec_row_count()
        }),
{
    let rows = batch.spec_row_count();
    let views = column_views(batch.columns@);
    let rv = spec_reconcile(views, canonical.columns@, rows);
    assert forall|i: int| 0 <= i < rv.len() implies (#[trigger] rv[i]).1.len() == rows by {
        lemma_null_cells_shape(canonical.columns@[i].dtype, rows);
        if spec_find_cells(views, canonical.columns@[i].name@) is Some {
            lemma_find_cells_member(views, canonical.columns@[i].name@);
            let k = choose|k: int|
                0 <= k < views.len() && #[trigger] views[k] == (
                    canonical.columns@[i].name@,
                    spec_find_cells(views, canonical.columns@[i].name@).unwrap(),
                );
            assert(views[k].1 == batch.columns@[k].data@);
        }
    }
    let out = spec_process_batch(canonical, selection, Seq::empty(), Seq::empty(), batch).unwrap();
    assert forall|j: int| 0 <= j < out.len() implies (#[trigger] out[j]).1.len() == rows by {
        lemma_null_cells_shape(rv[j].1.dtype(), rv[j].1.len());
    }
}

/// Predicates combine by logical AND: a row the combined mask retains passed
/// every single predicate's own mask.
pub proof fn lemma_mask_rows_satisfy(
    views: Seq<(Seq<char>, CellsView)>,
    rows: nat,
    preds: Seq<Predicate>,
    fbs: Seq<FloatBits>,
    m: Seq<bool>,
    i: int,
    k: int,
)
    requires
        fbs.len() == preds.len(),
        spec_eval_mask(views, rows, preds, fbs) == Ok::<_, EngineError>(m),
        0 <= i < rows,
        m[i],
        0 <= k < preds.len(),
    ensures
        spec_pred_mask(views, rows, preds[k], fbs[k]) matches Ok(mk) && mk[i],
    decreases preds.len(),
{
    let m0 = match spec_pred_mask(views, rows, preds[0], fbs[0]) {
        Ok(m0) => m0,
        Err(_) => Seq::empty(),
    };
    let rest = match spec_eval_mask(views, rows, preds.skip(1), fbs.skip(1)) {
        Ok(r) => r,
        Err(_) => Seq::empty(),
    };
    assert(m == Seq::new(rows, |j: int| m0[j] && rest[j]));
    assert(m0[i] && rest[i]);
    if k > 0 {
        lemma_mask_rows_satisfy(views, rows, preds.skip(1), fbs.skip(1), rest, i, k - 1);
        assert(preds.skip(1)[k - 1] == preds[k]);
        assert(fbs.skip(1)[k - 1] == fbs[k]);
    }
}

/// Closed and open range bounds hold row by row: under `col >= lo` and
/// `col < hi` together, a retained row's cell compares at or above `lo` —
/// never below it — and below `hi` — never at or above it.
pub proof fn lemma_range_predicates(
    views: Seq<(Seq<char>, CellsView)>,
    rows: nat,
    lo: Predicate,
    hi: Predicate,
    fbs: Seq<FloatBits>,
    m: Seq<bool>,
    i: int,
)
    requires
        lo.op == CompareOp::Ge,
        hi.op == CompareOp::Lt,
        lo.column@ == hi.column@,
        fbs.len() == 2,
        spec_eval_mask(views, rows, seq![lo, hi], fbs) == Ok::<_, EngineError>(m),
        0 <= i < rows,
        m[i],
    ensures
        spec_find_cells(views, lo.column@) is Some,
        ({
            let cells = spec_find_cells(views, lo.column@).unwrap();
            &&& spec_typed_literal(cells.dtype(), lo.literal@, fbs[0]) is Ok
            &&& spec_typed_literal(cells.dtype(), hi.literal@, fbs[1]) is Ok
            &&& ({
                let tl_lo = spec_typed_literal(cells.dtype(), lo.literal@, fbs[0]).unwrap();
                let tl_hi = spec_typed_literal(cells.dtype(), hi.literal@, fbs[1]).unwrap();
                &&& spec_pred_row(cells, i, CompareOp::Ge, tl_lo)
                &&& !spec_pred_row(cells, i, CompareOp::Lt, tl_lo)
                &&& spec_pred_row(cells, i, CompareOp::Lt, tl_hi)
                &&& !spec_pred_row(cells, i, CompareOp::Ge, tl_hi)
            })
        }),
{
    let ps = seq![lo, hi];
    assert(ps[0] == lo && ps[1] == hi);
    lemma_mask_rows_satisfy(views, rows, ps, fbs, m, i, 0);
    lemma_mask_rows_satisfy(views, rows, ps, fbs, m, i, 1);
    let mk0 = spec_pred_mask(views, rows, lo, fbs[0]).unwrap();
    let mk1 = spec_pred_mask(views, rows, hi, fbs[1]).unwrap();
    if spec_find_cells(views, lo.column@) is None {
        assert(!mk0[i]);
        assert(false);
    }
}

/// The identity round trip: with every canonical column selected and no
/// filters, a batch that already has the canonical shape comes out exactly
/// as it went in — same row count, same values, column for column.
pub proof fn lemma_round_trip_identity(canonical: CanonicalSchema, batch: Batch)
    requires
        batch.wf(),
        batch.matches_schema(canonical),
        forall|i: int, j: int|
            0 <= i < j < canonical.columns@.len() ==> (#[trigger] canonical.columns@[i]).name@ != (
            #[trigger] canonical.columns@[j]).name@,
    ensures
        spec_process_batch(
            canonical,
            spec_canonical_names(canonical),
            Seq::empty(),
            Seq::empty(),
            batch,
        ) == Ok::<_, EngineError>(column_views(batch.columns@)),
{
    let rows = batch.spec_row_count();
    let views = column_views(batch.columns@);
    let names = spec_canonical_names(canonical);
    let rv = spec_reconcile(views, canonical.columns@, rows);
    assert forall|i: int| 0 <= i < rv.len() implies rv[i] == views[i] by {
        assert(views[i].0 == canonical.columns@[i].name@);
        assert(forall|j: int|
            0 <= j < i ==> (#[trigger] views[j]).0 == canonical.columns@[j].name@);
        lemma_find_cells_at(views, canonical.columns@[i].name@, i);
        assert(views[i].1.dtype() == canonical.columns@[i].dtype);
    }
    assert(rv =~= views);
    let out = spec_project(views, names);
    assert forall|i: int| 0 <= i < out.len() implies out[i] == views[i] by {
        assert(names[i] == views[i].0);
        assert(names.contains(views[i].0));
    }
    assert(out =~= views);
}

} // verus!
