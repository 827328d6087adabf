//! Type-dispatched predicate evaluation: typing the literal against the
//! column's declared type, comparing row by row, and AND-folding the
//! per-predicate masks into one row-retention mask per batch.

use vstd::prelude::*;

use crate::batch::Batch;
use crate::batch::CellsView;
use crate::batch::Column;
use crate::batch::ColumnData;
use crate::batch::column_views;
use crate::batch::find_column;
use crate::batch::spec_find_column;
use crate::error::EngineError;
use crate::floatcmp::CmpOutcome;
use crate::floatcmp::cmp_f32_bits;
use crate::floatcmp::cmp_f64_bits;
use crate::floatcmp::f32_cmp_bits;
use crate::floatcmp::f64_cmp_bits;
use crate::floatcmp::int_cmp;
use crate::params::CompareOp;
use crate::params::Predicate;
use crate::params::all_digits;
use crate::params::is_digit;
use crate::schema::ColumnType;

verus! {

/// What a filter literal reads as in the two floating-point widths, as IEEE
/// 754 bit patterns, or nothing where it does not parse as such. Floats are
/// the one thing the engine cannot touch, so the caller parses each literal
/// once up front and hands the patterns in beside the predicates.
#[derive(Clone, Copy, Debug, PartialEq, Eq)]
pub struct FloatBits {
    pub as_f64: Option<u64>,
    pub as_f32: Option<u32>,
}

/// A literal typed against a column's declared type.
#[derive(Clone, Copy, Debug, PartialEq, Eq)]
pub enum TypedLiteral {
    Int(i64),
    F64Bits(u64),
    F32Bits(u32),
    Bool(bool),
}

/// The value of a decimal digit.
pub open spec fn digit_val(c: char) -> int {
    c as int - 48
}

/// The value of a run of decimal digits.
pub open spec fn digits_value(s: Seq<char>) -> int
    decreases s.len(),
{
    if s.len() == 0 {
        0
    } else {
        digits_value(s.drop_last()) * 10 + digit_val(s.last())
    }
}

/// The signed integer a literal of the grammar denotes, when it has the
/// integer shape: an optional sign and digits, with no decimal point.
pub open spec fn spec_int_literal(s: Seq<char>) -> Option<int> {
    let neg = s.len() > 0 && s[0] == '-';
    let body = if s.len() > 0 && (s[0] == '-' || s[0] == '+') {
        s.skip(1)
    } else {
        s
    };
    if body.len() > 0 && all_digits(body) {
        if neg {
            Some(-digits_value(body))
        } else {
            Some(digits_value(body))
        }
    } else {
        None
    }
}

/// Parses an integer literal, refusing values outside the 64-bit range.
#[verifier::loop_isolation(false)]
pub fn parse_int_literal(s: &str) -> (r: Option<i64>)
    ensures
        match spec_int_literal(s@) {
            Some(v) => if i64::MIN <= v <= i64::MAX {
                r == Some(v as i64)
            } else {
                r is None
            },
            None => r is None,
        },
{
    let n = s.unicode_len();
    if n == 0 {
        return None;
    }
    let c0 = s.get_char(0);
    let neg = c0 == '-';
    let start: usize = if c0 == '-' || c0 == '+' {
        1
    } else {
        0
    };
    if start == n {
        return None;
    }
    let ghost body = s@.skip(start as int);
    let mut acc: u128 = 0;
    let mut over = false;
    let mut i = start;
    while i < n
        invariant
            start <= i <= n,
            forall|j: int| start <= j < i ==> is_digit(s@[j]),
            !over ==> acc == digits_value(s@.subrange(start as int, i as int)) && acc
                <= 0x8000_0000_0000_0000u128,
            over ==> digits_value(s@.subrange(start as int, i as int)) > 0x8000_0000_0000_0000,
        decreases n - i,
    {
        let c = s.get_char(i);
        if !('0' <= c && c <= '9') {
            proof {
                assert(body[(i - start) as int] == s@[i as int]);
            }
            return None;
        }
        let d: u128 = (c as u32 - 48) as u128;
        let ghost pre = s@.subrange(start as int, i as int);
        let ghost cur = s@.subrange(start as int, i as int + 1);
        proof {
            assert(cur.drop_last() =~= pre);
            assert(cur.last() == s@[i as int]);
            assert(digits_value(cur) == digits_value(pre) * 10 + digit_val(s@[i as int]));
            assert(digit_val(s@[i as int]) == d as int);
        }
        if over {
            proof {
                assert(digits_value(pre) > 0x8000_0000_0000_0000);
                assert(digits_value(cur) > 0x8000_0000_0000_0000);
            }
        } else {
            let next: u128 = acc * 10 + d;
            if next > 0x8000_0000_0000_0000u128 {
                over = true;
            } else {
                acc = next;
            }
        }
        i = i + 1;
    }
    proof {
        assert(body =~= s@.subrange(start as int, n as int));
        if start == 0 {
            assert(body =~= s@);
        }
        assert(body.len() > 0 && all_digits(body));
    }
    if over {
        return None;
    }
    if neg {
        if acc == 0x8000_0000_0000_0000u128 {
            Some(i64::MIN)
        } else {
            Some(-(acc as i64))
        }
    } else {
        if acc <= 0x7FFF_FFFF_FFFF_FFFFu128 {
            Some(acc as i64)
        } else {
            None
        }
    }
}

/// How a literal reads against a column's declared type: the typed value, or
/// why it cannot. A boolean column compares as the integers zero and one; a
/// column of any other declared type cannot be filtered at all.
pub open spec fn spec_typed_literal(dtype: ColumnType, lit: Seq<char>, fb: FloatBits) -> Result<
    TypedLiteral,
    EngineError,
> {
    match dtype {
        ColumnType::Int8 => match spec_int_literal(lit) {
            Some(v) => if -128 <= v <= 127 {
                Ok(TypedLiteral::Int(v as i64))
            } else {
                Err(EngineError::LiteralTypeError)
            },
            None => Err(EngineError::LiteralTypeError),
        },
        ColumnType::Int16 => match spec_int_literal(lit) {
            Some(v) => if -32768 <= v <= 32767 {
                Ok(TypedLiteral::Int(v as i64))
            } else {
                Err(EngineError::LiteralTypeError)
            },
            None => Err(EngineError::LiteralTypeError),
        },
        ColumnType::Int32 => match spec_int_literal(lit) {
            Some(v) => if -0x8000_0000 <= v <= 0x7FFF_FFFF {
                Ok(TypedLiteral::Int(v as i64))
            } else {
                Err(EngineError::LiteralTypeError)
            },
            None => Err(EngineError::LiteralTypeError),
        },
        ColumnType::Int64 => match spec_int_literal(lit) {
            Some(v) => if i64::MIN <= v <= i64::MAX {
                Ok(TypedLiteral::Int(v as i64))
            } else {
                Err(EngineError::LiteralTypeError)
            },
            None => Err(EngineError::LiteralTypeError),
        },
        ColumnType::Float64 => match fb.as_f64 {
            Some(bits) => Ok(TypedLiteral::F64Bits(bits)),
            None => Err(EngineError::LiteralTypeError),
        },
        ColumnType::Float32 => match fb.as_f32 {
            Some(bits) => Ok(TypedLiteral::F32Bits(bits)),
            None => Err(EngineError::LiteralTypeError),
        },
        ColumnType::Boolean => match spec_int_literal(lit) {
            Some(v) => if v == 0 {
                Ok(TypedLiteral::Bool(false))
            } else if v == 1 {
                Ok(TypedLiteral::Bool(true))
            } else {
                Err(EngineError::LiteralTypeError)
            },
            None => Err(EngineError::LiteralTypeError),
        },
        ColumnType::Other => Err(EngineError::UnsupportedType),
    }
}

/// Types a literal against a column's declared type.
pub fn typed_literal(dtype: ColumnType, lit: &str, fb: &FloatBits) -> (r: Result<
    TypedLiteral,
    EngineError,
>)
    ensures
        r == spec_typed_literal(dtype, lit@, *fb),
{
    match dtype {
        ColumnType::Int8 => match parse_int_literal(lit) {
            Some(v) => if -128 <= v && v <= 127 {
                Ok(TypedLiteral::Int(v))
            } else {
                Err(EngineError::LiteralTypeError)
            },
            None => Err(EngineError::LiteralTypeError),
        },
        ColumnType::Int16 => match parse_int_literal(lit) {
            Some(v) => if -32768 <= v && v <= 32767 {
                Ok(TypedLiteral::Int(v))
            } else {
                Err(EngineError::LiteralTypeError)
            },
            None => Err(EngineError::LiteralTypeError),
        },
        ColumnType::Int32 => match parse_int_literal(lit) {
            Some(v) => if -0x8000_0000 <= v && v <= 0x7FFF_FFFF {
                Ok(TypedLiteral::Int(v))
            } else {
                Err(EngineError::LiteralTypeError)
            },
            None => Err(EngineError::LiteralTypeError),
        },
        ColumnType::Int64 => match parse_int_literal(lit) {
            Some(v) => Ok(TypedLiteral::Int(v)),
            None => Err(EngineError::LiteralTypeError),
        },
        ColumnType::Float64 => match fb.as_f64 {
            Some(bits) => Ok(TypedLiteral::F64Bits(bits)),
            None => Err(EngineError::LiteralTypeError),
        },
        ColumnType::Float32 => match fb.as_f32 {
            Some(bits) => Ok(TypedLiteral::F32Bits(bits)),
            None => Err(EngineError::LiteralTypeError),
        },
        ColumnType::Boolean => match parse_int_literal(lit) {
            Some(v) => if v == 0 {
                Ok(TypedLiteral::Bool(false))
            } else if v == 1 {
                Ok(TypedLiteral::Bool(true))
            } else {
                Err(EngineError::LiteralTypeError)
            },
            None => Err(EngineError::LiteralTypeError),
        },
        ColumnType::Other => Err(EngineError::UnsupportedType),
    }
}

/// A boolean read as the integer it compares as.
pub open spec fn bool_int(b: bool) -> int {
    if b {
        1
    } else {
        0
    }
}

/// Whether a comparison outcome satisfies an operator. The unordered outcome
/// satisfies only `!=`, exactly as the floating-point operators do.
pub open spec fn op_matches(op: CompareOp, c: CmpOutcome) -> bool {
    match op {
        CompareOp::Lt => c is Less,
        CompareOp::Le => c is Less || c is Equal,
        CompareOp::Gt => c is Greater,
        CompareOp::Ge => c is Greater || c is Equal,
        CompareOp::Eq => c is Equal,
        CompareOp::Ne => !(c is Equal),
    }
}

/// Whether a comparison outcome satisfies an operator.
pub fn op_matches_exec(op: CompareOp, c: CmpOutcome) -> (r: bool)
    ensures
        r == op_matches(op, c),
{
    match op {
        CompareOp::Lt => matches!(c, CmpOutcome::Less),
        CompareOp::Le => matches!(c, CmpOutcome::Less | CmpOutcome::Equal),
        CompareOp::Gt => matches!(c, CmpOutcome::Greater),
        CompareOp::Ge => matches!(c, CmpOutcome::Greater | CmpOutcome::Equal),
        CompareOp::Eq => matches!(c, CmpOutcome::Equal),
        CompareOp::Ne => !matches!(c, CmpOutcome::Equal),
    }
}

/// How the cell at row `i` compares against a typed literal; nothing for a
/// null cell.
pub open spec fn spec_cell_cmp(cells: CellsView, i: int, tl: TypedLiteral) -> Option<CmpOutcome> {
    match (cells, tl) {
        (CellsView::Int8(v), TypedLiteral::Int(x)) => match v[i] {
            Some(c) => Some(int_cmp(c as int, x as int)),
            None => None,
        },
        (CellsView::Int16(v), TypedLiteral::Int(x)) => match v[i] {
            Some(c) => Some(int_cmp(c as int, x as int)),
            None => None,
        },
        (CellsView::Int32(v), TypedLiteral::Int(x)) => match v[i] {
            Some(c) => Some(int_cmp(c as int, x as int)),
            None => None,
        },
        (CellsView::Int64(v), TypedLiteral::Int(x)) => match v[i] {
            Some(c) => Some(int_cmp(c as int, x as int)),
            None => None,
        },
        (CellsView::Float64(v), TypedLiteral::F64Bits(x)) => match v[i] {
            Some(c) => Some(f64_cmp_bits(c, x)),
            None => None,
        },
        (CellsView::Float32(v), TypedLiteral::F32Bits(x)) => match v[i] {
            Some(c) => Some(f32_cmp_bits(c, x)),
            None => None,
        },
        (CellsView::Boolean(v), TypedLiteral::Bool(x)) => match v[i] {
            Some(c) => Some(int_cmp(bool_int(c), bool_int(x))),
            None => None,
        },
        _ => None,
    }
}

/// Whether row `i` satisfies the operator against the typed literal. A null
/// cell satisfies no operator, `!=` included.
pub open spec fn spec_pred_row(cells: CellsView, i: int, op: CompareOp, tl: TypedLiteral) -> bool {
    match spec_cell_cmp(cells, i, tl) {
        Some(c) => op_matches(op, c),
        None => false,
    }
}

/// The cells of the column called `name` in a run of column views, first
/// match winning.
pub open spec fn spec_find_cells(views: Seq<(Seq<char>, CellsView)>, name: Seq<char>) -> Option<
    CellsView,
>
    decreases views.len(),
{
    if views.len() == 0 {
        None
    } else if views[0].0 == name {
        Some(views[0].1)
    } else {
        spec_find_cells(views.skip(1), name)
    }
}

/// Found cells stand somewhere in the run, under the name they were found
/// by.
pub proof fn lemma_find_cells_member(views: Seq<(Seq<char>, CellsView)>, name: Seq<char>)
    requires
        spec_find_cells(views, name) is Some,
    ensures
        exists|k: int|
            0 <= k < views.len() && #[trigger] views[k] == (
                name,
                spec_find_cells(views, name).unwrap(),
            ),
    decreases views.len(),
{
    if views.len() > 0 {
        if views[0].0 == name {
            assert(views[0] == (name, spec_find_cells(views, name).unwrap()));
        } else {
            lemma_find_cells_member(views.skip(1), name);
            let k = choose|k: int|
                0 <= k < views.skip(1).len() && #[trigger] views.skip(1)[k] == (
                    name,
                    spec_find_cells(views.skip(1), name).unwrap(),
                );
            assert(views[k + 1] == (name, spec_find_cells(views, name).unwrap()));
        }
    }
}

/// Where a name first occurs at position `i`, the search finds exactly that
/// column's cells.
pub proof fn lemma_find_cells_at(views: Seq<(Seq<char>, CellsView)>, name: Seq<char>, i: int)
    requires
        0 <= i < views.len(),
        views[i].0 == name,
        forall|j: int| 0 <= j < i ==> (#[trigger] views[j]).0 != name,
    ensures
        spec_find_cells(views, name) == Some(views[i].1),
    decreases i,
{
    if i > 0 {
        assert(views.skip(1)[i - 1] == views[i]);
        assert(forall|j: int| 0 <= j < i - 1 ==> (#[trigger] views.skip(1)[j]).0 != name);
        lemma_find_cells_at(views.skip(1), name, i - 1);
    }
}

/// Finding a column and then taking its cells is finding the cells among the
/// column views.
pub proof fn lemma_find_cells_bridge(cols: Seq<Column>, name: Seq<char>)
    ensures
        spec_find_cells(column_views(cols), name) == (match spec_find_column(cols, name) {
            Some(c) => Some(c.data@),
            None => None::<CellsView>,
        }),
    decreases cols.len(),
{
    if cols.len() > 0 {
        assert(column_views(cols)[0] == cols[0]@);
        if cols[0].name@ != name {
            lemma_find_cells_bridge(cols.skip(1), name);
            assert(column_views(cols).skip(1) =~= column_views(cols.skip(1)));
        }
    }
}

/// The mask one predicate yields on a batch of `rows` rows: all-false where
/// the column is absent (a synthesized null column satisfies nothing), the
/// row-by-row comparison where it is present, and a typed failure where the
/// literal or the column's type refuses.
pub open spec fn spec_pred_mask(
    views: Seq<(Seq<char>, CellsView)>,
    rows: nat,
    p: Predicate,
    fb: FloatBits,
) -> Result<Seq<bool>, EngineError> {
    match spec_find_cells(views, p.column@) {
        None => Ok(Seq::new(rows, |i: int| false)),
        Some(cells) => match spec_typed_literal(cells.dtype(), p.literal@, fb) {
            Ok(tl) => Ok(Seq::new(rows, |i: int| spec_pred_row(cells, i, p.op, tl))),
            Err(e) => Err(e),
        },
    }
}

/// The combined row-retention mask of a predicate run: all-true with no
/// predicates, the AND of every predicate's mask otherwise, the first
/// failure in supplied order winning.
pub open spec fn spec_eval_mask(
    views: Seq<(Seq<char>, CellsView)>,
    rows: nat,
    preds: Seq<Predicate>,
    fbs: Seq<FloatBits>,
) -> Result<Seq<bool>, EngineError>
    decreases preds.len(),
{
    if preds.len() == 0 {
        Ok(Seq::new(rows, |i: int| true))
    } else {
        match spec_pred_mask(views, rows, preds[0], fbs[0]) {
            Err(e) => Err(e),
            Ok(m0) => match spec_eval_mask(views, rows, preds.skip(1), fbs.skip(1)) {
                Err(e) => Err(e),
                Ok(m) => Ok(Seq::new(rows, |i: int| m0[i] && m[i])),
            },
        }
    }
}

/// A successful mask always has one entry per row.
pub proof fn lemma_eval_mask_len(
    views: Seq<(Seq<char>, CellsView)>,
    rows: nat,
    preds: Seq<Predicate>,
    fbs: Seq<FloatBits>,
)
    ensures
        spec_eval_mask(views, rows, preds, fbs) matches Ok(m) ==> m.len() == rows,
    decreases preds.len(),
{
    if preds.len() > 0 {
        lemma_eval_mask_len(views, rows, preds.skip(1), fbs.skip(1));
    }
}

/// The mask of one predicate, as executable row-by-row comparison.
#[verifier::loop_isolation(false)]
fn pred_mask(columns: &Vec<Column>, rows: usize, p: &Predicate, fb: &FloatBits) -> (r: Result<
    Vec<bool>,
    EngineError,
>)
    requires
        forall|i: int| 0 <= i < columns@.len() ==> (#[trigger] columns@[i]).data@.len() == rows,
    ensures
        r matches Ok(m) ==> spec_pred_mask(column_views(columns@), rows as nat, *p, *fb) == Ok::<
            _,
            EngineError,
        >(m@),
        r matches Err(e) ==> spec_pred_mask(column_views(columns@), rows as nat, *p, *fb) == Err::<
            Seq<bool>,
            _,
        >(e),
{
    proof {
        lemma_find_cells_bridge(columns@, p.column@);
    }
    let col = match find_column(columns, p.column.as_str()) {
        None => {
            let mut out: Vec<bool> = Vec::new();
            let mut i: usize = 0;
            while i < rows
                invariant
                    0 <= i <= rows,
                    out@ =~= Seq::new(i as nat, |k: int| false),
                decreases rows - i,
            {
                out.push(false);
                i = i + 1;
            }
            return Ok(out);
        },
        Some(c) => c,
    };
    proof {
        crate::batch::lemma_find_column_some(columns@, p.column@);
        let w = choose|w: int| 0 <= w < columns@.len() && #[trigger] columns@[w] == *col;
        assert(columns@[w].data@.len() == rows);
    }
    let tl = match typed_literal(col.data.dtype(), p.literal.as_str(), fb) {
        Ok(tl) => tl,
        Err(e) => {
            return Err(e);
        },
    };
    let ghost mask = Seq::new(rows as nat, |k: int| spec_pred_row(col.data@, k, p.op, tl));
    let mut out: Vec<bool> = Vec::new();
    let mut i: usize = 0;
    while i < rows
        invariant
            0 <= i <= rows,
            out@ =~= mask.subrange(0, i as int),
        decreases rows - i,
    {
        let outcome: Option<CmpOutcome> = match (&col.data, &tl) {
            (ColumnData::Int8(v), TypedLiteral::Int(x)) => match v[i] {
                Some(c) => Some(cmp_i64(c as i64, *x)),
                None => None,
            },
            (ColumnData::Int16(v), TypedLiteral::Int(x)) => match v[i] {
                Some(c) => Some(cmp_i64(c as i64, *x)),
                None => None,
            },
            (ColumnData::Int32(v), TypedLiteral::Int(x)) => match v[i] {
                Some(c) => Some(cmp_i64(c as i64, *x)),
                None => None,
            },
            (ColumnData::Int64(v), TypedLiteral::Int(x)) => match v[i] {
                Some(c) => Some(cmp_i64(c, *x)),
                None => None,
            },
            (ColumnData::Float64(v), TypedLiteral::F64Bits(x)) => match v[i] {
                Some(c) => Some(cmp_f64_bits(c, *x)),
                None => None,
            },
            (ColumnData::Float32(v), TypedLiteral::F32Bits(x)) => match v[i] {
                Some(c) => Some(cmp_f32_bits(c, *x)),
                None => None,
            },
            (ColumnData::Boolean(v), TypedLiteral::Bool(x)) => match v[i] {
                Some(c) => Some(cmp_i64(if c { 1 } else { 0 }, if *x { 1 } else { 0 })),
                None => None,
            },
            _ => {
                proof {
                    assert(false);
                }
                None
            },
        };
        let keep = match outcome {
            Some(c) => op_matches_exec(p.op, c),
            None => false,
        };
        proof {
            assert(keep == spec_pred_row(col.data@, i as int, p.op, tl));
            assert(mask.subrange(0, i as int).push(keep) =~= mask.subrange(0, i as int + 1));
        }
        out.push(keep);
        i = i + 1;
    }
    proof {
        assert(mask.subrange(0, rows as int) =~= mask);
    }
    Ok(out)
}

/// The integer ordering on two 64-bit values.
fn cmp_i64(a: i64, b: i64) -> (r: CmpOutcome)
    ensures
        r == int_cmp(a as int, b as int),
{
    if a < b {
        CmpOutcome::Less
    } else if a == b {
        CmpOutcome::Equal
    } else {
        CmpOutcome::Greater
    }
}

/// Builds the row-retention mask of a batch: all-true, then AND-reduced
/// across the predicates in supplied order. Fails, all-or-nothing, where a
/// predicate's column type cannot be compared or its literal does not type.
#[verifier::loop_isolation(false)]
pub fn create_boolean_mask(batch: &Batch, preds: &Vec<Predicate>, float_literals: &Vec<FloatBits>)
    -> (r: Result<Vec<bool>, EngineError>)
    requires
        batch.wf(),
        float_literals@.len() == preds@.len(),
    ensures
        r matches Ok(m) ==> spec_eval_mask(
            column_views(batch.columns@),
            batch.spec_row_count(),
            preds@,
            float_literals@,
        ) == Ok::<_, EngineError>(m@),
        r matches Err(e) ==> spec_eval_mask(
            column_views(batch.columns@),
            batch.spec_row_count(),
            preds@,
            float_literals@,
        ) == Err::<Seq<bool>, _>(e),
{
    let rows = batch.num_rows();
    let ghost cols = column_views(batch.columns@);
    let mut mask: Vec<bool> = Vec::new();
    let mut i: usize = 0;
    while i < rows
        invariant
            0 <= i <= rows,
            mask@ =~= Seq::new(i as nat, |k: int| true),
        decreases rows - i,
    {
        mask.push(true);
        i = i + 1;
    }
    let mut j: usize = 0;
    proof {
        assert(preds@.skip(0) =~= preds@);
        assert(float_literals@.skip(0) =~= float_literals@);
        lemma_eval_mask_len(cols, rows as nat, preds@, float_literals@);
        if spec_eval_mask(cols, rows as nat, preds@, float_literals@) is Ok {
            let m = spec_eval_mask(cols, rows as nat, preds@, float_literals@).unwrap();
            assert(Seq::new(rows as nat, |i: int| mask@[i] && m[i]) =~= m);
        }
    }
    while j < preds.len()
        invariant
            0 <= j <= preds.len(),
            mask@.len() == rows,
            spec_eval_mask(cols, rows as nat, preds@, float_literals@) == (match spec_eval_mask(
                cols,
                rows as nat,
                preds@.skip(j as int),
                float_literals@.skip(j as int),
            ) {
                Ok(m) => Ok::<_, EngineError>(Seq::new(rows as nat, |i: int| mask@[i] && m[i])),
                Err(e) => Err::<Seq<bool>, _>(e),
            }),
        decreases preds.len() - j,
    {
        let ghost rest_p = preds@.skip(j as int);
        let ghost rest_f = float_literals@.skip(j as int);
        proof {
            assert(rest_p[0] == preds@[j as int]);
            assert(rest_f[0] == float_literals@[j as int]);
            assert(rest_p.skip(1) =~= preds@.skip(j as int + 1));
            assert(rest_f.skip(1) =~= float_literals@.skip(j as int + 1));
        }
        let pm = match pred_mask(&batch.columns, rows, &preds[j], &float_literals[j]) {
            Ok(m) => m,
            Err(e) => {
                return Err(e);
            },
        };
        let ghost old_mask = mask@;
        let mut k: usize = 0;
        let mut next: Vec<bool> = Vec::new();
        while k < rows
            invariant
                0 <= k <= rows,
                old_mask.len() == rows,
                pm@.len() == rows,
                next@ =~= Seq::new(k as nat, |i: int| old_mask[i] && pm@[i]),
                old_mask == mask@,
            decreases rows - k,
        {
            next.push(mask[k] && pm[k]);
            k = k + 1;
        }
        mask = next;
        proof {
            lemma_eval_mask_len(cols, rows as nat, rest_p.skip(1), rest_f.skip(1));
            if spec_eval_mask(cols, rows as nat, rest_p.skip(1), rest_f.skip(1)) is Ok {
                let m = spec_eval_mask(cols, rows as nat, rest_p.skip(1), rest_f.skip(1)).unwrap();
                assert(Seq::new(rows as nat, |i: int| mask@[i] && m[i]) =~= Seq::new(
                    rows as nat,
                    |i: int| old_mask[i] && (Seq::new(rows as nat, |k: int| pm@[k] && m[k]))[i],
                ));
            }
        }
        j = j + 1;
    }
    proof {
        assert(preds@.skip(preds.len() as int) =~= Seq::<Predicate>::empty());
        assert(float_literals@.skip(preds.len() as int) =~= Seq::<FloatBits>::empty());
        let empty_mask = Seq::new(rows as nat, |i: int| true);
        assert(Seq::new(rows as nat, |i: int| mask@[i] && empty_mask[i]) =~= mask@);
    }
    Ok(mask)
}

} // verus!
