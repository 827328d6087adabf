//! Batches: ordered collections of named, typed, fixed-length columns, the
//! unit the pipeline reads, filters, projects and writes.

use vstd::prelude::*;

use crate::schema::CanonicalSchema;
use crate::schema::ColumnType;
use crate::strutil::str_eq;

verus! {

/// What one column's cells say, variant by declared type. A `None` cell is
/// null. Floating-point cells are their IEEE 754 bit patterns: the verified
/// logic never touches a float directly. `Other` cells are opaque handles
/// that the caller owns; the engine moves and counts them but never reads
/// into them.
pub enum ColumnData {
    Int8(Vec<Option<i8>>),
    Int16(Vec<Option<i16>>),
    Int32(Vec<Option<i32>>),
    Int64(Vec<Option<i64>>),
    Float32(Vec<Option<u32>>),
    Float64(Vec<Option<u64>>),
    Boolean(Vec<Option<bool>>),
    Other(Vec<Option<u64>>),
}

/// The mathematical content of one column's cells.
pub enum CellsView {
    Int8(Seq<Option<i8>>),
    Int16(Seq<Option<i16>>),
    Int32(Seq<Option<i32>>),
    Int64(Seq<Option<i64>>),
    Float32(Seq<Option<u32>>),
    Float64(Seq<Option<u64>>),
    Boolean(Seq<Option<bool>>),
    Other(Seq<Option<u64>>),
}

impl View for ColumnData {
    type V = CellsView;

    open spec fn view(&self) -> CellsView {
        match self {
            ColumnData::Int8(v) => CellsView::Int8(v@),
            ColumnData::Int16(v) => CellsView::Int16(v@),
            ColumnData::Int32(v) => CellsView::Int32(v@),
            ColumnData::Int64(v) => CellsView::Int64(v@),
            ColumnData::Float32(v) => CellsView::Float32(v@),
            ColumnData::Float64(v) => CellsView::Float64(v@),
            ColumnData::Boolean(v) => CellsView::Boolean(v@),
            ColumnData::Other(v) => CellsView::Other(v@),
        }
    }
}

impl CellsView {
    /// The declared type these cells belong to.
    pub open spec fn dtype(self) -> ColumnType {
        match self {
            CellsView::Int8(_) => ColumnType::Int8,
            CellsView::Int16(_) => ColumnType::Int16,
            CellsView::Int32(_) => ColumnType::Int32,
            CellsView::Int64(_) => ColumnType::Int64,
            CellsView::Float32(_) => ColumnType::Float32,
            CellsView::Float64(_) => ColumnType::Float64,
            CellsView::Boolean(_) => ColumnType::Boolean,
            CellsView::Other(_) => ColumnType::Other,
        }
    }

    /// How many cells there are.
    pub open spec fn len(self) -> nat {
        match self {
            CellsView::Int8(v) => v.len(),
            CellsView::Int16(v) => v.len(),
            CellsView::Int32(v) => v.len(),
            CellsView::Int64(v) => v.len(),
            CellsView::Float32(v) => v.len(),
            CellsView::Float64(v) => v.len(),
            CellsView::Boolean(v) => v.len(),
            CellsView::Other(v) => v.len(),
        }
    }

    /// Whether the cell at `i` is null.
    pub open spec fn is_null_at(self, i: int) -> bool {
        match self {
            CellsView::Int8(v) => v[i] is None,
            CellsView::Int16(v) => v[i] is None,
            CellsView::Int32(v) => v[i] is None,
            CellsView::Int64(v) => v[i] is None,
            CellsView::Float32(v) => v[i] is None,
            CellsView::Float64(v) => v[i] is None,
            CellsView::Boolean(v) => v[i] is None,
            CellsView::Other(v) => v[i] is None,
        }
    }

    /// Every cell is null.
    pub open spec fn all_null(self) -> bool {
        forall|i: int| 0 <= i < self.len() ==> self.is_null_at(i)
    }
}

impl ColumnData {
    /// The declared type of these cells.
    pub fn dtype(&self) -> (r: ColumnType)
        ensures
            r == self@.dtype(),
    {
        match self {
            ColumnData::Int8(_) => ColumnType::Int8,
            ColumnData::Int16(_) => ColumnType::Int16,
            ColumnData::Int32(_) => ColumnType::Int32,
            ColumnData::Int64(_) => ColumnType::Int64,
            ColumnData::Float32(_) => ColumnType::Float32,
            ColumnData::Float64(_) => ColumnType::Float64,
            ColumnData::Boolean(_) => ColumnType::Boolean,
            ColumnData::Other(_) => ColumnType::Other,
        }
    }

    /// How many cells there are.
    pub fn len(&self) -> (r: usize)
        ensures
            r == self@.len(),
    {
        match self {
            ColumnData::Int8(v) => v.len(),
            ColumnData::Int16(v) => v.len(),
            ColumnData::Int32(v) => v.len(),
            ColumnData::Int64(v) => v.len(),
            ColumnData::Float32(v) => v.len(),
            ColumnData::Float64(v) => v.len(),
            ColumnData::Boolean(v) => v.len(),
            ColumnData::Other(v) => v.len(),
        }
    }
}

/// One named column of a batch.
pub struct Column {
    pub name: String,
    pub data: ColumnData,
}

impl View for Column {
    type V = (Seq<char>, CellsView);

    open spec fn view(&self) -> (Seq<char>, CellsView) {
        (self.name@, self.data@)
    }
}

/// The name and cells of every column of a run.
pub open spec fn column_views(cols: Seq<Column>) -> Seq<(Seq<char>, CellsView)> {
    cols.map_values(|c: Column| c@)
}

/// One bounded chunk of rows: named, typed columns that all share one row
/// count. Transient: created per chunk and discarded after the write.
pub struct Batch {
    pub columns: Vec<Column>,
}

impl Batch {
    /// The shared row count: every column of a well-formed batch has it.
    pub open spec fn spec_row_count(self) -> nat {
        if self.columns@.len() == 0 {
            0
        } else {
            self.columns@[0].data@.len()
        }
    }

    /// All columns hold the same number of cells.
    pub open spec fn wf(self) -> bool {
        forall|i: int|
            0 <= i < self.columns@.len() ==> (#[trigger] self.columns@[i]).data@.len()
                == self.spec_row_count()
    }

    /// The batch has exactly the canonical columns: same count, same names,
    /// same declared types, in canonical order.
    pub open spec fn matches_schema(self, canonical: CanonicalSchema) -> bool {
        &&& self.columns@.len() == canonical.columns@.len()
        &&& forall|i: int|
            0 <= i < self.columns@.len() ==> (#[trigger] self.columns@[i]).name@
                == canonical.columns@[i].name@ && self.columns@[i].data@.dtype()
                == canonical.columns@[i].dtype
    }

    /// The shared row count of the batch.
    pub fn num_rows(&self) -> (r: usize)
        ensures
            r == self.spec_row_count(),
    {
        if self.columns.len() == 0 {
            0
        } else {
            self.columns[0].data.len()
        }
    }
}

/// The column of `cols` called `name`, first match winning.
pub open spec fn spec_find_column(cols: Seq<Column>, name: Seq<char>) -> Option<Column>
    decreases cols.len(),
{
    if cols.len() == 0 {
        None
    } else if cols[0].name@ == name {
        Some(cols[0])
    } else {
        spec_find_column(cols.skip(1), name)
    }
}

/// A found column stands somewhere in the run, and bears the name it was
/// found under.
pub proof fn lemma_find_column_some(cols: Seq<Column>, name: Seq<char>)
    requires
        spec_find_column(cols, name) is Some,
    ensures
        exists|i: int|
            0 <= i < cols.len() && #[trigger] cols[i] == spec_find_column(cols, name).unwrap(),
        spec_find_column(cols, name).unwrap().name@ == name,
    decreases cols.len(),
{
    if cols.len() > 0 {
        if cols[0].name@ == name {
            assert(cols[0] == spec_find_column(cols, name).unwrap());
        } else {
            lemma_find_column_some(cols.skip(1), name);
            let i = choose|i: int|
                0 <= i < cols.skip(1).len() && #[trigger] cols.skip(1)[i] == spec_find_column(
                    cols.skip(1),
                    name,
                ).unwrap();
            assert(cols[i + 1] == spec_find_column(cols, name).unwrap());
        }
    }
}

/// Looks a column up by name, first match winning.
pub fn find_column<'a>(columns: &'a Vec<Column>, name: &str) -> (r: Option<&'a Column>)
    ensures
        match r {
            Some(c) => spec_find_column(columns@, name@) == Some(*c),
            None => spec_find_column(columns@, name@) is None,
        },
{
    let mut i: usize = 0;
    proof {
        assert(columns@.skip(0) =~= columns@);
    }
    while i < columns.len()
        invariant
            0 <= i <= columns.len(),
            spec_find_column(columns@, name@) == spec_find_column(columns@.skip(i as int), name@),
        decreases columns.len() - i,
    {
        proof {
            assert(columns@.skip(i as int)[0] == columns@[i as int]);
            assert(columns@.skip(i as int).skip(1) =~= columns@.skip(i as int + 1));
        }
        if str_eq(columns[i].name.as_str(), name) {
            return Some(&columns[i]);
        }
        i = i + 1;
    }
    None
}

/// A run of `len` null cells.
fn null_cells<T: Copy>(len: usize) -> (r: Vec<Option<T>>)
    ensures
        r@.len() == len,
        forall|i: int| 0 <= i < len ==> r@[i] is None,
{
    let mut v: Vec<Option<T>> = Vec::new();
    let mut i: usize = 0;
    while i < len
        invariant
            0 <= i <= len,
            v@.len() == i,
            forall|j: int| 0 <= j < i ==> v@[j] is None,
        decreases len - i,
    {
        v.push(None);
        i = i + 1;
    }
    v
}

/// An all-null run of cells of the declared type and the given row count.
pub open spec fn spec_null_cells(dtype: ColumnType, rows: nat) -> CellsView {
    match dtype {
        ColumnType::Int8 => CellsView::Int8(Seq::new(rows, |i: int| None)),
        ColumnType::Int16 => CellsView::Int16(Seq::new(rows, |i: int| None)),
        ColumnType::Int32 => CellsView::Int32(Seq::new(rows, |i: int| None)),
        ColumnType::Int64 => CellsView::Int64(Seq::new(rows, |i: int| None)),
        ColumnType::Float32 => CellsView::Float32(Seq::new(rows, |i: int| None)),
        ColumnType::Float64 => CellsView::Float64(Seq::new(rows, |i: int| None)),
        ColumnType::Boolean => CellsView::Boolean(Seq::new(rows, |i: int| None)),
        ColumnType::Other => CellsView::Other(Seq::new(rows, |i: int| None)),
    }
}

/// A synthesized null run has the declared type and the asked-for length.
pub proof fn lemma_null_cells_shape(dtype: ColumnType, rows: nat)
    ensures
        spec_null_cells(dtype, rows).dtype() == dtype,
        spec_null_cells(dtype, rows).len() == rows,
        spec_null_cells(dtype, rows).all_null(),
{
}

/// An all-null column of the declared type and the given row count. Built
/// directly from the declared type, so synthesizing one cannot fail.
pub fn null_column(dtype: ColumnType, len: usize) -> (r: ColumnData)
    ensures
        r@ == spec_null_cells(dtype, len as nat),
        r@.dtype() == dtype,
        r@.len() == len,
        r@.all_null(),
{
    let r = match dtype {
        ColumnType::Int8 => ColumnData::Int8(null_cells(len)),
        ColumnType::Int16 => ColumnData::Int16(null_cells(len)),
        ColumnType::Int32 => ColumnData::Int32(null_cells(len)),
        ColumnType::Int64 => ColumnData::Int64(null_cells(len)),
        ColumnType::Float32 => ColumnData::Float32(null_cells(len)),
        ColumnType::Float64 => ColumnData::Float64(null_cells(len)),
        ColumnType::Boolean => ColumnData::Boolean(null_cells(len)),
        ColumnType::Other => ColumnData::Other(null_cells(len)),
    };
    proof {
        match r@ {
            CellsView::Int8(v) => assert(v =~= Seq::new(len as nat, |i: int| None::<i8>)),
            CellsView::Int16(v) => assert(v =~= Seq::new(len as nat, |i: int| None::<i16>)),
            CellsView::Int32(v) => assert(v =~= Seq::new(len as nat, |i: int| None::<i32>)),
            CellsView::Int64(v) => assert(v =~= Seq::new(len as nat, |i: int| None::<i64>)),
            CellsView::Float32(v) => assert(v =~= Seq::new(len as nat, |i: int| None::<u32>)),
            CellsView::Float64(v) => assert(v =~= Seq::new(len as nat, |i: int| None::<u64>)),
            CellsView::Boolean(v) => assert(v =~= Seq::new(len as nat, |i: int| None::<bool>)),
            CellsView::Other(v) => assert(v =~= Seq::new(len as nat, |i: int| None::<u64>)),
        }
    }
    r
}

/// A cell-for-cell copy of a run of cells.
fn copy_cells<T: Copy>(v: &Vec<Option<T>>) -> (r: Vec<Option<T>>)
    ensures
        r@ == v@,
{
    let mut out: Vec<Option<T>> = Vec::new();
    let mut i: usize = 0;
    while i < v.len()
        invariant
            0 <= i <= v.len(),
            out@ == v@.subrange(0, i as int),
        decreases v.len() - i,
    {
        out.push(v[i]);
        proof {
            assert(out@ =~= v@.subrange(0, i as int + 1));
        }
        i = i + 1;
    }
    proof {
        assert(v@.subrange(0, v.len() as int) =~= v@);
    }
    out
}

/// A cell-for-cell copy of one column's data.
pub fn copy_column_data(c: &ColumnData) -> (r: ColumnData)
    ensures
        r@ == c@,
{
    match c {
        ColumnData::Int8(v) => ColumnData::Int8(copy_cells(v)),
        ColumnData::Int16(v) => ColumnData::Int16(copy_cells(v)),
        ColumnData::Int32(v) => ColumnData::Int32(copy_cells(v)),
        ColumnData::Int64(v) => ColumnData::Int64(copy_cells(v)),
        ColumnData::Float32(v) => ColumnData::Float32(copy_cells(v)),
        ColumnData::Float64(v) => ColumnData::Float64(copy_cells(v)),
        ColumnData::Boolean(v) => ColumnData::Boolean(copy_cells(v)),
        ColumnData::Other(v) => ColumnData::Other(copy_cells(v)),
    }
}

} // verus!
