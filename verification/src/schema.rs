//! Column types, column schemas, and the canonical output schema.

use vstd::prelude::*;

use crate::strutil::contains_str;
use crate::strutil::str_eq;

verus! {

/// The declared type of a column in the source file. The numeric and boolean
/// types can be filtered on; everything else is carried as `Other`.
#[derive(Clone, Copy, Debug, PartialEq, Eq, Structural)]
pub enum ColumnType {
    Int8,
    Int16,
    Int32,
    Int64,
    Float32,
    Float64,
    Boolean,
    Other,
}

/// One column of a file's schema: a name and a declared type, at a fixed
/// position within the file.
pub struct ColumnSchema {
    pub name: String,
    pub dtype: ColumnType,
}

impl ColumnSchema {
    pub fn new(name: String, dtype: ColumnType) -> (r: ColumnSchema)
        ensures
            r.name@ == name@,
            r.dtype == dtype,
    {
        ColumnSchema { name, dtype }
    }
}

impl View for ColumnSchema {
    type V = (Seq<char>, ColumnType);

    open spec fn view(&self) -> (Seq<char>, ColumnType) {
        (self.name@, self.dtype)
    }
}

/// The names and declared types of a run of schema entries.
pub open spec fn col_views(cols: Seq<ColumnSchema>) -> Seq<(Seq<char>, ColumnType)> {
    cols.map_values(|c: ColumnSchema| c@)
}

/// The key-value pairs of a metadata run, as characters.
pub open spec fn kv_views(ps: Seq<(String, String)>) -> Seq<(Seq<char>, Seq<char>)> {
    ps.map_values(|p: (String, String)| (p.0@, p.1@))
}

/// `kv_views` says the same as the nested view of the vector itself.
pub proof fn lemma_kv_views_deep(v: &Vec<(String, String)>)
    ensures
        v.deep_view() == kv_views(v@),
{
    assert forall|i: int| 0 <= i < v@.len() implies v.deep_view()[i] == kv_views(v@)[i] by {
        assert(v@[i].deep_view() == (v@[i].0@, v@[i].1@));
    }
    assert(v.deep_view() =~~= kv_views(v@));
}

/// The name of the reserved system index column: a precomputed row index that
/// stays out of the canonical projection unless explicitly requested, and is
/// passed through verbatim whenever it is kept.
pub open spec fn system_index_name() -> Seq<char> {
    "_hipscat_index"@
}

/// Whether `name` reads as the reserved system index column.
pub fn is_system_index(name: &str) -> (r: bool)
    ensures
        r == (name@ == system_index_name()),
{
    str_eq(name, "_hipscat_index")
}

/// The canonical output shape of one request: the source file's columns and
/// its key-value metadata, fixed once per request and immutable afterwards.
pub struct CanonicalSchema {
    pub columns: Vec<ColumnSchema>,
    pub metadata: Vec<(String, String)>,
}

/// The source columns kept by the canonical schema: all of them, except that
/// the system index column is dropped unless `keep_index` is set.
pub open spec fn spec_canonical_columns(source: Seq<ColumnSchema>, keep_index: bool) -> Seq<
    (Seq<char>, ColumnType),
>
    decreases source.len(),
{
    if source.len() == 0 {
        Seq::empty()
    } else {
        let rest = spec_canonical_columns(source.skip(1), keep_index);
        if keep_index || source[0].name@ != system_index_name() {
            seq![source[0]@] + rest
        } else {
            rest
        }
    }
}

/// Whether the request's explicit column selection names the system index
/// column, which is the one way to keep it in the canonical schema.
pub open spec fn spec_index_requested(selected: Option<Seq<Seq<char>>>) -> bool {
    match selected {
        Some(v) => v.contains(system_index_name()),
        None => false,
    }
}

/// Fixes the canonical output shape for one request from the source file's
/// schema: every source column in source order, minus the system index column
/// unless the request names it, and the source metadata carried through
/// unchanged.
pub fn derive_canonical_schema(
    source_columns: &Vec<ColumnSchema>,
    metadata: &Vec<(String, String)>,
    selected_columns: &Option<Vec<String>>,
) -> (r: CanonicalSchema)
    ensures
        col_views(r.columns@) == spec_canonical_columns(
            source_columns@,
            spec_index_requested(crate::strutil::opt_str_views(*selected_columns)),
        ),
        r.metadata.deep_view() == metadata.deep_view(),
{
    let keep_index: bool = match selected_columns {
        Some(sel) => {
            let mut found = false;
            let mut i: usize = 0;
            while i < sel.len()
                invariant
                    0 <= i <= sel.len(),
                    found ==> contains_str(sel@, system_index_name()),
                    !found ==> forall|j: int|
                        0 <= j < i ==> #[trigger] sel@[j]@ != system_index_name(),
                decreases sel.len() - i,
            {
                if is_system_index(sel[i].as_str()) {
                    found = true;
                    proof {
                        assert(sel@[i as int]@ == system_index_name());
                    }
                }
                i = i + 1;
            }
            proof {
                crate::strutil::lemma_contains_str_views(sel@, system_index_name());
            }
            found
        },
        None => false,
    };
    let mut columns: Vec<ColumnSchema> = Vec::new();
    let mut i: usize = 0;
    proof {
        assert(source_columns@.skip(0) =~= source_columns@);
        assert(col_views(columns@) + spec_canonical_columns(source_columns@, keep_index)
            =~= spec_canonical_columns(source_columns@, keep_index));
    }
    while i < source_columns.len()
        invariant
            0 <= i <= source_columns.len(),
            spec_canonical_columns(source_columns@, keep_index) == col_views(columns@)
                + spec_canonical_columns(source_columns@.skip(i as int), keep_index),
        decreases source_columns.len() - i,
    {
        let ghost pre = col_views(columns@);
        let ghost rest = source_columns@.skip(i as int);
        proof {
            assert(rest[0] == source_columns@[i as int]);
            assert(rest.skip(1) =~= source_columns@.skip(i as int + 1));
        }
        let keep = keep_index || !is_system_index(source_columns[i].name.as_str());
        if keep {
            let entry = ColumnSchema {
                name: source_columns[i].name.clone(),
                dtype: source_columns[i].dtype,
            };
            proof {
                assert(entry@ == source_columns@[i as int]@);
            }
            columns.push(entry);
            proof {
                assert(col_views(columns@) =~= pre.push(source_columns@[i as int]@));
                assert(pre.push(source_columns@[i as int]@) + spec_canonical_columns(
                    source_columns@.skip(i as int + 1),
                    keep_index,
                ) =~= pre + spec_canonical_columns(rest, keep_index));
            }
        }
        i = i + 1;
    }
    proof {
        assert(source_columns@.skip(source_columns.len() as int) =~= Seq::<ColumnSchema>::empty());
        assert(col_views(columns@) + spec_canonical_columns(
            source_columns@.skip(source_columns.len() as int),
            keep_index,
        ) =~= col_views(columns@));
    }
    let mut md: Vec<(String, String)> = Vec::new();
    let mut j: usize = 0;
    while j < metadata.len()
        invariant
            0 <= j <= metadata.len(),
            kv_views(md@) == kv_views(metadata@.subrange(0, j as int)),
        decreases metadata.len() - j,
    {
        let ghost pre = kv_views(md@);
        let entry = (metadata[j].0.clone(), metadata[j].1.clone());
        md.push(entry);
        proof {
            assert(kv_views(md@) =~~= pre.push((metadata@[j as int].0@, metadata@[j as int].1@)));
            assert(kv_views(metadata@.subrange(0, j as int + 1)) =~~= kv_views(
                metadata@.subrange(0, j as int),
            ).push((metadata@[j as int].0@, metadata@[j as int].1@)));
        }
        j = j + 1;
    }
    proof {
        assert(metadata@.subrange(0, metadata.len() as int) =~= metadata@);
        lemma_kv_views_deep(&md);
        lemma_kv_views_deep(metadata);
    }
    CanonicalSchema { columns, metadata: md }
}

} // verus!
