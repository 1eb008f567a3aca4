//! Table schemas: column names with logical types.
use vstd::prelude::*;

use crate::text::copy_string;

verus! {

/// The logical type of a column.
#[derive(Clone, Copy, Debug, Eq, PartialEq, Structural)]
pub enum LogicalType {
    String,
    Bool,
    Int,
    Number,
    Decimal,
    Date,
    Time,
    DateTime,
    Duration,
    Binary,
    Null,
    Unknown,
}

/// One column of a table schema.
#[derive(Clone, Debug, Eq, PartialEq)]
pub struct ColumnSchema {
    pub name: String,
    pub logical_type: LogicalType,
    pub nullable: bool,
}

impl ColumnSchema {
    /// A nullable column of unknown type.
    pub fn unknown(name: String) -> (r: Self)
        ensures
            r.name@ == name@,
            r.logical_type == LogicalType::Unknown,
            r.nullable,
    {
        ColumnSchema { name, logical_type: LogicalType::Unknown, nullable: true }
    }
}

/// The columns of a table, in order.
#[derive(Clone, Debug, Eq, PartialEq)]
pub struct TableSchema {
    pub columns: Vec<ColumnSchema>,
}

impl TableSchema {
    /// A schema of nullable columns of unknown type with the given names.
    pub fn from_column_names(columns: Vec<String>) -> (r: Self)
        ensures
            r.columns.len() == columns.len(),
            forall|i: int|
                0 <= i < columns.len() ==> (#[trigger] r.columns@[i]).name@ == columns@[i]@
                    && r.columns@[i].logical_type == LogicalType::Unknown
                    && r.columns@[i].nullable,
    {
        let mut out: Vec<ColumnSchema> = Vec::new();
        let mut i: usize = 0;
        while i < columns.len()
            invariant
                i <= columns.len(),
                out.len() == i,
                forall|j: int|
                    0 <= j < i ==> (#[trigger] out@[j]).name@ == columns@[j]@
                        && out@[j].logical_type == LogicalType::Unknown && out@[j].nullable,
            decreases columns.len() - i,
        {
            out.push(ColumnSchema::unknown(copy_string(&columns[i])));
            i += 1;
        }
        TableSchema { columns: out }
    }

    /// The column names, in order.
    pub fn column_names(&self) -> (r: Vec<String>)
        ensures
            r.len() == self.columns.len(),
            forall|i: int| 0 <= i < r.len() ==> (#[trigger] r@[i])@ == self.columns@[i].name@,
    {
        let mut out: Vec<String> = Vec::new();
        let mut i: usize = 0;
        while i < self.columns.len()
            invariant
                i <= self.columns.len(),
                out.len() == i,
                forall|j: int| 0 <= j < i ==> (#[trigger] out@[j])@ == self.columns@[j].name@,
            decreases self.columns.len() - i,
        {
            out.push(copy_string(&self.columns[i].name));
            i += 1;
        }
        out
    }
}

/// The names of a schema's columns, in order.
pub open spec fn schema_names(s: TableSchema) -> Seq<Seq<char>> {
    s.columns@.map_values(|c: ColumnSchema| c.name@)
}

/// Naming columns and reading the names back gives the names unchanged:
/// `column_names` of `from_column_names(names)` is `names`.
pub proof fn lemma_schema_names_round_trip(names: Seq<Seq<char>>, built: TableSchema, read: Seq<Seq<char>>)
    requires
        built.columns.len() == names.len(),
        forall|i: int| 0 <= i < names.len() ==> (#[trigger] built.columns@[i]).name@ == names[i],
        read.len() == built.columns.len(),
        forall|i: int| 0 <= i < read.len() ==> #[trigger] read[i] == built.columns@[i].name@,
    ensures
        read == names,
        schema_names(built) == names,
{
    assert(read =~= names);
    assert(schema_names(built) =~= names);
}

} // verus!
