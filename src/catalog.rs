use vstd::prelude::*;
use vstd::string::StringExecFns;

verus! {

/// Numeric id of a table.
pub type TableId = u32;

/// Registers a table under a catalog and schema.
#[derive(Clone, Debug)]
pub struct RegisterTableRequest {
    pub catalog: String,
    pub schema: String,
    pub table_name: String,
    pub table_id: TableId,
}

/// Renames a table to `new_table_name`.
#[derive(Clone, Debug)]
pub struct RenameTableRequest {
    pub catalog: String,
    pub schema: String,
    pub table_name: String,
    pub new_table_name: String,
    pub table_id: TableId,
}

/// Removes a table from a catalog and schema.
#[derive(Clone, Debug)]
pub struct DeregisterTableRequest {
    pub catalog: String,
    pub schema: String,
    pub table_name: String,
}

/// Registers a schema under a catalog.
#[derive(Clone, Debug)]
pub struct RegisterSchemaRequest {
    pub catalog: String,
    pub schema: String,
}

/// The fully qualified name `catalog.schema.table`.
pub open spec fn full_table_name(catalog: Seq<char>, schema: Seq<char>, table: Seq<char>) -> Seq<
    char,
> {
    catalog + seq!['.'] + schema + seq!['.'] + table
}

/// Joins catalog, schema and table name with dots.
pub fn format_full_table_name(catalog: &str, schema: &str, table: &str) -> (r: String)
    ensures
        r@ == full_table_name(catalog@, schema@, table@),
{
    proof {
        reveal_strlit(".");
    }
    let r = catalog.to_owned().concat(".").concat(schema).concat(".").concat(table);
    proof {
        assert(r@ =~= full_table_name(catalog@, schema@, table@));
    }
    r
}

impl RegisterTableRequest {
    pub fn full_table_name(&self) -> (r: String)
        ensures
            r@ == full_table_name(self.catalog@, self.schema@, self.table_name@),
    {
        format_full_table_name(self.catalog.as_str(), self.schema.as_str(), self.table_name.as_str())
    }
}

impl DeregisterTableRequest {
    pub fn full_table_name(&self) -> (r: String)
        ensures
            r@ == full_table_name(self.catalog@, self.schema@, self.table_name@),
    {
        format_full_table_name(self.catalog.as_str(), self.schema.as_str(), self.table_name.as_str())
    }
}

impl RenameTableRequest {
    /// Full name of the table after the rename.
    pub fn new_full_table_name(&self) -> (r: String)
        ensures
            r@ == full_table_name(self.catalog@, self.schema@, self.new_table_name@),
    {
        format_full_table_name(
            self.catalog.as_str(),
            self.schema.as_str(),
            self.new_table_name.as_str(),
        )
    }
}

} // verus!
