//! The declarative mapping configuration: per field name, whether a value is
//! copied into a column or flattened into a nested relation.

use vstd::prelude::*;

verus! {

/// A fault found while validating a configuration.
#[derive(Debug)]
pub enum ConfigError {
    InvalidInputType(String),
    InvalidConfig(String),
}

/// Which input directory a run reads its documents from.
pub enum InputType {
    Files,
    Tables,
}

/// A field copied verbatim into a column named `destination`.
/// `primary_key` is recorded as table metadata only; it implies no
/// deduplication.
pub struct ColumnMapping {
    pub destination: String,
    pub primary_key: bool,
}

/// A field holding a nested relation, flattened into the table named
/// `destination`.  `parent_key` names the column that links child rows back to
/// the parent row (`JSON_parentId` when absent); `table_mapping` is the
/// mapping scope for the child table, keyed by field name.
pub struct TableMapping {
    pub destination: String,
    pub parent_key: Option<ColumnMapping>,
    pub table_mapping: Vec<(String, MappingType)>,
}

/// One entry of a mapping scope: a field is either a plain column or a nested
/// relation.
pub enum MappingType {
    Column { mapping: ColumnMapping },
    Table(TableMapping),
}

/// A whole configuration.
pub struct Config {
    pub parameters: Parameters,
}

/// The run parameters: the root mapping scope, the dotted root-selection
/// path, which input directory to read, and whether to add a column holding
/// each document's file name.  The `incremental` flag is configuration
/// metadata the engine does not act on.
pub struct Parameters {
    pub mapping: Vec<(String, MappingType)>,
    pub incremental: bool,
    pub root_node: String,
    pub in_type: InputType,
    pub add_file_name: bool,
}

impl Config {
    /// Checks a configuration for faults.  Every mapping shape the engine
    /// accepts is valid, so this accepts every configuration.
    pub fn validate(&self) -> (r: Result<(), ConfigError>)
        ensures
            r is Ok,
    {
        Ok(())
    }
}

/// The first mapping entry for `key` in a scope, if any.
pub open spec fn scope_get_from(scope: Seq<(String, MappingType)>, key: Seq<char>, i: int) -> Option<
    MappingType,
>
    decreases scope.len() - i,
{
    if i < 0 || i >= scope.len() {
        None
    } else if scope[i].0@ == key {
        Some(scope[i].1)
    } else {
        scope_get_from(scope, key, i + 1)
    }
}

/// The mapping entry for `key` in a scope (first entry wins).
pub open spec fn scope_get(scope: Seq<(String, MappingType)>, key: Seq<char>) -> Option<MappingType> {
    scope_get_from(scope, key, 0)
}

/// Looks `key` up in a mapping scope (first entry wins).
pub fn scope_lookup<'a>(scope: &'a Vec<(String, MappingType)>, key: &str) -> (r: Option<
    &'a MappingType,
>)
    ensures
        match r {
            Some(m) => scope_get(scope@, key@) == Some(*m),
            None => scope_get(scope@, key@) is None,
        },
{
    let n = scope.len();
    let mut i: usize = 0;
    while i < n
        invariant
            n == scope.len(),
            i <= n,
            scope_get(scope@, key@) == scope_get_from(scope@, key@, i as int),
        decreases n - i,
    {
        if crate::strings::str_eq(scope[i].0.as_str(), key) {
            return Some(&scope[i].1);
        }
        i = i + 1;
    }
    None
}

} // verus!
