//! Rows, tables and the table registry.
//!
//! A table owns an ordered, append-only list of column names and a sequence
//! of rows; a row maps column names to rendered string values.  The registry
//! accumulates every table produced by one run, in order of first
//! contribution.  A row is materialized against the table's header order only
//! at serialization time, missing columns rendering as the empty string.

use crate::strings::str_eq;
use vstd::prelude::*;

verus! {

/// The mathematical model of a row: its column/value bindings, in insertion
/// order, with column names unique.
pub type RowModel = Seq<(Seq<char>, Seq<char>)>;

/// The mathematical model of one table.
#[verifier::ext_equal]
pub struct TableModel {
    pub headers: Seq<Seq<char>>,
    pub rows: Seq<RowModel>,
    pub primary_keys: Seq<Seq<char>>,
}

/// The mathematical model of the registry: named tables, in order of first
/// contribution.
pub type RegModel = Seq<(Seq<char>, TableModel)>;

/// The value bound to `key` among the bindings of a row, from index `i` on
/// (first binding wins).
pub open spec fn row_get_from(cols: RowModel, key: Seq<char>, i: int) -> Option<Seq<char>>
    decreases cols.len() - i,
{
    if i < 0 || i >= cols.len() {
        None
    } else if cols[i].0 == key {
        Some(cols[i].1)
    } else {
        row_get_from(cols, key, i + 1)
    }
}

/// The value bound to `key` in a row, if any.
pub open spec fn row_get(cols: RowModel, key: Seq<char>) -> Option<Seq<char>> {
    row_get_from(cols, key, 0)
}

/// A row with the binding `key -> val` added: an existing binding of `key` is
/// replaced in place, a new column is appended.
pub open spec fn row_set_from(cols: RowModel, key: Seq<char>, val: Seq<char>, i: int) -> RowModel
    decreases cols.len() - i,
{
    if i < 0 || i >= cols.len() {
        cols.push((key, val))
    } else if cols[i].0 == key {
        cols.update(i, (key, val))
    } else {
        row_set_from(cols, key, val, i + 1)
    }
}

/// A row with the binding `key -> val` set (replacing any existing binding).
pub open spec fn row_set(cols: RowModel, key: Seq<char>, val: Seq<char>) -> RowModel {
    row_set_from(cols, key, val, 0)
}

/// The column names of a row, in insertion order.
pub open spec fn row_cols(cols: RowModel) -> Seq<Seq<char>> {
    cols.map_values(|p: (Seq<char>, Seq<char>)| p.0)
}

/// One record's column-to-value mapping for a single table.
pub struct Row {
    pub cols: Vec<(String, String)>,
}

impl View for Row {
    type V = RowModel;

    open spec fn view(&self) -> RowModel {
        self.cols.deep_view()
    }
}

impl Row {
    /// An empty row.
    pub fn new() -> (r: Row)
        ensures
            r@ == Seq::<(Seq<char>, Seq<char>)>::empty(),
    {
        let r = Row { cols: Vec::new() };
        proof {
            assert(r@ =~= Seq::<(Seq<char>, Seq<char>)>::empty());
        }
        r
    }

    /// Sets the binding `key -> val`, replacing an existing binding of `key`
    /// or appending a new column.
    pub fn set(&mut self, key: String, val: String)
        ensures
            final(self)@ == row_set(old(self)@, key@, val@),
    {
        let n = self.cols.len();
        let mut i: usize = 0;
        while i < n
            invariant
                n == self.cols.len(),
                i <= n,
                *self == *old(self),
                forall|j: int| 0 <= j < i ==> self@[j].0 != key@,
                row_set(old(self)@, key@, val@) == row_set_from(self@, key@, val@, i as int),
            decreases n - i,
        {
            if str_eq(self.cols[i].0.as_str(), key.as_str()) {
                self.cols[i] = (key, val);
                proof {
                    assert(self@ =~= row_set(old(self)@, key@, val@));
                }
                return ;
            }
            i = i + 1;
        }
        self.cols.push((key, val));
        proof {
            assert(self@ =~= row_set(old(self)@, key@, val@));
        }
    }

    /// The value bound to `key`, if any.
    pub fn get<'a>(&'a self, key: &str) -> (r: Option<&'a String>)
        ensures
            match r {
                Some(v) => row_get(self@, key@) == Some(v@),
                None => row_get(self@, key@) is None,
            },
    {
        let n = self.cols.len();
        let mut i: usize = 0;
        while i < n
            invariant
                n == self.cols.len(),
                i <= n,
                row_get(self@, key@) == row_get_from(self@, key@, i as int),
            decreases n - i,
        {
            if str_eq(self.cols[i].0.as_str(), key) {
                return Some(&self.cols[i].1);
            }
            i = i + 1;
        }
        None
    }
}

/// Headers extended with the columns of `cols` (from index `i` on) that they
/// do not yet hold, appended in first-seen order.
pub open spec fn add_missing_from(headers: Seq<Seq<char>>, cols: Seq<Seq<char>>, i: int) -> Seq<
    Seq<char>,
>
    decreases cols.len() - i,
{
    if i < 0 || i >= cols.len() {
        headers
    } else {
        add_missing_from(
            if headers.contains(cols[i]) {
                headers
            } else {
                headers.push(cols[i])
            },
            cols,
            i + 1,
        )
    }
}

/// Headers extended with the columns they do not yet hold, in first-seen
/// order.  Columns already present keep their place: headers only grow.
pub open spec fn add_missing(headers: Seq<Seq<char>>, cols: Seq<Seq<char>>) -> Seq<Seq<char>> {
    add_missing_from(headers, cols, 0)
}

/// A table with one more row: the row's columns are registered in the headers
/// first, then the row is appended; new primary-key metadata is merged.
pub open spec fn table_add(t: TableModel, row: RowModel, pks: Seq<Seq<char>>) -> TableModel {
    TableModel {
        headers: add_missing(t.headers, row_cols(row)),
        rows: t.rows.push(row),
        primary_keys: add_missing(t.primary_keys, pks),
    }
}

/// A table with no columns, rows or metadata yet.
pub open spec fn empty_table() -> TableModel {
    TableModel { headers: Seq::empty(), rows: Seq::empty(), primary_keys: Seq::empty() }
}

/// The index of the table named `name`, from `i` on.
pub open spec fn reg_find_from(reg: RegModel, name: Seq<char>, i: int) -> Option<int>
    decreases reg.len() - i,
{
    if i < 0 || i >= reg.len() {
        None
    } else if reg[i].0 == name {
        Some(i)
    } else {
        reg_find_from(reg, name, i + 1)
    }
}

/// The index of the table named `name` in the registry, if it exists.
pub open spec fn reg_find(reg: RegModel, name: Seq<char>) -> Option<int> {
    reg_find_from(reg, name, 0)
}

/// The registry after one row is contributed to the table named `name`: the
/// table is created on its first row, and headers only ever grow.
pub open spec fn reg_add_row(reg: RegModel, name: Seq<char>, row: RowModel, pks: Seq<Seq<char>>) -> RegModel {
    match reg_find(reg, name) {
        Some(i) => reg.update(i, (reg[i].0, table_add(reg[i].1, row, pks))),
        None => reg.push((name, table_add(empty_table(), row, pks))),
    }
}

/// A named, schema-accumulating collection of rows destined for one delimited
/// output file.
pub struct TableData {
    pub headers: Vec<String>,
    pub rows: Vec<Row>,
    pub primary_keys: Vec<String>,
}

impl View for TableData {
    type V = TableModel;

    open spec fn view(&self) -> TableModel {
        TableModel {
            headers: self.headers.deep_view(),
            rows: self.rows@.map_values(|r: Row| r@),
            primary_keys: self.primary_keys.deep_view(),
        }
    }
}

impl TableData {
    /// A table with the given initial headers and no rows.
    pub fn new(headers: Vec<String>) -> (t: TableData)
        ensures
            t@ == (TableModel {
                headers: headers.deep_view(),
                rows: Seq::<RowModel>::empty(),
                primary_keys: Seq::<Seq<char>>::empty(),
            }),
    {
        let t = TableData { headers, rows: Vec::new(), primary_keys: Vec::new() };
        proof {
            assert(t@.rows =~= Seq::<RowModel>::empty());
            assert(t@.primary_keys =~= Seq::<Seq<char>>::empty());
            assert(t@ =~= (TableModel {
                headers: t.headers.deep_view(),
                rows: Seq::<RowModel>::empty(),
                primary_keys: Seq::<Seq<char>>::empty(),
            }));
        }
        t
    }

    /// Registers the row's columns in the headers, appends the row, and
    /// merges the primary-key metadata.
    pub fn add_row(&mut self, row: Row, pks: &Vec<String>)
        ensures
            final(self)@ == table_add(old(self)@, row@, pks.deep_view()),
    {
        let ghost row_model: RowModel = row@;
        let ghost cols = row_cols(row_model);
        let n = row.cols.len();
        let mut i: usize = 0;
        while i < n
            invariant
                n == row.cols.len(),
                row@ == row_model,
                cols == row_cols(row_model),
                self.rows@ == old(self).rows@,
                self.primary_keys@ == old(self).primary_keys@,
                i <= n,
                add_missing(old(self)@.headers, cols) == add_missing_from(
                    self@.headers,
                    cols,
                    i as int,
                ),
            decreases n - i,
        {
            let ghost h = self@.headers;
            proof {
                assert(cols[i as int] == row_model[i as int].0);
            }
            if !contains_string(&self.headers, row.cols[i].0.as_str()) {
                self.headers.push(row.cols[i].0.clone());
                proof {
                    assert(self@.headers =~= h.push(cols[i as int]));
                }
            }
            i = i + 1;
        }
        let ghost p = pks.deep_view();
        let mut k: usize = 0;
        let pn = pks.len();
        while k < pn
            invariant
                pn == pks.len(),
                p == pks.deep_view(),
                self.rows@ == old(self).rows@,
                self.headers.deep_view() == add_missing(old(self)@.headers, cols),
                k <= pn,
                add_missing(old(self)@.primary_keys, p) == add_missing_from(
                    self@.primary_keys,
                    p,
                    k as int,
                ),
            decreases pn - k,
        {
            let ghost q = self@.primary_keys;
            if !contains_string(&self.primary_keys, pks[k].as_str()) {
                self.primary_keys.push(pks[k].clone());
                proof {
                    assert(self@.primary_keys =~= q.push(p[k as int]));
                }
            }
            k = k + 1;
        }
        let ghost rows_before = self@.rows;
        self.rows.push(row);
        proof {
            assert(self@.rows =~= rows_before.push(row_model));
            assert(self@ =~~= table_add(old(self)@, row_model, p));
        }
    }
}

/// The table registry: a mapping from table name to table, accumulated over
/// one processing run.  Tables are created lazily, on the first row
/// contributed to their name, and appear in order of first contribution.
pub struct Registry {
    pub entries: Vec<(String, TableData)>,
}

impl View for Registry {
    type V = RegModel;

    open spec fn view(&self) -> RegModel {
        self.entries@.map_values(|e: (String, TableData)| (e.0@, e.1@))
    }
}

impl Registry {
    /// An empty registry.
    pub fn new() -> (r: Registry)
        ensures
            r@ == Seq::<(Seq<char>, TableModel)>::empty(),
    {
        let r = Registry { entries: Vec::new() };
        proof {
            assert(r@ =~= Seq::<(Seq<char>, TableModel)>::empty());
        }
        r
    }

    /// Contributes one row to the table named `name`, creating the table on
    /// its first row.
    pub fn append_row(&mut self, name: &str, row: Row, pks: &Vec<String>)
        ensures
            final(self)@ == reg_add_row(old(self)@, name@, row@, pks.deep_view()),
    {
        let ghost before = self@;
        let n = self.entries.len();
        let mut i: usize = 0;
        while i < n
            invariant
                n == self.entries.len(),
                i <= n,
                *self == *old(self),
                before == self@,
                reg_find(before, name@) == reg_find_from(self@, name@, i as int),
            decreases n - i,
        {
            if str_eq(self.entries[i].0.as_str(), name) {
                proof {
                    assert(self@[i as int].0 == name@);
                    assert(reg_find(before, name@) == Some(i as int));
                }
                self.entries[i].1.add_row(row, pks);
                proof {
                    assert(self@ =~~= reg_add_row(before, name@, row@, pks.deep_view()));
                }
                return ;
            }
            i = i + 1;
        }
        proof {
            assert(reg_find(before, name@) is None);
        }
        let mut t = TableData::new(Vec::new());
        proof {
            assert(t@.headers =~= empty_table().headers);
            assert(t@ =~~= empty_table());
        }
        t.add_row(row, pks);
        proof {
            assert(t@ =~~= table_add(empty_table(), row@, pks.deep_view()));
        }
        self.entries.push((name.to_owned(), t));
        proof {
            assert(self@ =~~= reg_add_row(before, name@, row@, pks.deep_view()));
        }
    }

    /// The table named `name`, if it has been contributed to.
    pub fn get<'a>(&'a self, name: &str) -> (r: Option<&'a TableData>)
        ensures
            match r {
                Some(t) => {
                    &&& reg_find(self@, name@) is Some
                    &&& t@ == self@[reg_find(self@, name@).unwrap()].1
                },
                None => reg_find(self@, name@) is None,
            },
    {
        let n = self.entries.len();
        let mut i: usize = 0;
        while i < n
            invariant
                n == self.entries.len(),
                i <= n,
                reg_find(self@, name@) == reg_find_from(self@, name@, i as int),
            decreases n - i,
        {
            if str_eq(self.entries[i].0.as_str(), name) {
                proof {
                    assert(self@[i as int].0 == name@);
                }
                return Some(&self.entries[i].1);
            }
            i = i + 1;
        }
        None
    }
}

/// A row materialized against a table's header order: each header's value,
/// with missing columns rendering as the empty string.
pub open spec fn materialize(headers: Seq<Seq<char>>, row: RowModel) -> Seq<Seq<char>> {
    headers.map_values(
        |h: Seq<char>|
            match row_get(row, h) {
                Some(v) => v,
                None => Seq::<char>::empty(),
            },
    )
}

/// Materializes a row against a table's header order, for serialization:
/// one field per header, missing columns as the empty string.
pub fn render_row(headers: &Vec<String>, row: &Row) -> (out: Vec<String>)
    ensures
        out.deep_view() == materialize(headers.deep_view(), row@),
{
    let n = headers.len();
    let mut out: Vec<String> = Vec::new();
    let mut i: usize = 0;
    while i < n
        invariant
            n == headers.len(),
            i <= n,
            out@.len() == i,
            forall|j: int|
                0 <= j < i ==> out.deep_view()[j] == materialize(headers.deep_view(), row@)[j],
        decreases n - i,
    {
        let ghost hd = headers.deep_view();
        let ghost prev = out.deep_view();
        let v = match row.get(headers[i].as_str()) {
            Some(v) => v.clone(),
            None => String::new(),
        };
        proof {
            assert(hd[i as int] == headers@[i as int]@);
            assert(v@ == materialize(hd, row@)[i as int]);
        }
        out.push(v);
        proof {
            assert(out.deep_view() =~= prev.push(v@));
        }
        i = i + 1;
    }
    proof {
        assert(out.deep_view() =~= materialize(headers.deep_view(), row@));
    }
    out
}

/// Whether the character sequences of `items` hold `key`.
pub open spec fn contains_str(items: Seq<Seq<char>>, key: Seq<char>) -> bool {
    items.contains(key)
}

/// Whether `items` holds a string equal to `key`.
pub fn contains_string(items: &Vec<String>, key: &str) -> (r: bool)
    ensures
        r == contains_str(items.deep_view(), key@),
{
    let n = items.len();
    let mut i: usize = 0;
    while i < n
        invariant
            n == items.len(),
            i <= n,
            forall|j: int| 0 <= j < i ==> items.deep_view()[j] != key@,
        decreases n - i,
    {
        if str_eq(items[i].as_str(), key) {
            proof {
                assert(items.deep_view()[i as int] == key@);
            }
            return true;
        }
        i = i + 1;
    }
    proof {
        if contains_str(items.deep_view(), key@) {
            let j = choose|j: int| 0 <= j < items.deep_view().len() && items.deep_view()[j] == key@;
            assert(false);
        }
    }
    false
}

} // verus!
