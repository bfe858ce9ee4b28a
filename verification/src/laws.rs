//! Laws of the engine, stated over the mathematical models.
//!
//! The central one: flattening only ever accretes.  No table is removed,
//! renamed or reordered; headers, rows and primary-key metadata of an
//! existing table grow only by appending.  Together with the exact functional
//! contracts of the engine this pins header stability, row immutability and
//! the determinism of a run.

use crate::config::MappingType;
use crate::flatten::{
    array_spec, field_step, fields_spec, flatten_spec, implicit_spec, FieldState, LinkModel,
};
use crate::parser::run_spec;
use crate::table::{
    add_missing_from, materialize, reg_add_row, reg_find, reg_find_from, row_get, RegModel,
    RowModel,
};
use crate::value::Value;
use vstd::prelude::*;

verus! {

broadcast use vstd::std_specs::vec::axiom_vec_index_decreases;

/// `r2` extends `r1`: every table of `r1` is still there, under the same name
/// and at the same place, its headers, rows and primary-key metadata extended
/// only by appending at the end.  New tables may follow.
pub open spec fn reg_extends(r1: RegModel, r2: RegModel) -> bool {
    &&& r1.len() <= r2.len()
    &&& forall|i: int|
        0 <= i < r1.len() ==> {
            &&& (#[trigger] r2[i]).0 == r1[i].0
            &&& r1[i].1.headers.is_prefix_of(r2[i].1.headers)
            &&& r1[i].1.rows.is_prefix_of(r2[i].1.rows)
            &&& r1[i].1.primary_keys.is_prefix_of(r2[i].1.primary_keys)
        }
}

proof fn lemma_extends_refl(r: RegModel)
    ensures
        reg_extends(r, r),
{
    assert forall|i: int| 0 <= i < r.len() implies {
        &&& (#[trigger] r[i]).0 == r[i].0
        &&& r[i].1.headers.is_prefix_of(r[i].1.headers)
        &&& r[i].1.rows.is_prefix_of(r[i].1.rows)
        &&& r[i].1.primary_keys.is_prefix_of(r[i].1.primary_keys)
    } by {
        assert(r[i].1.headers =~= r[i].1.headers.subrange(0, r[i].1.headers.len() as int));
        assert(r[i].1.rows =~= r[i].1.rows.subrange(0, r[i].1.rows.len() as int));
        assert(r[i].1.primary_keys =~= r[i].1.primary_keys.subrange(
            0,
            r[i].1.primary_keys.len() as int,
        ));
    }
}

proof fn lemma_prefix_trans<A>(a: Seq<A>, b: Seq<A>, c: Seq<A>)
    requires
        a.is_prefix_of(b),
        b.is_prefix_of(c),
    ensures
        a.is_prefix_of(c),
{
    assert(a =~= c.subrange(0, a.len() as int));
}

proof fn lemma_extends_trans(r1: RegModel, r2: RegModel, r3: RegModel)
    requires
        reg_extends(r1, r2),
        reg_extends(r2, r3),
    ensures
        reg_extends(r1, r3),
{
    assert forall|i: int| 0 <= i < r1.len() implies {
        &&& (#[trigger] r3[i]).0 == r1[i].0
        &&& r1[i].1.headers.is_prefix_of(r3[i].1.headers)
        &&& r1[i].1.rows.is_prefix_of(r3[i].1.rows)
        &&& r1[i].1.primary_keys.is_prefix_of(r3[i].1.primary_keys)
    } by {
        lemma_prefix_trans(r1[i].1.headers, r2[i].1.headers, r3[i].1.headers);
        lemma_prefix_trans(r1[i].1.rows, r2[i].1.rows, r3[i].1.rows);
        lemma_prefix_trans(r1[i].1.primary_keys, r2[i].1.primary_keys, r3[i].1.primary_keys);
    }
}

proof fn lemma_add_missing_prefix(h: Seq<Seq<char>>, cols: Seq<Seq<char>>, i: int)
    ensures
        h.is_prefix_of(add_missing_from(h, cols, i)),
    decreases cols.len() - i,
{
    if 0 <= i && i < cols.len() {
        let h1 = if h.contains(cols[i]) {
            h
        } else {
            h.push(cols[i])
        };
        assert(h =~= h1.subrange(0, h.len() as int));
        lemma_add_missing_prefix(h1, cols, i + 1);
        lemma_prefix_trans(h, h1, add_missing_from(h1, cols, i + 1));
    } else {
        assert(h =~= h.subrange(0, h.len() as int));
    }
}

proof fn lemma_reg_find_range(reg: RegModel, name: Seq<char>, i: int)
    ensures
        match reg_find_from(reg, name, i) {
            Some(j) => i <= j < reg.len() && reg[j].0 == name,
            None => true,
        },
    decreases reg.len() - i,
{
    if 0 <= i && i < reg.len() && !(reg[i].0 == name) {
        lemma_reg_find_range(reg, name, i + 1);
    }
}

/// Contributing one row only accretes: the touched table keeps its headers
/// and rows as a prefix, every other table is untouched.
proof fn lemma_reg_add_row_extends(
    reg: RegModel,
    name: Seq<char>,
    row: RowModel,
    pks: Seq<Seq<char>>,
)
    ensures
        reg_extends(reg, reg_add_row(reg, name, row, pks)),
{
    lemma_extends_refl(reg);
    lemma_reg_find_range(reg, name, 0);
    match reg_find(reg, name) {
        Some(j) => {
            let after = reg_add_row(reg, name, row, pks);
            assert forall|i: int| 0 <= i < reg.len() implies {
                &&& (#[trigger] after[i]).0 == reg[i].0
                &&& reg[i].1.headers.is_prefix_of(after[i].1.headers)
                &&& reg[i].1.rows.is_prefix_of(after[i].1.rows)
                &&& reg[i].1.primary_keys.is_prefix_of(after[i].1.primary_keys)
            } by {
                if i == j {
                    lemma_add_missing_prefix(reg[j].1.headers, crate::table::row_cols(row), 0);
                    lemma_add_missing_prefix(reg[j].1.primary_keys, pks, 0);
                    assert(reg[j].1.rows =~= reg[j].1.rows.push(row).subrange(
                        0,
                        reg[j].1.rows.len() as int,
                    ));
                }
            }
        },
        None => {
        },
    }
}

/// Law: flattening only accretes.  Whatever value is flattened into a
/// registry, every table already there keeps its name and place, and its
/// headers, rows and primary-key metadata are extended only by appending:
/// headers are stable and a row, once appended, is never changed.
pub proof fn lemma_flatten_extends(
    reg: RegModel,
    v: Value,
    table: Seq<char>,
    scope: Seq<(String, MappingType)>,
    link: Option<LinkModel>,
    file: Seq<char>,
    add_file: bool,
)
    ensures
        reg_extends(reg, flatten_spec(reg, v, table, scope, link, file, add_file)),
    decreases v, 2int, 0int,
{
    match v {
        Value::Object(entries) => {
            let row0: RowModel = if add_file && link is None {
                seq![(crate::flatten::file_col(), file)]
            } else {
                Seq::empty()
            };
            let st0 = FieldState { reg, row: row0, pks: Seq::empty() };
            lemma_fields_extends(st0, entries, 0, table, scope, link, file, add_file);
            let st = fields_spec(st0, entries, 0, table, scope, link, file, add_file);
            let row1 = if link is Some {
                crate::table::row_set(st.row, link.unwrap().column, link.unwrap().value)
            } else {
                st.row
            };
            let pks1 = if link is Some && link.unwrap().primary {
                st.pks.push(link.unwrap().column)
            } else {
                st.pks
            };
            lemma_reg_add_row_extends(st.reg, table, row1, pks1);
            lemma_extends_trans(reg, st.reg, reg_add_row(st.reg, table, row1, pks1));
        },
        Value::Array(elems) => {
            lemma_array_extends(reg, elems, 0, table, scope, link, file, add_file);
        },
        _ => {
            lemma_extends_refl(reg);
        },
    }
}

proof fn lemma_fields_extends(
    st: FieldState,
    entries: Vec<(String, Value)>,
    i: int,
    table: Seq<char>,
    scope: Seq<(String, MappingType)>,
    link: Option<LinkModel>,
    file: Seq<char>,
    add_file: bool,
)
    ensures
        reg_extends(st.reg, fields_spec(st, entries, i, table, scope, link, file, add_file).reg),
    decreases entries, 1int, entries.len() - i,
{
    if 0 <= i && i < entries.len() {
        lemma_field_step_extends(st, entries, i, table, scope, link, file, add_file);
        let st1 = field_step(st, entries, i, table, scope, link, file, add_file);
        lemma_fields_extends(st1, entries, i + 1, table, scope, link, file, add_file);
        lemma_extends_trans(
            st.reg,
            st1.reg,
            fields_spec(st1, entries, i + 1, table, scope, link, file, add_file).reg,
        );
    } else {
        lemma_extends_refl(st.reg);
    }
}

proof fn lemma_field_step_extends(
    st: FieldState,
    entries: Vec<(String, Value)>,
    i: int,
    table: Seq<char>,
    scope: Seq<(String, MappingType)>,
    link: Option<LinkModel>,
    file: Seq<char>,
    add_file: bool,
)
    ensures
        reg_extends(st.reg, field_step(st, entries, i, table, scope, link, file, add_file).reg),
    decreases entries[i].1, 2int, 1int,
{
    let val = entries[i].1;
    match crate::config::scope_get(scope, entries[i].0@) {
        Some(m) => match m {
            MappingType::Column { mapping } => {
                lemma_extends_refl(st.reg);
            },
            MappingType::Table(tm) => {
                let child_link = LinkModel {
                    column: match tm.parent_key {
                        Some(pk) => pk.destination@,
                        None => crate::flatten::parent_col(),
                    },
                    value: crate::flatten::row_ident(entries, table, link),
                    primary: match tm.parent_key {
                        Some(pk) => pk.primary_key,
                        None => false,
                    },
                };
                lemma_flatten_extends(
                    st.reg,
                    val,
                    tm.destination@,
                    tm.table_mapping@,
                    Some(child_link),
                    file,
                    add_file,
                );
            },
        },
        None => match val {
            Value::Array(elems) => {
                lemma_implicit_extends(st.reg, elems, 0, entries[i].0@, file, add_file);
            },
            _ => {
                lemma_extends_refl(st.reg);
            },
        },
    }
}

proof fn lemma_implicit_extends(
    reg: RegModel,
    elems: Vec<Value>,
    i: int,
    key: Seq<char>,
    file: Seq<char>,
    add_file: bool,
)
    ensures
        reg_extends(reg, implicit_spec(reg, elems, i, key, file, add_file)),
    decreases elems, 1int, elems.len() - i,
{
    if 0 <= i && i < elems.len() {
        let reg1 = if elems[i] is Object {
            flatten_spec(
                reg,
                elems[i],
                key,
                Seq::empty(),
                Some(
                    LinkModel {
                        column: crate::flatten::parent_col(),
                        value: crate::strings::synth_id_spec(key, i as nat),
                        primary: false,
                    },
                ),
                file,
                add_file,
            )
        } else {
            reg
        };
        if elems[i] is Object {
            lemma_flatten_extends(
                reg,
                elems[i],
                key,
                Seq::empty(),
                Some(
                    LinkModel {
                        column: crate::flatten::parent_col(),
                        value: crate::strings::synth_id_spec(key, i as nat),
                        primary: false,
                    },
                ),
                file,
                add_file,
            );
        } else {
            lemma_extends_refl(reg);
        }
        lemma_implicit_extends(reg1, elems, i + 1, key, file, add_file);
        lemma_extends_trans(reg, reg1, implicit_spec(reg1, elems, i + 1, key, file, add_file));
    } else {
        lemma_extends_refl(reg);
    }
}

proof fn lemma_array_extends(
    reg: RegModel,
    elems: Vec<Value>,
    i: int,
    table: Seq<char>,
    scope: Seq<(String, MappingType)>,
    link: Option<LinkModel>,
    file: Seq<char>,
    add_file: bool,
)
    ensures
        reg_extends(reg, array_spec(reg, elems, i, table, scope, link, file, add_file)),
    decreases elems, 1int, elems.len() - i,
{
    if 0 <= i && i < elems.len() {
        let elem_link = match link {
            Some(l) => Some(l),
            None => Some(
                LinkModel {
                    column: crate::flatten::parent_col(),
                    value: crate::strings::synth_id_spec(table, i as nat),
                    primary: false,
                },
            ),
        };
        let reg1 = flatten_spec(reg, elems[i], table, scope, elem_link, file, add_file);
        lemma_flatten_extends(reg, elems[i], table, scope, elem_link, file, add_file);
        lemma_array_extends(reg1, elems, i + 1, table, scope, link, file, add_file);
        lemma_extends_trans(
            reg,
            reg1,
            array_spec(reg1, elems, i + 1, table, scope, link, file, add_file),
        );
    } else {
        lemma_extends_refl(reg);
    }
}

/// Law: a whole run only accretes.  Processing any sequence of documents
/// extends the registry: tables contributed by earlier documents keep their
/// headers as a prefix and their rows untouched, however many documents
/// follow and whether or not their root paths resolve.
pub proof fn lemma_run_extends(
    reg: RegModel,
    docs: Seq<(Value, Seq<char>)>,
    i: int,
    mapping: Seq<(String, MappingType)>,
    root: Seq<char>,
    add_file: bool,
)
    ensures
        reg_extends(reg, run_spec(reg, docs, i, mapping, root, add_file)),
    decreases docs.len() - i,
{
    if 0 <= i && i < docs.len() {
        let reg1 = match crate::parser::select_root_spec(docs[i].0, root) {
            Ok(v) => flatten_spec(reg, v, "root"@, mapping, None, docs[i].1, add_file),
            Err(_) => reg,
        };
        match crate::parser::select_root_spec(docs[i].0, root) {
            Ok(v) => {
                lemma_flatten_extends(reg, v, "root"@, mapping, None, docs[i].1, add_file);
            },
            Err(_) => {
                lemma_extends_refl(reg);
            },
        }
        lemma_run_extends(reg1, docs, i + 1, mapping, root, add_file);
        lemma_extends_trans(reg, reg1, run_spec(reg1, docs, i + 1, mapping, root, add_file));
    } else {
        lemma_extends_refl(reg);
    }
}

/// Law: a run is deterministic.  The registry a run ends with is a function
/// of the starting registry, the documents in order, and the parameters;
/// flattening the same documents twice into fresh registries therefore yields
/// the same tables, headers and rows, and byte-identical serialized output.
pub proof fn lemma_run_deterministic(
    reg1: RegModel,
    reg2: RegModel,
    docs: Seq<(Value, Seq<char>)>,
    mapping: Seq<(String, MappingType)>,
    root: Seq<char>,
    add_file: bool,
)
    requires
        reg1 == reg2,
    ensures
        run_spec(reg1, docs, 0, mapping, root, add_file) == run_spec(
            reg2,
            docs,
            0,
            mapping,
            root,
            add_file,
        ),
{
}

/// Law: schema accretion.  Materializing a row against headers that were
/// later extended keeps the row's existing fields unchanged and renders every
/// added column the row does not bind as the empty string.
pub proof fn lemma_materialize_extends(h1: Seq<Seq<char>>, h2: Seq<Seq<char>>, row: RowModel)
    requires
        h1.is_prefix_of(h2),
    ensures
        materialize(h1, row).is_prefix_of(materialize(h2, row)),
        forall|j: int|
            h1.len() <= j < h2.len() && row_get(row, #[trigger] h2[j]) is None ==> materialize(
                h2,
                row,
            )[j] == Seq::<char>::empty(),
{
    assert(materialize(h1, row) =~= materialize(h2, row).subrange(
        0,
        materialize(h1, row).len() as int,
    ));
}

/// Table names are unique: the registry is a mapping from name to table.
pub open spec fn reg_names_unique(reg: RegModel) -> bool {
    forall|i: int, j: int| 0 <= i < j < reg.len() ==> (#[trigger] reg[i]).0 != (#[trigger] reg[j]).0
}

proof fn lemma_reg_find_none_absent(reg: RegModel, name: Seq<char>, i: int)
    requires
        0 <= i,
    ensures
        reg_find_from(reg, name, i) is None ==> forall|j: int|
            i <= j < reg.len() ==> (#[trigger] reg[j]).0 != name,
    decreases reg.len() - i,
{
    if 0 <= i && i < reg.len() && !(reg[i].0 == name) {
        lemma_reg_find_none_absent(reg, name, i + 1);
    }
}

proof fn lemma_reg_add_row_unique(reg: RegModel, name: Seq<char>, row: RowModel, pks: Seq<Seq<char>>)
    requires
        reg_names_unique(reg),
    ensures
        reg_names_unique(reg_add_row(reg, name, row, pks)),
{
    lemma_reg_find_range(reg, name, 0);
    lemma_reg_find_none_absent(reg, name, 0);
}

/// Law: the registry stays a mapping.  Where table names are unique before a
/// flatten, they are unique after it: a table is updated in place, never
/// created twice under one name.
pub proof fn lemma_flatten_unique(
    reg: RegModel,
    v: Value,
    table: Seq<char>,
    scope: Seq<(String, MappingType)>,
    link: Option<LinkModel>,
    file: Seq<char>,
    add_file: bool,
)
    requires
        reg_names_unique(reg),
    ensures
        reg_names_unique(flatten_spec(reg, v, table, scope, link, file, add_file)),
    decreases v, 2int, 0int,
{
    match v {
        Value::Object(entries) => {
            let row0: RowModel = if add_file && link is None {
                seq![(crate::flatten::file_col(), file)]
            } else {
                Seq::empty()
            };
            let st0 = FieldState { reg, row: row0, pks: Seq::empty() };
            lemma_fields_unique(st0, entries, 0, table, scope, link, file, add_file);
            let st = fields_spec(st0, entries, 0, table, scope, link, file, add_file);
            let row1 = if link is Some {
                crate::table::row_set(st.row, link.unwrap().column, link.unwrap().value)
            } else {
                st.row
            };
            let pks1 = if link is Some && link.unwrap().primary {
                st.pks.push(link.unwrap().column)
            } else {
                st.pks
            };
            lemma_reg_add_row_unique(st.reg, table, row1, pks1);
        },
        Value::Array(elems) => {
            lemma_array_unique(reg, elems, 0, table, scope, link, file, add_file);
        },
        _ => {},
    }
}

proof fn lemma_fields_unique(
    st: FieldState,
    entries: Vec<(String, Value)>,
    i: int,
    table: Seq<char>,
    scope: Seq<(String, MappingType)>,
    link: Option<LinkModel>,
    file: Seq<char>,
    add_file: bool,
)
    requires
        reg_names_unique(st.reg),
    ensures
        reg_names_unique(
            fields_spec(st, entries, i, table, scope, link, file, add_file).reg,
        ),
    decreases entries, 1int, entries.len() - i,
{
    if 0 <= i && i < entries.len() {
        lemma_field_step_unique(st, entries, i, table, scope, link, file, add_file);
        let st1 = field_step(st, entries, i, table, scope, link, file, add_file);
        lemma_fields_unique(st1, entries, i + 1, table, scope, link, file, add_file);
    }
}

proof fn lemma_field_step_unique(
    st: FieldState,
    entries: Vec<(String, Value)>,
    i: int,
    table: Seq<char>,
    scope: Seq<(String, MappingType)>,
    link: Option<LinkModel>,
    file: Seq<char>,
    add_file: bool,
)
    requires
        reg_names_unique(st.reg),
    ensures
        reg_names_unique(
            field_step(st, entries, i, table, scope, link, file, add_file).reg,
        ),
    decreases entries[i].1, 2int, 1int,
{
    let val = entries[i].1;
    match crate::config::scope_get(scope, entries[i].0@) {
        Some(m) => match m {
            MappingType::Column { mapping } => {},
            MappingType::Table(tm) => {
                let child_link = LinkModel {
                    column: match tm.parent_key {
                        Some(pk) => pk.destination@,
                        None => crate::flatten::parent_col(),
                    },
                    value: crate::flatten::row_ident(entries, table, link),
                    primary: match tm.parent_key {
                        Some(pk) => pk.primary_key,
                        None => false,
                    },
                };
                lemma_flatten_unique(
                    st.reg,
                    val,
                    tm.destination@,
                    tm.table_mapping@,
                    Some(child_link),
                    file,
                    add_file,
                );
            },
        },
        None => match val {
            Value::Array(elems) => {
                lemma_implicit_unique(st.reg, elems, 0, entries[i].0@, file, add_file);
            },
            _ => {},
        },
    }
}

proof fn lemma_implicit_unique(
    reg: RegModel,
    elems: Vec<Value>,
    i: int,
    key: Seq<char>,
    file: Seq<char>,
    add_file: bool,
)
    requires
        reg_names_unique(reg),
    ensures
        reg_names_unique(implicit_spec(reg, elems, i, key, file, add_file)),
    decreases elems, 1int, elems.len() - i,
{
    if 0 <= i && i < elems.len() {
        let reg1 = if elems[i] is Object {
            flatten_spec(
                reg,
                elems[i],
                key,
                Seq::empty(),
                Some(
                    LinkModel {
                        column: crate::flatten::parent_col(),
                        value: crate::strings::synth_id_spec(key, i as nat),
                        primary: false,
                    },
                ),
                file,
                add_file,
            )
        } else {
            reg
        };
        if elems[i] is Object {
            lemma_flatten_unique(
                reg,
                elems[i],
                key,
                Seq::empty(),
                Some(
                    LinkModel {
                        column: crate::flatten::parent_col(),
                        value: crate::strings::synth_id_spec(key, i as nat),
                        primary: false,
                    },
                ),
                file,
                add_file,
            );
        }
        lemma_implicit_unique(reg1, elems, i + 1, key, file, add_file);
    }
}

proof fn lemma_array_unique(
    reg: RegModel,
    elems: Vec<Value>,
    i: int,
    table: Seq<char>,
    scope: Seq<(String, MappingType)>,
    link: Option<LinkModel>,
    file: Seq<char>,
    add_file: bool,
)
    requires
        reg_names_unique(reg),
    ensures
        reg_names_unique(array_spec(reg, elems, i, table, scope, link, file, add_file)),
    decreases elems, 1int, elems.len() - i,
{
    if 0 <= i && i < elems.len() {
        let elem_link = match link {
            Some(l) => Some(l),
            None => Some(
                LinkModel {
                    column: crate::flatten::parent_col(),
                    value: crate::strings::synth_id_spec(table, i as nat),
                    primary: false,
                },
            ),
        };
        let reg1 = flatten_spec(reg, elems[i], table, scope, elem_link, file, add_file);
        lemma_flatten_unique(reg, elems[i], table, scope, elem_link, file, add_file);
        lemma_array_unique(reg1, elems, i + 1, table, scope, link, file, add_file);
    }
}

/// Law: a whole run keeps the registry a mapping from table name to table.
pub proof fn lemma_run_unique(
    reg: RegModel,
    docs: Seq<(Value, Seq<char>)>,
    i: int,
    mapping: Seq<(String, MappingType)>,
    root: Seq<char>,
    add_file: bool,
)
    requires
        reg_names_unique(reg),
    ensures
        reg_names_unique(run_spec(reg, docs, i, mapping, root, add_file)),
    decreases docs.len() - i,
{
    if 0 <= i && i < docs.len() {
        let reg1 = match crate::parser::select_root_spec(docs[i].0, root) {
            Ok(v) => flatten_spec(reg, v, "root"@, mapping, None, docs[i].1, add_file),
            Err(_) => reg,
        };
        match crate::parser::select_root_spec(docs[i].0, root) {
            Ok(v) => {
                lemma_flatten_unique(reg, v, "root"@, mapping, None, docs[i].1, add_file);
            },
            Err(_) => {},
        }
        lemma_run_unique(reg1, docs, i + 1, mapping, root, add_file);
    }
}

} // verus!
