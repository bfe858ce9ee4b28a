//! The flattening engine.
//!
//! `flatten_spec` is the mathematical definition of the traversal: which
//! table and column every value contributes to, how unmapped arrays become
//! implicit child tables, and how synthetic identifiers link child rows to
//! their parents.  `flatten_value` is the executable engine, proved to
//! compute exactly `flatten_spec`.

use crate::config::{scope_get, scope_lookup, MappingType};
use crate::strings::{synth_id, synth_id_spec};
use crate::table::{reg_add_row, row_set, RegModel, Registry, Row, RowModel};
use crate::value::{format_value, is_scalar, is_scalar_value, obj_get, obj_lookup, render, Value};
use vstd::prelude::*;

verus! {

broadcast use vstd::std_specs::vec::axiom_vec_index_decreases;

/// The fixed name of the parent-link column used when no mapping names one.
pub open spec fn parent_col() -> Seq<char> {
    "JSON_parentId"@
}

/// The fixed name of the column holding the source-file tag.
pub open spec fn file_col() -> Seq<char> {
    "keboola_file_name_col"@
}

/// The parent link carried into a child row: the column it is stored under,
/// the identifying value of the parent, and whether the column is recorded as
/// primary-key metadata.
pub struct Link {
    pub column: String,
    pub value: String,
    pub primary: bool,
}

/// The mathematical model of a parent link.
pub struct LinkModel {
    pub column: Seq<char>,
    pub value: Seq<char>,
    pub primary: bool,
}

impl View for Link {
    type V = LinkModel;

    open spec fn view(&self) -> LinkModel {
        LinkModel { column: self.column@, value: self.value@, primary: self.primary }
    }
}

/// The model of an optional borrowed link.
pub open spec fn link_model(link: Option<&Link>) -> Option<LinkModel> {
    match link {
        Some(l) => Some(l@),
        None => None,
    }
}

/// The identifying value of the row built from an object: the rendered value
/// of its `id` field when it has a scalar one, else the link the caller
/// supplied (for an array element, the synthesized `<table>_<index>`), else
/// `<table>_0` for a root object without an `id`.
pub open spec fn row_ident(
    entries: Vec<(String, Value)>,
    table: Seq<char>,
    link: Option<LinkModel>,
) -> Seq<char> {
    match obj_get(entries@, "id"@) {
        Some(idv) => if is_scalar(idv) {
            render(idv)
        } else {
            row_ident_fallback(table, link)
        },
        None => row_ident_fallback(table, link),
    }
}

/// The identifying value of a row without a scalar `id` field.
pub open spec fn row_ident_fallback(table: Seq<char>, link: Option<LinkModel>) -> Seq<char> {
    match link {
        Some(l) => l.value,
        None => synth_id_spec(table, 0),
    }
}

/// The row-building state while an object's fields are walked: the registry
/// (child relations contribute to it as they are met), the row built so far,
/// and the primary-key column names met so far.
#[verifier::ext_equal]
pub struct FieldState {
    pub reg: RegModel,
    pub row: RowModel,
    pub pks: Seq<Seq<char>>,
}

/// What one run of the engine contributes to a registry for one value.
///
/// An object builds one row for `table` (its fields walked in order by
/// `fields_spec`), appended after all the child rows its relations
/// contribute; an array flattens each element into the same table, and a
/// scalar at the top of a call contributes nothing.
pub open spec fn flatten_spec(
    reg: RegModel,
    v: Value,
    table: Seq<char>,
    scope: Seq<(String, MappingType)>,
    link: Option<LinkModel>,
    file: Seq<char>,
    add_file: bool,
) -> RegModel
    decreases v, 2int, 0int,
{
    match v {
        Value::Object(entries) => {
            let row0: RowModel = if add_file && link is None {
                seq![(file_col(), file)]
            } else {
                Seq::empty()
            };
            let st = fields_spec(
                FieldState { reg, row: row0, pks: Seq::empty() },
                entries,
                0,
                table,
                scope,
                link,
                file,
                add_file,
            );
            let row1 = if link is Some {
                row_set(st.row, link.unwrap().column, link.unwrap().value)
            } else {
                st.row
            };
            let pks1 = if link is Some && link.unwrap().primary {
                st.pks.push(link.unwrap().column)
            } else {
                st.pks
            };
            reg_add_row(st.reg, table, row1, pks1)
        },
        Value::Array(elems) => array_spec(reg, elems, 0, table, scope, link, file, add_file),
        _ => reg,
    }
}

/// The state after the fields of an object from index `i` on are walked.
pub open spec fn fields_spec(
    st: FieldState,
    entries: Vec<(String, Value)>,
    i: int,
    table: Seq<char>,
    scope: Seq<(String, MappingType)>,
    link: Option<LinkModel>,
    file: Seq<char>,
    add_file: bool,
) -> FieldState
    decreases entries, 1int, entries.len() - i,
{
    if i < 0 || i >= entries.len() {
        st
    } else {
        fields_spec(
            field_step(st, entries, i, table, scope, link, file, add_file),
            entries,
            i + 1,
            table,
            scope,
            link,
            file,
            add_file,
        )
    }
}

/// The effect of one object field on the row-building state.
///
/// A mapped column inserts its rendered value under the mapped destination (a
/// relation-shaped value under a column mapping is skipped); a mapped table
/// flattens the value into the mapped destination table under the parent
/// link named by the mapping; an unmapped scalar inserts its rendered value
/// under the field name; an unmapped object is dropped; an unmapped array is
/// an implicit child relation.  The explicit mapping entry always wins over
/// the implicit array rule.
pub open spec fn field_step(
    st: FieldState,
    entries: Vec<(String, Value)>,
    i: int,
    table: Seq<char>,
    scope: Seq<(String, MappingType)>,
    link: Option<LinkModel>,
    file: Seq<char>,
    add_file: bool,
) -> FieldState
    decreases entries[i].1, 2int, 1int,
{
    let key = entries[i].0;
    let val = entries[i].1;
    match scope_get(scope, key@) {
        Some(m) => match m {
            MappingType::Column { mapping } => if is_scalar(val) {
                FieldState {
                    reg: st.reg,
                    row: row_set(st.row, mapping.destination@, render(val)),
                    pks: if mapping.primary_key {
                        st.pks.push(mapping.destination@)
                    } else {
                        st.pks
                    },
                }
            } else {
                st
            },
            MappingType::Table(tm) => {
                let child_link = LinkModel {
                    column: match tm.parent_key {
                        Some(pk) => pk.destination@,
                        None => parent_col(),
                    },
                    value: row_ident(entries, table, link),
                    primary: match tm.parent_key {
                        Some(pk) => pk.primary_key,
                        None => false,
                    },
                };
                FieldState {
                    reg: flatten_spec(
                        st.reg,
                        val,
                        tm.destination@,
                        tm.table_mapping@,
                        Some(child_link),
                        file,
                        add_file,
                    ),
                    row: st.row,
                    pks: st.pks,
                }
            },
        },
        None => match val {
            Value::Object(_) => st,
            Value::Array(elems) => FieldState {
                reg: implicit_spec(st.reg, elems, 0, key@, file, add_file),
                row: st.row,
                pks: st.pks,
            },
            _ => FieldState {
                reg: st.reg,
                row: row_set(st.row, key@, render(val)),
                pks: st.pks,
            },
        },
    }
}

/// The registry after the elements of an unmapped array from index `i` on are
/// flattened into the implicit child table named `key`: each object element
/// becomes a child row linked through `JSON_parentId` to the synthesized
/// identifier `<key>_<index>`; elements that are not objects are ignored.
pub open spec fn implicit_spec(
    reg: RegModel,
    elems: Vec<Value>,
    i: int,
    key: Seq<char>,
    file: Seq<char>,
    add_file: bool,
) -> RegModel
    decreases elems, 1int, elems.len() - i,
{
    if i < 0 || i >= elems.len() {
        reg
    } else {
        let reg1 = if elems[i] is Object {
            flatten_spec(
                reg,
                elems[i],
                key,
                Seq::empty(),
                Some(
                    LinkModel {
                        column: parent_col(),
                        value: synth_id_spec(key, i as nat),
                        primary: false,
                    },
                ),
                file,
                add_file,
            )
        } else {
            reg
        };
        implicit_spec(reg1, elems, i + 1, key, file, add_file)
    }
}

/// The registry after the elements of an array at the top of a call from
/// index `i` on are flattened into `table`: each element keeps the link the
/// caller supplied, or is linked through `JSON_parentId` to the synthesized
/// identifier `<table>_<index>` when the caller supplied none.
pub open spec fn array_spec(
    reg: RegModel,
    elems: Vec<Value>,
    i: int,
    table: Seq<char>,
    scope: Seq<(String, MappingType)>,
    link: Option<LinkModel>,
    file: Seq<char>,
    add_file: bool,
) -> RegModel
    decreases elems, 1int, elems.len() - i,
{
    if i < 0 || i >= elems.len() {
        reg
    } else {
        let elem_link = match link {
            Some(l) => Some(l),
            None => Some(
                LinkModel {
                    column: parent_col(),
                    value: synth_id_spec(table, i as nat),
                    primary: false,
                },
            ),
        };
        let reg1 = flatten_spec(reg, elems[i], table, scope, elem_link, file, add_file);
        array_spec(reg1, elems, i + 1, table, scope, link, file, add_file)
    }
}

/// Computes the identifying value of the row built from an object.
fn compute_row_ident(entries: &Vec<(String, Value)>, table: &str, link: Option<&Link>) -> (r:
    String)
    ensures
        r@ == row_ident(*entries, table@, link_model(link)),
{
    if let Some(idv) = obj_lookup(entries, "id") {
        if is_scalar_value(idv) {
            return format_value(idv);
        }
    }
    match link {
        Some(l) => l.value.clone(),
        None => synth_id(table, 0),
    }
}

/// Recursively contributes the rows of `value` to the registry: the traversal
/// computes exactly what `flatten_spec` defines.
#[verifier::loop_isolation(false)]
pub fn flatten_value(
    reg: &mut Registry,
    value: &Value,
    table: &str,
    scope: &Vec<(String, MappingType)>,
    link: Option<&Link>,
    file: &str,
    add_file: bool,
)
    ensures
        final(reg)@ == flatten_spec(
            old(reg)@,
            *value,
            table@,
            scope@,
            link_model(link),
            file@,
            add_file,
        ),
    decreases *value,
{
    match value {
        Value::Object(entries) => {
            let ghost reg0 = reg@;
            let mut row = Row::new();
            let mut pks: Vec<String> = Vec::new();
            if add_file && link.is_none() {
                row.set("keboola_file_name_col".to_owned(), file.to_owned());
                proof {
                    assert(row@ =~= seq![(file_col(), file@)]);
                }
            }
            proof {
                assert(pks.deep_view() =~= Seq::<Seq<char>>::empty());
            }
            let ghost st0 = FieldState { reg: reg0, row: row@, pks: pks.deep_view() };
            let empty_scope: Vec<(String, MappingType)> = Vec::new();
            proof {
                assert(empty_scope@ =~= Seq::<(String, MappingType)>::empty());
            }
            let n = entries.len();
            let mut i: usize = 0;
            while i < n
                invariant
                    i <= n,
                    fields_spec(st0, *entries, 0, table@, scope@, link_model(link), file@, add_file)
                        == fields_spec(
                        FieldState { reg: reg@, row: row@, pks: pks.deep_view() },
                        *entries,
                        i as int,
                        table@,
                        scope@,
                        link_model(link),
                        file@,
                        add_file,
                    ),
                decreases n - i,
            {
                let ghost st_i = FieldState { reg: reg@, row: row@, pks: pks.deep_view() };
                let key = &entries[i].0;
                let val = &entries[i].1;
                match scope_lookup(scope, key.as_str()) {
                    Some(m) => match m {
                        MappingType::Column { mapping } => {
                            if is_scalar_value(val) {
                                row.set(mapping.destination.clone(), format_value(val));
                                if mapping.primary_key {
                                    let ghost pd = pks.deep_view();
                                    pks.push(mapping.destination.clone());
                                    proof {
                                        assert(pks.deep_view() =~= pd.push(mapping.destination@));
                                    }
                                }
                            }
                        },
                        MappingType::Table(tm) => {
                            let ident = compute_row_ident(entries, table, link);
                            let column = match &tm.parent_key {
                                Some(pk) => pk.destination.clone(),
                                None => "JSON_parentId".to_owned(),
                            };
                            let primary = match &tm.parent_key {
                                Some(pk) => pk.primary_key,
                                None => false,
                            };
                            let child_link = Link { column, value: ident, primary };
                            flatten_value(
                                reg,
                                val,
                                tm.destination.as_str(),
                                &tm.table_mapping,
                                Some(&child_link),
                                file,
                                add_file,
                            );
                        },
                    },
                    None => match val {
                        Value::Object(_) => {},
                        Value::Array(elems) => {
                            let ghost regs = reg@;
                            let en = elems.len();
                            let mut j: usize = 0;
                            while j < en
                                invariant
                                    j <= en,
                                    implicit_spec(regs, *elems, 0, key@, file@, add_file)
                                        == implicit_spec(
                                        reg@,
                                        *elems,
                                        j as int,
                                        key@,
                                        file@,
                                        add_file,
                                    ),
                                decreases en - j,
                            {
                                let elem = &elems[j];
                                match elem {
                                    Value::Object(_) => {
                                        let l = Link {
                                            column: "JSON_parentId".to_owned(),
                                            value: synth_id(key.as_str(), j),
                                            primary: false,
                                        };
                                        flatten_value(
                                            reg,
                                            elem,
                                            key.as_str(),
                                            &empty_scope,
                                            Some(&l),
                                            file,
                                            add_file,
                                        );
                                    },
                                    _ => {},
                                }
                                j = j + 1;
                            }
                        },
                        _ => {
                            row.set(key.clone(), format_value(val));
                        },
                    },
                }
                proof {
                    assert(FieldState { reg: reg@, row: row@, pks: pks.deep_view() } =~~= field_step(
                        st_i,
                        *entries,
                        i as int,
                        table@,
                        scope@,
                        link_model(link),
                        file@,
                        add_file,
                    ));
                }
                i = i + 1;
            }
            match link {
                Some(l) => {
                    row.set(l.column.clone(), l.value.clone());
                    if l.primary {
                        let ghost pd = pks.deep_view();
                        pks.push(l.column.clone());
                        proof {
                            assert(pks.deep_view() =~= pd.push(l.column@));
                        }
                    }
                },
                None => {},
            }
            reg.append_row(table, row, &pks);
            proof {
                assert(reg@ =~~= flatten_spec(
                    reg0,
                    *value,
                    table@,
                    scope@,
                    link_model(link),
                    file@,
                    add_file,
                ));
            }
        },
        Value::Array(elems) => {
            let ghost reg0 = reg@;
            let en = elems.len();
            let mut i: usize = 0;
            while i < en
                invariant
                    i <= en,
                    array_spec(reg0, *elems, 0, table@, scope@, link_model(link), file@, add_file)
                        == array_spec(
                        reg@,
                        *elems,
                        i as int,
                        table@,
                        scope@,
                        link_model(link),
                        file@,
                        add_file,
                    ),
                decreases en - i,
            {
                let elem = &elems[i];
                match link {
                    Some(l) => {
                        flatten_value(reg, elem, table, scope, Some(l), file, add_file);
                    },
                    None => {
                        let l = Link {
                            column: "JSON_parentId".to_owned(),
                            value: synth_id(table, i),
                            primary: false,
                        };
                        flatten_value(reg, elem, table, scope, Some(&l), file, add_file);
                    },
                }
                i = i + 1;
            }
        },
        _ => {},
    }
}

} // verus!
