//! The parser: root-path selection and the per-document driving of the
//! flattening engine into one shared table registry.

use crate::config::Config;
use crate::flatten::{flatten_spec, flatten_value, link_model, Link};
use crate::json::{parse_json, parsed_doc};
use crate::table::{RegModel, Registry, TableModel};
use crate::value::{obj_get, obj_lookup, Value};
use vstd::prelude::*;
use vstd::string::StrSliceExecFns;

verus! {

/// Why a document contributed nothing.
#[derive(Debug)]
pub enum ProcessError {
    /// The document's text is not well-formed JSON.
    DocumentParse,
    /// The configured root path does not resolve in the document: the named
    /// segment is the first one that could not be followed.
    RootNotFound(String),
}

/// The dot-separated segments of the path suffix starting at `i`.
pub open spec fn split_from(s: Seq<char>, i: int) -> Seq<Seq<char>>
    decreases s.len() - i,
{
    if i < 0 || i >= s.len() {
        seq![Seq::<char>::empty()]
    } else if s[i] == '.' {
        seq![Seq::<char>::empty()] + split_from(s, i + 1)
    } else {
        let rest = split_from(s, i + 1);
        rest.update(0, seq![s[i]] + rest[0])
    }
}

/// The dot-separated segments of a path.
pub open spec fn split_path(s: Seq<char>) -> Seq<Seq<char>> {
    split_from(s, 0)
}

proof fn lemma_split_from_len(s: Seq<char>, i: int)
    ensures
        split_from(s, i).len() >= 1,
    decreases s.len() - i,
{
    if 0 <= i && i < s.len() {
        lemma_split_from_len(s, i + 1);
    }
}

/// Where `s[start..i]` holds no dot, the segments from `start` begin with
/// `s[start..i]`: followed by the segments after the dot at `i`, or alone
/// where `i` is the end of the path.
proof fn lemma_split_segment(s: Seq<char>, start: int, i: int)
    requires
        0 <= start <= i <= s.len(),
        forall|k: int| start <= k < i ==> s[k] != '.',
    ensures
        i < s.len() && s[i] == '.' ==> split_from(s, start) == seq![s.subrange(start, i)]
            + split_from(s, i + 1),
        i == s.len() ==> split_from(s, start) == seq![s.subrange(start, i)],
    decreases i - start,
{
    if start == i {
        if i < s.len() && s[i] == '.' {
            assert(s.subrange(start, i) =~= Seq::<char>::empty());
            assert(seq![s.subrange(start, i)] + split_from(s, i + 1) =~= seq![
                Seq::<char>::empty(),
            ] + split_from(s, i + 1));
        } else if i == s.len() {
            assert(s.subrange(start, i) =~= Seq::<char>::empty());
            assert(split_from(s, start) =~= seq![s.subrange(start, i)]);
        }
    } else {
        lemma_split_segment(s, start + 1, i);
        lemma_split_from_len(s, start + 1);
        let rest = split_from(s, start + 1);
        if i < s.len() && s[i] == '.' {
            assert(rest[0] == s.subrange(start + 1, i));
            assert(seq![s[start]] + s.subrange(start + 1, i) =~= s.subrange(start, i));
            assert(split_from(s, start) =~= seq![s.subrange(start, i)] + split_from(s, i + 1));
        } else if i == s.len() {
            assert(rest[0] == s.subrange(start + 1, i));
            assert(seq![s[start]] + s.subrange(start + 1, i) =~= s.subrange(start, i));
            assert(split_from(s, start) =~= seq![s.subrange(start, i)]);
        }
    }
}

/// Splits a path on dots.  An empty path yields one empty segment; callers
/// treat the empty path before splitting.
pub fn split_dots(s: &str) -> (segs: Vec<String>)
    ensures
        segs.deep_view() == split_path(s@),
{
    let n = s.unicode_len();
    let mut segs: Vec<String> = Vec::new();
    let mut start: usize = 0;
    let mut i: usize = 0;
    proof {
        assert(segs.deep_view() =~= Seq::<Seq<char>>::empty());
        assert(split_path(s@) =~= segs.deep_view() + split_from(s@, 0));
    }
    while i < n
        invariant
            start <= i <= n,
            n == s@.len(),
            forall|k: int| start <= k < i ==> s@[k] != '.',
            split_path(s@) == segs.deep_view() + split_from(s@, start as int),
        decreases n - i,
    {
        let c = s.get_char(i);
        if c == '.' {
            let ghost pre = segs.deep_view();
            let seg = s.substring_char(start, i).to_owned();
            proof {
                lemma_split_segment(s@, start as int, i as int);
            }
            segs.push(seg);
            proof {
                assert(segs.deep_view() =~= pre.push(s@.subrange(start as int, i as int)));
                assert(segs.deep_view() + split_from(s@, i as int + 1) =~= pre + (seq![
                    s@.subrange(start as int, i as int),
                ] + split_from(s@, i as int + 1)));
            }
            start = i + 1;
        }
        i = i + 1;
    }
    let ghost pre = segs.deep_view();
    let seg = s.substring_char(start, n).to_owned();
    proof {
        lemma_split_segment(s@, start as int, n as int);
    }
    segs.push(seg);
    proof {
        assert(segs.deep_view() =~= pre.push(s@.subrange(start as int, n as int)));
        assert(segs.deep_view() =~= pre + seq![s@.subrange(start as int, n as int)]);
    }
    segs
}

/// The sub-value reached from `v` by following the segments from `i` on as
/// object-key lookups, or the first segment that could not be followed.
pub open spec fn select_spec(v: Value, segs: Seq<Seq<char>>, i: int) -> Result<Value, Seq<char>>
    decreases segs.len() - i,
{
    if i < 0 || i >= segs.len() {
        Ok(v)
    } else {
        match v {
            Value::Object(entries) => match obj_get(entries@, segs[i]) {
                Some(child) => select_spec(child, segs, i + 1),
                None => Err(segs[i]),
            },
            _ => Err(segs[i]),
        }
    }
}

/// The sub-value of `v` selected by a dotted path: the empty path selects `v`
/// itself; otherwise each segment is followed as an object-key lookup, and
/// the first segment that cannot be followed is the error.
pub open spec fn select_root_spec(v: Value, path: Seq<char>) -> Result<Value, Seq<char>> {
    if path.len() == 0 {
        Ok(v)
    } else {
        select_spec(v, split_path(path), 0)
    }
}

/// Follows a dotted path into a value by object-key lookups.  An empty path
/// returns the value unchanged; a segment that cannot be followed (the value
/// there is not an object, or lacks the key) is returned as the error.
pub fn select_root<'a>(json: &'a Value, path: &str) -> (r: Result<&'a Value, String>)
    ensures
        match r {
            Ok(v) => select_root_spec(*json, path@) == Ok::<Value, Seq<char>>(*v),
            Err(seg) => select_root_spec(*json, path@) == Err::<Value, Seq<char>>(seg@),
        },
{
    if path.unicode_len() == 0 {
        return Ok(json);
    }
    let segs = split_dots(path);
    let n = segs.len();
    let mut cur = json;
    let mut i: usize = 0;
    while i < n
        invariant
            i <= n,
            n == segs@.len(),
            segs.deep_view() == split_path(path@),
            select_root_spec(*json, path@) == select_spec(*json, segs.deep_view(), 0),
            select_spec(*json, segs.deep_view(), 0) == select_spec(
                *cur,
                segs.deep_view(),
                i as int,
            ),
        decreases n - i,
    {
        proof {
            assert(segs.deep_view()[i as int] == segs@[i as int]@);
        }
        match cur {
            Value::Object(entries) => match obj_lookup(entries, segs[i].as_str()) {
                Some(child) => {
                    cur = child;
                },
                None => {
                    return Err(segs[i].clone());
                },
            },
            _ => {
                return Err(segs[i].clone());
            },
        }
        i = i + 1;
    }
    Ok(cur)
}

/// The registry after the documents from `i` on are processed: each document's
/// root sub-value is selected by `root` and flattened into the table named
/// `root` of the registry; a document whose root path does not resolve
/// contributes nothing.
pub open spec fn run_spec(
    reg: RegModel,
    docs: Seq<(Value, Seq<char>)>,
    i: int,
    mapping: Seq<(String, crate::config::MappingType)>,
    root: Seq<char>,
    add_file: bool,
) -> RegModel
    decreases docs.len() - i,
{
    if i < 0 || i >= docs.len() {
        reg
    } else {
        let reg1 = match select_root_spec(docs[i].0, root) {
            Ok(v) => flatten_spec(reg, v, "root"@, mapping, None, docs[i].1, add_file),
            Err(_) => reg,
        };
        run_spec(reg1, docs, i + 1, mapping, root, add_file)
    }
}

/// How many of the documents from `i` on fail root selection.
pub open spec fn run_failures(docs: Seq<(Value, Seq<char>)>, i: int, root: Seq<char>) -> int
    decreases docs.len() - i,
{
    if i < 0 || i >= docs.len() {
        0
    } else {
        (match select_root_spec(docs[i].0, root) {
            Ok(_) => 0int,
            Err(_) => 1int,
        }) + run_failures(docs, i + 1, root)
    }
}

/// The model of a document batch: each document with its file tag.
pub open spec fn docs_model(docs: Seq<(Value, String)>) -> Seq<(Value, Seq<char>)> {
    docs.map_values(|d: (Value, String)| (d.0, d.1@))
}

/// The engine and its state for one run: the configuration and the registry
/// of tables accumulated so far.
pub struct Parser {
    pub config: Config,
    pub tables: Registry,
}

impl Parser {
    /// A parser for one run, with an empty registry.
    pub fn new(config: Config) -> (p: Parser)
        ensures
            p.config == config,
            p.tables@ == Seq::<(Seq<char>, TableModel)>::empty(),
    {
        Parser { config, tables: Registry::new() }
    }

    /// Recursively contributes the rows of `value` to the registry, into the
    /// table named `table_name`, under the configured mapping scope.
    pub fn process_value(&mut self, value: &Value, table_name: &str, link: Option<&Link>, file_name: &str)
        ensures
            final(self).config == old(self).config,
            final(self).tables@ == flatten_spec(
                old(self).tables@,
                *value,
                table_name@,
                old(self).config.parameters.mapping@,
                link_model(link),
                file_name@,
                old(self).config.parameters.add_file_name,
            ),
    {
        let add_file = self.config.parameters.add_file_name;
        flatten_value(
            &mut self.tables,
            value,
            table_name,
            &self.config.parameters.mapping,
            link,
            file_name,
            add_file,
        );
    }

    /// Flattens `value` as the nested relation an explicit `Table` mapping
    /// describes: into the mapping's destination table, under the mapping's
    /// child scope, with no enclosing row to link back to.
    pub fn process_table_mapping(
        &mut self,
        value: &Value,
        mapping: &crate::config::TableMapping,
        file_name: &str,
    )
        ensures
            final(self).config == old(self).config,
            final(self).tables@ == flatten_spec(
                old(self).tables@,
                *value,
                mapping.destination@,
                mapping.table_mapping@,
                None,
                file_name@,
                old(self).config.parameters.add_file_name,
            ),
    {
        let add_file = self.config.parameters.add_file_name;
        flatten_value(
            &mut self.tables,
            value,
            mapping.destination.as_str(),
            &mapping.table_mapping,
            None,
            file_name,
            add_file,
        );
    }

    /// Selects the configured root sub-value of a document.
    pub fn get_root_node<'a>(&self, json: &'a Value) -> (r: Result<&'a Value, ProcessError>)
        ensures
            match r {
                Ok(v) => select_root_spec(*json, self.config.parameters.root_node@)
                    == Ok::<Value, Seq<char>>(*v),
                Err(e) => {
                    &&& e matches ProcessError::RootNotFound(seg)
                    &&& select_root_spec(*json, self.config.parameters.root_node@)
                        == Err::<Value, Seq<char>>(seg@)
                },
            },
    {
        match select_root(json, self.config.parameters.root_node.as_str()) {
            Ok(v) => Ok(v),
            Err(seg) => Err(ProcessError::RootNotFound(seg)),
        }
    }

    /// Processes one already-parsed document: selects the configured root
    /// sub-value and flattens it into the table named `root`.  A document
    /// whose root path does not resolve contributes nothing, and the first
    /// unresolved segment is named in the error.
    pub fn process_document(&mut self, json: &Value, file_name: &str) -> (res: Result<
        (),
        ProcessError,
    >)
        ensures
            final(self).config == old(self).config,
            match select_root_spec(*json, old(self).config.parameters.root_node@) {
                Ok(v) => {
                    &&& res is Ok
                    &&& final(self).tables@ == flatten_spec(
                        old(self).tables@,
                        v,
                        "root"@,
                        old(self).config.parameters.mapping@,
                        None,
                        file_name@,
                        old(self).config.parameters.add_file_name,
                    )
                },
                Err(seg) => {
                    &&& final(self).tables@ == old(self).tables@
                    &&& res matches Err(e)
                    &&& e matches ProcessError::RootNotFound(s)
                    &&& s@ == seg
                },
            },
    {
        let root = match self.get_root_node(json) {
            Ok(v) => v,
            Err(e) => {
                return Err(e);
            },
        };
        let add_file = self.config.parameters.add_file_name;
        flatten_value(
            &mut self.tables,
            root,
            "root",
            &self.config.parameters.mapping,
            None,
            file_name,
            add_file,
        );
        Ok(())
    }

    /// Parses one document's text and processes it.  A text that is not
    /// well-formed JSON contributes nothing.
    pub fn process_str(&mut self, text: &str, file_name: &str) -> (res: Result<(), ProcessError>)
        ensures
            final(self).config == old(self).config,
            match parsed_doc(text@) {
                Some(doc) => match select_root_spec(doc, old(self).config.parameters.root_node@) {
                    Ok(v) => {
                        &&& res is Ok
                        &&& final(self).tables@ == flatten_spec(
                            old(self).tables@,
                            v,
                            "root"@,
                            old(self).config.parameters.mapping@,
                            None,
                            file_name@,
                            old(self).config.parameters.add_file_name,
                        )
                    },
                    Err(seg) => {
                        &&& final(self).tables@ == old(self).tables@
                        &&& res matches Err(e)
                        &&& e matches ProcessError::RootNotFound(s)
                        &&& s@ == seg
                    },
                },
                None => {
                    &&& final(self).tables@ == old(self).tables@
                    &&& res == Err::<(), ProcessError>(ProcessError::DocumentParse)
                },
            },
    {
        let doc = match parse_json(text) {
            Some(v) => v,
            None => {
                return Err(ProcessError::DocumentParse);
            },
        };
        self.process_document(&doc, file_name)
    }

    /// Processes a batch of already-parsed documents, in order, into the
    /// shared registry, and reports how many failed root selection.  One
    /// failing document contributes nothing and does not disturb what other
    /// documents contribute.
    pub fn process_documents(&mut self, docs: &Vec<(Value, String)>) -> (failures: usize)
        ensures
            final(self).config == old(self).config,
            final(self).tables@ == run_spec(
                old(self).tables@,
                docs_model(docs@),
                0,
                old(self).config.parameters.mapping@,
                old(self).config.parameters.root_node@,
                old(self).config.parameters.add_file_name,
            ),
            failures == run_failures(
                docs_model(docs@),
                0,
                old(self).config.parameters.root_node@,
            ),
    {
        let ghost dm = docs_model(docs@);
        let ghost reg0 = self.tables@;
        let ghost mapping = self.config.parameters.mapping@;
        let ghost root = self.config.parameters.root_node@;
        let ghost add_file = self.config.parameters.add_file_name;
        let n = docs.len();
        let mut failures: usize = 0;
        let mut i: usize = 0;
        while i < n
            invariant
                i <= n,
                n == docs@.len(),
                dm == docs_model(docs@),
                self.config == old(self).config,
                mapping == self.config.parameters.mapping@,
                root == self.config.parameters.root_node@,
                add_file == self.config.parameters.add_file_name,
                failures <= i,
                run_spec(reg0, dm, 0, mapping, root, add_file) == run_spec(
                    self.tables@,
                    dm,
                    i as int,
                    mapping,
                    root,
                    add_file,
                ),
                run_failures(dm, 0, root) == failures + run_failures(dm, i as int, root),
            decreases n - i,
        {
            proof {
                assert(dm[i as int] == (docs@[i as int].0, docs@[i as int].1@));
            }
            let res = self.process_document(&docs[i].0, docs[i].1.as_str());
            if res.is_err() {
                failures = failures + 1;
            }
            i = i + 1;
        }
        failures
    }
}

} // verus!
