//! The configured operations: an ordered table from parameter name to the
//! operation on that parameter, and the pass that runs them over a query.

use crate::add::AddFields;
use crate::add::AddOperation;
use crate::add::AddView;
use crate::query::Pair;
use crate::remove::pattern_compiles;
use crate::remove::RemoveFields;
use crate::remove::RemoveOperation;
use crate::remove::RemoveView;
use crate::wire::ConfigError;
use crate::wire::position_message;
use crate::wire::Fault;
use indexmap::IndexMap;
use vstd::prelude::*;
use vstd::string::StringExecFns;

verus! {

/// `indexmap::IndexMap`, a hash table that keeps its entries in the order in
/// which their keys were first inserted.
#[verifier::external_type_specification]
#[verifier::external_body]
#[verifier::reject_recursive_types(K)]
#[verifier::reject_recursive_types(V)]
#[verifier::reject_recursive_types(S)]
pub struct ExIndexMap<K, V, S>(indexmap::IndexMap<K, V, S>);

/// The operation configured for one query parameter.
#[derive(Debug, PartialEq)]
pub enum QueryParamOperation {
    Add(AddOperation),
    Remove(RemoveOperation),
}

/// An operation as plain values.
pub enum OperationView {
    Add(AddView),
    Remove(RemoveView),
}

impl View for QueryParamOperation {
    type V = OperationView;

    open spec fn view(&self) -> OperationView {
        match self {
            QueryParamOperation::Add(operation) => OperationView::Add(operation@),
            QueryParamOperation::Remove(operation) => OperationView::Remove(operation@),
        }
    }
}

/// The fields of an entry, as written under its tag `add` or `remove`.
#[derive(Debug, PartialEq, Eq)]
pub enum OperationFields {
    Add(AddFields),
    Remove(RemoveFields),
}

impl OperationView {
    /// The query after the operation has run for `name`.
    pub open spec fn applied(self, name: Seq<char>, query: Seq<Pair>) -> Seq<Pair> {
        match self {
            OperationView::Add(operation) => operation.applied(name, query),
            OperationView::Remove(operation) => operation.applied(name, query),
        }
    }

    /// What the fields of an entry decode to.
    pub open spec fn decoded(fields: OperationFields) -> Result<OperationView, Fault> {
        match fields {
            OperationFields::Add(fields) => match AddView::decoded(fields) {
                Ok(operation) => Ok(OperationView::Add(operation)),
                Err(fault) => Err(fault),
            },
            OperationFields::Remove(fields) => match RemoveView::decoded(fields) {
                Ok(operation) => Ok(OperationView::Remove(operation)),
                Err(fault) => Err(fault),
            },
        }
    }
}

impl QueryParamOperation {
    /// Runs the operation for `name` on `query`.
    pub fn apply(&self, name: &str, query: &mut Vec<(String, String)>)
        ensures
            final(query).deep_view() == self@.applied(name@, old(query).deep_view()),
    {
        match self {
            QueryParamOperation::Add(operation) => operation.apply(name, query),
            QueryParamOperation::Remove(operation) => operation.apply(name, query),
        }
    }

    /// Checks the fields of an entry and builds its operation.
    pub fn decode(fields: &OperationFields) -> (decoded: Result<Self, ConfigError>)
        ensures
            match OperationView::decoded(*fields) {
                Ok(view) => decoded is Ok && decoded->Ok_0@ == view,
                Err(fault) => decoded is Err && decoded->Err_0@ == fault,
            },
    {
        match fields {
            OperationFields::Add(fields) => match AddOperation::decode(fields) {
                Ok(operation) => Ok(QueryParamOperation::Add(operation)),
                Err(error) => Err(error),
            },
            OperationFields::Remove(fields) => match RemoveOperation::decode(fields) {
                Ok(operation) => Ok(QueryParamOperation::Remove(operation)),
                Err(error) => Err(error),
            },
        }
    }
}

/// One entry of the table as plain values: a parameter's name, and its
/// operation.
pub type Entry = (Seq<char>, OperationView);

/// The entries that `table` holds, in its order, each as plain values.
pub uninterp spec fn table_entries(table: IndexMap<String, QueryParamOperation>) -> Seq<Entry>;

/// The index of the entry of `entries` named `name`, if there is one.
pub open spec fn entry_index(entries: Seq<Entry>, name: Seq<char>) -> Option<int> {
    if exists|i: int| 0 <= i < entries.len() && entries[i].0 == name {
        Some(choose|i: int| 0 <= i < entries.len() && entries[i].0 == name)
    } else {
        None
    }
}

/// The entries after `operation` has been inserted under `name`: in the
/// place of the entry of that name where there is one, else behind the last.
pub open spec fn entries_with(
    entries: Seq<Entry>,
    name: Seq<char>,
    operation: OperationView,
) -> Seq<Entry> {
    match entry_index(entries, name) {
        Some(i) => entries.update(i, (name, operation)),
        None => entries.push((name, operation)),
    }
}

/// Calls `IndexMap::new`.
///
/// Trusted: the new table holds no entry.
#[verifier::external_body]
fn table_new() -> (table: IndexMap<String, QueryParamOperation>)
    ensures
        table_entries(table) == Seq::<Entry>::empty(),
{
    IndexMap::new()
}

/// Calls `IndexMap::len`.
///
/// Trusted: the result is the number of entries.
#[verifier::external_body]
fn table_len(table: &IndexMap<String, QueryParamOperation>) -> (len: usize)
    ensures
        len == table_entries(*table).len(),
{
    table.len()
}

/// Calls `IndexMap::get_index`.
///
/// Trusted: an index below the length yields the entry at that place in the
/// order; any other index yields nothing.
#[verifier::external_body]
fn table_get_index(table: &IndexMap<String, QueryParamOperation>, index: usize) -> (entry: Option<
    (&String, &QueryParamOperation),
>)
    ensures
        match entry {
            Some((name, operation)) => {
                &&& index < table_entries(*table).len()
                &&& name@ == table_entries(*table)[index as int].0
                &&& operation@ == table_entries(*table)[index as int].1
            },
            None => index >= table_entries(*table).len(),
        },
{
    table.get_index(index)
}

/// Calls `IndexMap::insert`.
///
/// Trusted: where an entry of an equal key exists it keeps its place and key
/// and takes the new value, and the old value is returned; otherwise the new
/// entry goes behind the last and nothing is returned. No other entry changes.
#[verifier::external_body]
fn table_insert(
    table: &mut IndexMap<String, QueryParamOperation>,
    name: String,
    operation: QueryParamOperation,
) -> (replaced: Option<QueryParamOperation>)
    ensures
        table_entries(*final(table)) == entries_with(table_entries(*old(table)), name@, operation@),
        match entry_index(table_entries(*old(table)), name@) {
            Some(at) => replaced is Some && replaced->Some_0@ == table_entries(*old(table))[at].1,
            None => replaced is None,
        },
{
    table.insert(name, operation)
}

/// Whether no two entries bear the same name.
pub open spec fn distinct_names(entries: Seq<Entry>) -> bool {
    forall|i: int, j: int|
        0 <= i < j < entries.len() ==> (#[trigger] entries[i]).0 != (#[trigger] entries[j]).0
}

/// The query after every entry's operation has run on it, first entry first,
/// each on what the one before it left.
pub open spec fn run(entries: Seq<Entry>, query: Seq<Pair>) -> Seq<Pair>
    decreases entries.len(),
{
    if entries.len() == 0 {
        query
    } else {
        let last = entries.last();
        last.1.applied(last.0, run(entries.drop_last(), query))
    }
}

/// Running no operation leaves the query as it is.
pub proof fn lemma_run_nothing(query: Seq<Pair>)
    ensures
        run(Seq::<Entry>::empty(), query) == query,
{
}

/// Inserting under a name keeps the names distinct.
pub proof fn lemma_insert_keeps_names_distinct(
    entries: Seq<Entry>,
    name: Seq<char>,
    operation: OperationView,
)
    requires
        distinct_names(entries),
    ensures
        distinct_names(entries_with(entries, name, operation)),
{
    let after = entries_with(entries, name, operation);
    match entry_index(entries, name) {
        Some(at) => {
            assert forall|i: int, j: int| 0 <= i < j < after.len() implies (#[trigger] after[i]).0
                != (#[trigger] after[j]).0 by {
                assert(entries[i].0 != entries[j].0);
            }
        },
        None => {
            assert forall|i: int, j: int| 0 <= i < j < after.len() implies (#[trigger] after[i]).0
                != (#[trigger] after[j]).0 by {
                if j < entries.len() {
                    assert(entries[i].0 != entries[j].0);
                } else {
                    assert(entries[i].0 != name);
                }
            }
        },
    }
}

/// What the entries of a configuration decode to, taken in their order: each
/// is inserted under its name, and the first that is refused refuses the
/// whole.
pub open spec fn table_decoded(raw: Seq<(String, OperationFields)>) -> Result<Seq<Entry>, Fault>
    decreases raw.len(),
{
    if raw.len() == 0 {
        Ok(Seq::empty())
    } else {
        match table_decoded(raw.drop_last()) {
            Err(fault) => Err(fault),
            Ok(entries) => match OperationView::decoded(raw.last().1) {
                Err(fault) => Err(fault),
                Ok(operation) => Ok(entries_with(entries, raw.last().0@, operation)),
            },
        }
    }
}

proof fn lemma_refusal_stands(raw: Seq<(String, OperationFields)>, len: int)
    requires
        0 <= len <= raw.len(),
        table_decoded(raw.take(len)) is Err,
    ensures
        table_decoded(raw) == table_decoded(raw.take(len)),
    decreases raw.len(),
{
    if len == raw.len() {
        assert(raw.take(len) =~= raw);
    } else {
        assert(raw.drop_last().take(len) =~= raw.take(len));
        lemma_refusal_stands(raw.drop_last(), len);
    }
}

/// A `remove` entry whose pattern does not compile refuses the whole
/// configuration, wherever it stands and whatever the other entries hold.
pub proof fn lemma_invalid_pattern_refuses(raw: Seq<(String, OperationFields)>, at: int)
    requires
        0 <= at < raw.len(),
        raw[at].1 is Remove,
        raw[at].1->Remove_0.regexp is Some,
        !pattern_compiles(raw[at].1->Remove_0.regexp->Some_0@),
    ensures
        table_decoded(raw) is Err,
{
    let upto = raw.take(at + 1);
    assert(upto.last() == raw[at]);
    assert(RemoveView::decoded(raw[at].1->Remove_0) is Err);
    assert(table_decoded(upto) is Err);
    lemma_refusal_stands(raw, at + 1);
}

/// How the warning about a refused configuration begins.
pub open spec fn warning_prefix() -> Seq<char> {
    "Invalid configuration: "@
}

/// The configured operations, in the order in which their parameters were
/// first named. No two entries bear the same name.
#[derive(Debug)]
pub struct Config {
    params: IndexMap<String, QueryParamOperation>,
}

impl Config {
    #[verifier::type_invariant]
    spec fn names_are_distinct(self) -> bool {
        distinct_names(table_entries(self.params))
    }

    /// The entries, in the order in which they run.
    pub closed spec fn operations(&self) -> Seq<Entry> {
        table_entries(self.params)
    }

    /// A table without entries.
    pub fn new() -> (config: Self)
        ensures
            config.operations() == Seq::<Entry>::empty(),
            distinct_names(config.operations()),
    {
        Config { params: table_new() }
    }

    /// The number of entries.
    pub fn len(&self) -> (len: usize)
        ensures
            len == self.operations().len(),
            distinct_names(self.operations()),
    {
        proof {
            use_type_invariant(self);
        }
        table_len(&self.params)
    }

    /// The entry at `index` in the table's order: the parameter's name and
    /// its operation. `None` from the number of entries on.
    pub fn entry(&self, index: usize) -> (entry: Option<(&str, &QueryParamOperation)>)
        ensures
            match entry {
                Some((name, operation)) => {
                    &&& index < self.operations().len()
                    &&& name@ == self.operations()[index as int].0
                    &&& operation@ == self.operations()[index as int].1
                },
                None => index >= self.operations().len(),
            },
    {
        match table_get_index(&self.params, index) {
            Some((name, operation)) => Some((name.as_str(), operation)),
            None => None,
        }
    }

    /// This table with `operation` as the operation of the parameter `name`.
    /// A parameter that is already in the table keeps its place; a new one
    /// goes last.
    pub fn with(self, name: String, operation: QueryParamOperation) -> (config: Self)
        ensures
            config.operations() == entries_with(self.operations(), name@, operation@),
            distinct_names(config.operations()),
    {
        proof {
            use_type_invariant(&self);
            lemma_insert_keeps_names_distinct(table_entries(self.params), name@, operation@);
        }
        let mut params = self.params;
        let _ = table_insert(&mut params, name, operation);
        Config { params }
    }

    /// Checks the entries of a configuration in their order and builds the
    /// table. An entry whose name came before takes the earlier one's place.
    pub fn decode(entries: &Vec<(String, OperationFields)>) -> (decoded: Result<Self, ConfigError>)
        ensures
            match table_decoded(entries@) {
                Ok(table) => decoded is Ok && decoded->Ok_0.operations() == table,
                Err(fault) => decoded is Err && decoded->Err_0@ == fault,
            },
            decoded is Ok ==> distinct_names(decoded->Ok_0.operations()),
    {
        let mut config = Config::new();
        let mut next: usize = 0;
        while next < entries.len()
            invariant
                next <= entries.len(),
                table_decoded(entries@.take(next as int)) == Ok::<Seq<Entry>, Fault>(
                    config.operations(),
                ),
            decreases entries.len() - next,
        {
            assert(entries@.take(next + 1).drop_last() =~= entries@.take(next as int));
            match QueryParamOperation::decode(&entries[next].1) {
                Ok(operation) => {
                    config = config.with(entries[next].0.clone(), operation);
                },
                Err(error) => {
                    proof {
                        lemma_refusal_stands(entries@, next + 1);
                    }
                    return Err(error);
                },
            }
            next = next + 1;
        }
        proof {
            assert(entries@.take(next as int) =~= entries@);
            use_type_invariant(&config);
        }
        Ok(config)
    }

    /// Runs every operation on `query`, in the table's order. Each operation
    /// sees what the ones before it have left.
    pub fn apply(&self, query: &mut Vec<(String, String)>)
        ensures
            final(query).deep_view() == run(self.operations(), old(query).deep_view()),
            self.operations().len() == 0 ==> final(query).deep_view() == old(query).deep_view(),
    {
        let ghost entries = self.operations();
        let ghost initial = query.deep_view();
        let len = table_len(&self.params);
        let mut next: usize = 0;
        while next < len
            invariant
                next <= len,
                len == entries.len(),
                entries == table_entries(self.params),
                query.deep_view() == run(entries.take(next as int), initial),
            decreases len - next,
        {
            assert(entries.take(next + 1).drop_last() =~= entries.take(next as int));
            match table_get_index(&self.params, next) {
                Some((name, operation)) => operation.apply(name.as_str(), query),
                None => {},
            }
            next = next + 1;
        }
        assert(entries.take(next as int) =~= entries);
    }
}

/// Settles the configuration to run with, from what the payload was read
/// as: its entries in the order in which they were written, or the reader's
/// objection.
///
/// A payload that was not read, or whose entries are refused, gives the empty
/// table and one warning to emit; the request is served all the same.
pub fn get_config(payload: Result<Vec<(String, OperationFields)>, String>) -> (loaded: (
    Config,
    Option<String>,
))
    ensures
        match payload {
            Ok(entries) => match table_decoded(entries@) {
                Ok(table) => loaded.0.operations() == table && loaded.1 is None,
                Err(fault) => {
                    &&& loaded.0.operations() == Seq::<Entry>::empty()
                    &&& loaded.1 is Some
                    &&& warning_prefix().is_prefix_of(loaded.1->Some_0@)
                    &&& fault == Fault::Position ==> loaded.1->Some_0@ == warning_prefix()
                        + position_message()
                },
            },
            Err(objection) => {
                &&& loaded.0.operations() == Seq::<Entry>::empty()
                &&& loaded.1 is Some
                &&& loaded.1->Some_0@ == warning_prefix() + objection@
            },
        },
{
    let refusal = match payload {
        Ok(entries) => match Config::decode(&entries) {
            Ok(config) => {
                return (config, None);
            },
            Err(error) => error.message(),
        },
        Err(objection) => objection,
    };
    let warning = String::from_str("Invalid configuration: ").concat(refusal.as_str());
    (Config::new(), Some(warning))
}

} // verus!
