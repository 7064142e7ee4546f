//! Insertion of a query pair at a position.

use crate::query::lemma_model_insert;
use crate::query::Pair;
use crate::util::position_to_index;
use crate::util::resolve_position;
use crate::wire::ConfigError;
use crate::wire::Fault;
use crate::wire::PositionField;
use vstd::prelude::*;

verus! {

/// Inserts one pair, named by the parameter the operation is configured for.
#[derive(Debug, PartialEq, Eq)]
pub struct AddOperation {
    /// Where the pair goes; see [`resolve_position`].
    pub position: i8,
    /// The pair's value; the empty text when absent.
    pub value: Option<String>,
}

/// An insertion as plain values.
pub struct AddView {
    pub position: i8,
    pub value: Option<Seq<char>>,
}

impl View for AddOperation {
    type V = AddView;

    open spec fn view(&self) -> AddView {
        AddView { position: self.position, value: self.value.deep_view() }
    }
}

/// The fields of an `add` entry, as written.
#[derive(Debug, PartialEq, Eq)]
pub struct AddFields {
    pub position: PositionField,
    pub value: Option<String>,
}

impl AddView {
    /// The text of the value that is inserted.
    pub open spec fn value_text(self) -> Seq<char> {
        match self.value {
            Some(value) => value,
            None => Seq::empty(),
        }
    }

    /// The index at which the pair goes into a query of `len` pairs.
    pub open spec fn index(self, len: nat) -> int {
        resolve_position(self.position as int, len, true) as int
    }

    /// The query after the insertion has run for `name`.
    pub open spec fn applied(self, name: Seq<char>, query: Seq<Pair>) -> Seq<Pair> {
        query.insert(self.index(query.len()), (name, self.value_text()))
    }

    /// What the fields of an `add` entry decode to. A field that is missing
    /// gives the position -1; one that is null, or holds no number from -128
    /// to 127, is refused.
    pub open spec fn decoded(fields: AddFields) -> Result<AddView, Fault> {
        match fields.position {
            PositionField::Missing => Ok(
                AddView { position: -1i8, value: fields.value.deep_view() },
            ),
            _ => match fields.position.number() {
                Some(position) => Ok(AddView { position, value: fields.value.deep_view() }),
                None => Err(Fault::Position),
            },
        }
    }
}

/// An insertion adds one pair, the one it is configured for, and keeps the
/// other pairs in their order. Run again, it adds another.
pub proof fn lemma_insertion_adds_one(operation: AddView, name: Seq<char>, query: Seq<Pair>)
    ensures
        0 <= operation.index(query.len()) <= query.len(),
        operation.applied(name, query).len() == query.len() + 1,
        operation.applied(name, query)[operation.index(query.len())] == (
            name,
            operation.value_text(),
        ),
        operation.applied(name, query).remove(operation.index(query.len())) == query,
{
    let at = operation.index(query.len());
    assert(operation.applied(name, query).remove(at) =~= query);
}

impl AddOperation {
    /// Inserts `(name, value)` at the configured position, shifting the pairs
    /// behind it to the right.
    pub fn apply(&self, name: &str, query: &mut Vec<(String, String)>)
        ensures
            final(query).deep_view() == self@.applied(name@, old(query).deep_view()),
    {
        let index = position_to_index(self.position, query.as_slice(), true);
        let value = match &self.value {
            Some(value) => value.clone(),
            None => String::new(),
        };
        let pair = (name.to_owned(), value);
        let ghost before = *query;
        query.insert(index, pair);
        proof {
            lemma_model_insert(before, *query, index as int, pair);
        }
    }

    /// The position of an operation that names none: behind the last pair.
    pub fn default_position() -> (position: i8)
        ensures
            position == -1,
    {
        -1
    }

    /// Checks the fields of an `add` entry and builds the operation.
    pub fn decode(fields: &AddFields) -> (decoded: Result<Self, ConfigError>)
        ensures
            match AddView::decoded(*fields) {
                Ok(view) => decoded is Ok && decoded->Ok_0@ == view,
                Err(fault) => decoded is Err && decoded->Err_0@ == fault,
            },
    {
        let position = match &fields.position {
            PositionField::Missing => Self::default_position(),
            field => match field.to_number() {
                Some(position) => position,
                None => {
                    return Err(ConfigError::InvalidPosition);
                },
            },
        };
        let value = match &fields.value {
            Some(value) => Some(value.clone()),
            None => None,
        };
        Ok(AddOperation { position, value })
    }
}

} // verus!
