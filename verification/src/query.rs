//! The model of a query string: an ordered sequence of name and value texts.

use vstd::prelude::*;

verus! {

/// One `name=value` unit of a query string, as plain text.
pub type Pair = (Seq<char>, Seq<char>);

/// Inserting into a vector of pairs inserts the pair's text into its model.
pub proof fn lemma_model_insert(
    before: Vec<(String, String)>,
    after: Vec<(String, String)>,
    index: int,
    pair: (String, String),
)
    requires
        0 <= index <= before@.len(),
        after@ == before@.insert(index, pair),
    ensures
        after.deep_view() == before.deep_view().insert(index, (pair.0@, pair.1@)),
{
    assert(after.deep_view() =~= before.deep_view().insert(index, (pair.0@, pair.1@)));
}

/// Removing from a vector of pairs removes the same index from its model.
pub proof fn lemma_model_remove(
    before: Vec<(String, String)>,
    after: Vec<(String, String)>,
    index: int,
)
    requires
        0 <= index < before@.len(),
        after@ == before@.remove(index),
    ensures
        after.deep_view() == before.deep_view().remove(index),
{
    assert(after.deep_view() =~= before.deep_view().remove(index));
}

} // verus!
