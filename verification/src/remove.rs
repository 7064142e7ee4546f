//! Removal of query pairs by name, either every occurrence (optionally only
//! those whose value a pattern matches) or the one at a position among them.

use crate::add::AddView;
use crate::query::lemma_model_remove;
use crate::query::Pair;
use crate::util::position_to_index;
use crate::util::resolve_position;
use crate::wire::ConfigError;
use crate::wire::Fault;
use crate::wire::PositionField;
use grep_matcher::Matcher;
use grep_matcher::NoError;
use grep_regex::RegexMatcher;
use vstd::prelude::*;
use vstd::utf8::encode_utf8;

verus! {

/// `grep_regex::RegexMatcher`, a compiled pattern. Opaque to the verifier.
#[verifier::external_type_specification]
#[verifier::external_body]
pub struct ExRegexMatcher(grep_regex::RegexMatcher);

/// `grep_regex::Error`, the reason a pattern did not compile.
#[verifier::external_type_specification]
#[verifier::external_body]
pub struct ExPatternError(grep_regex::Error);

/// `grep_matcher::NoError`, the error type of a matcher that never fails.
#[verifier::external_type_specification]
#[verifier::external_body]
pub struct ExNoError(grep_matcher::NoError);

/// Whether `RegexMatcher::new` accepts `pattern`.
pub uninterp spec fn pattern_compiles(pattern: Seq<char>) -> bool;

/// The pattern text that `matcher` was compiled from.
pub uninterp spec fn matcher_pattern(matcher: RegexMatcher) -> Seq<char>;

/// Whether a matcher compiled from `pattern` finds a match anywhere in
/// `haystack`.
pub uninterp spec fn pattern_matches(pattern: Seq<char>, haystack: Seq<u8>) -> bool;

/// Whether `pattern` matches anywhere within the text `value`, searched as its
/// UTF-8 bytes.
pub open spec fn value_matches(pattern: Seq<char>, value: Seq<char>) -> bool {
    pattern_matches(pattern, encode_utf8(value))
}

/// Calls `grep_regex::RegexMatcher::new`, which compiles `pattern` with the
/// default configuration.
///
/// Trusted: success depends on the pattern text alone, and the matcher that
/// comes back is one compiled from exactly that text.
#[verifier::external_body]
fn compile_matcher(pattern: &str) -> (compiled: Result<RegexMatcher, grep_regex::Error>)
    ensures
        compiled is Ok <==> pattern_compiles(pattern@),
        compiled is Ok ==> matcher_pattern(compiled->Ok_0) == pattern@,
{
    RegexMatcher::new(pattern)
}

/// Calls `grep_matcher::Matcher::is_match` on a `RegexMatcher`.
///
/// Trusted: the search never fails, and its answer depends only on the pattern
/// the matcher was compiled from and on the bytes searched.
#[verifier::external_body]
fn matcher_is_match(matcher: &RegexMatcher, haystack: &[u8]) -> (found: Result<bool, NoError>)
    ensures
        found is Ok,
        found->Ok_0 == pattern_matches(matcher_pattern(*matcher), haystack@),
{
    matcher.is_match(haystack)
}

/// Calls `to_string` on a `grep_regex::Error`, which writes it by its
/// `Display`.
///
/// Nothing is claimed of the text.
#[verifier::external_body]
pub(crate) fn pattern_error_text(error: &grep_regex::Error) -> String {
    error.to_string()
}

/// A pattern together with its compiled matcher.
///
/// Two values are equal when their pattern texts are equal.
#[derive(Debug)]
pub struct Regex {
    regexp: String,
    matcher: RegexMatcher,
}

impl Regex {
    #[verifier::type_invariant]
    spec fn matcher_is_of_pattern(self) -> bool {
        matcher_pattern(self.matcher) == self.regexp@
    }

    /// The pattern text.
    pub closed spec fn pattern(&self) -> Seq<char> {
        self.regexp@
    }

    /// Compiles `regexp`. Fails exactly when the text is not a valid pattern.
    pub fn new(regexp: String) -> (compiled: Result<Regex, grep_regex::Error>)
        ensures
            compiled is Ok <==> pattern_compiles(regexp@),
            compiled is Ok ==> compiled->Ok_0.pattern() == regexp@,
    {
        match compile_matcher(regexp.as_str()) {
            Ok(matcher) => Ok(Regex { regexp, matcher }),
            Err(error) => Err(error),
        }
    }

    /// The pattern text this value was compiled from.
    pub fn as_str(&self) -> (text: &str)
        ensures
            text@ == self.pattern(),
    {
        self.regexp.as_str()
    }

    /// Whether the pattern matches anywhere within `value`.
    pub fn is_match(&self, value: &str) -> (found: bool)
        ensures
            found == value_matches(self.pattern(), value@),
    {
        proof {
            use_type_invariant(self);
        }
        match matcher_is_match(&self.matcher, value.as_bytes()) {
            Ok(found) => found,
            Err(_) => false,
        }
    }
}

impl PartialEq for Regex {
    fn eq(&self, other: &Self) -> (equal: bool) {
        self.regexp == other.regexp
    }
}

impl vstd::std_specs::cmp::PartialEqSpecImpl for Regex {
    open spec fn obeys_eq_spec() -> bool {
        true
    }

    open spec fn eq_spec(&self, other: &Self) -> bool {
        self.pattern() == other.pattern()
    }
}

/// The indices of the pairs of `query` named `name`, in ascending order.
pub open spec fn occurrences(query: Seq<Pair>, name: Seq<char>) -> Seq<int>
    decreases query.len(),
{
    if query.len() == 0 {
        Seq::empty()
    } else {
        let earlier = occurrences(query.drop_last(), name);
        if query.last().0 == name {
            earlier.push(query.len() - 1)
        } else {
            earlier
        }
    }
}

/// The occurrences are exactly the indices of the pairs that bear the name,
/// each once and in ascending order.
pub proof fn lemma_occurrences(query: Seq<Pair>, name: Seq<char>)
    ensures
        forall|k: int|
            0 <= k < occurrences(query, name).len() ==> 0 <= (#[trigger] occurrences(
                query,
                name,
            )[k]) < query.len() && query[occurrences(query, name)[k]].0 == name,
        forall|j: int, k: int|
            0 <= j < k < occurrences(query, name).len() ==> occurrences(query, name)[j]
                < occurrences(query, name)[k],
        forall|i: int|
            0 <= i < query.len() && (#[trigger] query[i]).0 == name ==> occurrences(
                query,
                name,
            ).contains(i),
    decreases query.len(),
{
    if query.len() > 0 {
        let earlier = occurrences(query.drop_last(), name);
        let found = occurrences(query, name);
        lemma_occurrences(query.drop_last(), name);
        assert forall|k: int| 0 <= k < found.len() implies 0 <= (#[trigger] found[k]) < query.len()
            && query[found[k]].0 == name by {
            if k < earlier.len() {
                assert(query.drop_last()[earlier[k]] == query[earlier[k]]);
            }
        }
        assert forall|i: int|
            0 <= i < query.len() && (#[trigger] query[i]).0 == name implies found.contains(i) by {
            if i < query.len() - 1 {
                assert(query.drop_last()[i] == query[i]);
                let k = choose|k: int| 0 <= k < earlier.len() && earlier[k] == i;
                assert(found[k] == i);
            } else {
                assert(found[found.len() - 1] == i);
            }
        }
    }
}

/// Which of `count` occurrences a removal at `position` takes: the resolved
/// position, held to the last occurrence.
pub open spec fn selected_occurrence(position: int, count: nat) -> int {
    let resolved = resolve_position(position, count, false);
    if resolved < count {
        resolved as int
    } else {
        count - 1
    }
}

/// Whether a removal of every pair named `name`, narrowed by `filter` where
/// there is one, takes `pair`.
pub open spec fn condemned(name: Seq<char>, filter: Option<Seq<char>>, pair: Pair) -> bool {
    pair.0 == name && match filter {
        Some(pattern) => value_matches(pattern, pair.1),
        None => true,
    }
}

/// Whether a pair stays when every pair of a name is removed.
///
/// `same_name` says that the pair bears the name; `verdict` is the answer of
/// the value filter on the pair's value, or `None` where no filter is set.
pub fn retains(same_name: bool, verdict: Option<bool>) -> (stays: bool)
    ensures
        stays == !(same_name && (verdict is None || verdict == Some(true))),
{
    if same_name {
        match verdict {
            Some(matched) => !matched,
            None => false,
        }
    } else {
        true
    }
}

/// Removes pairs of one name: all of them, or the one at a position among
/// them.
#[derive(Debug)]
pub struct RemoveOperation {
    /// `None` removes every occurrence; `Some` removes the occurrence at that
    /// position among the pairs of the name.
    pub position: Option<i8>,
    /// Narrows a removal of every occurrence to the pairs whose value the
    /// pattern matches. A removal at a position does not consult it.
    pub regexp: Option<Regex>,
}

/// A removal as plain values; `filter` is the text of the pattern.
pub struct RemoveView {
    pub position: Option<i8>,
    pub filter: Option<Seq<char>>,
}

impl View for RemoveOperation {
    type V = RemoveView;

    open spec fn view(&self) -> RemoveView {
        RemoveView {
            position: self.position,
            filter: match self.regexp {
                Some(regexp) => Some(regexp.pattern()),
                None => None,
            },
        }
    }
}

/// The fields of a `remove` entry, as written.
#[derive(Debug, PartialEq, Eq)]
pub struct RemoveFields {
    pub position: PositionField,
    pub regexp: Option<String>,
}

impl RemoveView {
    /// The query after the removal has run for `name`.
    pub open spec fn applied(self, name: Seq<char>, query: Seq<Pair>) -> Seq<Pair> {
        match self.position {
            None => query.filter(|pair: Pair| !condemned(name, self.filter, pair)),
            Some(position) => {
                let found = occurrences(query, name);
                if found.len() == 0 {
                    query
                } else {
                    query.remove(found[selected_occurrence(position as int, found.len())])
                }
            },
        }
    }

    /// What a `position` field of a `remove` entry decodes to. A field that
    /// is missing or null asks for every occurrence; one that holds no number
    /// from -128 to 127 is refused.
    pub open spec fn position_decoded(field: PositionField) -> Result<Option<i8>, Fault> {
        match field {
            PositionField::Missing | PositionField::Null => Ok(None),
            _ => match field.number() {
                Some(position) => Ok(Some(position)),
                None => Err(Fault::Position),
            },
        }
    }

    /// What the fields of a `remove` entry decode to. The position is looked
    /// at first, then the pattern, which has to compile.
    pub open spec fn decoded(fields: RemoveFields) -> Result<RemoveView, Fault> {
        match Self::position_decoded(fields.position) {
            Err(fault) => Err(fault),
            Ok(position) => match fields.regexp {
                None => Ok(RemoveView { position, filter: None }),
                Some(regexp) => if pattern_compiles(regexp@) {
                    Ok(RemoveView { position, filter: Some(regexp@) })
                } else {
                    Err(Fault::Pattern)
                },
            },
        }
    }
}

impl RemoveOperation {
    /// An operation that removes every pair of its name.
    pub fn all() -> (operation: Self)
        ensures
            operation@ == (RemoveView { position: None, filter: None }),
    {
        Self { position: None, regexp: None }
    }

    /// An operation that removes the pair at `position` among the pairs of its
    /// name.
    pub fn position(position: i8) -> (operation: Self)
        ensures
            operation@ == (RemoveView { position: Some(position), filter: None }),
    {
        Self { position: Some(position), regexp: None }
    }

    /// This operation with `regexp` as its value filter, in place of any it
    /// had. Fails exactly when `regexp` is not a valid pattern.
    pub fn matching_regexp(self, regexp: &str) -> (narrowed: Result<Self, grep_regex::Error>)
        ensures
            narrowed is Ok <==> pattern_compiles(regexp@),
            narrowed is Ok ==> narrowed->Ok_0@ == (RemoveView {
                position: self.position,
                filter: Some(regexp@),
            }),
    {
        match Regex::new(regexp.to_owned()) {
            Ok(compiled) => Ok(Self { position: self.position, regexp: Some(compiled) }),
            Err(error) => Err(error),
        }
    }

    /// Reads the `position` field of a `remove` entry.
    pub fn deserialize(field: &PositionField) -> (decoded: Result<Option<i8>, ConfigError>)
        ensures
            match RemoveView::position_decoded(*field) {
                Ok(position) => decoded is Ok && decoded->Ok_0 == position,
                Err(fault) => decoded is Err && decoded->Err_0@ == fault,
            },
    {
        match field {
            PositionField::Missing | PositionField::Null => Ok(None),
            field => match field.to_number() {
                Some(position) => Ok(Some(position)),
                None => Err(ConfigError::InvalidPosition),
            },
        }
    }

    /// Checks the fields of a `remove` entry and builds the operation.
    pub fn decode(fields: &RemoveFields) -> (decoded: Result<Self, ConfigError>)
        ensures
            match RemoveView::decoded(*fields) {
                Ok(view) => decoded is Ok && decoded->Ok_0@ == view,
                Err(fault) => decoded is Err && decoded->Err_0@ == fault,
            },
    {
        let position = match Self::deserialize(&fields.position) {
            Ok(position) => position,
            Err(error) => {
                return Err(error);
            },
        };
        match &fields.regexp {
            None => Ok(Self { position, regexp: None }),
            Some(regexp) => match Regex::new(regexp.clone()) {
                Ok(compiled) => Ok(Self { position, regexp: Some(compiled) }),
                Err(error) => Err(ConfigError::InvalidPattern(error)),
            },
        }
    }

    /// Removes from `query` what this operation is configured to remove of the
    /// pairs named `name`. The pairs that stay keep their order.
    pub fn apply(&self, name: &str, query: &mut Vec<(String, String)>)
        ensures
            final(query).deep_view() == self@.applied(name@, old(query).deep_view()),
    {
        match self.position {
            None => self.remove_every(name, query),
            Some(position) => Self::remove_nth(position, name, query),
        }
    }

    fn remove_every(&self, name: &str, query: &mut Vec<(String, String)>)
        ensures
            final(query).deep_view() == old(query).deep_view().filter(
                |pair: Pair| !condemned(name@, self@.filter, pair),
            ),
    {
        let name = name.to_owned();
        let ghost initial = query.deep_view();
        let ghost stays = |pair: Pair| !condemned(name@, self@.filter, pair);
        // The pairs that stay, last first.
        let mut kept: Vec<(String, String)> = Vec::new();
        proof {
            reveal(Seq::filter);
            assert(query.deep_view() =~= initial.take(initial.len() as int));
            assert(initial.skip(initial.len() as int).filter(stays).len() == 0);
        }
        while query.len() > 0
            invariant
                query@.len() <= initial.len(),
                query.deep_view() == initial.take(query@.len() as int),
                kept@.len() == initial.skip(query@.len() as int).filter(stays).len(),
                forall|k: int|
                    0 <= k < kept@.len() ==> (#[trigger] kept.deep_view()[k]) == initial.skip(
                        query@.len() as int,
                    ).filter(stays)[kept@.len() - 1 - k],
                stays == |pair: Pair| !condemned(name@, self@.filter, pair),
            decreases query@.len(),
        {
            let ghost len = query@.len() as int;
            let ghost behind = initial.skip(len).filter(stays);
            let ghost longer = kept.deep_view();
            assert(query.deep_view()[len - 1] == initial[len - 1]);
            match query.pop() {
                Some(pair) => {
                    proof {
                        assert(query.deep_view() =~= initial.take(len - 1));
                        assert(initial.skip(len - 1) =~= seq![initial[len - 1]] + initial.skip(
                            len,
                        ));
                        initial.skip(len).lemma_filter_prepend(initial[len - 1], stays);
                    }
                    let same_name = pair.0 == name;
                    let verdict = match &self.regexp {
                        Some(regexp) => Some(regexp.is_match(pair.1.as_str())),
                        None => None,
                    };
                    if retains(same_name, verdict) {
                        kept.push(pair);
                        proof {
                            let found = initial.skip(len - 1).filter(stays);
                            assert(found =~= seq![initial[len - 1]] + behind);
                            let held = kept.deep_view();
                            assert forall|k: int| 0 <= k < held.len() implies (#[trigger] held[k])
                                == found[held.len() - 1 - k] by {
                                if k < kept@.len() - 1 {
                                    assert(kept.deep_view()[k] == longer[k]);
                                }
                            }
                        }
                    } else {
                        assert(initial.skip(len - 1).filter(stays) =~= behind);
                    }
                },
                None => {},
            }
        }
        let ghost found = initial.filter(stays);
        proof {
            assert(initial.skip(0) =~= initial);
            assert(query.deep_view() =~= found.take(0));
        }
        while kept.len() > 0
            invariant
                query@.len() + kept@.len() == found.len(),
                query.deep_view() == found.take(query@.len() as int),
                forall|k: int|
                    0 <= k < kept@.len() ==> (#[trigger] kept.deep_view()[k]) == found[found.len()
                        - 1 - k],
            decreases kept@.len(),
        {
            let ghost shorter = query.deep_view();
            let ghost longer = kept.deep_view();
            assert(longer[kept@.len() - 1] == found[query@.len() as int]);
            match kept.pop() {
                Some(pair) => {
                    query.push(pair);
                    proof {
                        assert(query.deep_view() =~= shorter.push((pair.0@, pair.1@)));
                        assert(query.deep_view() =~= found.take(query@.len() as int));
                        let held = kept.deep_view();
                        assert forall|k: int| 0 <= k < held.len() implies (#[trigger] held[k])
                            == found[found.len() - 1 - k] by {
                            assert(kept.deep_view()[k] == longer[k]);
                        }
                    }
                },
                None => {},
            }
        }
        proof {
            assert(found.take(found.len() as int) =~= found);
        }
    }

    fn remove_nth(position: i8, name: &str, query: &mut Vec<(String, String)>)
        ensures
            final(query).deep_view() == ({
                let found = occurrences(old(query).deep_view(), name@);
                if found.len() == 0 {
                    old(query).deep_view()
                } else {
                    old(query).deep_view().remove(
                        found[selected_occurrence(position as int, found.len())],
                    )
                }
            }),
    {
        let name = name.to_owned();
        let ghost initial = query.deep_view();
        let mut found: Vec<usize> = Vec::new();
        let mut next: usize = 0;
        while next < query.len()
            invariant
                next <= query.len(),
                query.deep_view() == initial,
                found@.len() == occurrences(initial.take(next as int), name@).len(),
                forall|k: int|
                    0 <= k < found@.len() ==> found@[k] as int == occurrences(
                        initial.take(next as int),
                        name@,
                    )[k],
                forall|k: int| 0 <= k < found@.len() ==> found@[k] < next,
            decreases query.len() - next,
        {
            assert(initial.take(next + 1).drop_last() =~= initial.take(next as int));
            if query[next].0 == name {
                found.push(next);
            }
            next = next + 1;
        }
        assert(initial.take(next as int) =~= initial);
        if found.len() > 0 {
            let resolved = position_to_index(position, found.as_slice(), false);
            let chosen = if resolved < found.len() {
                resolved
            } else {
                found.len() - 1
            };
            let ghost before = *query;
            query.remove(found[chosen]);
            proof {
                lemma_model_remove(before, *query, found@[chosen as int] as int);
            }
        }
    }
}

/// A removal of every occurrence leaves no pair that it is configured to
/// take; without a pattern, no pair of the name at all.
pub proof fn lemma_removal_of_all_leaves_none(
    name: Seq<char>,
    filter: Option<Seq<char>>,
    query: Seq<Pair>,
)
    ensures
        ({
            let after = (RemoveView { position: None, filter }).applied(name, query);
            &&& after.len() <= query.len()
            &&& forall|i: int|
                0 <= i < after.len() ==> !condemned(name, filter, #[trigger] after[i])
            &&& filter is None ==> occurrences(after, name).len() == 0
        }),
{
    let stays = |pair: Pair| !condemned(name, filter, pair);
    let after = query.filter(stays);
    query.lemma_filter_len(stays);
    assert forall|i: int| 0 <= i < after.len() implies !condemned(
        name,
        filter,
        #[trigger] after[i],
    ) by {
        query.lemma_filter_pred(stays, i);
    }
    lemma_occurrences(after, name);
    if filter is None && occurrences(after, name).len() > 0 {
        let at = occurrences(after, name)[0];
        assert(condemned(name, filter, after[at]));
    }
}

/// A removal at a position takes one pair of the name where there is one, and
/// leaves the query as it is where there is none.
pub proof fn lemma_removal_at_position_takes_one(
    name: Seq<char>,
    position: i8,
    filter: Option<Seq<char>>,
    query: Seq<Pair>,
)
    ensures
        ({
            let found = occurrences(query, name);
            let after = (RemoveView { position: Some(position), filter }).applied(name, query);
            if found.len() == 0 {
                after == query
            } else {
                let taken = found[selected_occurrence(position as int, found.len())];
                &&& 0 <= taken < query.len()
                &&& query[taken].0 == name
                &&& after == query.remove(taken)
                &&& after.len() == query.len() - 1
            }
        }),
{
    lemma_occurrences(query, name);
}

/// Inserting a pair under a name that the query does not hold, and then
/// removing at the same position among the pairs of that name, gives back the
/// query.
pub proof fn lemma_insert_then_remove_restores(
    name: Seq<char>,
    position: i8,
    value: Option<Seq<char>>,
    filter: Option<Seq<char>>,
    query: Seq<Pair>,
)
    requires
        forall|i: int| 0 <= i < query.len() ==> (#[trigger] query[i]).0 != name,
    ensures
        (RemoveView { position: Some(position), filter }).applied(
            name,
            (AddView { position, value }).applied(name, query),
        ) == query,
{
    let insertion = AddView { position, value };
    let at = insertion.index(query.len());
    let grown = insertion.applied(name, query);
    let found = occurrences(grown, name);
    lemma_occurrences(grown, name);
    assert(grown[at].0 == name);
    assert(found.contains(at));
    assert forall|k: int| 0 <= k < found.len() implies found[k] == at by {
        let i = found[k];
        if i < at {
            assert(grown[i] == query[i]);
        } else if i > at {
            assert(grown[i] == query[i - 1]);
        }
    }
    if found.len() > 1 {
        assert(found[0] < found[1]);
    }
    assert(selected_occurrence(position as int, found.len()) == 0);
    assert(grown.remove(at) =~= query);
}

/// A `remove` entry whose position is left out or written as null asks for
/// every occurrence; without a pattern it decodes to the plain removal of
/// all pairs of the name.
pub proof fn lemma_no_position_means_all(fields: RemoveFields)
    requires
        fields.position is Missing || fields.position is Null,
    ensures
        RemoveView::position_decoded(fields.position) == Ok::<Option<i8>, Fault>(None),
        fields.regexp is None ==> RemoveView::decoded(fields) == Ok::<RemoveView, Fault>(
            RemoveView { position: None, filter: None },
        ),
{
}

impl PartialEq for RemoveOperation {
    fn eq(&self, other: &Self) -> (equal: bool) {
        self.position == other.position && self.regexp == other.regexp
    }
}

impl vstd::std_specs::cmp::PartialEqSpecImpl for RemoveOperation {
    open spec fn obeys_eq_spec() -> bool {
        true
    }

    open spec fn eq_spec(&self, other: &Self) -> bool {
        self@ == other@
    }
}

} // verus!
