//! Rewriting of a request target: its query is taken apart into pairs, the
//! configured operations run on them, and the target is put together again.

use crate::config::run;
use crate::config::Config;
use crate::config::Entry;
use crate::query::Pair;
use vstd::prelude::*;
use vstd::string::StringExecFns;

verus! {

/// `url::ParseError`, the reason a text is not an absolute URL.
#[verifier::external_type_specification]
#[verifier::external_body]
pub struct ExParseError(url::ParseError);

/// Whether `Url::parse` accepts `text` as an absolute URL.
pub uninterp spec fn url_parses(text: Seq<char>) -> bool;

/// The path of the URL that `text` parses to, as `Url::path` gives it.
pub uninterp spec fn url_path(text: Seq<char>) -> Seq<char>;

/// The pairs of the query of the URL that `text` parses to, decoded, as
/// `Url::query_pairs` yields them.
pub uninterp spec fn url_query_pairs(text: Seq<char>) -> Seq<Pair>;

/// The `application/x-www-form-urlencoded` text of `pairs`, as
/// `form_urlencoded::Serializer` writes it.
pub uninterp spec fn form_encoded(pairs: Seq<Pair>) -> Seq<char>;

/// Calls `url::Url::parse`, and on the URL it yields `Url::path` and
/// `Url::query_pairs`, whose items it copies into owned strings.
///
/// Trusted: whether the text parses, and the path and the decoded query pairs
/// of the URL, depend on the text alone.
#[verifier::external_body]
fn parse_url(text: &str) -> (parts: Result<(String, Vec<(String, String)>), url::ParseError>)
    ensures
        parts is Ok <==> url_parses(text@),
        parts is Ok ==> parts->Ok_0.0@ == url_path(text@),
        parts is Ok ==> parts->Ok_0.1.deep_view() == url_query_pairs(text@),
{
    let url = url::Url::parse(text)?;
    let pairs = url.query_pairs().map(|(name, value)| (name.into_owned(), value.into_owned()));
    Ok((url.path().to_owned(), pairs.collect()))
}

/// Calls `url::form_urlencoded::Serializer` on an empty string: `new`,
/// `extend_pairs` with the pairs in their order, and `finish`.
///
/// Trusted: the text that comes back depends only on the texts of the pairs
/// and on their order.
#[verifier::external_body]
fn encode_pairs(pairs: &Vec<(String, String)>) -> (text: String)
    ensures
        text@ == form_encoded(pairs.deep_view()),
{
    url::form_urlencoded::Serializer::new(String::new()).extend_pairs(pairs.iter()).finish()
}

/// A request target that does not parse as the tail of an absolute URL.
#[derive(Debug)]
pub struct MalformedUri {
    /// What the parser objected to.
    pub reason: url::ParseError,
}

/// The status with which the request hook tells the host to go on and forward
/// the request.
pub const CONTINUE: i64 = 1;

/// The origin that is put before a request target so that it parses as an
/// absolute URL. It never shows in a rewritten target.
pub open spec fn placeholder_origin() -> Seq<char> {
    "http://example.invalid"@
}

/// The rewritten form of a target whose path is `path` and whose query holds
/// `pairs`: the path, a question mark, and the encoded pairs that the
/// operations leave.
pub open spec fn rewritten(entries: Seq<Entry>, path: Seq<char>, pairs: Seq<Pair>) -> Seq<char> {
    path + seq!['?'] + form_encoded(run(entries, pairs))
}

/// `request_uri` behind the placeholder origin.
pub fn absolute_form(request_uri: &str) -> (text: String)
    ensures
        text@ == placeholder_origin() + request_uri@,
{
    String::from_str("http://example.invalid").concat(request_uri)
}

/// Puts a target together from its path and its encoded query. The question
/// mark is written also where the query is empty.
pub fn join_target(path: &str, query: &str) -> (target: String)
    ensures
        target@ == path@ + seq!['?'] + query@,
{
    proof {
        reveal_strlit("?");
        assert("?"@ =~= seq!['?']);
    }
    String::from_str(path).concat("?").concat(query)
}

/// Runs the configured operations on the query of `request_uri` and returns
/// the target to forward: the path as the URL parser normalises it, and the
/// query that the operations leave. A fragment is dropped.
///
/// Fails exactly when `request_uri`, put behind the placeholder origin, is
/// not an absolute URL.
pub fn rewrite_request_uri(config: &Config, request_uri: &str) -> (target: Result<
    String,
    MalformedUri,
>)
    ensures
        target is Ok <==> url_parses(placeholder_origin() + request_uri@),
        target is Ok ==> target->Ok_0@ == rewritten(
            config.operations(),
            url_path(placeholder_origin() + request_uri@),
            url_query_pairs(placeholder_origin() + request_uri@),
        ),
{
    let absolute = absolute_form(request_uri);
    match parse_url(absolute.as_str()) {
        Ok((path, pairs)) => {
            let mut pairs = pairs;
            config.apply(&mut pairs);
            let query = encode_pairs(&pairs);
            Ok(join_target(path.as_str(), query.as_str()))
        },
        Err(reason) => Err(MalformedUri { reason }),
    }
}

} // verus!
