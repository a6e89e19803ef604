//! Filter JSON values down to the fields named by a small GraphQL-style
//! selection query.
//!
//! A query such as `{ foo bar { baz } }` is compiled into a list of
//! [`filters::Filters`] nodes, and that list projects any JSON value onto
//! the selected fields: objects keep only the named fields, arrays are
//! filtered element by element, and scalars pass through unchanged.

use vstd::prelude::*;

pub mod ast;
pub mod filters;
pub mod json;

pub use filters::Filters;
pub use filters::FiltersView;
pub use filters::QuerySemanticError;
pub use json::Json;
pub use json::JsonVal;

use ast::ArgValue;
use ast::definitions_of_document;
use ast::gql_document;
use ast::parse_document;
use filters::get_selection;
use filters::spec_filter_value;
use filters::spec_get_selection;
use json::json_from_str;
use json::json_of_value;
use json::json_text;
use json::value_model;

verus! {

/// Why a run fails: the three fatal conditions. A field requested by the
/// query but absent from a value is not an error; it is simply omitted.
#[derive(Debug, PartialEq)]
pub enum FilterError {
    /// The query text does not parse as a query document; the payload is
    /// the parser's description of the failure.
    QuerySyntax(String),
    /// The query parses but a field carries an unrecognized argument.
    QuerySemantic(QuerySemanticError),
    /// The input text is not one well-formed JSON value; the payload is the
    /// decoder's description of the failure.
    InputDecode(String),
}

/// Compiles a query text into selection nodes: the parsed document's first
/// definition drives [`filters::get_selection`]. Fails exactly on a text
/// that does not parse, or on one whose compilation rejects an argument.
pub fn compile(query: &str) -> (r: Result<Vec<Filters>, FilterError>)
    ensures
        match r {
            Ok(fs) => gql_document(query@) matches Some(doc) && spec_get_selection(doc) == Ok::<
                _,
                (Seq<char>, ArgValue),
            >(fs.deep_view()),
            Err(FilterError::QuerySyntax(_)) => gql_document(query@) is None,
            Err(FilterError::QuerySemantic(e)) => gql_document(query@) matches Some(doc)
                && spec_get_selection(doc) == Err::<Seq<FiltersView>, _>(e@),
            Err(FilterError::InputDecode(_)) => false,
        },
{
    let doc = match parse_document(query) {
        Ok(d) => d,
        Err(m) => {
            return Err(FilterError::QuerySyntax(m));
        },
    };
    let qd = definitions_of_document(doc);
    match get_selection(&qd) {
        Ok(fs) => Ok(fs),
        Err(e) => Err(FilterError::QuerySemantic(e)),
    }
}

/// Applies an already compiled selection to one decoded value. A streaming
/// run compiles its query once and calls this for every value read.
pub fn apply(filters: &Vec<Filters>, value: serde_json::Value) -> (r: Json)
    ensures
        r.deep_view() == spec_filter_value(filters.deep_view(), value_model(value)),
{
    let j = json_of_value(value);
    filters::filter_value(filters, &j)
}

/// Filters one decoded JSON value with a query text.
pub fn filter_value(query: &str, value: serde_json::Value) -> (r: Result<Json, FilterError>)
    ensures
        match r {
            Ok(out) => gql_document(query@) matches Some(doc) && spec_get_selection(
                doc,
            ) matches Ok(fs) && out.deep_view() == spec_filter_value(fs, value_model(value)),
            Err(FilterError::QuerySyntax(_)) => gql_document(query@) is None,
            Err(FilterError::QuerySemantic(e)) => gql_document(query@) matches Some(doc)
                && spec_get_selection(doc) == Err::<Seq<FiltersView>, _>(e@),
            Err(FilterError::InputDecode(_)) => false,
        },
{
    let fs = match compile(query) {
        Ok(fs) => fs,
        Err(e) => {
            return Err(e);
        },
    };
    Ok(apply(&fs, value))
}

/// Filters a JSON text with a query text. The query is parsed first, then
/// the input is decoded, then the query is compiled: a syntax error hides a
/// decode error, and a decode error hides a semantic error.
pub fn filter(query: &str, json: &str) -> (r: Result<Json, FilterError>)
    ensures
        match r {
            Ok(out) => gql_document(query@) matches Some(doc) && json_text(json@) matches Some(v)
                && spec_get_selection(doc) matches Ok(fs) && out.deep_view() == spec_filter_value(
                fs,
                v,
            ),
            Err(FilterError::QuerySyntax(_)) => gql_document(query@) is None,
            Err(FilterError::InputDecode(_)) => gql_document(query@) is Some && json_text(json@)
                is None,
            Err(FilterError::QuerySemantic(e)) => gql_document(query@) matches Some(doc)
                && json_text(json@) is Some && spec_get_selection(doc) == Err::<
                Seq<FiltersView>,
                _,
            >(e@),
        },
{
    let doc = match parse_document(query) {
        Ok(d) => d,
        Err(m) => {
            return Err(FilterError::QuerySyntax(m));
        },
    };
    let j = match json_from_str(json) {
        Ok(j) => j,
        Err(m) => {
            return Err(FilterError::InputDecode(m));
        },
    };
    let qd = definitions_of_document(doc);
    let fs = match get_selection(&qd) {
        Ok(fs) => fs,
        Err(e) => {
            return Err(FilterError::QuerySemantic(e));
        },
    };
    Ok(filters::filter_value(&fs, &j))
}

} // verus!
