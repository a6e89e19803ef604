//! The query AST as the compiler reads it, and the trusted boundary to the
//! outside GraphQL parser.
//!
//! The parser's own document type is opaque here; what the compiler needs
//! from it — the kind of each definition, and for each field its name, its
//! arguments and its nested selection set — is copied into the plain model
//! types below by small trusted converters.

use vstd::prelude::*;

use graphql_parser::query::Definition;
use graphql_parser::query::OperationDefinition;
use graphql_parser::query::Selection as GqlSelection;
use graphql_parser::query::Value as GqlValue;

verus! {

/// Declares graphql_parser's parsed document type, so that a parsed
/// document can be carried to the converter below.
#[verifier::external_type_specification]
#[verifier::external_body]
pub struct ExDocument(graphql_parser::query::Document);

/// Declares graphql_parser's selection-set type; values of it are carried
/// inside [`QueryDefinition`] and read only through [`ast_of_selection_set`].
#[verifier::external_type_specification]
#[verifier::external_body]
pub struct ExSelectionSet(graphql_parser::query::SelectionSet);

/// One argument value, as far as the compiler reads it: only boolean
/// literals are meaningful; every other form of value is `Other`.
#[derive(Clone, Copy, Debug, PartialEq, Eq, Structural)]
pub enum ArgValue {
    Boolean(bool),
    Other,
}

/// One field of a selection set: its name, its arguments in source order,
/// and its own nested selection set (empty for a leaf field).
pub struct FieldNode {
    pub name: String,
    pub arguments: Vec<(String, ArgValue)>,
    pub selection_set: SelectionList,
}

/// One selection item: a field, or a fragment spread or inline fragment,
/// which the compiler skips.
pub enum Selection {
    Field(FieldNode),
    Fragment,
}

/// An ordered list of selection items.
pub struct SelectionList {
    pub items: Vec<Selection>,
}

/// One definition of a query document, by kind. The two kinds that carry a
/// top-level selection set keep it (still in the parser's own form);
/// mutations, subscriptions and fragments are only markers, since the
/// compiler ignores their content.
pub enum QueryDefinition {
    SelectionSet(graphql_parser::query::SelectionSet),
    Query(graphql_parser::query::SelectionSet),
    Mutation,
    Subscription,
    Fragment,
}

/// A parsed query document: its definitions in source order.
pub struct QueryDoc {
    pub definitions: Vec<QueryDefinition>,
}

/// The model of what a parsed selection set holds.
pub uninterp spec fn selection_ast(s: graphql_parser::query::SelectionSet) -> SelectionList;

/// The definition-level model of a parsed document.
pub uninterp spec fn doc_defs(d: graphql_parser::query::Document) -> QueryDoc;

/// What parsing a query text yields: `Some` of the document's model exactly
/// when the text is a well-formed query document. Parsing is a function of
/// the text alone.
pub uninterp spec fn gql_document(q: Seq<char>) -> Option<QueryDoc>;

/// Relies on graphql_parser::parse_query: it parses the text deterministically
/// and returns `Ok` exactly for well-formed query documents; the error's
/// display form describes the failure.
#[verifier::external_body]
pub(crate) fn parse_document(q: &str) -> (r: Result<graphql_parser::query::Document, String>)
    ensures
        match r {
            Ok(d) => gql_document(q@) == Some(doc_defs(d)),
            Err(_) => gql_document(q@) is None,
        },
{
    match graphql_parser::parse_query(q) {
        Ok(d) => Ok(d),
        Err(e) => Err(format!("{}", e)),
    }
}

/// Relies on the public fields of graphql_parser's `Document`,
/// `Definition` and `OperationDefinition`: each definition is an operation
/// of one of four kinds or a fragment; the bare-selection-set and `query`
/// kinds carry the selection set that is kept here.
#[verifier::external_body]
pub(crate) fn definitions_of_document(d: graphql_parser::query::Document) -> (r: QueryDoc)
    ensures
        r == doc_defs(d),
{
    let mut defs: Vec<QueryDefinition> = Vec::new();
    for def in d.definitions {
        defs.push(match def {
            Definition::Operation(OperationDefinition::SelectionSet(s)) =>
                QueryDefinition::SelectionSet(s),
            Definition::Operation(OperationDefinition::Query(q)) =>
                QueryDefinition::Query(q.selection_set),
            Definition::Operation(OperationDefinition::Mutation(_)) => QueryDefinition::Mutation,
            Definition::Operation(OperationDefinition::Subscription(_)) =>
                QueryDefinition::Subscription,
            Definition::Fragment(_) => QueryDefinition::Fragment,
        });
    }
    QueryDoc { definitions: defs }
}

/// Relies on the public fields of graphql_parser's `SelectionSet`, `Field`
/// and argument `Value`: keeps each field's name, its arguments (a boolean
/// literal, or `Other` for every other value form) and its nested selection
/// set, in source order; fragment selections are kept only as markers.
#[verifier::external_body]
pub(crate) fn ast_of_selection_set(s: &graphql_parser::query::SelectionSet) -> (r: SelectionList)
    ensures
        r == selection_ast(*s),
{
    let mut items: Vec<Selection> = Vec::new();
    for sel in &s.items {
        items.push(match sel {
            GqlSelection::Field(f) => Selection::Field(FieldNode {
                name: f.name.clone(),
                arguments: f.arguments.iter().map(
                    |a| (a.0.clone(), if let GqlValue::Boolean(b) = a.1 { ArgValue::Boolean(b) } else { ArgValue::Other }),
                ).collect(),
                selection_set: ast_of_selection_set(&f.selection_set),
            }),
            _ => Selection::Fragment,
        });
    }
    SelectionList { items }
}

} // verus!
