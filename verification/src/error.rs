//! The failures a compilation can end in.
use vstd::prelude::*;

verus! {

/// The kind of syntax-tree node an error points at.
#[derive(Clone, Copy, Debug, PartialEq, Eq, Structural)]
pub enum Construct {
    Statement,
    QueryBody,
    SelectItem,
    FromClause,
    Relation,
    ObjectName,
    JoinOperator,
    JoinConstraint,
    Expression,
    Value,
    Operator,
    Limit,
}

/// What a schema lookup was looking for.
#[derive(Clone, Copy, Debug, PartialEq, Eq, Structural)]
pub enum Subject {
    /// A source of rows, named by its identifier.
    Source,
    /// A column, named as the query names it.
    Column,
}

/// The stage of code generation in which a column's type is looked up.
#[derive(Clone, Copy, Debug, PartialEq, Eq, Structural)]
pub enum Stage {
    Filter,
    Projection,
    Sort,
}

/// Why a compilation produced no text.
#[derive(Clone, Debug, PartialEq, Eq)]
pub enum CompileError {
    /// A node outside the supported subset; `text` is the node as the tree
    /// spells it.
    UnsupportedConstruct { construct: Construct, text: String },
    /// A node that should name something holds no identifier.
    Resolution { construct: Construct },
    /// A source without a readable header, or a column without a schema entry.
    SchemaResolution { subject: Subject, name: String },
    /// A column reached code generation without a type.
    CodeGenInvariant { column: String, stage: Stage },
}

/// The mathematical value of a [`CompileError`].
pub enum CompileErrorView {
    UnsupportedConstruct { construct: Construct, text: Seq<char> },
    Resolution { construct: Construct },
    SchemaResolution { subject: Subject, name: Seq<char> },
    CodeGenInvariant { column: Seq<char>, stage: Stage },
}

impl View for CompileError {
    type V = CompileErrorView;

    open spec fn view(&self) -> CompileErrorView {
        match *self {
            CompileError::UnsupportedConstruct { construct, text } => {
                CompileErrorView::UnsupportedConstruct { construct, text: text@ }
            },
            CompileError::Resolution { construct } => CompileErrorView::Resolution { construct },
            CompileError::SchemaResolution { subject, name } => {
                CompileErrorView::SchemaResolution { subject, name: name@ }
            },
            CompileError::CodeGenInvariant { column, stage } => {
                CompileErrorView::CodeGenInvariant { column: column@, stage }
            },
        }
    }
}

/// The view of a result, taken on both sides.
pub open spec fn result_view<T: View, E: View>(r: Result<T, E>) -> Result<T::V, E::V> {
    match r {
        Ok(value) => Ok(value@),
        Err(error) => Err(error@),
    }
}

impl CompileError {
    /// A one-line description of the failure, naming the offending node,
    /// source or column.
    pub fn message(&self) -> (out: String)
        ensures
            out@ == message_text(self@),
    {
        match self {
            CompileError::UnsupportedConstruct { construct, text } => {
                let mut out = String::from_str("unsupported ");
                out.append(construct_name(*construct));
                out.append(": ");
                out.append(text.as_str());
                out
            },
            CompileError::Resolution { construct } => {
                let mut out = String::from_str("no identifier in ");
                out.append(construct_name(*construct));
                out
            },
            CompileError::SchemaResolution { subject, name } => {
                let mut out = String::from_str(
                    match subject {
                        Subject::Source => "no readable header in source ",
                        Subject::Column => "no schema entry for column ",
                    },
                );
                out.append(name.as_str());
                out
            },
            CompileError::CodeGenInvariant { column, stage } => {
                let mut out = String::from_str("no type for column ");
                out.append(column.as_str());
                out.append(" in the ");
                out.append(
                    match stage {
                        Stage::Filter => "filter",
                        Stage::Projection => "projection",
                        Stage::Sort => "sort",
                    },
                );
                out.append(" stage");
                out
            },
        }
    }
}

/// The words for a construct in a message.
pub open spec fn construct_words(construct: Construct) -> Seq<char> {
    match construct {
        Construct::Statement => "statement"@,
        Construct::QueryBody => "query body"@,
        Construct::SelectItem => "select item"@,
        Construct::FromClause => "from clause"@,
        Construct::Relation => "relation"@,
        Construct::ObjectName => "object name"@,
        Construct::JoinOperator => "join operator"@,
        Construct::JoinConstraint => "join constraint"@,
        Construct::Expression => "expression"@,
        Construct::Value => "value"@,
        Construct::Operator => "operator"@,
        Construct::Limit => "limit"@,
    }
}

/// The text of [`CompileError::message`].
pub open spec fn message_text(error: CompileErrorView) -> Seq<char> {
    match error {
        CompileErrorView::UnsupportedConstruct { construct, text } => {
            "unsupported "@ + construct_words(construct) + ": "@ + text
        },
        CompileErrorView::Resolution { construct } => {
            "no identifier in "@ + construct_words(construct)
        },
        CompileErrorView::SchemaResolution { subject, name } => {
            (match subject {
                Subject::Source => "no readable header in source "@,
                Subject::Column => "no schema entry for column "@,
            }) + name
        },
        CompileErrorView::CodeGenInvariant { column, stage } => {
            "no type for column "@ + column + " in the "@ + (match stage {
                Stage::Filter => "filter"@,
                Stage::Projection => "projection"@,
                Stage::Sort => "sort"@,
            }) + " stage"@
        },
    }
}

/// The words for a construct in a message.
fn construct_name(construct: Construct) -> (name: &'static str)
    ensures
        name@ == construct_words(construct),
{
    match construct {
        Construct::Statement => "statement",
        Construct::QueryBody => "query body",
        Construct::SelectItem => "select item",
        Construct::FromClause => "from clause",
        Construct::Relation => "relation",
        Construct::ObjectName => "object name",
        Construct::JoinOperator => "join operator",
        Construct::JoinConstraint => "join constraint",
        Construct::Expression => "expression",
        Construct::Value => "value",
        Construct::Operator => "operator",
        Construct::Limit => "limit",
    }
}

} // verus!
