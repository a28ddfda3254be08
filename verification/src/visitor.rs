//! The traversal from a syntax tree to the intermediate representation.
//!
//! Each function handles one kind of node and has one case per supported
//! construct; whatever is outside the supported subset is refused with an
//! error that names it.
use crate::error::{result_view, CompileError, CompileErrorView, Construct};
use crate::intermediate;
use crate::intermediate::{
    ColumnOrder, ColumnOrderView, IntRep, IntRepView, JoinView, OrderDirection, SelectItemView,
    WithAlias, WithAliasView,
};
use crate::syntax;
use crate::syntax::{
    BinaryOperator, Expr, Ident, JoinConstraint, ObjectName, OrderByExpr, Query, Select, SetExpr,
    Statement, TableFactor, TableWithJoins, Value,
};
use crate::text::{
    absorb, absorb_all, join_with, joined, lemma_absorb_members, lemma_views_push, views,
};
use vstd::prelude::*;

verus! {

/// The refusal of a construct, with its text.
pub open spec fn unsupported(construct: Construct, text: Seq<char>) -> CompileErrorView {
    CompileErrorView::UnsupportedConstruct { construct, text }
}

/// The failure to find an identifier in a construct.
pub open spec fn unresolved(construct: Construct) -> CompileErrorView {
    CompileErrorView::Resolution { construct }
}

/// The values of a list of identifiers.
pub open spec fn ident_values(idents: Seq<Ident>) -> Seq<Seq<char>> {
    Seq::new(idents.len(), |i: int| idents[i].value@)
}

/// The results in order, or the first failure among them.
pub open spec fn collect<T>(results: Seq<Result<T, CompileErrorView>>) -> Result<
    Seq<T>,
    CompileErrorView,
>
    decreases results.len(),
{
    if results.len() == 0 {
        Ok(Seq::empty())
    } else {
        match collect(results.drop_last()) {
            Err(error) => Err(error),
            Ok(front) => match results.last() {
                Err(error) => Err(error),
                Ok(value) => Ok(front.push(value)),
            },
        }
    }
}

/// The source a name stands for: its first part.
pub open spec fn object_name_source(name: ObjectName) -> Result<Seq<char>, CompileErrorView> {
    if name.parts@.len() == 0 {
        Err(unresolved(Construct::ObjectName))
    } else {
        Ok(name.parts@[0].value@)
    }
}

/// The source a relation reads.
pub open spec fn relation_source(relation: TableFactor) -> Result<Seq<char>, CompileErrorView> {
    match relation {
        TableFactor::Table { name } => object_name_source(name),
        TableFactor::Unsupported(text) => Err(unsupported(Construct::Relation, text@)),
    }
}

/// A relation as an error spells it: the parts of its name with dots
/// between, or the text of an unsupported one.
pub open spec fn relation_text(relation: TableFactor) -> Seq<char> {
    match relation {
        TableFactor::Table { name } => joined(ident_values(name.parts@), "."@),
        TableFactor::Unsupported(text) => text@,
    }
}

/// The single column a join condition names.
pub open spec fn constraint_column(constraint: JoinConstraint) -> Result<
    Seq<char>,
    CompileErrorView,
> {
    match constraint {
        JoinConstraint::Using(columns) => if columns@.len() == 0 {
            Err(unresolved(Construct::JoinConstraint))
        } else if columns@.len() == 1 {
            Ok(columns@[0].value@)
        } else {
            Err(unsupported(Construct::JoinConstraint, joined(ident_values(columns@), ", "@)))
        },
        JoinConstraint::Unsupported(text) => Err(unsupported(Construct::JoinConstraint, text@)),
    }
}

/// The kind of a join and the column it matches on.
pub open spec fn join_kind(operator: syntax::JoinOperator) -> Result<
    (intermediate::JoinOperator, Seq<char>),
    CompileErrorView,
> {
    match operator {
        syntax::JoinOperator::Inner(constraint) => match constraint_column(constraint) {
            Ok(column) => Ok((intermediate::JoinOperator::Inner, column)),
            Err(error) => Err(error),
        },
        syntax::JoinOperator::LeftOuter(constraint) => match constraint_column(constraint) {
            Ok(column) => Ok((intermediate::JoinOperator::Left, column)),
            Err(error) => Err(error),
        },
        syntax::JoinOperator::RightOuter(constraint) => match constraint_column(constraint) {
            Ok(column) => Ok((intermediate::JoinOperator::Right, column)),
            Err(error) => Err(error),
        },
        syntax::JoinOperator::Unsupported(text) => Err(
            unsupported(Construct::JoinOperator, text@),
        ),
    }
}

/// The join a `JOIN` clause stands for.
pub open spec fn join_rep(join: syntax::Join) -> Result<JoinView, CompileErrorView> {
    match relation_source(join.relation) {
        Err(error) => Err(error),
        Ok(source) => match join_kind(join.join_operator) {
            Err(error) => Err(error),
            Ok(kind) => Ok(JoinView { source, operator: kind.0, constraint: kind.1 }),
        },
    }
}

/// The joins of a list of `JOIN` clauses, each on its own.
pub open spec fn join_results(joins: Seq<syntax::Join>) -> Seq<Result<JoinView, CompileErrorView>> {
    Seq::new(joins.len(), |i: int| join_rep(joins[i]))
}

/// The primary source and the joins of one `FROM` entry.
pub open spec fn table_rep(table: TableWithJoins) -> Result<
    (Seq<char>, Seq<JoinView>),
    CompileErrorView,
> {
    match relation_source(table.relation) {
        Err(error) => Err(error),
        Ok(source) => match collect(join_results(table.joins@)) {
            Err(error) => Err(error),
            Ok(joins) => Ok((source, joins)),
        },
    }
}

/// The primary source and the joins of a `FROM` clause, which must have
/// exactly one entry.
pub open spec fn from_rep(from: Seq<TableWithJoins>) -> Result<
    (Seq<char>, Seq<JoinView>),
    CompileErrorView,
> {
    if from.len() == 0 {
        Err(unresolved(Construct::FromClause))
    } else if from.len() == 1 {
        table_rep(from[0])
    } else {
        Err(unsupported(Construct::FromClause, relation_text(from[1].relation)))
    }
}

/// The token of a literal.
pub open spec fn value_token(value: Value) -> Result<Seq<char>, CompileErrorView> {
    match value {
        Value::Number(digits) => Ok(digits@),
        Value::Unsupported(text) => Err(unsupported(Construct::Value, text@)),
    }
}

/// The target-language symbol of an operator; for an unsupported one, its
/// text.
pub open spec fn operator_symbol(op: BinaryOperator) -> Seq<char> {
    match op {
        BinaryOperator::Plus => "+"@,
        BinaryOperator::Minus => "-"@,
        BinaryOperator::Multiply => "*"@,
        BinaryOperator::Divide => "/"@,
        BinaryOperator::Modulo => "%"@,
        BinaryOperator::Gt => ">"@,
        BinaryOperator::Lt => "<"@,
        BinaryOperator::GtEq => ">="@,
        BinaryOperator::LtEq => "<="@,
        BinaryOperator::Eq => "=="@,
        BinaryOperator::NotEq => "!="@,
        BinaryOperator::And => "&&"@,
        BinaryOperator::Or => "||"@,
        BinaryOperator::Unsupported(text) => text@,
    }
}

/// The token of an operator.
pub open spec fn operator_token(op: BinaryOperator) -> Result<Seq<char>, CompileErrorView> {
    match op {
        BinaryOperator::Unsupported(text) => Err(unsupported(Construct::Operator, text@)),
        _ => Ok(operator_symbol(op)),
    }
}

/// An expression as an error spells it: a name, a literal, or the operator
/// of a binary operation.
pub open spec fn expr_text(expr: Expr) -> Seq<char> {
    match expr {
        Expr::Identifier(ident) => ident.value@,
        Expr::Value(Value::Number(digits)) => digits@,
        Expr::Value(Value::Unsupported(text)) => text@,
        Expr::BinaryOp { left, op, right } => operator_symbol(op),
        Expr::Unsupported(text) => text@,
    }
}

/// The column an expression refers to; only a bare identifier refers to one.
pub open spec fn column_reference(expr: Expr) -> Result<Seq<char>, CompileErrorView> {
    match expr {
        Expr::Identifier(ident) => Ok(ident.value@),
        _ => Err(unsupported(Construct::Expression, expr_text(expr))),
    }
}

/// The projection entry a select item stands for.
pub open spec fn select_item_rep(item: syntax::SelectItem) -> Result<
    SelectItemView,
    CompileErrorView,
> {
    match item {
        syntax::SelectItem::UnnamedExpr(expr) => match column_reference(expr) {
            Ok(name) => Ok(SelectItemView::Unnamed(name)),
            Err(error) => Err(error),
        },
        syntax::SelectItem::ExprWithAlias { expr, alias } => match column_reference(expr) {
            Ok(name) => Ok(
                SelectItemView::WithAlias(WithAliasView { expr: name, alias: alias.value@ }),
            ),
            Err(error) => Err(error),
        },
        syntax::SelectItem::Unsupported(text) => Err(unsupported(Construct::SelectItem, text@)),
    }
}

/// The projection entries of a projection list, each on its own.
pub open spec fn select_item_results(items: Seq<syntax::SelectItem>) -> Seq<
    Result<SelectItemView, CompileErrorView>,
> {
    Seq::new(items.len(), |i: int| select_item_rep(items[i]))
}

/// The column of a sort key and whether it sorts ascending, which it does
/// where no direction is written.
pub open spec fn order_key(entry: OrderByExpr) -> Result<(Seq<char>, bool), CompileErrorView> {
    match column_reference(entry.expr) {
        Err(error) => Err(error),
        Ok(column) => Ok(
            (
                column,
                match entry.asc {
                    Some(ascending) => ascending,
                    None => true,
                },
            ),
        ),
    }
}

/// The sort key an `ORDER BY` entry stands for.
pub open spec fn order_rep(entry: OrderByExpr) -> Result<ColumnOrderView, CompileErrorView> {
    match order_key(entry) {
        Err(error) => Err(error),
        Ok(key) => Ok(
            ColumnOrderView {
                column: key.0,
                direction: if key.1 {
                    OrderDirection::Ascending
                } else {
                    OrderDirection::Descending
                },
            },
        ),
    }
}

/// The sort keys of an `ORDER BY` clause, each on its own.
pub open spec fn order_results(entries: Seq<OrderByExpr>) -> Seq<
    Result<ColumnOrderView, CompileErrorView>,
> {
    Seq::new(entries.len(), |i: int| order_rep(entries[i]))
}

/// The literal of a `LIMIT` clause, which must be a number.
pub open spec fn limit_token(expr: Expr) -> Result<Seq<char>, CompileErrorView> {
    match expr {
        Expr::Value(value) => value_token(value),
        _ => Err(unsupported(Construct::Limit, expr_text(expr))),
    }
}

/// A flattened filter: its tokens, and the columns it reads, each once in
/// order of first appearance.
pub struct FilterView {
    pub tokens: Seq<Seq<char>>,
    pub columns: Seq<Seq<char>>,
}

/// The flattening of a filter expression. A binary operation becomes an
/// opening parenthesis, the left operand, the operator, the right operand
/// and a closing parenthesis; an identifier or a number is one token.
pub open spec fn expression_filter(expr: Expr) -> Result<FilterView, CompileErrorView>
    decreases expr,
{
    match expr {
        Expr::Identifier(ident) => Ok(
            FilterView { tokens: seq![ident.value@], columns: seq![ident.value@] },
        ),
        Expr::Value(value) => match value_token(value) {
            Ok(token) => Ok(FilterView { tokens: seq![token], columns: Seq::empty() }),
            Err(error) => Err(error),
        },
        Expr::BinaryOp { left, op, right } => match expression_filter(*left) {
            Err(error) => Err(error),
            Ok(before) => match operator_token(op) {
                Err(error) => Err(error),
                Ok(symbol) => match expression_filter(*right) {
                    Err(error) => Err(error),
                    Ok(after) => Ok(
                        FilterView {
                            tokens: seq!["("@] + before.tokens + seq![symbol] + after.tokens
                                + seq![")"@],
                            columns: absorb(before.columns, after.columns),
                        },
                    ),
                },
            },
        },
        Expr::Unsupported(text) => Err(unsupported(Construct::Expression, text@)),
    }
}

/// The filter of an optional `WHERE` condition: empty where there is none.
pub open spec fn condition_filter(condition: Option<Expr>) -> Result<FilterView, CompileErrorView> {
    match condition {
        Some(expr) => expression_filter(expr),
        None => Ok(FilterView { tokens: Seq::empty(), columns: Seq::empty() }),
    }
}

/// The representation of a `SELECT`: its projection, its sources and its
/// filter, read in that order.
pub open spec fn select_rep(select: Select) -> Result<IntRepView, CompileErrorView> {
    match collect(select_item_results(select.projection@)) {
        Err(error) => Err(error),
        Ok(selection) => match from_rep(select.from@) {
            Err(error) => Err(error),
            Ok(sources) => match condition_filter(select.selection) {
                Err(error) => Err(error),
                Ok(filter) => Ok(
                    IntRepView {
                        from: Some(sources.0),
                        selection,
                        filter: filter.tokens,
                        filter_cols: filter.columns,
                        joins: sources.1,
                        order_by: Seq::empty(),
                        limit: None,
                    },
                ),
            },
        },
    }
}

/// The representation of a query body.
pub open spec fn body_rep(body: SetExpr) -> Result<IntRepView, CompileErrorView> {
    match body {
        SetExpr::Select(select) => select_rep(select),
        SetExpr::Unsupported(text) => Err(unsupported(Construct::QueryBody, text@)),
    }
}

/// The limit of an optional `LIMIT` clause.
pub open spec fn limit_rep(limit: Option<Expr>) -> Result<Option<Seq<char>>, CompileErrorView> {
    match limit {
        None => Ok(None),
        Some(expr) => match limit_token(expr) {
            Ok(token) => Ok(Some(token)),
            Err(error) => Err(error),
        },
    }
}

/// The representation of a query: that of its body, with the sort keys and
/// the limit, read in that order.
pub open spec fn query_rep(query: Query) -> Result<IntRepView, CompileErrorView> {
    match body_rep(query.body) {
        Err(error) => Err(error),
        Ok(rep) => match collect(order_results(query.order_by@)) {
            Err(error) => Err(error),
            Ok(order_by) => match limit_rep(query.limit) {
                Err(error) => Err(error),
                Ok(limit) => Ok(IntRepView { order_by, limit, ..rep }),
            },
        },
    }
}

/// The representation of a statement.
pub open spec fn statement_rep(statement: Statement) -> Result<IntRepView, CompileErrorView> {
    match statement {
        Statement::Query(query) => query_rep(query),
        Statement::Unsupported(text) => Err(unsupported(Construct::Statement, text@)),
    }
}

/// A failure among the first results is the failure of the whole list.
pub proof fn lemma_collect_prefix<T>(results: Seq<Result<T, CompileErrorView>>, k: int)
    requires
        0 <= k <= results.len(),
        collect(results.take(k)) is Err,
    ensures
        collect(results) is Err,
        collect(results)->Err_0 == collect(results.take(k))->Err_0,
    decreases results.len() - k,
{
    if k == results.len() {
        assert(results.take(k) =~= results);
    } else {
        assert(results.drop_last().take(k) =~= results.take(k));
        lemma_collect_prefix(results.drop_last(), k);
    }
}

/// A list collects to as many values as it has results, each the value of
/// the result in its place.
pub proof fn lemma_collect_ok<T>(results: Seq<Result<T, CompileErrorView>>)
    requires
        collect(results) is Ok,
    ensures
        collect(results)->Ok_0.len() == results.len(),
        forall|i: int|
            0 <= i < results.len() ==> #[trigger] results[i] == Ok::<T, CompileErrorView>(
                collect(results)->Ok_0[i],
            ),
    decreases results.len(),
{
    if results.len() > 0 {
        lemma_collect_ok(results.drop_last());
        assert(forall|i: int|
            0 <= i < results.len() - 1 ==> results.drop_last()[i] == results[i]);
    }
}

/// The joins of a `SELECT` are those of its `FROM` entry: as many, in the
/// order written, each with the source, kind and column of its clause.
pub proof fn lemma_joins_in_source_order(select: Select)
    requires
        select_rep(select) is Ok,
    ensures
        select.from@.len() == 1,
        select_rep(select)->Ok_0.joins.len() == select.from@[0].joins@.len(),
        forall|k: int|
            0 <= k < select.from@[0].joins@.len() ==> join_rep(#[trigger] select.from@[0].joins@[k])
                == Ok::<JoinView, CompileErrorView>(select_rep(select)->Ok_0.joins[k]),
{
    let results = join_results(select.from@[0].joins@);
    lemma_collect_ok(results);
    assert forall|k: int| 0 <= k < select.from@[0].joins@.len() implies join_rep(
        #[trigger] select.from@[0].joins@[k],
    ) == Ok::<JoinView, CompileErrorView>(select_rep(select)->Ok_0.joins[k]) by {
        assert(results[k] == join_rep(select.from@[0].joins@[k]));
    }
}

/// The columns of a filter are recorded once each.
pub proof fn lemma_filter_columns_distinct(expr: Expr)
    requires
        expression_filter(expr) is Ok,
    ensures
        expression_filter(expr)->Ok_0.columns.no_duplicates(),
    decreases expr,
{
    match expr {
        Expr::BinaryOp { left, op, right } => {
            lemma_filter_columns_distinct(*left);
            lemma_filter_columns_distinct(*right);
            lemma_absorb_members(
                expression_filter(*left)->Ok_0.columns,
                expression_filter(*right)->Ok_0.columns,
            );
        },
        _ => {},
    }
}

/// A failure of the traversal: a construct that is refused, or one that
/// holds no identifier.
pub open spec fn is_traversal_failure(error: CompileErrorView) -> bool {
    error is UnsupportedConstruct || error is Resolution
}

/// A list whose failures are all failures of the traversal collects to none
/// or to one of those.
pub proof fn lemma_collect_failures<T>(results: Seq<Result<T, CompileErrorView>>)
    requires
        forall|i: int|
            0 <= i < results.len() && (#[trigger] results[i]) is Err ==> is_traversal_failure(
                results[i]->Err_0,
            ),
    ensures
        collect(results) is Err ==> is_traversal_failure(collect(results)->Err_0),
    decreases results.len(),
{
    if results.len() > 0 {
        assert(forall|i: int|
            0 <= i < results.len() - 1 ==> results.drop_last()[i] == results[i]);
        lemma_collect_failures(results.drop_last());
        assert(results.last() == results[results.len() - 1]);
    }
}

/// The flattening of a filter fails only as a traversal fails.
pub proof fn lemma_expression_failures(expr: Expr)
    ensures
        expression_filter(expr) is Err ==> is_traversal_failure(expression_filter(expr)->Err_0),
    decreases expr,
{
    match expr {
        Expr::BinaryOp { left, op, right } => {
            lemma_expression_failures(*left);
            lemma_expression_failures(*right);
        },
        _ => {},
    }
}

/// The traversal of a statement fails only by refusing a construct or by
/// finding no identifier: never for want of a schema entry or of a type.
pub proof fn lemma_traversal_failures(statement: Statement)
    ensures
        statement_rep(statement) is Err ==> is_traversal_failure(statement_rep(statement)->Err_0),
{
    if let Statement::Query(query) = statement {
        lemma_collect_failures(order_results(query.order_by@));
        if let SetExpr::Select(select) = query.body {
            lemma_collect_failures(select_item_results(select.projection@));
            if select.from@.len() == 1 {
                lemma_collect_failures(join_results(select.from@[0].joins@));
            }
            if let Some(condition) = select.selection {
                lemma_expression_failures(condition);
            }
        }
    }
}

/// The traversal, and the representation it has produced.
pub struct SqlVisitor {
    pub ir: IntRep,
}

impl SqlVisitor {
    /// A visitor that has seen no statement.
    pub fn new() -> (out: SqlVisitor)
        ensures
            out.ir@ == intermediate::empty_rep(),
    {
        SqlVisitor { ir: IntRep::new() }
    }

    /// The name an identifier stands for.
    pub fn visit_ident(ident: &Ident) -> (out: String)
        ensures
            out@ == ident.value@,
    {
        ident.value.clone()
    }

    /// The values of a list of identifiers.
    fn visit_idents(idents: &Vec<Ident>) -> (out: Vec<String>)
        ensures
            views(out@) == ident_values(idents@),
    {
        let mut out: Vec<String> = Vec::new();
        let mut i: usize = 0;
        while i < idents.len()
            invariant
                i <= idents.len(),
                views(out@) == ident_values(idents@).take(i as int),
            decreases idents.len() - i,
        {
            let value = SqlVisitor::visit_ident(&idents[i]);
            proof {
                lemma_views_push(out@, value);
                assert(ident_values(idents@).take(i + 1) =~= ident_values(idents@).take(
                    i as int,
                ).push(value@));
            }
            out.push(value);
            i += 1;
        }
        out
    }

    /// The source a name stands for.
    pub fn visit_object_name(name: &ObjectName) -> (out: Result<String, CompileError>)
        ensures
            result_view(out) == object_name_source(*name),
    {
        if name.parts.len() == 0 {
            Err(CompileError::Resolution { construct: Construct::ObjectName })
        } else {
            Ok(SqlVisitor::visit_ident(&name.parts[0]))
        }
    }

    /// The source a relation reads.
    pub fn visit_relation(relation: &TableFactor) -> (out: Result<String, CompileError>)
        ensures
            result_view(out) == relation_source(*relation),
    {
        match relation {
            TableFactor::Table { name } => SqlVisitor::visit_object_name(name),
            TableFactor::Unsupported(text) => Err(
                CompileError::UnsupportedConstruct {
                    construct: Construct::Relation,
                    text: text.clone(),
                },
            ),
        }
    }

    /// A relation as an error spells it.
    fn describe_relation(relation: &TableFactor) -> (out: String)
        ensures
            out@ == relation_text(*relation),
    {
        match relation {
            TableFactor::Table { name } => {
                let parts = SqlVisitor::visit_idents(&name.parts);
                join_with(&parts, ".")
            },
            TableFactor::Unsupported(text) => text.clone(),
        }
    }

    /// The single column a join condition names.
    pub fn visit_join_constraint(constraint: &JoinConstraint) -> (out: Result<
        String,
        CompileError,
    >)
        ensures
            result_view(out) == constraint_column(*constraint),
    {
        match constraint {
            JoinConstraint::Using(columns) => {
                if columns.len() == 0 {
                    Err(CompileError::Resolution { construct: Construct::JoinConstraint })
                } else if columns.len() == 1 {
                    Ok(SqlVisitor::visit_ident(&columns[0]))
                } else {
                    let names = SqlVisitor::visit_idents(columns);
                    Err(
                        CompileError::UnsupportedConstruct {
                            construct: Construct::JoinConstraint,
                            text: join_with(&names, ", "),
                        },
                    )
                }
            },
            JoinConstraint::Unsupported(text) => Err(
                CompileError::UnsupportedConstruct {
                    construct: Construct::JoinConstraint,
                    text: text.clone(),
                },
            ),
        }
    }

    /// The kind of a join and the column it matches on.
    pub fn visit_join_operator(operator: &syntax::JoinOperator) -> (out: Result<
        (intermediate::JoinOperator, String),
        CompileError,
    >)
        ensures
            match join_kind(*operator) {
                Ok(kind) => out matches Ok(found) && found.0 == kind.0 && found.1@ == kind.1,
                Err(error) => out matches Err(found) && found@ == error,
            },
    {
        match operator {
            syntax::JoinOperator::Inner(constraint) => {
                match SqlVisitor::visit_join_constraint(constraint) {
                    Ok(column) => Ok((intermediate::JoinOperator::Inner, column)),
                    Err(error) => Err(error),
                }
            },
            syntax::JoinOperator::LeftOuter(constraint) => {
                match SqlVisitor::visit_join_constraint(constraint) {
                    Ok(column) => Ok((intermediate::JoinOperator::Left, column)),
                    Err(error) => Err(error),
                }
            },
            syntax::JoinOperator::RightOuter(constraint) => {
                match SqlVisitor::visit_join_constraint(constraint) {
                    Ok(column) => Ok((intermediate::JoinOperator::Right, column)),
                    Err(error) => Err(error),
                }
            },
            syntax::JoinOperator::Unsupported(text) => Err(
                CompileError::UnsupportedConstruct {
                    construct: Construct::JoinOperator,
                    text: text.clone(),
                },
            ),
        }
    }

    /// The join a `JOIN` clause stands for.
    pub fn visit_join(join: &syntax::Join) -> (out: Result<intermediate::Join, CompileError>)
        ensures
            result_view(out) == join_rep(*join),
    {
        let source = match SqlVisitor::visit_relation(&join.relation) {
            Ok(source) => source,
            Err(error) => {
                return Err(error);
            },
        };
        match SqlVisitor::visit_join_operator(&join.join_operator) {
            Ok((operator, constraint)) => Ok(intermediate::Join { source, operator, constraint }),
            Err(error) => Err(error),
        }
    }

    /// The primary source and the joins of one `FROM` entry.
    pub fn visit_table_with_joins(table: &TableWithJoins) -> (out: Result<
        (String, Vec<intermediate::Join>),
        CompileError,
    >)
        ensures
            match table_rep(*table) {
                Ok(rep) => out matches Ok(found) && found.0@ == rep.0 && views(found.1@) == rep.1,
                Err(error) => out matches Err(found) && found@ == error,
            },
    {
        let source = match SqlVisitor::visit_relation(&table.relation) {
            Ok(source) => source,
            Err(error) => {
                return Err(error);
            },
        };
        let ghost results = join_results(table.joins@);
        let mut joins: Vec<intermediate::Join> = Vec::new();
        let mut i: usize = 0;
        assert(views(joins@) =~= Seq::<JoinView>::empty());
        while i < table.joins.len()
            invariant
                i <= table.joins.len(),
                relation_source(table.relation) == Ok::<Seq<char>, CompileErrorView>(source@),
                results == join_results(table.joins@),
                collect(results.take(i as int)) == Ok::<Seq<JoinView>, CompileErrorView>(
                    views(joins@),
                ),
            decreases table.joins.len() - i,
        {
            proof {
                assert(results.take(i + 1).drop_last() =~= results.take(i as int));
            }
            match SqlVisitor::visit_join(&table.joins[i]) {
                Ok(join) => {
                    proof {
                        lemma_views_push(joins@, join);
                    }
                    joins.push(join);
                },
                Err(error) => {
                    proof {
                        lemma_collect_prefix(results, i + 1);
                    }
                    return Err(error);
                },
            }
            i += 1;
        }
        assert(results.take(i as int) =~= results);
        Ok((source, joins))
    }

    /// The token of a literal.
    pub fn visit_value(value: &Value) -> (out: Result<String, CompileError>)
        ensures
            result_view(out) == value_token(*value),
    {
        match value {
            Value::Number(digits) => Ok(digits.clone()),
            Value::Unsupported(text) => Err(
                CompileError::UnsupportedConstruct {
                    construct: Construct::Value,
                    text: text.clone(),
                },
            ),
        }
    }

    /// The symbol of an operator, or the text of an unsupported one.
    fn describe_operator(op: &BinaryOperator) -> (out: String)
        ensures
            out@ == operator_symbol(*op),
    {
        match op {
            BinaryOperator::Plus => String::from_str("+"),
            BinaryOperator::Minus => String::from_str("-"),
            BinaryOperator::Multiply => String::from_str("*"),
            BinaryOperator::Divide => String::from_str("/"),
            BinaryOperator::Modulo => String::from_str("%"),
            BinaryOperator::Gt => String::from_str(">"),
            BinaryOperator::Lt => String::from_str("<"),
            BinaryOperator::GtEq => String::from_str(">="),
            BinaryOperator::LtEq => String::from_str("<="),
            BinaryOperator::Eq => String::from_str("=="),
            BinaryOperator::NotEq => String::from_str("!="),
            BinaryOperator::And => String::from_str("&&"),
            BinaryOperator::Or => String::from_str("||"),
            BinaryOperator::Unsupported(text) => text.clone(),
        }
    }

    /// The token of an operator.
    pub fn visit_operator(op: &BinaryOperator) -> (out: Result<String, CompileError>)
        ensures
            result_view(out) == operator_token(*op),
    {
        match op {
            BinaryOperator::Unsupported(text) => Err(
                CompileError::UnsupportedConstruct {
                    construct: Construct::Operator,
                    text: text.clone(),
                },
            ),
            _ => Ok(SqlVisitor::describe_operator(op)),
        }
    }

    /// An expression as an error spells it.
    fn describe_expr(expr: &Expr) -> (out: String)
        ensures
            out@ == expr_text(*expr),
    {
        match expr {
            Expr::Identifier(ident) => ident.value.clone(),
            Expr::Value(Value::Number(digits)) => digits.clone(),
            Expr::Value(Value::Unsupported(text)) => text.clone(),
            Expr::BinaryOp { left, op, right } => SqlVisitor::describe_operator(op),
            Expr::Unsupported(text) => text.clone(),
        }
    }

    /// The column an expression refers to.
    pub fn visit_expr(expr: &Expr) -> (out: Result<String, CompileError>)
        ensures
            result_view(out) == column_reference(*expr),
    {
        match expr {
            Expr::Identifier(ident) => Ok(SqlVisitor::visit_ident(ident)),
            _ => Err(
                CompileError::UnsupportedConstruct {
                    construct: Construct::Expression,
                    text: SqlVisitor::describe_expr(expr),
                },
            ),
        }
    }

    /// The projection entry a select item stands for.
    pub fn visit_select_item(item: &syntax::SelectItem) -> (out: Result<
        intermediate::SelectItem,
        CompileError,
    >)
        ensures
            result_view(out) == select_item_rep(*item),
    {
        match item {
            syntax::SelectItem::UnnamedExpr(expr) => match SqlVisitor::visit_expr(expr) {
                Ok(name) => Ok(intermediate::SelectItem::Unnamed(name)),
                Err(error) => Err(error),
            },
            syntax::SelectItem::ExprWithAlias { expr, alias } => {
                match SqlVisitor::visit_expr(expr) {
                    Ok(name) => Ok(
                        intermediate::SelectItem::WithAlias(
                            WithAlias { expr: name, alias: SqlVisitor::visit_ident(alias) },
                        ),
                    ),
                    Err(error) => Err(error),
                }
            },
            syntax::SelectItem::Unsupported(text) => Err(
                CompileError::UnsupportedConstruct {
                    construct: Construct::SelectItem,
                    text: text.clone(),
                },
            ),
        }
    }

    /// The column of a sort key, and whether it sorts ascending.
    pub fn visit_order_by_expr(entry: &OrderByExpr) -> (out: Result<(String, bool), CompileError>)
        ensures
            match order_key(*entry) {
                Ok(key) => out matches Ok(found) && found.0@ == key.0 && found.1 == key.1,
                Err(error) => out matches Err(found) && found@ == error,
            },
    {
        match SqlVisitor::visit_expr(&entry.expr) {
            Ok(column) => match entry.asc {
                Some(ascending) => Ok((column, ascending)),
                None => Ok((column, true)),
            },
            Err(error) => Err(error),
        }
    }

    /// The flattening of a filter expression: its tokens, and the columns it
    /// reads.
    pub fn visit_expression(expr: &Expr) -> (out: Result<(Vec<String>, Vec<String>), CompileError>)
        ensures
            match expression_filter(*expr) {
                Ok(filter) => out matches Ok(found) && views(found.0@) == filter.tokens && views(
                    found.1@,
                ) == filter.columns,
                Err(error) => out matches Err(found) && found@ == error,
            },
        decreases expr,
    {
        match expr {
            Expr::Identifier(ident) => {
                let tokens = vec![SqlVisitor::visit_ident(ident)];
                let columns = vec![SqlVisitor::visit_ident(ident)];
                Ok((tokens, columns))
            },
            Expr::Value(value) => match SqlVisitor::visit_value(value) {
                Ok(token) => {
                    let tokens = vec![token];
                    let columns: Vec<String> = Vec::new();
                    Ok((tokens, columns))
                },
                Err(error) => Err(error),
            },
            Expr::BinaryOp { left, op, right } => {
                let (mut before, mut columns) = match SqlVisitor::visit_expression(left) {
                    Ok(found) => found,
                    Err(error) => {
                        return Err(error);
                    },
                };
                let symbol = match SqlVisitor::visit_operator(op) {
                    Ok(symbol) => symbol,
                    Err(error) => {
                        return Err(error);
                    },
                };
                let (mut after, more) = match SqlVisitor::visit_expression(right) {
                    Ok(found) => found,
                    Err(error) => {
                        return Err(error);
                    },
                };
                let open = String::from_str("(");
                let close = String::from_str(")");
                let mut tokens: Vec<String> = vec![open];
                tokens.append(&mut before);
                tokens.push(symbol);
                tokens.append(&mut after);
                tokens.push(close);
                absorb_all(&mut columns, more);
                Ok((tokens, columns))
            },
            Expr::Unsupported(text) => Err(
                CompileError::UnsupportedConstruct {
                    construct: Construct::Expression,
                    text: text.clone(),
                },
            ),
        }
    }

    /// The representation of a `SELECT`.
    pub fn visit_select(select: &Select) -> (out: Result<IntRep, CompileError>)
        ensures
            result_view(out) == select_rep(*select),
    {
        let ghost results = select_item_results(select.projection@);
        let mut selection: Vec<intermediate::SelectItem> = Vec::new();
        let mut i: usize = 0;
        assert(views(selection@) =~= Seq::<SelectItemView>::empty());
        while i < select.projection.len()
            invariant
                i <= select.projection.len(),
                results == select_item_results(select.projection@),
                collect(results.take(i as int)) == Ok::<Seq<SelectItemView>, CompileErrorView>(
                    views(selection@),
                ),
            decreases select.projection.len() - i,
        {
            proof {
                assert(results.take(i + 1).drop_last() =~= results.take(i as int));
            }
            match SqlVisitor::visit_select_item(&select.projection[i]) {
                Ok(item) => {
                    proof {
                        lemma_views_push(selection@, item);
                    }
                    selection.push(item);
                },
                Err(error) => {
                    proof {
                        lemma_collect_prefix(results, i + 1);
                    }
                    return Err(error);
                },
            }
            i += 1;
        }
        assert(results.take(i as int) =~= results);
        if select.from.len() == 0 {
            return Err(CompileError::Resolution { construct: Construct::FromClause });
        }
        if select.from.len() > 1 {
            return Err(
                CompileError::UnsupportedConstruct {
                    construct: Construct::FromClause,
                    text: SqlVisitor::describe_relation(&select.from[1].relation),
                },
            );
        }
        let (from, joins) = match SqlVisitor::visit_table_with_joins(&select.from[0]) {
            Ok(found) => found,
            Err(error) => {
                return Err(error);
            },
        };
        let (filter, filter_cols) = match &select.selection {
            Some(condition) => match SqlVisitor::visit_expression(condition) {
                Ok(found) => found,
                Err(error) => {
                    return Err(error);
                },
            },
            None => (Vec::new(), Vec::new()),
        };
        let order_by: Vec<ColumnOrder> = Vec::new();
        assert(views(order_by@) =~= Seq::<ColumnOrderView>::empty());
        proof {
            if select.selection is None {
                assert(views(filter_cols@) =~= Seq::<Seq<char>>::empty());
            }
        }
        Ok(
            IntRep {
                from: Some(from),
                selection,
                filter,
                filter_cols,
                joins,
                order_by,
                limit: None,
            },
        )
    }

    /// The representation of a query body.
    pub fn visit_body(body: &SetExpr) -> (out: Result<IntRep, CompileError>)
        ensures
            result_view(out) == body_rep(*body),
    {
        match body {
            SetExpr::Select(select) => SqlVisitor::visit_select(select),
            SetExpr::Unsupported(text) => Err(
                CompileError::UnsupportedConstruct {
                    construct: Construct::QueryBody,
                    text: text.clone(),
                },
            ),
        }
    }

    /// The literal of a `LIMIT` clause.
    pub fn visit_limit(limit: &Expr) -> (out: Result<String, CompileError>)
        ensures
            result_view(out) == limit_token(*limit),
    {
        match limit {
            Expr::Value(value) => SqlVisitor::visit_value(value),
            _ => Err(
                CompileError::UnsupportedConstruct {
                    construct: Construct::Limit,
                    text: SqlVisitor::describe_expr(limit),
                },
            ),
        }
    }

    /// The representation of a query.
    pub fn visit_query(query: &Query) -> (out: Result<IntRep, CompileError>)
        ensures
            result_view(out) == query_rep(*query),
    {
        let mut rep = match SqlVisitor::visit_body(&query.body) {
            Ok(rep) => rep,
            Err(error) => {
                return Err(error);
            },
        };
        let ghost results = order_results(query.order_by@);
        let mut order_by: Vec<ColumnOrder> = Vec::new();
        let mut i: usize = 0;
        assert(views(order_by@) =~= Seq::<ColumnOrderView>::empty());
        while i < query.order_by.len()
            invariant
                i <= query.order_by.len(),
                body_rep(query.body) == Ok::<IntRepView, CompileErrorView>(rep@),
                results == order_results(query.order_by@),
                collect(results.take(i as int)) == Ok::<Seq<ColumnOrderView>, CompileErrorView>(
                    views(order_by@),
                ),
            decreases query.order_by.len() - i,
        {
            proof {
                assert(results.take(i + 1).drop_last() =~= results.take(i as int));
            }
            match SqlVisitor::visit_order_by_expr(&query.order_by[i]) {
                Ok((column, ascending)) => {
                    let key = ColumnOrder {
                        column,
                        direction: if ascending {
                            OrderDirection::Ascending
                        } else {
                            OrderDirection::Descending
                        },
                    };
                    proof {
                        lemma_views_push(order_by@, key);
                    }
                    order_by.push(key);
                },
                Err(error) => {
                    proof {
                        lemma_collect_prefix(results, i + 1);
                    }
                    return Err(error);
                },
            }
            i += 1;
        }
        assert(results.take(i as int) =~= results);
        let limit = match &query.limit {
            Some(expr) => match SqlVisitor::visit_limit(expr) {
                Ok(token) => Some(token),
                Err(error) => {
                    return Err(error);
                },
            },
            None => None,
        };
        rep.order_by = order_by;
        rep.limit = limit;
        Ok(rep)
    }

    /// Replaces the representation by that of `statement`. Where the
    /// statement is refused, the representation stays as it was.
    pub fn visit_statement(&mut self, statement: &Statement) -> (out: Result<(), CompileError>)
        ensures
            match statement_rep(*statement) {
                Ok(rep) => out is Ok && final(self).ir@ == rep,
                Err(error) => out matches Err(found) && found@ == error && final(self).ir@ == old(
                    self,
                ).ir@,
            },
    {
        match statement {
            Statement::Query(query) => match SqlVisitor::visit_query(query) {
                Ok(rep) => {
                    self.ir = rep;
                    Ok(())
                },
                Err(error) => Err(error),
            },
            Statement::Unsupported(text) => Err(
                CompileError::UnsupportedConstruct {
                    construct: Construct::Statement,
                    text: text.clone(),
                },
            ),
        }
    }
}

/// Runs `visitor` over `statement`: on success the visitor holds the
/// representation of the statement, on failure what it held before.
pub fn traverse_ast(visitor: &mut SqlVisitor, statement: &Statement) -> (out: Result<
    (),
    CompileError,
>)
    ensures
        match statement_rep(*statement) {
            Ok(rep) => out is Ok && final(visitor).ir@ == rep,
            Err(error) => out matches Err(found) && found@ == error && final(visitor).ir@ == old(
                visitor,
            ).ir@,
        },
{
    visitor.visit_statement(statement)
}

} // verus!
