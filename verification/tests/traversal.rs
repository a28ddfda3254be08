use sqlcodegen::error::{CompileError, Construct};
use sqlcodegen::generator::render_filter;
use sqlcodegen::intermediate;
use sqlcodegen::intermediate::{ColumnOrder, IntRep, OrderDirection, WithAlias};
use sqlcodegen::syntax::{
    BinaryOperator, Expr, Ident, Join, JoinConstraint, JoinOperator, ObjectName, OrderByExpr,
    Query, Select, SelectItem, SetExpr, Statement, TableFactor, TableWithJoins, Value,
};
use sqlcodegen::text::absorb_all;
use sqlcodegen::visitor::{traverse_ast, SqlVisitor};

fn ident(name: &str) -> Ident {
    Ident { value: name.to_string() }
}

fn column(name: &str) -> Expr {
    Expr::Identifier(ident(name))
}

fn number(digits: &str) -> Expr {
    Expr::Value(Value::Number(digits.to_string()))
}

fn binary(left: Expr, op: BinaryOperator, right: Expr) -> Expr {
    Expr::BinaryOp { left: Box::new(left), op, right: Box::new(right) }
}

fn table(name: &str) -> TableFactor {
    TableFactor::Table { name: ObjectName { parts: vec![ident(name)] } }
}

fn using(kind: fn(JoinConstraint) -> JoinOperator, source: &str, on: &str) -> Join {
    Join { relation: table(source), join_operator: kind(JoinConstraint::Using(vec![ident(on)])) }
}

fn select_from(projection: Vec<SelectItem>, source: &str) -> Select {
    Select {
        projection,
        from: vec![TableWithJoins { relation: table(source), joins: vec![] }],
        selection: None,
    }
}

fn query_of(select: Select) -> Query {
    Query { body: SetExpr::Select(select), order_by: vec![], limit: None }
}

fn unsupported(construct: Construct, text: &str) -> CompileError {
    CompileError::UnsupportedConstruct { construct, text: text.to_string() }
}

fn strings(items: &[&str]) -> Vec<String> {
    items.iter().map(|s| s.to_string()).collect()
}

fn two_conjuncts() -> Statement {
    let mut select = select_from(vec![SelectItem::UnnamedExpr(column("cc"))], "ta.csv");
    select.selection = Some(binary(
        binary(column("cb"), BinaryOperator::Eq, number("1")),
        BinaryOperator::And,
        binary(column("ca"), BinaryOperator::Eq, number("2")),
    ));
    Statement::Query(query_of(select))
}

#[test]
fn new_visitor_holds_the_empty_representation() {
    let visitor = SqlVisitor::new();
    assert_eq!(visitor.ir, IntRep::new());
    assert_eq!(visitor.ir.from, None);
    assert!(visitor.ir.selection.is_empty());
    assert!(visitor.ir.filter.is_empty());
    assert!(visitor.ir.filter_cols.is_empty());
    assert!(visitor.ir.joins.is_empty());
    assert!(visitor.ir.order_by.is_empty());
    assert_eq!(visitor.ir.limit, None);
}

#[test]
fn filter_with_two_conjuncts() {
    let mut visitor = SqlVisitor::new();
    assert_eq!(traverse_ast(&mut visitor, &two_conjuncts()), Ok(()));
    let ir = &visitor.ir;
    assert_eq!(ir.from, Some("ta.csv".to_string()));
    assert_eq!(ir.selection, vec![intermediate::SelectItem::Unnamed("cc".to_string())]);
    assert_eq!(
        ir.filter,
        strings(&["(", "(", "cb", "==", "1", ")", "&&", "(", "ca", "==", "2", ")", ")"])
    );
    assert_eq!(render_filter(&ir.filter), "(( cb == 1 ) && ( ca == 2 ))");
    let mut cols = ir.filter_cols.clone();
    cols.sort();
    assert_eq!(cols, strings(&["ca", "cb"]));
    assert_eq!(ir.filter_cols, strings(&["cb", "ca"]));
    assert!(ir.joins.is_empty());
    assert!(ir.order_by.is_empty());
    assert_eq!(ir.limit, None);
}

#[test]
fn filter_columns_are_recorded_once() {
    let condition = binary(
        binary(column("a"), BinaryOperator::Gt, column("b")),
        BinaryOperator::Or,
        binary(column("b"), BinaryOperator::Plus, column("a")),
    );
    let (tokens, columns) = SqlVisitor::visit_expression(&condition).unwrap();
    assert_eq!(
        tokens,
        strings(&["(", "(", "a", ">", "b", ")", "||", "(", "b", "+", "a", ")", ")"])
    );
    assert_eq!(columns, strings(&["a", "b"]));
}

#[test]
fn leaf_expressions_flatten_to_one_token() {
    assert_eq!(
        SqlVisitor::visit_expression(&column("x")),
        Ok((strings(&["x"]), strings(&["x"])))
    );
    assert_eq!(SqlVisitor::visit_expression(&number("4.5")), Ok((strings(&["4.5"]), vec![])));
}

#[test]
fn every_operator_has_its_token() {
    let cases = vec![
        (BinaryOperator::Plus, "+"),
        (BinaryOperator::Minus, "-"),
        (BinaryOperator::Multiply, "*"),
        (BinaryOperator::Divide, "/"),
        (BinaryOperator::Modulo, "%"),
        (BinaryOperator::Gt, ">"),
        (BinaryOperator::Lt, "<"),
        (BinaryOperator::GtEq, ">="),
        (BinaryOperator::LtEq, "<="),
        (BinaryOperator::Eq, "=="),
        (BinaryOperator::NotEq, "!="),
        (BinaryOperator::And, "&&"),
        (BinaryOperator::Or, "||"),
    ];
    for (op, token) in cases {
        assert_eq!(SqlVisitor::visit_operator(&op), Ok(token.to_string()));
    }
}

#[test]
fn unsupported_operator_is_refused() {
    let op = BinaryOperator::Unsupported("XOR".to_string());
    assert_eq!(SqlVisitor::visit_operator(&op), Err(unsupported(Construct::Operator, "XOR")));
    let condition = binary(column("a"), op, column("b"));
    assert_eq!(
        SqlVisitor::visit_expression(&condition),
        Err(unsupported(Construct::Operator, "XOR"))
    );
}

#[test]
fn unsupported_filter_node_is_refused() {
    let condition = binary(
        column("a"),
        BinaryOperator::And,
        Expr::Unsupported("b IS NULL".to_string()),
    );
    assert_eq!(
        SqlVisitor::visit_expression(&condition),
        Err(unsupported(Construct::Expression, "b IS NULL"))
    );
}

#[test]
fn left_operand_fails_before_operator_and_right_operand() {
    let condition = binary(
        Expr::Unsupported("first".to_string()),
        BinaryOperator::Unsupported("second".to_string()),
        Expr::Unsupported("third".to_string()),
    );
    assert_eq!(
        SqlVisitor::visit_expression(&condition),
        Err(unsupported(Construct::Expression, "first"))
    );
    let condition = binary(
        column("a"),
        BinaryOperator::Unsupported("second".to_string()),
        Expr::Unsupported("third".to_string()),
    );
    assert_eq!(
        SqlVisitor::visit_expression(&condition),
        Err(unsupported(Construct::Operator, "second"))
    );
}

#[test]
fn unsupported_value_is_refused() {
    let value = Value::Unsupported("'text'".to_string());
    assert_eq!(SqlVisitor::visit_value(&value), Err(unsupported(Construct::Value, "'text'")));
    assert_eq!(SqlVisitor::visit_value(&Value::Number("12".to_string())), Ok("12".to_string()));
    assert_eq!(
        SqlVisitor::visit_expression(&Expr::Value(value)),
        Err(unsupported(Construct::Value, "'text'"))
    );
}

#[test]
fn identifier_resolves_to_its_value() {
    assert_eq!(SqlVisitor::visit_ident(&ident("ca")), "ca");
    assert_eq!(SqlVisitor::visit_expr(&column("ca")), Ok("ca".to_string()));
}

#[test]
fn only_an_identifier_is_a_column_reference() {
    assert_eq!(
        SqlVisitor::visit_expr(&number("1")),
        Err(unsupported(Construct::Expression, "1"))
    );
    assert_eq!(
        SqlVisitor::visit_expr(&binary(column("a"), BinaryOperator::Plus, column("b"))),
        Err(unsupported(Construct::Expression, "+"))
    );
    assert_eq!(
        SqlVisitor::visit_expr(&Expr::Unsupported("count(*)".to_string())),
        Err(unsupported(Construct::Expression, "count(*)"))
    );
    assert_eq!(
        SqlVisitor::visit_expr(&Expr::Value(Value::Unsupported("NULL".to_string()))),
        Err(unsupported(Construct::Expression, "NULL"))
    );
}

#[test]
fn select_items_resolve_to_unnamed_or_aliased() {
    assert_eq!(
        SqlVisitor::visit_select_item(&SelectItem::UnnamedExpr(column("ca"))),
        Ok(intermediate::SelectItem::Unnamed("ca".to_string()))
    );
    assert_eq!(
        SqlVisitor::visit_select_item(&SelectItem::ExprWithAlias {
            expr: column("ca"),
            alias: ident("x"),
        }),
        Ok(intermediate::SelectItem::WithAlias(WithAlias {
            expr: "ca".to_string(),
            alias: "x".to_string(),
        }))
    );
}

#[test]
fn unsupported_select_item_is_refused() {
    assert_eq!(
        SqlVisitor::visit_select_item(&SelectItem::Unsupported("*".to_string())),
        Err(unsupported(Construct::SelectItem, "*"))
    );
    assert_eq!(
        SqlVisitor::visit_select_item(&SelectItem::ExprWithAlias {
            expr: number("7"),
            alias: ident("x"),
        }),
        Err(unsupported(Construct::Expression, "7"))
    );
}

#[test]
fn object_name_resolves_to_its_first_part() {
    let name = ObjectName { parts: vec![ident("ta.csv")] };
    assert_eq!(SqlVisitor::visit_object_name(&name), Ok("ta.csv".to_string()));
    let qualified = ObjectName { parts: vec![ident("db"), ident("t")] };
    assert_eq!(SqlVisitor::visit_object_name(&qualified), Ok("db".to_string()));
}

#[test]
fn empty_object_name_is_a_resolution_error() {
    let name = ObjectName { parts: vec![] };
    assert_eq!(
        SqlVisitor::visit_object_name(&name),
        Err(CompileError::Resolution { construct: Construct::ObjectName })
    );
    assert_eq!(
        SqlVisitor::visit_relation(&TableFactor::Table { name }),
        Err(CompileError::Resolution { construct: Construct::ObjectName })
    );
}

#[test]
fn unsupported_relation_is_refused() {
    let relation = TableFactor::Unsupported("(SELECT 1)".to_string());
    assert_eq!(
        SqlVisitor::visit_relation(&relation),
        Err(unsupported(Construct::Relation, "(SELECT 1)"))
    );
    assert_eq!(SqlVisitor::visit_relation(&table("t.csv")), Ok("t.csv".to_string()));
}

#[test]
fn join_constraint_names_one_column() {
    assert_eq!(
        SqlVisitor::visit_join_constraint(&JoinConstraint::Using(vec![ident("id")])),
        Ok("id".to_string())
    );
    assert_eq!(
        SqlVisitor::visit_join_constraint(&JoinConstraint::Using(vec![])),
        Err(CompileError::Resolution { construct: Construct::JoinConstraint })
    );
    assert_eq!(
        SqlVisitor::visit_join_constraint(&JoinConstraint::Using(vec![
            ident("a"),
            ident("b"),
            ident("c"),
        ])),
        Err(unsupported(Construct::JoinConstraint, "a, b, c"))
    );
    assert_eq!(
        SqlVisitor::visit_join_constraint(&JoinConstraint::Unsupported("ON a = b".to_string())),
        Err(unsupported(Construct::JoinConstraint, "ON a = b"))
    );
}

#[test]
fn join_operators_map_to_their_kinds() {
    let on = || JoinConstraint::Using(vec![ident("k")]);
    assert_eq!(
        SqlVisitor::visit_join_operator(&JoinOperator::Inner(on())),
        Ok((intermediate::JoinOperator::Inner, "k".to_string()))
    );
    assert_eq!(
        SqlVisitor::visit_join_operator(&JoinOperator::LeftOuter(on())),
        Ok((intermediate::JoinOperator::Left, "k".to_string()))
    );
    assert_eq!(
        SqlVisitor::visit_join_operator(&JoinOperator::RightOuter(on())),
        Ok((intermediate::JoinOperator::Right, "k".to_string()))
    );
    assert_eq!(
        SqlVisitor::visit_join_operator(&JoinOperator::Unsupported("CROSS JOIN".to_string())),
        Err(unsupported(Construct::JoinOperator, "CROSS JOIN"))
    );
    assert_eq!(
        SqlVisitor::visit_join_operator(&JoinOperator::Inner(JoinConstraint::Using(vec![]))),
        Err(CompileError::Resolution { construct: Construct::JoinConstraint })
    );
}

#[test]
fn join_clause_becomes_a_join() {
    assert_eq!(
        SqlVisitor::visit_join(&using(JoinOperator::LeftOuter, "tb.csv", "id")),
        Ok(intermediate::Join {
            source: "tb.csv".to_string(),
            operator: intermediate::JoinOperator::Left,
            constraint: "id".to_string(),
        })
    );
    let broken = Join {
        relation: TableFactor::Unsupported("f(x)".to_string()),
        join_operator: JoinOperator::Unsupported("CROSS JOIN".to_string()),
    };
    assert_eq!(SqlVisitor::visit_join(&broken), Err(unsupported(Construct::Relation, "f(x)")));
}

#[test]
fn joins_keep_their_number_and_order() {
    let entry = TableWithJoins {
        relation: table("a.csv"),
        joins: vec![
            using(JoinOperator::Inner, "b.csv", "x"),
            using(JoinOperator::RightOuter, "c.csv", "y"),
            using(JoinOperator::LeftOuter, "d.csv", "z"),
        ],
    };
    let (from, joins) = SqlVisitor::visit_table_with_joins(&entry).unwrap();
    assert_eq!(from, "a.csv");
    assert_eq!(joins.len(), 3);
    let seen: Vec<(String, intermediate::JoinOperator, String)> =
        joins.into_iter().map(|j| (j.source, j.operator, j.constraint)).collect();
    assert_eq!(
        seen,
        vec![
            ("b.csv".to_string(), intermediate::JoinOperator::Inner, "x".to_string()),
            ("c.csv".to_string(), intermediate::JoinOperator::Right, "y".to_string()),
            ("d.csv".to_string(), intermediate::JoinOperator::Left, "z".to_string()),
        ]
    );
}

#[test]
fn first_failing_join_is_reported() {
    let entry = TableWithJoins {
        relation: table("a.csv"),
        joins: vec![
            using(JoinOperator::Inner, "b.csv", "x"),
            Join {
                relation: table("c.csv"),
                join_operator: JoinOperator::Unsupported("FULL JOIN".to_string()),
            },
            Join {
                relation: TableFactor::Unsupported("later".to_string()),
                join_operator: JoinOperator::Inner(JoinConstraint::Using(vec![ident("y")])),
            },
        ],
    };
    assert_eq!(
        SqlVisitor::visit_table_with_joins(&entry),
        Err(unsupported(Construct::JoinOperator, "FULL JOIN"))
    );
}

#[test]
fn select_needs_exactly_one_from_entry() {
    let mut select = select_from(vec![SelectItem::UnnamedExpr(column("a"))], "t.csv");
    select.from.clear();
    assert_eq!(
        SqlVisitor::visit_select(&select),
        Err(CompileError::Resolution { construct: Construct::FromClause })
    );
    select.from = vec![
        TableWithJoins { relation: table("t.csv"), joins: vec![] },
        TableWithJoins {
            relation: TableFactor::Table {
                name: ObjectName { parts: vec![ident("db"), ident("u")] },
            },
            joins: vec![],
        },
    ];
    assert_eq!(
        SqlVisitor::visit_select(&select),
        Err(unsupported(Construct::FromClause, "db.u"))
    );
    select.from[1].relation = TableFactor::Unsupported("LATERAL f()".to_string());
    assert_eq!(
        SqlVisitor::visit_select(&select),
        Err(unsupported(Construct::FromClause, "LATERAL f()"))
    );
}

#[test]
fn select_without_condition_has_no_filter() {
    let select = select_from(
        vec![
            SelectItem::UnnamedExpr(column("a")),
            SelectItem::ExprWithAlias { expr: column("b"), alias: ident("bb") },
        ],
        "t.csv",
    );
    let ir = SqlVisitor::visit_select(&select).unwrap();
    assert_eq!(ir.from, Some("t.csv".to_string()));
    assert_eq!(
        ir.selection,
        vec![
            intermediate::SelectItem::Unnamed("a".to_string()),
            intermediate::SelectItem::WithAlias(WithAlias {
                expr: "b".to_string(),
                alias: "bb".to_string(),
            }),
        ]
    );
    assert!(ir.filter.is_empty());
    assert!(ir.filter_cols.is_empty());
    assert!(ir.order_by.is_empty());
    assert_eq!(ir.limit, None);
}

#[test]
fn projection_fails_before_from_and_condition() {
    let mut select = select_from(
        vec![SelectItem::UnnamedExpr(column("a")), SelectItem::Unsupported("t.*".to_string())],
        "t.csv",
    );
    select.from[0].relation = TableFactor::Unsupported("f()".to_string());
    select.selection = Some(Expr::Unsupported("EXISTS (..)".to_string()));
    assert_eq!(SqlVisitor::visit_select(&select), Err(unsupported(Construct::SelectItem, "t.*")));
    select.projection.pop();
    assert_eq!(SqlVisitor::visit_select(&select), Err(unsupported(Construct::Relation, "f()")));
    select.from[0].relation = table("t.csv");
    assert_eq!(
        SqlVisitor::visit_select(&select),
        Err(unsupported(Construct::Expression, "EXISTS (..)"))
    );
}

#[test]
fn unsupported_body_is_refused() {
    let body = SetExpr::Unsupported("a UNION b".to_string());
    assert_eq!(SqlVisitor::visit_body(&body), Err(unsupported(Construct::QueryBody, "a UNION b")));
    let body = SetExpr::Select(select_from(vec![SelectItem::UnnamedExpr(column("a"))], "t"));
    assert_eq!(SqlVisitor::visit_body(&body).unwrap().from, Some("t".to_string()));
}

#[test]
fn order_direction_defaults_to_ascending() {
    let entry = |asc| OrderByExpr { expr: column("c"), asc };
    assert_eq!(SqlVisitor::visit_order_by_expr(&entry(None)), Ok(("c".to_string(), true)));
    assert_eq!(SqlVisitor::visit_order_by_expr(&entry(Some(true))), Ok(("c".to_string(), true)));
    assert_eq!(SqlVisitor::visit_order_by_expr(&entry(Some(false))), Ok(("c".to_string(), false)));
    assert_eq!(
        SqlVisitor::visit_order_by_expr(&OrderByExpr { expr: number("1"), asc: None }),
        Err(unsupported(Construct::Expression, "1"))
    );
}

#[test]
fn limit_must_be_a_number() {
    assert_eq!(SqlVisitor::visit_limit(&number("10")), Ok("10".to_string()));
    assert_eq!(SqlVisitor::visit_limit(&column("n")), Err(unsupported(Construct::Limit, "n")));
    assert_eq!(
        SqlVisitor::visit_limit(&Expr::Value(Value::Unsupported("NULL".to_string()))),
        Err(unsupported(Construct::Value, "NULL"))
    );
}

#[test]
fn query_carries_order_and_limit() {
    let mut query = query_of(select_from(vec![SelectItem::UnnamedExpr(column("a"))], "t.csv"));
    query.order_by = vec![
        OrderByExpr { expr: column("b"), asc: Some(false) },
        OrderByExpr { expr: column("a"), asc: None },
    ];
    query.limit = Some(number("5"));
    let ir = SqlVisitor::visit_query(&query).unwrap();
    assert_eq!(
        ir.order_by,
        vec![
            ColumnOrder { column: "b".to_string(), direction: OrderDirection::Descending },
            ColumnOrder { column: "a".to_string(), direction: OrderDirection::Ascending },
        ]
    );
    assert_eq!(ir.limit, Some("5".to_string()));
    assert_eq!(ir.from, Some("t.csv".to_string()));
    assert_eq!(ir.selection, vec![intermediate::SelectItem::Unnamed("a".to_string())]);
}

#[test]
fn query_fails_in_body_then_order_then_limit() {
    let mut query = query_of(select_from(vec![SelectItem::UnnamedExpr(column("a"))], "t.csv"));
    query.order_by = vec![OrderByExpr { expr: number("2"), asc: None }];
    query.limit = Some(column("n"));
    assert_eq!(SqlVisitor::visit_query(&query), Err(unsupported(Construct::Expression, "2")));
    query.order_by.clear();
    assert_eq!(SqlVisitor::visit_query(&query), Err(unsupported(Construct::Limit, "n")));
    query.body = SetExpr::Unsupported("VALUES (1)".to_string());
    assert_eq!(
        SqlVisitor::visit_query(&query),
        Err(unsupported(Construct::QueryBody, "VALUES (1)"))
    );
}

#[test]
fn refused_statement_leaves_the_representation() {
    let mut visitor = SqlVisitor::new();
    assert_eq!(traverse_ast(&mut visitor, &two_conjuncts()), Ok(()));
    let before = visitor.ir.clone();
    let refused = Statement::Unsupported("DROP TABLE t".to_string());
    assert_eq!(
        traverse_ast(&mut visitor, &refused),
        Err(unsupported(Construct::Statement, "DROP TABLE t"))
    );
    assert_eq!(visitor.ir, before);
    let mut select = select_from(vec![SelectItem::UnnamedExpr(column("zz"))], "other.csv");
    select.selection = Some(Expr::Unsupported("x LIKE 'a%'".to_string()));
    assert_eq!(
        visitor.visit_statement(&Statement::Query(query_of(select))),
        Err(unsupported(Construct::Expression, "x LIKE 'a%'"))
    );
    assert_eq!(visitor.ir, before);
}

#[test]
fn a_second_statement_replaces_the_first() {
    let mut visitor = SqlVisitor::new();
    assert_eq!(traverse_ast(&mut visitor, &two_conjuncts()), Ok(()));
    let second = Statement::Query(query_of(select_from(
        vec![SelectItem::UnnamedExpr(column("a"))],
        "tb.csv",
    )));
    assert_eq!(visitor.visit_statement(&second), Ok(()));
    assert_eq!(visitor.ir.from, Some("tb.csv".to_string()));
    assert_eq!(visitor.ir.selection, vec![intermediate::SelectItem::Unnamed("a".to_string())]);
    assert!(visitor.ir.filter.is_empty());
    assert!(visitor.ir.filter_cols.is_empty());
}

#[test]
fn absorbing_keeps_first_appearances() {
    let mut acc = strings(&["b", "a"]);
    absorb_all(&mut acc, strings(&["a", "c", "b", "c", "d"]));
    assert_eq!(acc, strings(&["b", "a", "c", "d"]));
}
