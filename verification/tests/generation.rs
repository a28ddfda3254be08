use sqlcodegen::error::{CompileError, Stage};
use sqlcodegen::generator::{check_columns, generate_code, render_filter};
use sqlcodegen::intermediate::{
    ColumnOrder, IntRep, IntRepSchema, Join, JoinOperator, OrderDirection, SelectItem, WithAlias,
};
use sqlcodegen::schema::ColumnTypes;
use sqlcodegen::syntax;
use sqlcodegen::visitor::{traverse_ast, SqlVisitor};

fn schema(items: &[(&str, &str)]) -> ColumnTypes {
    let mut columns = ColumnTypes::new();
    for (name, tag) in items {
        columns.insert(name.to_string(), tag.to_string());
    }
    columns
}

fn strings(items: &[&str]) -> Vec<String> {
    items.iter().map(|s| s.to_string()).collect()
}

fn unnamed(name: &str) -> SelectItem {
    SelectItem::Unnamed(name.to_string())
}

fn aliased(expr: &str, alias: &str) -> SelectItem {
    SelectItem::WithAlias(WithAlias { expr: expr.to_string(), alias: alias.to_string() })
}

fn join(source: &str, operator: JoinOperator, constraint: &str) -> Join {
    Join { source: source.to_string(), operator, constraint: constraint.to_string() }
}

fn key(column: &str, direction: OrderDirection) -> ColumnOrder {
    ColumnOrder { column: column.to_string(), direction }
}

fn rep(from: &str, selection: Vec<SelectItem>) -> IntRep {
    let mut ir = IntRep::new();
    ir.from = Some(from.to_string());
    ir.selection = selection;
    ir
}

fn doubles_and_long() -> ColumnTypes {
    schema(&[("ca", "double"), ("cb", "double"), ("cc", "long"), ("INDEX", "string")])
}

fn untyped(column: &str, stage: Stage) -> CompileError {
    CompileError::CodeGenInvariant { column: column.to_string(), stage }
}

fn bare(from: &str, selection: Vec<SelectItem>, columns: ColumnTypes) -> IntRepSchema {
    IntRepSchema {
        from: from.to_string(),
        selection,
        filter: vec![],
        filter_cols: vec![],
        joins: vec![],
        order_by: vec![],
        limit: None,
        index_type: "ulong".to_string(),
        col_types: columns,
    }
}

fn lines_with<'a>(text: &'a str, part: &str) -> Vec<&'a str> {
    text.lines().filter(|line| line.contains(part)).collect()
}

fn column_of(name: &str) -> syntax::Expr {
    syntax::Expr::Identifier(syntax::Ident { value: name.to_string() })
}

fn number(digits: &str) -> syntax::Expr {
    syntax::Expr::Value(syntax::Value::Number(digits.to_string()))
}

fn equals(left: syntax::Expr, right: syntax::Expr) -> syntax::Expr {
    syntax::Expr::BinaryOp {
        left: Box::new(left),
        op: syntax::BinaryOperator::Eq,
        right: Box::new(right),
    }
}

fn two_conjuncts() -> syntax::Statement {
    let condition = syntax::Expr::BinaryOp {
        left: Box::new(equals(column_of("cb"), number("1"))),
        op: syntax::BinaryOperator::And,
        right: Box::new(equals(column_of("ca"), number("2"))),
    };
    syntax::Statement::Query(syntax::Query {
        body: syntax::SetExpr::Select(syntax::Select {
            projection: vec![syntax::SelectItem::UnnamedExpr(column_of("cc"))],
            from: vec![syntax::TableWithJoins {
                relation: syntax::TableFactor::Table {
                    name: syntax::ObjectName {
                        parts: vec![syntax::Ident { value: "ta.csv".to_string() }],
                    },
                },
                joins: vec![],
            }],
            selection: Some(condition),
        }),
        order_by: vec![],
        limit: None,
    })
}

#[test]
fn program_for_a_filtered_selection() {
    let mut visitor = SqlVisitor::new();
    assert_eq!(traverse_ast(&mut visitor, &two_conjuncts()), Ok(()));
    let finished = IntRepSchema::with_schema(visitor.ir, doubles_and_long()).unwrap();
    assert_eq!(finished.index_type, "string");
    let text = generate_code(&finished).unwrap();
    let expected = [
        "#include <DataFrame/DataFrame.h>",
        "#include <iostream>",
        "#include <string>",
        "using namespace hmdf;",
        "int main() {",
        "    StdDataFrame<string> source_0; source_0.read(\"ta.csv\", io_format::csv2);",
        "    auto predicate = [](const string &, const double &cb, const double &ca) -> bool { return (( cb == 1 ) && ( ca == 2 )); };",
        "    auto filtered = source_0.get_data_by_sel<double, double, decltype(predicate), double, long, string>(\"cb\", \"ca\", predicate);",
        "    StdDataFrame<string> projected;",
        "    projected.load_index(filtered.get_index().begin(), filtered.get_index().end());",
        "    projected.load_column<long>(\"cc\", filtered.get_column<long>(\"cc\"));",
        "    projected.write<std::ostream, long>(std::cout, io_format::csv2);",
        "    return 0;",
        "}",
    ]
    .join("\n");
    assert_eq!(text, expected);
    assert!(!text.contains("join_by_column"));
    assert!(!text.contains(".sort<"));
    assert!(!text.contains("get_data_by_loc"));
    assert!(!text.contains("limited"));
}

#[test]
fn program_with_every_stage() {
    let mut ir = rep("a.csv", vec![unnamed("x"), aliased("y", "why"), unnamed("k")]);
    ir.joins = vec![
        join("b.csv", JoinOperator::Left, "k"),
        join("c.csv", JoinOperator::Inner, "k"),
    ];
    ir.filter = strings(&["(", "(", "x", ">", "1.5", ")", "||", "(", "z", "!=", "0", ")", ")"]);
    ir.filter_cols = strings(&["x", "z"]);
    ir.order_by = vec![key("why", OrderDirection::Descending), key("x", OrderDirection::Ascending)];
    ir.limit = Some("10".to_string());
    let columns = schema(&[
        ("INDEX", "ulong"),
        ("k", "int"),
        ("x", "double"),
        ("y", "int"),
        ("z", "long"),
    ]);
    let finished = IntRepSchema::with_schema(ir, columns).unwrap();
    let text = generate_code(&finished).unwrap();
    let expected = [
        "#include <DataFrame/DataFrame.h>",
        "#include <iostream>",
        "#include <string>",
        "using namespace hmdf;",
        "int main() {",
        "    StdDataFrame<ulong> source_0; source_0.read(\"a.csv\", io_format::csv2);",
        "    StdDataFrame<ulong> source_1; source_1.read(\"b.csv\", io_format::csv2);",
        "    StdDataFrame<ulong> source_2; source_2.read(\"c.csv\", io_format::csv2);",
        "    auto joined_1 = source_0.join_by_column<decltype(source_1), ulong, int, double, long>(source_1, \"k\", join_policy::left_join);",
        "    auto joined_2 = joined_1.join_by_column<decltype(source_2), ulong, int, double, long>(source_2, \"k\", join_policy::inner_join);",
        "    auto predicate = [](const ulong &, const double &x, const long &z) -> bool { return (( x > 1.5 ) || ( z != 0 )); };",
        "    auto filtered = joined_2.get_data_by_sel<double, long, decltype(predicate), ulong, int, double, long>(\"x\", \"z\", predicate);",
        "    StdDataFrame<ulong> projected;",
        "    projected.load_index(filtered.get_index().begin(), filtered.get_index().end());",
        "    projected.load_column<double>(\"x\", filtered.get_column<double>(\"x\"));",
        "    projected.load_column<int>(\"why\", filtered.get_column<int>(\"y\"));",
        "    projected.load_column<int>(\"k\", filtered.get_column<int>(\"k\"));",
        "    projected.sort<int, double, ulong, int, double, long>(\"why\", sort_spec::desce, \"x\", sort_spec::ascen);",
        "    auto limited = projected.get_data_by_loc<double, int>(Index2D<long> { 0, 10 });",
        "    limited.write<std::ostream, double, int>(std::cout, io_format::csv2);",
        "    return 0;",
        "}",
    ]
    .join("\n");
    assert_eq!(text, expected);
}

#[test]
fn program_without_filter_projects_the_joined_rows() {
    let mut ir = rep("a.csv", vec![unnamed("x")]);
    ir.joins = vec![join("b.csv", JoinOperator::Right, "x")];
    let finished =
        IntRepSchema::with_schema(ir, schema(&[("INDEX", "ulong"), ("x", "int")])).unwrap();
    let text = generate_code(&finished).unwrap();
    assert!(!text.contains("predicate"));
    assert!(!text.contains("get_data_by_sel"));
    assert_eq!(
        lines_with(&text, "load_"),
        vec![
            "    projected.load_index(joined_1.get_index().begin(), joined_1.get_index().end());",
            "    projected.load_column<int>(\"x\", joined_1.get_column<int>(\"x\"));",
        ]
    );
    assert_eq!(
        lines_with(&text, "join_by_column"),
        vec![
            "    auto joined_1 = source_0.join_by_column<decltype(source_1), ulong, int>(source_1, \"x\", join_policy::right_join);",
        ]
    );
}

#[test]
fn program_without_anything_optional() {
    let finished = bare("t.csv", vec![], schema(&[]));
    let text = generate_code(&finished).unwrap();
    let expected = [
        "#include <DataFrame/DataFrame.h>",
        "#include <iostream>",
        "#include <string>",
        "using namespace hmdf;",
        "int main() {",
        "    StdDataFrame<ulong> source_0; source_0.read(\"t.csv\", io_format::csv2);",
        "    StdDataFrame<ulong> projected;",
        "    projected.load_index(source_0.get_index().begin(), source_0.get_index().end());",
        "    projected.write<std::ostream>(std::cout, io_format::csv2);",
        "    return 0;",
        "}",
    ]
    .join("\n");
    assert_eq!(text, expected);
}

#[test]
fn join_chain_has_one_step_per_join_in_order() {
    let columns = schema(&[("INDEX", "ulong"), ("k", "int")]);
    let mut ir = rep("a.csv", vec![unnamed("k")]);
    ir.joins = vec![
        join("b.csv", JoinOperator::Inner, "p"),
        join("c.csv", JoinOperator::Left, "q"),
        join("d.csv", JoinOperator::Right, "r"),
    ];
    let text = generate_code(&IntRepSchema::with_schema(ir.clone(), columns.clone()).unwrap()).unwrap();
    assert_eq!(
        lines_with(&text, "join_by_column"),
        vec![
            "    auto joined_1 = source_0.join_by_column<decltype(source_1), ulong, int>(source_1, \"p\", join_policy::inner_join);",
            "    auto joined_2 = joined_1.join_by_column<decltype(source_2), ulong, int>(source_2, \"q\", join_policy::left_join);",
            "    auto joined_3 = joined_2.join_by_column<decltype(source_3), ulong, int>(source_3, \"r\", join_policy::right_join);",
        ]
    );
    assert_eq!(
        lines_with(&text, ".read("),
        vec![
            "    StdDataFrame<ulong> source_0; source_0.read(\"a.csv\", io_format::csv2);",
            "    StdDataFrame<ulong> source_1; source_1.read(\"b.csv\", io_format::csv2);",
            "    StdDataFrame<ulong> source_2; source_2.read(\"c.csv\", io_format::csv2);",
            "    StdDataFrame<ulong> source_3; source_3.read(\"d.csv\", io_format::csv2);",
        ]
    );
    ir.joins.reverse();
    let text = generate_code(&IntRepSchema::with_schema(ir, columns).unwrap()).unwrap();
    assert_eq!(
        lines_with(&text, "join_by_column"),
        vec![
            "    auto joined_1 = source_0.join_by_column<decltype(source_1), ulong, int>(source_1, \"r\", join_policy::right_join);",
            "    auto joined_2 = joined_1.join_by_column<decltype(source_2), ulong, int>(source_2, \"q\", join_policy::left_join);",
            "    auto joined_3 = joined_2.join_by_column<decltype(source_3), ulong, int>(source_3, \"p\", join_policy::inner_join);",
        ]
    );
}

#[test]
fn eleven_joins_are_numbered_in_decimal() {
    let mut ir = rep("s.csv", vec![]);
    for _ in 0..11 {
        ir.joins.push(join("j.csv", JoinOperator::Inner, "k"));
    }
    let text =
        generate_code(&IntRepSchema::with_schema(ir, schema(&[("INDEX", "int")])).unwrap()).unwrap();
    let steps = lines_with(&text, "join_by_column");
    assert_eq!(steps.len(), 11);
    assert_eq!(
        steps[9],
        "    auto joined_10 = joined_9.join_by_column<decltype(source_10), int>(source_10, \"k\", join_policy::inner_join);"
    );
    assert_eq!(
        steps[10],
        "    auto joined_11 = joined_10.join_by_column<decltype(source_11), int>(source_11, \"k\", join_policy::inner_join);"
    );
    assert_eq!(lines_with(&text, ".read(").len(), 12);
    assert_eq!(
        lines_with(&text, "load_index"),
        vec!["    projected.load_index(joined_11.get_index().begin(), joined_11.get_index().end());"]
    );
}

#[test]
fn generating_twice_gives_the_same_text() {
    let mut ir = rep("a.csv", vec![unnamed("x"), aliased("y", "z")]);
    ir.joins = vec![join("b.csv", JoinOperator::Inner, "x")];
    ir.order_by = vec![key("z", OrderDirection::Ascending)];
    ir.limit = Some("4".to_string());
    let columns = schema(&[
        ("INDEX", "ulong"),
        ("x", "std::string"),
        ("y", "double"),
        ("w", "std::string"),
        ("v", "long"),
        ("u", "double"),
    ]);
    let finished = IntRepSchema::with_schema(ir, columns).unwrap();
    let first = generate_code(&finished).unwrap();
    let second = generate_code(&finished.clone()).unwrap();
    assert_eq!(first, second);
    assert_eq!(
        lines_with(&first, ".sort<"),
        vec![
            "    projected.sort<double, ulong, std::string, double, long>(\"z\", sort_spec::ascen);"
        ]
    );
}

#[test]
fn no_ordering_means_no_sort_and_no_limit_means_no_bound() {
    let columns = schema(&[("INDEX", "ulong"), ("x", "int")]);
    let mut ir = rep("a.csv", vec![unnamed("x")]);
    let plain = generate_code(&IntRepSchema::with_schema(ir.clone(), columns.clone()).unwrap()).unwrap();
    assert!(!plain.contains("sort"));
    assert!(!plain.contains("get_data_by_loc"));
    assert!(!plain.contains("limited"));
    assert_eq!(
        lines_with(&plain, ".write<"),
        vec!["    projected.write<std::ostream, int>(std::cout, io_format::csv2);"]
    );

    ir.limit = Some("2".to_string());
    let limited = generate_code(&IntRepSchema::with_schema(ir.clone(), columns.clone()).unwrap()).unwrap();
    assert!(!limited.contains("sort"));
    assert_eq!(
        lines_with(&limited, "limited"),
        vec![
            "    auto limited = projected.get_data_by_loc<int>(Index2D<long> { 0, 2 });",
            "    limited.write<std::ostream, int>(std::cout, io_format::csv2);",
        ]
    );

    ir.limit = None;
    ir.order_by = vec![key("x", OrderDirection::Descending)];
    let sorted = generate_code(&IntRepSchema::with_schema(ir, columns).unwrap()).unwrap();
    assert!(!sorted.contains("limited"));
    assert_eq!(
        lines_with(&sorted, "sort"),
        vec!["    projected.sort<int, ulong, int>(\"x\", sort_spec::desce);"]
    );
}

#[test]
fn untyped_filter_column_stops_generation() {
    let mut finished = bare("t.csv", vec![unnamed("gone")], schema(&[("a", "int")]));
    finished.filter = strings(&["(", "a", "<", "b", ")"]);
    finished.filter_cols = strings(&["a", "b", "c"]);
    finished.order_by = vec![key("lost", OrderDirection::Ascending)];
    assert_eq!(generate_code(&finished), Err(untyped("b", Stage::Filter)));
    assert_eq!(check_columns(&finished), Some(untyped("b", Stage::Filter)));
}

#[test]
fn untyped_projected_column_stops_generation() {
    let mut finished =
        bare("t.csv", vec![unnamed("a"), aliased("gone", "g")], schema(&[("a", "int")]));
    finished.order_by = vec![key("lost", OrderDirection::Ascending)];
    assert_eq!(generate_code(&finished), Err(untyped("gone", Stage::Projection)));
}

#[test]
fn untyped_sort_column_stops_generation() {
    let mut finished = bare("t.csv", vec![unnamed("a")], schema(&[("a", "int")]));
    finished.order_by =
        vec![key("a", OrderDirection::Ascending), key("lost", OrderDirection::Ascending)];
    assert_eq!(generate_code(&finished), Err(untyped("lost", Stage::Sort)));
}

#[test]
fn filter_columns_are_not_looked_up_without_a_filter() {
    let mut finished = bare("t.csv", vec![unnamed("a")], schema(&[("a", "int")]));
    finished.filter_cols = strings(&["unused"]);
    assert_eq!(check_columns(&finished), None);
    assert!(generate_code(&finished).is_ok());
}

#[test]
fn alias_needs_no_type_of_its_own_to_be_projected() {
    let finished = bare("t.csv", vec![aliased("a", "b")], schema(&[("a", "int")]));
    let text = generate_code(&finished).unwrap();
    assert_eq!(
        lines_with(&text, "load_column"),
        vec!["    projected.load_column<int>(\"b\", source_0.get_column<int>(\"a\"));"]
    );
}

#[test]
fn filter_tokens_are_spaced_except_in_runs_of_like_parentheses() {
    assert_eq!(render_filter(&vec![]), "");
    assert_eq!(render_filter(&strings(&["x"])), "x");
    assert_eq!(render_filter(&strings(&["(", "a", "+", "b", ")"])), "( a + b )");
    assert_eq!(
        render_filter(&strings(&["(", "a", ">", "(", "b", "*", "(", "c", "-", "1", ")", ")", ")"])),
        "( a > ( b * ( c - 1 )))"
    );
    assert_eq!(render_filter(&strings(&["(", ")", "(", ")"])), "( ) ( )");
    assert_eq!(render_filter(&strings(&["(", "(", "(", "a", ")", ")", ")"])), "((( a )))");
}
