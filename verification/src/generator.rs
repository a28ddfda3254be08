//! The rendering of a finished representation as C++ source text.
//!
//! The text is a `main` function that runs the query on data frames: it loads
//! every source, joins them in order, filters, projects, sorts, limits and
//! writes the result as CSV to the standard output. The stages come in that
//! order; a stage the query has no use for leaves no line.
use crate::error::{CompileError, CompileErrorView, Stage};
use crate::intermediate::{
    effective_name, first_missing, first_unbound, lemma_first_missing, order_columns,
    ordering_columns, resolved, selected_columns, selection_columns, source_column, source_names,
    ColumnOrderView, IntRepSchema, IntRepSchemaView, JoinOperator, JoinView, OrderDirection,
    SelectItem,
};
use crate::schema::{lookup, tags, ColumnTypes};
use crate::text::{
    decimal, decimal_string, distinct, extend_cloned, join_with, joined, lemma_absorb_concat,
    lemma_absorb_members, lemma_decimal_injective, lemma_views_push, push_distinct, views,
};
use vstd::prelude::*;

verus! {

/// The tag of `name`, or the empty text where it has none.
pub open spec fn tag_or_empty(cols: Seq<(Seq<char>, Seq<char>)>, name: Seq<char>) -> Seq<char> {
    match lookup(cols, name) {
        Some(tag) => tag,
        None => Seq::empty(),
    }
}

/// The tags of `names`, name by name.
pub open spec fn tags_of(cols: Seq<(Seq<char>, Seq<char>)>, names: Seq<Seq<char>>) -> Seq<
    Seq<char>,
> {
    Seq::new(names.len(), |i: int| tag_or_empty(cols, names[i]))
}

/// `s` as a string literal of the target language.
pub open spec fn quoted(s: Seq<char>) -> Seq<char> {
    "\""@ + s + "\""@
}

/// Each of `names` quoted.
pub open spec fn quoted_all(names: Seq<Seq<char>>) -> Seq<Seq<char>> {
    Seq::new(names.len(), |i: int| quoted(names[i]))
}

/// `items` with a comma and a space between neighbours.
pub open spec fn comma_list(items: Seq<Seq<char>>) -> Seq<char> {
    joined(items, ", "@)
}

/// The distinct type tags of the whole schema, in order of first appearance.
pub open spec fn distinct_types(rep: IntRepSchemaView) -> Seq<Seq<char>> {
    distinct(tags(rep.col_types))
}

/// The distinct type tags of the projected columns, in order of first
/// appearance.
pub open spec fn projected_types(rep: IntRepSchemaView) -> Seq<Seq<char>> {
    distinct(tags_of(rep.col_types, selected_columns(rep.selection)))
}

/// The variable that holds the `k`-th source, the primary one being the 0th.
pub open spec fn source_var(k: nat) -> Seq<char> {
    "source_"@ + decimal(k)
}

/// The variable that holds the result of the `k`-th join, counted from 1.
pub open spec fn joined_var(k: nat) -> Seq<char> {
    "joined_"@ + decimal(k)
}

/// The variable that holds the rows after `k` joins.
pub open spec fn joined_result(k: nat) -> Seq<char> {
    if k == 0 {
        source_var(0)
    } else {
        joined_var(k)
    }
}

/// The variable that holds the rows after the filter stage.
pub open spec fn filtered_result(rep: IntRepSchemaView) -> Seq<char> {
    if rep.filter.len() == 0 {
        joined_result(rep.joins.len())
    } else {
        "filtered"@
    }
}

/// The variable that holds the rows that are written out.
pub open spec fn final_result(rep: IntRepSchemaView) -> Seq<char> {
    if rep.limit is Some {
        "limited"@
    } else {
        "projected"@
    }
}

/// The lines before the first stage.
pub open spec fn header_lines() -> Seq<Seq<char>> {
    seq![
        "#include <DataFrame/DataFrame.h>"@,
        "#include <iostream>"@,
        "#include <string>"@,
        "using namespace hmdf;"@,
        "int main() {"@,
    ]
}

/// The line that reads the `k`-th source.
pub open spec fn load_line(rep: IntRepSchemaView, k: int) -> Seq<char> {
    "    StdDataFrame<"@ + rep.index_type + "> "@ + source_var(k as nat) + "; "@ + source_var(
        k as nat,
    ) + ".read("@ + quoted(source_names(rep.from, rep.joins)[k]) + ", io_format::csv2);"@
}

/// The load stage: one line per source, the primary one first.
pub open spec fn load_stage(rep: IntRepSchemaView) -> Seq<Seq<char>> {
    Seq::new(rep.joins.len() + 1, |k: int| load_line(rep, k))
}

/// The join policy of the target library for a kind of join.
pub open spec fn policy(operator: JoinOperator) -> Seq<char> {
    match operator {
        JoinOperator::Inner => "inner_join"@,
        JoinOperator::Left => "left_join"@,
        JoinOperator::Right => "right_join"@,
    }
}

/// The `k`-th step of the join chain, counted from 0: it joins the rows so
/// far with the source loaded `k + 1`-th, on the column and by the policy of
/// `join`, over the type list `types`.
pub open spec fn join_step(k: int, join: JoinView, types: Seq<Seq<char>>) -> Seq<char> {
    "    auto "@ + joined_var((k + 1) as nat) + " = "@ + joined_result(k as nat)
        + ".join_by_column<"@ + comma_list(
        seq!["decltype("@ + source_var((k + 1) as nat) + ")"@] + types,
    ) + ">("@ + source_var((k + 1) as nat) + ", "@ + quoted(join.constraint)
        + ", join_policy::"@ + policy(join.operator) + ");"@
}

/// The line of the join at index `k`.
pub open spec fn join_line(rep: IntRepSchemaView, k: int) -> Seq<char> {
    join_step(k, rep.joins[k], distinct_types(rep))
}

/// The join stage: one line per join, in join order.
pub open spec fn join_stage(rep: IntRepSchemaView) -> Seq<Seq<char>> {
    Seq::new(rep.joins.len(), |k: int| join_line(rep, k))
}

/// What stands between two neighbouring filter tokens: nothing inside a run
/// of like parentheses, a space elsewhere.
pub open spec fn gap(before: Seq<char>, after: Seq<char>) -> Seq<char> {
    if (before == "("@ && after == "("@) || (before == ")"@ && after == ")"@) {
        Seq::empty()
    } else {
        " "@
    }
}

/// The filter tokens as one expression: each token as it is, in order.
pub open spec fn filter_text(tokens: Seq<Seq<char>>) -> Seq<char>
    decreases tokens.len(),
{
    if tokens.len() == 0 {
        Seq::empty()
    } else if tokens.len() == 1 {
        tokens[0]
    } else {
        filter_text(tokens.drop_last()) + gap(tokens[tokens.len() - 2], tokens.last())
            + tokens.last()
    }
}

/// The parameters of the predicate after the index: one per filter column,
/// of the column's type and under the column's name.
pub open spec fn parameters(rep: IntRepSchemaView) -> Seq<Seq<char>> {
    Seq::new(
        rep.filter_cols.len(),
        |i: int|
            "const "@ + tag_or_empty(rep.col_types, rep.filter_cols[i]) + " &"@
                + rep.filter_cols[i],
    )
}

/// The line that defines the predicate.
pub open spec fn predicate_line(rep: IntRepSchemaView) -> Seq<char> {
    "    auto predicate = []("@ + comma_list(
        seq!["const "@ + rep.index_type + " &"@] + parameters(rep),
    ) + ") -> bool { return "@ + filter_text(rep.filter) + "; };"@
}

/// The line that selects the rows the predicate accepts.
pub open spec fn select_line(rep: IntRepSchemaView) -> Seq<char> {
    "    auto filtered = "@ + joined_result(rep.joins.len()) + ".get_data_by_sel<"@ + comma_list(
        tags_of(rep.col_types, rep.filter_cols) + seq!["decltype(predicate)"@] + distinct_types(
            rep,
        ),
    ) + ">("@ + comma_list(quoted_all(rep.filter_cols) + seq!["predicate"@]) + ");"@
}

/// The filter stage: the predicate and the selection, or nothing where the
/// query has no filter.
pub open spec fn filter_stage(rep: IntRepSchemaView) -> Seq<Seq<char>> {
    if rep.filter.len() == 0 {
        Seq::empty()
    } else {
        seq![predicate_line(rep), select_line(rep)]
    }
}

/// The line that declares the projected rows.
pub open spec fn frame_line(rep: IntRepSchemaView) -> Seq<char> {
    "    StdDataFrame<"@ + rep.index_type + "> projected;"@
}

/// The line that gives the projected rows the index of the filtered ones.
pub open spec fn index_line(rep: IntRepSchemaView) -> Seq<char> {
    "    projected.load_index("@ + filtered_result(rep) + ".get_index().begin(), "@
        + filtered_result(rep) + ".get_index().end());"@
}

/// The line of the projection entry at index `i`: it extracts the column the
/// entry reads and loads it under the name the entry goes by.
pub open spec fn column_line(rep: IntRepSchemaView, i: int) -> Seq<char> {
    "    projected.load_column<"@ + tag_or_empty(rep.col_types, source_column(rep.selection[i]))
        + ">("@ + quoted(effective_name(rep.selection[i])) + ", "@ + filtered_result(rep)
        + ".get_column<"@ + tag_or_empty(rep.col_types, source_column(rep.selection[i])) + ">("@
        + quoted(source_column(rep.selection[i])) + "));"@
}

/// The projection stage: the frame, its index, and one line per entry of the
/// projection, in order.
pub open spec fn projection_stage(rep: IntRepSchemaView) -> Seq<Seq<char>> {
    seq![frame_line(rep), index_line(rep)] + Seq::new(
        rep.selection.len(),
        |i: int| column_line(rep, i),
    )
}

/// The sort direction of the target library.
pub open spec fn direction_text(direction: OrderDirection) -> Seq<char> {
    match direction {
        OrderDirection::Ascending => "sort_spec::ascen"@,
        OrderDirection::Descending => "sort_spec::desce"@,
    }
}

/// One sort key as an argument pair: the column, then the direction.
pub open spec fn sort_key(key: ColumnOrderView) -> Seq<char> {
    quoted(key.column) + ", "@ + direction_text(key.direction)
}

/// The sort keys as argument pairs, key by key.
pub open spec fn sort_keys(order_by: Seq<ColumnOrderView>) -> Seq<Seq<char>> {
    Seq::new(order_by.len(), |i: int| sort_key(order_by[i]))
}

/// The line that sorts the projected rows: by type of each key, then the
/// distinct types, then the keys.
pub open spec fn sort_line(rep: IntRepSchemaView) -> Seq<char> {
    "    projected.sort<"@ + comma_list(
        tags_of(rep.col_types, order_columns(rep.order_by)) + distinct_types(rep),
    ) + ">("@ + comma_list(sort_keys(rep.order_by)) + ");"@
}

/// The sort stage: one line, or nothing where the query has no ordering.
pub open spec fn sort_stage(rep: IntRepSchemaView) -> Seq<Seq<char>> {
    if rep.order_by.len() == 0 {
        Seq::empty()
    } else {
        seq![sort_line(rep)]
    }
}

/// The line that keeps the first `count` rows.
pub open spec fn limit_line(rep: IntRepSchemaView, count: Seq<char>) -> Seq<char> {
    "    auto limited = projected.get_data_by_loc<"@ + comma_list(projected_types(rep))
        + ">(Index2D<long> { 0, "@ + count + " });"@
}

/// The limit stage: one line, or nothing where the query has no limit.
pub open spec fn limit_stage(rep: IntRepSchemaView) -> Seq<Seq<char>> {
    match rep.limit {
        Some(count) => seq![limit_line(rep, count)],
        None => Seq::empty(),
    }
}

/// The line that writes the result.
pub open spec fn write_line(rep: IntRepSchemaView) -> Seq<char> {
    "    "@ + final_result(rep) + ".write<"@ + comma_list(
        seq!["std::ostream"@] + projected_types(rep),
    ) + ">(std::cout, io_format::csv2);"@
}

/// The output stage, and the end of `main`.
pub open spec fn output_stage(rep: IntRepSchemaView) -> Seq<Seq<char>> {
    seq![write_line(rep), "    return 0;"@, "}"@]
}

/// The lines of the program, stage after stage.
pub open spec fn program_lines(rep: IntRepSchemaView) -> Seq<Seq<char>> {
    header_lines() + load_stage(rep) + join_stage(rep) + filter_stage(rep) + projection_stage(rep)
        + sort_stage(rep) + limit_stage(rep) + output_stage(rep)
}

/// The program: its lines with a line feed between neighbours.
pub open spec fn program_text(rep: IntRepSchemaView) -> Seq<char> {
    joined(program_lines(rep), "\n"@)
}

/// The failure of a lookup in a stage.
pub open spec fn untyped(column: Seq<char>, stage: Stage) -> CompileErrorView {
    CompileErrorView::CodeGenInvariant { column, stage }
}

/// The first column, in stage order, whose type a stage looks up and does not
/// find: a filter column where there is a filter, a projected column, or the
/// column of a sort key.
pub open spec fn codegen_failure(rep: IntRepSchemaView) -> Option<CompileErrorView> {
    let in_filter = if rep.filter.len() == 0 {
        None
    } else {
        first_missing(rep.col_types, rep.filter_cols)
    };
    match in_filter {
        Some(column) => Some(untyped(column, Stage::Filter)),
        None => match first_missing(rep.col_types, selected_columns(rep.selection)) {
            Some(column) => Some(untyped(column, Stage::Projection)),
            None => match first_missing(rep.col_types, order_columns(rep.order_by)) {
                Some(column) => Some(untyped(column, Stage::Sort)),
                None => None,
            },
        },
    }
}

/// Appends one line.
fn push_line(lines: &mut Vec<String>, line: String)
    ensures
        views(final(lines)@) == views(old(lines)@).push(line@),
{
    proof {
        lemma_views_push(lines@, line);
    }
    lines.push(line);
}

/// Writes `s` as a string literal of the target language.
fn quote(s: &str) -> (out: String)
    ensures
        out@ == quoted(s@),
{
    let mut out = String::from_str("\"");
    out.append(s);
    out.append("\"");
    out
}

/// Quotes each name.
fn quote_all(names: &Vec<String>) -> (out: Vec<String>)
    ensures
        views(out@) == quoted_all(views(names@)),
{
    let mut out: Vec<String> = Vec::new();
    let mut i: usize = 0;
    while i < names.len()
        invariant
            i <= names.len(),
            views(out@) == quoted_all(views(names@)).take(i as int),
        decreases names.len() - i,
    {
        let item = quote(names[i].as_str());
        proof {
            lemma_views_push(out@, item);
            assert(quoted_all(views(names@)).take(i + 1) =~= quoted_all(views(names@)).take(
                i as int,
            ).push(item@));
        }
        out.push(item);
        i += 1;
    }
    out
}

/// The tag of `name`, or the empty text where it has none.
fn tag_of(cols: &ColumnTypes, name: &String) -> (out: String)
    ensures
        out@ == tag_or_empty(cols@, name@),
{
    match cols.get(name) {
        Some(tag) => tag.clone(),
        None => String::new(),
    }
}

/// The tags of `names`, name by name.
fn tags_for(cols: &ColumnTypes, names: &Vec<String>) -> (out: Vec<String>)
    ensures
        views(out@) == tags_of(cols@, views(names@)),
{
    let mut out: Vec<String> = Vec::new();
    let mut i: usize = 0;
    while i < names.len()
        invariant
            i <= names.len(),
            views(out@) == tags_of(cols@, views(names@)).take(i as int),
        decreases names.len() - i,
    {
        let item = tag_of(cols, &names[i]);
        proof {
            lemma_views_push(out@, item);
            assert(tags_of(cols@, views(names@)).take(i + 1) =~= tags_of(
                cols@,
                views(names@),
            ).take(i as int).push(item@));
        }
        out.push(item);
        i += 1;
    }
    out
}

/// The strings of `items` in order of first appearance, each once.
fn distinct_strings(items: &Vec<String>) -> (out: Vec<String>)
    ensures
        views(out@) == distinct(views(items@)),
{
    let mut out: Vec<String> = Vec::new();
    let mut i: usize = 0;
    while i < items.len()
        invariant
            i <= items.len(),
            views(out@) == distinct(views(items@).take(i as int)),
        decreases items.len() - i,
    {
        proof {
            assert(views(items@).take(i + 1) =~= views(items@).take(i as int) + seq![
                items@[i as int]@,
            ]);
            lemma_absorb_concat(
                Seq::empty(),
                views(items@).take(i as int),
                seq![items@[i as int]@],
            );
        }
        push_distinct(&mut out, items[i].clone());
        i += 1;
    }
    assert(views(items@).take(i as int) =~= views(items@));
    out
}

/// Joins `items` with a comma and a space.
fn comma_separated(items: &Vec<String>) -> (out: String)
    ensures
        out@ == comma_list(views(items@)),
{
    join_with(items, ", ")
}

/// The variable of the `k`-th source.
fn source_variable(k: usize) -> (out: String)
    ensures
        out@ == source_var(k as nat),
{
    let mut out = String::from_str("source_");
    out.append(decimal_string(k).as_str());
    out
}

/// The variable of the `k`-th join step.
fn joined_variable(k: usize) -> (out: String)
    ensures
        out@ == joined_var(k as nat),
{
    let mut out = String::from_str("joined_");
    out.append(decimal_string(k).as_str());
    out
}

/// The variable that holds the rows after `k` joins.
fn joined_name(k: usize) -> (out: String)
    ensures
        out@ == joined_result(k as nat),
{
    if k == 0 {
        source_variable(0)
    } else {
        joined_variable(k)
    }
}

/// The variable that holds the rows after the filter stage.
fn filtered_name(ir: &IntRepSchema) -> (out: String)
    ensures
        out@ == filtered_result(ir@),
{
    if ir.filter.len() == 0 {
        joined_name(ir.joins.len())
    } else {
        String::from_str("filtered")
    }
}

/// Writes the filter tokens as one expression.
pub fn render_filter(tokens: &Vec<String>) -> (out: String)
    ensures
        out@ == filter_text(views(tokens@)),
{
    let open = String::from_str("(");
    let close = String::from_str(")");
    let mut out = String::new();
    let mut i: usize = 0;
    while i < tokens.len()
        invariant
            i <= tokens.len(),
            open@ == "("@,
            close@ == ")"@,
            out@ == filter_text(views(tokens@).take(i as int)),
        decreases tokens.len() - i,
    {
        assert(views(tokens@).take(i + 1).drop_last() =~= views(tokens@).take(i as int));
        if i > 0 {
            let both_open = tokens[i - 1] == open && tokens[i] == open;
            let both_close = tokens[i - 1] == close && tokens[i] == close;
            if !(both_open || both_close) {
                out.append(" ");
            }
        }
        out.append(tokens[i].as_str());
        i += 1;
    }
    assert(views(tokens@).take(i as int) =~= views(tokens@));
    out
}

/// Appends the lines before the first stage.
fn emit_header(lines: &mut Vec<String>)
    ensures
        views(final(lines)@) == views(old(lines)@) + header_lines(),
{
    push_line(lines, String::from_str("#include <DataFrame/DataFrame.h>"));
    push_line(lines, String::from_str("#include <iostream>"));
    push_line(lines, String::from_str("#include <string>"));
    push_line(lines, String::from_str("using namespace hmdf;"));
    push_line(lines, String::from_str("int main() {"));
}

/// The line that reads the `k`-th source.
fn load_line_for(ir: &IntRepSchema, k: usize, source: &String) -> (out: String)
    requires
        k <= ir.joins@.len(),
        source@ == source_names(ir@.from, ir@.joins)[k as int],
    ensures
        out@ == load_line(ir@, k as int),
{
    let variable = source_variable(k);
    let mut out = String::from_str("    StdDataFrame<");
    out.append(ir.index_type.as_str());
    out.append("> ");
    out.append(variable.as_str());
    out.append("; ");
    out.append(variable.as_str());
    out.append(".read(");
    out.append(quote(source.as_str()).as_str());
    out.append(", io_format::csv2);");
    out
}

/// Appends the load stage.
fn emit_load(ir: &IntRepSchema, lines: &mut Vec<String>)
    ensures
        views(final(lines)@) == views(old(lines)@) + load_stage(ir@),
{
    push_line(lines, load_line_for(ir, 0, &ir.from));
    let mut j: usize = 0;
    while j < ir.joins.len()
        invariant
            j <= ir.joins.len(),
            views(lines@) == views(old(lines)@) + load_stage(ir@).take(j + 1),
        decreases ir.joins.len() - j,
    {
        let line = load_line_for(ir, j + 1, &ir.joins[j].source);
        assert((views(old(lines)@) + load_stage(ir@).take(j + 1)).push(line@) =~= views(
            old(lines)@,
        ) + load_stage(ir@).take(j + 2));
        push_line(lines, line);
        j += 1;
    }
}

/// The join policy for a kind of join.
fn policy_name(operator: JoinOperator) -> (out: &'static str)
    ensures
        out@ == policy(operator),
{
    match operator {
        JoinOperator::Inner => "inner_join",
        JoinOperator::Left => "left_join",
        JoinOperator::Right => "right_join",
    }
}

/// The line of the join at index `k`.
fn join_line_for(ir: &IntRepSchema, types: &Vec<String>, k: usize) -> (out: String)
    requires
        k < ir.joins@.len(),
        views(types@) == distinct_types(ir@),
    ensures
        out@ == join_line(ir@, k as int),
{
    assert(k < ir.joins.len());
    let variable = source_variable(k + 1);
    let mut declared = String::from_str("decltype(");
    declared.append(variable.as_str());
    declared.append(")");
    let mut arguments: Vec<String> = vec![declared];
    assert(views(arguments@) =~= seq![declared@]);
    extend_cloned(&mut arguments, types);
    let mut out = String::from_str("    auto ");
    out.append(joined_variable(k + 1).as_str());
    out.append(" = ");
    out.append(joined_name(k).as_str());
    out.append(".join_by_column<");
    out.append(comma_separated(&arguments).as_str());
    out.append(">(");
    out.append(variable.as_str());
    out.append(", ");
    out.append(quote(ir.joins[k].constraint.as_str()).as_str());
    out.append(", join_policy::");
    out.append(policy_name(ir.joins[k].operator));
    out.append(");");
    out
}

/// Appends the join stage.
fn emit_joins(ir: &IntRepSchema, types: &Vec<String>, lines: &mut Vec<String>)
    requires
        views(types@) == distinct_types(ir@),
    ensures
        views(final(lines)@) == views(old(lines)@) + join_stage(ir@),
{
    let mut k: usize = 0;
    while k < ir.joins.len()
        invariant
            k <= ir.joins.len(),
            views(types@) == distinct_types(ir@),
            views(lines@) == views(old(lines)@) + join_stage(ir@).take(k as int),
        decreases ir.joins.len() - k,
    {
        let line = join_line_for(ir, types, k);
        assert((views(old(lines)@) + join_stage(ir@).take(k as int)).push(line@) =~= views(
            old(lines)@,
        ) + join_stage(ir@).take(k + 1));
        push_line(lines, line);
        k += 1;
    }
}

/// The parameters of the predicate after the index.
fn parameter_list(ir: &IntRepSchema) -> (out: Vec<String>)
    ensures
        views(out@) == parameters(ir@),
{
    let mut out: Vec<String> = Vec::new();
    let mut i: usize = 0;
    while i < ir.filter_cols.len()
        invariant
            i <= ir.filter_cols.len(),
            views(out@) == parameters(ir@).take(i as int),
        decreases ir.filter_cols.len() - i,
    {
        let mut item = String::from_str("const ");
        item.append(tag_of(&ir.col_types, &ir.filter_cols[i]).as_str());
        item.append(" &");
        item.append(ir.filter_cols[i].as_str());
        proof {
            lemma_views_push(out@, item);
        }
        out.push(item);
        i += 1;
    }
    out
}

/// Appends the filter stage.
fn emit_filter(ir: &IntRepSchema, types: &Vec<String>, lines: &mut Vec<String>)
    requires
        views(types@) == distinct_types(ir@),
    ensures
        views(final(lines)@) == views(old(lines)@) + filter_stage(ir@),
{
    if ir.filter.len() == 0 {
        return ;
    }
    let mut index = String::from_str("const ");
    index.append(ir.index_type.as_str());
    index.append(" &");
    let mut taken: Vec<String> = vec![index];
    assert(views(taken@) =~= seq![index@]);
    let named = parameter_list(ir);
    extend_cloned(&mut taken, &named);
    let mut predicate = String::from_str("    auto predicate = [](");
    predicate.append(comma_separated(&taken).as_str());
    predicate.append(") -> bool { return ");
    predicate.append(render_filter(&ir.filter).as_str());
    predicate.append("; };");
    push_line(lines, predicate);

    let mut arguments = tags_for(&ir.col_types, &ir.filter_cols);
    let functor = String::from_str("decltype(predicate)");
    proof {
        lemma_views_push(arguments@, functor);
    }
    arguments.push(functor);
    extend_cloned(&mut arguments, types);
    assert(views(arguments@) =~= tags_of(ir@.col_types, ir@.filter_cols) + seq![
        "decltype(predicate)"@,
    ] + distinct_types(ir@));
    let mut passed = quote_all(&ir.filter_cols);
    let callee = String::from_str("predicate");
    proof {
        lemma_views_push(passed@, callee);
    }
    passed.push(callee);
    assert(views(passed@) =~= quoted_all(ir@.filter_cols) + seq!["predicate"@]);
    let mut select = String::from_str("    auto filtered = ");
    select.append(joined_name(ir.joins.len()).as_str());
    select.append(".get_data_by_sel<");
    select.append(comma_separated(&arguments).as_str());
    select.append(">(");
    select.append(comma_separated(&passed).as_str());
    select.append(");");
    push_line(lines, select);
}

/// The line of the projection entry at index `i`.
fn column_line_for(ir: &IntRepSchema, input: &String, i: usize) -> (out: String)
    requires
        i < ir.selection@.len(),
        input@ == filtered_result(ir@),
    ensures
        out@ == column_line(ir@, i as int),
{
    let (source, effective) = match &ir.selection[i] {
        SelectItem::Unnamed(name) => (name, name),
        SelectItem::WithAlias(item) => (&item.expr, &item.alias),
    };
    let tag = tag_of(&ir.col_types, source);
    let mut out = String::from_str("    projected.load_column<");
    out.append(tag.as_str());
    out.append(">(");
    out.append(quote(effective.as_str()).as_str());
    out.append(", ");
    out.append(input.as_str());
    out.append(".get_column<");
    out.append(tag.as_str());
    out.append(">(");
    out.append(quote(source.as_str()).as_str());
    out.append("));");
    out
}

/// Appends the projection stage.
fn emit_projection(ir: &IntRepSchema, lines: &mut Vec<String>)
    ensures
        views(final(lines)@) == views(old(lines)@) + projection_stage(ir@),
{
    let input = filtered_name(ir);
    let mut frame = String::from_str("    StdDataFrame<");
    frame.append(ir.index_type.as_str());
    frame.append("> projected;");
    push_line(lines, frame);
    let mut index = String::from_str("    projected.load_index(");
    index.append(input.as_str());
    index.append(".get_index().begin(), ");
    index.append(input.as_str());
    index.append(".get_index().end());");
    push_line(lines, index);
    let ghost columns = Seq::new(ir@.selection.len(), |i: int| column_line(ir@, i));
    let ghost start = views(old(lines)@) + seq![frame_line(ir@), index_line(ir@)];
    let mut i: usize = 0;
    while i < ir.selection.len()
        invariant
            i <= ir.selection.len(),
            input@ == filtered_result(ir@),
            columns == Seq::new(ir@.selection.len(), |i: int| column_line(ir@, i)),
            views(lines@) == start + columns.take(i as int),
        decreases ir.selection.len() - i,
    {
        let line = column_line_for(ir, &input, i);
        push_line(lines, line);
        i += 1;
    }
}

/// The sort direction of the target library.
fn direction_name(direction: OrderDirection) -> (out: &'static str)
    ensures
        out@ == direction_text(direction),
{
    match direction {
        OrderDirection::Ascending => "sort_spec::ascen",
        OrderDirection::Descending => "sort_spec::desce",
    }
}

/// The sort keys as argument pairs.
fn sort_key_list(ir: &IntRepSchema) -> (out: Vec<String>)
    ensures
        views(out@) == sort_keys(ir@.order_by),
{
    let mut out: Vec<String> = Vec::new();
    let mut i: usize = 0;
    while i < ir.order_by.len()
        invariant
            i <= ir.order_by.len(),
            views(out@) == sort_keys(ir@.order_by).take(i as int),
        decreases ir.order_by.len() - i,
    {
        let mut item = quote(ir.order_by[i].column.as_str());
        item.append(", ");
        item.append(direction_name(ir.order_by[i].direction));
        proof {
            lemma_views_push(out@, item);
            assert(sort_keys(ir@.order_by).take(i + 1) =~= sort_keys(ir@.order_by).take(
                i as int,
            ).push(item@));
        }
        out.push(item);
        i += 1;
    }
    out
}

/// Appends the sort stage.
fn emit_sort(ir: &IntRepSchema, types: &Vec<String>, lines: &mut Vec<String>)
    requires
        views(types@) == distinct_types(ir@),
    ensures
        views(final(lines)@) == views(old(lines)@) + sort_stage(ir@),
{
    if ir.order_by.len() == 0 {
        return ;
    }
    let ordered = ordering_columns(&ir.order_by);
    let mut arguments = tags_for(&ir.col_types, &ordered);
    extend_cloned(&mut arguments, types);
    let keys = sort_key_list(ir);
    let mut out = String::from_str("    projected.sort<");
    out.append(comma_separated(&arguments).as_str());
    out.append(">(");
    out.append(comma_separated(&keys).as_str());
    out.append(");");
    push_line(lines, out);
}

/// Appends the limit stage.
fn emit_limit(ir: &IntRepSchema, kept: &Vec<String>, lines: &mut Vec<String>)
    requires
        views(kept@) == projected_types(ir@),
    ensures
        views(final(lines)@) == views(old(lines)@) + limit_stage(ir@),
{
    match &ir.limit {
        Some(count) => {
            let mut out = String::from_str("    auto limited = projected.get_data_by_loc<");
            out.append(comma_separated(kept).as_str());
            out.append(">(Index2D<long> { 0, ");
            out.append(count.as_str());
            out.append(" });");
            push_line(lines, out);
        },
        None => {},
    }
}

/// Appends the output stage and the end of `main`.
fn emit_output(ir: &IntRepSchema, kept: &Vec<String>, lines: &mut Vec<String>)
    requires
        views(kept@) == projected_types(ir@),
    ensures
        views(final(lines)@) == views(old(lines)@) + output_stage(ir@),
{
    let stream = String::from_str("std::ostream");
    let mut arguments: Vec<String> = vec![stream];
    assert(views(arguments@) =~= seq![stream@]);
    extend_cloned(&mut arguments, kept);
    let mut out = String::from_str("    ");
    out.append(if ir.limit.is_some() {
        "limited"
    } else {
        "projected"
    });
    out.append(".write<");
    out.append(comma_separated(&arguments).as_str());
    out.append(">(std::cout, io_format::csv2);");
    push_line(lines, out);
    push_line(lines, String::from_str("    return 0;"));
    push_line(lines, String::from_str("}"));
}

/// Looks up the type of every column a stage needs, in stage order, and
/// reports the first that has none.
pub fn check_columns(ir: &IntRepSchema) -> (out: Option<CompileError>)
    ensures
        match codegen_failure(ir@) {
            Some(error) => out matches Some(found) && found@ == error,
            None => out is None,
        },
{
    if ir.filter.len() > 0 {
        if let Some(column) = first_unbound(&ir.col_types, &ir.filter_cols) {
            return Some(CompileError::CodeGenInvariant { column, stage: Stage::Filter });
        }
    }
    let selected = selection_columns(&ir.selection);
    if let Some(column) = first_unbound(&ir.col_types, &selected) {
        return Some(CompileError::CodeGenInvariant { column, stage: Stage::Projection });
    }
    let ordered = ordering_columns(&ir.order_by);
    if let Some(column) = first_unbound(&ir.col_types, &ordered) {
        return Some(CompileError::CodeGenInvariant { column, stage: Stage::Sort });
    }
    None
}

/// Renders `ir` as the text of a program, or reports the first column that
/// a stage needs the type of and that has none. No text is produced in part.
pub fn generate_code(ir: &IntRepSchema) -> (out: Result<String, CompileError>)
    ensures
        match codegen_failure(ir@) {
            Some(error) => out matches Err(found) && found@ == error,
            None => out matches Ok(text) && text@ == program_text(ir@),
        },
        resolved(ir@) ==> out is Ok,
{
    proof {
        if resolved(ir@) {
            lemma_resolved_generates(ir@);
        }
    }
    if let Some(error) = check_columns(ir) {
        return Err(error);
    }
    let types = ir.col_types.distinct_tags();
    let selected = selection_columns(&ir.selection);
    let kept = distinct_strings(&tags_for(&ir.col_types, &selected));
    let mut lines: Vec<String> = Vec::new();
    emit_header(&mut lines);
    emit_load(ir, &mut lines);
    emit_joins(ir, &types, &mut lines);
    emit_filter(ir, &types, &mut lines);
    emit_projection(ir, &mut lines);
    emit_sort(ir, &types, &mut lines);
    emit_limit(ir, &kept, &mut lines);
    emit_output(ir, &kept, &mut lines);
    Ok(join_with(&lines, "\n"))
}

/// A resolved representation has a program: no stage misses a type.
pub proof fn lemma_resolved_generates(rep: IntRepSchemaView)
    requires
        resolved(rep),
    ensures
        codegen_failure(rep) is None,
{
    let selected = selected_columns(rep.selection);
    let ordered = order_columns(rep.order_by);
    lemma_first_missing(rep.col_types, rep.filter_cols);
    lemma_first_missing(rep.col_types, selected);
    lemma_first_missing(rep.col_types, ordered);
    if first_missing(rep.col_types, rep.filter_cols) is Some {
        let name = first_missing(rep.col_types, rep.filter_cols)->Some_0;
        let i = choose|i: int| 0 <= i < rep.filter_cols.len() && rep.filter_cols[i] == name;
        assert(lookup(rep.col_types, rep.filter_cols[i]) is Some);
    }
    if first_missing(rep.col_types, selected) is Some {
        let name = first_missing(rep.col_types, selected)->Some_0;
        let i = choose|i: int| 0 <= i < selected.len() && selected[i] == name;
        assert(lookup(rep.col_types, source_column(rep.selection[i])) is Some);
    }
    if first_missing(rep.col_types, ordered) is Some {
        let name = first_missing(rep.col_types, ordered)->Some_0;
        let i = choose|i: int| 0 <= i < ordered.len() && ordered[i] == name;
        assert(lookup(rep.col_types, rep.order_by[i].column) is Some);
    }
}

/// The join chain has one step per join, in join order: the step at index
/// `k` joins onto the rows so far the source loaded `k + 1`-th, on the column
/// and by the policy of the join at index `k`. The steps stand together in
/// the program, after the header and the load stage.
pub proof fn lemma_join_chain(rep: IntRepSchemaView)
    ensures
        join_stage(rep).len() == rep.joins.len(),
        forall|k: int|
            0 <= k < rep.joins.len() ==> #[trigger] join_stage(rep)[k] == join_line(rep, k),
        program_lines(rep).subrange(
            (header_lines().len() + rep.joins.len() + 1) as int,
            (header_lines().len() + 2 * rep.joins.len() + 1) as int,
        ) == join_stage(rep),
{
    let before = header_lines() + load_stage(rep);
    let after = filter_stage(rep) + projection_stage(rep) + sort_stage(rep) + limit_stage(rep)
        + output_stage(rep);
    assert(program_lines(rep) =~= before + join_stage(rep) + after);
    assert((before + join_stage(rep) + after).subrange(
        before.len() as int,
        (before.len() + join_stage(rep).len()) as int,
    ) =~= join_stage(rep));
}

/// The tags of the program name what they stand for: different kinds of join
/// have different policies, and the two directions have different texts.
pub proof fn lemma_tags_differ(
    a: JoinOperator,
    b: JoinOperator,
    c: OrderDirection,
    d: OrderDirection,
)
    ensures
        policy(a) == policy(b) ==> a == b,
        direction_text(c) == direction_text(d) ==> c == d,
{
    reveal_strlit("inner_join");
    reveal_strlit("left_join");
    reveal_strlit("right_join");
    reveal_strlit("sort_spec::ascen");
    reveal_strlit("sort_spec::desce");
    assert("inner_join"@[0] == 'i' && "left_join"@[0] == 'l' && "right_join"@[0] == 'r');
    assert("sort_spec::ascen"@[11] == 'a' && "sort_spec::desce"@[11] == 'd');
}

/// Reordering the joins reorders the steps alike: where two representations
/// have one schema and the joins of the second are those of the first in the
/// order `moved` gives, the step at index `k` of the second is built from the
/// join that the first has at index `moved(k)`.
pub proof fn lemma_join_order_is_kept(
    first: IntRepSchemaView,
    second: IntRepSchemaView,
    moved: spec_fn(int) -> int,
)
    requires
        first.col_types == second.col_types,
        first.joins.len() == second.joins.len(),
        forall|k: int|
            0 <= k < second.joins.len() ==> 0 <= #[trigger] moved(k) < first.joins.len()
                && second.joins[k] == first.joins[moved(k)],
    ensures
        join_stage(second).len() == join_stage(first).len(),
        forall|k: int|
            0 <= k < second.joins.len() ==> #[trigger] join_stage(second)[k] == join_step(
                k,
                first.joins[moved(k)],
                distinct_types(first),
            ),
{
}

/// The variables of a program are pairwise different: two sources, or two
/// join steps, have one variable only where they have one number; no source
/// shares a variable with a join step; and none of them is one of the fixed
/// names of the later stages, which differ among themselves.
pub proof fn lemma_variables_differ(i: nat, j: nat)
    ensures
        source_var(i) == source_var(j) ==> i == j,
        joined_var(i) == joined_var(j) ==> i == j,
        source_var(i) != joined_var(j),
        source_var(i) != "predicate"@ && source_var(i) != "filtered"@,
        source_var(i) != "projected"@ && source_var(i) != "limited"@,
        joined_var(i) != "predicate"@ && joined_var(i) != "filtered"@,
        joined_var(i) != "projected"@ && joined_var(i) != "limited"@,
        "predicate"@ != "filtered"@ && "predicate"@ != "projected"@ && "predicate"@ != "limited"@,
        "filtered"@ != "projected"@ && "filtered"@ != "limited"@ && "projected"@ != "limited"@,
{
    reveal_strlit("source_");
    reveal_strlit("joined_");
    reveal_strlit("predicate");
    reveal_strlit("filtered");
    reveal_strlit("projected");
    reveal_strlit("limited");
    assert(source_var(i)[0] == 's');
    assert(joined_var(i)[0] == 'j');
    assert(joined_var(j)[0] == 'j');
    assert("predicate"@[0] == 'p' && "predicate"@[2] == 'e');
    assert("projected"@[0] == 'p' && "projected"@[2] == 'o');
    assert("filtered"@[0] == 'f');
    assert("limited"@[0] == 'l');
    if source_var(i) == source_var(j) {
        assert(source_var(i).skip(7) =~= decimal(i));
        assert(source_var(j).skip(7) =~= decimal(j));
        lemma_decimal_injective(i, j);
    }
    if joined_var(i) == joined_var(j) {
        assert(joined_var(i).skip(7) =~= decimal(i));
        assert(joined_var(j).skip(7) =~= decimal(j));
        lemma_decimal_injective(i, j);
    }
}

/// Two representations with one value have one program, and fail alike.
pub proof fn lemma_generation_is_deterministic(a: IntRepSchema, b: IntRepSchema)
    requires
        a@ == b@,
    ensures
        program_text(a@) == program_text(b@),
        codegen_failure(a@) == codegen_failure(b@),
{
}

/// The list of distinct types is stable: it has no repeats, holds exactly
/// the tags in use, and tags that come in later go behind those already
/// there.
pub proof fn lemma_distinct_is_stable(earlier: Seq<Seq<char>>, later: Seq<Seq<char>>)
    ensures
        distinct(earlier + later).no_duplicates(),
        forall|tag: Seq<char>|
            distinct(earlier + later).contains(tag) <==> (earlier + later).contains(tag),
        distinct(earlier).len() <= distinct(earlier + later).len(),
        distinct(earlier + later).take(distinct(earlier).len() as int) == distinct(earlier),
{
    let none = Seq::<Seq<char>>::empty();
    lemma_absorb_members(none, earlier + later);
    lemma_absorb_concat(none, earlier, later);
    lemma_absorb_members(distinct(earlier), later);
    assert forall|tag: Seq<char>| distinct(earlier + later).contains(tag) implies (earlier
        + later).contains(tag) by {
        assert(!none.contains(tag));
    }
}

/// A stage the query has no use for leaves no line: without joins no join
/// step, without a filter no predicate, without ordering no sort, without a
/// limit no bound, and then the projected rows themselves are written.
pub proof fn lemma_optional_stages(rep: IntRepSchemaView)
    ensures
        rep.joins.len() == 0 ==> join_stage(rep) == Seq::<Seq<char>>::empty(),
        rep.filter.len() == 0 ==> filter_stage(rep) == Seq::<Seq<char>>::empty(),
        rep.order_by.len() == 0 ==> sort_stage(rep) == Seq::<Seq<char>>::empty(),
        rep.limit is None ==> limit_stage(rep) == Seq::<Seq<char>>::empty() && final_result(rep)
            == "projected"@,
        rep.order_by.len() == 0 && rep.limit is None ==> program_lines(rep) == header_lines()
            + load_stage(rep) + join_stage(rep) + filter_stage(rep) + projection_stage(rep)
            + output_stage(rep),
{
    if rep.joins.len() == 0 {
        assert(join_stage(rep) =~= Seq::<Seq<char>>::empty());
    }
    if rep.order_by.len() == 0 && rep.limit is None {
        assert(program_lines(rep) =~= header_lines() + load_stage(rep) + join_stage(rep)
            + filter_stage(rep) + projection_stage(rep) + output_stage(rep));
    }
}

} // verus!
