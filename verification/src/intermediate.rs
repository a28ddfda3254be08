//! The intermediate representation of one query, and its finished form with
//! a type for every column.
use crate::error::{result_view, CompileError, CompileErrorView, Construct, Subject};
use crate::header::{csv_header, read_csv_columns, source_columns};
use crate::schema::{lemma_put, lookup, merged, names_unique, put, ColumnTypes};
use crate::text::{lemma_views_push, views};
use vstd::prelude::*;

verus! {

/// The direction of a sort key.
#[derive(Clone, Copy, Debug, PartialEq, Eq, Structural)]
pub enum OrderDirection {
    Ascending,
    Descending,
}

/// One sort key: a column and the direction to sort it in.
#[derive(Clone, Debug, PartialEq, Eq)]
pub struct ColumnOrder {
    pub column: String,
    pub direction: OrderDirection,
}

/// The kind of a join.
#[derive(Clone, Copy, Debug, PartialEq, Eq, Structural)]
pub enum JoinOperator {
    Inner,
    Left,
    Right,
}

/// One join: the joined source, the kind, and the single column both sides
/// are matched on.
#[derive(Clone, Debug, PartialEq, Eq)]
pub struct Join {
    pub source: String,
    pub operator: JoinOperator,
    pub constraint: String,
}

/// A column selected under another name.
#[derive(Clone, Debug, PartialEq, Eq)]
pub struct WithAlias {
    pub expr: String,
    pub alias: String,
}

/// One entry of the projection list.
#[derive(Clone, Debug, PartialEq, Eq)]
pub enum SelectItem {
    Unnamed(String),
    WithAlias(WithAlias),
}

/// The representation a traversal fills in.
#[derive(Clone, Debug, PartialEq, Eq)]
pub struct IntRep {
    pub from: Option<String>,
    pub selection: Vec<SelectItem>,
    pub filter: Vec<String>,
    pub filter_cols: Vec<String>,
    pub joins: Vec<Join>,
    pub order_by: Vec<ColumnOrder>,
    pub limit: Option<String>,
}

/// The finished representation: a query together with the merged schema of
/// its sources.
#[derive(Clone, Debug, PartialEq, Eq)]
pub struct IntRepSchema {
    pub from: String,
    pub selection: Vec<SelectItem>,
    pub filter: Vec<String>,
    pub filter_cols: Vec<String>,
    pub joins: Vec<Join>,
    pub order_by: Vec<ColumnOrder>,
    pub limit: Option<String>,
    pub index_type: String,
    pub col_types: ColumnTypes,
}

/// The mathematical value of a [`ColumnOrder`].
pub struct ColumnOrderView {
    pub column: Seq<char>,
    pub direction: OrderDirection,
}

/// The mathematical value of a [`Join`].
pub struct JoinView {
    pub source: Seq<char>,
    pub operator: JoinOperator,
    pub constraint: Seq<char>,
}

/// The mathematical value of a [`WithAlias`].
pub struct WithAliasView {
    pub expr: Seq<char>,
    pub alias: Seq<char>,
}

/// The mathematical value of a [`SelectItem`].
pub enum SelectItemView {
    Unnamed(Seq<char>),
    WithAlias(WithAliasView),
}

/// The mathematical value of a [`IntRep`].
pub struct IntRepView {
    pub from: Option<Seq<char>>,
    pub selection: Seq<SelectItemView>,
    pub filter: Seq<Seq<char>>,
    pub filter_cols: Seq<Seq<char>>,
    pub joins: Seq<JoinView>,
    pub order_by: Seq<ColumnOrderView>,
    pub limit: Option<Seq<char>>,
}

/// The mathematical value of a [`IntRepSchema`].
pub struct IntRepSchemaView {
    pub from: Seq<char>,
    pub selection: Seq<SelectItemView>,
    pub filter: Seq<Seq<char>>,
    pub filter_cols: Seq<Seq<char>>,
    pub joins: Seq<JoinView>,
    pub order_by: Seq<ColumnOrderView>,
    pub limit: Option<Seq<char>>,
    pub index_type: Seq<char>,
    pub col_types: Seq<(Seq<char>, Seq<char>)>,
}

impl View for ColumnOrder {
    type V = ColumnOrderView;

    open spec fn view(&self) -> ColumnOrderView {
        ColumnOrderView { column: self.column@, direction: self.direction }
    }
}

impl View for Join {
    type V = JoinView;

    open spec fn view(&self) -> JoinView {
        JoinView { source: self.source@, operator: self.operator, constraint: self.constraint@ }
    }
}

impl View for WithAlias {
    type V = WithAliasView;

    open spec fn view(&self) -> WithAliasView {
        WithAliasView { expr: self.expr@, alias: self.alias@ }
    }
}

impl View for SelectItem {
    type V = SelectItemView;

    open spec fn view(&self) -> SelectItemView {
        match *self {
            SelectItem::Unnamed(name) => SelectItemView::Unnamed(name@),
            SelectItem::WithAlias(item) => SelectItemView::WithAlias(item@),
        }
    }
}

/// The view of an optional string.
pub open spec fn optional_text(text: Option<String>) -> Option<Seq<char>> {
    match text {
        Some(s) => Some(s@),
        None => None,
    }
}

impl View for IntRep {
    type V = IntRepView;

    open spec fn view(&self) -> IntRepView {
        IntRepView {
            from: optional_text(self.from),
            selection: views(self.selection@),
            filter: views(self.filter@),
            filter_cols: views(self.filter_cols@),
            joins: views(self.joins@),
            order_by: views(self.order_by@),
            limit: optional_text(self.limit),
        }
    }
}

impl View for IntRepSchema {
    type V = IntRepSchemaView;

    open spec fn view(&self) -> IntRepSchemaView {
        IntRepSchemaView {
            from: self.from@,
            selection: views(self.selection@),
            filter: views(self.filter@),
            filter_cols: views(self.filter_cols@),
            joins: views(self.joins@),
            order_by: views(self.order_by@),
            limit: optional_text(self.limit),
            index_type: self.index_type@,
            col_types: self.col_types@,
        }
    }
}

/// The representation of no query: no source, nothing selected, no filter,
/// joins, ordering or limit.
pub open spec fn empty_rep() -> IntRepView {
    IntRepView {
        from: None,
        selection: Seq::empty(),
        filter: Seq::empty(),
        filter_cols: Seq::empty(),
        joins: Seq::empty(),
        order_by: Seq::empty(),
        limit: None,
    }
}

/// The text of one source, as plain bytes under the source's identifier.
#[derive(Clone, Debug, PartialEq, Eq)]
pub struct SourceText {
    pub source: String,
    pub data: Vec<u8>,
}

impl View for SourceText {
    type V = (Seq<char>, Seq<u8>);

    open spec fn view(&self) -> (Seq<char>, Seq<u8>) {
        (self.source@, self.data@)
    }
}

/// The reserved name of the index column.
pub open spec fn index_key() -> Seq<char> {
    "INDEX"@
}

/// The column a projection entry reads.
pub open spec fn source_column(item: SelectItemView) -> Seq<char> {
    match item {
        SelectItemView::Unnamed(name) => name,
        SelectItemView::WithAlias(aliased) => aliased.expr,
    }
}

/// The name a projection entry goes by in the result.
pub open spec fn effective_name(item: SelectItemView) -> Seq<char> {
    match item {
        SelectItemView::Unnamed(name) => name,
        SelectItemView::WithAlias(aliased) => aliased.alias,
    }
}

/// The columns the projection reads, entry by entry.
pub open spec fn selected_columns(selection: Seq<SelectItemView>) -> Seq<Seq<char>> {
    Seq::new(selection.len(), |i: int| source_column(selection[i]))
}

/// The columns of the sort keys, key by key.
pub open spec fn order_columns(order_by: Seq<ColumnOrderView>) -> Seq<Seq<char>> {
    Seq::new(order_by.len(), |i: int| order_by[i].column)
}

/// The sources of a query: the primary one, then each joined one in join
/// order.
pub open spec fn source_names(from: Seq<char>, joins: Seq<JoinView>) -> Seq<Seq<char>> {
    seq![from] + Seq::new(joins.len(), |i: int| joins[i].source)
}

/// The bytes filed under `source`, in the first entry of that name.
pub open spec fn content_of(files: Seq<(Seq<char>, Seq<u8>)>, source: Seq<char>) -> Option<Seq<u8>>
    decreases files.len(),
{
    if files.len() == 0 {
        None
    } else {
        match content_of(files.drop_last(), source) {
            Some(data) => Some(data),
            None => if files.last().0 == source {
                Some(files.last().1)
            } else {
                None
            },
        }
    }
}

/// The column types of `source` as its text among `files` declares them; a
/// failure naming the source where it has no text or no readable header.
pub open spec fn table_of(files: Seq<(Seq<char>, Seq<u8>)>, source: Seq<char>) -> Result<
    Seq<(Seq<char>, Seq<char>)>,
    CompileErrorView,
> {
    match content_of(files, source) {
        Some(data) => source_columns(source, csv_header(data)),
        None => Err(CompileErrorView::SchemaResolution { subject: Subject::Source, name: source }),
    }
}

/// The schemas of `sources` merged in order, later ones overwriting earlier
/// ones on a shared name; the failure of the first source that has none.
pub open spec fn merged_sources(
    sources: Seq<Seq<char>>,
    files: Seq<(Seq<char>, Seq<u8>)>,
) -> Result<Seq<(Seq<char>, Seq<char>)>, CompileErrorView>
    decreases sources.len(),
{
    if sources.len() == 0 {
        Ok(Seq::empty())
    } else {
        match merged_sources(sources.drop_last(), files) {
            Err(error) => Err(error),
            Ok(base) => match table_of(files, sources.last()) {
                Err(error) => Err(error),
                Ok(table) => Ok(merged(base, table)),
            },
        }
    }
}

/// `cols` after each aliased entry of `selection`, in order, has bound its
/// alias to the tag its column has at that moment; the failure of the first
/// aliased entry whose column has none.
pub open spec fn bind_aliases(
    cols: Seq<(Seq<char>, Seq<char>)>,
    selection: Seq<SelectItemView>,
) -> Result<Seq<(Seq<char>, Seq<char>)>, CompileErrorView>
    decreases selection.len(),
{
    if selection.len() == 0 {
        Ok(cols)
    } else {
        match bind_aliases(cols, selection.drop_last()) {
            Err(error) => Err(error),
            Ok(before) => match selection.last() {
                SelectItemView::Unnamed(_) => Ok(before),
                SelectItemView::WithAlias(aliased) => match lookup(before, aliased.expr) {
                    Some(tag) => Ok(put(before, aliased.alias, tag)),
                    None => Err(
                        CompileErrorView::SchemaResolution {
                            subject: Subject::Column,
                            name: aliased.expr,
                        },
                    ),
                },
            },
        }
    }
}

/// The first of `names` that `cols` does not bind.
pub open spec fn first_missing(cols: Seq<(Seq<char>, Seq<char>)>, names: Seq<Seq<char>>) -> Option<
    Seq<char>,
>
    decreases names.len(),
{
    if names.len() == 0 {
        None
    } else {
        match first_missing(cols, names.drop_last()) {
            Some(name) => Some(name),
            None => if lookup(cols, names.last()) is None {
                Some(names.last())
            } else {
                None
            },
        }
    }
}

/// The columns a query reads, in the order they are checked: those of the
/// projection, those of the filter, those of the sort keys.
pub open spec fn query_columns(
    selection: Seq<SelectItemView>,
    filter_cols: Seq<Seq<char>>,
    order_by: Seq<ColumnOrderView>,
) -> Seq<Seq<char>> {
    selected_columns(selection) + filter_cols + order_columns(order_by)
}

/// The finished form of `ir` over the merged schema `schema`.
///
/// Aliases are bound first. Then every column the query reads must be bound,
/// and the index column must be; its tag becomes the index type. The failure
/// names the query's missing source, or the first column found missing.
pub open spec fn finalize(ir: IntRepView, schema: Seq<(Seq<char>, Seq<char>)>) -> Result<
    IntRepSchemaView,
    CompileErrorView,
> {
    match ir.from {
        None => Err(CompileErrorView::Resolution { construct: Construct::FromClause }),
        Some(from) => match bind_aliases(schema, ir.selection) {
            Err(error) => Err(error),
            Ok(cols) => match first_missing(
                cols,
                query_columns(ir.selection, ir.filter_cols, ir.order_by),
            ) {
                Some(name) => Err(
                    CompileErrorView::SchemaResolution { subject: Subject::Column, name },
                ),
                None => match lookup(cols, index_key()) {
                    None => Err(
                        CompileErrorView::SchemaResolution {
                            subject: Subject::Column,
                            name: index_key(),
                        },
                    ),
                    Some(index_type) => Ok(
                        IntRepSchemaView {
                            from,
                            selection: ir.selection,
                            filter: ir.filter,
                            filter_cols: ir.filter_cols,
                            joins: ir.joins,
                            order_by: ir.order_by,
                            limit: ir.limit,
                            index_type,
                            col_types: cols,
                        },
                    ),
                },
            },
        },
    }
}

/// The finished form of `ir` when the texts of its sources are `files`.
pub open spec fn finalize_from_files(ir: IntRepView, files: Seq<(Seq<char>, Seq<u8>)>) -> Result<
    IntRepSchemaView,
    CompileErrorView,
> {
    match ir.from {
        None => Err(CompileErrorView::Resolution { construct: Construct::FromClause }),
        Some(from) => match merged_sources(source_names(from, ir.joins), files) {
            Err(error) => Err(error),
            Ok(schema) => finalize(ir, schema),
        },
    }
}

/// Checking one run of names after another is checking their concatenation.
pub proof fn lemma_first_missing_concat(
    cols: Seq<(Seq<char>, Seq<char>)>,
    a: Seq<Seq<char>>,
    b: Seq<Seq<char>>,
)
    ensures
        first_missing(cols, a + b) == match first_missing(cols, a) {
            Some(name) => Some(name),
            None => first_missing(cols, b),
        },
    decreases b.len(),
{
    if b.len() == 0 {
        assert(a + b =~= a);
    } else {
        lemma_first_missing_concat(cols, a, b.drop_last());
        assert((a + b).drop_last() =~= a + b.drop_last());
        assert((a + b).last() == b.last());
    }
}

/// The columns the projection reads.
pub fn selection_columns(selection: &Vec<SelectItem>) -> (out: Vec<String>)
    ensures
        views(out@) == selected_columns(views(selection@)),
{
    let mut out: Vec<String> = Vec::new();
    let mut i: usize = 0;
    while i < selection.len()
        invariant
            i <= selection.len(),
            views(out@) == selected_columns(views(selection@)).take(i as int),
        decreases selection.len() - i,
    {
        let name = match &selection[i] {
            SelectItem::Unnamed(name) => name.clone(),
            SelectItem::WithAlias(item) => item.expr.clone(),
        };
        proof {
            lemma_views_push(out@, name);
            assert(selected_columns(views(selection@)).take(i + 1) =~= selected_columns(
                views(selection@),
            ).take(i as int).push(name@));
        }
        out.push(name);
        i += 1;
    }
    assert(selected_columns(views(selection@)).take(i as int) =~= selected_columns(
        views(selection@),
    ));
    out
}

/// The columns of the sort keys.
pub fn ordering_columns(order_by: &Vec<ColumnOrder>) -> (out: Vec<String>)
    ensures
        views(out@) == order_columns(views(order_by@)),
{
    let mut out: Vec<String> = Vec::new();
    let mut i: usize = 0;
    while i < order_by.len()
        invariant
            i <= order_by.len(),
            views(out@) == order_columns(views(order_by@)).take(i as int),
        decreases order_by.len() - i,
    {
        let name = order_by[i].column.clone();
        proof {
            lemma_views_push(out@, name);
            assert(order_columns(views(order_by@)).take(i + 1) =~= order_columns(
                views(order_by@),
            ).take(i as int).push(name@));
        }
        out.push(name);
        i += 1;
    }
    out
}

/// The first of `names` that `cols` does not bind.
pub fn first_unbound(cols: &ColumnTypes, names: &Vec<String>) -> (out: Option<String>)
    ensures
        optional_text(out) == first_missing(cols@, views(names@)),
{
    let mut i: usize = 0;
    while i < names.len()
        invariant
            i <= names.len(),
            first_missing(cols@, views(names@).take(i as int)) is None,
        decreases names.len() - i,
    {
        proof {
            let next = views(names@).take(i + 1);
            assert(next.drop_last() =~= views(names@).take(i as int));
            lemma_first_missing_concat(cols@, next, views(names@).skip(i + 1));
            assert(next + views(names@).skip(i + 1) =~= views(names@));
        }
        if !cols.contains_key(&names[i]) {
            return Some(names[i].clone());
        }
        i += 1;
    }
    assert(views(names@).take(i as int) =~= views(names@));
    None
}

/// The text filed under `source`, in the first entry of that name.
pub fn find_source<'a>(files: &'a Vec<SourceText>, source: &String) -> (out: Option<&'a SourceText>)
    ensures
        match content_of(views(files@), source@) {
            Some(data) => out matches Some(file) && file@ == (source@, data),
            None => out is None,
        },
{
    let mut found: Option<&'a SourceText> = None;
    let mut i: usize = 0;
    while i < files.len()
        invariant
            i <= files.len(),
            match content_of(views(files@).take(i as int), source@) {
                Some(data) => found matches Some(file) && file@ == (source@, data),
                None => found is None,
            },
        decreases files.len() - i,
    {
        proof {
            let next = views(files@).take(i + 1);
            assert(next.drop_last() =~= views(files@).take(i as int));
        }
        if found.is_none() && files[i].source == *source {
            found = Some(&files[i]);
        }
        i += 1;
    }
    assert(views(files@).take(i as int) =~= views(files@));
    found
}

/// Reads the column types of `source` from its text among `files`.
pub fn read_source(files: &Vec<SourceText>, source: &String) -> (out: Result<
    ColumnTypes,
    CompileError,
>)
    ensures
        result_view(out) == table_of(views(files@), source@),
        out matches Ok(columns) ==> names_unique(columns@),
{
    match find_source(files, source) {
        Some(file) => read_csv_columns(source.as_str(), file.data.as_slice()),
        None => Err(
            CompileError::SchemaResolution { subject: Subject::Source, name: source.clone() },
        ),
    }
}

/// Every column that `rep` reads or names has a type in its schema, and the
/// index type is the type of the index column.
pub open spec fn resolved(rep: IntRepSchemaView) -> bool {
    &&& forall|i: int|
        0 <= i < rep.selection.len() ==> lookup(
            rep.col_types,
            #[trigger] source_column(rep.selection[i]),
        ) is Some
    &&& forall|i: int|
        0 <= i < rep.selection.len() ==> lookup(
            rep.col_types,
            #[trigger] effective_name(rep.selection[i]),
        ) is Some
    &&& forall|i: int|
        0 <= i < rep.filter_cols.len() ==> lookup(rep.col_types, #[trigger] rep.filter_cols[i])
            is Some
    &&& forall|i: int|
        0 <= i < rep.order_by.len() ==> lookup(rep.col_types, #[trigger] rep.order_by[i].column)
            is Some
    &&& lookup(rep.col_types, index_key()) == Some(rep.index_type)
}

/// What `first_missing` finds: a name of the list that is not bound, or that
/// every name of the list is bound.
pub proof fn lemma_first_missing(cols: Seq<(Seq<char>, Seq<char>)>, names: Seq<Seq<char>>)
    ensures
        match first_missing(cols, names) {
            Some(name) => names.contains(name) && lookup(cols, name) is None,
            None => forall|i: int|
                0 <= i < names.len() ==> lookup(cols, #[trigger] names[i]) is Some,
        },
    decreases names.len(),
{
    if names.len() > 0 {
        let front = names.drop_last();
        lemma_first_missing(cols, front);
        assert(forall|i: int| 0 <= i < front.len() ==> front[i] == names[i]);
        match first_missing(cols, front) {
            Some(name) => {
                let i = choose|i: int| 0 <= i < front.len() && front[i] == name;
                assert(names[i] == name);
            },
            None => {
                assert(names[names.len() - 1] == names.last());
            },
        }
    }
}

/// What binding the aliases does to a schema. On success every name bound
/// before is still bound, and so are the column and the alias of every
/// aliased entry. A failure names the column of an aliased entry, and the
/// schema has no entry for it.
pub proof fn lemma_bind_aliases(cols: Seq<(Seq<char>, Seq<char>)>, selection: Seq<SelectItemView>)
    ensures
        match bind_aliases(cols, selection) {
            Ok(bound) => {
                &&& names_unique(cols) ==> names_unique(bound)
                &&& forall|name: Seq<char>|
                    lookup(cols, name) is Some ==> lookup(bound, name) is Some
                &&& forall|i: int|
                    0 <= i < selection.len() && selection[i] is WithAlias ==> lookup(
                        bound,
                        #[trigger] effective_name(selection[i]),
                    ) is Some
            },
            Err(error) => exists|i: int|
                0 <= i < selection.len() && selection[i] is WithAlias && lookup(
                    cols,
                    #[trigger] source_column(selection[i]),
                ) is None && error == (CompileErrorView::SchemaResolution {
                    subject: Subject::Column,
                    name: source_column(selection[i]),
                }),
        },
    decreases selection.len(),
{
    if selection.len() > 0 {
        let front = selection.drop_last();
        let last = selection.len() - 1;
        lemma_bind_aliases(cols, front);
        assert(forall|i: int| 0 <= i < front.len() ==> front[i] == selection[i]);
        match bind_aliases(cols, front) {
            Err(error) => {
                let i = choose|i: int|
                    0 <= i < front.len() && front[i] is WithAlias && lookup(
                        cols,
                        #[trigger] source_column(front[i]),
                    ) is None && error == (CompileErrorView::SchemaResolution {
                        subject: Subject::Column,
                        name: source_column(front[i]),
                    });
                assert(source_column(selection[i]) == source_column(front[i]));
            },
            Ok(before) => {
                match selection.last() {
                    SelectItemView::Unnamed(_) => {},
                    SelectItemView::WithAlias(aliased) => {
                        match lookup(before, aliased.expr) {
                            Some(tag) => {
                                lemma_put(before, aliased.alias, tag);
                                let bound = put(before, aliased.alias, tag);
                                assert forall|i: int|
                                    0 <= i < selection.len()
                                        && selection[i] is WithAlias implies lookup(
                                    bound,
                                    #[trigger] effective_name(selection[i]),
                                ) is Some by {
                                    if i < last {
                                        assert(lookup(before, effective_name(front[i])) is Some);
                                    }
                                }
                            },
                            None => {
                                assert(source_column(selection[last]) == aliased.expr);
                            },
                        }
                    },
                }
            },
        }
    }
}

/// A finished representation is resolved and keeps the names of its schema
/// unique, and a failure to finish names what is missing: a column that the
/// query reads or the index column, for which the merged schema has no
/// entry; or a query without a source.
pub proof fn lemma_finished_is_resolved(ir: IntRepView, schema: Seq<(Seq<char>, Seq<char>)>)
    ensures
        match finalize(ir, schema) {
            Ok(rep) => resolved(rep) && (names_unique(schema) ==> names_unique(rep.col_types)),
            Err(CompileErrorView::SchemaResolution { subject, name }) => {
                &&& subject == Subject::Column
                &&& lookup(schema, name) is None
                &&& name == index_key() || query_columns(
                    ir.selection,
                    ir.filter_cols,
                    ir.order_by,
                ).contains(name)
            },
            Err(error) => ir.from is None && error == (CompileErrorView::Resolution {
                construct: Construct::FromClause,
            }),
        },
{
    let names = query_columns(ir.selection, ir.filter_cols, ir.order_by);
    let selected = selected_columns(ir.selection);
    lemma_bind_aliases(schema, ir.selection);
    if ir.from is Some {
        match bind_aliases(schema, ir.selection) {
            Err(error) => {
                let i = choose|i: int|
                    0 <= i < ir.selection.len() && ir.selection[i] is WithAlias && lookup(
                        schema,
                        #[trigger] source_column(ir.selection[i]),
                    ) is None && error == (CompileErrorView::SchemaResolution {
                        subject: Subject::Column,
                        name: source_column(ir.selection[i]),
                    });
                assert(names[i] == source_column(ir.selection[i]));
            },
            Ok(cols) => {
                lemma_first_missing(cols, names);
                match first_missing(cols, names) {
                    Some(name) => {},
                    None => {
                        assert forall|i: int| 0 <= i < ir.selection.len() implies lookup(
                            cols,
                            #[trigger] source_column(ir.selection[i]),
                        ) is Some by {
                            assert(names[i] == source_column(ir.selection[i]));
                        }
                        assert forall|i: int| 0 <= i < ir.selection.len() implies lookup(
                            cols,
                            #[trigger] effective_name(ir.selection[i]),
                        ) is Some by {
                            assert(names[i] == source_column(ir.selection[i]));
                        }
                        assert forall|i: int| 0 <= i < ir.filter_cols.len() implies lookup(
                            cols,
                            #[trigger] ir.filter_cols[i],
                        ) is Some by {
                            assert(names[selected.len() + i] == ir.filter_cols[i]);
                        }
                        assert forall|i: int| 0 <= i < ir.order_by.len() implies lookup(
                            cols,
                            #[trigger] ir.order_by[i].column,
                        ) is Some by {
                            assert(names[selected.len() + ir.filter_cols.len() + i]
                                == ir.order_by[i].column);
                        }
                    },
                }
            },
        }
    }
}

/// Type propagation: the step that binds an alias gives it the tag that the
/// renamed column has just before that step.
pub proof fn lemma_alias_takes_source_type(
    cols: Seq<(Seq<char>, Seq<char>)>,
    selection: Seq<SelectItemView>,
    i: int,
)
    requires
        bind_aliases(cols, selection) is Ok,
        0 <= i < selection.len(),
        selection[i] is WithAlias,
    ensures
        bind_aliases(cols, selection.take(i)) is Ok,
        bind_aliases(cols, selection.take(i + 1)) is Ok,
        lookup(bind_aliases(cols, selection.take(i))->Ok_0, source_column(selection[i])) is Some,
        lookup(bind_aliases(cols, selection.take(i + 1))->Ok_0, effective_name(selection[i]))
            == lookup(bind_aliases(cols, selection.take(i))->Ok_0, source_column(selection[i])),
{
    if bind_aliases(cols, selection.take(i)) is Err {
        lemma_bind_aliases_prefix(cols, selection, i);
    }
    if bind_aliases(cols, selection.take(i + 1)) is Err {
        lemma_bind_aliases_prefix(cols, selection, i + 1);
    }
    let before = bind_aliases(cols, selection.take(i))->Ok_0;
    let aliased = selection[i]->WithAlias_0;
    assert(selection.take(i + 1).drop_last() =~= selection.take(i));
    assert(selection.take(i + 1).last() == selection[i]);
    lemma_put(before, aliased.alias, lookup(before, aliased.expr)->Some_0);
}

/// An alias has the type of the column it renames: in a finished
/// representation the two names have the same tag, provided that no later
/// entry of the projection binds either name again.
pub proof fn lemma_alias_has_source_type(
    ir: IntRepView,
    schema: Seq<(Seq<char>, Seq<char>)>,
    i: int,
)
    requires
        finalize(ir, schema) is Ok,
        0 <= i < ir.selection.len(),
        ir.selection[i] is WithAlias,
        forall|j: int|
            i < j < ir.selection.len() && ir.selection[j] is WithAlias ==> {
                &&& #[trigger] effective_name(ir.selection[j]) != effective_name(ir.selection[i])
                &&& effective_name(ir.selection[j]) != source_column(ir.selection[i])
            },
    ensures
        lookup(finalize(ir, schema)->Ok_0.col_types, effective_name(ir.selection[i])) is Some,
        lookup(finalize(ir, schema)->Ok_0.col_types, effective_name(ir.selection[i])) == lookup(
            finalize(ir, schema)->Ok_0.col_types,
            source_column(ir.selection[i]),
        ),
{
    lemma_alias_bound_to_source(schema, ir.selection, i);
}

/// The step behind [`lemma_alias_has_source_type`], on the binding alone.
pub proof fn lemma_alias_bound_to_source(
    cols: Seq<(Seq<char>, Seq<char>)>,
    selection: Seq<SelectItemView>,
    i: int,
)
    requires
        bind_aliases(cols, selection) is Ok,
        0 <= i < selection.len(),
        selection[i] is WithAlias,
        forall|j: int|
            i < j < selection.len() && selection[j] is WithAlias ==> {
                &&& #[trigger] effective_name(selection[j]) != effective_name(selection[i])
                &&& effective_name(selection[j]) != source_column(selection[i])
            },
    ensures
        lookup(bind_aliases(cols, selection)->Ok_0, effective_name(selection[i])) is Some,
        lookup(bind_aliases(cols, selection)->Ok_0, effective_name(selection[i])) == lookup(
            bind_aliases(cols, selection)->Ok_0,
            source_column(selection[i]),
        ),
    decreases selection.len(),
{
    let front = selection.drop_last();
    let last = selection.len() - 1;
    let before = bind_aliases(cols, front)->Ok_0;
    assert(forall|j: int| 0 <= j < front.len() ==> front[j] == selection[j]);
    if i == last {
        let aliased = selection[i]->WithAlias_0;
        let tag = lookup(before, aliased.expr)->Some_0;
        lemma_put(before, aliased.alias, tag);
    } else {
        assert forall|j: int| i < j < front.len() && front[j] is WithAlias implies {
            &&& #[trigger] effective_name(front[j]) != effective_name(front[i])
            &&& effective_name(front[j]) != source_column(front[i])
        } by {
            assert(effective_name(selection[j]) != effective_name(selection[i]));
        }
        lemma_alias_bound_to_source(cols, front, i);
        match selection.last() {
            SelectItemView::Unnamed(_) => {},
            SelectItemView::WithAlias(aliased) => {
                let tag = lookup(before, aliased.expr)->Some_0;
                lemma_put(before, aliased.alias, tag);
                assert(effective_name(selection[last]) == aliased.alias);
            },
        }
    }
}

/// Finishing fails only for want of a source or of a schema entry: by
/// naming a source without a readable header, a column or the index column
/// without an entry, or a representation without a source.
pub proof fn lemma_finishing_failures(ir: IntRepView, files: Seq<(Seq<char>, Seq<u8>)>)
    ensures
        finalize_from_files(ir, files) is Err ==> {
            let error = finalize_from_files(ir, files)->Err_0;
            error is SchemaResolution || error == (CompileErrorView::Resolution {
                construct: Construct::FromClause,
            })
        },
{
    if let Some(from) = ir.from {
        lemma_merged_sources_failures(source_names(from, ir.joins), files);
        if let Ok(schema) = merged_sources(source_names(from, ir.joins), files) {
            lemma_finished_is_resolved(ir, schema);
        }
    }
}

/// Merging the schemas of sources fails only by naming a source.
pub proof fn lemma_merged_sources_failures(
    sources: Seq<Seq<char>>,
    files: Seq<(Seq<char>, Seq<u8>)>,
)
    ensures
        merged_sources(sources, files) is Err ==> merged_sources(sources, files)->Err_0
            is SchemaResolution,
    decreases sources.len(),
{
    if sources.len() > 0 {
        lemma_merged_sources_failures(sources.drop_last(), files);
    }
}

/// A failure among the first sources is the failure of the whole list.
proof fn lemma_merged_sources_prefix(
    sources: Seq<Seq<char>>,
    files: Seq<(Seq<char>, Seq<u8>)>,
    k: int,
)
    requires
        0 <= k <= sources.len(),
        merged_sources(sources.take(k), files) is Err,
    ensures
        merged_sources(sources, files) == merged_sources(sources.take(k), files),
    decreases sources.len() - k,
{
    if k == sources.len() {
        assert(sources.take(k) =~= sources);
    } else {
        assert(sources.drop_last().take(k) =~= sources.take(k));
        lemma_merged_sources_prefix(sources.drop_last(), files, k);
    }
}

/// A failure among the first entries is the failure of the whole selection.
proof fn lemma_bind_aliases_prefix(
    cols: Seq<(Seq<char>, Seq<char>)>,
    selection: Seq<SelectItemView>,
    k: int,
)
    requires
        0 <= k <= selection.len(),
        bind_aliases(cols, selection.take(k)) is Err,
    ensures
        bind_aliases(cols, selection) == bind_aliases(cols, selection.take(k)),
    decreases selection.len() - k,
{
    if k == selection.len() {
        assert(selection.take(k) =~= selection);
    } else {
        assert(selection.drop_last().take(k) =~= selection.take(k));
        lemma_bind_aliases_prefix(cols, selection.drop_last(), k);
    }
}

impl IntRepSchema {
    /// Finishes `ir` over the texts of its sources.
    ///
    /// The header of each source, the primary one first and then each joined
    /// one in join order, is read from the entry of `files` under the
    /// source's identifier, and the column types are merged in that order.
    /// The rest is [`IntRepSchema::with_schema`].
    pub fn new(ir: IntRep, files: &Vec<SourceText>) -> (out: Result<IntRepSchema, CompileError>)
        ensures
            result_view(out) == finalize_from_files(ir@, views(files@)),
            out matches Ok(rep) ==> resolved(rep@) && names_unique(rep@.col_types),
    {
        let mut schema = ColumnTypes::new();
        let ghost sources = sources_of(ir@);
        match &ir.from {
            None => {
                return Err(CompileError::Resolution { construct: Construct::FromClause });
            },
            Some(from) => {
                proof {
                    reveal_with_fuel(merged_sources, 2);
                }
                match read_source(files, from) {
                    Err(error) => {
                        proof {
                            lemma_merged_sources_prefix(sources, views(files@), 1);
                        }
                        return Err(error);
                    },
                    Ok(table) => {
                        schema.extend(&table);
                    },
                }
            },
        }
        let mut i: usize = 0;
        while i < ir.joins.len()
            invariant
                i <= ir.joins.len(),
                ir@.from is Some,
                sources == sources_of(ir@),
                merged_sources(sources.take(i + 1), views(files@)) == Ok::<
                    Seq<(Seq<char>, Seq<char>)>,
                    CompileErrorView,
                >(schema@),
                names_unique(schema@),
            decreases ir.joins.len() - i,
        {
            proof {
                let next = sources.take(i + 2);
                assert(next.drop_last() =~= sources.take(i + 1));
            }
            match read_source(files, &ir.joins[i].source) {
                Err(error) => {
                    proof {
                        lemma_merged_sources_prefix(sources, views(files@), i + 2);
                    }
                    return Err(error);
                },
                Ok(table) => {
                    schema.extend(&table);
                },
            }
            i += 1;
        }
        assert(sources.take(i + 1) =~= sources);
        IntRepSchema::with_schema(ir, schema)
    }

    /// Finishes `ir` over the merged schema of its sources.
    ///
    /// Each aliased entry of the projection binds its alias to the type of
    /// the column it renames. Every column that the projection, the filter or
    /// the ordering reads must then be bound, and so must the index column;
    /// the failure names the first that is not.
    pub fn with_schema(ir: IntRep, schema: ColumnTypes) -> (out: Result<IntRepSchema, CompileError>)
        ensures
            result_view(out) == finalize(ir@, schema@),
            out matches Ok(rep) ==> resolved(rep@) && (names_unique(schema@) ==> names_unique(
                rep@.col_types,
            )),
    {
        proof {
            lemma_finished_is_resolved(ir@, schema@);
        }
        let ghost rep = ir@;
        let ghost initial = schema@;
        let IntRep { from, selection, filter, filter_cols, joins, order_by, limit } = ir;
        let from = match from {
            Some(from) => from,
            None => {
                return Err(CompileError::Resolution { construct: Construct::FromClause });
            },
        };
        let mut cols = schema;
        let mut i: usize = 0;
        while i < selection.len()
            invariant
                i <= selection.len(),
                rep == ir@,
                initial == schema@,
                rep == (IntRepView {
                    from: Some(from@),
                    selection: views(selection@),
                    filter: views(filter@),
                    filter_cols: views(filter_cols@),
                    joins: views(joins@),
                    order_by: views(order_by@),
                    limit: optional_text(limit),
                }),
                bind_aliases(initial, rep.selection.take(i as int)) == Ok::<
                    Seq<(Seq<char>, Seq<char>)>,
                    CompileErrorView,
                >(cols@),
            decreases selection.len() - i,
        {
            proof {
                let next = rep.selection.take(i + 1);
                assert(next.drop_last() =~= rep.selection.take(i as int));
            }
            match &selection[i] {
                SelectItem::Unnamed(_) => {},
                SelectItem::WithAlias(item) => {
                    let tag = match cols.get(&item.expr) {
                        Some(tag) => tag.clone(),
                        None => {
                            proof {
                                lemma_bind_aliases_prefix(initial, rep.selection, i + 1);
                            }
                            return Err(
                                CompileError::SchemaResolution {
                                    subject: Subject::Column,
                                    name: item.expr.clone(),
                                },
                            );
                        },
                    };
                    cols.insert(item.alias.clone(), tag);
                },
            }
            i += 1;
        }
        assert(rep.selection.take(i as int) =~= rep.selection);
        let selected = selection_columns(&selection);
        let ordered = ordering_columns(&order_by);
        proof {
            lemma_first_missing_concat(
                cols@,
                views(selected@) + views(filter_cols@),
                views(ordered@),
            );
            lemma_first_missing_concat(cols@, views(selected@), views(filter_cols@));
        }
        if let Some(name) = first_unbound(&cols, &selected) {
            return Err(CompileError::SchemaResolution { subject: Subject::Column, name });
        }
        if let Some(name) = first_unbound(&cols, &filter_cols) {
            return Err(CompileError::SchemaResolution { subject: Subject::Column, name });
        }
        if let Some(name) = first_unbound(&cols, &ordered) {
            return Err(CompileError::SchemaResolution { subject: Subject::Column, name });
        }
        let key = String::from_str("INDEX");
        let index_type = match cols.get(&key) {
            Some(tag) => tag.clone(),
            None => {
                return Err(CompileError::SchemaResolution { subject: Subject::Column, name: key });
            },
        };
        Ok(
            IntRepSchema {
                from,
                selection,
                filter,
                filter_cols,
                joins,
                order_by,
                limit,
                index_type,
                col_types: cols,
            },
        )
    }
}

/// The sources a representation names: those of [`source_names`] where it has
/// a primary source, none where it has not.
pub open spec fn sources_of(rep: IntRepView) -> Seq<Seq<char>> {
    match rep.from {
        Some(from) => source_names(from, rep.joins),
        None => Seq::empty(),
    }
}

impl IntRep {
    /// The identifiers of the sources whose headers finishing will read, in
    /// reading order.
    pub fn sources(&self) -> (out: Vec<String>)
        ensures
            views(out@) == sources_of(self@),
    {
        let mut out: Vec<String> = Vec::new();
        match &self.from {
            None => {
                return out;
            },
            Some(from) => {
                out.push(from.clone());
            },
        }
        let mut i: usize = 0;
        while i < self.joins.len()
            invariant
                i <= self.joins.len(),
                self@.from is Some,
                views(out@) == sources_of(self@).take(i + 1),
            decreases self.joins.len() - i,
        {
            let source = self.joins[i].source.clone();
            proof {
                lemma_views_push(out@, source);
                assert(sources_of(self@).take(i + 2) =~= sources_of(self@).take(i + 1).push(
                    source@,
                ));
            }
            out.push(source);
            i += 1;
        }
        out
    }

    /// The representation of no query.
    pub fn new() -> (out: IntRep)
        ensures
            out@ == empty_rep(),
    {
        let out = IntRep {
            from: None,
            selection: Vec::new(),
            filter: Vec::new(),
            filter_cols: Vec::new(),
            joins: Vec::new(),
            order_by: Vec::new(),
            limit: None,
        };
        assert(out@.selection =~= Seq::empty());
        assert(out@.filter_cols =~= Seq::empty());
        assert(out@.joins =~= Seq::empty());
        assert(out@.order_by =~= Seq::empty());
        out
    }
}

} // verus!
