//! Column types: an ordered mapping from column name to target type tag.
use crate::text::{distinct, lemma_absorb_concat, lemma_views_push, push_distinct, views};
use vstd::prelude::*;

verus! {

/// One schema entry.
#[derive(Clone, Debug, PartialEq, Eq)]
pub struct Column {
    pub name: String,
    pub tag: String,
}

impl View for Column {
    type V = (Seq<char>, Seq<char>);

    open spec fn view(&self) -> (Seq<char>, Seq<char>) {
        (self.name@, self.tag@)
    }
}

/// The index of the first entry of `cols` called `name`.
pub open spec fn position(cols: Seq<(Seq<char>, Seq<char>)>, name: Seq<char>) -> Option<int>
    decreases cols.len(),
{
    if cols.len() == 0 {
        None
    } else {
        match position(cols.drop_last(), name) {
            Some(p) => Some(p),
            None => if cols.last().0 == name {
                Some(cols.len() - 1)
            } else {
                None
            },
        }
    }
}

/// The tag that `cols` gives to `name`.
pub open spec fn lookup(cols: Seq<(Seq<char>, Seq<char>)>, name: Seq<char>) -> Option<Seq<char>> {
    match position(cols, name) {
        Some(p) => Some(cols[p].1),
        None => None,
    }
}

/// `cols` with `name` bound to `tag`: an entry of that name keeps its place
/// and takes the tag, a new name goes to the end.
pub open spec fn put(cols: Seq<(Seq<char>, Seq<char>)>, name: Seq<char>, tag: Seq<char>) -> Seq<
    (Seq<char>, Seq<char>),
> {
    match position(cols, name) {
        Some(p) => cols.update(p, (name, tag)),
        None => cols.push((name, tag)),
    }
}

/// `base` extended by the entries of `more`, in order; on a name both hold,
/// the tag of `more` wins.
pub open spec fn merged(
    base: Seq<(Seq<char>, Seq<char>)>,
    more: Seq<(Seq<char>, Seq<char>)>,
) -> Seq<(Seq<char>, Seq<char>)>
    decreases more.len(),
{
    if more.len() == 0 {
        base
    } else {
        put(merged(base, more.drop_last()), more.last().0, more.last().1)
    }
}

/// No two entries of `cols` share a name.
pub open spec fn names_unique(cols: Seq<(Seq<char>, Seq<char>)>) -> bool {
    forall|i: int, j: int| 0 <= i < j < cols.len() ==> cols[i].0 != cols[j].0
}

/// The tags of `cols`, in entry order.
pub open spec fn tags(cols: Seq<(Seq<char>, Seq<char>)>) -> Seq<Seq<char>> {
    Seq::new(cols.len(), |i: int| cols[i].1)
}

/// What `position` finds: the first entry of that name, or that there is none.
pub proof fn lemma_position(cols: Seq<(Seq<char>, Seq<char>)>, name: Seq<char>)
    ensures
        match position(cols, name) {
            Some(p) => 0 <= p < cols.len() && cols[p].0 == name && forall|j: int|
                0 <= j < p ==> cols[j].0 != name,
            None => forall|j: int| 0 <= j < cols.len() ==> cols[j].0 != name,
        },
    decreases cols.len(),
{
    if cols.len() > 0 {
        let front = cols.drop_last();
        lemma_position(front, name);
        assert(forall|j: int| 0 <= j < front.len() ==> front[j] == cols[j]);
    }
}

/// Binding a name keeps names unique, and afterwards the name has the tag
/// while every other name has what it had.
pub proof fn lemma_put(cols: Seq<(Seq<char>, Seq<char>)>, name: Seq<char>, tag: Seq<char>)
    ensures
        names_unique(cols) ==> names_unique(put(cols, name, tag)),
        lookup(put(cols, name, tag), name) == Some(tag),
        forall|other: Seq<char>|
            other != name ==> lookup(put(cols, name, tag), other) == lookup(cols, other),
        cols.len() <= put(cols, name, tag).len(),
{
    let after = put(cols, name, tag);
    lemma_position(cols, name);
    lemma_position(after, name);
    assert(lookup(after, name) == Some(tag)) by {
        match position(cols, name) {
            Some(p) => {
                assert(after[p].0 == name);
                if position(after, name) != Some(p) {
                    let q = position(after, name)->Some_0;
                    assert(cols[q].0 != name);
                }
            },
            None => {
                assert(after[cols.len() as int].0 == name);
                let q = position(after, name)->Some_0;
                if q < cols.len() {
                    assert(cols[q].0 == name);
                }
            },
        }
    }
    assert forall|other: Seq<char>| other != name implies lookup(after, other) == lookup(
        cols,
        other,
    ) by {
        lemma_position(cols, other);
        lemma_position(after, other);
        match position(cols, other) {
            Some(p) => {
                assert(after[p] == cols[p]);
                let q = position(after, other)->Some_0;
                if q < p {
                    assert(after[q].0 == cols[q].0);
                }
            },
            None => {
                if position(after, other) is Some {
                    let q = position(after, other)->Some_0;
                    if q < cols.len() {
                        assert(after[q].0 == cols[q].0 || after[q].0 == name);
                    }
                }
            },
        }
    }
    if names_unique(cols) {
        assert forall|i: int, j: int| 0 <= i < j < after.len() implies after[i].0 != after[j].0 by {
            match position(cols, name) {
                Some(p) => {
                    assert(after[i].0 == cols[i].0);
                    assert(after[j].0 == cols[j].0);
                },
                None => {
                    if j < cols.len() {
                        assert(after[i] == cols[i] && after[j] == cols[j]);
                    } else {
                        assert(after[i] == cols[i]);
                    }
                },
            }
        }
    }
}

/// Merging into a schema with unique names gives one with unique names, in
/// which every name bound before is still bound.
pub proof fn lemma_merged(base: Seq<(Seq<char>, Seq<char>)>, more: Seq<(Seq<char>, Seq<char>)>)
    ensures
        names_unique(base) ==> names_unique(merged(base, more)),
        forall|name: Seq<char>|
            lookup(base, name) is Some ==> lookup(merged(base, more), name) is Some,
    decreases more.len(),
{
    if more.len() > 0 {
        lemma_merged(base, more.drop_last());
        lemma_put(merged(base, more.drop_last()), more.last().0, more.last().1);
    }
}

/// The schema as a mapping from name to tag, without the order of entries.
pub open spec fn as_map(cols: Seq<(Seq<char>, Seq<char>)>) -> Map<Seq<char>, Seq<char>> {
    Map::new(
        |name: Seq<char>| lookup(cols, name) is Some,
        |name: Seq<char>| lookup(cols, name)->Some_0,
    )
}

/// Binding a name is inserting into the mapping.
pub proof fn lemma_put_as_map(cols: Seq<(Seq<char>, Seq<char>)>, name: Seq<char>, tag: Seq<char>)
    ensures
        as_map(put(cols, name, tag)) == as_map(cols).insert(name, tag),
{
    lemma_put(cols, name, tag);
    assert(as_map(put(cols, name, tag)) =~= as_map(cols).insert(name, tag));
}

/// Merging is the union of the mappings in which the second schema decides
/// the names that both bind.
pub proof fn lemma_merged_as_map(
    base: Seq<(Seq<char>, Seq<char>)>,
    more: Seq<(Seq<char>, Seq<char>)>,
)
    requires
        names_unique(more),
    ensures
        as_map(merged(base, more)) == as_map(base).union_prefer_right(as_map(more)),
    decreases more.len(),
{
    if more.len() == 0 {
        assert(as_map(merged(base, more)) =~= as_map(base).union_prefer_right(as_map(more)));
    } else {
        let front = more.drop_last();
        let last = more.last();
        assert(forall|i: int| 0 <= i < front.len() ==> front[i] == more[i]);
        lemma_merged_as_map(base, front);
        lemma_put_as_map(merged(base, front), last.0, last.1);
        lemma_position(front, last.0);
        assert(position(front, last.0) is None) by {
            if position(front, last.0) is Some {
                let p = position(front, last.0)->Some_0;
                assert(more[p].0 == more[more.len() - 1].0);
            }
        }
        assert(put(front, last.0, last.1) =~= more);
        lemma_put_as_map(front, last.0, last.1);
        assert(as_map(merged(base, more)) =~= as_map(base).union_prefer_right(as_map(more)));
    }
}

/// An ordered mapping from column name to target type tag. Entries keep the
/// order in which their names first came in. Names are unique: the empty
/// mapping has none, and no method adds a name a second time.
#[derive(Clone, Debug, PartialEq, Eq)]
pub struct ColumnTypes {
    entries: Vec<Column>,
}

impl View for ColumnTypes {
    type V = Seq<(Seq<char>, Seq<char>)>;

    closed spec fn view(&self) -> Seq<(Seq<char>, Seq<char>)> {
        views(self.entries@)
    }
}

impl ColumnTypes {
    /// The mapping without entries.
    pub fn new() -> (out: ColumnTypes)
        ensures
            out@ == Seq::<(Seq<char>, Seq<char>)>::empty(),
            names_unique(out@),
    {
        let entries: Vec<Column> = Vec::new();
        ColumnTypes { entries }
    }

    /// The number of entries.
    pub fn len(&self) -> (n: usize)
        ensures
            n == self@.len(),
    {
        self.entries.len()
    }

    /// The entry at `index`, in entry order.
    pub fn entry(&self, index: usize) -> (column: &Column)
        requires
            index < self@.len(),
        ensures
            column@ == self@[index as int],
    {
        &self.entries[index]
    }

    /// The index of the entry called `name`.
    pub fn find(&self, name: &String) -> (found: Option<usize>)
        ensures
            match found {
                Some(i) => position(self@, name@) == Some(i as int) && i < self@.len(),
                None => position(self@, name@) is None,
            },
    {
        let mut found: Option<usize> = None;
        let mut i: usize = 0;
        while i < self.entries.len()
            invariant
                i <= self.entries.len(),
                match found {
                    Some(p) => position(views(self.entries@).take(i as int), name@) == Some(
                        p as int,
                    ) && p < i,
                    None => position(views(self.entries@).take(i as int), name@) is None,
                },
            decreases self.entries.len() - i,
        {
            proof {
                let next = views(self.entries@).take(i + 1);
                lemma_position(next, name@);
                assert(next.drop_last() =~= views(self.entries@).take(i as int));
            }
            if found.is_none() && self.entries[i].name == *name {
                found = Some(i);
            }
            i += 1;
        }
        assert(views(self.entries@).take(i as int) =~= views(self.entries@));
        found
    }

    /// The tag bound to `name`.
    pub fn get(&self, name: &String) -> (tag: Option<&String>)
        ensures
            match lookup(self@, name@) {
                Some(t) => tag matches Some(s) && s@ == t,
                None => tag is None,
            },
    {
        match self.find(name) {
            Some(p) => {
                Some(&self.entries[p].tag)
            },
            None => None,
        }
    }

    /// Whether `name` is bound.
    pub fn contains_key(&self, name: &String) -> (bound: bool)
        ensures
            bound == lookup(self@, name@).is_some(),
    {
        self.find(name).is_some()
    }

    /// Binds `name` to `tag`, in place of an earlier binding of that name.
    pub fn insert(&mut self, name: String, tag: String)
        ensures
            final(self)@ == put(old(self)@, name@, tag@),
            names_unique(old(self)@) ==> names_unique(final(self)@),
    {
        proof {
            lemma_put(self@, name@, tag@);
        }
        match self.find(&name) {
            Some(p) => {
                let column = Column { name, tag };
                assert(views(self.entries@.update(p as int, column)) =~= self@.update(
                    p as int,
                    column@,
                ));
                self.entries[p] = column;
            },
            None => {
                let column = Column { name, tag };
                proof {
                    lemma_views_push(self.entries@, column);
                }
                self.entries.push(column);
            },
        }
    }

    /// Binds every entry of `more`, in its order.
    pub fn extend(&mut self, more: &ColumnTypes)
        ensures
            final(self)@ == merged(old(self)@, more@),
            names_unique(old(self)@) ==> names_unique(final(self)@),
    {
        let mut i: usize = 0;
        while i < more.entries.len()
            invariant
                i <= more.entries.len(),
                self@ == merged(old(self)@, more@.take(i as int)),
                names_unique(old(self)@) ==> names_unique(self@),
            decreases more.entries.len() - i,
        {
            proof {
                let next = more@.take(i + 1);
                assert(next.drop_last() =~= more@.take(i as int));
            }
            let name = more.entries[i].name.clone();
            let tag = more.entries[i].tag.clone();
            self.insert(name, tag);
            i += 1;
        }
        assert(more@.take(i as int) =~= more@);
    }

    /// The tags in use, each once, in order of first appearance.
    pub fn distinct_tags(&self) -> (out: Vec<String>)
        ensures
            views(out@) == distinct(tags(self@)),
    {
        let mut out: Vec<String> = Vec::new();
        let mut i: usize = 0;
        while i < self.entries.len()
            invariant
                i <= self.entries.len(),
                views(out@) == distinct(tags(self@).take(i as int)),
            decreases self.entries.len() - i,
        {
            proof {
                let done = tags(self@).take(i as int);
                let next = tags(self@).take(i + 1);
                assert(next =~= done + seq![self.entries@[i as int].tag@]);
                lemma_absorb_concat(Seq::empty(), done, seq![self.entries@[i as int].tag@]);
            }
            push_distinct(&mut out, self.entries[i].tag.clone());
            i += 1;
        }
        assert(tags(self@).take(i as int) =~= tags(self@));
        out
    }
}

} // verus!
