//! Reading column types from the header of a CSV source.
//!
//! A header entry is a bare column name, or `name:qualifier:type` where the
//! type may be wrapped in angle brackets. A column without a declared type is
//! a string column.
use crate::error::{result_view, CompileError, CompileErrorView, Subject};
use crate::schema::{names_unique, put, ColumnTypes};
use crate::text::views;
use vstd::prelude::*;

verus! {

/// The index of the first colon of `s`, or its length where it has none.
pub open spec fn first_colon(s: Seq<char>) -> int
    decreases s.len(),
{
    if s.len() == 0 {
        0
    } else if s[0] == ':' {
        0
    } else {
        1 + first_colon(s.drop_first())
    }
}

/// The `n`-th of the pieces that the colons of `s` separate, counted from 0.
pub open spec fn segment(s: Seq<char>, n: nat) -> Option<Seq<char>>
    decreases n,
{
    let end = first_colon(s);
    if n == 0 {
        Some(s.take(end))
    } else if end < s.len() {
        segment(s.skip(end + 1), (n - 1) as nat)
    } else {
        None
    }
}

/// `s` without its angle brackets.
pub open spec fn without_brackets(s: Seq<char>) -> Seq<char>
    decreases s.len(),
{
    if s.len() == 0 {
        s
    } else {
        let front = without_brackets(s.drop_last());
        if s.last() == '<' || s.last() == '>' {
            front
        } else {
            front.push(s.last())
        }
    }
}

/// `s` with each occurrence of `pat` replaced by `to`, found left to right
/// without overlap.
pub open spec fn replaced(s: Seq<char>, pat: Seq<char>, to: Seq<char>) -> Seq<char>
    decreases s.len(),
{
    if pat.len() == 0 || s.len() < pat.len() {
        s
    } else if s.take(pat.len() as int) == pat {
        to + replaced(s.skip(pat.len() as int), pat, to)
    } else {
        seq![s[0]] + replaced(s.drop_first(), pat, to)
    }
}

/// The target type tag for a declared type: brackets stripped, and the string
/// type spelled as the target language spells it.
pub open spec fn target_tag(declared: Seq<char>) -> Seq<char> {
    replaced(without_brackets(declared), "string"@, "std::string"@)
}

/// The column name of a header entry: what stands before its first colon.
pub open spec fn entry_name(field: Seq<char>) -> Seq<char> {
    field.take(first_colon(field))
}

/// The type tag of a header entry: from its third piece, or the string type
/// where it has fewer than three.
pub open spec fn entry_tag(field: Seq<char>) -> Seq<char> {
    match segment(field, 2) {
        Some(declared) => target_tag(declared),
        None => target_tag("string"@),
    }
}

/// The column types that a header declares, entry by entry; of two entries
/// with one name the later decides the tag.
pub open spec fn header_columns(fields: Seq<Seq<char>>) -> Seq<(Seq<char>, Seq<char>)>
    decreases fields.len(),
{
    if fields.len() == 0 {
        Seq::empty()
    } else {
        put(
            header_columns(fields.drop_last()),
            entry_name(fields.last()),
            entry_tag(fields.last()),
        )
    }
}

/// The column types of the source called `source`, given what was read of its
/// header: a failure naming the source where nothing could be read or the
/// header is empty.
pub open spec fn source_columns(source: Seq<char>, header: Option<Seq<Seq<char>>>) -> Result<
    Seq<(Seq<char>, Seq<char>)>,
    CompileErrorView,
> {
    match header {
        Some(fields) => if fields.len() > 0 {
            Ok(header_columns(fields))
        } else {
            Err(CompileErrorView::SchemaResolution { subject: Subject::Source, name: source })
        },
        None => Err(CompileErrorView::SchemaResolution { subject: Subject::Source, name: source }),
    }
}

/// The index of the first colon of `s` at or after `from`, or the length of
/// `s` where none follows.
fn find_colon(s: &str, from: usize) -> (at: usize)
    requires
        from <= s@.len(),
    ensures
        at == from + first_colon(s@.skip(from as int)),
        from <= at <= s@.len(),
{
    let n = s.unicode_len();
    let mut i = from;
    while i < n
        invariant
            n == s@.len(),
            from <= i <= n,
            from + first_colon(s@.skip(from as int)) == i + first_colon(s@.skip(i as int)),
        decreases n - i,
    {
        if s.get_char(i) == ':' {
            return i;
        }
        assert(s@.skip(i as int).drop_first() =~= s@.skip(i + 1));
        i += 1;
    }
    i
}

/// The `n`-th colon-separated piece of `s`.
pub fn nth_segment(s: &str, n: usize) -> (piece: Option<String>)
    ensures
        match segment(s@, n as nat) {
            Some(p) => piece matches Some(out) && out@ == p,
            None => piece is None,
        },
{
    let len = s.unicode_len();
    let mut start: usize = 0;
    let mut k: usize = 0;
    assert(s@.skip(0) =~= s@);
    while k < n
        invariant
            len == s@.len(),
            k <= n,
            start <= len,
            segment(s@, n as nat) == segment(s@.skip(start as int), (n - k) as nat),
        decreases n - k,
    {
        let colon = find_colon(s, start);
        if colon == len {
            return None;
        }
        assert(s@.skip(start as int).skip(colon - start + 1) =~= s@.skip(colon + 1));
        start = colon + 1;
        k += 1;
    }
    let end = find_colon(s, start);
    Some(String::from_str(s.substring_char(start, end)))
}

/// Removes every angle bracket.
pub fn strip_brackets(s: &str) -> (out: String)
    ensures
        out@ == without_brackets(s@),
{
    let n = s.unicode_len();
    let mut out = String::new();
    let mut i: usize = 0;
    while i < n
        invariant
            n == s@.len(),
            i <= n,
            out@ == without_brackets(s@.take(i as int)),
        decreases n - i,
    {
        proof {
            let next = s@.take(i + 1);
            assert(next.drop_last() =~= s@.take(i as int));
        }
        let c = s.get_char(i);
        if c != '<' && c != '>' {
            out.append(s.substring_char(i, i + 1));
        }
        i += 1;
    }
    assert(s@.take(i as int) =~= s@);
    out
}

/// Replaces each occurrence of `pat`, found left to right without overlap,
/// by `to`.
pub fn replace_all(s: &str, pat: &str, to: &str) -> (out: String)
    ensures
        out@ == replaced(s@, pat@, to@),
{
    let n = s.unicode_len();
    let m = pat.unicode_len();
    if m == 0 {
        return String::from_str(s);
    }
    let wanted = String::from_str(pat);
    let mut out = String::new();
    let mut i: usize = 0;
    assert(s@.skip(0) =~= s@);
    while i < n
        invariant
            n == s@.len(),
            m == pat@.len(),
            m > 0,
            wanted@ == pat@,
            i <= n,
            replaced(s@, pat@, to@) == out@ + replaced(s@.skip(i as int), pat@, to@),
        decreases n - i,
    {
        let ghost rest = s@.skip(i as int);
        if n - i < m {
            out.append(s.substring_char(i, n));
            i = n;
        } else {
            let candidate = String::from_str(s.substring_char(i, i + m));
            assert(rest.take(m as int) =~= s@.subrange(i as int, i + m));
            if candidate == wanted {
                assert(rest.skip(m as int) =~= s@.skip(i + m));
                assert((out@ + to@) + replaced(s@.skip(i + m), pat@, to@) =~= out@ + (to@
                    + replaced(s@.skip(i + m), pat@, to@)));
                out.append(to);
                i += m;
            } else {
                assert(rest.drop_first() =~= s@.skip(i + 1));
                assert((out@ + seq![rest[0]]) + replaced(s@.skip(i + 1), pat@, to@) =~= out@
                    + (seq![rest[0]] + replaced(s@.skip(i + 1), pat@, to@)));
                out.append(s.substring_char(i, i + 1));
                i += 1;
            }
        }
    }
    out
}

/// The target type tag for a declared type.
pub fn target_type(declared: &str) -> (tag: String)
    ensures
        tag@ == target_tag(declared@),
{
    let bare = strip_brackets(declared);
    replace_all(bare.as_str(), "string", "std::string")
}

/// The name and the type tag that one header entry declares.
pub fn column_entry(field: &str) -> (entry: (String, String))
    ensures
        entry.0@ == entry_name(field@),
        entry.1@ == entry_tag(field@),
{
    let end = find_colon(field, 0);
    assert(field@.skip(0) =~= field@);
    let name = String::from_str(field.substring_char(0, end));
    let tag = match nth_segment(field, 2) {
        Some(declared) => target_type(declared.as_str()),
        None => target_type("string"),
    };
    (name, tag)
}

/// The column types that the entries of a header declare.
pub fn columns_from_header(fields: &Vec<String>) -> (columns: ColumnTypes)
    ensures
        columns@ == header_columns(views(fields@)),
        names_unique(columns@),
{
    let mut columns = ColumnTypes::new();
    let mut i: usize = 0;
    while i < fields.len()
        invariant
            i <= fields.len(),
            columns@ == header_columns(views(fields@).take(i as int)),
            names_unique(columns@),
        decreases fields.len() - i,
    {
        proof {
            let next = views(fields@).take(i + 1);
            assert(next.drop_last() =~= views(fields@).take(i as int));
        }
        let (name, tag) = column_entry(fields[i].as_str());
        columns.insert(name, tag);
        i += 1;
    }
    assert(views(fields@).take(i as int) =~= views(fields@));
    columns
}

/// The column types of the source called `source` whose header holds
/// `fields`; an empty header is a failure that names the source.
pub fn columns_from_fields(source: &str, fields: &Vec<String>) -> (out: Result<
    ColumnTypes,
    CompileError,
>)
    ensures
        result_view(out) == source_columns(source@, Some(views(fields@))),
        out matches Ok(columns) ==> names_unique(columns@),
{
    if fields.len() == 0 {
        Err(
            CompileError::SchemaResolution {
                subject: Subject::Source,
                name: String::from_str(source),
            },
        )
    } else {
        Ok(columns_from_header(fields))
    }
}

/// The fields of the first record of the CSV text `data`, as the `csv` crate
/// reads them with its default settings; `None` where it reports an error.
pub uninterp spec fn csv_header(data: Seq<u8>) -> Option<Seq<Seq<char>>>;

/// The error type of the `csv` crate, `csv::Error`; nothing is known of its
/// values.
#[verifier::external_type_specification]
#[verifier::external_body]
pub struct ExCsvError(csv::Error);

/// Calls `csv::Reader::from_reader` on the bytes and then
/// `csv::Reader::headers`. The contract gives the outcome its name: the fields
/// of the header record on success, and no header where the crate reports an
/// error (a header that is not UTF-8).
#[verifier::external_body]
fn header_fields(data: &[u8]) -> (out: Result<Vec<String>, csv::Error>)
    ensures
        match out {
            Ok(fields) => csv_header(data@) == Some(views(fields@)),
            Err(_) => csv_header(data@) is None,
        },
{
    let mut reader = csv::Reader::from_reader(data);
    let record = reader.headers()?;
    Ok(record.iter().map(|field| field.to_string()).collect())
}

/// Reads the column types of the source called `source` from its CSV text.
pub fn read_csv_columns(source: &str, data: &[u8]) -> (out: Result<ColumnTypes, CompileError>)
    ensures
        result_view(out) == source_columns(source@, csv_header(data@)),
        out matches Ok(columns) ==> names_unique(columns@),
{
    match header_fields(data) {
        Ok(fields) => columns_from_fields(source, &fields),
        Err(_) => Err(
            CompileError::SchemaResolution {
                subject: Subject::Source,
                name: String::from_str(source),
            },
        ),
    }
}

} // verus!
