//! The whole compilation: from a statement and the texts of its sources to
//! the text of a program.
use crate::error::{CompileError, CompileErrorView};
use crate::generator::{generate_code, lemma_resolved_generates, program_text};
use crate::intermediate::{
    finalize_from_files, lemma_finishing_failures, sources_of, IntRepSchema, SourceText,
};
use crate::syntax::Statement;
use crate::text::views;
use crate::visitor::{lemma_traversal_failures, statement_rep, SqlVisitor};
use vstd::prelude::*;

verus! {

/// The program for `statement` when the texts of its sources are `files`:
/// the text generated from the finished representation of the statement, or
/// the failure of the traversal or of the finishing. Generation adds no
/// failure of its own, since a finished representation is resolved.
pub open spec fn compiled(statement: Statement, files: Seq<(Seq<char>, Seq<u8>)>) -> Result<
    Seq<char>,
    CompileErrorView,
> {
    match statement_rep(statement) {
        Err(error) => Err(error),
        Ok(rep) => match finalize_from_files(rep, files) {
            Err(error) => Err(error),
            Ok(finished) => Ok(program_text(finished)),
        },
    }
}

/// Every failure of a compilation comes from the traversal or from the
/// finishing. None is the failure of a stage of generation: a statement that
/// can be finished has a program.
pub proof fn lemma_compiled_failures(statement: Statement, files: Seq<(Seq<char>, Seq<u8>)>)
    ensures
        compiled(statement, files) is Err ==> {
            let error = compiled(statement, files)->Err_0;
            error is UnsupportedConstruct || error is Resolution || error is SchemaResolution
        },
{
    lemma_traversal_failures(statement);
    if let Ok(rep) = statement_rep(statement) {
        lemma_finishing_failures(rep, files);
    }
}

/// The identifiers of the sources that `statement` reads, the primary one
/// first and then each joined one in join order; the failure of the
/// traversal where the statement is refused.
pub fn sources(statement: &Statement) -> (out: Result<Vec<String>, CompileError>)
    ensures
        match statement_rep(*statement) {
            Ok(rep) => out matches Ok(found) && views(found@) == sources_of(rep),
            Err(error) => out matches Err(found) && found@ == error,
        },
{
    let mut visitor = SqlVisitor::new();
    match visitor.visit_statement(statement) {
        Ok(()) => Ok(visitor.ir.sources()),
        Err(error) => Err(error),
    }
}

/// Compiles `statement` over the texts of its sources: traverses it, finishes
/// the representation, and generates the program.
pub fn compile(statement: &Statement, files: &Vec<SourceText>) -> (out: Result<
    String,
    CompileError,
>)
    ensures
        match compiled(*statement, views(files@)) {
            Ok(text) => out matches Ok(found) && found@ == text,
            Err(error) => out matches Err(found) && found@ == error,
        },
{
    let mut visitor = SqlVisitor::new();
    match visitor.visit_statement(statement) {
        Ok(()) => {},
        Err(error) => {
            return Err(error);
        },
    }
    let finished = match IntRepSchema::new(visitor.ir, files) {
        Ok(finished) => finished,
        Err(error) => {
            return Err(error);
        },
    };
    proof {
        lemma_resolved_generates(finished@);
    }
    generate_code(&finished)
}

} // verus!
