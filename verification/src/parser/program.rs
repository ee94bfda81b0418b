//! The whole program.
use vstd::prelude::*;

use super::{parse_error_views, ParseError, Parser};
use crate::grammar::{parse_program_from, parser_input, spec_program, start_state, ParseErrorView};
use crate::stmt::{stmt_views, Stmt, StmtView};

verus! {

/// The model of the result of parsing a program.
pub open spec fn program_result(r: Result<Vec<Stmt>, Vec<ParseError>>) -> Result<
    Seq<StmtView>,
    Seq<ParseErrorView>,
> {
    match r {
        Ok(stmts) => Ok(stmt_views(stmts@)),
        Err(errors) => Err(parse_error_views(errors@)),
    }
}

impl Parser {
    /// Parses the whole token sequence. Gives every declaration when no error was
    /// recorded; otherwise every error recorded, in order, followed by the one that
    /// ended the parse, if any, so a failed parse reports at least one error. An
    /// error of kind `Aborted` at the end tells that the parse stopped without
    /// recovery. Expressions are numbered from the parser's first number on; a
    /// parser from [`Parser::new`] starts at 0, and [`Parser::starting_at`] lets a
    /// session go on numbering from where the last parse stopped.
    pub fn parse(self) -> (r: Result<Vec<Stmt>, Vec<ParseError>>)
        requires
            parser_input(self.toks()),
            self.state() == start_state(self.state().next_id),
        ensures
            program_result(r) == parse_program_from(self.toks(), self.state().next_id).0,
            r matches Err(es) ==> es@.len() > 0,
    {
        self.parse_numbered().0
    }

    /// Parses the whole token sequence as [`Self::parse`] does, and gives also the
    /// number the next expression would get.
    pub fn parse_numbered(self) -> (r: (Result<Vec<Stmt>, Vec<ParseError>>, usize))
        requires
            parser_input(self.toks()),
            self.state() == start_state(self.state().next_id),
        ensures
            (program_result(r.0), r.1) == parse_program_from(self.toks(), self.state().next_id),
            r.0 matches Err(es) ==> es@.len() > 0,
    {
        let mut parser = self;
        parser.declarations()
    }

    #[verifier::rlimit(50)]
    fn declarations(&mut self) -> (r: (Result<Vec<Stmt>, Vec<ParseError>>, usize))
        requires
            parser_input(old(self).toks()),
            old(self).state() == start_state(old(self).next_id),
        ensures
            (program_result(r.0), r.1) == parse_program_from(old(self).toks(), old(self).next_id),
            r.0 matches Err(es) ==> es@.len() > 0,
    {
        let ghost toks = self.toks();
        let ghost first = self.next_id;
        let parser = self;
        let mut statements: Vec<Stmt> = Vec::new();
        let ghost target = spec_program(toks, parser.state(), Seq::empty());
        assert(stmt_views(statements@) =~= Seq::<StmtView>::empty());
        loop
            invariant
                parser.wf(),
                toks == parser.toks(),
                toks == old(self).toks(),
                first == old(self).next_id,
                target == spec_program(toks, parser.state(), stmt_views(statements@)),
                target == spec_program(toks, start_state(first), Seq::empty()),
            decreases parser.tokens@.len() - parser.current,
        {
            proof {
                parser.lemma_in_bounds();
            }
            if parser.aborted {
                let e = parser.halt_error();
                parser.record(e);
                let next = parser.next_id;
                assert(parser.state().errors.len() > 0);
                let errors = parser.take_errors();
                assert(parse_error_views(errors@).len() == errors@.len());
                return (Err(errors), next);
            }
            if parser.end() {
                if parser.has_errors() {
                    let next = parser.next_id;
                    let errors = parser.take_errors();
                    assert(parse_error_views(errors@).len() == errors@.len());
                    return (Err(errors), next);
                }
                return (Ok(statements), parser.next_id);
            }
            match parser.declaration() {
                Ok(declaration) => {
                    let ghost views = stmt_views(statements@);
                    statements.push(declaration);
                    assert(stmt_views(statements@) =~= views.push(declaration@));
                },
                Err(e) => {
                    parser.record(e);
                    let next = parser.next_id;
                    assert(parser.state().errors.len() > 0);
                    let errors = parser.take_errors();
                    assert(parse_error_views(errors@).len() == errors@.len());
                    return (Err(errors), next);
                },
            }
        }
    }
}

} // verus!
