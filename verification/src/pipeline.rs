//! From source text to statements.
use vstd::prelude::*;

use crate::environment::RuntimeError;
use crate::errors::{
    lexer_error_text, lexer_report, parse_error_text, parser_report, runtime_error_text,
    runtime_report,
};
use crate::grammar::{parse_program, parse_program_from};
use crate::lexer::{
    lex, law_scanned_tokens_can_be_parsed, lex_error_views, newline_count, LexError, Lexer,
};
use crate::parser::program::program_result;
use crate::parser::{parse_error_views, ParseError, Parser};
use crate::stmt::{stmt_views, Stmt};

verus! {

/// Why running a program failed: errors in its text, errors in its grammar, or
/// an error while it ran.
#[derive(Debug)]
pub enum LoxError {
    Lex(Vec<LexError>),
    Parse(Vec<ParseError>),
    Runtime(RuntimeError),
}

impl LoxError {
    /// The reports of this error, one for each problem found, in order.
    pub open spec fn reports(&self) -> Seq<Seq<char>> {
        match self {
            LoxError::Lex(es) => es@.map_values(
                |e: LexError| lexer_report(e.line, e.preview@, e.kind.text()),
            ),
            LoxError::Parse(es) => es@.map_values(
                |e: ParseError| parser_report(e.token.line, e.token.lexeme@, e.kind.text()),
            ),
            LoxError::Runtime(e) => seq![runtime_report(e.message@)],
        }
    }

    /// The text of each report of this error, in order.
    pub fn report(&self) -> (r: Vec<String>)
        ensures
            r@.map_values(|s: String| s@) == self.reports(),
    {
        let mut out: Vec<String> = Vec::new();
        match self {
            LoxError::Lex(es) => {
                let mut i: usize = 0;
                while i < es.len()
                    invariant
                        i <= es@.len(),
                        out@.len() == i,
                        forall|j: int|
                            0 <= j < i ==> (#[trigger] out@[j])@ == lexer_report(
                                es@[j].line,
                                es@[j].preview@,
                                es@[j].kind.text(),
                            ),
                    decreases es@.len() - i,
                {
                    let e = &es[i];
                    out.push(lexer_error_text(e.line, e.preview.as_str(), e.kind.message()));
                    i += 1;
                }
            },
            LoxError::Parse(es) => {
                let mut i: usize = 0;
                while i < es.len()
                    invariant
                        i <= es@.len(),
                        out@.len() == i,
                        forall|j: int|
                            0 <= j < i ==> (#[trigger] out@[j])@ == parser_report(
                                es@[j].token.line,
                                es@[j].token.lexeme@,
                                es@[j].kind.text(),
                            ),
                    decreases es@.len() - i,
                {
                    let e = &es[i];
                    out.push(
                        parse_error_text(e.token.line, e.token.lexeme.as_str(), e.kind.message()),
                    );
                    i += 1;
                }
            },
            LoxError::Runtime(e) => {
                out.push(runtime_error_text(e.message.as_str()));
            },
        }
        assert(out@.map_values(|s: String| s@) =~= self.reports());
        out
    }

    /// The process exit status that reports this error: 65 for a program that
    /// could not be read, 70 for one that failed while running.
    pub fn exit_code(&self) -> (c: u8)
        ensures
            c == match self {
                LoxError::Runtime(_) => 70u8,
                _ => 65u8,
            },
    {
        match self {
            LoxError::Runtime(_) => 70,
            _ => 65,
        }
    }
}

/// Scans and parses `source`, numbering its expressions from 0 on: the
/// statements of the program, or the scanning errors when there are any, or else
/// the parse errors; a failure reports at least one error. Sources parsed one
/// after another this way reuse expression numbers; [`parse_source_from`] keeps
/// them distinct.
pub fn parse_source(source: String) -> (r: Result<Vec<Stmt>, LoxError>)
    requires
        newline_count(source@) < u32::MAX,
    ensures
        match lex(source@) {
            Err(errors) => r matches Err(LoxError::Lex(e)) && lex_error_views(e@) == errors,
            Ok(tokens) => match parse_program(tokens) {
                Ok(stmts) => r matches Ok(p) && stmt_views(p@) == stmts,
                Err(errors) => r matches Err(LoxError::Parse(e)) && parse_error_views(e@)
                    == errors,
            },
        },
        r matches Err(LoxError::Lex(e)) ==> e@.len() > 0,
        r matches Err(LoxError::Parse(e)) ==> e@.len() > 0,
{
    parse_source_from(source, 0).0
}

/// Scans and parses `source`, numbering its expressions from `first_id` on, as
/// [`parse_source`] does; gives also the number the next expression would get
/// (`first_id` itself when scanning failed), so that the programs a session runs
/// one after another get distinct numbers.
pub fn parse_source_from(source: String, first_id: usize) -> (r: (Result<Vec<Stmt>, LoxError>, usize))
    requires
        newline_count(source@) < u32::MAX,
    ensures
        match lex(source@) {
            Err(errors) => r.1 == first_id && (r.0 matches Err(LoxError::Lex(e))
                && lex_error_views(e@) == errors),
            Ok(tokens) => r.1 == parse_program_from(tokens, first_id).1 && match parse_program_from(
                tokens,
                first_id,
            ).0 {
                Ok(stmts) => r.0 matches Ok(p) && stmt_views(p@) == stmts,
                Err(errors) => r.0 matches Err(LoxError::Parse(e)) && parse_error_views(e@)
                    == errors,
            },
        },
        r.0 matches Err(LoxError::Lex(e)) ==> e@.len() > 0,
        r.0 matches Err(LoxError::Parse(e)) ==> e@.len() > 0,
{
    let ghost text = source@;
    let lexer = Lexer::new(source);
    match lexer.scan_tokens() {
        Err(errors) => (Err(LoxError::Lex(errors)), first_id),
        Ok(tokens) => {
            proof {
                law_scanned_tokens_can_be_parsed(text);
            }
            let parser = Parser::starting_at(tokens, first_id);
            let (parsed, next) = parser.parse_numbered();
            assert((program_result(parsed), next) == parse_program_from(lex(text)->Ok_0, first_id));
            match parsed {
                Ok(stmts) => (Ok(stmts), next),
                Err(errors) => (Err(LoxError::Parse(errors)), next),
            }
        },
    }
}

} // verus!
