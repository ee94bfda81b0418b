//! The text of the error reports: where an error was found and what went wrong.
use vstd::prelude::*;

use crate::text::{decimal, push_decimal, push_text};

verus! {

/// The report of a scanning error on line `line`, whose text is `line_src`.
pub open spec fn lexer_report(line: u32, line_src: Seq<char>, message: Seq<char>) -> Seq<char> {
    "Lexer Error: "@ + message + "\n\t"@ + decimal(line as nat) + " | "@ + line_src
}

/// The report of a parse error at the token `lexeme` on line `line`.
pub open spec fn parser_report(line: u32, lexeme: Seq<char>, message: Seq<char>) -> Seq<char> {
    "Parser Error: "@ + message + "\n\t"@ + decimal(line as nat) + " | "@ + lexeme
}

/// The report of an error raised while running.
pub open spec fn runtime_report(message: Seq<char>) -> Seq<char> {
    "Runtime Error: "@ + message
}

/// The report of a scanning error: the message, then the line number and its text.
pub fn lexer_error_text(line: u32, line_src: &str, message: &str) -> (s: String)
    ensures
        s@ == lexer_report(line, line_src@, message@),
{
    let mut s = String::from_str("Lexer Error: ");
    push_text(&mut s, message);
    push_text(&mut s, "\n\t");
    push_decimal(&mut s, line as usize);
    push_text(&mut s, " | ");
    push_text(&mut s, line_src);
    s
}

/// The report of a parse error: the message, then the line number and the token.
pub fn parse_error_text(line: u32, lexeme: &str, message: &str) -> (s: String)
    ensures
        s@ == parser_report(line, lexeme@, message@),
{
    let mut s = String::from_str("Parser Error: ");
    push_text(&mut s, message);
    push_text(&mut s, "\n\t");
    push_decimal(&mut s, line as usize);
    push_text(&mut s, " | ");
    push_text(&mut s, lexeme);
    s
}

/// The report of an error raised while running.
pub fn runtime_error_text(message: &str) -> (s: String)
    ensures
        s@ == runtime_report(message@),
{
    let mut s = String::from_str("Runtime Error: ");
    push_text(&mut s, message);
    s
}

} // verus!
