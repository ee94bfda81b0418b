use vstd::prelude::*;

use crate::grammar::parser_input;
use crate::text::{chars_equal_str, chars_of, string_of};
use crate::token::{token_views, Literal, LiteralView, Token, TokenType, TokenView};

verus! {

// ---------------------------------------------------------------------------
// The scanning rules, stated over the characters of the source.
// ---------------------------------------------------------------------------

/// An ASCII decimal digit.
pub open spec fn is_digit(c: char) -> bool {
    '0' <= c && c <= '9'
}

/// A character that may start an identifier: an ASCII letter or `_`.
pub open spec fn is_ident_start(c: char) -> bool {
    ('a' <= c && c <= 'z') || ('A' <= c && c <= 'Z') || c == '_'
}

/// A character that may continue an identifier.
pub open spec fn is_ident_char(c: char) -> bool {
    is_ident_start(c) || is_digit(c)
}

/// The first position at or after `i` that does not hold a digit.
pub open spec fn skip_digits(s: Seq<char>, i: int) -> int
    decreases s.len() - i,
{
    if 0 <= i < s.len() && is_digit(s[i]) {
        skip_digits(s, i + 1)
    } else {
        i
    }
}

/// The first position at or after `i` that does not hold an identifier character.
pub open spec fn skip_ident(s: Seq<char>, i: int) -> int
    decreases s.len() - i,
{
    if 0 <= i < s.len() && is_ident_char(s[i]) {
        skip_ident(s, i + 1)
    } else {
        i
    }
}

/// The first position at or after `i` that holds a line break, or the end.
pub open spec fn skip_line(s: Seq<char>, i: int) -> int
    decreases s.len() - i,
{
    if 0 <= i < s.len() && s[i] != '\n' {
        skip_line(s, i + 1)
    } else {
        i
    }
}

/// The end of a number that starts at `start`: digits, then optionally a `.`
/// followed by at least one digit and the digits after it.
pub open spec fn number_end(s: Seq<char>, start: int) -> int {
    let j = skip_digits(s, start + 1);
    if j + 1 < s.len() && s[j] == '.' && is_digit(s[j + 1]) {
        skip_digits(s, j + 1)
    } else {
        j
    }
}

/// Reading the body of a string from `i`: the position of the closing quote (or
/// the end of the source) and the line counter after the line breaks passed.
pub open spec fn string_body(s: Seq<char>, i: int, line: int) -> (int, int)
    decreases s.len() - i,
{
    if 0 <= i < s.len() && s[i] != '"' {
        string_body(s, i + 1, if s[i] == '\n' { line + 1 } else { line })
    } else {
        (i, line)
    }
}

/// The number of line breaks among the first `i` characters of `s`.
pub open spec fn newlines_before(s: Seq<char>, i: int) -> nat
    decreases i,
{
    if i <= 0 {
        0
    } else {
        newlines_before(s, i - 1) + if i - 1 < s.len() && s[i - 1] == '\n' {
            1nat
        } else {
            0nat
        }
    }
}

/// The number of line breaks in `s`.
pub open spec fn newline_count(s: Seq<char>) -> nat {
    newlines_before(s, s.len() as int)
}

/// Counting over a longer prefix finds at least as many line breaks.
proof fn lemma_newlines_grow(s: Seq<char>, i: int, j: int)
    requires
        i <= j,
    ensures
        newlines_before(s, i) <= newlines_before(s, j),
    decreases j - i,
{
    if i < j {
        lemma_newlines_grow(s, i, j - 1);
    }
}

/// The start of the line that contains position `pos`.
pub open spec fn line_start(s: Seq<char>, pos: int) -> int
    decreases pos,
{
    if pos <= 0 {
        0
    } else if s[pos - 1] == '\n' {
        pos
    } else {
        line_start(s, pos - 1)
    }
}

/// The number of characters of a source line that an error message shows.
pub open spec fn preview_width() -> int {
    40
}

/// The text of the line around position `pos`, cut to its first forty characters
/// with a note when it is longer.
pub open spec fn line_preview(s: Seq<char>, pos: int) -> Seq<char> {
    let line = s.subrange(line_start(s, pos), skip_line(s, pos));
    if line.len() > preview_width() {
        line.take(preview_width()) + "... (truncated)"@
    } else {
        line
    }
}

/// The keyword that `text` spells, if any.
pub open spec fn keyword_kind(text: Seq<char>) -> Option<TokenType> {
    if text == "and"@ {
        Some(TokenType::And)
    } else if text == "class"@ {
        Some(TokenType::Class)
    } else if text == "else"@ {
        Some(TokenType::Else)
    } else if text == "false"@ {
        Some(TokenType::False)
    } else if text == "for"@ {
        Some(TokenType::For)
    } else if text == "fun"@ {
        Some(TokenType::Fun)
    } else if text == "if"@ {
        Some(TokenType::If)
    } else if text == "nil"@ {
        Some(TokenType::Nil)
    } else if text == "or"@ {
        Some(TokenType::Or)
    } else if text == "print"@ {
        Some(TokenType::Print)
    } else if text == "return"@ {
        Some(TokenType::Return)
    } else if text == "super"@ {
        Some(TokenType::Super)
    } else if text == "this"@ {
        Some(TokenType::This)
    } else if text == "true"@ {
        Some(TokenType::True)
    } else if text == "var"@ {
        Some(TokenType::Var)
    } else if text == "while"@ {
        Some(TokenType::While)
    } else {
        None
    }
}

/// What went wrong while scanning.
#[derive(Clone, Copy, Debug, PartialEq, Eq, Structural)]
pub enum LexErrorKind {
    UnterminatedString,
    UnexpectedCharacter,
}

impl LexErrorKind {
    /// The text of the message that reports this kind of error.
    pub open spec fn text(self) -> Seq<char> {
        match self {
            LexErrorKind::UnterminatedString => "unterminated string"@,
            LexErrorKind::UnexpectedCharacter => "unexpected character"@,
        }
    }

    /// The message shown for this kind of error.
    pub fn message(&self) -> (r: &'static str)
        ensures
            r@ == self.text(),
    {
        match self {
            LexErrorKind::UnterminatedString => "unterminated string",
            LexErrorKind::UnexpectedCharacter => "unexpected character",
        }
    }
}

/// An error found while scanning: the line, a preview of the source line and the kind.
#[derive(Clone, Debug)]
pub struct LexError {
    pub line: u32,
    pub preview: String,
    pub kind: LexErrorKind,
}

/// The mathematical model of a [`LexError`].
pub struct LexErrorView {
    pub line: u32,
    pub preview: Seq<char>,
    pub kind: LexErrorKind,
}

impl View for LexError {
    type V = LexErrorView;

    open spec fn view(&self) -> LexErrorView {
        LexErrorView { line: self.line, preview: self.preview@, kind: self.kind }
    }
}

/// The models of a sequence of scanning errors.
pub open spec fn lex_error_views(es: Seq<LexError>) -> Seq<LexErrorView> {
    es.map_values(|e: LexError| e@)
}

/// The outcome of one scanning step: where the next step starts, the line
/// counter after it, and the token or the error that it produced, if any.
pub struct ScanStep {
    pub end: int,
    pub line: int,
    pub token: Option<TokenView>,
    pub error: Option<LexErrorView>,
}

/// A step that produces a token without a literal, reading `s[start..end]`.
pub open spec fn plain_step(s: Seq<char>, start: int, end: int, line: int, kind: TokenType) -> ScanStep {
    ScanStep {
        end,
        line,
        token: Some(TokenView { kind, lexeme: s.subrange(start, end), literal: None, line: line as u32 }),
        error: None,
    }
}

/// A step that skips `s[start..end]`.
pub open spec fn skip_step(end: int, line: int) -> ScanStep {
    ScanStep { end, line, token: None, error: None }
}

/// A one-character operator that becomes a two-character one when `=` follows.
pub open spec fn with_equal_step(
    s: Seq<char>,
    start: int,
    line: int,
    one: TokenType,
    two: TokenType,
) -> ScanStep {
    if start + 1 < s.len() && s[start + 1] == '=' {
        plain_step(s, start, start + 2, line, two)
    } else {
        plain_step(s, start, start + 1, line, one)
    }
}

/// The token kind of a character that forms a token on its own.
pub open spec fn single_char_kind(c: char) -> Option<TokenType> {
    if c == '(' {
        Some(TokenType::LeftParen)
    } else if c == ')' {
        Some(TokenType::RightParen)
    } else if c == '{' {
        Some(TokenType::LeftBrace)
    } else if c == '}' {
        Some(TokenType::RightBrace)
    } else if c == '[' {
        Some(TokenType::LeftBracket)
    } else if c == ']' {
        Some(TokenType::RightBracket)
    } else if c == ',' {
        Some(TokenType::Comma)
    } else if c == '.' {
        Some(TokenType::Dot)
    } else if c == '-' {
        Some(TokenType::Minus)
    } else if c == '+' {
        Some(TokenType::Plus)
    } else if c == ';' {
        Some(TokenType::Semicolon)
    } else if c == '*' {
        Some(TokenType::Star)
    } else {
        None
    }
}

/// One scanning step from position `start` with line counter `line`.
pub open spec fn scan_step(s: Seq<char>, start: int, line: int) -> ScanStep {
    let c = s[start];
    if single_char_kind(c) is Some {
        plain_step(s, start, start + 1, line, single_char_kind(c)->0)
    } else if c == '!' {
        with_equal_step(s, start, line, TokenType::Bang, TokenType::BangEqual)
    } else if c == '=' {
        with_equal_step(s, start, line, TokenType::Equal, TokenType::EqualEqual)
    } else if c == '<' {
        with_equal_step(s, start, line, TokenType::Less, TokenType::LessEqual)
    } else if c == '>' {
        with_equal_step(s, start, line, TokenType::Greater, TokenType::GreaterEqual)
    } else if c == '/' {
        if start + 1 < s.len() && s[start + 1] == '/' {
            skip_step(skip_line(s, start + 2), line)
        } else {
            plain_step(s, start, start + 1, line, TokenType::Slash)
        }
    } else if c == ' ' || c == '\r' || c == '\t' {
        skip_step(start + 1, line)
    } else if c == '\n' {
        skip_step(start + 1, line + 1)
    } else if c == '"' {
        let (close, l) = string_body(s, start + 1, line);
        if close >= s.len() {
            ScanStep {
                end: close,
                line: l,
                token: None,
                error: Some(
                    LexErrorView {
                        line: l as u32,
                        preview: line_preview(s, s.len() - 1),
                        kind: LexErrorKind::UnterminatedString,
                    },
                ),
            }
        } else {
            ScanStep {
                end: close + 1,
                line: l,
                token: Some(
                    TokenView {
                        kind: TokenType::String,
                        lexeme: s.subrange(start, close + 1),
                        literal: Some(LiteralView::Str(s.subrange(start + 1, close))),
                        line: l as u32,
                    },
                ),
                error: None,
            }
        }
    } else if is_digit(c) {
        let end = number_end(s, start);
        ScanStep {
            end,
            line,
            token: Some(
                TokenView {
                    kind: TokenType::Number,
                    lexeme: s.subrange(start, end),
                    literal: Some(LiteralView::Number(s.subrange(start, end))),
                    line: line as u32,
                },
            ),
            error: None,
        }
    } else if is_ident_start(c) {
        let end = skip_ident(s, start + 1);
        let kind = match keyword_kind(s.subrange(start, end)) {
            Some(k) => k,
            None => TokenType::Identifier,
        };
        plain_step(s, start, end, line, kind)
    } else {
        ScanStep {
            end: start + 1,
            line,
            token: None,
            error: Some(
                LexErrorView {
                    line: line as u32,
                    preview: line_preview(s, start + 1),
                    kind: LexErrorKind::UnexpectedCharacter,
                },
            ),
        }
    }
}

/// The sequence made of an optional element.
pub open spec fn opt_seq<A>(o: Option<A>) -> Seq<A> {
    match o {
        Some(a) => seq![a],
        None => Seq::empty(),
    }
}

/// Scanning from `pos` to the end of the source: the tokens and errors found,
/// and the final line counter.
pub open spec fn scan_from(s: Seq<char>, pos: int, line: int) -> (
    Seq<TokenView>,
    Seq<LexErrorView>,
    int,
)
    decreases s.len() - pos,
{
    if pos < 0 || pos >= s.len() {
        (Seq::empty(), Seq::empty(), line)
    } else {
        let step = scan_step(s, pos, line);
        if step.end <= pos || step.end > s.len() {
            (Seq::empty(), Seq::empty(), line)
        } else {
            let rest = scan_from(s, step.end, step.line);
            (opt_seq(step.token) + rest.0, opt_seq(step.error) + rest.1, rest.2)
        }
    }
}

/// The token that closes every token list.
pub open spec fn eof_token(line: int) -> TokenView {
    TokenView { kind: TokenType::EOF, lexeme: Seq::empty(), literal: None, line: line as u32 }
}

/// The outcome of scanning a whole source: its tokens followed by the end-of-file
/// token when no error was found, and otherwise every error, in source order.
pub open spec fn lex(s: Seq<char>) -> Result<Seq<TokenView>, Seq<LexErrorView>> {
    let (tokens, errors, line) = scan_from(s, 0, 1);
    if errors.len() == 0 {
        Ok(tokens.push(eof_token(line)))
    } else {
        Err(errors)
    }
}


/// Every number or string token that scanning produces carries its literal.
proof fn lemma_scanned_literals(s: Seq<char>, pos: int, line: int)
    ensures
        forall|i: int|
            0 <= i < scan_from(s, pos, line).0.len() && (#[trigger] scan_from(s, pos, line).0[i].kind
                == TokenType::Number || scan_from(s, pos, line).0[i].kind == TokenType::String)
                ==> scan_from(s, pos, line).0[i].literal is Some,
    decreases s.len() - pos,
{
    if 0 <= pos < s.len() {
        let step = scan_step(s, pos, line);
        if step.end > pos && step.end <= s.len() {
            lemma_scanned_literals(s, step.end, step.line);
            let rest = scan_from(s, step.end, step.line);
            assert(scan_from(s, pos, line).0 == opt_seq(step.token) + rest.0);
            match step.token {
                Some(t) => {
                    assert(t.kind == TokenType::Number || t.kind == TokenType::String ==> t.literal is Some);
                    assert forall|i: int|
                        0 <= i < scan_from(s, pos, line).0.len() implies (#[trigger] scan_from(s, pos, line).0[i]) == if i == 0 {
                            t
                        } else {
                            rest.0[i - 1]
                        } by {}
                },
                None => {},
            }
        }
    }
}

/// Whatever the scanner gives without error, the parser takes: the tokens end
/// with the end-of-file token and every number or string token carries its literal.
pub proof fn law_scanned_tokens_can_be_parsed(s: Seq<char>)
    ensures
        lex(s) matches Ok(tokens) ==> parser_input(tokens),
{
    lemma_scanned_literals(s, 0, 1);
    let (tokens, errors, line) = scan_from(s, 0, 1);
    if errors.len() == 0 {
        let all = tokens.push(eof_token(line));
        assert forall|i: int|
            0 <= i < all.len() && (#[trigger] all[i].kind == TokenType::Number || all[i].kind
                == TokenType::String) implies all[i].literal is Some by {
            if i < tokens.len() {
                assert(all[i] == tokens[i]);
            }
        }
    }
}

/// Skipping digits from `i` stops at the first position that does not hold a
/// digit: every position passed holds one.
proof fn lemma_skip_digits(s: Seq<char>, i: int)
    requires
        0 <= i <= s.len(),
    ensures
        i <= skip_digits(s, i) <= s.len(),
        forall|k: int| i <= k < skip_digits(s, i) ==> is_digit(#[trigger] s[k]),
        skip_digits(s, i) == s.len() || !is_digit(s[skip_digits(s, i)]),
    decreases s.len() - i,
{
    if i < s.len() && is_digit(s[i]) {
        lemma_skip_digits(s, i + 1);
    }
}

/// A number is read as the longest run of digits, followed by a `.` and the
/// longest run of digits after it when a digit follows the `.`. The token covers
/// exactly that text and carries it as its literal; the character after it is
/// not a digit; inside it every character is a digit except at most one `.`,
/// which has a digit on each side; and a number without a `.` is never followed
/// by a `.` and a digit.
pub proof fn law_number_is_maximal(s: Seq<char>, start: int, line: int)
    requires
        0 <= start < s.len(),
        is_digit(s[start]),
    ensures
        ({
            let step = scan_step(s, start, line);
            let end = step.end;
            &&& start < end <= s.len()
            &&& step.line == line
            &&& step.error is None
            &&& step.token == Some(
                TokenView {
                    kind: TokenType::Number,
                    lexeme: s.subrange(start, end),
                    literal: Some(LiteralView::Number(s.subrange(start, end))),
                    line: line as u32,
                },
            )
            &&& (end == s.len() || !is_digit(s[end]))
            &&& forall|k: int|
                start <= k < end ==> is_digit(#[trigger] s[k]) || (s[k] == '.' && start < k
                    && k + 1 < end && is_digit(s[k - 1]) && is_digit(s[k + 1]))
            &&& forall|k1: int, k2: int|
                start <= k1 < k2 < end && #[trigger] s[k1] == '.' ==> #[trigger] s[k2] != '.'
            &&& (forall|k: int| start <= k < end ==> #[trigger] s[k] != '.') ==> !(end + 1
                < s.len() && s[end] == '.' && is_digit(s[end + 1]))
        }),
{
    lemma_skip_digits(s, start + 1);
    let j = skip_digits(s, start + 1);
    if j + 1 < s.len() && s[j] == '.' && is_digit(s[j + 1]) {
        lemma_skip_digits(s, j + 1);
        let e = skip_digits(s, j + 1);
        assert forall|k: int|
            start <= k < e implies is_digit(#[trigger] s[k]) || (s[k] == '.' && start < k && k + 1
                < e && is_digit(s[k - 1]) && is_digit(s[k + 1])) by {
            if k > start && k < j {
                assert(is_digit(s[k]));
            }
            if k == j {
                assert(is_digit(s[j + 1]));
                if j - 1 > start {
                    assert(is_digit(s[j - 1]));
                }
            }
        }
        assert forall|k1: int, k2: int|
            start <= k1 < k2 < e && #[trigger] s[k1] == '.' implies #[trigger] s[k2] != '.' by {
            if k1 > start && k1 < j {
                assert(is_digit(s[k1]));
            }
            if k2 > j {
                assert(is_digit(s[k2]));
            }
        }
        assert(s[j] == '.');
    } else {
        assert forall|k: int| start <= k < j implies is_digit(#[trigger] s[k]) by {
            if k > start {
                assert(is_digit(s[k]));
            }
        }
    }
}

/// Skipping identifier characters from `i` stops at the first position that does
/// not hold one: every position passed holds one.
proof fn lemma_skip_ident(s: Seq<char>, i: int)
    requires
        0 <= i <= s.len(),
    ensures
        i <= skip_ident(s, i) <= s.len(),
        forall|k: int| i <= k < skip_ident(s, i) ==> is_ident_char(#[trigger] s[k]),
        skip_ident(s, i) == s.len() || !is_ident_char(s[skip_ident(s, i)]),
    decreases s.len() - i,
{
    if i < s.len() && is_ident_char(s[i]) {
        lemma_skip_ident(s, i + 1);
    }
}

/// A word is read as the longest run of letters, digits and underscores that
/// starts with a letter or underscore; it is a keyword's token when it spells
/// that keyword and an identifier otherwise, and the character after it cannot
/// continue it.
pub proof fn law_word_is_maximal(s: Seq<char>, start: int, line: int)
    requires
        0 <= start < s.len(),
        is_ident_start(s[start]),
    ensures
        ({
            let step = scan_step(s, start, line);
            let end = step.end;
            &&& start < end <= s.len()
            &&& step.line == line
            &&& step.error is None
            &&& step.token matches Some(t) && t.lexeme == s.subrange(start, end)
                && t.literal is None && t.line == line as u32 && (t.kind == TokenType::Identifier
                || keyword_kind(s.subrange(start, end)) == Some(t.kind))
            &&& (end == s.len() || !is_ident_char(s[end]))
            &&& forall|k: int| start <= k < end ==> is_ident_char(#[trigger] s[k])
        }),
{
    lemma_skip_ident(s, start + 1);
    let j = skip_ident(s, start + 1);
    assert forall|k: int| start <= k < j implies is_ident_char(#[trigger] s[k]) by {
        if k > start {
            assert(is_ident_char(s[k]));
        }
    }
}

/// Positions `i` to `j` hold no line break, so counting up to either finds as many.
proof fn lemma_no_newlines(s: Seq<char>, i: int, j: int)
    requires
        0 <= i <= j <= s.len(),
        forall|k: int| i <= k < j ==> #[trigger] s[k] != '\n',
    ensures
        newlines_before(s, j) == newlines_before(s, i),
    decreases j - i,
{
    if i < j {
        lemma_no_newlines(s, i, j - 1);
    }
}

/// Skipping to the end of a line passes no line break.
proof fn lemma_skip_line(s: Seq<char>, i: int)
    requires
        0 <= i <= s.len(),
    ensures
        i <= skip_line(s, i) <= s.len(),
        newlines_before(s, skip_line(s, i)) == newlines_before(s, i),
    decreases s.len() - i,
{
    if i < s.len() && s[i] != '\n' {
        lemma_skip_line(s, i + 1);
    }
}

/// Reading a string body counts every line break it passes.
proof fn lemma_string_body(s: Seq<char>, i: int, line: int)
    requires
        0 <= i <= s.len(),
    ensures
        i <= string_body(s, i, line).0 <= s.len(),
        string_body(s, i, line).0 == s.len() || s[string_body(s, i, line).0] == '"',
        string_body(s, i, line).1 == line + newlines_before(s, string_body(s, i, line).0)
            - newlines_before(s, i),
    decreases s.len() - i,
{
    if i < s.len() && s[i] != '"' {
        lemma_string_body(s, i + 1, if s[i] == '\n' { line + 1 } else { line });
    }
}

/// One scanning step moves forward, and its line counter goes up by exactly the
/// number of line breaks in the text it read; the token or error it gives carries
/// the line counter after the step.
pub proof fn law_step_counts_lines(s: Seq<char>, start: int, line: int)
    requires
        0 <= start < s.len(),
    ensures
        ({
            let step = scan_step(s, start, line);
            &&& start < step.end <= s.len()
            &&& step.line == line + newlines_before(s, step.end) - newlines_before(s, start)
            &&& (step.token matches Some(t) ==> t.line == step.line as u32)
            &&& (step.error matches Some(e) ==> e.line == step.line as u32)
        }),
{
    let c = s[start];
    let step = scan_step(s, start, line);
    if is_digit(c) {
        law_number_is_maximal(s, start, line);
        assert forall|k: int| start <= k < step.end implies #[trigger] s[k] != '\n' by {
            assert(is_digit(s[k]) || s[k] == '.');
        }
        lemma_no_newlines(s, start, step.end);
    } else if is_ident_start(c) {
        law_word_is_maximal(s, start, line);
        assert forall|k: int| start <= k < step.end implies #[trigger] s[k] != '\n' by {
            assert(is_ident_char(s[k]));
        }
        lemma_no_newlines(s, start, step.end);
    } else if c == '"' {
        lemma_string_body(s, start + 1, line);
        assert(newlines_before(s, start + 1) == newlines_before(s, start));
    } else if c == '/' && start + 1 < s.len() && s[start + 1] == '/' {
        lemma_skip_line(s, start + 2);
        assert(newlines_before(s, start + 1) == newlines_before(s, start));
        assert(newlines_before(s, start + 2) == newlines_before(s, start));
    } else if c == '\n' {
    } else if start + 1 < s.len() && s[start + 1] == '=' && (c == '!' || c == '=' || c == '<'
        || c == '>') {
        assert(newlines_before(s, start + 1) == newlines_before(s, start));
        assert(newlines_before(s, start + 2) == newlines_before(s, start));
    } else {
        assert(newlines_before(s, start + 1) == newlines_before(s, start));
    }
}

/// Reading a string body passes no quote.
proof fn lemma_string_body_quotes(s: Seq<char>, i: int, line: int)
    requires
        0 <= i <= s.len(),
    ensures
        forall|k: int| i <= k < string_body(s, i, line).0 ==> #[trigger] s[k] != '"',
    decreases s.len() - i,
{
    if i < s.len() && s[i] != '"' {
        lemma_string_body_quotes(s, i + 1, if s[i] == '\n' { line + 1 } else { line });
    }
}

/// A string runs from its opening quote to the first quote after it. When there
/// is one, the token's text is the whole quoted string and its literal is what
/// lies between the quotes; when there is none, the rest of the source is read
/// and the step reports an unterminated string.
pub proof fn law_string_runs_to_next_quote(s: Seq<char>, start: int, line: int)
    requires
        0 <= start < s.len(),
        s[start] == '"',
    ensures
        ({
            let step = scan_step(s, start, line);
            let end = step.end;
            &&& start < end <= s.len()
            &&& forall|k: int| start < k < end - 1 ==> #[trigger] s[k] != '"'
            &&& (step.token is Some) != (step.error is Some)
            &&& (step.token matches Some(t) ==> end >= start + 2 && s[end - 1] == '"'
                && t.kind == TokenType::String && t.lexeme == s.subrange(start, end)
                && t.literal == Some(LiteralView::Str(s.subrange(start + 1, end - 1))))
            &&& (step.error matches Some(e) ==> e.kind == LexErrorKind::UnterminatedString)
            &&& (step.error is Some ==> end == s.len() && forall|k: int|
                start < k < s.len() ==> #[trigger] s[k] != '"')
        }),
{
    lemma_string_body(s, start + 1, line);
    lemma_string_body_quotes(s, start + 1, line);
}

/// A `//` comment runs to the end of its line: the step gives no token and no
/// error, passes no line break, and stops at the line break or the end.
pub proof fn law_comment_runs_to_end_of_line(s: Seq<char>, start: int, line: int)
    requires
        0 <= start,
        start + 1 < s.len(),
        s[start] == '/',
        s[start + 1] == '/',
    ensures
        ({
            let step = scan_step(s, start, line);
            &&& step.token is None
            &&& step.error is None
            &&& step.line == line
            &&& start + 2 <= step.end <= s.len()
            &&& (step.end == s.len() || s[step.end] == '\n')
            &&& forall|k: int| start <= k < step.end ==> #[trigger] s[k] != '\n'
        }),
{
    lemma_skip_line_stops(s, start + 2);
}

/// Skipping to the end of a line passes no line break and stops at one or at the end.
proof fn lemma_skip_line_stops(s: Seq<char>, i: int)
    requires
        0 <= i <= s.len(),
    ensures
        i <= skip_line(s, i) <= s.len(),
        skip_line(s, i) == s.len() || s[skip_line(s, i)] == '\n',
        forall|k: int| i <= k < skip_line(s, i) ==> #[trigger] s[k] != '\n',
    decreases s.len() - i,
{
    if i < s.len() && s[i] != '\n' {
        lemma_skip_line_stops(s, i + 1);
    }
}

/// `!`, `=`, `<` and `>` take the `=` that follows them into one two-character
/// operator, and stand alone otherwise; the token's text is what was read.
pub proof fn law_operators_take_a_following_equal(s: Seq<char>, start: int, line: int)
    requires
        0 <= start < s.len(),
        s[start] == '!' || s[start] == '=' || s[start] == '<' || s[start] == '>',
    ensures
        ({
            let step = scan_step(s, start, line);
            let two = start + 1 < s.len() && s[start + 1] == '=';
            &&& step.end == if two {
                start + 2
            } else {
                start + 1
            }
            &&& step.error is None
            &&& step.line == line
            &&& step.token matches Some(t) && t.lexeme == s.subrange(start, step.end) && t.literal
                is None && t.kind == if s[start] == '!' {
                if two {
                    TokenType::BangEqual
                } else {
                    TokenType::Bang
                }
            } else if s[start] == '=' {
                if two {
                    TokenType::EqualEqual
                } else {
                    TokenType::Equal
                }
            } else if s[start] == '<' {
                if two {
                    TokenType::LessEqual
                } else {
                    TokenType::Less
                }
            } else if two {
                TokenType::GreaterEqual
            } else {
                TokenType::Greater
            }
        }),
{
}

/// Scanning from `pos` to the end leaves the line counter up by the number of
/// line breaks read.
proof fn lemma_scan_lines(s: Seq<char>, pos: int, line: int)
    requires
        0 <= pos <= s.len(),
    ensures
        scan_from(s, pos, line).2 == line + newline_count(s) - newlines_before(s, pos),
    decreases s.len() - pos,
{
    if pos < s.len() {
        let step = scan_step(s, pos, line);
        law_step_counts_lines(s, pos, line);
        lemma_scan_lines(s, step.end, step.line);
    }
}

/// A scan without errors ends with the end-of-file token, on the line after the
/// last line break: line 1 plus the number of line breaks in the source.
pub proof fn law_end_of_file_line(s: Seq<char>)
    ensures
        lex(s) matches Ok(tokens) ==> tokens.len() > 0 && tokens.last().kind == TokenType::EOF
            && tokens.last().lexeme.len() == 0 && tokens.last().line == (1 + newline_count(s)) as u32,
{
    lemma_scan_lines(s, 0, 1);
}

// ---------------------------------------------------------------------------
// The scanner.
// ---------------------------------------------------------------------------

/// The keyword that `keyword` spells, if any.
pub fn get_by_keyword(keyword: &[char]) -> (r: Option<TokenType>)
    ensures
        r == keyword_kind(keyword@),
{
    if chars_equal_str(keyword, "and") {
        Some(TokenType::And)
    } else if chars_equal_str(keyword, "class") {
        Some(TokenType::Class)
    } else if chars_equal_str(keyword, "else") {
        Some(TokenType::Else)
    } else if chars_equal_str(keyword, "false") {
        Some(TokenType::False)
    } else if chars_equal_str(keyword, "for") {
        Some(TokenType::For)
    } else if chars_equal_str(keyword, "fun") {
        Some(TokenType::Fun)
    } else if chars_equal_str(keyword, "if") {
        Some(TokenType::If)
    } else if chars_equal_str(keyword, "nil") {
        Some(TokenType::Nil)
    } else if chars_equal_str(keyword, "or") {
        Some(TokenType::Or)
    } else if chars_equal_str(keyword, "print") {
        Some(TokenType::Print)
    } else if chars_equal_str(keyword, "return") {
        Some(TokenType::Return)
    } else if chars_equal_str(keyword, "super") {
        Some(TokenType::Super)
    } else if chars_equal_str(keyword, "this") {
        Some(TokenType::This)
    } else if chars_equal_str(keyword, "true") {
        Some(TokenType::True)
    } else if chars_equal_str(keyword, "var") {
        Some(TokenType::Var)
    } else if chars_equal_str(keyword, "while") {
        Some(TokenType::While)
    } else {
        None
    }
}

/// The scanner: turns source text into tokens.
pub struct Lexer {
    source: Vec<char>,
    tokens: Vec<Token>,
    start: usize,
    current: usize,
    line: u32,
    errors: Vec<LexError>,
}

impl Lexer {
    /// The characters being scanned.
    pub closed spec fn source(&self) -> Seq<char> {
        self.source@
    }

    /// The scanner has not read anything yet.
    pub closed spec fn is_fresh(&self) -> bool {
        &&& self.start == 0
        &&& self.current == 0
        &&& self.line == 1
        &&& self.tokens@.len() == 0
        &&& self.errors@.len() == 0
    }

    /// The scanner's state between two steps.
    closed spec fn inv(&self) -> bool {
        &&& self.current <= self.source@.len()
        &&& newline_count(self.source@) < u32::MAX
        &&& 1 <= self.line <= 1 + newlines_before(self.source@, self.current as int)
    }

    /// Everything but the position is as in `other`.
    closed spec fn same_but_current(&self, other: &Lexer) -> bool {
        &&& self.source == other.source
        &&& self.tokens == other.tokens
        &&& self.errors == other.errors
        &&& self.start == other.start
        &&& self.line == other.line
    }

    /// A scanner for `source`.
    pub fn new(source: String) -> (r: Lexer)
        ensures
            r.source() == source@,
            r.is_fresh(),
    {
        Lexer {
            source: chars_of(&source),
            tokens: Vec::new(),
            start: 0,
            current: 0,
            line: 1,
            errors: Vec::new(),
        }
    }

    fn end(&self) -> (b: bool)
        ensures
            b == (self.current >= self.source@.len()),
    {
        self.current >= self.source.len()
    }

    fn advance(&mut self) -> (c: char)
        requires
            old(self).current < old(self).source@.len(),
        ensures
            c == old(self).source@[old(self).current as int],
            final(self).current == old(self).current + 1,
            final(self).same_but_current(old(self)),
            newlines_before(old(self).source@, final(self).current as int) == newlines_before(
                old(self).source@,
                old(self).current as int,
            ) + if c == '\n' {
                1nat
            } else {
                0nat
            },
            newlines_before(old(self).source@, final(self).current as int) <= newline_count(
                old(self).source@,
            ),
    {
        proof {
            lemma_newlines_grow(
                self.source@,
                self.current + 1,
                self.source@.len() as int,
            );
        }
        let n: usize = self.source.len();
        assert(self.current < n);
        let c = self.source[self.current];
        self.current = self.current + 1;
        c
    }

    fn add_token(&mut self, kind: TokenType, literal: Option<Literal>)
        requires
            old(self).start <= old(self).current <= old(self).source@.len(),
        ensures
            final(self).tokens@ == old(self).tokens@.push(
                Token {
                    kind,
                    lexeme: final(self).tokens@.last().lexeme,
                    literal,
                    line: old(self).line,
                },
            ),
            final(self).tokens@.last().lexeme@ == old(self).source@.subrange(
                old(self).start as int,
                old(self).current as int,
            ),
            final(self).source == old(self).source,
            final(self).errors == old(self).errors,
            final(self).start == old(self).start,
            final(self).current == old(self).current,
            final(self).line == old(self).line,
    {
        let lexeme = string_of(&self.source, self.start, self.current);
        self.tokens.push(Token { kind, lexeme, literal, line: self.line });
    }

    fn token(&mut self, kind: TokenType)
        requires
            old(self).start <= old(self).current <= old(self).source@.len(),
        ensures
            token_views(final(self).tokens@) == token_views(old(self).tokens@).push(
                TokenView {
                    kind,
                    lexeme: old(self).source@.subrange(
                        old(self).start as int,
                        old(self).current as int,
                    ),
                    literal: None,
                    line: old(self).line,
                },
            ),
            final(self).source == old(self).source,
            final(self).errors == old(self).errors,
            final(self).start == old(self).start,
            final(self).current == old(self).current,
            final(self).line == old(self).line,
    {
        self.add_token(kind, None);
        assert(token_views(self.tokens@) =~= token_views(old(self).tokens@).push(
            self.tokens@.last()@,
        ));
    }

    fn _match(&mut self, expected: char) -> (b: bool)
        ensures
            b == (old(self).current < old(self).source@.len()
                && old(self).source@[old(self).current as int] == expected),
            final(self).current == old(self).current + if b { 1int } else { 0int },
            final(self).same_but_current(old(self)),
            expected != '\n' ==> newlines_before(old(self).source@, final(self).current as int)
                == newlines_before(old(self).source@, old(self).current as int),
    {
        if self.end() {
            return false;
        }
        if self.source[self.current] != expected {
            return false;
        }
        self.advance();
        true
    }

    fn peek(&self) -> (c: char)
        ensures
            c == if self.current < self.source@.len() {
                self.source@[self.current as int]
            } else {
                '\0'
            },
    {
        if self.current < self.source.len() {
            self.source[self.current]
        } else {
            '\0'
        }
    }

    fn peek_next(&self) -> (c: char)
        requires
            self.current < self.source@.len(),
        ensures
            c == if self.current + 1 < self.source@.len() {
                self.source@[self.current + 1]
            } else {
                '\0'
            },
    {
        if self.current < self.source.len() - 1 {
            self.source[self.current + 1]
        } else {
            '\0'
        }
    }

    /// The bounds of the line that contains position `pos`.
    fn line_of(&self, pos: usize) -> (r: (usize, usize))
        requires
            pos <= self.source@.len(),
        ensures
            r.0 == line_start(self.source@, pos as int),
            r.1 == skip_line(self.source@, pos as int),
            r.0 <= pos <= r.1 <= self.source@.len(),
    {
        let mut start = pos;
        while start > 0 && self.source[start - 1] != '\n'
            invariant
                start <= pos <= self.source@.len(),
                line_start(self.source@, start as int) == line_start(self.source@, pos as int),
            decreases start,
        {
            start -= 1;
        }
        let mut end = pos;
        while end < self.source.len() && self.source[end] != '\n'
            invariant
                pos <= end <= self.source@.len(),
                skip_line(self.source@, end as int) == skip_line(self.source@, pos as int),
            decreases self.source@.len() - end,
        {
            end += 1;
        }
        (start, end)
    }

    fn line_preview(&self, pos: usize) -> (r: String)
        requires
            pos <= self.source@.len(),
        ensures
            r@ == line_preview(self.source@, pos as int),
    {
        let (start, end) = self.line_of(pos);
        if end - start > 40 {
            let mut preview = string_of(&self.source, start, start + 40);
            preview.append("... (truncated)");
            assert(self.source@.subrange(start as int, start + 40) =~= self.source@.subrange(
                start as int,
                end as int,
            ).take(40));
            preview
        } else {
            string_of(&self.source, start, end)
        }
    }

    fn string(&mut self)
        requires
            old(self).inv(),
            old(self).start < old(self).current,
            old(self).current == old(self).start + 1,
            old(self).source@[old(self).start as int] == '"',
        ensures
            final(self).inv(),
            ({
                let step = scan_step(old(self).source@, old(self).start as int, old(self).line as int);
                &&& final(self).current == step.end
                &&& final(self).line == step.line
                &&& token_views(final(self).tokens@) == token_views(old(self).tokens@) + opt_seq(
                    step.token,
                )
                &&& lex_error_views(final(self).errors@) == lex_error_views(old(self).errors@)
                    + opt_seq(step.error)
            }),
            final(self).source == old(self).source,
            final(self).start == old(self).start,
            final(self).current > old(self).start,
            final(self).line >= old(self).line,
    {
        let ghost s = self.source@;
        let ghost start = self.start as int;
        assert(string_body(s, start + 1, self.line as int) == string_body(
            s,
            self.current as int,
            self.line as int,
        ));
        while self.peek() != '"' && !self.end()
            invariant
                self.inv(),
                self.source@ == s,
                self.source == old(self).source,
                self.start == start,
                start < self.current,
                self.tokens == old(self).tokens,
                self.errors == old(self).errors,
                self.line >= old(self).line,
                string_body(s, start + 1, old(self).line as int) == string_body(
                    s,
                    self.current as int,
                    self.line as int,
                ),
            decreases s.len() - self.current,
        {
            let c = self.advance();
            if c == '\n' {
                self.line += 1;
            }
        }
        if self.end() {
            let preview = self.line_preview(self.current - 1);
            self.errors.push(
                LexError { line: self.line, preview, kind: LexErrorKind::UnterminatedString },
            );
            assert(lex_error_views(self.errors@) =~= lex_error_views(old(self).errors@).push(
                self.errors@.last()@,
            ));
            assert(token_views(self.tokens@) =~= token_views(old(self).tokens@));
            return ;
        }
        // The closing quote.

        self.advance();
        let value = string_of(&self.source, self.start + 1, self.current - 1);
        self.add_token(TokenType::String, Some(Literal::String(value)));
        assert(token_views(self.tokens@) =~= token_views(old(self).tokens@).push(
            self.tokens@.last()@,
        ));
        assert(lex_error_views(self.errors@) =~= lex_error_views(old(self).errors@));
    }

    fn number(&mut self)
        requires
            old(self).inv(),
            old(self).current == old(self).start + 1,
            is_digit(old(self).source@[old(self).start as int]),
        ensures
            final(self).inv(),
            ({
                let step = scan_step(old(self).source@, old(self).start as int, old(self).line as int);
                &&& final(self).current == step.end
                &&& final(self).line == step.line
                &&& token_views(final(self).tokens@) == token_views(old(self).tokens@) + opt_seq(
                    step.token,
                )
                &&& lex_error_views(final(self).errors@) == lex_error_views(old(self).errors@)
                    + opt_seq(step.error)
            }),
            final(self).source == old(self).source,
            final(self).start == old(self).start,
            final(self).current > old(self).start,
    {
        let ghost s = self.source@;
        while is_digit_char(self.peek())
            invariant
                self.inv(),
                self.source@ == s,
                old(self).start < self.current,
                self.same_but_current(old(self)),
                skip_digits(s, old(self).start + 1) == skip_digits(s, self.current as int),
            decreases s.len() - self.current,
        {
            self.advance();
        }
        if self.peek() == '.' && is_digit_char(self.peek_next()) {
            self.advance();
            while is_digit_char(self.peek())
                invariant
                    self.inv(),
                    self.source@ == s,
                    old(self).start < self.current,
                    self.same_but_current(old(self)),
                    skip_digits(s, skip_digits(s, old(self).start + 1) + 1) == skip_digits(
                        s,
                        self.current as int,
                    ),
                decreases s.len() - self.current,
            {
                self.advance();
            }
        }
        let text = string_of(&self.source, self.start, self.current);
        self.add_token(TokenType::Number, Some(Literal::Number(text)));
        assert(token_views(self.tokens@) =~= token_views(old(self).tokens@).push(
            self.tokens@.last()@,
        ));
        assert(lex_error_views(self.errors@) =~= lex_error_views(old(self).errors@));
    }

    fn identifier(&mut self)
        requires
            old(self).inv(),
            old(self).current == old(self).start + 1,
            is_ident_start(old(self).source@[old(self).start as int]),
        ensures
            final(self).inv(),
            ({
                let step = scan_step(old(self).source@, old(self).start as int, old(self).line as int);
                &&& final(self).current == step.end
                &&& final(self).line == step.line
                &&& token_views(final(self).tokens@) == token_views(old(self).tokens@) + opt_seq(
                    step.token,
                )
                &&& lex_error_views(final(self).errors@) == lex_error_views(old(self).errors@)
                    + opt_seq(step.error)
            }),
            final(self).source == old(self).source,
            final(self).start == old(self).start,
            final(self).current > old(self).start,
    {
        let ghost s = self.source@;
        while is_ident_char_exec(self.peek())
            invariant
                self.inv(),
                self.source@ == s,
                old(self).start < self.current,
                self.same_but_current(old(self)),
                skip_ident(s, old(self).start + 1) == skip_ident(s, self.current as int),
            decreases s.len() - self.current,
        {
            self.advance();
        }
        let text = chars_between(&self.source, self.start, self.current);
        let kind = match get_by_keyword(text.as_slice()) {
            Some(k) => k,
            None => TokenType::Identifier,
        };
        self.token(kind);
        assert(token_views(self.tokens@) =~= token_views(old(self).tokens@) + opt_seq(
            scan_step(s, old(self).start as int, old(self).line as int).token,
        ));
        assert(lex_error_views(self.errors@) =~= lex_error_views(old(self).errors@));
    }

    fn scan_token(&mut self)
        requires
            old(self).inv(),
            old(self).start == old(self).current < old(self).source@.len(),
        ensures
            final(self).inv(),
            ({
                let step = scan_step(old(self).source@, old(self).start as int, old(self).line as int);
                &&& final(self).current == step.end
                &&& final(self).line == step.line
                &&& token_views(final(self).tokens@) == token_views(old(self).tokens@) + opt_seq(
                    step.token,
                )
                &&& lex_error_views(final(self).errors@) == lex_error_views(old(self).errors@)
                    + opt_seq(step.error)
            }),
            final(self).current > old(self).current,
            final(self).line >= old(self).line,
            final(self).source == old(self).source,
    {
        let ghost s = self.source@;
        let ghost step = scan_step(s, self.start as int, self.line as int);
        let c = self.advance();
        if let Some(kind) = single_char_token(c) {
            self.token(kind);
        } else if c == '!' {
            let is_match = self._match('=');
            self.token(
                if is_match {
                    TokenType::BangEqual
                } else {
                    TokenType::Bang
                },
            );
        } else if c == '=' {
            let is_match = self._match('=');
            self.token(
                if is_match {
                    TokenType::EqualEqual
                } else {
                    TokenType::Equal
                },
            );
        } else if c == '<' {
            let is_match = self._match('=');
            self.token(
                if is_match {
                    TokenType::LessEqual
                } else {
                    TokenType::Less
                },
            );
        } else if c == '>' {
            let is_match = self._match('=');
            self.token(
                if is_match {
                    TokenType::GreaterEqual
                } else {
                    TokenType::Greater
                },
            );
        } else if c == '/' {
            if self._match('/') {
                while self.peek() != '\n' && !self.end()
                    invariant
                        self.inv(),
                        self.source@ == s,
                        old(self).start < self.current,
                        self.same_but_current(old(self)),
                        skip_line(s, old(self).start + 2) == skip_line(s, self.current as int),
                    decreases s.len() - self.current,
                {
                    self.advance();
                }
            } else {
                self.token(TokenType::Slash);
            }
        } else if c == ' ' || c == '\r' || c == '\t' {
        } else if c == '\n' {
            self.line += 1;
        } else if c == '"' {
            self.string();
            return ;
        } else if is_digit_char(c) {
            self.number();
            return ;
        } else if is_ident_start_char(c) {
            self.identifier();
            return ;
        } else {
            let preview = self.line_preview(self.current);
            self.errors.push(
                LexError { line: self.line, preview, kind: LexErrorKind::UnexpectedCharacter },
            );
            assert(lex_error_views(self.errors@) =~= lex_error_views(old(self).errors@).push(
                self.errors@.last()@,
            ));
        }
        assert(token_views(self.tokens@) =~= token_views(old(self).tokens@) + opt_seq(
            step.token,
        ));
        assert(lex_error_views(self.errors@) =~= lex_error_views(old(self).errors@) + opt_seq(
            step.error,
        ));
    }

    /// Scans the whole source. Gives every token followed by the end-of-file token
    /// when no error was found, and otherwise every error, in source order.
    pub fn scan_tokens(self) -> (r: Result<Vec<Token>, Vec<LexError>>)
        requires
            self.is_fresh(),
            newline_count(self.source()) < u32::MAX,
        ensures
            match r {
                Ok(tokens) => lex(self.source()) == Ok::<_, Seq<LexErrorView>>(
                    token_views(tokens@),
                ),
                Err(errors) => lex(self.source()) == Err::<Seq<TokenView>, _>(
                    lex_error_views(errors@),
                ),
            },
    {
        let mut lexer = self;
        lexer.scan_all();
        if lexer.errors.len() == 0 {
            Ok(lexer.tokens)
        } else {
            Err(lexer.errors)
        }
    }

    fn scan_all(&mut self)
        requires
            old(self).is_fresh(),
            newline_count(old(self).source@) < u32::MAX,
        ensures
            final(self).source == old(self).source,
            lex_error_views(final(self).errors@) == scan_from(old(self).source@, 0, 1).1,
            final(self).errors@.len() == 0 ==> lex(old(self).source@) == Ok::<_, Seq<LexErrorView>>(
                token_views(final(self).tokens@),
            ),
    {
        let ghost s = self.source@;
        assert(token_views(self.tokens@) =~= Seq::<TokenView>::empty());
        assert(lex_error_views(self.errors@) =~= Seq::<LexErrorView>::empty());
        while !self.end()
            invariant
                self.inv(),
                self.source@ == s,
                self.source == old(self).source,
                ({
                    let rest = scan_from(s, self.current as int, self.line as int);
                    scan_from(s, 0, 1) == (
                        token_views(self.tokens@) + rest.0,
                        lex_error_views(self.errors@) + rest.1,
                        rest.2,
                    )
                }),
            decreases s.len() - self.current,
        {
            self.start = self.current;
            let ghost before_tokens = token_views(self.tokens@);
            let ghost before_errors = lex_error_views(self.errors@);
            let ghost pos = self.current as int;
            let ghost line = self.line as int;
            self.scan_token();
            let ghost step = scan_step(s, pos, line);
            let ghost rest = scan_from(s, self.current as int, self.line as int);
            assert(scan_from(s, pos, line) == (
                opt_seq(step.token) + rest.0,
                opt_seq(step.error) + rest.1,
                rest.2,
            ));
            assert(before_tokens + (opt_seq(step.token) + rest.0) =~= token_views(self.tokens@)
                + rest.0);
            assert(before_errors + (opt_seq(step.error) + rest.1) =~= lex_error_views(
                self.errors@,
            ) + rest.1);
        }
        let ghost rest = scan_from(s, self.current as int, self.line as int);
        assert(rest.0 =~= Seq::<TokenView>::empty());
        assert(token_views(self.tokens@) + rest.0 =~= token_views(self.tokens@));
        assert(lex_error_views(self.errors@) + rest.1 =~= lex_error_views(self.errors@));
        let line = self.line;
        self.tokens.push(Token { kind: TokenType::EOF, lexeme: String::new(), literal: None, line });
        assert(token_views(self.tokens@) =~= scan_from(s, 0, 1).0.push(eof_token(rest.2)));
    }
}

/// The token kind of a character that forms a token on its own.
fn single_char_token(c: char) -> (r: Option<TokenType>)
    ensures
        r == single_char_kind(c),
{
    match c {
        '(' => Some(TokenType::LeftParen),
        ')' => Some(TokenType::RightParen),
        '{' => Some(TokenType::LeftBrace),
        '}' => Some(TokenType::RightBrace),
        '[' => Some(TokenType::LeftBracket),
        ']' => Some(TokenType::RightBracket),
        ',' => Some(TokenType::Comma),
        '.' => Some(TokenType::Dot),
        '-' => Some(TokenType::Minus),
        '+' => Some(TokenType::Plus),
        ';' => Some(TokenType::Semicolon),
        '*' => Some(TokenType::Star),
        _ => None,
    }
}

fn is_digit_char(c: char) -> (b: bool)
    ensures
        b == is_digit(c),
{
    '0' <= c && c <= '9'
}

fn is_ident_start_char(c: char) -> (b: bool)
    ensures
        b == is_ident_start(c),
{
    ('a' <= c && c <= 'z') || ('A' <= c && c <= 'Z') || c == '_'
}

fn is_ident_char_exec(c: char) -> (b: bool)
    ensures
        b == is_ident_char(c),
{
    is_ident_start_char(c) || is_digit_char(c)
}

/// The characters `chars[from..to]`.
fn chars_between(chars: &Vec<char>, from: usize, to: usize) -> (r: Vec<char>)
    requires
        from <= to <= chars@.len(),
    ensures
        r@ == chars@.subrange(from as int, to as int),
{
    let mut r: Vec<char> = Vec::new();
    let mut i = from;
    while i < to
        invariant
            from <= i <= to <= chars@.len(),
            r@ == chars@.subrange(from as int, i as int),
        decreases to - i,
    {
        r.push(chars[i]);
        i += 1;
        assert(r@ =~= chars@.subrange(from as int, i as int));
    }
    r
}

} // verus!
