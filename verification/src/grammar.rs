use crate::err_report::{diagnostic_of, DiagnosticView, ErrorKindView};
use crate::token::{TokenType, TokenView};
use vstd::prelude::*;

verus! {

/// ASCII decimal digit.
pub open spec fn is_digit(c: char) -> bool {
    '0' <= c && c <= '9'
}

/// ASCII letter or underscore.
pub open spec fn is_alpha(c: char) -> bool {
    ('a' <= c && c <= 'z') || ('A' <= c && c <= 'Z') || c == '_'
}

/// A character that may continue an identifier.
pub open spec fn is_alphanumeric(c: char) -> bool {
    is_alpha(c) || is_digit(c)
}

/// The character at `i`, or the sentinel NUL where `i` is outside the source.
pub open spec fn char_at(s: Seq<char>, i: int) -> char {
    if 0 <= i < s.len() {
        s[i]
    } else {
        '\0'
    }
}

/// The classes of characters that the scanner consumes in runs.
pub enum CharClass {
    /// Decimal digits: the parts of a number.
    Digit,
    /// Letters, digits and underscore: the body of an identifier.
    Word,
    /// Everything but a newline: the body of a line comment.
    NotNewline,
    /// Everything but a double quote: the body of a string.
    NotQuote,
}

impl CharClass {
    pub open spec fn holds(self, c: char) -> bool {
        match self {
            CharClass::Digit => is_digit(c),
            CharClass::Word => is_alphanumeric(c),
            CharClass::NotNewline => c != '\n',
            CharClass::NotQuote => c != '"',
        }
    }
}

/// Where the longest run of characters of `class` that starts at `i` ends.
pub open spec fn run_end(s: Seq<char>, i: int, class: CharClass) -> int
    decreases s.len() - i,
{
    if 0 <= i < s.len() && class.holds(s[i]) {
        run_end(s, i + 1, class)
    } else {
        i
    }
}

/// Number of newline characters in `s[from..to)`.
pub open spec fn newlines(s: Seq<char>, from: int, to: int) -> nat
    decreases to - from,
{
    if to <= from {
        0
    } else {
        newlines(s, from, to - 1) + if char_at(s, to - 1) == '\n' {
            1nat
        } else {
            0nat
        }
    }
}

/// Where a block comment ends, and whether it was closed.
pub struct CommentEnd {
    pub pos: int,
    pub closed: bool,
}

/// Scans the inside of a block comment from `i` with `depth` comments open
/// (`depth >= 1`). An opening pair adds a level and a closing pair removes
/// one; the comment ends behind the closing pair that removes the last level,
/// or at the end of input, unclosed.
pub open spec fn comment_end(s: Seq<char>, i: int, depth: nat) -> CommentEnd
    decreases s.len() - i,
{
    if i < 0 || i >= s.len() {
        CommentEnd { pos: s.len() as int, closed: false }
    } else if s[i] == '*' && char_at(s, i + 1) == '/' {
        if depth <= 1 {
            CommentEnd { pos: i + 2, closed: true }
        } else {
            comment_end(s, i + 2, (depth - 1) as nat)
        }
    } else if s[i] == '/' && char_at(s, i + 1) == '*' {
        comment_end(s, i + 2, depth + 1)
    } else {
        comment_end(s, i + 1, depth)
    }
}

/// The kind of a character that is a token by itself.
pub open spec fn single_kind(c: char) -> Option<TokenType> {
    if c == '(' {
        Some(TokenType::LeftParen)
    } else if c == ')' {
        Some(TokenType::RightParen)
    } else if c == '{' {
        Some(TokenType::LeftBrace)
    } else if c == '}' {
        Some(TokenType::RightBrace)
    } else if c == ',' {
        Some(TokenType::Comma)
    } else if c == '.' {
        Some(TokenType::Dot)
    } else if c == '-' {
        Some(TokenType::Minus)
    } else if c == '+' {
        Some(TokenType::Plus)
    } else if c == ';' {
        Some(TokenType::Semicolon)
    } else if c == '*' {
        Some(TokenType::Star)
    } else if c == '%' {
        Some(TokenType::Mod)
    } else {
        None
    }
}

/// The kind of an operator that starts with `c`, alone (`with_equal` false)
/// or followed by `=`.
pub open spec fn operator_kind(c: char, with_equal: bool) -> Option<TokenType> {
    if c == '!' {
        Some(if with_equal { TokenType::BangEqual } else { TokenType::Bang })
    } else if c == '=' {
        Some(if with_equal { TokenType::EqualEqual } else { TokenType::Equal })
    } else if c == '<' {
        Some(if with_equal { TokenType::LessEqual } else { TokenType::Less })
    } else if c == '>' {
        Some(if with_equal { TokenType::GreaterEqual } else { TokenType::Greater })
    } else {
        None
    }
}

/// Space, carriage return, tab and newline produce no token.
pub open spec fn is_blank(c: char) -> bool {
    c == ' ' || c == '\r' || c == '\t' || c == '\n'
}

/// The reserved word that `text` spells, if it spells one.
pub open spec fn keyword_kind(text: Seq<char>) -> Option<TokenType> {
    if exists|k: TokenType| k.keyword_text() == Some(text) {
        Some(choose|k: TokenType| k.keyword_text() == Some(text))
    } else {
        None
    }
}

/// The kind of an identifier-shaped word: its reserved word, else `Identifier`.
pub open spec fn word_kind(text: Seq<char>) -> TokenType {
    match keyword_kind(text) {
        Some(k) => k,
        None => TokenType::Identifier,
    }
}

/// Where the number that starts at `pos` ends: behind its digits, and behind
/// a fraction where a dot and at least one digit follow them.
pub open spec fn number_end(s: Seq<char>, pos: int) -> int {
    let whole = run_end(s, pos, CharClass::Digit);
    if char_at(s, whole) == '.' && is_digit(char_at(s, whole + 1)) {
        run_end(s, whole + 1, CharClass::Digit)
    } else {
        whole
    }
}

/// The line reached at `to` when `line` was the line at `from`.
pub open spec fn line_after(s: Seq<char>, from: int, to: int, line: nat) -> nat {
    line + newlines(s, from, to)
}

/// What one scan step does: where it stops, and what it emits.
pub struct Step {
    /// Index of the first character that the step leaves unread.
    pub next: int,
    /// The token emitted, if any (at most one).
    pub tokens: Seq<TokenView>,
    /// The diagnostic raised, if any (at most one).
    pub diagnostics: Seq<DiagnosticView>,
}

/// A step that consumes `s[pos..next)` and emits nothing.
pub open spec fn skip_to(next: int) -> Step {
    Step { next, tokens: Seq::empty(), diagnostics: Seq::empty() }
}

/// A step that consumes `s[pos..next)` and emits it as a token of `kind`.
pub open spec fn emit(s: Seq<char>, pos: int, next: int, kind: TokenType, line: nat) -> Step {
    Step {
        next,
        tokens: seq![TokenView { kind, lexeme: s.subrange(pos, next), line }],
        diagnostics: Seq::empty(),
    }
}

/// A step that consumes up to `next` and raises `kind` on the line reached there.
pub open spec fn fail(s: Seq<char>, pos: int, next: int, kind: ErrorKindView, line: nat) -> Step {
    Step {
        next,
        tokens: Seq::empty(),
        diagnostics: seq![diagnostic_of(line_after(s, pos, next, line), kind)],
    }
}

/// The step at a slash: a line comment, a block comment, or the slash token.
pub open spec fn slash_step(s: Seq<char>, pos: int, line: nat) -> Step {
    if char_at(s, pos + 1) == '/' {
        skip_to(run_end(s, pos + 2, CharClass::NotNewline))
    } else if char_at(s, pos + 1) == '*' {
        let end = comment_end(s, pos + 2, 1);
        if end.closed {
            skip_to(end.pos)
        } else {
            fail(s, pos, end.pos, ErrorKindView::UnterminatedComment, line)
        }
    } else {
        emit(s, pos, pos + 1, TokenType::Slash, line)
    }
}

/// The step at an opening quote: the string up to the next quote, whose
/// lexeme is the text between the two, or an error where no quote follows.
pub open spec fn string_step(s: Seq<char>, pos: int, line: nat) -> Step {
    let close = run_end(s, pos + 1, CharClass::NotQuote);
    if close < s.len() {
        Step {
            next: close + 1,
            tokens: seq![
                TokenView { kind: TokenType::Str, lexeme: s.subrange(pos + 1, close), line },
            ],
            diagnostics: Seq::empty(),
        }
    } else {
        fail(
            s,
            pos,
            s.len() as int,
            ErrorKindView::UnterminatedString(s.subrange(pos, s.len() as int)),
            line,
        )
    }
}

/// One scan step at `pos` (`0 <= pos < s.len()`), with `line` the line of `pos`.
pub open spec fn scan_step(s: Seq<char>, pos: int, line: nat) -> Step {
    let c = s[pos];
    if single_kind(c) is Some {
        emit(s, pos, pos + 1, single_kind(c)->0, line)
    } else if operator_kind(c, false) is Some {
        if char_at(s, pos + 1) == '=' {
            emit(s, pos, pos + 2, operator_kind(c, true)->0, line)
        } else {
            emit(s, pos, pos + 1, operator_kind(c, false)->0, line)
        }
    } else if c == '/' {
        slash_step(s, pos, line)
    } else if is_blank(c) {
        skip_to(pos + 1)
    } else if c == '"' {
        string_step(s, pos, line)
    } else if is_digit(c) {
        emit(s, pos, number_end(s, pos), TokenType::Number, line)
    } else if is_alpha(c) {
        let end = run_end(s, pos, CharClass::Word);
        emit(s, pos, end, word_kind(s.subrange(pos, end)), line)
    } else {
        fail(s, pos, pos + 1, ErrorKindView::UnexpectedCharacter(c), line)
    }
}

/// The outcome of a pass: the tokens in source order, and the diagnostics in
/// the order in which they were raised.
pub struct Scan {
    pub tokens: Seq<TokenView>,
    pub diagnostics: Seq<DiagnosticView>,
}

/// The end-of-input token on `line`.
pub open spec fn eof_token(line: nat) -> TokenView {
    TokenView { kind: TokenType::EOF, lexeme: Seq::empty(), line }
}

/// The pass over `s` from `pos` on, with `line` the line of `pos`: one step
/// after another until the end of input, then the end-of-input token.
pub open spec fn scan_from(s: Seq<char>, pos: int, line: nat) -> Scan
    decreases s.len() - pos,
    via scan_from_decreases
{
    if pos < 0 || pos >= s.len() {
        Scan { tokens: seq![eof_token(line)], diagnostics: Seq::empty() }
    } else {
        let step = scan_step(s, pos, line);
        let rest = scan_from(s, step.next, line_after(s, pos, step.next, line));
        Scan {
            tokens: step.tokens + rest.tokens,
            diagnostics: step.diagnostics + rest.diagnostics,
        }
    }
}

#[via_fn]
proof fn scan_from_decreases(s: Seq<char>, pos: int, line: nat) {
    if 0 <= pos < s.len() {
        lemma_step_advances(s, pos, line);
    }
}

/// The pass over a whole source text.
pub open spec fn scan(s: Seq<char>) -> Scan {
    scan_from(s, 0, 1)
}

/// A run ends inside the source, holds only characters of its class, and
/// cannot be extended: it is the longest one.
pub proof fn lemma_run_end(s: Seq<char>, i: int, class: CharClass)
    requires
        0 <= i <= s.len(),
    ensures
        i <= run_end(s, i, class) <= s.len(),
        forall|k: int| i <= k < run_end(s, i, class) ==> class.holds(#[trigger] s[k]),
        !class.holds(char_at(s, run_end(s, i, class))) || run_end(s, i, class) == s.len(),
    decreases s.len() - i,
{
    if i < s.len() && class.holds(s[i]) {
        lemma_run_end(s, i + 1, class);
    }
}

/// A block comment ends behind where it began and inside the source; an
/// unclosed one ends at the end of input.
pub proof fn lemma_comment_end(s: Seq<char>, i: int, depth: nat)
    requires
        0 <= i <= s.len(),
    ensures
        i <= comment_end(s, i, depth).pos <= s.len(),
        !comment_end(s, i, depth).closed ==> comment_end(s, i, depth).pos == s.len(),
    decreases s.len() - i,
{
    if i < s.len() {
        if s[i] == '*' && char_at(s, i + 1) == '/' {
            if depth > 1 {
                lemma_comment_end(s, i + 2, (depth - 1) as nat);
            }
        } else if s[i] == '/' && char_at(s, i + 1) == '*' {
            lemma_comment_end(s, i + 2, depth + 1);
        } else {
            lemma_comment_end(s, i + 1, depth);
        }
    }
}

/// A number ends behind its first digit and inside the source.
pub proof fn lemma_number_end(s: Seq<char>, pos: int)
    requires
        0 <= pos < s.len(),
        is_digit(s[pos]),
    ensures
        pos < number_end(s, pos) <= s.len(),
{
    lemma_run_end(s, pos, CharClass::Digit);
    let whole = run_end(s, pos, CharClass::Digit);
    if char_at(s, whole) == '.' && is_digit(char_at(s, whole + 1)) {
        lemma_run_end(s, whole + 1, CharClass::Digit);
    }
}

/// Every step consumes at least one character and stays inside the source.
pub proof fn lemma_step_advances(s: Seq<char>, pos: int, line: nat)
    requires
        0 <= pos < s.len(),
    ensures
        pos < scan_step(s, pos, line).next <= s.len(),
{
    let c = s[pos];
    if c == '/' {
        if char_at(s, pos + 1) == '/' {
            lemma_run_end(s, pos + 2, CharClass::NotNewline);
        } else if char_at(s, pos + 1) == '*' {
            lemma_comment_end(s, pos + 2, 1);
        }
    } else if c == '"' {
        lemma_run_end(s, pos + 1, CharClass::NotQuote);
    } else if is_digit(c) {
        lemma_number_end(s, pos);
    } else if is_alpha(c) {
        lemma_run_end(s, pos, CharClass::Word);
    }
}

/// The first two characters of a reserved word.
pub open spec fn keyword_initials(kind: TokenType) -> (char, char) {
    match kind {
        TokenType::And => ('a', 'n'),
        TokenType::Assert => ('a', 's'),
        TokenType::Class => ('c', 'l'),
        TokenType::Else => ('e', 'l'),
        TokenType::False => ('f', 'a'),
        TokenType::Fun => ('f', 'u'),
        TokenType::For => ('f', 'o'),
        TokenType::If => ('i', 'f'),
        TokenType::Nil => ('n', 'i'),
        TokenType::Or => ('o', 'r'),
        TokenType::Print => ('p', 'r'),
        TokenType::Return => ('r', 'e'),
        TokenType::Super => ('s', 'u'),
        TokenType::This => ('t', 'h'),
        TokenType::True => ('t', 'r'),
        TokenType::Var => ('v', 'a'),
        TokenType::While => ('w', 'h'),
        _ => ('\0', '\0'),
    }
}

/// Every reserved word has at least two characters, and begins as `keyword_initials` says.
pub proof fn lemma_keyword_initials(kind: TokenType)
    requires
        kind.is_keyword(),
    ensures
        kind.text().len() >= 2,
        (kind.text()[0], kind.text()[1]) == keyword_initials(kind),
{
    reveal_strlit("and");
    reveal_strlit("assert");
    reveal_strlit("class");
    reveal_strlit("else");
    reveal_strlit("false");
    reveal_strlit("fun");
    reveal_strlit("for");
    reveal_strlit("if");
    reveal_strlit("nil");
    reveal_strlit("or");
    reveal_strlit("print");
    reveal_strlit("return");
    reveal_strlit("super");
    reveal_strlit("this");
    reveal_strlit("true");
    reveal_strlit("var");
    reveal_strlit("while");
}

/// No two reserved words are spelled alike.
pub proof fn lemma_keyword_texts_distinct(a: TokenType, b: TokenType)
    requires
        a.is_keyword(),
        b.is_keyword(),
        a.text() == b.text(),
    ensures
        a == b,
{
    lemma_keyword_initials(a);
    lemma_keyword_initials(b);
}

/// A text is classified as a reserved word exactly when it is that word's spelling.
pub proof fn lemma_keyword_kind(text: Seq<char>, kind: TokenType)
    ensures
        keyword_kind(text) == Some(kind) <==> kind.keyword_text() == Some(text),
{
    if exists|k: TokenType| k.keyword_text() == Some(text) {
        let chosen = choose|k: TokenType| k.keyword_text() == Some(text);
        if kind.keyword_text() == Some(text) {
            lemma_keyword_texts_distinct(chosen, kind);
        }
    }
}

} // verus!
