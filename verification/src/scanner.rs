use crate::err_report::{
    diagnostic_of, diagnostic_views, error, Diagnostic, DiagnosticView, ErrorKind, ErrorKindView,
    InterpreterError,
};
use crate::grammar::{
    char_at, comment_end, eof_token, keyword_kind, lemma_keyword_texts_distinct,
    lemma_step_advances, line_after, newlines, number_end, run_end, scan, scan_from, scan_step,
    word_kind, CharClass, Scan,
};
use crate::laws::{ends_with_single_eof, lemma_newlines_split, lemma_single_eof};
use crate::text::{chars_of, string_of};
use crate::token::{
    keyword_table, keyword_table_ok, table_has, token_views, Token, TokenType, TokenView,
};
use vstd::prelude::*;
use vstd::string::*;

verus! {

/// The scanner: a cursor over one source text, the tokens emitted and the
/// diagnostics raised so far, and the table of reserved words.
#[derive(Clone, Debug)]
pub struct Scanner {
    src: Vec<char>,
    tokens: Vec<Token>,
    diagnostics: Vec<Diagnostic>,
    start: usize,
    start_line: usize,
    current: usize,
    line: usize,
    keywords: Vec<(String, TokenType)>,
}

impl Scanner {
    /// The source text, as characters.
    pub closed spec fn source(&self) -> Seq<char> {
        self.src@
    }

    /// Index of the first character of the token under construction.
    pub closed spec fn token_start(&self) -> int {
        self.start as int
    }

    /// The line on which the token under construction starts.
    pub closed spec fn start_line(&self) -> nat {
        self.start_line as nat
    }

    /// Index of the next unread character.
    pub closed spec fn position(&self) -> int {
        self.current as int
    }

    /// The current 1-based line.
    pub closed spec fn line_number(&self) -> nat {
        self.line as nat
    }

    /// The tokens emitted so far.
    pub closed spec fn emitted(&self) -> Seq<TokenView> {
        token_views(self.tokens@)
    }

    /// The diagnostics raised so far.
    pub closed spec fn raised(&self) -> Seq<DiagnosticView> {
        diagnostic_views(self.diagnostics@)
    }

    /// The scanner's invariant: the cursor lies inside the source, with the
    /// token start not behind the read position; the line counter is 1 plus
    /// the number of newlines read, and the line of the token start is 1 plus
    /// the number of newlines before it; the table of reserved words is
    /// complete.
    pub closed spec fn wf(&self) -> bool {
        &&& self.src@.len() < usize::MAX
        &&& self.start <= self.current <= self.src@.len()
        &&& 1 <= self.line <= self.current + 1
        &&& self.line == 1 + newlines(self.src@, 0, self.current as int)
        &&& self.start_line == 1 + newlines(self.src@, 0, self.start as int)
        &&& keyword_table_ok(self.keywords@)
    }

    /// The invariant as a caller sees it.
    pub proof fn lemma_wf(&self)
        requires
            self.wf(),
        ensures
            0 <= self.token_start() <= self.position() <= self.source().len() < usize::MAX,
            self.line_number() == 1 + newlines(self.source(), 0, self.position()),
            self.start_line() == 1 + newlines(self.source(), 0, self.token_start()),
            self.line_number() == self.start_line() + newlines(
                self.source(),
                self.token_start(),
                self.position(),
            ),
    {
        lemma_newlines_split(self.source(), 0, self.token_start(), self.position());
    }

    /// The state before a pass over `src`: well formed, at the start of the
    /// text on line 1, with nothing emitted and nothing raised.
    pub open spec fn fresh(&self, src: Seq<char>) -> bool {
        &&& self.wf()
        &&& self.source() == src
        &&& self.token_start() == 0
        &&& self.position() == 0
        &&& self.start_line() == 1
        &&& self.line_number() == 1
        &&& self.emitted() == Seq::<TokenView>::empty()
        &&& self.raised() == Seq::<DiagnosticView>::empty()
    }

    /// `self` is `before` with the read position moved to `position`: the
    /// source and the token start are as they were, and the line counter
    /// has counted the newlines before `position`.
    pub open spec fn moved(&self, before: &Scanner, position: int) -> bool {
        &&& self.wf()
        &&& self.source() == before.source()
        &&& self.token_start() == before.token_start()
        &&& self.start_line() == before.start_line()
        &&& self.position() == position
        &&& self.line_number() == 1 + newlines(self.source(), 0, position)
    }

    /// Between two positions the line counter grows by the newlines passed.
    pub proof fn lemma_moved(&self, before: &Scanner)
        requires
            self.wf(),
            before.wf(),
            self.source() == before.source(),
            before.position() <= self.position(),
        ensures
            self.line_number() == line_after(
                before.source(),
                before.position(),
                self.position(),
                before.line_number(),
            ),
    {
        lemma_newlines_split(self.source(), 0, before.position(), self.position());
    }

    /// A scanner at the start of `src`, on line 1, with nothing emitted.
    pub fn new(src: String) -> (r: Self)
        requires
            src@.len() < usize::MAX,
        ensures
            r.fresh(src@),
    {
        Self::over(chars_of(src.as_str()))
    }

    /// A scanner at the start of `src`, unless the text is too long for the
    /// line counter: `None` exactly where `src` has `usize::MAX` characters.
    pub fn try_new(src: String) -> (r: Option<Self>)
        ensures
            r is Some <==> src@.len() < usize::MAX,
            r is Some ==> r->0.fresh(src@),
    {
        let chars = chars_of(src.as_str());
        if chars.len() < usize::MAX {
            Some(Self::over(chars))
        } else {
            None
        }
    }

    /// A scanner at the start of the given characters, with a table of
    /// reserved words of its own.
    fn over(src: Vec<char>) -> (r: Self)
        requires
            src@.len() < usize::MAX,
        ensures
            r.fresh(src@),
    {
        let keywords = keyword_table();
        let r = Self {
            src,
            tokens: Vec::new(),
            diagnostics: Vec::new(),
            start: 0,
            start_line: 1,
            current: 0,
            line: 1,
            keywords,
        };
        assert(r.emitted() =~= Seq::<TokenView>::empty());
        assert(r.raised() =~= Seq::<DiagnosticView>::empty());
        r
    }

    /// Whether every character has been read.
    pub fn at_end(&self) -> (b: bool)
        requires
            self.wf(),
        ensures
            b == (self.position() >= self.source().len()),
    {
        self.current >= self.src.len()
    }

    /// The next unread character, NUL at the end of input. Consumes nothing.
    pub fn peek(&self) -> (c: char)
        requires
            self.wf(),
        ensures
            c == char_at(self.source(), self.position()),
    {
        if self.current < self.src.len() {
            self.src[self.current]
        } else {
            '\0'
        }
    }

    /// The character behind the next one, NUL where there is none.
    pub fn peek2(&self) -> (c: char)
        requires
            self.wf(),
        ensures
            c == char_at(self.source(), self.position() + 1),
    {
        if self.current + 1 < self.src.len() {
            self.src[self.current + 1]
        } else {
            '\0'
        }
    }

    /// Returns the next unread character and moves behind it; a newline
    /// read advances the line counter. At the end of input it returns NUL
    /// and stays where it is.
    pub fn eat(&mut self) -> (c: char)
        requires
            old(self).wf(),
        ensures
            c == char_at(old(self).source(), old(self).position()),
            final(self).moved(
                old(self),
                if old(self).position() < old(self).source().len() {
                    old(self).position() + 1
                } else {
                    old(self).position()
                },
            ),
            final(self).emitted() == old(self).emitted(),
            final(self).raised() == old(self).raised(),
    {
        let c = self.peek();
        if self.current < self.src.len() {
            self.current += 1;
            if c == '\n' {
                self.line += 1;
            }
        }
        c
    }

    /// Consumes the next character if it is `expected`, and says whether it
    /// did; a newline consumed advances the line counter.
    pub fn next_is(&mut self, expected: char) -> (b: bool)
        requires
            old(self).wf(),
        ensures
            b == (old(self).position() < old(self).source().len() && old(self).source()[old(
                self,
            ).position()] == expected),
            final(self).moved(
                old(self),
                if b {
                    old(self).position() + 1
                } else {
                    old(self).position()
                },
            ),
            final(self).emitted() == old(self).emitted(),
            final(self).raised() == old(self).raised(),
    {
        if self.at_end() || self.peek() != expected {
            return false;
        }
        self.current += 1;
        if expected == '\n' {
            self.line += 1;
        }
        true
    }

    /// Letter, digit or underscore (ASCII only).
    pub fn is_alphanumeric(&self, c: char) -> (b: bool)
        ensures
            b == crate::grammar::is_alphanumeric(c),
    {
        self.is_alpha(c) || self.is_digit(c)
    }

    /// Decimal digit (ASCII only).
    pub fn is_digit(&self, c: char) -> (b: bool)
        ensures
            b == crate::grammar::is_digit(c),
    {
        '0' <= c && c <= '9'
    }

    /// Letter or underscore (ASCII only).
    pub fn is_alpha(&self, c: char) -> (b: bool)
        ensures
            b == crate::grammar::is_alpha(c),
    {
        ('a' <= c && c <= 'z') || ('A' <= c && c <= 'Z') || c == '_'
    }

    /// Appends a token of kind `tt` with the given text, on the line where
    /// the token under construction started.
    fn push_token(&mut self, tt: TokenType, lexeme: String)
        requires
            old(self).wf(),
        ensures
            final(self).moved(old(self), old(self).position()),
            final(self).emitted() == old(self).emitted().push(
                TokenView { kind: tt, lexeme: lexeme@, line: old(self).start_line() },
            ),
            final(self).raised() == old(self).raised(),
    {
        let ghost before = self.tokens@;
        let token = Token::new(tt, lexeme).at_line(self.start_line);
        self.tokens.push(token);
        assert(token_views(self.tokens@) =~= token_views(before).push(token@));
    }

    /// Emits the text from the token start to the read position as a token of kind `tt`.
    fn add_token(&mut self, tt: TokenType)
        requires
            old(self).wf(),
        ensures
            final(self).moved(old(self), old(self).position()),
            final(self).emitted() == old(self).emitted().push(
                TokenView {
                    kind: tt,
                    lexeme: old(self).source().subrange(
                        old(self).token_start(),
                        old(self).position(),
                    ),
                    line: old(self).start_line(),
                },
            ),
            final(self).raised() == old(self).raised(),
    {
        let lexeme = string_of(&self.src, self.start, self.current);
        self.push_token(tt, lexeme);
    }

    /// Records `e` as a diagnostic on the current line.
    fn error(&mut self, e: InterpreterError)
        requires
            old(self).wf(),
        ensures
            final(self).moved(old(self), old(self).position()),
            final(self).emitted() == old(self).emitted(),
            final(self).raised() == old(self).raised().push(
                DiagnosticView { line: old(self).line_number(), error: e@ },
            ),
    {
        let ghost before = self.diagnostics@;
        let d = error(self.line, e);
        self.diagnostics.push(d);
        assert(diagnostic_views(self.diagnostics@) =~= diagnostic_views(before).push(d@));
    }

    /// The reserved word that `text` spells, if any.
    fn keyword_of(&self, text: &String) -> (r: Option<TokenType>)
        requires
            self.wf(),
        ensures
            r == keyword_kind(text@),
    {
        let mut j: usize = 0;
        while j < self.keywords.len()
            invariant
                self.wf(),
                0 <= j <= self.keywords@.len(),
                forall|k: int| 0 <= k < j ==> (#[trigger] self.keywords@[k]).0@ != text@,
            decreases self.keywords@.len() - j,
        {
            if self.keywords[j].0 == *text {
                let kind = self.keywords[j].1;
                proof {
                    assert(kind.keyword_text() == Some(text@));
                    let chosen = choose|k: TokenType| k.keyword_text() == Some(text@);
                    lemma_keyword_texts_distinct(chosen, kind);
                }
                return Some(kind);
            }
            j += 1;
        }
        proof {
            assert forall|k: TokenType| k.keyword_text() != Some(text@) by {
                if k.is_keyword() {
                    assert(table_has(self.keywords@, k));
                }
            }
        }
        None
    }

    /// Scans the rest of a number whose first digit has been read.
    fn number(&mut self)
        requires
            old(self).wf(),
        ensures
            final(self).moved(old(self), number_end(old(self).source(), old(self).position())),
            final(self).emitted() == old(self).emitted().push(
                TokenView {
                    kind: TokenType::Number,
                    lexeme: old(self).source().subrange(
                        old(self).token_start(),
                        final(self).position(),
                    ),
                    line: old(self).start_line(),
                },
            ),
            final(self).raised() == old(self).raised(),
    {
        self.eat_digits();
        if self.peek() == '.' && self.is_digit(self.peek2()) {
            self.eat();
            self.eat_digits();
        }
        self.add_token(TokenType::Number)
    }

    /// Consumes the digits at the read position.
    fn eat_digits(&mut self)
        requires
            old(self).wf(),
        ensures
            final(self).moved(
                old(self),
                run_end(old(self).source(), old(self).position(), CharClass::Digit),
            ),
            final(self).emitted() == old(self).emitted(),
            final(self).raised() == old(self).raised(),
    {
        while self.is_digit(self.peek())
            invariant
                self.moved(old(self), self.position()),
                self.emitted() == old(self).emitted(),
                self.raised() == old(self).raised(),
                old(self).position() <= self.position(),
                run_end(self.source(), self.position(), CharClass::Digit) == run_end(
                    old(self).source(),
                    old(self).position(),
                    CharClass::Digit,
                ),
            decreases self.source().len() - self.position(),
        {
            self.eat();
        }
    }

    /// Scans the rest of a word whose first character has been read, and
    /// emits it as its reserved word or as an identifier.
    fn identifier(&mut self)
        requires
            old(self).wf(),
        ensures
            final(self).moved(
                old(self),
                run_end(old(self).source(), old(self).position(), CharClass::Word),
            ),
            final(self).emitted() == old(self).emitted().push(
                TokenView {
                    kind: word_kind(
                        old(self).source().subrange(
                            old(self).token_start(),
                            final(self).position(),
                        ),
                    ),
                    lexeme: old(self).source().subrange(
                        old(self).token_start(),
                        final(self).position(),
                    ),
                    line: old(self).start_line(),
                },
            ),
            final(self).raised() == old(self).raised(),
    {
        while self.is_alphanumeric(self.peek())
            invariant
                self.moved(old(self), self.position()),
                self.emitted() == old(self).emitted(),
                self.raised() == old(self).raised(),
                old(self).position() <= self.position(),
                run_end(self.source(), self.position(), CharClass::Word) == run_end(
                    old(self).source(),
                    old(self).position(),
                    CharClass::Word,
                ),
            decreases self.source().len() - self.position(),
        {
            self.eat();
        }
        let txt = string_of(&self.src, self.start, self.current);
        // a word that is no reserved word is an identifier
        let tt = match self.keyword_of(&txt) {
            Some(kind) => kind,
            None => TokenType::Identifier,
        };
        self.push_token(tt, txt);
    }

    /// Scans the rest of a string whose opening quote has been read: emits
    /// the text between the quotes, or raises an error where the input ends first.
    fn string(&mut self)
        requires
            old(self).wf(),
            old(self).token_start() < old(self).position(),
        ensures
            ({
                let s = old(self).source();
                let close = run_end(s, old(self).position(), CharClass::NotQuote);
                if close < s.len() {
                    &&& final(self).moved(old(self), close + 1)
                    &&& final(self).emitted() == old(self).emitted().push(
                        TokenView {
                            kind: TokenType::Str,
                            lexeme: s.subrange(old(self).token_start() + 1, close),
                            line: old(self).start_line(),
                        },
                    )
                    &&& final(self).raised() == old(self).raised()
                } else {
                    &&& final(self).moved(old(self), s.len() as int)
                    &&& final(self).emitted() == old(self).emitted()
                    &&& final(self).raised() == old(self).raised().push(
                        diagnostic_of(
                            final(self).line_number(),
                            ErrorKindView::UnterminatedString(
                                s.subrange(old(self).token_start(), s.len() as int),
                            ),
                        ),
                    )
                }
            }),
    {
        while !(self.peek() == '"' || self.at_end())
            invariant
                self.moved(old(self), self.position()),
                self.emitted() == old(self).emitted(),
                self.raised() == old(self).raised(),
                old(self).position() <= self.position(),
                run_end(self.source(), self.position(), CharClass::NotQuote) == run_end(
                    old(self).source(),
                    old(self).position(),
                    CharClass::NotQuote,
                ),
            decreases self.source().len() - self.position(),
        {
            self.eat();
        }

        if self.at_end() {
            let partial = string_of(&self.src, self.start, self.src.len());
            self.error(InterpreterError::new().occur(ErrorKind::UnterminatedString(partial)));
            return;
        }
        let content = string_of(&self.src, self.start + 1, self.current);
        self.eat();
        self.push_token(TokenType::Str, content);
    }

    /// Skips the rest of a block comment whose opening pair has been read,
    /// nested comments included; raises an error where the input ends first.
    fn block_comment(&mut self)
        requires
            old(self).wf(),
        ensures
            ({
                let end = comment_end(old(self).source(), old(self).position(), 1);
                &&& final(self).moved(old(self), end.pos)
                &&& final(self).emitted() == old(self).emitted()
                &&& final(self).raised() == if end.closed {
                    old(self).raised()
                } else {
                    old(self).raised().push(
                        diagnostic_of(
                            final(self).line_number(),
                            ErrorKindView::UnterminatedComment,
                        ),
                    )
                }
            }),
    {
        let mut depth: usize = 1;
        while depth > 0
            invariant
                self.moved(old(self), self.position()),
                self.emitted() == old(self).emitted(),
                depth <= self.position() + 1,
                old(self).position() <= self.position(),
                depth > 0 ==> self.raised() == old(self).raised() && comment_end(
                    self.source(),
                    self.position(),
                    depth as nat,
                ) == comment_end(old(self).source(), old(self).position(), 1),
                depth == 0 ==> ({
                    let end = comment_end(old(self).source(), old(self).position(), 1);
                    &&& self.position() == end.pos
                    &&& self.raised() == if end.closed {
                        old(self).raised()
                    } else {
                        old(self).raised().push(
                            diagnostic_of(self.line_number(), ErrorKindView::UnterminatedComment),
                        )
                    }
                }),
            decreases self.source().len() - self.position() + depth,
        {
            if self.at_end() {
                self.error(InterpreterError::new().occur(ErrorKind::UnterminatedComment));
                depth = 0;
            } else if self.peek() == '*' && self.peek2() == '/' {
                self.eat();
                self.eat();
                depth -= 1;
            } else if self.peek() == '/' && self.peek2() == '*' {
                self.eat();
                self.eat();
                depth += 1;
            } else {
                self.eat();
            }
        }
    }

    /// Skips the rest of a line comment: everything before the next newline.
    fn line_comment(&mut self)
        requires
            old(self).wf(),
        ensures
            final(self).moved(
                old(self),
                run_end(old(self).source(), old(self).position(), CharClass::NotNewline),
            ),
            final(self).emitted() == old(self).emitted(),
            final(self).raised() == old(self).raised(),
    {
        while self.peek() != '\n' && !self.at_end()
            invariant
                self.moved(old(self), self.position()),
                self.emitted() == old(self).emitted(),
                self.raised() == old(self).raised(),
                old(self).position() <= self.position(),
                run_end(self.source(), self.position(), CharClass::NotNewline) == run_end(
                    old(self).source(),
                    old(self).position(),
                    CharClass::NotNewline,
                ),
            decreases self.source().len() - self.position(),
        {
            self.eat();
        }
    }

    /// One scan step: reads the token, comment or blank at the read position,
    /// which is also the token start, and emits what `scan_step` says.
    fn scan_token(&mut self)
        requires
            old(self).wf(),
            old(self).position() < old(self).source().len(),
            old(self).token_start() == old(self).position(),
        ensures
            ({
                let s = old(self).source();
                let pos = old(self).position();
                let line = old(self).line_number();
                let step = scan_step(s, pos, line);
                &&& final(self).moved(old(self), step.next)
                &&& final(self).emitted() == old(self).emitted() + step.tokens
                &&& final(self).raised() == old(self).raised() + step.diagnostics
            }),
    {
        let c = self.eat();
        match c {
            '(' => self.add_token(TokenType::LeftParen),
            ')' => self.add_token(TokenType::RightParen),
            '{' => self.add_token(TokenType::LeftBrace),
            '}' => self.add_token(TokenType::RightBrace),
            ',' => self.add_token(TokenType::Comma),
            '.' => self.add_token(TokenType::Dot),
            '-' => self.add_token(TokenType::Minus),
            '+' => self.add_token(TokenType::Plus),
            ';' => self.add_token(TokenType::Semicolon),
            '*' => self.add_token(TokenType::Star),
            '%' => self.add_token(TokenType::Mod),
            '!' => {
                let tk = if self.next_is('=') {
                    TokenType::BangEqual
                } else {
                    TokenType::Bang
                };
                self.add_token(tk)
            },
            '=' => {
                let tk = if self.next_is('=') {
                    TokenType::EqualEqual
                } else {
                    TokenType::Equal
                };
                self.add_token(tk)
            },
            '<' => {
                let tk = if self.next_is('=') {
                    TokenType::LessEqual
                } else {
                    TokenType::Less
                };
                self.add_token(tk)
            },
            '>' => {
                let tk = if self.next_is('=') {
                    TokenType::GreaterEqual
                } else {
                    TokenType::Greater
                };
                self.add_token(tk)
            },
            '/' => {
                if self.next_is('/') {
                    self.line_comment();
                } else if self.next_is('*') {
                    self.block_comment();
                } else {
                    self.add_token(TokenType::Slash)
                }
            },
            ' ' | '\r' | '\t' | '\n' => (),  // blanks; a newline was counted when read
            '"' => self.string(),
            c => {
                if self.is_digit(c) {
                    self.number();
                } else if self.is_alpha(c) {
                    self.identifier()
                } else {
                    self.error(InterpreterError::new().occur(ErrorKind::UnexpectedCharacter(c)))
                }
            },
        }
        proof {
            let s = old(self).source();
            let pos = old(self).position();
            let step = scan_step(s, pos, old(self).line_number());
            self.lemma_moved(old(self));
            assert(self.emitted() =~= old(self).emitted() + step.tokens);
            assert(self.raised() =~= old(self).raised() + step.diagnostics);
        }
    }

    /// What is left of the pass from the scanner's position on.
    pub open spec fn remaining(&self) -> Scan {
        scan_from(self.source(), self.position(), self.line_number())
    }

    /// A pass that starts from a fresh scanner yields the tokens and the
    /// diagnostics of `scan(src)`.
    pub proof fn lemma_fresh_pass(&self, src: Seq<char>)
        requires
            self.fresh(src),
        ensures
            self.emitted() + self.remaining().tokens == scan(src).tokens,
            self.raised() + self.remaining().diagnostics == scan(src).diagnostics,
            self.last_line() == 1 + newlines(src, 0, src.len() as int),
    {
        assert(self.emitted() + self.remaining().tokens =~= scan(src).tokens);
        assert(self.raised() + self.remaining().diagnostics =~= scan(src).diagnostics);
    }

    /// Scanning is repeatable: two passes over the same text, each from a
    /// fresh scanner, yield the same tokens and the same diagnostics.
    pub proof fn lemma_scan_is_repeatable(first: Scanner, second: Scanner, src: Seq<char>)
        requires
            first.fresh(src),
            second.fresh(src),
        ensures
            first.emitted() + first.remaining().tokens == second.emitted()
                + second.remaining().tokens,
            first.raised() + first.remaining().diagnostics == second.raised()
                + second.remaining().diagnostics,
    {
        first.lemma_fresh_pass(src);
        second.lemma_fresh_pass(src);
    }

    /// The line of the end of input.
    pub open spec fn last_line(&self) -> nat {
        self.line_number() + newlines(self.source(), self.position(), self.source().len() as int)
    }

    /// Runs the pass to the end of input. Returns every token, in source
    /// order and closed by the one end-of-input token, and every diagnostic,
    /// in the order of detection. No error stops the pass.
    pub fn scan(self) -> (r: (Vec<Token>, Vec<Diagnostic>))
        requires
            self.wf(),
        ensures
            token_views(r.0@) == self.emitted() + self.remaining().tokens,
            diagnostic_views(r.1@) == self.raised() + self.remaining().diagnostics,
            ends_with_single_eof(
                token_views(r.0@),
                self.emitted().len() as int,
                self.last_line(),
            ),
    {
        let mut this = self;
        while !this.at_end()
            invariant
                this.wf(),
                this.source() == self.source(),
                this.emitted() + this.remaining().tokens == self.emitted()
                    + self.remaining().tokens,
                this.raised() + this.remaining().diagnostics == self.raised()
                    + self.remaining().diagnostics,
            decreases this.source().len() - this.position(),
        {
            this.start = this.current;
            this.start_line = this.line;
            let ghost before = this;
            this.scan_token();
            proof {
                let step = scan_step(before.source(), before.position(), before.line_number());
                let rest = this.remaining();
                lemma_step_advances(before.source(), before.position(), before.line_number());
                this.lemma_moved(&before);
                assert(before.remaining().tokens == step.tokens + rest.tokens);
                assert(this.emitted() + rest.tokens =~= before.emitted() + (step.tokens
                    + rest.tokens));
                assert(this.raised() + rest.diagnostics =~= before.raised() + (step.diagnostics
                    + rest.diagnostics));
            }
        }

        // the end-of-input token closes the sequence
        let ghost before = this;
        let eof = Token::new(TokenType::EOF, String::new()).at_line(this.line);
        this.tokens.push(eof);
        proof {
            assert(eof@ == eof_token(before.line_number()));
            assert(token_views(this.tokens@) =~= before.emitted() + before.remaining().tokens);
            assert(diagnostic_views(this.diagnostics@) =~= before.raised()
                + before.remaining().diagnostics);
            lemma_single_eof(self.source(), self.position(), self.line_number());
        }
        (this.tokens, this.diagnostics)
    }

    /// Runs the pass to the end of input and returns the tokens, in source
    /// order and closed by the one end-of-input token. The diagnostics are
    /// dropped: `scan` returns them too.
    pub fn scan_tokens(self) -> (tokens: Vec<Token>)
        requires
            self.wf(),
        ensures
            token_views(tokens@) == self.emitted() + self.remaining().tokens,
            ends_with_single_eof(
                token_views(tokens@),
                self.emitted().len() as int,
                self.last_line(),
            ),
    {
        self.scan().0
    }
}

} // verus!
