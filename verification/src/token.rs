use vstd::prelude::*;
use vstd::string::*;

verus! {

/// The closed set of token kinds of the language.
#[derive(Debug, Clone, Copy, PartialEq, Eq, Structural, PartialOrd, Ord, Hash)]
#[allow(clippy::upper_case_acronyms)]
pub enum TokenType {
    // single character tokens
    LeftParen,
    RightParen,
    LeftBrace,
    RightBrace,
    Comma,
    Dot,
    Minus,
    Plus,
    Semicolon,
    Slash,
    Star,
    Mod,
    // one or two character tokens
    Bang,
    BangEqual,
    Equal,
    EqualEqual,
    Greater,
    GreaterEqual,
    Less,
    LessEqual,
    // literals
    Identifier,
    Str,
    Number,
    // reserved words
    And,
    Assert,
    Class,
    Else,
    False,
    Fun,
    For,
    If,
    Nil,
    Or,
    Print,
    Return,
    Super,
    This,
    True,
    Var,
    While,
    // end of input
    EOF,
}

/// Number of token kinds; the kinds are numbered from 0 in declaration order.
pub const KIND_COUNT: usize = 41;

impl TokenType {
    /// Position of the kind in declaration order.
    pub open spec fn index(self) -> nat {
        match self {
            TokenType::LeftParen => 0,
            TokenType::RightParen => 1,
            TokenType::LeftBrace => 2,
            TokenType::RightBrace => 3,
            TokenType::Comma => 4,
            TokenType::Dot => 5,
            TokenType::Minus => 6,
            TokenType::Plus => 7,
            TokenType::Semicolon => 8,
            TokenType::Slash => 9,
            TokenType::Star => 10,
            TokenType::Mod => 11,
            TokenType::Bang => 12,
            TokenType::BangEqual => 13,
            TokenType::Equal => 14,
            TokenType::EqualEqual => 15,
            TokenType::Greater => 16,
            TokenType::GreaterEqual => 17,
            TokenType::Less => 18,
            TokenType::LessEqual => 19,
            TokenType::Identifier => 20,
            TokenType::Str => 21,
            TokenType::Number => 22,
            TokenType::And => 23,
            TokenType::Assert => 24,
            TokenType::Class => 25,
            TokenType::Else => 26,
            TokenType::False => 27,
            TokenType::Fun => 28,
            TokenType::For => 29,
            TokenType::If => 30,
            TokenType::Nil => 31,
            TokenType::Or => 32,
            TokenType::Print => 33,
            TokenType::Return => 34,
            TokenType::Super => 35,
            TokenType::This => 36,
            TokenType::True => 37,
            TokenType::Var => 38,
            TokenType::While => 39,
            TokenType::EOF => 40,
        }
    }

    /// The kind at a position in declaration order, if the position names one.
    pub open spec fn from_index(i: int) -> Option<TokenType> {
        if i == 0 {
            Some(TokenType::LeftParen)
        } else if i == 1 {
            Some(TokenType::RightParen)
        } else if i == 2 {
            Some(TokenType::LeftBrace)
        } else if i == 3 {
            Some(TokenType::RightBrace)
        } else if i == 4 {
            Some(TokenType::Comma)
        } else if i == 5 {
            Some(TokenType::Dot)
        } else if i == 6 {
            Some(TokenType::Minus)
        } else if i == 7 {
            Some(TokenType::Plus)
        } else if i == 8 {
            Some(TokenType::Semicolon)
        } else if i == 9 {
            Some(TokenType::Slash)
        } else if i == 10 {
            Some(TokenType::Star)
        } else if i == 11 {
            Some(TokenType::Mod)
        } else if i == 12 {
            Some(TokenType::Bang)
        } else if i == 13 {
            Some(TokenType::BangEqual)
        } else if i == 14 {
            Some(TokenType::Equal)
        } else if i == 15 {
            Some(TokenType::EqualEqual)
        } else if i == 16 {
            Some(TokenType::Greater)
        } else if i == 17 {
            Some(TokenType::GreaterEqual)
        } else if i == 18 {
            Some(TokenType::Less)
        } else if i == 19 {
            Some(TokenType::LessEqual)
        } else if i == 20 {
            Some(TokenType::Identifier)
        } else if i == 21 {
            Some(TokenType::Str)
        } else if i == 22 {
            Some(TokenType::Number)
        } else if i == 23 {
            Some(TokenType::And)
        } else if i == 24 {
            Some(TokenType::Assert)
        } else if i == 25 {
            Some(TokenType::Class)
        } else if i == 26 {
            Some(TokenType::Else)
        } else if i == 27 {
            Some(TokenType::False)
        } else if i == 28 {
            Some(TokenType::Fun)
        } else if i == 29 {
            Some(TokenType::For)
        } else if i == 30 {
            Some(TokenType::If)
        } else if i == 31 {
            Some(TokenType::Nil)
        } else if i == 32 {
            Some(TokenType::Or)
        } else if i == 33 {
            Some(TokenType::Print)
        } else if i == 34 {
            Some(TokenType::Return)
        } else if i == 35 {
            Some(TokenType::Super)
        } else if i == 36 {
            Some(TokenType::This)
        } else if i == 37 {
            Some(TokenType::True)
        } else if i == 38 {
            Some(TokenType::Var)
        } else if i == 39 {
            Some(TokenType::While)
        } else if i == 40 {
            Some(TokenType::EOF)
        } else {
            None
        }
    }

    /// The fixed text that stands for the kind when it is displayed.
    pub open spec fn text(self) -> Seq<char> {
        match self {
            TokenType::LeftParen => "("@,
            TokenType::RightParen => ")"@,
            TokenType::LeftBrace => "{"@,
            TokenType::RightBrace => "}"@,
            TokenType::Comma => ","@,
            TokenType::Dot => "."@,
            TokenType::Minus => "-"@,
            TokenType::Plus => "+"@,
            TokenType::Semicolon => ";"@,
            TokenType::Slash => "/"@,
            TokenType::Star => "*"@,
            TokenType::Mod => "%"@,
            TokenType::Bang => "!"@,
            TokenType::BangEqual => "!="@,
            TokenType::Equal => "="@,
            TokenType::EqualEqual => "=="@,
            TokenType::Greater => ">"@,
            TokenType::GreaterEqual => ">="@,
            TokenType::Less => "<"@,
            TokenType::LessEqual => "<="@,
            TokenType::Identifier => "token_identifier"@,
            TokenType::Str => "token_string"@,
            TokenType::Number => "token_number"@,
            TokenType::And => "and"@,
            TokenType::Assert => "assert"@,
            TokenType::Class => "class"@,
            TokenType::Else => "else"@,
            TokenType::False => "false"@,
            TokenType::Fun => "fun"@,
            TokenType::For => "for"@,
            TokenType::If => "if"@,
            TokenType::Nil => "nil"@,
            TokenType::Or => "or"@,
            TokenType::Print => "print"@,
            TokenType::Return => "return"@,
            TokenType::Super => "super"@,
            TokenType::This => "this"@,
            TokenType::True => "true"@,
            TokenType::Var => "var"@,
            TokenType::While => "while"@,
            TokenType::EOF => "EOF"@,
        }
    }

    /// Whether the kind is one of the reserved words.
    pub open spec fn is_keyword(self) -> bool {
        match self {
            TokenType::And
            | TokenType::Assert
            | TokenType::Class
            | TokenType::Else
            | TokenType::False
            | TokenType::Fun
            | TokenType::For
            | TokenType::If
            | TokenType::Nil
            | TokenType::Or
            | TokenType::Print
            | TokenType::Return
            | TokenType::Super
            | TokenType::This
            | TokenType::True
            | TokenType::Var
            | TokenType::While => true,
            _ => false,
        }
    }

    /// The source text of a reserved word; `None` for every other kind.
    pub open spec fn keyword_text(self) -> Option<Seq<char>> {
        if self.is_keyword() {
            Some(self.text())
        } else {
            None
        }
    }

    /// The display text of the kind.
    pub fn to_text(&self) -> (r: String)
        ensures
            r@ == self.text(),
    {
        let tt = match self {
            TokenType::LeftParen => "(",
            TokenType::RightParen => ")",
            TokenType::LeftBrace => "{",
            TokenType::RightBrace => "}",
            TokenType::Comma => ",",
            TokenType::Dot => ".",
            TokenType::Minus => "-",
            TokenType::Plus => "+",
            TokenType::Semicolon => ";",
            TokenType::Slash => "/",
            TokenType::Star => "*",
            TokenType::Mod => "%",
            TokenType::Bang => "!",
            TokenType::BangEqual => "!=",
            TokenType::Equal => "=",
            TokenType::EqualEqual => "==",
            TokenType::Greater => ">",
            TokenType::GreaterEqual => ">=",
            TokenType::Less => "<",
            TokenType::LessEqual => "<=",
            TokenType::Identifier => "token_identifier",
            TokenType::Str => "token_string",
            TokenType::Number => "token_number",
            TokenType::And => "and",
            TokenType::Assert => "assert",
            TokenType::Class => "class",
            TokenType::Else => "else",
            TokenType::False => "false",
            TokenType::Fun => "fun",
            TokenType::For => "for",
            TokenType::If => "if",
            TokenType::Nil => "nil",
            TokenType::Or => "or",
            TokenType::Print => "print",
            TokenType::Return => "return",
            TokenType::Super => "super",
            TokenType::This => "this",
            TokenType::True => "true",
            TokenType::Var => "var",
            TokenType::While => "while",
            TokenType::EOF => "EOF",
        };
        String::from_str(tt)
    }

    /// The source text of a reserved word, `None` for a kind that is not one.
    pub fn keywords(&self) -> (r: Option<String>)
        ensures
            r is Some <==> self.is_keyword(),
            r is Some ==> r->0@ == self.text(),
            self.keyword_text() == (match r {
                Some(s) => Some(s@),
                None => None,
            }),
    {
        match self {
            TokenType::And
            | TokenType::Assert
            | TokenType::Class
            | TokenType::Else
            | TokenType::False
            | TokenType::For
            | TokenType::Fun
            | TokenType::If
            | TokenType::Nil
            | TokenType::Or
            | TokenType::Print
            | TokenType::Return
            | TokenType::Super
            | TokenType::This
            | TokenType::True
            | TokenType::Var
            | TokenType::While => Some(self.to_text()),
            _ => None,
        }
    }

    /// The kind's number in declaration order.
    pub fn clike_enum(&self) -> (r: usize)
        ensures
            r == self.index(),
            r < KIND_COUNT,
    {
        match self {
            TokenType::LeftParen => 0,
            TokenType::RightParen => 1,
            TokenType::LeftBrace => 2,
            TokenType::RightBrace => 3,
            TokenType::Comma => 4,
            TokenType::Dot => 5,
            TokenType::Minus => 6,
            TokenType::Plus => 7,
            TokenType::Semicolon => 8,
            TokenType::Slash => 9,
            TokenType::Star => 10,
            TokenType::Mod => 11,
            TokenType::Bang => 12,
            TokenType::BangEqual => 13,
            TokenType::Equal => 14,
            TokenType::EqualEqual => 15,
            TokenType::Greater => 16,
            TokenType::GreaterEqual => 17,
            TokenType::Less => 18,
            TokenType::LessEqual => 19,
            TokenType::Identifier => 20,
            TokenType::Str => 21,
            TokenType::Number => 22,
            TokenType::And => 23,
            TokenType::Assert => 24,
            TokenType::Class => 25,
            TokenType::Else => 26,
            TokenType::False => 27,
            TokenType::Fun => 28,
            TokenType::For => 29,
            TokenType::If => 30,
            TokenType::Nil => 31,
            TokenType::Or => 32,
            TokenType::Print => 33,
            TokenType::Return => 34,
            TokenType::Super => 35,
            TokenType::This => 36,
            TokenType::True => 37,
            TokenType::Var => 38,
            TokenType::While => 39,
            TokenType::EOF => 40,
        }
    }

    /// Number of kinds to pass to get from `start` to `end` in declaration
    /// order; `None` where `end` comes before `start`.
    pub fn steps_between(start: &Self, end: &Self) -> (r: Option<usize>)
        ensures
            r == if start.index() <= end.index() {
                Some((end.index() - start.index()) as usize)
            } else {
                None
            },
    {
        let (start, end) = (start.clike_enum(), end.clike_enum());
        if start <= end {
            Some(end - start)
        } else {
            None
        }
    }

    /// The kind `count` places behind `start` in declaration order, `None`
    /// past the last kind.
    pub fn forward_checked(start: Self, count: usize) -> (r: Option<Self>)
        ensures
            r == Self::from_index(start.index() + count),
    {
        if count >= KIND_COUNT {
            None
        } else {
            let dest = start.clike_enum() + count;
            TokenType::rustize(dest)
        }
    }

    /// The kind `count` places before `start` in declaration order, `None`
    /// before the first kind.
    pub fn backward_checked(start: Self, count: usize) -> (r: Option<Self>)
        ensures
            r == if start.index() < count {
                None
            } else {
                Self::from_index(start.index() - count)
            },
    {
        let strt = start.clike_enum();
        if strt < count {
            None
        } else {
            TokenType::rustize(strt - count)
        }
    }

    /// The kind with the given number, `None` where no kind has that number.
    pub fn rustize(clike_enum: usize) -> (r: Option<Self>)
        ensures
            r == Self::from_index(clike_enum as int),
            r is Some <==> clike_enum < KIND_COUNT,
    {
        match clike_enum {
            0 => Some(TokenType::LeftParen),
            1 => Some(TokenType::RightParen),
            2 => Some(TokenType::LeftBrace),
            3 => Some(TokenType::RightBrace),
            4 => Some(TokenType::Comma),
            5 => Some(TokenType::Dot),
            6 => Some(TokenType::Minus),
            7 => Some(TokenType::Plus),
            8 => Some(TokenType::Semicolon),
            9 => Some(TokenType::Slash),
            10 => Some(TokenType::Star),
            11 => Some(TokenType::Mod),
            12 => Some(TokenType::Bang),
            13 => Some(TokenType::BangEqual),
            14 => Some(TokenType::Equal),
            15 => Some(TokenType::EqualEqual),
            16 => Some(TokenType::Greater),
            17 => Some(TokenType::GreaterEqual),
            18 => Some(TokenType::Less),
            19 => Some(TokenType::LessEqual),
            20 => Some(TokenType::Identifier),
            21 => Some(TokenType::Str),
            22 => Some(TokenType::Number),
            23 => Some(TokenType::And),
            24 => Some(TokenType::Assert),
            25 => Some(TokenType::Class),
            26 => Some(TokenType::Else),
            27 => Some(TokenType::False),
            28 => Some(TokenType::Fun),
            29 => Some(TokenType::For),
            30 => Some(TokenType::If),
            31 => Some(TokenType::Nil),
            32 => Some(TokenType::Or),
            33 => Some(TokenType::Print),
            34 => Some(TokenType::Return),
            35 => Some(TokenType::Super),
            36 => Some(TokenType::This),
            37 => Some(TokenType::True),
            38 => Some(TokenType::Var),
            39 => Some(TokenType::While),
            40 => Some(TokenType::EOF),
            _ => None,
        }
    }
}

/// A kind's number names that kind again, and only kinds below `KIND_COUNT` exist.
pub proof fn lemma_index_round_trip(kind: TokenType)
    ensures
        kind.index() < KIND_COUNT,
        TokenType::from_index(kind.index() as int) == Some(kind),
{
}

/// A number that names a kind is that kind's own number.
pub proof fn lemma_from_index_inverse(i: int)
    ensures
        TokenType::from_index(i) is Some <==> 0 <= i < KIND_COUNT,
        TokenType::from_index(i) is Some ==> TokenType::from_index(i)->0.index() == i,
{
}

/// A keyword table is sound and complete: every entry pairs a reserved
/// word's text with its kind, and every reserved word has an entry.
pub open spec fn keyword_table_ok(table: Seq<(String, TokenType)>) -> bool {
    &&& forall|j: int|
        0 <= j < table.len() ==> {
            &&& (#[trigger] table[j]).1.is_keyword()
            &&& table[j].0@ == table[j].1.text()
        }
    &&& forall|kind: TokenType| kind.is_keyword() ==> #[trigger] table_has(table, kind)
}

/// The table has an entry for `kind`.
pub open spec fn table_has(table: Seq<(String, TokenType)>, kind: TokenType) -> bool {
    exists|j: int| 0 <= j < table.len() && (#[trigger] table[j]).1 == kind
}

/// The reserved words, in the order of the table.
pub open spec fn keyword_kinds() -> Seq<TokenType> {
    seq![
        TokenType::And,
        TokenType::Assert,
        TokenType::Class,
        TokenType::Else,
        TokenType::False,
        TokenType::Fun,
        TokenType::For,
        TokenType::If,
        TokenType::Nil,
        TokenType::Or,
        TokenType::Print,
        TokenType::Return,
        TokenType::Super,
        TokenType::This,
        TokenType::True,
        TokenType::Var,
        TokenType::While,
    ]
}

/// The table of reserved words: for each of them, in the order of
/// `keyword_kinds`, its text with its kind.
pub fn keyword_table() -> (table: Vec<(String, TokenType)>)
    ensures
        table@.len() == keyword_kinds().len(),
        forall|j: int|
            0 <= j < table@.len() ==> {
                &&& (#[trigger] table@[j]).1 == keyword_kinds()[j]
                &&& table@[j].0@ == keyword_kinds()[j].text()
            },
        keyword_table_ok(table@),
{
    let kinds = vec![
        TokenType::And,
        TokenType::Assert,
        TokenType::Class,
        TokenType::Else,
        TokenType::False,
        TokenType::Fun,
        TokenType::For,
        TokenType::If,
        TokenType::Nil,
        TokenType::Or,
        TokenType::Print,
        TokenType::Return,
        TokenType::Super,
        TokenType::This,
        TokenType::True,
        TokenType::Var,
        TokenType::While,
    ];
    assert(kinds@ =~= keyword_kinds());
    let mut table: Vec<(String, TokenType)> = Vec::new();
    let mut i: usize = 0;
    while i < kinds.len()
        invariant
            i <= kinds@.len(),
            kinds@ == keyword_kinds(),
            forall|j: int| 0 <= j < kinds@.len() ==> (#[trigger] kinds@[j]).is_keyword(),
            table@.len() == i,
            forall|j: int|
                0 <= j < i ==> {
                    &&& (#[trigger] table@[j]).1 == kinds@[j]
                    &&& table@[j].0@ == kinds@[j].text()
                },
        decreases kinds@.len() - i,
    {
        let kind = kinds[i];
        match kind.keywords() {
            Some(text) => table.push((text, kind)),
            None => {},
        }
        i += 1;
    }
    proof {
        assert forall|kind: TokenType| kind.is_keyword() implies #[trigger] table_has(
            table@,
            kind,
        ) by {
            let j = choose|j: int| 0 <= j < kinds@.len() && kinds@[j] == kind;
            assert(table@[j].1 == kind);
        }
    }
    table
}

/// What a token is: its kind, the matched text, and the line of its first character.
pub struct TokenView {
    pub kind: TokenType,
    pub lexeme: Seq<char>,
    pub line: nat,
}

/// The smallest classified unit of source text.
#[derive(Debug, Clone, PartialEq)]
pub struct Token {
    token_type: TokenType,
    lexeme: String,
    line: usize,
}

impl View for Token {
    type V = TokenView;

    closed spec fn view(&self) -> TokenView {
        TokenView { kind: self.token_type, lexeme: self.lexeme@, line: self.line as nat }
    }
}

impl Token {
    /// A token of the given kind and text on the first line.
    pub fn new(token_type: TokenType, lexeme: String) -> (r: Self)
        ensures
            r@ == (TokenView { kind: token_type, lexeme: lexeme@, line: 1 }),
    {
        Self { token_type, lexeme, line: 1 }
    }

    /// The same token, placed on the given line.
    pub fn at_line(self, line: usize) -> (r: Self)
        ensures
            r@ == (TokenView { kind: self@.kind, lexeme: self@.lexeme, line: line as nat }),
    {
        Self { token_type: self.token_type, lexeme: self.lexeme, line }
    }

    /// The token's kind.
    pub fn token_type(&self) -> (r: TokenType)
        ensures
            r == self@.kind,
    {
        self.token_type
    }

    /// The matched text.
    pub fn lexeme(&self) -> (r: &str)
        ensures
            r@ == self@.lexeme,
    {
        self.lexeme.as_str()
    }

    /// The 1-based line on which the token starts.
    pub fn line(&self) -> (r: usize)
        ensures
            r as nat == self@.line,
    {
        self.line
    }
}

/// The views of a sequence of tokens, in order.
pub open spec fn token_views(tokens: Seq<Token>) -> Seq<TokenView> {
    tokens.map_values(|t: Token| t@)
}

} // verus!
