use vstd::prelude::*;

use vstd::std_specs::cmp::PartialEqSpecImpl;

verus! {

/// A floating-point literal, held as the decimal digits of its value
/// (the digits that a float parser reads; no separators, no suffix).
#[derive(Clone, Debug, PartialEq)]
pub struct FloatLit {
    pub digits: String,
}

impl FloatLit {
    /// A copy of the literal.
    pub fn copy(&self) -> (r: FloatLit)
        ensures
            r.digits@ == self.digits@,
    {
        FloatLit { digits: self.digits.clone() }
    }
}

/// The value of a numeric literal.
#[derive(Clone, Debug)]
pub enum NumberKind {
    Float(FloatLit),
    Integer(i32),
    /// A literal `.n` that names a position, as in `x.1`.
    Index(usize),
}

/// The mathematical view of a numeric literal.
pub enum NumberV {
    Float(Seq<char>),
    Integer(i32),
    Index(usize),
}

impl View for NumberKind {
    type V = NumberV;

    open spec fn view(&self) -> NumberV {
        match self {
            NumberKind::Float(f) => NumberV::Float(f.digits@),
            NumberKind::Integer(i) => NumberV::Integer(*i),
            NumberKind::Index(i) => NumberV::Index(*i),
        }
    }
}

impl PartialEq for NumberKind {
    fn eq(&self, other: &Self) -> (r: bool) {
        match (self, other) {
            (NumberKind::Float(a), NumberKind::Float(b)) => a.digits == b.digits,
            (NumberKind::Integer(a), NumberKind::Integer(b)) => *a == *b,
            (NumberKind::Index(a), NumberKind::Index(b)) => *a == *b,
            _ => false,
        }
    }
}

impl PartialEqSpecImpl for NumberKind {
    open spec fn obeys_eq_spec() -> bool {
        true
    }

    open spec fn eq_spec(&self, other: &NumberKind) -> bool {
        self@ == other@
    }
}

/// A lexical token of the language.
#[derive(Clone, Debug)]
pub enum Token {
    /// `;` or a line break
    DELIM,
    /// `,`
    COMMA,
    /// `:`
    COLON,
    /// `=`
    ASSIGN,
    /// `:=`
    ASSIGNE,
    /// `=>`
    ARROW,
    /// `...`
    SPREAD,
    /// keyword `for`
    FOR,
    /// keyword `in`
    IN,
    /// keyword `if`
    IF,
    /// keyword `else`
    ELSE,
    /// keyword `match`
    MATCH,
    /// keyword `while`
    WHILE,
    /// keyword `loop`
    LOOP,
    /// keyword `break`
    BREAK,
    /// keyword `or`
    OR,
    /// keyword `and`
    AND,
    /// keyword `not`
    NOT,
    /// `==`
    EQ,
    /// `!=`
    NE,
    /// `<`
    LT,
    /// `<=`
    LE,
    /// `>`
    GT,
    /// `>=`
    GE,
    /// `..`
    RANGE,
    /// `..=`
    RANGEI,
    /// `+`
    ADD,
    /// `-`
    SUB,
    /// `*`
    MUL,
    /// `/`
    DIV,
    /// `/%`
    IDIV,
    /// `%`
    MOD,
    /// `^`
    POW,
    /// `d`, the die operator
    DIE,
    /// `.`
    DOT,
    /// `(`
    LPAREN,
    /// `)`
    RPAREN,
    /// `[`
    LBRACKET,
    /// `]`
    RBRACKET,
    /// `{`
    LBRACE,
    /// `}`
    RBRACE,
    /// A string literal, with its escapes resolved.
    String(String),
    /// A numeric literal.
    Number(NumberKind),
    /// An identifier.
    Id(String),
    /// Blanks between tokens; never produced by the lexer.
    SKIP,
    /// Input that forms no token.
    ERROR,
}

/// The mathematical view of a token.
pub enum TokenV {
    DELIM,
    COMMA,
    COLON,
    ASSIGN,
    ASSIGNE,
    ARROW,
    SPREAD,
    FOR,
    IN,
    IF,
    ELSE,
    MATCH,
    WHILE,
    LOOP,
    BREAK,
    OR,
    AND,
    NOT,
    EQ,
    NE,
    LT,
    LE,
    GT,
    GE,
    RANGE,
    RANGEI,
    ADD,
    SUB,
    MUL,
    DIV,
    IDIV,
    MOD,
    POW,
    DIE,
    DOT,
    LPAREN,
    RPAREN,
    LBRACKET,
    RBRACKET,
    LBRACE,
    RBRACE,
    String(Seq<char>),
    Number(NumberV),
    Id(Seq<char>),
    SKIP,
    ERROR,
}

impl Token {
    /// A copy of the token.
    pub fn clone_token(&self) -> (r: Token)
        ensures
            r@ == self@,
    {
        match self {
            Token::DELIM => Token::DELIM,
            Token::COMMA => Token::COMMA,
            Token::COLON => Token::COLON,
            Token::ASSIGN => Token::ASSIGN,
            Token::ASSIGNE => Token::ASSIGNE,
            Token::ARROW => Token::ARROW,
            Token::SPREAD => Token::SPREAD,
            Token::FOR => Token::FOR,
            Token::IN => Token::IN,
            Token::IF => Token::IF,
            Token::ELSE => Token::ELSE,
            Token::MATCH => Token::MATCH,
            Token::WHILE => Token::WHILE,
            Token::LOOP => Token::LOOP,
            Token::BREAK => Token::BREAK,
            Token::OR => Token::OR,
            Token::AND => Token::AND,
            Token::NOT => Token::NOT,
            Token::EQ => Token::EQ,
            Token::NE => Token::NE,
            Token::LT => Token::LT,
            Token::LE => Token::LE,
            Token::GT => Token::GT,
            Token::GE => Token::GE,
            Token::RANGE => Token::RANGE,
            Token::RANGEI => Token::RANGEI,
            Token::ADD => Token::ADD,
            Token::SUB => Token::SUB,
            Token::MUL => Token::MUL,
            Token::DIV => Token::DIV,
            Token::IDIV => Token::IDIV,
            Token::MOD => Token::MOD,
            Token::POW => Token::POW,
            Token::DIE => Token::DIE,
            Token::DOT => Token::DOT,
            Token::LPAREN => Token::LPAREN,
            Token::RPAREN => Token::RPAREN,
            Token::LBRACKET => Token::LBRACKET,
            Token::RBRACKET => Token::RBRACKET,
            Token::LBRACE => Token::LBRACE,
            Token::RBRACE => Token::RBRACE,
            Token::SKIP => Token::SKIP,
            Token::ERROR => Token::ERROR,
            Token::String(x) => Token::String(x.clone()),
            Token::Number(NumberKind::Float(f)) => Token::Number(NumberKind::Float(f.copy())),
            Token::Number(NumberKind::Integer(i)) => Token::Number(NumberKind::Integer(*i)),
            Token::Number(NumberKind::Index(i)) => Token::Number(NumberKind::Index(*i)),
            Token::Id(x) => Token::Id(x.clone()),
        }
    }
}


impl View for Token {
    type V = TokenV;

    open spec fn view(&self) -> TokenV {
        match self {
            Token::DELIM => TokenV::DELIM,
            Token::COMMA => TokenV::COMMA,
            Token::COLON => TokenV::COLON,
            Token::ASSIGN => TokenV::ASSIGN,
            Token::ASSIGNE => TokenV::ASSIGNE,
            Token::ARROW => TokenV::ARROW,
            Token::SPREAD => TokenV::SPREAD,
            Token::FOR => TokenV::FOR,
            Token::IN => TokenV::IN,
            Token::IF => TokenV::IF,
            Token::ELSE => TokenV::ELSE,
            Token::MATCH => TokenV::MATCH,
            Token::WHILE => TokenV::WHILE,
            Token::LOOP => TokenV::LOOP,
            Token::BREAK => TokenV::BREAK,
            Token::OR => TokenV::OR,
            Token::AND => TokenV::AND,
            Token::NOT => TokenV::NOT,
            Token::EQ => TokenV::EQ,
            Token::NE => TokenV::NE,
            Token::LT => TokenV::LT,
            Token::LE => TokenV::LE,
            Token::GT => TokenV::GT,
            Token::GE => TokenV::GE,
            Token::RANGE => TokenV::RANGE,
            Token::RANGEI => TokenV::RANGEI,
            Token::ADD => TokenV::ADD,
            Token::SUB => TokenV::SUB,
            Token::MUL => TokenV::MUL,
            Token::DIV => TokenV::DIV,
            Token::IDIV => TokenV::IDIV,
            Token::MOD => TokenV::MOD,
            Token::POW => TokenV::POW,
            Token::DIE => TokenV::DIE,
            Token::DOT => TokenV::DOT,
            Token::LPAREN => TokenV::LPAREN,
            Token::RPAREN => TokenV::RPAREN,
            Token::LBRACKET => TokenV::LBRACKET,
            Token::RBRACKET => TokenV::RBRACKET,
            Token::LBRACE => TokenV::LBRACE,
            Token::RBRACE => TokenV::RBRACE,
            Token::String(s) => TokenV::String(s@),
            Token::Number(n) => TokenV::Number(n@),
            Token::Id(s) => TokenV::Id(s@),
            Token::SKIP => TokenV::SKIP,
            Token::ERROR => TokenV::ERROR,
        }
    }
}

/// A number that tells the variants of a token apart.
pub open spec fn token_code(t: TokenV) -> int {
    match t {
        TokenV::DELIM => 0,
        TokenV::COMMA => 1,
        TokenV::COLON => 2,
        TokenV::ASSIGN => 3,
        TokenV::ASSIGNE => 4,
        TokenV::ARROW => 5,
        TokenV::SPREAD => 6,
        TokenV::FOR => 7,
        TokenV::IN => 8,
        TokenV::IF => 9,
        TokenV::ELSE => 10,
        TokenV::MATCH => 11,
        TokenV::WHILE => 12,
        TokenV::LOOP => 13,
        TokenV::BREAK => 14,
        TokenV::OR => 15,
        TokenV::AND => 16,
        TokenV::NOT => 17,
        TokenV::EQ => 18,
        TokenV::NE => 19,
        TokenV::LT => 20,
        TokenV::LE => 21,
        TokenV::GT => 22,
        TokenV::GE => 23,
        TokenV::RANGE => 24,
        TokenV::RANGEI => 25,
        TokenV::ADD => 26,
        TokenV::SUB => 27,
        TokenV::MUL => 28,
        TokenV::DIV => 29,
        TokenV::IDIV => 30,
        TokenV::MOD => 31,
        TokenV::POW => 32,
        TokenV::DIE => 33,
        TokenV::DOT => 34,
        TokenV::LPAREN => 35,
        TokenV::RPAREN => 36,
        TokenV::LBRACKET => 37,
        TokenV::RBRACKET => 38,
        TokenV::LBRACE => 39,
        TokenV::RBRACE => 40,
        TokenV::String(_) => 41,
        TokenV::Number(_) => 42,
        TokenV::Id(_) => 43,
        TokenV::SKIP => 44,
        TokenV::ERROR => 45,
    }
}

impl Token {
    /// The variant number of the token (see `token_code`).
    pub fn code(&self) -> (r: u8)
        ensures
            r as int == token_code(self@),
    {
        match self {
            Token::DELIM => 0,
            Token::COMMA => 1,
            Token::COLON => 2,
            Token::ASSIGN => 3,
            Token::ASSIGNE => 4,
            Token::ARROW => 5,
            Token::SPREAD => 6,
            Token::FOR => 7,
            Token::IN => 8,
            Token::IF => 9,
            Token::ELSE => 10,
            Token::MATCH => 11,
            Token::WHILE => 12,
            Token::LOOP => 13,
            Token::BREAK => 14,
            Token::OR => 15,
            Token::AND => 16,
            Token::NOT => 17,
            Token::EQ => 18,
            Token::NE => 19,
            Token::LT => 20,
            Token::LE => 21,
            Token::GT => 22,
            Token::GE => 23,
            Token::RANGE => 24,
            Token::RANGEI => 25,
            Token::ADD => 26,
            Token::SUB => 27,
            Token::MUL => 28,
            Token::DIV => 29,
            Token::IDIV => 30,
            Token::MOD => 31,
            Token::POW => 32,
            Token::DIE => 33,
            Token::DOT => 34,
            Token::LPAREN => 35,
            Token::RPAREN => 36,
            Token::LBRACKET => 37,
            Token::RBRACKET => 38,
            Token::LBRACE => 39,
            Token::RBRACE => 40,
            Token::String(_) => 41,
            Token::Number(_) => 42,
            Token::Id(_) => 43,
            Token::SKIP => 44,
            Token::ERROR => 45,
        }
    }
}

/// Variants without a payload are told apart by their number alone.
pub proof fn lemma_code_determines_unit(a: TokenV, b: TokenV)
    ensures
        (token_code(a) == token_code(b) && (token_code(a) < 41 || token_code(a) >= 44)) ==> a == b,
        (a is String || a is Number || a is Id) ==> 41 <= token_code(a) < 44,
{
}

impl PartialEq for Token {
    fn eq(&self, other: &Self) -> (r: bool) {
        match (self, other) {
            (Token::String(a), Token::String(b)) => *a == *b,
            (Token::Number(a), Token::Number(b)) => a.eq(b),
            (Token::Id(a), Token::Id(b)) => *a == *b,
            _ => {
                proof {
                    lemma_code_determines_unit(self@, other@);
                }
                self.code() == other.code() && self.code() < 41 && other.code() < 41
                || self.code() == 44 && other.code() == 44
                || self.code() == 45 && other.code() == 45
            },
        }
    }
}

impl PartialEqSpecImpl for Token {
    open spec fn obeys_eq_spec() -> bool {
        true
    }

    open spec fn eq_spec(&self, other: &Token) -> bool {
        self@ == other@
    }
}

} // verus!
