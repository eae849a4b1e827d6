//! Tokens of the Y language and the lexer that produces them from source text.
use vstd::prelude::*;

verus! {

/// A region of the source text, as character offsets `[start, end)`.
#[derive(Debug, Clone, Copy, PartialEq, Eq, Structural)]
pub struct Span {
    pub start: usize,
    pub end: usize,
}

impl Span {
    pub fn new(start: usize, end: usize) -> (s: Span)
        ensures
            s.start == start,
            s.end == end,
    {
        Span { start, end }
    }
}

impl Default for Span {
    fn default() -> (s: Span)
        ensures
            s.start == 0,
            s.end == 0,
    {
        Span { start: 0, end: 0 }
    }
}

/// The span that every position-free value carries.
pub open spec fn empty_span() -> Span {
    Span { start: 0, end: 0 }
}

/// Every token kind that carries no data besides its position.
#[derive(Debug, Clone, Copy, PartialEq, Eq, Structural)]
pub enum Terminal {
    Let,
    Const,
    Mut,
    FnKeyword,
    IfKeyword,
    ElseKeyword,
    WhileKeyword,
    ReturnKeyword,
    DeclareKeyword,
    StructKeyword,
    InstanceKeyword,
    TrueKeyword,
    FalseKeyword,
    Assign,
    Equal,
    LParen,
    RParen,
    LBrace,
    RBrace,
    LBracket,
    RBracket,
    Minus,
    Plus,
    Times,
    Slash,
    ExclamationMark,
    Colon,
    Comma,
    Dot,
    Semicolon,
    SmallRightArrow,
    BigRightArrow,
    Backslash,
    Ampersand,
    GreaterThan,
    LessThan,
    GreaterOrEqual,
    LessOrEqual,
}

/// A token of the Y language together with its position in the source.
#[derive(Debug, PartialEq, Eq)]
pub enum Token {
    Let { position: Span },
    Const { position: Span },
    Mut { position: Span },
    FnKeyword { position: Span },
    IfKeyword { position: Span },
    ElseKeyword { position: Span },
    WhileKeyword { position: Span },
    ReturnKeyword { position: Span },
    DeclareKeyword { position: Span },
    StructKeyword { position: Span },
    InstanceKeyword { position: Span },
    TrueKeyword { position: Span },
    FalseKeyword { position: Span },
    Assign { position: Span },
    Equal { position: Span },
    LParen { position: Span },
    RParen { position: Span },
    LBrace { position: Span },
    RBrace { position: Span },
    LBracket { position: Span },
    RBracket { position: Span },
    Minus { position: Span },
    Plus { position: Span },
    Times { position: Span },
    Slash { position: Span },
    ExclamationMark { position: Span },
    Colon { position: Span },
    Comma { position: Span },
    Dot { position: Span },
    Semicolon { position: Span },
    SmallRightArrow { position: Span },
    BigRightArrow { position: Span },
    Backslash { position: Span },
    Ampersand { position: Span },
    GreaterThan { position: Span },
    LessThan { position: Span },
    GreaterOrEqual { position: Span },
    LessOrEqual { position: Span },
    Id { value: String, position: Span },
    Integer { value: u64, position: Span },
    /// A floating point literal, kept as the digits it was written with.
    FloatingPoint { value: String, position: Span },
    Character { value: char, position: Span },
    String { value: String, position: Span },
    Comment { value: String, position: Span },
}

/// What a token stands for, without its position.
pub enum Lexeme {
    Term(Terminal),
    Id(Seq<char>),
    Int(u64),
    Float(Seq<char>),
    Chr(char),
    Str(Seq<char>),
    Comment(Seq<char>),
}

impl Token {
    pub open spec fn lexeme(&self) -> Lexeme {
        match self {
            Token::Id { value, .. } => Lexeme::Id(value@),
            Token::Integer { value, .. } => Lexeme::Int(*value),
            Token::FloatingPoint { value, .. } => Lexeme::Float(value@),
            Token::Character { value, .. } => Lexeme::Chr(*value),
            Token::String { value, .. } => Lexeme::Str(value@),
            Token::Comment { value, .. } => Lexeme::Comment(value@),
            _ => Lexeme::Term(self.spec_terminal()),
        }
    }

    /// The terminal of a data-less token (`Let` for every token that carries data).
    pub open spec fn spec_terminal(&self) -> Terminal {
        match self {
            Token::Let { .. } => Terminal::Let,
            Token::Const { .. } => Terminal::Const,
            Token::Mut { .. } => Terminal::Mut,
            Token::FnKeyword { .. } => Terminal::FnKeyword,
            Token::IfKeyword { .. } => Terminal::IfKeyword,
            Token::ElseKeyword { .. } => Terminal::ElseKeyword,
            Token::WhileKeyword { .. } => Terminal::WhileKeyword,
            Token::ReturnKeyword { .. } => Terminal::ReturnKeyword,
            Token::DeclareKeyword { .. } => Terminal::DeclareKeyword,
            Token::StructKeyword { .. } => Terminal::StructKeyword,
            Token::InstanceKeyword { .. } => Terminal::InstanceKeyword,
            Token::TrueKeyword { .. } => Terminal::TrueKeyword,
            Token::FalseKeyword { .. } => Terminal::FalseKeyword,
            Token::Assign { .. } => Terminal::Assign,
            Token::Equal { .. } => Terminal::Equal,
            Token::LParen { .. } => Terminal::LParen,
            Token::RParen { .. } => Terminal::RParen,
            Token::LBrace { .. } => Terminal::LBrace,
            Token::RBrace { .. } => Terminal::RBrace,
            Token::LBracket { .. } => Terminal::LBracket,
            Token::RBracket { .. } => Terminal::RBracket,
            Token::Minus { .. } => Terminal::Minus,
            Token::Plus { .. } => Terminal::Plus,
            Token::Times { .. } => Terminal::Times,
            Token::Slash { .. } => Terminal::Slash,
            Token::ExclamationMark { .. } => Terminal::ExclamationMark,
            Token::Colon { .. } => Terminal::Colon,
            Token::Comma { .. } => Terminal::Comma,
            Token::Dot { .. } => Terminal::Dot,
            Token::Semicolon { .. } => Terminal::Semicolon,
            Token::SmallRightArrow { .. } => Terminal::SmallRightArrow,
            Token::BigRightArrow { .. } => Terminal::BigRightArrow,
            Token::Backslash { .. } => Terminal::Backslash,
            Token::Ampersand { .. } => Terminal::Ampersand,
            Token::GreaterThan { .. } => Terminal::GreaterThan,
            Token::LessThan { .. } => Terminal::LessThan,
            Token::GreaterOrEqual { .. } => Terminal::GreaterOrEqual,
            Token::LessOrEqual { .. } => Terminal::LessOrEqual,
            _ => Terminal::Let,
        }
    }

    pub open spec fn spec_position(&self) -> Span {
        match self {
            Token::Let { position } => *position,
            Token::Const { position } => *position,
            Token::Mut { position } => *position,
            Token::FnKeyword { position } => *position,
            Token::IfKeyword { position } => *position,
            Token::ElseKeyword { position } => *position,
            Token::WhileKeyword { position } => *position,
            Token::ReturnKeyword { position } => *position,
            Token::DeclareKeyword { position } => *position,
            Token::StructKeyword { position } => *position,
            Token::InstanceKeyword { position } => *position,
            Token::TrueKeyword { position } => *position,
            Token::FalseKeyword { position } => *position,
            Token::Assign { position } => *position,
            Token::Equal { position } => *position,
            Token::LParen { position } => *position,
            Token::RParen { position } => *position,
            Token::LBrace { position } => *position,
            Token::RBrace { position } => *position,
            Token::LBracket { position } => *position,
            Token::RBracket { position } => *position,
            Token::Minus { position } => *position,
            Token::Plus { position } => *position,
            Token::Times { position } => *position,
            Token::Slash { position } => *position,
            Token::ExclamationMark { position } => *position,
            Token::Colon { position } => *position,
            Token::Comma { position } => *position,
            Token::Dot { position } => *position,
            Token::Semicolon { position } => *position,
            Token::SmallRightArrow { position } => *position,
            Token::BigRightArrow { position } => *position,
            Token::Backslash { position } => *position,
            Token::Ampersand { position } => *position,
            Token::GreaterThan { position } => *position,
            Token::LessThan { position } => *position,
            Token::GreaterOrEqual { position } => *position,
            Token::LessOrEqual { position } => *position,
            Token::Id { position, .. } => *position,
            Token::Integer { position, .. } => *position,
            Token::FloatingPoint { position, .. } => *position,
            Token::Character { position, .. } => *position,
            Token::String { position, .. } => *position,
            Token::Comment { position, .. } => *position,
        }
    }

    /// The position of this token in the source.
    #[verifier::when_used_as_spec(spec_position)]
    pub fn position(&self) -> (p: Span)
        ensures
            p == self.spec_position(),
    {
        match self {
            Token::Let { position } => *position,
            Token::Const { position } => *position,
            Token::Mut { position } => *position,
            Token::FnKeyword { position } => *position,
            Token::IfKeyword { position } => *position,
            Token::ElseKeyword { position } => *position,
            Token::WhileKeyword { position } => *position,
            Token::ReturnKeyword { position } => *position,
            Token::DeclareKeyword { position } => *position,
            Token::StructKeyword { position } => *position,
            Token::InstanceKeyword { position } => *position,
            Token::TrueKeyword { position } => *position,
            Token::FalseKeyword { position } => *position,
            Token::Assign { position } => *position,
            Token::Equal { position } => *position,
            Token::LParen { position } => *position,
            Token::RParen { position } => *position,
            Token::LBrace { position } => *position,
            Token::RBrace { position } => *position,
            Token::LBracket { position } => *position,
            Token::RBracket { position } => *position,
            Token::Minus { position } => *position,
            Token::Plus { position } => *position,
            Token::Times { position } => *position,
            Token::Slash { position } => *position,
            Token::ExclamationMark { position } => *position,
            Token::Colon { position } => *position,
            Token::Comma { position } => *position,
            Token::Dot { position } => *position,
            Token::Semicolon { position } => *position,
            Token::SmallRightArrow { position } => *position,
            Token::BigRightArrow { position } => *position,
            Token::Backslash { position } => *position,
            Token::Ampersand { position } => *position,
            Token::GreaterThan { position } => *position,
            Token::LessThan { position } => *position,
            Token::GreaterOrEqual { position } => *position,
            Token::LessOrEqual { position } => *position,
            Token::Id { position, .. } => *position,
            Token::Integer { position, .. } => *position,
            Token::FloatingPoint { position, .. } => *position,
            Token::Character { position, .. } => *position,
            Token::String { position, .. } => *position,
            Token::Comment { position, .. } => *position,
        }
    }

    /// Whether this token is the given terminal.
    pub fn is_terminal(&self, terminal: Terminal) -> (b: bool)
        ensures
            b == (self.lexeme() == Lexeme::Term(terminal)),
    {
        match self {
            Token::Id { .. } | Token::Integer { .. } | Token::FloatingPoint { .. }
            | Token::Character { .. } | Token::String { .. } | Token::Comment { .. } => false,
            _ => self.terminal() == terminal,
        }
    }

    /// The terminal of a data-less token (`Let` for every token that carries data).
    #[verifier::when_used_as_spec(spec_terminal)]
    pub fn terminal(&self) -> (t: Terminal)
        ensures
            t == self.spec_terminal(),
    {
        match self {
            Token::Let { .. } => Terminal::Let,
            Token::Const { .. } => Terminal::Const,
            Token::Mut { .. } => Terminal::Mut,
            Token::FnKeyword { .. } => Terminal::FnKeyword,
            Token::IfKeyword { .. } => Terminal::IfKeyword,
            Token::ElseKeyword { .. } => Terminal::ElseKeyword,
            Token::WhileKeyword { .. } => Terminal::WhileKeyword,
            Token::ReturnKeyword { .. } => Terminal::ReturnKeyword,
            Token::DeclareKeyword { .. } => Terminal::DeclareKeyword,
            Token::StructKeyword { .. } => Terminal::StructKeyword,
            Token::InstanceKeyword { .. } => Terminal::InstanceKeyword,
            Token::TrueKeyword { .. } => Terminal::TrueKeyword,
            Token::FalseKeyword { .. } => Terminal::FalseKeyword,
            Token::Assign { .. } => Terminal::Assign,
            Token::Equal { .. } => Terminal::Equal,
            Token::LParen { .. } => Terminal::LParen,
            Token::RParen { .. } => Terminal::RParen,
            Token::LBrace { .. } => Terminal::LBrace,
            Token::RBrace { .. } => Terminal::RBrace,
            Token::LBracket { .. } => Terminal::LBracket,
            Token::RBracket { .. } => Terminal::RBracket,
            Token::Minus { .. } => Terminal::Minus,
            Token::Plus { .. } => Terminal::Plus,
            Token::Times { .. } => Terminal::Times,
            Token::Slash { .. } => Terminal::Slash,
            Token::ExclamationMark { .. } => Terminal::ExclamationMark,
            Token::Colon { .. } => Terminal::Colon,
            Token::Comma { .. } => Terminal::Comma,
            Token::Dot { .. } => Terminal::Dot,
            Token::Semicolon { .. } => Terminal::Semicolon,
            Token::SmallRightArrow { .. } => Terminal::SmallRightArrow,
            Token::BigRightArrow { .. } => Terminal::BigRightArrow,
            Token::Backslash { .. } => Terminal::Backslash,
            Token::Ampersand { .. } => Terminal::Ampersand,
            Token::GreaterThan { .. } => Terminal::GreaterThan,
            Token::LessThan { .. } => Terminal::LessThan,
            Token::GreaterOrEqual { .. } => Terminal::GreaterOrEqual,
            Token::LessOrEqual { .. } => Terminal::LessOrEqual,
            _ => Terminal::Let,
        }
    }
}

impl Clone for Token {
    fn clone(&self) -> (t: Token)
        ensures
            t == *self,
    {
        match self {
            Token::Id { value, position } => Token::Id { value: value.clone(), position: *position },
            Token::Integer { value, position } => Token::Integer { value: *value, position: *position },
            Token::FloatingPoint { value, position } => Token::FloatingPoint {
                value: value.clone(),
                position: *position,
            },
            Token::Character { value, position } => Token::Character {
                value: *value,
                position: *position,
            },
            Token::String { value, position } => Token::String { value: value.clone(), position: *position },
            Token::Comment { value, position } => Token::Comment { value: value.clone(), position: *position },
            _ => self.terminal().at(self.position()),
        }
    }
}

impl Terminal {
    /// Build the token for this terminal at a position.
    pub fn at(self, position: Span) -> (t: Token)
        ensures
            t.lexeme() == Lexeme::Term(self),
            t.spec_position() == position,
    {
        match self {
            Terminal::Let => Token::Let { position },
            Terminal::Const => Token::Const { position },
            Terminal::Mut => Token::Mut { position },
            Terminal::FnKeyword => Token::FnKeyword { position },
            Terminal::IfKeyword => Token::IfKeyword { position },
            Terminal::ElseKeyword => Token::ElseKeyword { position },
            Terminal::WhileKeyword => Token::WhileKeyword { position },
            Terminal::ReturnKeyword => Token::ReturnKeyword { position },
            Terminal::DeclareKeyword => Token::DeclareKeyword { position },
            Terminal::StructKeyword => Token::StructKeyword { position },
            Terminal::InstanceKeyword => Token::InstanceKeyword { position },
            Terminal::TrueKeyword => Token::TrueKeyword { position },
            Terminal::FalseKeyword => Token::FalseKeyword { position },
            Terminal::Assign => Token::Assign { position },
            Terminal::Equal => Token::Equal { position },
            Terminal::LParen => Token::LParen { position },
            Terminal::RParen => Token::RParen { position },
            Terminal::LBrace => Token::LBrace { position },
            Terminal::RBrace => Token::RBrace { position },
            Terminal::LBracket => Token::LBracket { position },
            Terminal::RBracket => Token::RBracket { position },
            Terminal::Minus => Token::Minus { position },
            Terminal::Plus => Token::Plus { position },
            Terminal::Times => Token::Times { position },
            Terminal::Slash => Token::Slash { position },
            Terminal::ExclamationMark => Token::ExclamationMark { position },
            Terminal::Colon => Token::Colon { position },
            Terminal::Comma => Token::Comma { position },
            Terminal::Dot => Token::Dot { position },
            Terminal::Semicolon => Token::Semicolon { position },
            Terminal::SmallRightArrow => Token::SmallRightArrow { position },
            Terminal::BigRightArrow => Token::BigRightArrow { position },
            Terminal::Backslash => Token::Backslash { position },
            Terminal::Ampersand => Token::Ampersand { position },
            Terminal::GreaterThan => Token::GreaterThan { position },
            Terminal::LessThan => Token::LessThan { position },
            Terminal::GreaterOrEqual => Token::GreaterOrEqual { position },
            Terminal::LessOrEqual => Token::LessOrEqual { position },
        }
    }
}

} // verus!

verus! {

pub open spec fn is_whitespace(c: char) -> bool {
    c == ' ' || c == '\t' || c == '\n' || c == '\r'
}

pub open spec fn is_digit(c: char) -> bool {
    '0' <= c && c <= '9'
}

pub open spec fn is_ident_start(c: char) -> bool {
    ('a' <= c && c <= 'z') || ('A' <= c && c <= 'Z') || c == '_'
}

pub open spec fn is_ident_char(c: char) -> bool {
    is_ident_start(c) || is_digit(c)
}

/// The text of a terminal.
pub open spec fn terminal_text(t: Terminal) -> Seq<char> {
    match t {
        Terminal::Let => seq!['l', 'e', 't'],
        Terminal::Const => seq!['c', 'o', 'n', 's', 't'],
        Terminal::Mut => seq!['m', 'u', 't'],
        Terminal::FnKeyword => seq!['f', 'n'],
        Terminal::IfKeyword => seq!['i', 'f'],
        Terminal::ElseKeyword => seq!['e', 'l', 's', 'e'],
        Terminal::WhileKeyword => seq!['w', 'h', 'i', 'l', 'e'],
        Terminal::ReturnKeyword => seq!['r', 'e', 't', 'u', 'r', 'n'],
        Terminal::DeclareKeyword => seq!['d', 'e', 'c', 'l', 'a', 'r', 'e'],
        Terminal::StructKeyword => seq!['s', 't', 'r', 'u', 'c', 't'],
        Terminal::InstanceKeyword => seq!['i', 'n', 's', 't', 'a', 'n', 'c', 'e'],
        Terminal::TrueKeyword => seq!['t', 'r', 'u', 'e'],
        Terminal::FalseKeyword => seq!['f', 'a', 'l', 's', 'e'],
        Terminal::Assign => seq!['='],
        Terminal::Equal => seq!['=', '='],
        Terminal::LParen => seq!['('],
        Terminal::RParen => seq![')'],
        Terminal::LBrace => seq!['{'],
        Terminal::RBrace => seq!['}'],
        Terminal::LBracket => seq!['['],
        Terminal::RBracket => seq![']'],
        Terminal::Minus => seq!['-'],
        Terminal::Plus => seq!['+'],
        Terminal::Times => seq!['*'],
        Terminal::Slash => seq!['/'],
        Terminal::ExclamationMark => seq!['!'],
        Terminal::Colon => seq![':'],
        Terminal::Comma => seq![','],
        Terminal::Dot => seq!['.'],
        Terminal::Semicolon => seq![';'],
        Terminal::SmallRightArrow => seq!['-', '>'],
        Terminal::BigRightArrow => seq!['=', '>'],
        Terminal::Backslash => seq!['\\'],
        Terminal::Ampersand => seq!['&'],
        Terminal::GreaterThan => seq!['>'],
        Terminal::LessThan => seq!['<'],
        Terminal::GreaterOrEqual => seq!['>', '='],
        Terminal::LessOrEqual => seq!['<', '='],
    }
}

/// The keyword that a word spells, if any.
pub open spec fn keyword(word: Seq<char>) -> Option<Terminal> {
    if word == terminal_text(Terminal::Let) {
        Some(Terminal::Let)
    } else if word == terminal_text(Terminal::Const) {
        Some(Terminal::Const)
    } else if word == terminal_text(Terminal::Mut) {
        Some(Terminal::Mut)
    } else if word == terminal_text(Terminal::FnKeyword) {
        Some(Terminal::FnKeyword)
    } else if word == terminal_text(Terminal::IfKeyword) {
        Some(Terminal::IfKeyword)
    } else if word == terminal_text(Terminal::ElseKeyword) {
        Some(Terminal::ElseKeyword)
    } else if word == terminal_text(Terminal::WhileKeyword) {
        Some(Terminal::WhileKeyword)
    } else if word == terminal_text(Terminal::ReturnKeyword) {
        Some(Terminal::ReturnKeyword)
    } else if word == terminal_text(Terminal::DeclareKeyword) {
        Some(Terminal::DeclareKeyword)
    } else if word == terminal_text(Terminal::StructKeyword) {
        Some(Terminal::StructKeyword)
    } else if word == terminal_text(Terminal::InstanceKeyword) {
        Some(Terminal::InstanceKeyword)
    } else if word == terminal_text(Terminal::TrueKeyword) {
        Some(Terminal::TrueKeyword)
    } else if word == terminal_text(Terminal::FalseKeyword) {
        Some(Terminal::FalseKeyword)
    } else {
        None
    }
}

/// The number that a sequence of decimal digits denotes.
pub open spec fn decimal_value(digits: Seq<char>) -> nat
    decreases digits.len(),
{
    if digits.len() == 0 {
        0
    } else {
        decimal_value(digits.drop_last()) * 10 + (digits.last() as nat - '0' as nat) as nat
    }
}

pub open spec fn all_digits(s: Seq<char>) -> bool {
    forall|k: int| 0 <= k < s.len() ==> is_digit(#[trigger] s[k])
}

pub open spec fn all_ident_chars(s: Seq<char>) -> bool {
    forall|k: int| 0 <= k < s.len() ==> is_ident_char(#[trigger] s[k])
}

/// Whether `text` is a way of writing the lexeme `l`.
pub open spec fn spells(l: Lexeme, text: Seq<char>) -> bool {
    match l {
        Lexeme::Term(t) => text == terminal_text(t),
        Lexeme::Id(name) => {
            &&& text == name
            &&& name.len() > 0
            &&& is_ident_start(name[0])
            &&& all_ident_chars(name)
            &&& keyword(name) is None
        },
        Lexeme::Int(v) => {
            &&& text.len() > 0
            &&& all_digits(text)
            &&& decimal_value(text) == v
        },
        Lexeme::Float(digits) => {
            &&& text == digits
            &&& exists|k: int|
                0 < k < text.len() - 1 && text[k] == '.' && all_digits(text.take(k))
                    && all_digits(text.skip(k + 1))
        },
        Lexeme::Chr(c) => text == seq!['\'', c, '\''],
        Lexeme::Str(s) => text == seq!['"'] + s + seq!['"'] && !s.contains('"'),
        Lexeme::Comment(s) => text == seq!['/', '/'] + s && !s.contains('\n'),
    }
}

/// Where the `i`-th gap between tokens starts.
pub open spec fn gap_start(tokens: Seq<Token>, i: int) -> int {
    if i == 0 {
        0
    } else {
        tokens[i - 1].spec_position().end as int
    }
}

/// Where the `i`-th gap between tokens ends (`end` after the last token).
pub open spec fn gap_end(tokens: Seq<Token>, i: int, end: int) -> int {
    if i < tokens.len() {
        tokens[i].spec_position().start as int
    } else {
        end
    }
}

/// `tokens` spell `src.take(end)`: each token is spelled by the text at its position,
/// the tokens follow each other in order, and only whitespace lies between them.
pub open spec fn lexes_prefix(src: Seq<char>, tokens: Seq<Token>, end: int) -> bool {
    &&& 0 <= end <= src.len()
    &&& forall|i: int|
        0 <= i < tokens.len() ==> {
            let p = #[trigger] tokens[i].spec_position();
            &&& p.start < p.end <= end
            &&& spells(tokens[i].lexeme(), src.subrange(p.start as int, p.end as int))
        }
    &&& forall|i: int|
        0 <= i <= tokens.len() ==> gap_start(tokens, i) <= gap_end(tokens, i, end) && (forall|k: int|
            gap_start(tokens, i) <= k < gap_end(tokens, i, end) ==> is_whitespace(#[trigger] src[k]))
}

/// The end of the run of digits that starts at `i`.
pub open spec fn digits_end(src: Seq<char>, i: int) -> int
    decreases src.len() - i,
{
    if 0 <= i < src.len() && is_digit(src[i]) {
        digits_end(src, i + 1)
    } else {
        i
    }
}

/// Whether a character can begin a token or be skipped as whitespace.
pub open spec fn starts_token(c: char) -> bool {
    ||| is_whitespace(c)
    ||| is_ident_start(c)
    ||| is_digit(c)
    ||| c == '"'
    ||| c == '\''
    ||| c == '=' || c == '(' || c == ')' || c == '{' || c == '}' || c == '[' || c == ']'
    ||| c == '-' || c == '+' || c == '*' || c == '/' || c == '!' || c == ':' || c == ','
    ||| c == '.' || c == ';' || c == '\\' || c == '&' || c == '>' || c == '<'
}

/// Whether a token that begins at `i` cannot be lexed: an integer too large for 64 bits
/// (that does not go on as a floating point number), a string literal without its closing
/// quote, a character literal that is not one character between quotes, or a character that
/// begins no token.
pub open spec fn lex_error_at(src: Seq<char>, i: int) -> bool {
    let c = src[i];
    let e = digits_end(src, i);
    ||| is_digit(c) && decimal_value(src.subrange(i, e)) > u64::MAX && !(e + 1 < src.len()
        && src[e] == '.' && is_digit(src[e + 1]))
    ||| c == '"' && forall|k: int| i < k < src.len() ==> src[k] != '"'
    ||| c == '\'' && !(i + 2 < src.len() && src[i + 2] == '\'')
    ||| !starts_token(c)
}

/// The operators spelled with two characters: `==`, `=>`, `->`, `>=` and `<=`.
pub open spec fn is_two_character_operator(t: Terminal) -> bool {
    t == Terminal::Equal || t == Terminal::BigRightArrow || t == Terminal::SmallRightArrow || t
        == Terminal::GreaterOrEqual || t == Terminal::LessOrEqual
}

/// Lexing takes the longest operator: a token that starts where the text spells an operator
/// of two characters is that operator, not an operator of one character.
pub open spec fn takes_longest_operators(src: Seq<char>, tokens: Seq<Token>) -> bool {
    forall|k: int, t: Terminal|
        0 <= k < tokens.len() && is_two_character_operator(t) && tokens[k].spec_position().start + 2
            <= src.len() && #[trigger] src.subrange(
            tokens[k].spec_position().start as int,
            tokens[k].spec_position().start + 2,
        ) == #[trigger] terminal_text(t) ==> tokens[k].lexeme() == Lexeme::Term(t)
}

/// Text that spells an operator of two characters begins with one of `=`, `-`, `>` and `<`,
/// and its two characters tell which operator it is.
proof fn lemma_two_character_operator_text(src: Seq<char>, i: int, t: Terminal)
    requires
        is_two_character_operator(t),
        0 <= i,
        i + 2 <= src.len(),
        src.subrange(i, i + 2) == terminal_text(t),
    ensures
        src[i] == '=' && src[i + 1] == '=' ==> t == Terminal::Equal,
        src[i] == '=' && src[i + 1] == '>' ==> t == Terminal::BigRightArrow,
        src[i] == '-' && src[i + 1] == '>' ==> t == Terminal::SmallRightArrow,
        src[i] == '>' && src[i + 1] == '=' ==> t == Terminal::GreaterOrEqual,
        src[i] == '<' && src[i + 1] == '=' ==> t == Terminal::LessOrEqual,
        (src[i] == '=' && (src[i + 1] == '=' || src[i + 1] == '>')) || (src[i] == '-' && src[i + 1]
            == '>') || ((src[i] == '>' || src[i] == '<') && src[i + 1] == '='),
{
    assert(src.subrange(i, i + 2)[0] == src[i]);
    assert(src.subrange(i, i + 2)[1] == src[i + 1]);
}

/// A lexing that takes the longest operators never has two adjacent tokens of one character
/// each that together spell an operator of two characters: `a >= b` is never `a`, `>`, `=`,
/// `b`.
pub proof fn law_no_split_operators(src: Seq<char>, tokens: Seq<Token>, k: int, a: Terminal, b: Terminal, t: Terminal)
    requires
        lexes(src, tokens),
        takes_longest_operators(src, tokens),
        0 <= k < tokens.len() - 1,
        tokens[k].spec_position().end == tokens[k + 1].spec_position().start,
        tokens[k].lexeme() == Lexeme::Term(a),
        tokens[k + 1].lexeme() == Lexeme::Term(b),
        terminal_text(a).len() == 1,
        terminal_text(b).len() == 1,
        is_two_character_operator(t),
    ensures
        terminal_text(a) + terminal_text(b) != terminal_text(t),
{
    let p = tokens[k].spec_position();
    let q = tokens[k + 1].spec_position();
    assert(spells(tokens[k].lexeme(), src.subrange(p.start as int, p.end as int)));
    assert(spells(tokens[k + 1].lexeme(), src.subrange(q.start as int, q.end as int)));
    assert(src.subrange(p.start as int, p.start + 2) =~= src.subrange(p.start as int, p.end as int)
        + src.subrange(q.start as int, q.end as int));
    if terminal_text(a) + terminal_text(b) == terminal_text(t) {
        assert(tokens[k].lexeme() == Lexeme::Term(t));
        assert(terminal_text(t).len() == 2);
    }
}

proof fn lemma_push_longest(src: Seq<char>, tokens: Seq<Token>, tok: Token)
    requires
        takes_longest_operators(src, tokens),
        forall|t: Terminal|
            is_two_character_operator(t) && tok.spec_position().start + 2 <= src.len()
                && #[trigger] src.subrange(
                tok.spec_position().start as int,
                tok.spec_position().start + 2,
            ) == terminal_text(t) ==> tok.lexeme() == Lexeme::Term(t),
    ensures
        takes_longest_operators(src, tokens.push(tok)),
{
    let t2 = tokens.push(tok);
    assert forall|k: int, t: Terminal|
        0 <= k < t2.len() && is_two_character_operator(t) && t2[k].spec_position().start + 2
            <= src.len() && #[trigger] src.subrange(
            t2[k].spec_position().start as int,
            t2[k].spec_position().start + 2,
        ) == #[trigger] terminal_text(t) implies t2[k].lexeme() == Lexeme::Term(t) by {
        if k < tokens.len() {
            assert(t2[k] == tokens[k]);
        } else {
            assert(t2[k] == tok);
        }
    }
}

/// `tokens` are a lexing of the whole of `src`.
pub open spec fn lexes(src: Seq<char>, tokens: Seq<Token>) -> bool {
    lexes_prefix(src, tokens, src.len() as int)
}

} // verus!

verus! {

fn is_whitespace_char(c: char) -> (b: bool)
    ensures
        b == is_whitespace(c),
{
    c == ' ' || c == '\t' || c == '\n' || c == '\r'
}

fn is_digit_char(c: char) -> (b: bool)
    ensures
        b == is_digit(c),
{
    '0' <= c && c <= '9'
}

fn is_ident_start_char(c: char) -> (b: bool)
    ensures
        b == is_ident_start(c),
{
    ('a' <= c && c <= 'z') || ('A' <= c && c <= 'Z') || c == '_'
}

fn is_ident_char_char(c: char) -> (b: bool)
    ensures
        b == is_ident_char(c),
{
    is_ident_start_char(c) || is_digit_char(c)
}

/// The characters of `source`, one by one.
fn chars_of(source: &str) -> (chars: Vec<char>)
    ensures
        chars@ == source@,
{
    let n = source.unicode_len();
    let mut chars: Vec<char> = Vec::new();
    let mut k: usize = 0;
    while k < n
        invariant
            n == source@.len(),
            k <= n,
            chars@ == source@.take(k as int),
        decreases n - k,
    {
        chars.push(source.get_char(k));
        k = k + 1;
        assert(chars@ =~= source@.take(k as int));
    }
    assert(chars@ =~= source@);
    chars
}

/// Whether `chars[start..end]` is exactly `word`.
fn text_is(chars: &Vec<char>, start: usize, end: usize, word: &[char]) -> (b: bool)
    requires
        start <= end <= chars@.len(),
    ensures
        b == (chars@.subrange(start as int, end as int) == word@),
{
    if end - start != word.len() {
        return false;
    }
    let mut k: usize = 0;
    while k < word.len()
        invariant
            start <= end <= chars@.len(),
            end - start == word@.len(),
            k <= word@.len(),
            forall|m: int| 0 <= m < k ==> chars@[start + m] == word@[m],
        decreases word.len() - k,
    {
        if chars[start + k] != word[k] {
            assert(chars@.subrange(start as int, end as int)[k as int] != word@[k as int]);
            return false;
        }
        k = k + 1;
    }
    assert(chars@.subrange(start as int, end as int) =~= word@);
    true
}

/// The keyword spelled by `chars[start..end]`, if any.
fn keyword_at(chars: &Vec<char>, start: usize, end: usize) -> (k: Option<Terminal>)
    requires
        start <= end <= chars@.len(),
    ensures
        k == keyword(chars@.subrange(start as int, end as int)),
{
    let ghost w = chars@.subrange(start as int, end as int);
    let t = ['l', 'e', 't'];
    assert(t@ =~= terminal_text(Terminal::Let));
    if text_is(chars, start, end, &t) {
        return Some(Terminal::Let);
    }
    let t = ['c', 'o', 'n', 's', 't'];
    assert(t@ =~= terminal_text(Terminal::Const));
    if text_is(chars, start, end, &t) {
        return Some(Terminal::Const);
    }
    let t = ['m', 'u', 't'];
    assert(t@ =~= terminal_text(Terminal::Mut));
    if text_is(chars, start, end, &t) {
        return Some(Terminal::Mut);
    }
    let t = ['f', 'n'];
    assert(t@ =~= terminal_text(Terminal::FnKeyword));
    if text_is(chars, start, end, &t) {
        return Some(Terminal::FnKeyword);
    }
    let t = ['i', 'f'];
    assert(t@ =~= terminal_text(Terminal::IfKeyword));
    if text_is(chars, start, end, &t) {
        return Some(Terminal::IfKeyword);
    }
    let t = ['e', 'l', 's', 'e'];
    assert(t@ =~= terminal_text(Terminal::ElseKeyword));
    if text_is(chars, start, end, &t) {
        return Some(Terminal::ElseKeyword);
    }
    let t = ['w', 'h', 'i', 'l', 'e'];
    assert(t@ =~= terminal_text(Terminal::WhileKeyword));
    if text_is(chars, start, end, &t) {
        return Some(Terminal::WhileKeyword);
    }
    let t = ['r', 'e', 't', 'u', 'r', 'n'];
    assert(t@ =~= terminal_text(Terminal::ReturnKeyword));
    if text_is(chars, start, end, &t) {
        return Some(Terminal::ReturnKeyword);
    }
    let t = ['d', 'e', 'c', 'l', 'a', 'r', 'e'];
    assert(t@ =~= terminal_text(Terminal::DeclareKeyword));
    if text_is(chars, start, end, &t) {
        return Some(Terminal::DeclareKeyword);
    }
    let t = ['s', 't', 'r', 'u', 'c', 't'];
    assert(t@ =~= terminal_text(Terminal::StructKeyword));
    if text_is(chars, start, end, &t) {
        return Some(Terminal::StructKeyword);
    }
    let t = ['i', 'n', 's', 't', 'a', 'n', 'c', 'e'];
    assert(t@ =~= terminal_text(Terminal::InstanceKeyword));
    if text_is(chars, start, end, &t) {
        return Some(Terminal::InstanceKeyword);
    }
    let t = ['t', 'r', 'u', 'e'];
    assert(t@ =~= terminal_text(Terminal::TrueKeyword));
    if text_is(chars, start, end, &t) {
        return Some(Terminal::TrueKeyword);
    }
    let t = ['f', 'a', 'l', 's', 'e'];
    assert(t@ =~= terminal_text(Terminal::FalseKeyword));
    if text_is(chars, start, end, &t) {
        return Some(Terminal::FalseKeyword);
    }
    None
}

} // verus!

verus! {

proof fn lemma_skip_whitespace(src: Seq<char>, tokens: Seq<Token>, end: int)
    requires
        lexes_prefix(src, tokens, end),
        end < src.len(),
        is_whitespace(src[end]),
    ensures
        lexes_prefix(src, tokens, end + 1),
{
    assert forall|i: int| 0 <= i <= tokens.len() implies gap_start(tokens, i) <= gap_end(tokens, i, end + 1)
        && (forall|k: int|
        gap_start(tokens, i) <= k < gap_end(tokens, i, end + 1) ==> is_whitespace(#[trigger] src[k])) by {
        if i < tokens.len() {
            assert(gap_end(tokens, i, end + 1) == gap_end(tokens, i, end));
        } else {
            assert(gap_start(tokens, i) <= gap_end(tokens, i, end));
        }
    }
}

proof fn lemma_push_token(src: Seq<char>, tokens: Seq<Token>, end: int, tok: Token)
    requires
        lexes_prefix(src, tokens, end),
        tok.spec_position().start == end,
        end < tok.spec_position().end <= src.len(),
        spells(tok.lexeme(), src.subrange(end, tok.spec_position().end as int)),
    ensures
        lexes_prefix(src, tokens.push(tok), tok.spec_position().end as int),
{
    let t2 = tokens.push(tok);
    let e2 = tok.spec_position().end as int;
    assert forall|i: int| 0 <= i < t2.len() implies {
        let p = #[trigger] t2[i].spec_position();
        &&& p.start < p.end <= e2
        &&& spells(t2[i].lexeme(), src.subrange(p.start as int, p.end as int))
    } by {
        if i < tokens.len() {
            assert(t2[i] == tokens[i]);
            assert(gap_start(tokens, i + 1) <= gap_end(tokens, i + 1, end));
        }
    }
    assert forall|i: int| 0 <= i <= t2.len() implies gap_start(t2, i) <= gap_end(t2, i, e2) && (forall|k: int|
        gap_start(t2, i) <= k < gap_end(t2, i, e2) ==> is_whitespace(#[trigger] src[k])) by {
        if i < tokens.len() {
            assert(gap_start(t2, i) == gap_start(tokens, i));
            assert(gap_end(t2, i, e2) == gap_end(tokens, i, end));
        } else if i == tokens.len() {
            assert(gap_start(t2, i) == gap_start(tokens, i));
            assert(gap_end(t2, i, e2) == end);
            assert(gap_end(tokens, i, end) == end);
        } else {
            assert(gap_start(t2, i) == e2);
        }
    }
}

fn lex_error(message: &str, at: usize) -> (e: crate::parser::ParseError)
    requires
        at < usize::MAX,
    ensures
        e.position matches Some(p) && p.start == at,
{
    crate::parser::ParseError::at(message, Span { start: at, end: at + 1 })
}

/// Split Y source text into its tokens.
///
/// On success the tokens spell the whole source: each one is spelled by the text at its
/// position, they follow each other in order and only whitespace lies between them.
/// On failure the error points at a character inside the source.
#[verifier::rlimit(60)]
pub fn lex(source: &str) -> (result: Result<Vec<Token>, crate::parser::ParseError>)
    ensures
        result matches Ok(tokens) ==> lexes(source@, tokens@),
        result matches Ok(tokens) ==> takes_longest_operators(source@, tokens@),
        result matches Err(e) ==> (e.position matches Some(p) && p.start < source@.len()
            && lex_error_at(source@, p.start as int)),
        (forall|k: int| 0 <= k < source@.len() ==> is_whitespace(#[trigger] source@[k])) ==> (result matches Ok(
            tokens,
        ) && tokens@.len() == 0),
{
    let chars = chars_of(source);
    let n = chars.len();
    let mut tokens: Vec<Token> = Vec::new();
    let mut i: usize = 0;
    proof {
        assert(gap_start(tokens@, 0) == 0);
    }
    while i < n
        invariant
            chars@ == source@,
            n == chars@.len(),
            i <= n,
            lexes_prefix(source@, tokens@, i as int),
            (forall|k: int| 0 <= k < source@.len() ==> is_whitespace(#[trigger] source@[k]))
                ==> tokens@.len() == 0,
            takes_longest_operators(source@, tokens@),
        decreases n - i,
    {
        let ghost src = source@;
        let c = chars[i];
        if is_whitespace_char(c) {
            proof {
                lemma_skip_whitespace(src, tokens@, i as int);
            }
            i = i + 1;
            continue;
        }
        let next = if i + 1 < n { Some(chars[i + 1]) } else { None };
        let tok: Token;
        let end: usize;
        if is_ident_start_char(c) {
            let mut j = i + 1;
            while j < n && is_ident_char_char(chars[j])
                invariant
                    chars@ == source@,
                    n == chars@.len(),
                    i < j <= n,
                    is_ident_start(chars@[i as int]),
                    all_ident_chars(chars@.subrange(i as int, j as int)),
                decreases n - j,
            {
                j = j + 1;
                assert forall|k: int| 0 <= k < j - i implies is_ident_char(
                    #[trigger] chars@.subrange(i as int, j as int)[k],
                ) by {
                    if k < j - 1 - i {
                        assert(chars@.subrange(i as int, j as int)[k] == chars@.subrange(
                            i as int,
                            j - 1,
                        )[k]);
                    }
                }
            }
            let position = Span { start: i, end: j };
            match keyword_at(&chars, i, j) {
                Some(t) => {
                    tok = t.at(position);
                },
                None => {
                    let value = String::from_str(source.substring_char(i, j));
                    tok = Token::Id { value, position };
                    assert(chars@.subrange(i as int, j as int)[0] == chars@[i as int]);
                },
            }
            end = j;
        } else if is_digit_char(c) {
            let mut j = i;
            let mut value: u64 = 0;
            let mut overflow = false;
            while j < n && is_digit_char(chars[j])
                invariant
                    chars@ == source@,
                    n == chars@.len(),
                    i <= j <= n,
                    all_digits(chars@.subrange(i as int, j as int)),
                    !overflow ==> value == decimal_value(chars@.subrange(i as int, j as int)),
                    overflow ==> decimal_value(chars@.subrange(i as int, j as int)) > u64::MAX,
                    digits_end(chars@, i as int) == digits_end(chars@, j as int),
                decreases n - j,
            {
                let d = chars[j];
                let digit = (d as u32 - '0' as u32) as u64;
                if !overflow {
                    match value.checked_mul(10) {
                        Some(v) => match v.checked_add(digit) {
                            Some(v2) => {
                                value = v2;
                            },
                            None => {
                                overflow = true;
                            },
                        },
                        None => {
                            overflow = true;
                        },
                    }
                }
                j = j + 1;
                assert(chars@.subrange(i as int, j as int).drop_last() =~= chars@.subrange(
                    i as int,
                    j - 1,
                ));
                assert forall|k: int| 0 <= k < j - i implies is_digit(
                    #[trigger] chars@.subrange(i as int, j as int)[k],
                ) by {
                    if k < j - 1 - i {
                        assert(chars@.subrange(i as int, j as int)[k] == chars@.subrange(
                            i as int,
                            j - 1,
                        )[k]);
                    }
                }
            }
            if j < n && chars[j] == '.' && j + 1 < n && is_digit_char(chars[j + 1]) {
                let dot = j;
                let mut k = j + 1;
                while k < n && is_digit_char(chars[k])
                    invariant
                        chars@ == source@,
                        n == chars@.len(),
                        dot < k <= n,
                        all_digits(chars@.subrange(dot + 1, k as int)),
                    decreases n - k,
                {
                    k = k + 1;
                    assert forall|m: int| 0 <= m < k - dot - 1 implies is_digit(
                        #[trigger] chars@.subrange(dot + 1, k as int)[m],
                    ) by {
                        if m < k - dot - 2 {
                            assert(chars@.subrange(dot + 1, k as int)[m] == chars@.subrange(
                                dot + 1,
                                k - 1,
                            )[m]);
                        }
                    }
                }
                let text = String::from_str(source.substring_char(i, k));
                let position = Span { start: i, end: k };
                proof {
                    let t = chars@.subrange(i as int, k as int);
                    let w = dot - i;
                    assert(t.take(w) =~= chars@.subrange(i as int, dot as int));
                    assert(t.skip(w + 1) =~= chars@.subrange(dot + 1, k as int));
                    assert(t[w] == '.');
                }
                tok = Token::FloatingPoint { value: text, position };
                end = k;
            } else if overflow {
                return Err(lex_error("integer literal is too large", i));
            } else {
                tok = Token::Integer { value, position: Span { start: i, end: j } };
                end = j;
            }
        } else if c == '"' {
            let mut j = i + 1;
            while j < n && chars[j] != '"'
                invariant
                    chars@ == source@,
                    n == chars@.len(),
                    i < j <= n,
                    forall|k: int| i < k < j ==> chars@[k] != '"',
                decreases n - j,
            {
                j = j + 1;
            }
            if j == n {
                return Err(lex_error("unterminated string literal", i));
            }
            let value = String::from_str(source.substring_char(i + 1, j));
            proof {
                let s = chars@.subrange(i + 1, j as int);
                assert(chars@.subrange(i as int, j + 1) =~= seq!['"'] + s + seq!['"']);
                assert(!s.contains('"')) by {
                    if s.contains('"') {
                        let k = choose|k: int| 0 <= k < s.len() && s[k] == '"';
                        assert(chars@[i + 1 + k] == '"');
                    }
                }
            }
            tok = Token::String { value, position: Span { start: i, end: j + 1 } };
            end = j + 1;
        } else if c == '\'' {
            if n - i > 2 && chars[i + 2] == '\'' {
                let value = chars[i + 1];
                assert(chars@.subrange(i as int, i + 3) =~= seq!['\'', value, '\'']);
                tok = Token::Character { value, position: Span { start: i, end: i + 3 } };
                end = i + 3;
            } else {
                return Err(lex_error("invalid character literal", i));
            }
        } else if c == '/' && next == Some('/') {
            let mut j = i + 2;
            while j < n && chars[j] != '\n'
                invariant
                    chars@ == source@,
                    n == chars@.len(),
                    i + 2 <= j <= n,
                    forall|k: int| i + 2 <= k < j ==> chars@[k] != '\n',
                decreases n - j,
            {
                j = j + 1;
            }
            let value = String::from_str(source.substring_char(i + 2, j));
            proof {
                let s = chars@.subrange(i + 2, j as int);
                assert(chars@.subrange(i as int, j as int) =~= seq!['/', '/'] + s);
                assert(!s.contains('\n')) by {
                    if s.contains('\n') {
                        let k = choose|k: int| 0 <= k < s.len() && s[k] == '\n';
                        assert(chars@[i + 2 + k] == '\n');
                    }
                }
            }
            tok = Token::Comment { value, position: Span { start: i, end: j } };
            end = j;
        } else {
            let two: Option<Terminal> = match (c, next) {
                ('=', Some('=')) => Some(Terminal::Equal),
                ('=', Some('>')) => Some(Terminal::BigRightArrow),
                ('-', Some('>')) => Some(Terminal::SmallRightArrow),
                ('>', Some('=')) => Some(Terminal::GreaterOrEqual),
                ('<', Some('=')) => Some(Terminal::LessOrEqual),
                _ => None,
            };
            match two {
                Some(t) => {
                    assert(chars@.subrange(i as int, i + 2) =~= terminal_text(t));
                    tok = t.at(Span { start: i, end: i + 2 });
                    end = i + 2;
                },
                None => {
                    let one: Option<Terminal> = match c {
                        '=' => Some(Terminal::Assign),
                        '(' => Some(Terminal::LParen),
                        ')' => Some(Terminal::RParen),
                        '{' => Some(Terminal::LBrace),
                        '}' => Some(Terminal::RBrace),
                        '[' => Some(Terminal::LBracket),
                        ']' => Some(Terminal::RBracket),
                        '-' => Some(Terminal::Minus),
                        '+' => Some(Terminal::Plus),
                        '*' => Some(Terminal::Times),
                        '/' => Some(Terminal::Slash),
                        '!' => Some(Terminal::ExclamationMark),
                        ':' => Some(Terminal::Colon),
                        ',' => Some(Terminal::Comma),
                        '.' => Some(Terminal::Dot),
                        ';' => Some(Terminal::Semicolon),
                        '\\' => Some(Terminal::Backslash),
                        '&' => Some(Terminal::Ampersand),
                        '>' => Some(Terminal::GreaterThan),
                        '<' => Some(Terminal::LessThan),
                        _ => None,
                    };
                    match one {
                        Some(t) => {
                            assert(chars@.subrange(i as int, i + 1) =~= terminal_text(t));
                            tok = t.at(Span { start: i, end: i + 1 });
                            end = i + 1;
                        },
                        None => {
                            return Err(lex_error("unexpected character", i));
                        },
                    }
                },
            }
        }
        proof {
            lemma_push_token(src, tokens@, i as int, tok);
            assert(tok.spec_position().start == i);
            assert forall|t: Terminal|
                is_two_character_operator(t) && i + 2 <= src.len() && #[trigger] src.subrange(
                    i as int,
                    i + 2,
                ) == terminal_text(t) implies tok.lexeme() == Lexeme::Term(t) by {
                lemma_two_character_operator_text(src, i as int, t);
            }
            lemma_push_longest(src, tokens@, tok);
        }
        tokens.push(tok);
        i = end;
    }
    Ok(tokens)
}

} // verus!
