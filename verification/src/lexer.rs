//! Tokenizer: turns source text into an ordered sequence of line-tagged
//! tokens. Words resolve in priority order keyword -> numeric literal ->
//! identifier; two-character operators are detected greedily by one
//! character of lookahead; string literals are decoded with a four-entry
//! escape table. Every failure is a typed `LexError` naming the line and
//! the offending text; no partial token sequence is returned on failure.

use vstd::prelude::*;

verus! {

// ---------------------------------------------------------------------------
// Character classes
//
// The tokenizer's word boundary is `char::is_alphanumeric`, a Unicode
// property. Inside the ASCII range its outcome is documented exactly
// (letters and digits); outside it the result is a fixed function of the
// character, named below and otherwise left open.
// ---------------------------------------------------------------------------

/// What `char::is_alphanumeric` returns on a character outside the ASCII
/// range: a fixed function of the character, not further specified here.
pub uninterp spec fn unicode_alnum(c: char) -> bool;

/// What `char::is_numeric` returns on a character outside the ASCII range.
pub uninterp spec fn unicode_numeric(c: char) -> bool;

/// What `char::is_whitespace` returns on a character outside the ASCII range.
pub uninterp spec fn unicode_ws(c: char) -> bool;

pub open spec fn ascii_digit(c: char) -> bool {
    48 <= c as u32 && c as u32 <= 57
}

pub open spec fn ascii_letter(c: char) -> bool {
    (97 <= c as u32 && c as u32 <= 122) || (65 <= c as u32 && c as u32 <= 90)
}

/// The exact meaning of `char::is_alphanumeric`: letters and digits within
/// ASCII, the named Unicode property outside it.
pub open spec fn alnum_char(c: char) -> bool {
    if (c as u32) < 128 {
        ascii_digit(c) || ascii_letter(c)
    } else {
        unicode_alnum(c)
    }
}

/// The exact meaning of `char::is_numeric`: digits within ASCII, the named
/// Unicode property outside it.
pub open spec fn numeric_char(c: char) -> bool {
    if (c as u32) < 128 {
        ascii_digit(c)
    } else {
        unicode_numeric(c)
    }
}

/// The exact meaning of `char::is_whitespace`: the six ASCII whitespace
/// characters within ASCII, the named Unicode property outside it.
pub open spec fn ws_char(c: char) -> bool {
    if (c as u32) < 128 {
        c == ' ' || c == '\t' || c == '\n' || c == '\r' || c == '\u{b}' || c == '\u{c}'
    } else {
        unicode_ws(c)
    }
}

/// Relies on `char::is_alphanumeric`: within ASCII it accepts exactly the
/// letters and digits; outside ASCII it is a fixed function of the
/// character, called `unicode_alnum` here.
pub assume_specification[ char::is_alphanumeric ](c: char) -> (r: bool)
    ensures
        r == alnum_char(c),
        (c as u32) >= 128 ==> r == unicode_alnum(c),
;

/// Relies on `char::is_numeric`: within ASCII it accepts exactly the digits;
/// outside ASCII it is a fixed function of the character, called
/// `unicode_numeric` here.
pub assume_specification[ char::is_numeric ](c: char) -> (r: bool)
    ensures
        r == numeric_char(c),
        (c as u32) >= 128 ==> r == unicode_numeric(c),
;

/// Relies on `char::is_whitespace`: within ASCII it accepts exactly space,
/// tab, newline, carriage return, vertical tab and form feed; outside ASCII
/// it is a fixed function of the character, called `unicode_ws` here.
pub assume_specification[ char::is_whitespace ](c: char) -> (r: bool)
    ensures
        r == ws_char(c),
        (c as u32) >= 128 ==> r == unicode_ws(c),
;

/// A character that may stand inside an identifier, a keyword or a numeric
/// literal: alphanumeric or underscore. Identifiers cannot start with `-`
/// (it reads as subtraction) and float literals starting with `.` are
/// handled separately by the tokenizer.
pub open spec fn good_char(c: char) -> bool {
    alnum_char(c) || c == '_'
}

/// Returns true if `c` is a valid character in an identifier or a literal.
pub fn is_good_char(c: &char) -> (r: bool)
    ensures
        r == good_char(*c),
{
    c.is_alphanumeric() || *c == '_'
}

// ---------------------------------------------------------------------------
// Tokens
// ---------------------------------------------------------------------------

/// The kind of a token. Literal payloads ride along with the kind; a float
/// literal carries its validated text (digits around a single `.`), leaving
/// the numeric conversion to the consumer.
#[derive(Debug)]
pub enum TokenType {
    // delimiters and punctuation
    LeftParen,
    RightParen,
    LeftBrack,
    RightBrack,
    LeftCurly,
    RightCurly,
    Comma,
    Period,
    Colon,
    Semicolon,
    SQuote,
    DQuote,
    Backslash,
    /// `->`
    Arrow,
    /// a single `=`
    Assign,
    /// never produced by the tokenizer; reserved for telling a consumer
    /// which line it is on
    NewLine,
    // operators
    Plus,
    Minus,
    Star,
    Slash,
    Mod,
    BwNot,
    BwOr,
    BwAnd,
    BwXor,
    Not,
    Or,
    And,
    Xor,
    /// `==`
    Eq,
    Lt,
    Gt,
    Neq,
    Lte,
    Gte,
    // keywords
    Const,
    Var,
    Int,
    Float,
    Bool,
    String,
    /// never produced by the tokenizer; the synthetic return type of a
    /// function declared without `->`
    Void,
    Enum,
    Struct,
    Function,
    If,
    Else,
    While,
    Return,
    // literals
    IntLit(i64),
    /// the literal's text: digits with one `.` somewhere among them
    FloatLit(std::string::String),
    BoolLit(bool),
    /// the decoded payload, escape sequences already replaced
    StringLit(std::string::String),
    // identifier (incl. variable, struct, fn, etc.)
    Identifier(std::string::String),
}

/// A number distinguishing the kinds of tokens, payloads ignored: two
/// token kinds are "the same shape" exactly when their codes agree.
pub open spec fn token_kind_code(t: TokenTypeV) -> int {
    match t {
        TokenTypeV::LeftParen => 0,
        TokenTypeV::RightParen => 1,
        TokenTypeV::LeftBrack => 2,
        TokenTypeV::RightBrack => 3,
        TokenTypeV::LeftCurly => 4,
        TokenTypeV::RightCurly => 5,
        TokenTypeV::Comma => 6,
        TokenTypeV::Period => 7,
        TokenTypeV::Colon => 8,
        TokenTypeV::Semicolon => 9,
        TokenTypeV::SQuote => 10,
        TokenTypeV::DQuote => 11,
        TokenTypeV::Backslash => 12,
        TokenTypeV::Arrow => 13,
        TokenTypeV::Assign => 14,
        TokenTypeV::NewLine => 15,
        TokenTypeV::Plus => 16,
        TokenTypeV::Minus => 17,
        TokenTypeV::Star => 18,
        TokenTypeV::Slash => 19,
        TokenTypeV::Mod => 20,
        TokenTypeV::BwNot => 21,
        TokenTypeV::BwOr => 22,
        TokenTypeV::BwAnd => 23,
        TokenTypeV::BwXor => 24,
        TokenTypeV::Not => 25,
        TokenTypeV::Or => 26,
        TokenTypeV::And => 27,
        TokenTypeV::Xor => 28,
        TokenTypeV::Eq => 29,
        TokenTypeV::Lt => 30,
        TokenTypeV::Gt => 31,
        TokenTypeV::Neq => 32,
        TokenTypeV::Lte => 33,
        TokenTypeV::Gte => 34,
        TokenTypeV::Const => 35,
        TokenTypeV::Var => 36,
        TokenTypeV::Int => 37,
        TokenTypeV::Float => 38,
        TokenTypeV::Bool => 39,
        TokenTypeV::String => 40,
        TokenTypeV::Void => 41,
        TokenTypeV::Enum => 42,
        TokenTypeV::Struct => 43,
        TokenTypeV::Function => 44,
        TokenTypeV::If => 45,
        TokenTypeV::Else => 46,
        TokenTypeV::While => 47,
        TokenTypeV::Return => 48,
        TokenTypeV::IntLit(_) => 49,
        TokenTypeV::FloatLit(_) => 50,
        TokenTypeV::BoolLit(_) => 51,
        TokenTypeV::StringLit(_) => 52,
        TokenTypeV::Identifier(_) => 53,
    }
}

/// Same-shape: variant identity only, literal payloads ignored.
pub open spec fn token_kind_eq(a: TokenTypeV, b: TokenTypeV) -> bool {
    token_kind_code(a) == token_kind_code(b)
}

impl TokenType {
    /// The executable kind code.
    pub fn kind_code(&self) -> (r: u32)
        ensures
            r == token_kind_code(self@),
    {
        match self {
            TokenType::LeftParen => 0,
            TokenType::RightParen => 1,
            TokenType::LeftBrack => 2,
            TokenType::RightBrack => 3,
            TokenType::LeftCurly => 4,
            TokenType::RightCurly => 5,
            TokenType::Comma => 6,
            TokenType::Period => 7,
            TokenType::Colon => 8,
            TokenType::Semicolon => 9,
            TokenType::SQuote => 10,
            TokenType::DQuote => 11,
            TokenType::Backslash => 12,
            TokenType::Arrow => 13,
            TokenType::Assign => 14,
            TokenType::NewLine => 15,
            TokenType::Plus => 16,
            TokenType::Minus => 17,
            TokenType::Star => 18,
            TokenType::Slash => 19,
            TokenType::Mod => 20,
            TokenType::BwNot => 21,
            TokenType::BwOr => 22,
            TokenType::BwAnd => 23,
            TokenType::BwXor => 24,
            TokenType::Not => 25,
            TokenType::Or => 26,
            TokenType::And => 27,
            TokenType::Xor => 28,
            TokenType::Eq => 29,
            TokenType::Lt => 30,
            TokenType::Gt => 31,
            TokenType::Neq => 32,
            TokenType::Lte => 33,
            TokenType::Gte => 34,
            TokenType::Const => 35,
            TokenType::Var => 36,
            TokenType::Int => 37,
            TokenType::Float => 38,
            TokenType::Bool => 39,
            TokenType::String => 40,
            TokenType::Void => 41,
            TokenType::Enum => 42,
            TokenType::Struct => 43,
            TokenType::Function => 44,
            TokenType::If => 45,
            TokenType::Else => 46,
            TokenType::While => 47,
            TokenType::Return => 48,
            TokenType::IntLit(_) => 49,
            TokenType::FloatLit(_) => 50,
            TokenType::BoolLit(_) => 51,
            TokenType::StringLit(_) => 52,
            TokenType::Identifier(_) => 53,
        }
    }
}

impl PartialEq for TokenType {
    /// Equality is variant identity only: literal payloads are ignored,
    /// since a consumer matching grammar productions tests token shape,
    /// not value.
    fn eq(&self, other: &Self) -> (r: bool) {
        self.kind_code() == other.kind_code()
    }
}

impl vstd::std_specs::cmp::PartialEqSpecImpl for TokenType {
    open spec fn obeys_eq_spec() -> bool {
        true
    }

    open spec fn eq_spec(&self, other: &Self) -> bool {
        token_kind_eq(self@, other@)
    }
}

impl Clone for TokenType {
    /// Clones the kind together with its payload, exactly.
    fn clone(&self) -> (res: Self)
        ensures
            res == *self,
    {
        match self {
            TokenType::LeftParen => TokenType::LeftParen,
            TokenType::RightParen => TokenType::RightParen,
            TokenType::LeftBrack => TokenType::LeftBrack,
            TokenType::RightBrack => TokenType::RightBrack,
            TokenType::LeftCurly => TokenType::LeftCurly,
            TokenType::RightCurly => TokenType::RightCurly,
            TokenType::Comma => TokenType::Comma,
            TokenType::Period => TokenType::Period,
            TokenType::Colon => TokenType::Colon,
            TokenType::Semicolon => TokenType::Semicolon,
            TokenType::SQuote => TokenType::SQuote,
            TokenType::DQuote => TokenType::DQuote,
            TokenType::Backslash => TokenType::Backslash,
            TokenType::Arrow => TokenType::Arrow,
            TokenType::Assign => TokenType::Assign,
            TokenType::NewLine => TokenType::NewLine,
            TokenType::Plus => TokenType::Plus,
            TokenType::Minus => TokenType::Minus,
            TokenType::Star => TokenType::Star,
            TokenType::Slash => TokenType::Slash,
            TokenType::Mod => TokenType::Mod,
            TokenType::BwNot => TokenType::BwNot,
            TokenType::BwOr => TokenType::BwOr,
            TokenType::BwAnd => TokenType::BwAnd,
            TokenType::BwXor => TokenType::BwXor,
            TokenType::Not => TokenType::Not,
            TokenType::Or => TokenType::Or,
            TokenType::And => TokenType::And,
            TokenType::Xor => TokenType::Xor,
            TokenType::Eq => TokenType::Eq,
            TokenType::Lt => TokenType::Lt,
            TokenType::Gt => TokenType::Gt,
            TokenType::Neq => TokenType::Neq,
            TokenType::Lte => TokenType::Lte,
            TokenType::Gte => TokenType::Gte,
            TokenType::Const => TokenType::Const,
            TokenType::Var => TokenType::Var,
            TokenType::Int => TokenType::Int,
            TokenType::Float => TokenType::Float,
            TokenType::Bool => TokenType::Bool,
            TokenType::String => TokenType::String,
            TokenType::Void => TokenType::Void,
            TokenType::Enum => TokenType::Enum,
            TokenType::Struct => TokenType::Struct,
            TokenType::Function => TokenType::Function,
            TokenType::If => TokenType::If,
            TokenType::Else => TokenType::Else,
            TokenType::While => TokenType::While,
            TokenType::Return => TokenType::Return,
            TokenType::IntLit(n) => TokenType::IntLit(*n),
            TokenType::FloatLit(s) => TokenType::FloatLit(s.clone()),
            TokenType::BoolLit(b) => TokenType::BoolLit(*b),
            TokenType::StringLit(s) => TokenType::StringLit(s.clone()),
            TokenType::Identifier(s) => TokenType::Identifier(s.clone()),
        }
    }
}

/// A token: its line (1-based) and its kind.
#[derive(Debug)]
pub struct Token {
    pub line: usize,
    pub value: TokenType,
}

impl Clone for Token {
    /// Clones the token, line and payload exactly.
    fn clone(&self) -> (res: Self)
        ensures
            res == *self,
    {
        Token { line: self.line, value: self.value.clone() }
    }
}

impl PartialEq for Token {
    /// Equality by the kind's variant identity only: neither the line nor
    /// a literal payload takes part.
    fn eq(&self, other: &Self) -> (r: bool) {
        self.value.kind_code() == other.value.kind_code()
    }
}

impl vstd::std_specs::cmp::PartialEqSpecImpl for Token {
    open spec fn obeys_eq_spec() -> bool {
        true
    }

    open spec fn eq_spec(&self, other: &Self) -> bool {
        token_kind_eq(self.value@, other.value@)
    }
}

/// The mathematical value of a `TokenType`: the same kinds, with string
/// payloads as character sequences.
pub enum TokenTypeV {
    LeftParen,
    RightParen,
    LeftBrack,
    RightBrack,
    LeftCurly,
    RightCurly,
    Comma,
    Period,
    Colon,
    Semicolon,
    SQuote,
    DQuote,
    Backslash,
    Arrow,
    Assign,
    NewLine,
    Plus,
    Minus,
    Star,
    Slash,
    Mod,
    BwNot,
    BwOr,
    BwAnd,
    BwXor,
    Not,
    Or,
    And,
    Xor,
    Eq,
    Lt,
    Gt,
    Neq,
    Lte,
    Gte,
    Const,
    Var,
    Int,
    Float,
    Bool,
    String,
    Void,
    Enum,
    Struct,
    Function,
    If,
    Else,
    While,
    Return,
    IntLit(i64),
    FloatLit(Seq<char>),
    BoolLit(bool),
    StringLit(Seq<char>),
    Identifier(Seq<char>),
}

/// The mathematical value of a `Token`.
pub struct TokenV {
    pub line: nat,
    pub value: TokenTypeV,
}

impl View for TokenType {
    type V = TokenTypeV;

    open spec fn view(&self) -> TokenTypeV {
        match self {
            TokenType::LeftParen => TokenTypeV::LeftParen,
            TokenType::RightParen => TokenTypeV::RightParen,
            TokenType::LeftBrack => TokenTypeV::LeftBrack,
            TokenType::RightBrack => TokenTypeV::RightBrack,
            TokenType::LeftCurly => TokenTypeV::LeftCurly,
            TokenType::RightCurly => TokenTypeV::RightCurly,
            TokenType::Comma => TokenTypeV::Comma,
            TokenType::Period => TokenTypeV::Period,
            TokenType::Colon => TokenTypeV::Colon,
            TokenType::Semicolon => TokenTypeV::Semicolon,
            TokenType::SQuote => TokenTypeV::SQuote,
            TokenType::DQuote => TokenTypeV::DQuote,
            TokenType::Backslash => TokenTypeV::Backslash,
            TokenType::Arrow => TokenTypeV::Arrow,
            TokenType::Assign => TokenTypeV::Assign,
            TokenType::NewLine => TokenTypeV::NewLine,
            TokenType::Plus => TokenTypeV::Plus,
            TokenType::Minus => TokenTypeV::Minus,
            TokenType::Star => TokenTypeV::Star,
            TokenType::Slash => TokenTypeV::Slash,
            TokenType::Mod => TokenTypeV::Mod,
            TokenType::BwNot => TokenTypeV::BwNot,
            TokenType::BwOr => TokenTypeV::BwOr,
            TokenType::BwAnd => TokenTypeV::BwAnd,
            TokenType::BwXor => TokenTypeV::BwXor,
            TokenType::Not => TokenTypeV::Not,
            TokenType::Or => TokenTypeV::Or,
            TokenType::And => TokenTypeV::And,
            TokenType::Xor => TokenTypeV::Xor,
            TokenType::Eq => TokenTypeV::Eq,
            TokenType::Lt => TokenTypeV::Lt,
            TokenType::Gt => TokenTypeV::Gt,
            TokenType::Neq => TokenTypeV::Neq,
            TokenType::Lte => TokenTypeV::Lte,
            TokenType::Gte => TokenTypeV::Gte,
            TokenType::Const => TokenTypeV::Const,
            TokenType::Var => TokenTypeV::Var,
            TokenType::Int => TokenTypeV::Int,
            TokenType::Float => TokenTypeV::Float,
            TokenType::Bool => TokenTypeV::Bool,
            TokenType::String => TokenTypeV::String,
            TokenType::Void => TokenTypeV::Void,
            TokenType::Enum => TokenTypeV::Enum,
            TokenType::Struct => TokenTypeV::Struct,
            TokenType::Function => TokenTypeV::Function,
            TokenType::If => TokenTypeV::If,
            TokenType::Else => TokenTypeV::Else,
            TokenType::While => TokenTypeV::While,
            TokenType::Return => TokenTypeV::Return,
            TokenType::IntLit(n) => TokenTypeV::IntLit(*n),
            TokenType::FloatLit(s) => TokenTypeV::FloatLit(s@),
            TokenType::BoolLit(b) => TokenTypeV::BoolLit(*b),
            TokenType::StringLit(s) => TokenTypeV::StringLit(s@),
            TokenType::Identifier(s) => TokenTypeV::Identifier(s@),
        }
    }
}

impl DeepView for TokenType {
    type V = TokenTypeV;

    open spec fn deep_view(&self) -> TokenTypeV {
        self.view()
    }
}

impl View for Token {
    type V = TokenV;

    open spec fn view(&self) -> TokenV {
        TokenV { line: self.line as nat, value: self.value@ }
    }
}

impl DeepView for Token {
    type V = TokenV;

    open spec fn deep_view(&self) -> TokenV {
        self.view()
    }
}

// ---------------------------------------------------------------------------
// Lexical errors
// ---------------------------------------------------------------------------

/// A fatal lexical condition. Tokenization stops at the first one; no
/// partial token sequence is returned.
#[derive(Debug)]
pub enum LexError {
    /// a character that starts no token
    UnrecognizedChar { line: usize, found: char },
    /// end of input before the closing quote (also: end of input right
    /// after a backslash); carries what was decoded so far
    UnterminatedString { line: usize, partial: std::string::String },
    /// `\X` where X is none of `t`, `n`, `\`, `"`
    InvalidEscape { line: usize, found: char },
    /// a word starting with a digit that is not a run of ASCII digits, or
    /// one whose value exceeds the 64-bit signed range; carries the text
    InvalidIntLiteral { line: usize, text: std::string::String },
    /// a dotted literal whose parts are not runs of ASCII digits; carries
    /// the text
    InvalidFloatLiteral { line: usize, text: std::string::String },
}

/// The mathematical value of a `LexError`.
pub enum LexErrorV {
    UnrecognizedChar { line: nat, found: char },
    UnterminatedString { line: nat, partial: Seq<char> },
    InvalidEscape { line: nat, found: char },
    InvalidIntLiteral { line: nat, text: Seq<char> },
    InvalidFloatLiteral { line: nat, text: Seq<char> },
}

impl View for LexError {
    type V = LexErrorV;

    open spec fn view(&self) -> LexErrorV {
        match self {
            LexError::UnrecognizedChar { line, found } => LexErrorV::UnrecognizedChar {
                line: *line as nat,
                found: *found,
            },
            LexError::UnterminatedString { line, partial } => LexErrorV::UnterminatedString {
                line: *line as nat,
                partial: partial@,
            },
            LexError::InvalidEscape { line, found } => LexErrorV::InvalidEscape {
                line: *line as nat,
                found: *found,
            },
            LexError::InvalidIntLiteral { line, text } => LexErrorV::InvalidIntLiteral {
                line: *line as nat,
                text: text@,
            },
            LexError::InvalidFloatLiteral { line, text } => LexErrorV::InvalidFloatLiteral {
                line: *line as nat,
                text: text@,
            },
        }
    }
}

// ---------------------------------------------------------------------------
// The tokenizer's mathematical definition
//
// `spec_lex` is the reference meaning of tokenization: one forward pass,
// one step per token. The executable `lex` below is proved to return
// exactly what `spec_lex` says, token for token, or the very error.
// ---------------------------------------------------------------------------

/// The end of the word starting at `i`: the first position at or after `i`
/// whose character is not a word character.
pub open spec fn word_end(s: Seq<char>, i: int) -> int
    decreases s.len() - i,
    when 0 <= i <= s.len()
{
    if i == s.len() {
        i
    } else if good_char(s[i]) {
        word_end(s, i + 1)
    } else {
        i
    }
}

pub broadcast proof fn lemma_word_end_bounds(s: Seq<char>, i: int)
    requires
        0 <= i <= s.len(),
    ensures
        i <= #[trigger] word_end(s, i) <= s.len(),
    decreases s.len() - i,
{
    if i < s.len() && good_char(s[i]) {
        lemma_word_end_bounds(s, i + 1);
    }
}

/// The keyword table: what a word means when it is a keyword, in the
/// priority order keyword before literal before identifier.
pub open spec fn keyword_token(w: Seq<char>) -> Option<TokenTypeV> {
    if w == "const"@ {
        Some(TokenTypeV::Const)
    } else if w == "var"@ {
        Some(TokenTypeV::Var)
    } else if w == "true"@ {
        Some(TokenTypeV::BoolLit(true))
    } else if w == "false"@ {
        Some(TokenTypeV::BoolLit(false))
    } else if w == "int"@ {
        Some(TokenTypeV::Int)
    } else if w == "float"@ {
        Some(TokenTypeV::Float)
    } else if w == "bool"@ {
        Some(TokenTypeV::Bool)
    } else if w == "string"@ {
        Some(TokenTypeV::String)
    } else if w == "enum"@ {
        Some(TokenTypeV::Enum)
    } else if w == "struct"@ {
        Some(TokenTypeV::Struct)
    } else if w == "fn"@ {
        Some(TokenTypeV::Function)
    } else if w == "if"@ {
        Some(TokenTypeV::If)
    } else if w == "else"@ {
        Some(TokenTypeV::Else)
    } else if w == "while"@ {
        Some(TokenTypeV::While)
    } else if w == "return"@ {
        Some(TokenTypeV::Return)
    } else {
        None
    }
}

pub open spec fn all_digits(w: Seq<char>) -> bool {
    forall|k: int| 0 <= k < w.len() ==> ascii_digit(w[k])
}

pub open spec fn digit_val(c: char) -> int {
    c as u32 - 48
}

/// The numeric value of a run of ASCII digits, most significant first.
pub open spec fn digits_val(w: Seq<char>) -> int
    decreases w.len(),
{
    if w.len() == 0 {
        0
    } else {
        digits_val(w.drop_last()) * 10 + digit_val(w.last())
    }
}

/// One step of string-literal scanning, the cursor just after the opening
/// quote: consume until an unescaped closing quote, decoding the four
/// escape pairs, counting newlines.
pub enum StrScanV {
    Done { text: Seq<char>, next: int, line: nat },
    Fail { err: LexErrorV },
}

pub open spec fn scan_string(s: Seq<char>, i: int, line: nat, acc: Seq<char>) -> StrScanV
    decreases s.len() - i,
    when 0 <= i <= s.len()
{
    if i == s.len() {
        StrScanV::Fail { err: LexErrorV::UnterminatedString { line, partial: acc } }
    } else if s[i] == '"' {
        StrScanV::Done { text: acc, next: i + 1, line }
    } else if s[i] == '\\' {
        if i + 1 == s.len() {
            StrScanV::Fail { err: LexErrorV::UnterminatedString { line, partial: acc } }
        } else if s[i + 1] == 't' {
            scan_string(s, i + 2, line, acc.push('\t'))
        } else if s[i + 1] == 'n' {
            scan_string(s, i + 2, line, acc.push('\n'))
        } else if s[i + 1] == '\\' {
            scan_string(s, i + 2, line, acc.push('\\'))
        } else if s[i + 1] == '"' {
            scan_string(s, i + 2, line, acc.push('"'))
        } else {
            StrScanV::Fail { err: LexErrorV::InvalidEscape { line, found: s[i + 1] } }
        }
    } else {
        scan_string(
            s,
            i + 1,
            if s[i] == '\n' {
                line + 1
            } else {
                line
            },
            acc.push(s[i]),
        )
    }
}

pub broadcast proof fn lemma_scan_string_bounds(s: Seq<char>, i: int, line: nat, acc: Seq<char>)
    requires
        0 <= i <= s.len(),
    ensures
        (#[trigger] scan_string(s, i, line, acc)) matches StrScanV::Done { next, line: l2, .. }
            ==> i < next <= s.len() && line <= l2 <= line + (next - i),
    decreases s.len() - i,
{
    if i < s.len() && s[i] != '"' {
        if s[i] == '\\' {
            if i + 1 < s.len() {
                if s[i + 1] == 't' {
                    lemma_scan_string_bounds(s, i + 2, line, acc.push('\t'));
                } else if s[i + 1] == 'n' {
                    lemma_scan_string_bounds(s, i + 2, line, acc.push('\n'));
                } else if s[i + 1] == '\\' {
                    lemma_scan_string_bounds(s, i + 2, line, acc.push('\\'));
                } else if s[i + 1] == '"' {
                    lemma_scan_string_bounds(s, i + 2, line, acc.push('"'));
                }
            }
        } else {
            let l2 = if s[i] == '\n' {
                line + 1
            } else {
                line
            };
            lemma_scan_string_bounds(s, i + 1, l2 as nat, acc.push(s[i]));
        }
    }
}

/// One step of tokenization: what happens at position `i` of the input —
/// whitespace skipped, a token produced, or a fatal error.
pub enum LexStepV {
    Skip { next: int, line: nat },
    Tok { tok: TokenV, next: int, line: nat },
    Fail { err: LexErrorV },
}

/// A word step: the word `s[i .. word_end]` resolves in priority order
/// keyword, then numeric literal (only when it starts with a numeric
/// character), then identifier. A numeric word followed by `.` extends
/// into a float literal whose text runs to the end of the fraction word.
pub open spec fn word_step(s: Seq<char>, i: int, line: nat) -> LexStepV {
    let e1 = word_end(s, i);
    let w = s.subrange(i, e1);
    match keyword_token(w) {
        Some(t) => LexStepV::Tok { tok: TokenV { line, value: t }, next: e1, line },
        None => if numeric_char(s[i]) {
            if e1 < s.len() && s[e1] == '.' {
                let e2 = word_end(s, e1 + 1);
                let text = s.subrange(i, e2);
                if all_digits(w) && all_digits(s.subrange(e1 + 1, e2)) {
                    LexStepV::Tok {
                        tok: TokenV { line, value: TokenTypeV::FloatLit(text) },
                        next: e2,
                        line,
                    }
                } else {
                    LexStepV::Fail { err: LexErrorV::InvalidFloatLiteral { line, text } }
                }
            } else {
                if all_digits(w) && digits_val(w) <= i64::MAX as int {
                    LexStepV::Tok {
                        tok: TokenV { line, value: TokenTypeV::IntLit(digits_val(w) as i64) },
                        next: e1,
                        line,
                    }
                } else {
                    LexStepV::Fail { err: LexErrorV::InvalidIntLiteral { line, text: w } }
                }
            }
        } else {
            LexStepV::Tok { tok: TokenV { line, value: TokenTypeV::Identifier(w) }, next: e1, line }
        },
    }
}

/// A punctuation step: the fixed single-character dispatch table, with one
/// character of lookahead for the two-character operators, a leading `.`
/// that starts a float, and `"` that starts a string literal.
pub open spec fn punct_step(s: Seq<char>, i: int, line: nat) -> LexStepV {
    let c = s[i];
    if c == '(' {
        LexStepV::Tok { tok: TokenV { line, value: TokenTypeV::LeftParen }, next: i + 1, line }
    } else if c == ')' {
        LexStepV::Tok { tok: TokenV { line, value: TokenTypeV::RightParen }, next: i + 1, line }
    } else if c == '[' {
        LexStepV::Tok { tok: TokenV { line, value: TokenTypeV::LeftBrack }, next: i + 1, line }
    } else if c == ']' {
        LexStepV::Tok { tok: TokenV { line, value: TokenTypeV::RightBrack }, next: i + 1, line }
    } else if c == '{' {
        LexStepV::Tok { tok: TokenV { line, value: TokenTypeV::LeftCurly }, next: i + 1, line }
    } else if c == '}' {
        LexStepV::Tok { tok: TokenV { line, value: TokenTypeV::RightCurly }, next: i + 1, line }
    } else if c == ',' {
        LexStepV::Tok { tok: TokenV { line, value: TokenTypeV::Comma }, next: i + 1, line }
    } else if c == '.' {
        if i + 1 < s.len() && numeric_char(s[i + 1]) {
            let e2 = word_end(s, i + 1);
            let text = s.subrange(i, e2);
            if e2 > i + 1 && all_digits(s.subrange(i + 1, e2)) {
                LexStepV::Tok {
                    tok: TokenV { line, value: TokenTypeV::FloatLit(text) },
                    next: e2,
                    line,
                }
            } else {
                LexStepV::Fail { err: LexErrorV::InvalidFloatLiteral { line, text } }
            }
        } else {
            LexStepV::Tok { tok: TokenV { line, value: TokenTypeV::Period }, next: i + 1, line }
        }
    } else if c == ':' {
        LexStepV::Tok { tok: TokenV { line, value: TokenTypeV::Colon }, next: i + 1, line }
    } else if c == ';' {
        LexStepV::Tok { tok: TokenV { line, value: TokenTypeV::Semicolon }, next: i + 1, line }
    } else if c == '\'' {
        LexStepV::Tok { tok: TokenV { line, value: TokenTypeV::SQuote }, next: i + 1, line }
    } else if c == '"' {
        match scan_string(s, i + 1, line, Seq::empty()) {
            StrScanV::Done { text, next, line: l2 } => LexStepV::Tok {
                tok: TokenV { line, value: TokenTypeV::StringLit(text) },
                next,
                line: l2,
            },
            StrScanV::Fail { err } => LexStepV::Fail { err },
        }
    } else if c == '\\' {
        LexStepV::Tok { tok: TokenV { line, value: TokenTypeV::Backslash }, next: i + 1, line }
    } else if c == '+' {
        LexStepV::Tok { tok: TokenV { line, value: TokenTypeV::Plus }, next: i + 1, line }
    } else if c == '-' {
        if i + 1 < s.len() && s[i + 1] == '>' {
            LexStepV::Tok { tok: TokenV { line, value: TokenTypeV::Arrow }, next: i + 2, line }
        } else {
            LexStepV::Tok { tok: TokenV { line, value: TokenTypeV::Minus }, next: i + 1, line }
        }
    } else if c == '*' {
        LexStepV::Tok { tok: TokenV { line, value: TokenTypeV::Star }, next: i + 1, line }
    } else if c == '/' {
        LexStepV::Tok { tok: TokenV { line, value: TokenTypeV::Slash }, next: i + 1, line }
    } else if c == '%' {
        LexStepV::Tok { tok: TokenV { line, value: TokenTypeV::Mod }, next: i + 1, line }
    } else if c == '~' {
        LexStepV::Tok { tok: TokenV { line, value: TokenTypeV::BwNot }, next: i + 1, line }
    } else if c == '|' {
        if i + 1 < s.len() && s[i + 1] == '|' {
            LexStepV::Tok { tok: TokenV { line, value: TokenTypeV::Or }, next: i + 2, line }
        } else {
            LexStepV::Tok { tok: TokenV { line, value: TokenTypeV::BwOr }, next: i + 1, line }
        }
    } else if c == '&' {
        if i + 1 < s.len() && s[i + 1] == '&' {
            LexStepV::Tok { tok: TokenV { line, value: TokenTypeV::And }, next: i + 2, line }
        } else {
            LexStepV::Tok { tok: TokenV { line, value: TokenTypeV::BwAnd }, next: i + 1, line }
        }
    } else if c == '^' {
        if i + 1 < s.len() && s[i + 1] == '^' {
            LexStepV::Tok { tok: TokenV { line, value: TokenTypeV::Xor }, next: i + 2, line }
        } else {
            LexStepV::Tok { tok: TokenV { line, value: TokenTypeV::BwXor }, next: i + 1, line }
        }
    } else if c == '!' {
        if i + 1 < s.len() && s[i + 1] == '=' {
            LexStepV::Tok { tok: TokenV { line, value: TokenTypeV::Neq }, next: i + 2, line }
        } else {
            LexStepV::Tok { tok: TokenV { line, value: TokenTypeV::Not }, next: i + 1, line }
        }
    } else if c == '=' {
        if i + 1 < s.len() && s[i + 1] == '=' {
            LexStepV::Tok { tok: TokenV { line, value: TokenTypeV::Eq }, next: i + 2, line }
        } else {
            LexStepV::Tok { tok: TokenV { line, value: TokenTypeV::Assign }, next: i + 1, line }
        }
    } else if c == '<' {
        if i + 1 < s.len() && s[i + 1] == '=' {
            LexStepV::Tok { tok: TokenV { line, value: TokenTypeV::Lte }, next: i + 2, line }
        } else {
            LexStepV::Tok { tok: TokenV { line, value: TokenTypeV::Lt }, next: i + 1, line }
        }
    } else if c == '>' {
        if i + 1 < s.len() && s[i + 1] == '=' {
            LexStepV::Tok { tok: TokenV { line, value: TokenTypeV::Gte }, next: i + 2, line }
        } else {
            LexStepV::Tok { tok: TokenV { line, value: TokenTypeV::Gt }, next: i + 1, line }
        }
    } else {
        LexStepV::Fail { err: LexErrorV::UnrecognizedChar { line, found: c } }
    }
}

/// What happens at position `i`: whitespace is skipped (a newline advances
/// the line counter), a word character starts a word step, anything else a
/// punctuation step.
pub open spec fn lex_step(s: Seq<char>, i: int, line: nat) -> LexStepV {
    let c = s[i];
    if ws_char(c) {
        LexStepV::Skip {
            next: i + 1,
            line: if c == '\n' {
                line + 1
            } else {
                line
            },
        }
    } else if good_char(c) {
        word_step(s, i, line)
    } else {
        punct_step(s, i, line)
    }
}

pub broadcast proof fn lemma_lex_step_bounds(s: Seq<char>, i: int, line: nat)
    requires
        0 <= i < s.len(),
    ensures
        (#[trigger] lex_step(s, i, line)) matches LexStepV::Skip { next, line: l2 } ==> i < next
            <= s.len() && line <= l2 <= line + (next - i),
        lex_step(s, i, line) matches LexStepV::Tok { next, line: l2, .. } ==> i < next <= s.len()
            && line <= l2 <= line + (next - i),
{
    lemma_word_end_bounds(s, i);
    lemma_word_end_bounds(s, i + 1);
    let e1 = word_end(s, i);
    if good_char(s[i]) && e1 < s.len() {
        lemma_word_end_bounds(s, e1 + 1);
    }
    if s[i] == '"' {
        lemma_scan_string_bounds(s, i + 1, line, Seq::empty());
    }
    if i < s.len() && good_char(s[i]) {
        // a word step consumes at least the character at i
        assert(word_end(s, i) == word_end(s, i + 1));
    }
}

/// Tokenization from position `i` on: the sequence of tokens produced by
/// repeating `lex_step` until the input is exhausted, or the first error.
pub open spec fn lex_from(s: Seq<char>, i: int, line: nat) -> Result<Seq<TokenV>, LexErrorV>
    decreases s.len() - i,
    when 0 <= i <= s.len()
    via lex_from_decreases
{
    if i == s.len() {
        Ok(Seq::empty())
    } else {
        match lex_step(s, i, line) {
            LexStepV::Skip { next, line: l2 } => lex_from(s, next, l2),
            LexStepV::Tok { tok, next, line: l2 } => match lex_from(s, next, l2) {
                Ok(rest) => Ok(seq![tok] + rest),
                Err(e) => Err(e),
            },
            LexStepV::Fail { err } => Err(err),
        }
    }
}

#[via_fn]
proof fn lex_from_decreases(s: Seq<char>, i: int, line: nat) {
    if 0 <= i < s.len() {
        lemma_lex_step_bounds(s, i, line);
    }
}

/// The meaning of tokenization: the whole input, from the first character,
/// starting on line 1.
pub open spec fn spec_lex(s: Seq<char>) -> Result<Seq<TokenV>, LexErrorV> {
    lex_from(s, 0, 1)
}

// ---------------------------------------------------------------------------
// The executable tokenizer
// ---------------------------------------------------------------------------

/// Scans to the end of the word starting at `i`.
fn word_end_exec(s: &str, i: usize, n: usize) -> (e: usize)
    requires
        n == s@.len(),
        i <= n,
    ensures
        e == word_end(s@, i as int),
        i <= e <= n,
{
    let mut j = i;
    while j < n && is_good_char(&s.get_char(j))
        invariant
            i <= j <= n,
            n == s@.len(),
            word_end(s@, i as int) == word_end(s@, j as int),
        decreases n - j,
    {
        j = j + 1;
    }
    proof {
        lemma_word_end_bounds(s@, i as int);
    }
    j
}

/// Character-by-character string equality, proved to decide view equality.
fn str_eq_str(a: &str, b: &str) -> (r: bool)
    ensures
        r == (a@ == b@),
{
    let na = a.unicode_len();
    let nb = b.unicode_len();
    if na != nb {
        return false;
    }
    let mut k: usize = 0;
    while k < na
        invariant
            0 <= k <= na,
            na == a@.len(),
            na == b@.len(),
            forall|m: int| 0 <= m < k ==> a@[m] == b@[m],
        decreases na - k,
    {
        if a.get_char(k) != b.get_char(k) {
            return false;
        }
        k = k + 1;
    }
    proof {
        assert(a@ =~= b@);
    }
    true
}

/// The keyword table.
fn keyword_token_exec(w: &str) -> (r: Option<TokenType>)
    ensures
        match keyword_token(w@) {
            Some(tv) => r matches Some(t) && t@ == tv,
            None => r is None,
        },
{
    if str_eq_str(w, "const") {
        Some(TokenType::Const)
    } else if str_eq_str(w, "var") {
        Some(TokenType::Var)
    } else if str_eq_str(w, "true") {
        Some(TokenType::BoolLit(true))
    } else if str_eq_str(w, "false") {
        Some(TokenType::BoolLit(false))
    } else if str_eq_str(w, "int") {
        Some(TokenType::Int)
    } else if str_eq_str(w, "float") {
        Some(TokenType::Float)
    } else if str_eq_str(w, "bool") {
        Some(TokenType::Bool)
    } else if str_eq_str(w, "string") {
        Some(TokenType::String)
    } else if str_eq_str(w, "enum") {
        Some(TokenType::Enum)
    } else if str_eq_str(w, "struct") {
        Some(TokenType::Struct)
    } else if str_eq_str(w, "fn") {
        Some(TokenType::Function)
    } else if str_eq_str(w, "if") {
        Some(TokenType::If)
    } else if str_eq_str(w, "else") {
        Some(TokenType::Else)
    } else if str_eq_str(w, "while") {
        Some(TokenType::While)
    } else if str_eq_str(w, "return") {
        Some(TokenType::Return)
    } else {
        None
    }
}

/// Whether `s[a .. b]` is a run of ASCII digits.
fn check_digits(s: &str, a: usize, b: usize) -> (r: bool)
    requires
        a <= b <= s@.len(),
    ensures
        r == all_digits(s@.subrange(a as int, b as int)),
{
    let ghost w = s@.subrange(a as int, b as int);
    let mut k = a;
    while k < b
        invariant
            a <= k <= b <= s@.len(),
            w == s@.subrange(a as int, b as int),
            forall|m: int| 0 <= m < k - a ==> ascii_digit(w[m]),
        decreases b - k,
    {
        let c = s.get_char(k);
        let u = c as u32;
        if u < 48 || u > 57 {
            proof {
                assert(w[k - a] == s@[k as int]);
            }
            return false;
        }
        proof {
            assert(w[k - a] == s@[k as int]);
        }
        k = k + 1;
    }
    true
}

pub proof fn lemma_digits_val_nonneg(w: Seq<char>)
    requires
        all_digits(w),
    ensures
        digits_val(w) >= 0,
    decreases w.len(),
{
    if w.len() > 0 {
        assert(all_digits(w.drop_last()));
        lemma_digits_val_nonneg(w.drop_last());
    }
}

proof fn lemma_digits_val_prefix_grows(w: Seq<char>, k: int)
    requires
        all_digits(w),
        0 <= k <= w.len(),
    ensures
        digits_val(w) >= digits_val(w.subrange(0, k)),
    decreases w.len() - k,
{
    if k < w.len() {
        let p = w.subrange(0, k);
        let q = w.subrange(0, k + 1);
        assert(q.drop_last() =~= p);
        assert(all_digits(p));
        lemma_digits_val_nonneg(p);
        assert(digits_val(q) == digits_val(p) * 10 + digit_val(q.last()));
        lemma_digits_val_prefix_grows(w, k + 1);
    } else {
        assert(w.subrange(0, k) =~= w);
    }
}

/// The value of the digit run `s[a .. b]` as a 64-bit signed integer, or
/// `None` when it exceeds that range.
fn digits_to_i64(s: &str, a: usize, b: usize) -> (r: Option<i64>)
    requires
        a <= b <= s@.len(),
        all_digits(s@.subrange(a as int, b as int)),
    ensures
        ({
            let w = s@.subrange(a as int, b as int);
            if digits_val(w) <= i64::MAX as int {
                r matches Some(v) && v == digits_val(w)
            } else {
                r is None
            }
        }),
{
    let ghost w = s@.subrange(a as int, b as int);
    let mut v: i64 = 0;
    let mut k = a;
    while k < b
        invariant
            a <= k <= b <= s@.len(),
            w == s@.subrange(a as int, b as int),
            all_digits(w),
            0 <= v,
            v == digits_val(w.subrange(0, k - a)),
        decreases b - k,
    {
        let c = s.get_char(k);
        proof {
            assert(w[k - a] == s@[k as int]);
            assert(ascii_digit(w[k - a]));
        }
        let d = ((c as u32) - 48) as i64;
        if v > (i64::MAX - d) / 10 {
            proof {
                let p = w.subrange(0, k - a);
                let q = w.subrange(0, k - a + 1);
                assert(q.drop_last() =~= p);
                assert(q.last() == w[k - a]);
                assert(digits_val(q) == digits_val(p) * 10 + digit_val(q.last()));
                assert(digits_val(q) > i64::MAX as int);
                lemma_digits_val_prefix_grows(w, k - a + 1);
            }
            return None;
        }
        proof {
            let p = w.subrange(0, k - a);
            let q = w.subrange(0, k - a + 1);
            assert(q.drop_last() =~= p);
            assert(q.last() == w[k - a]);
            assert(digits_val(q) == digits_val(p) * 10 + digit_val(q.last()));
        }
        v = v * 10 + d;
        k = k + 1;
    }
    proof {
        assert(w.subrange(0, b - a) =~= w);
    }
    Some(v)
}

/// Scans a string literal, the cursor just after the opening quote.
fn scan_string_exec(s: &str, start: usize, line0: usize, n: usize) -> (r: Result<
    (std::string::String, usize, usize),
    LexError,
>)
    requires
        n == s@.len(),
        start <= n,
        1 <= line0,
        line0 + (n - start) <= usize::MAX,
    ensures
        match scan_string(s@, start as int, line0 as nat, Seq::empty()) {
            StrScanV::Done { text, next, line } => r matches Ok(t) && t.0@ == text && t.1 == next
                && t.2 == line,
            StrScanV::Fail { err } => r matches Err(e) && e@ == err,
        },
{
    let mut i = start;
    let mut line = line0;
    let mut acc = String::new();
    loop
        invariant
            start <= i <= n,
            n == s@.len(),
            line0 <= line,
            line + (n - i) <= usize::MAX,
            scan_string(s@, start as int, line0 as nat, Seq::empty()) == scan_string(
                s@,
                i as int,
                line as nat,
                acc@,
            ),
        decreases n - i,
    {
        if i == n {
            return Err(LexError::UnterminatedString { line, partial: acc });
        }
        let c = s.get_char(i);
        if c == '"' {
            return Ok((acc, i + 1, line));
        }
        if c == '\\' {
            if i + 1 == n {
                return Err(LexError::UnterminatedString { line, partial: acc });
            }
            let e = s.get_char(i + 1);
            let ghost acc0 = acc@;
            if e == 't' {
                acc.append("\t");
                proof {
                    reveal_strlit("\t");
                    assert(acc@ =~= acc0.push('\t'));
                }
                i = i + 2;
            } else if e == 'n' {
                acc.append("\n");
                proof {
                    reveal_strlit("\n");
                    assert(acc@ =~= acc0.push('\n'));
                }
                i = i + 2;
            } else if e == '\\' {
                acc.append("\\");
                proof {
                    reveal_strlit("\\");
                    assert(acc@ =~= acc0.push('\\'));
                }
                i = i + 2;
            } else if e == '"' {
                acc.append("\"");
                proof {
                    reveal_strlit("\"");
                    assert(acc@ =~= acc0.push('"'));
                }
                i = i + 2;
            } else {
                return Err(LexError::InvalidEscape { line, found: e });
            }
        } else {
            if c == '\n' {
                line = line + 1;
            }
            let piece = s.substring_char(i, i + 1);
            let ghost acc0 = acc@;
            acc.append(piece);
            proof {
                assert(piece@ =~= seq![s@[i as int]]);
                assert(acc@ =~= acc0.push(s@[i as int]));
            }
            i = i + 1;
        }
    }
}

/// The outcome of one executable tokenizer step.
enum Step {
    Skip { next: usize, line: usize },
    Tok { tok: Token, next: usize, line: usize },
}

/// One tokenizer step at position `i`, proved to do exactly what
/// `lex_step` says.
fn get_token(s: &str, i: usize, line: usize, n: usize) -> (r: Result<Step, LexError>)
    requires
        n == s@.len(),
        i < n,
        1 <= line,
        line + (n - i) <= usize::MAX,
    ensures
        match lex_step(s@, i as int, line as nat) {
            LexStepV::Skip { next, line: l2 } => r matches Ok(Step::Skip { next: n2, line: le })
                && n2 == next && le == l2,
            LexStepV::Tok { tok, next, line: l2 } => r matches Ok(
                Step::Tok { tok: t, next: n2, line: le },
            ) && t@ == tok && n2 == next && le == l2,
            LexStepV::Fail { err } => r matches Err(e) && e@ == err,
        },
{
    let c = s.get_char(i);
    if c.is_whitespace() {
        if c == '\n' {
            return Ok(Step::Skip { next: i + 1, line: line + 1 });
        }
        return Ok(Step::Skip { next: i + 1, line });
    }
    if is_good_char(&c) {
        let e1 = word_end_exec(s, i, n);
        let w = s.substring_char(i, e1);
        match keyword_token_exec(w) {
            Some(t) => {
                return Ok(Step::Tok { tok: Token { line, value: t }, next: e1, line });
            },
            None => {},
        }
        if c.is_numeric() {
            if e1 < n && s.get_char(e1) == '.' {
                let e2 = word_end_exec(s, e1 + 1, n);
                let text = String::from_str(s.substring_char(i, e2));
                if check_digits(s, i, e1) && check_digits(s, e1 + 1, e2) {
                    return Ok(
                        Step::Tok {
                            tok: Token { line, value: TokenType::FloatLit(text) },
                            next: e2,
                            line,
                        },
                    );
                }
                return Err(LexError::InvalidFloatLiteral { line, text });
            }
            if check_digits(s, i, e1) {
                match digits_to_i64(s, i, e1) {
                    Some(v) => {
                        return Ok(
                            Step::Tok {
                                tok: Token { line, value: TokenType::IntLit(v) },
                                next: e1,
                                line,
                            },
                        );
                    },
                    None => {
                        return Err(
                            LexError::InvalidIntLiteral { line, text: String::from_str(w) },
                        );
                    },
                }
            }
            return Err(LexError::InvalidIntLiteral { line, text: String::from_str(w) });
        }
        return Ok(
            Step::Tok {
                tok: Token { line, value: TokenType::Identifier(String::from_str(w)) },
                next: e1,
                line,
            },
        );
    }
    match c {
        '(' => Ok(Step::Tok { tok: Token { line, value: TokenType::LeftParen }, next: i + 1, line }),
        ')' => Ok(
            Step::Tok { tok: Token { line, value: TokenType::RightParen }, next: i + 1, line },
        ),
        '[' => Ok(Step::Tok { tok: Token { line, value: TokenType::LeftBrack }, next: i + 1, line }),
        ']' => Ok(
            Step::Tok { tok: Token { line, value: TokenType::RightBrack }, next: i + 1, line },
        ),
        '{' => Ok(Step::Tok { tok: Token { line, value: TokenType::LeftCurly }, next: i + 1, line }),
        '}' => Ok(
            Step::Tok { tok: Token { line, value: TokenType::RightCurly }, next: i + 1, line },
        ),
        ',' => Ok(Step::Tok { tok: Token { line, value: TokenType::Comma }, next: i + 1, line }),
        '.' => {
            if i + 1 < n && s.get_char(i + 1).is_numeric() {
                let e2 = word_end_exec(s, i + 1, n);
                let text = String::from_str(s.substring_char(i, e2));
                if e2 > i + 1 && check_digits(s, i + 1, e2) {
                    Ok(
                        Step::Tok {
                            tok: Token { line, value: TokenType::FloatLit(text) },
                            next: e2,
                            line,
                        },
                    )
                } else {
                    Err(LexError::InvalidFloatLiteral { line, text })
                }
            } else {
                Ok(Step::Tok { tok: Token { line, value: TokenType::Period }, next: i + 1, line })
            }
        },
        ':' => Ok(Step::Tok { tok: Token { line, value: TokenType::Colon }, next: i + 1, line }),
        ';' => Ok(Step::Tok { tok: Token { line, value: TokenType::Semicolon }, next: i + 1, line }),
        '\'' => Ok(Step::Tok { tok: Token { line, value: TokenType::SQuote }, next: i + 1, line }),
        '"' => match scan_string_exec(s, i + 1, line, n) {
            Ok(done) => {
                let (text, next, l2) = done;
                Ok(
                    Step::Tok {
                        tok: Token { line, value: TokenType::StringLit(text) },
                        next,
                        line: l2,
                    },
                )
            },
            Err(e) => Err(e),
        },
        '\\' => Ok(Step::Tok { tok: Token { line, value: TokenType::Backslash }, next: i + 1, line }),
        '+' => Ok(Step::Tok { tok: Token { line, value: TokenType::Plus }, next: i + 1, line }),
        '-' => {
            if i + 1 < n && s.get_char(i + 1) == '>' {
                Ok(Step::Tok { tok: Token { line, value: TokenType::Arrow }, next: i + 2, line })
            } else {
                Ok(Step::Tok { tok: Token { line, value: TokenType::Minus }, next: i + 1, line })
            }
        },
        '*' => Ok(Step::Tok { tok: Token { line, value: TokenType::Star }, next: i + 1, line }),
        '/' => Ok(Step::Tok { tok: Token { line, value: TokenType::Slash }, next: i + 1, line }),
        '%' => Ok(Step::Tok { tok: Token { line, value: TokenType::Mod }, next: i + 1, line }),
        '~' => Ok(Step::Tok { tok: Token { line, value: TokenType::BwNot }, next: i + 1, line }),
        '|' => {
            if i + 1 < n && s.get_char(i + 1) == '|' {
                Ok(Step::Tok { tok: Token { line, value: TokenType::Or }, next: i + 2, line })
            } else {
                Ok(Step::Tok { tok: Token { line, value: TokenType::BwOr }, next: i + 1, line })
            }
        },
        '&' => {
            if i + 1 < n && s.get_char(i + 1) == '&' {
                Ok(Step::Tok { tok: Token { line, value: TokenType::And }, next: i + 2, line })
            } else {
                Ok(Step::Tok { tok: Token { line, value: TokenType::BwAnd }, next: i + 1, line })
            }
        },
        '^' => {
            if i + 1 < n && s.get_char(i + 1) == '^' {
                Ok(Step::Tok { tok: Token { line, value: TokenType::Xor }, next: i + 2, line })
            } else {
                Ok(Step::Tok { tok: Token { line, value: TokenType::BwXor }, next: i + 1, line })
            }
        },
        '!' => {
            if i + 1 < n && s.get_char(i + 1) == '=' {
                Ok(Step::Tok { tok: Token { line, value: TokenType::Neq }, next: i + 2, line })
            } else {
                Ok(Step::Tok { tok: Token { line, value: TokenType::Not }, next: i + 1, line })
            }
        },
        '=' => {
            if i + 1 < n && s.get_char(i + 1) == '=' {
                Ok(Step::Tok { tok: Token { line, value: TokenType::Eq }, next: i + 2, line })
            } else {
                Ok(Step::Tok { tok: Token { line, value: TokenType::Assign }, next: i + 1, line })
            }
        },
        '<' => {
            if i + 1 < n && s.get_char(i + 1) == '=' {
                Ok(Step::Tok { tok: Token { line, value: TokenType::Lte }, next: i + 2, line })
            } else {
                Ok(Step::Tok { tok: Token { line, value: TokenType::Lt }, next: i + 1, line })
            }
        },
        '>' => {
            if i + 1 < n && s.get_char(i + 1) == '=' {
                Ok(Step::Tok { tok: Token { line, value: TokenType::Gte }, next: i + 2, line })
            } else {
                Ok(Step::Tok { tok: Token { line, value: TokenType::Gt }, next: i + 1, line })
            }
        },
        _ => Err(LexError::UnrecognizedChar { line, found: c }),
    }
}

/// Tokenizes the whole input, left to right, or reports the first lexical
/// error. Returns exactly the token sequence that `spec_lex` assigns to
/// the input's characters. The input must leave room for one more than
/// its character count, so that the line counter fits the machine word.
pub fn lex(input: String) -> (r: Result<Vec<Token>, LexError>)
    requires
        input@.len() < usize::MAX,
    ensures
        match spec_lex(input@) {
            Ok(toks) => r matches Ok(v) && v.deep_view() == toks,
            Err(e) => r matches Err(le) && le@ == e,
        },
{
    let s = input.as_str();
    let n = s.unicode_len();
    let mut tokens: Vec<Token> = Vec::new();
    let mut i: usize = 0;
    let mut line: usize = 1;
    while i < n
        invariant
            i <= n,
            n == s@.len(),
            s@ == input@,
            1 <= line,
            line + (n - i) <= usize::MAX,
            match lex_from(s@, i as int, line as nat) {
                Ok(rest) => spec_lex(input@) == Ok::<Seq<TokenV>, LexErrorV>(
                    tokens.deep_view() + rest,
                ),
                Err(e) => spec_lex(input@) == Err::<Seq<TokenV>, LexErrorV>(e),
            },
        decreases n - i,
    {
        proof {
            lemma_lex_step_bounds(s@, i as int, line as nat);
        }
        match get_token(s, i, line, n) {
            Ok(Step::Skip { next, line: l2 }) => {
                i = next;
                line = l2;
            },
            Ok(Step::Tok { tok, next, line: l2 }) => {
                let ghost toks0 = tokens.deep_view();
                let ghost tv = tok@;
                tokens.push(tok);
                proof {
                    assert(tokens.deep_view() =~= toks0.push(tv));
                    match lex_from(s@, next as int, l2 as nat) {
                        Ok(rest) => {
                            assert(toks0 + (seq![tv] + rest) =~= toks0.push(tv) + rest);
                        },
                        Err(e) => {},
                    }
                }
                i = next;
                line = l2;
            },
            Err(e) => {
                return Err(e);
            },
        }
    }
    proof {
        assert(tokens.deep_view() + Seq::<TokenV>::empty() =~= tokens.deep_view());
    }
    Ok(tokens)
}

} // verus!
