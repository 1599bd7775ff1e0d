use vstd::prelude::*;

verus! {

/// Reserved words of the source language.
#[derive(PartialEq, Eq, Structural, Clone, Copy, Debug)]
pub enum Keyword {
    Int,
    Long,
    Char,
    Void,
    Unsigned,
    Signed,
    Static,
    Return,
    If,
    Else,
    While,
    For,
    Do,
    Break,
    Continue,
}

/// Operators and punctuation.
#[derive(PartialEq, Eq, Structural, Clone, Copy, Debug)]
pub enum Punct {
    OpenParen,
    CloseParen,
    OpenBrace,
    CloseBrace,
    OpenBracket,
    CloseBracket,
    Semicolon,
    Comma,
    Question,
    Colon,
    Plus,
    Minus,
    Star,
    Slash,
    Percent,
    Assign,
    Less,
    Greater,
    Bang,
    Ampersand,
    Pipe,
    Caret,
    Tilde,
    Equal,
    NotEqual,
    LessEqual,
    GreaterEqual,
    And,
    Or,
    Increment,
    Decrement,
    ShiftLeft,
    ShiftRight,
    PlusAssign,
    MinusAssign,
    StarAssign,
    SlashAssign,
    PercentAssign,
}

#[derive(PartialEq, Eq, Structural, Clone, Copy, Debug)]
pub enum TokenKind {
    Identifier,
    Keyword(Keyword),
    IntLiteral(u64),
    /// A character literal, with its escape sequence (if any) resolved to the
    /// character code.
    CharLiteral(u32),
    /// A string literal; its characters, quotes included, are `start..end` of
    /// the source.
    StringLiteral,
    Punct(Punct),
}

/// A token with its place in the source: the characters `start..end`, and
/// the line and column (both counted from 1) of its first character.
#[derive(PartialEq, Eq, Structural, Clone, Copy, Debug)]
pub struct Token {
    pub kind: TokenKind,
    pub start: usize,
    pub end: usize,
    pub line: usize,
    pub column: usize,
}

#[derive(PartialEq, Eq, Structural, Clone, Copy, Debug)]
pub enum LexErrorKind {
    /// A character that begins no token.
    UnrecognizedChar,
    /// Digits run into letters, or the value does not fit in 64 bits.
    MalformedNumber,
    /// A character or string literal that a line end or the end of input cuts off.
    UnterminatedLiteral,
    /// An empty character literal, or a backslash followed by no known escape.
    MalformedLiteral,
}

/// Why lexing failed, and where: the character offset, line and column.
#[derive(PartialEq, Eq, Structural, Clone, Copy, Debug)]
pub struct LexError {
    pub kind: LexErrorKind,
    pub pos: usize,
    pub line: usize,
    pub column: usize,
}

pub type LexerResult<T> = Result<T, LexError>;

pub open spec fn is_space(c: char) -> bool {
    c == ' ' || c == '\t' || c == '\n' || c == '\r' || c == '\x0b' || c == '\x0c'
}

pub open spec fn is_digit(c: char) -> bool {
    '0' <= c <= '9'
}

pub open spec fn is_ident_start(c: char) -> bool {
    ('a' <= c <= 'z') || ('A' <= c <= 'Z') || c == '_'
}

pub open spec fn is_ident_char(c: char) -> bool {
    is_ident_start(c) || is_digit(c)
}

/// Line (from 1) of the character at offset `i`.
pub open spec fn line_at(s: Seq<char>, i: int) -> nat
    decreases i,
{
    if i <= 0 || i > s.len() {
        1
    } else if s[i - 1] == '\n' {
        line_at(s, i - 1) + 1
    } else {
        line_at(s, i - 1)
    }
}

/// Column (from 1) of the character at offset `i`.
pub open spec fn column_at(s: Seq<char>, i: int) -> nat
    decreases i,
{
    if i <= 0 || i > s.len() {
        1
    } else if s[i - 1] == '\n' {
        1
    } else {
        column_at(s, i - 1) + 1
    }
}

/// End of the longest run of characters satisfying `is_ident_char` from `i`.
pub open spec fn word_end(s: Seq<char>, i: int) -> int
    decreases s.len() - i,
{
    if 0 <= i < s.len() && is_ident_char(s[i]) {
        word_end(s, i + 1)
    } else {
        i
    }
}

/// End of the run of decimal digits from `i`.
pub open spec fn digits_end(s: Seq<char>, i: int) -> int
    decreases s.len() - i,
{
    if 0 <= i < s.len() && is_digit(s[i]) {
        digits_end(s, i + 1)
    } else {
        i
    }
}

pub open spec fn digit_value(c: char) -> nat {
    (c as u32 - '0' as u32) as nat
}

/// Value of a sequence of decimal digits.
pub open spec fn digits_value(d: Seq<char>) -> nat
    decreases d.len(),
{
    if d.len() == 0 {
        0
    } else {
        digits_value(d.drop_last()) * 10 + digit_value(d.last())
    }
}

pub open spec fn keyword_text(k: Keyword) -> Seq<char> {
    match k {
        Keyword::Int => "int"@,
        Keyword::Long => "long"@,
        Keyword::Char => "char"@,
        Keyword::Void => "void"@,
        Keyword::Unsigned => "unsigned"@,
        Keyword::Signed => "signed"@,
        Keyword::Static => "static"@,
        Keyword::Return => "return"@,
        Keyword::If => "if"@,
        Keyword::Else => "else"@,
        Keyword::While => "while"@,
        Keyword::For => "for"@,
        Keyword::Do => "do"@,
        Keyword::Break => "break"@,
        Keyword::Continue => "continue"@,
    }
}

/// The keyword spelled `w`, if any.
pub open spec fn keyword_of(w: Seq<char>) -> Option<Keyword> {
    if w == keyword_text(Keyword::Int) {
        Some(Keyword::Int)
    } else if w == keyword_text(Keyword::Long) {
        Some(Keyword::Long)
    } else if w == keyword_text(Keyword::Char) {
        Some(Keyword::Char)
    } else if w == keyword_text(Keyword::Void) {
        Some(Keyword::Void)
    } else if w == keyword_text(Keyword::Unsigned) {
        Some(Keyword::Unsigned)
    } else if w == keyword_text(Keyword::Signed) {
        Some(Keyword::Signed)
    } else if w == keyword_text(Keyword::Static) {
        Some(Keyword::Static)
    } else if w == keyword_text(Keyword::Return) {
        Some(Keyword::Return)
    } else if w == keyword_text(Keyword::If) {
        Some(Keyword::If)
    } else if w == keyword_text(Keyword::Else) {
        Some(Keyword::Else)
    } else if w == keyword_text(Keyword::While) {
        Some(Keyword::While)
    } else if w == keyword_text(Keyword::For) {
        Some(Keyword::For)
    } else if w == keyword_text(Keyword::Do) {
        Some(Keyword::Do)
    } else if w == keyword_text(Keyword::Break) {
        Some(Keyword::Break)
    } else if w == keyword_text(Keyword::Continue) {
        Some(Keyword::Continue)
    } else {
        None
    }
}

/// The two-character operator spelled `c d`, if any.
pub open spec fn punct2_spec(c: char, d: char) -> Option<Punct> {
    if c == '=' && d == '=' {
        Some(Punct::Equal)
    } else if c == '!' && d == '=' {
        Some(Punct::NotEqual)
    } else if c == '<' && d == '=' {
        Some(Punct::LessEqual)
    } else if c == '>' && d == '=' {
        Some(Punct::GreaterEqual)
    } else if c == '&' && d == '&' {
        Some(Punct::And)
    } else if c == '|' && d == '|' {
        Some(Punct::Or)
    } else if c == '+' && d == '+' {
        Some(Punct::Increment)
    } else if c == '-' && d == '-' {
        Some(Punct::Decrement)
    } else if c == '<' && d == '<' {
        Some(Punct::ShiftLeft)
    } else if c == '>' && d == '>' {
        Some(Punct::ShiftRight)
    } else if c == '+' && d == '=' {
        Some(Punct::PlusAssign)
    } else if c == '-' && d == '=' {
        Some(Punct::MinusAssign)
    } else if c == '*' && d == '=' {
        Some(Punct::StarAssign)
    } else if c == '/' && d == '=' {
        Some(Punct::SlashAssign)
    } else if c == '%' && d == '=' {
        Some(Punct::PercentAssign)
    } else {
        None
    }
}

/// The one-character operator or punctuation `c`, if any.
pub open spec fn punct1_spec(c: char) -> Option<Punct> {
    if c == '(' {
        Some(Punct::OpenParen)
    } else if c == ')' {
        Some(Punct::CloseParen)
    } else if c == '{' {
        Some(Punct::OpenBrace)
    } else if c == '}' {
        Some(Punct::CloseBrace)
    } else if c == '[' {
        Some(Punct::OpenBracket)
    } else if c == ']' {
        Some(Punct::CloseBracket)
    } else if c == ';' {
        Some(Punct::Semicolon)
    } else if c == ',' {
        Some(Punct::Comma)
    } else if c == '?' {
        Some(Punct::Question)
    } else if c == ':' {
        Some(Punct::Colon)
    } else if c == '+' {
        Some(Punct::Plus)
    } else if c == '-' {
        Some(Punct::Minus)
    } else if c == '*' {
        Some(Punct::Star)
    } else if c == '/' {
        Some(Punct::Slash)
    } else if c == '%' {
        Some(Punct::Percent)
    } else if c == '=' {
        Some(Punct::Assign)
    } else if c == '<' {
        Some(Punct::Less)
    } else if c == '>' {
        Some(Punct::Greater)
    } else if c == '!' {
        Some(Punct::Bang)
    } else if c == '&' {
        Some(Punct::Ampersand)
    } else if c == '|' {
        Some(Punct::Pipe)
    } else if c == '^' {
        Some(Punct::Caret)
    } else if c == '~' {
        Some(Punct::Tilde)
    } else {
        None
    }
}

/// The operator that starts at `i`, longest first, with its length.
pub open spec fn punct_at(s: Seq<char>, i: int) -> Option<(Punct, int)> {
    let two = if i + 1 < s.len() {
        punct2_spec(s[i], s[i + 1])
    } else {
        None
    };
    match two {
        Some(p) => Some((p, 2)),
        None => match punct1_spec(s[i]) {
            Some(p) => Some((p, 1)),
            None => None,
        },
    }
}

/// The character code that the escape sequence `\c` stands for.
pub open spec fn escape_value(c: char) -> Option<u32> {
    if c == 'n' {
        Some(10u32)
    } else if c == 't' {
        Some(9u32)
    } else if c == 'r' {
        Some(13u32)
    } else if c == '0' {
        Some(0u32)
    } else if c == 'a' {
        Some(7u32)
    } else if c == 'b' {
        Some(8u32)
    } else if c == 'f' {
        Some(12u32)
    } else if c == 'v' {
        Some(11u32)
    } else if c == '\\' {
        Some(92u32)
    } else if c == '\'' {
        Some(39u32)
    } else if c == '"' {
        Some(34u32)
    } else {
        None
    }
}

/// The character literal whose opening quote is at `i`: its value and the
/// offset just past its closing quote.
pub open spec fn char_literal(s: Seq<char>, i: int) -> Result<(u32, int), LexErrorKind> {
    if i + 1 >= s.len() {
        Err(LexErrorKind::UnterminatedLiteral)
    } else if s[i + 1] == '\\' {
        if i + 2 >= s.len() {
            Err(LexErrorKind::UnterminatedLiteral)
        } else {
            match escape_value(s[i + 2]) {
                None => Err(LexErrorKind::MalformedLiteral),
                Some(v) => if i + 3 < s.len() && s[i + 3] == '\'' {
                    Ok((v, i + 4))
                } else {
                    Err(LexErrorKind::UnterminatedLiteral)
                },
            }
        }
    } else if s[i + 1] == '\'' {
        Err(LexErrorKind::MalformedLiteral)
    } else if s[i + 1] == '\n' {
        Err(LexErrorKind::UnterminatedLiteral)
    } else if i + 2 < s.len() && s[i + 2] == '\'' {
        Ok((s[i + 1] as u32, i + 3))
    } else {
        Err(LexErrorKind::UnterminatedLiteral)
    }
}

/// Scanning the body of a string literal from `i`: the offset just past its
/// closing quote.
pub open spec fn string_rest(s: Seq<char>, i: int) -> Result<int, LexErrorKind>
    decreases s.len() - i,
{
    if i < 0 || i >= s.len() || s[i] == '\n' {
        Err(LexErrorKind::UnterminatedLiteral)
    } else if s[i] == '"' {
        Ok(i + 1)
    } else if s[i] == '\\' {
        if i + 1 >= s.len() {
            Err(LexErrorKind::UnterminatedLiteral)
        } else if escape_value(s[i + 1]) is None {
            Err(LexErrorKind::MalformedLiteral)
        } else {
            string_rest(s, i + 2)
        }
    } else {
        string_rest(s, i + 1)
    }
}

pub open spec fn token_spec(s: Seq<char>, kind: TokenKind, start: int, end: int) -> Token {
    Token {
        kind,
        start: start as usize,
        end: end as usize,
        line: line_at(s, start) as usize,
        column: column_at(s, start) as usize,
    }
}

pub open spec fn error_spec(s: Seq<char>, kind: LexErrorKind, pos: int) -> LexError {
    LexError {
        kind,
        pos: pos as usize,
        line: line_at(s, pos) as usize,
        column: column_at(s, pos) as usize,
    }
}

/// Lexing of `s` from offset `i`, after the tokens `acc`: whitespace separates
/// tokens, a word is an identifier unless it spells a keyword, a number is a
/// maximal run of digits that no letter follows and whose value fits in 64 bits,
/// and an operator is the longest one that matches.
pub open spec fn lex_from(s: Seq<char>, i: int, acc: Seq<Token>) -> LexerResult<Seq<Token>>
    decreases s.len() - i,
{
    if i < 0 || i >= s.len() {
        Ok(acc)
    } else if is_space(s[i]) {
        lex_from(s, i + 1, acc)
    } else if is_ident_start(s[i]) {
        let j = word_end(s, i);
        let kind = match keyword_of(s.subrange(i, j)) {
            Some(k) => TokenKind::Keyword(k),
            None => TokenKind::Identifier,
        };
        if i < j <= s.len() {
            lex_from(s, j, acc.push(token_spec(s, kind, i, j)))
        } else {
            Ok(acc)
        }
    } else if s[i] == '\'' {
        match char_literal(s, i) {
            Ok((v, j)) => if i < j <= s.len() {
                lex_from(s, j, acc.push(token_spec(s, TokenKind::CharLiteral(v), i, j)))
            } else {
                Ok(acc)
            },
            Err(k) => Err(error_spec(s, k, i)),
        }
    } else if s[i] == '"' {
        match string_rest(s, i + 1) {
            Ok(j) => if i < j <= s.len() {
                lex_from(s, j, acc.push(token_spec(s, TokenKind::StringLiteral, i, j)))
            } else {
                Ok(acc)
            },
            Err(k) => Err(error_spec(s, k, i)),
        }
    } else if is_digit(s[i]) {
        let j = digits_end(s, i);
        let v = digits_value(s.subrange(i, j));
        if j < s.len() && is_ident_char(s[j]) {
            Err(error_spec(s, LexErrorKind::MalformedNumber, i))
        } else if v > u64::MAX {
            Err(error_spec(s, LexErrorKind::MalformedNumber, i))
        } else if i < j <= s.len() {
            lex_from(s, j, acc.push(token_spec(s, TokenKind::IntLiteral(v as u64), i, j)))
        } else {
            Ok(acc)
        }
    } else {
        match punct_at(s, i) {
            Some((p, n)) => if n > 0 {
                lex_from(s, i + n, acc.push(token_spec(s, TokenKind::Punct(p), i, i + n)))
            } else {
                Ok(acc)
            },
            None => Err(error_spec(s, LexErrorKind::UnrecognizedChar, i)),
        }
    }
}

/// The tokens of the source text `s`, or the first lexical error in it.
pub open spec fn lex_spec(s: Seq<char>) -> LexerResult<Seq<Token>> {
    lex_from(s, 0, Seq::empty())
}


proof fn lemma_advance(s: Seq<char>, i: int, j: int)
    requires
        0 <= i <= j <= s.len(),
        forall|k: int| i <= k < j ==> s[k] != '\n',
    ensures
        line_at(s, j) == line_at(s, i),
        column_at(s, j) == column_at(s, i) + (j - i),
    decreases j - i,
{
    if j > i {
        lemma_advance(s, i, j - 1);
    }
}

fn space(c: char) -> (r: bool)
    ensures
        r == is_space(c),
{
    c == ' ' || c == '\t' || c == '\n' || c == '\r' || c == '\x0b' || c == '\x0c'
}

fn digit(c: char) -> (r: bool)
    ensures
        r == is_digit(c),
{
    '0' <= c && c <= '9'
}

fn ident_start(c: char) -> (r: bool)
    ensures
        r == is_ident_start(c),
{
    ('a' <= c && c <= 'z') || ('A' <= c && c <= 'Z') || c == '_'
}

fn ident_char(c: char) -> (r: bool)
    ensures
        r == is_ident_char(c),
{
    ident_start(c) || digit(c)
}

/// Whether the characters `i..j` spell `w`.
fn spells(chars: &Vec<char>, i: usize, j: usize, w: &str) -> (r: bool)
    requires
        i <= j <= chars@.len(),
    ensures
        r == (chars@.subrange(i as int, j as int) == w@),
{
    let n = w.unicode_len();
    if j - i != n {
        return false;
    }
    let mut k: usize = 0;
    while k < n
        invariant
            i <= j <= chars@.len(),
            j - i == n == w@.len(),
            k <= n,
            forall|m: int| 0 <= m < k ==> chars@[i + m] == w@[m],
        decreases n - k,
    {
        if chars[i + k] != w.get_char(k) {
            assert(chars@.subrange(i as int, j as int)[k as int] != w@[k as int]);
            return false;
        }
        k = k + 1;
    }
    assert(chars@.subrange(i as int, j as int) =~= w@);
    true
}

fn keyword_lookup(chars: &Vec<char>, i: usize, j: usize) -> (r: Option<Keyword>)
    requires
        i <= j <= chars@.len(),
    ensures
        r == keyword_of(chars@.subrange(i as int, j as int)),
{
    if spells(chars, i, j, "int") {
        Some(Keyword::Int)
    } else if spells(chars, i, j, "long") {
        Some(Keyword::Long)
    } else if spells(chars, i, j, "char") {
        Some(Keyword::Char)
    } else if spells(chars, i, j, "void") {
        Some(Keyword::Void)
    } else if spells(chars, i, j, "unsigned") {
        Some(Keyword::Unsigned)
    } else if spells(chars, i, j, "signed") {
        Some(Keyword::Signed)
    } else if spells(chars, i, j, "static") {
        Some(Keyword::Static)
    } else if spells(chars, i, j, "return") {
        Some(Keyword::Return)
    } else if spells(chars, i, j, "if") {
        Some(Keyword::If)
    } else if spells(chars, i, j, "else") {
        Some(Keyword::Else)
    } else if spells(chars, i, j, "while") {
        Some(Keyword::While)
    } else if spells(chars, i, j, "for") {
        Some(Keyword::For)
    } else if spells(chars, i, j, "do") {
        Some(Keyword::Do)
    } else if spells(chars, i, j, "break") {
        Some(Keyword::Break)
    } else if spells(chars, i, j, "continue") {
        Some(Keyword::Continue)
    } else {
        None
    }
}

fn punct2(c: char, d: char) -> (r: Option<Punct>)
    ensures
        r == punct2_spec(c, d),
{
    if c == '=' && d == '=' {
        Some(Punct::Equal)
    } else if c == '!' && d == '=' {
        Some(Punct::NotEqual)
    } else if c == '<' && d == '=' {
        Some(Punct::LessEqual)
    } else if c == '>' && d == '=' {
        Some(Punct::GreaterEqual)
    } else if c == '&' && d == '&' {
        Some(Punct::And)
    } else if c == '|' && d == '|' {
        Some(Punct::Or)
    } else if c == '+' && d == '+' {
        Some(Punct::Increment)
    } else if c == '-' && d == '-' {
        Some(Punct::Decrement)
    } else if c == '<' && d == '<' {
        Some(Punct::ShiftLeft)
    } else if c == '>' && d == '>' {
        Some(Punct::ShiftRight)
    } else if c == '+' && d == '=' {
        Some(Punct::PlusAssign)
    } else if c == '-' && d == '=' {
        Some(Punct::MinusAssign)
    } else if c == '*' && d == '=' {
        Some(Punct::StarAssign)
    } else if c == '/' && d == '=' {
        Some(Punct::SlashAssign)
    } else if c == '%' && d == '=' {
        Some(Punct::PercentAssign)
    } else {
        None
    }
}

fn punct1(c: char) -> (r: Option<Punct>)
    ensures
        r == punct1_spec(c),
{
    if c == '(' {
        Some(Punct::OpenParen)
    } else if c == ')' {
        Some(Punct::CloseParen)
    } else if c == '{' {
        Some(Punct::OpenBrace)
    } else if c == '}' {
        Some(Punct::CloseBrace)
    } else if c == '[' {
        Some(Punct::OpenBracket)
    } else if c == ']' {
        Some(Punct::CloseBracket)
    } else if c == ';' {
        Some(Punct::Semicolon)
    } else if c == ',' {
        Some(Punct::Comma)
    } else if c == '?' {
        Some(Punct::Question)
    } else if c == ':' {
        Some(Punct::Colon)
    } else if c == '+' {
        Some(Punct::Plus)
    } else if c == '-' {
        Some(Punct::Minus)
    } else if c == '*' {
        Some(Punct::Star)
    } else if c == '/' {
        Some(Punct::Slash)
    } else if c == '%' {
        Some(Punct::Percent)
    } else if c == '=' {
        Some(Punct::Assign)
    } else if c == '<' {
        Some(Punct::Less)
    } else if c == '>' {
        Some(Punct::Greater)
    } else if c == '!' {
        Some(Punct::Bang)
    } else if c == '&' {
        Some(Punct::Ampersand)
    } else if c == '|' {
        Some(Punct::Pipe)
    } else if c == '^' {
        Some(Punct::Caret)
    } else if c == '~' {
        Some(Punct::Tilde)
    } else {
        None
    }
}

fn escape(c: char) -> (r: Option<u32>)
    ensures
        r == escape_value(c),
{
    if c == 'n' {
        Some(10u32)
    } else if c == 't' {
        Some(9u32)
    } else if c == 'r' {
        Some(13u32)
    } else if c == '0' {
        Some(0u32)
    } else if c == 'a' {
        Some(7u32)
    } else if c == 'b' {
        Some(8u32)
    } else if c == 'f' {
        Some(12u32)
    } else if c == 'v' {
        Some(11u32)
    } else if c == '\\' {
        Some(92u32)
    } else if c == '\'' {
        Some(39u32)
    } else if c == '"' {
        Some(34u32)
    } else {
        None
    }
}

fn char_lit(chars: &Vec<char>, i: usize) -> (r: Result<(u32, usize), LexErrorKind>)
    requires
        i < chars@.len(),
        chars@[i as int] == '\'',
    ensures
        r matches Ok((v, j)) ==> char_literal(chars@, i as int) == Ok::<(u32, int), LexErrorKind>(
            (v, j as int),
        ) && i < j <= chars@.len() && forall|k: int| i <= k < j ==> chars@[k] != '\n',
        r matches Err(e) ==> char_literal(chars@, i as int) == Err::<(u32, int), LexErrorKind>(e),
{
    let n = chars.len();
    if n - i <= 1 {
        return Err(LexErrorKind::UnterminatedLiteral);
    }
    let c = chars[i + 1];
    if c == '\\' {
        if n - i <= 2 {
            return Err(LexErrorKind::UnterminatedLiteral);
        }
        match escape(chars[i + 2]) {
            None => Err(LexErrorKind::MalformedLiteral),
            Some(v) => if n - i > 3 && chars[i + 3] == '\'' {
                Ok((v, i + 4))
            } else {
                Err(LexErrorKind::UnterminatedLiteral)
            },
        }
    } else if c == '\'' {
        Err(LexErrorKind::MalformedLiteral)
    } else if c == '\n' {
        Err(LexErrorKind::UnterminatedLiteral)
    } else if n - i > 2 && chars[i + 2] == '\'' {
        Ok((c as u32, i + 3))
    } else {
        Err(LexErrorKind::UnterminatedLiteral)
    }
}

proof fn lemma_string_rest(s: Seq<char>, i: int)
    requires
        0 <= i,
        string_rest(s, i) is Ok,
    ensures
        i < string_rest(s, i)->Ok_0 <= s.len(),
        forall|k: int| i <= k < string_rest(s, i)->Ok_0 ==> s[k] != '\n',
    decreases s.len() - i,
{
    if s[i] == '"' {
    } else if s[i] == '\\' {
        lemma_string_rest(s, i + 2);
    } else {
        lemma_string_rest(s, i + 1);
    }
}

fn string_lit(chars: &Vec<char>, i: usize) -> (r: Result<usize, LexErrorKind>)
    requires
        i < chars@.len(),
        chars@[i as int] == '"',
    ensures
        r matches Ok(j) ==> string_rest(chars@, i + 1) == Ok::<int, LexErrorKind>(j as int) && i
            < j <= chars@.len() && forall|k: int| i <= k < j ==> chars@[k] != '\n',
        r matches Err(e) ==> string_rest(chars@, i + 1) == Err::<int, LexErrorKind>(e),
{
    let ghost s = chars@;
    let n = chars.len();
    let mut k: usize = i + 1;
    while k < n
        invariant
            s == chars@,
            n == s.len(),
            i < n,
            s[i as int] == '"',
            i < k,
            k <= n + 1,
            string_rest(s, i + 1) == string_rest(s, k as int),
        decreases n - k,
    {
        let c = chars[k];
        if c == '\n' {
            return Err(LexErrorKind::UnterminatedLiteral);
        } else if c == '"' {
            proof {
                assert(string_rest(s, k as int) == Ok::<int, LexErrorKind>(k + 1));
                lemma_string_rest(s, i + 1);
                assert forall|m: int| i <= m < k + 1 implies s[m] != '\n' by {
                    if m > i {
                        assert(i + 1 <= m < string_rest(s, i + 1)->Ok_0);
                    } else {
                        assert(s[m] == '"');
                    }
                }
            }
            return Ok(k + 1);
        } else if c == '\\' {
            if n - k <= 1 {
                return Err(LexErrorKind::UnterminatedLiteral);
            }
            if escape(chars[k + 1]).is_none() {
                return Err(LexErrorKind::MalformedLiteral);
            }
            k = k + 2;
        } else {
            k = k + 1;
        }
    }
    Err(LexErrorKind::UnterminatedLiteral)
}

fn punct(chars: &Vec<char>, i: usize) -> (r: Option<(Punct, usize)>)
    requires
        i < chars@.len(),
    ensures
        punct_at(chars@, i as int) matches Some((p, n)) ==> r == Some((p, n as usize)) && (n == 1
            || n == 2),
        punct_at(chars@, i as int) is None ==> r is None,
{
    if chars.len() - i > 1 {
        if let Some(p) = punct2(chars[i], chars[i + 1]) {
            return Some((p, 2));
        }
    }
    match punct1(chars[i]) {
        Some(p) => Some((p, 1)),
        None => None,
    }
}

/// End of the word that starts at `i`.
fn scan_word(chars: &Vec<char>, i: usize) -> (j: usize)
    requires
        i < chars@.len(),
        is_ident_char(chars@[i as int]),
    ensures
        j == word_end(chars@, i as int),
        i < j <= chars@.len(),
        forall|k: int| i <= k < j ==> is_ident_char(chars@[k]),
{
    let mut j: usize = i;
    while j < chars.len() && ident_char(chars[j])
        invariant
            i <= j <= chars@.len(),
            word_end(chars@, i as int) == word_end(chars@, j as int),
            forall|k: int| i <= k < j ==> is_ident_char(chars@[k]),
        decreases chars@.len() - j,
    {
        j = j + 1;
    }
    j
}

/// End of the run of digits that starts at `i`, and its value where that fits
/// in 64 bits.
fn scan_number(chars: &Vec<char>, i: usize) -> (r: (usize, Option<u64>))
    requires
        i < chars@.len(),
        is_digit(chars@[i as int]),
    ensures
        r.0 == digits_end(chars@, i as int),
        i < r.0 <= chars@.len(),
        forall|k: int| i <= k < r.0 ==> is_digit(chars@[k]),
        digits_value(chars@.subrange(i as int, r.0 as int)) <= u64::MAX ==> r.1 == Some(
            digits_value(chars@.subrange(i as int, r.0 as int)) as u64,
        ),
        digits_value(chars@.subrange(i as int, r.0 as int)) > u64::MAX ==> r.1 is None,
{
    let ghost s = chars@;
    let mut j: usize = i;
    let mut value: u64 = 0;
    let mut overflow = false;
    assert(s.subrange(i as int, i as int) =~= Seq::<char>::empty());
    while j < chars.len() && digit(chars[j])
        invariant
            i <= j <= s.len(),
            s == chars@,
            digits_end(s, i as int) == digits_end(s, j as int),
            forall|k: int| i <= k < j ==> is_digit(s[k]),
            !overflow ==> value as nat == digits_value(s.subrange(i as int, j as int)),
            overflow ==> digits_value(s.subrange(i as int, j as int)) > u64::MAX,
        decreases s.len() - j,
    {
        let d = (chars[j] as u32 - '0' as u32) as u64;
        assert(s.subrange(i as int, j + 1 as int).drop_last() =~= s.subrange(i as int, j as int));
        assert(s.subrange(i as int, j + 1 as int).last() == s[j as int]);
        if !overflow {
            let next: u128 = (value as u128) * 10 + (d as u128);
            if next > u64::MAX as u128 {
                overflow = true;
            } else {
                value = next as u64;
            }
        }
        j = j + 1;
    }
    if overflow {
        (j, None)
    } else {
        (j, Some(value))
    }
}

/// The characters of `source`, one element each.
pub(crate) fn chars_of(source: &str) -> (r: Vec<char>)
    ensures
        r@ == source@,
{
    let n = source.unicode_len();
    let mut r: Vec<char> = Vec::new();
    let mut k: usize = 0;
    while k < n
        invariant
            n == source@.len(),
            k <= n,
            r@ == source@.subrange(0, k as int),
        decreases n - k,
    {
        r.push(source.get_char(k));
        k = k + 1;
        assert(r@ =~= source@.subrange(0, k as int));
    }
    assert(r@ =~= source@);
    r
}

/// Splits `source` into tokens, or reports the first character at which no
/// token can begin or a number is malformed.
pub fn run_lexer(source: &str) -> (r: LexerResult<Vec<Token>>)
    requires
        source@.len() < usize::MAX,
    ensures
        r matches Ok(v) ==> lex_spec(source@) == Ok::<Seq<Token>, LexError>(v@),
        r matches Err(e) ==> lex_spec(source@) == Err::<Seq<Token>, LexError>(e),
{
    let chars = chars_of(source);
    let ghost s = chars@;
    let n = chars.len();
    let mut toks: Vec<Token> = Vec::new();
    let mut i: usize = 0;
    let mut line: usize = 1;
    let mut col: usize = 1;
    while i < n
        invariant
            s == chars@,
            s == source@,
            n == s.len(),
            n < usize::MAX,
            i <= n,
            line as nat == line_at(s, i as int),
            col as nat == column_at(s, i as int),
            line <= i + 1,
            col <= i + 1,
            lex_spec(s) == lex_from(s, i as int, toks@),
        decreases n - i,
    {
        let c = chars[i];
        if space(c) {
            if c == '\n' {
                line = line + 1;
                col = 1;
            } else {
                col = col + 1;
            }
            i = i + 1;
        } else if ident_start(c) {
            let j = scan_word(&chars, i);
            let kind = match keyword_lookup(&chars, i, j) {
                Some(k) => TokenKind::Keyword(k),
                None => TokenKind::Identifier,
            };
            toks.push(Token { kind, start: i, end: j, line, column: col });
            proof {
                lemma_advance(s, i as int, j as int);
            }
            col = col + (j - i);
            i = j;
        } else if c == '\'' {
            match char_lit(&chars, i) {
                Err(k) => {
                    return Err(LexError { kind: k, pos: i, line, column: col });
                },
                Ok((v, j)) => {
                    toks.push(Token { kind: TokenKind::CharLiteral(v), start: i, end: j, line, column: col });
                    proof {
                        lemma_advance(s, i as int, j as int);
                    }
                    col = col + (j - i);
                    i = j;
                },
            }
        } else if c == '"' {
            match string_lit(&chars, i) {
                Err(k) => {
                    return Err(LexError { kind: k, pos: i, line, column: col });
                },
                Ok(j) => {
                    toks.push(Token { kind: TokenKind::StringLiteral, start: i, end: j, line, column: col });
                    proof {
                        lemma_advance(s, i as int, j as int);
                    }
                    col = col + (j - i);
                    i = j;
                },
            }
        } else if digit(c) {
            let (j, value) = scan_number(&chars, i);
            if j < n && ident_char(chars[j]) {
                return Err(
                    LexError { kind: LexErrorKind::MalformedNumber, pos: i, line, column: col },
                );
            }
            match value {
                None => {
                    return Err(
                        LexError { kind: LexErrorKind::MalformedNumber, pos: i, line, column: col },
                    );
                },
                Some(v) => {
                    toks.push(Token { kind: TokenKind::IntLiteral(v), start: i, end: j, line, column: col });
                },
            }
            proof {
                lemma_advance(s, i as int, j as int);
            }
            col = col + (j - i);
            i = j;
        } else {
            match punct(&chars, i) {
                None => {
                    return Err(
                        LexError { kind: LexErrorKind::UnrecognizedChar, pos: i, line, column: col },
                    );
                },
                Some((p, m)) => {
                    toks.push(Token { kind: TokenKind::Punct(p), start: i, end: i + m, line, column: col });
                    proof {
                        lemma_advance(s, i as int, i + m);
                    }
                    col = col + m;
                    i = i + m;
                },
            }
        }
    }
    Ok(toks)
}


proof fn lemma_lex_from_len(s: Seq<char>, i: int, acc: Seq<Token>)
    requires
        0 <= i <= s.len(),
    ensures
        lex_from(s, i, acc) matches Ok(t) ==> t.len() <= acc.len() + (s.len() - i),
    decreases s.len() - i,
{
    if i < s.len() {
        if is_space(s[i]) {
            lemma_lex_from_len(s, i + 1, acc);
        } else if is_ident_start(s[i]) {
            let j = word_end(s, i);
            let kind = match keyword_of(s.subrange(i, j)) {
                Some(k) => TokenKind::Keyword(k),
                None => TokenKind::Identifier,
            };
            if i < j <= s.len() {
                lemma_lex_from_len(s, j, acc.push(token_spec(s, kind, i, j)));
            }
        } else if s[i] == '\'' {
            if let Ok((v, j)) = char_literal(s, i) {
                if i < j <= s.len() {
                    lemma_lex_from_len(s, j, acc.push(token_spec(s, TokenKind::CharLiteral(v), i, j)));
                }
            }
        } else if s[i] == '"' {
            if let Ok(j) = string_rest(s, i + 1) {
                if i < j <= s.len() {
                    lemma_lex_from_len(s, j, acc.push(token_spec(s, TokenKind::StringLiteral, i, j)));
                }
            }
        } else if is_digit(s[i]) {
            let j = digits_end(s, i);
            let v = digits_value(s.subrange(i, j));
            if i < j <= s.len() && v <= u64::MAX {
                lemma_lex_from_len(s, j, acc.push(token_spec(s, TokenKind::IntLiteral(v as u64), i, j)));
            }
        } else if let Some((p, n)) = punct_at(s, i) {
            if n > 0 && i + n <= s.len() {
                lemma_lex_from_len(s, i + n, acc.push(token_spec(s, TokenKind::Punct(p), i, i + n)));
            }
        }
    }
}

/// Each token takes at least one character: there are no more tokens than
/// characters.
pub proof fn lemma_lex_len(s: Seq<char>)
    ensures
        lex_spec(s) matches Ok(t) ==> t.len() <= s.len(),
{
    lemma_lex_from_len(s, 0, Seq::empty());
}


/// The character codes that the characters `s[i..end]` of a string literal's
/// body stand for: an escape sequence gives the code it denotes, any other
/// character its own code.
pub open spec fn unescape_from(s: Seq<char>, i: int, end: int) -> Seq<u32>
    decreases end - i,
{
    if i < 0 || i >= end || end > s.len() {
        Seq::empty()
    } else if s[i] == '\\' && i + 1 < end && escape_value(s[i + 1]) is Some {
        seq![escape_value(s[i + 1])->Some_0] + unescape_from(s, i + 2, end)
    } else {
        seq![s[i] as u32] + unescape_from(s, i + 1, end)
    }
}

/// The value of a string literal token: the codes of the characters between
/// its quotes, with escape sequences resolved.
pub fn string_value(source: &str, tok: &Token) -> (r: Vec<u32>)
    requires
        tok.start + 2 <= tok.end <= source@.len(),
    ensures
        r@ == unescape_from(source@, tok.start + 1, tok.end - 1),
{
    let chars = chars_of(source);
    let ghost s = chars@;
    let end = tok.end - 1;
    let mut r: Vec<u32> = Vec::new();
    let mut i: usize = tok.start + 1;
    while i < end
        invariant
            s == chars@,
            s == source@,
            end <= s.len(),
            i <= end + 1,
            end == tok.end - 1,
            tok.start + 1 <= i,
            r@ + unescape_from(s, i as int, end as int) == unescape_from(s, tok.start + 1, end as int),
        decreases end + 1 - i,
    {
        let ghost r0 = r@;
        let c = chars[i];
        if c == '\\' && end - i > 1 {
            match escape(chars[i + 1]) {
                Some(v) => {
                    r.push(v);
                    assert(r0 + unescape_from(s, i as int, end as int) =~= r@ + unescape_from(
                        s,
                        i + 2,
                        end as int,
                    ));
                    i = i + 2;
                    continue;
                },
                None => {},
            }
        }
        r.push(c as u32);
        assert(r0 + unescape_from(s, i as int, end as int) =~= r@ + unescape_from(
            s,
            i + 1,
            end as int,
        ));
        i = i + 1;
    }
    assert(unescape_from(s, i as int, end as int) =~= Seq::<u32>::empty());
    assert(r@ =~= r@ + unescape_from(s, i as int, end as int));
    r
}
} // verus!
