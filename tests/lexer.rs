use c_compiler::lexer::{run_lexer, string_value, Keyword, LexErrorKind, Punct, TokenKind};

#[test]
fn lex_return_sum_has_eleven_tokens() {
    let toks = run_lexer("int main() { return 1 + 2; }").unwrap();
    assert_eq!(toks.len(), 11);
    let ints: Vec<u64> = toks
        .iter()
        .filter_map(|t| match t.kind {
            TokenKind::IntLiteral(v) => Some(v),
            _ => None,
        })
        .collect();
    assert_eq!(ints, vec![1, 2]);
    assert_eq!(toks[0].kind, TokenKind::Keyword(Keyword::Int));
    assert_eq!(toks[1].kind, TokenKind::Identifier);
    assert_eq!((toks[1].start, toks[1].end), (4, 8));
    assert_eq!(toks[5].kind, TokenKind::Keyword(Keyword::Return));
    assert_eq!(toks[7].kind, TokenKind::Punct(Punct::Plus));
    assert_eq!(toks[10].kind, TokenKind::Punct(Punct::CloseBrace));
}

#[test]
fn lex_empty_input() {
    assert!(run_lexer("").unwrap().is_empty());
    assert!(run_lexer(" \n\t ").unwrap().is_empty());
}

#[test]
fn lex_tracks_lines_and_columns() {
    let toks = run_lexer("int x;\n  return x;").unwrap();
    assert_eq!(toks.len(), 6);
    assert_eq!((toks[0].line, toks[0].column), (1, 1));
    assert_eq!((toks[2].line, toks[2].column), (1, 6));
    assert_eq!((toks[3].line, toks[3].column), (2, 3));
    assert_eq!((toks[4].line, toks[4].column), (2, 10));
}

#[test]
fn lex_longest_operator_first() {
    let toks = run_lexer("a<=b==c&&d||!e++").unwrap();
    let kinds: Vec<TokenKind> = toks.iter().map(|t| t.kind).collect();
    assert_eq!(
        kinds,
        vec![
            TokenKind::Identifier,
            TokenKind::Punct(Punct::LessEqual),
            TokenKind::Identifier,
            TokenKind::Punct(Punct::Equal),
            TokenKind::Identifier,
            TokenKind::Punct(Punct::And),
            TokenKind::Identifier,
            TokenKind::Punct(Punct::Or),
            TokenKind::Punct(Punct::Bang),
            TokenKind::Identifier,
            TokenKind::Punct(Punct::Increment),
        ]
    );
}

#[test]
fn lex_keywords_only_whole_words() {
    let toks = run_lexer("int integer if_ while").unwrap();
    assert_eq!(toks[0].kind, TokenKind::Keyword(Keyword::Int));
    assert_eq!(toks[1].kind, TokenKind::Identifier);
    assert_eq!(toks[2].kind, TokenKind::Identifier);
    assert_eq!(toks[3].kind, TokenKind::Keyword(Keyword::While));
}

#[test]
fn lex_largest_integer() {
    let toks = run_lexer("18446744073709551615").unwrap();
    assert_eq!(toks[0].kind, TokenKind::IntLiteral(u64::MAX));
}

#[test]
fn lex_rejects_integer_overflow() {
    let e = run_lexer("x = 18446744073709551616;").unwrap_err();
    assert_eq!(e.kind, LexErrorKind::MalformedNumber);
    assert_eq!(e.pos, 4);
}

#[test]
fn lex_rejects_digits_followed_by_letters() {
    let e = run_lexer("return 12ab;").unwrap_err();
    assert_eq!(e.kind, LexErrorKind::MalformedNumber);
    assert_eq!((e.pos, e.line, e.column), (7, 1, 8));
}

#[test]
fn lex_rejects_unknown_character() {
    let e = run_lexer("int x;\nx @ 1;").unwrap_err();
    assert_eq!(e.kind, LexErrorKind::UnrecognizedChar);
    assert_eq!((e.pos, e.line, e.column), (9, 2, 3));
}

#[test]
fn lex_is_deterministic() {
    let src = "int main() { int a = 40; return a + 2; }";
    assert_eq!(run_lexer(src).unwrap(), run_lexer(src).unwrap());
}

#[test]
fn lex_char_literals_with_escapes() {
    let toks = run_lexer(r"c = 'a' + '\n' + '\\' + '\'';").unwrap();
    let vals: Vec<u32> = toks
        .iter()
        .filter_map(|t| match t.kind {
            TokenKind::CharLiteral(v) => Some(v),
            _ => None,
        })
        .collect();
    assert_eq!(vals, vec![97, 10, 92, 39]);
    assert_eq!((toks[2].start, toks[2].end), (4, 7));
}

#[test]
fn lex_string_literal_span() {
    let src = r#"s = "hi \"there\"\n";"#;
    let toks = run_lexer(src).unwrap();
    assert_eq!(toks.len(), 4);
    assert_eq!(toks[2].kind, TokenKind::StringLiteral);
    assert_eq!((toks[2].start, toks[2].end), (4, src.len() - 1));
}

#[test]
fn lex_rejects_unterminated_literals() {
    assert_eq!(run_lexer("\"abc").unwrap_err().kind, LexErrorKind::UnterminatedLiteral);
    assert_eq!(run_lexer("\"ab\ncd\"").unwrap_err().kind, LexErrorKind::UnterminatedLiteral);
    assert_eq!(run_lexer("'a").unwrap_err().kind, LexErrorKind::UnterminatedLiteral);
    let e = run_lexer("x = 'ab';").unwrap_err();
    assert_eq!((e.kind, e.pos), (LexErrorKind::UnterminatedLiteral, 4));
}

#[test]
fn lex_rejects_malformed_literals() {
    assert_eq!(run_lexer("''").unwrap_err().kind, LexErrorKind::MalformedLiteral);
    assert_eq!(run_lexer(r"'\q'").unwrap_err().kind, LexErrorKind::MalformedLiteral);
    assert_eq!(run_lexer(r#""a\qb""#).unwrap_err().kind, LexErrorKind::MalformedLiteral);
}

#[test]
fn string_value_resolves_escapes() {
    let src = r#"s = "a\tb\\\"c\q";"#;
    let toks = run_lexer(src);
    assert!(toks.is_err());
    let src = r#"s = "a\tb\\\"c";"#;
    let toks = run_lexer(src).unwrap();
    assert_eq!(toks[2].kind, TokenKind::StringLiteral);
    assert_eq!(
        string_value(src, &toks[2]),
        vec![97, 9, 98, 92, 34, 99]
    );
    let empty = "\"\"";
    let toks = run_lexer(empty).unwrap();
    assert!(string_value(empty, &toks[0]).is_empty());
}
