use rustcc::diagnostic::{Diagnostic, DiagnosticId, DiagnosticLevel};
use rustcc::diagnostic_consumer::DiagnosticConsumer;
use rustcc::diagnostic_engine::DiagnosticEngine;
use rustcc::lexer::Lexer;
use rustcc::source_file::SourceFile;
use rustcc::token::{Token, TokenKind};
use std::cell::RefCell;

#[derive(Default)]
struct Recorder {
    seen: RefCell<Vec<(DiagnosticId, DiagnosticLevel, String, u32, u32)>>,
}

impl DiagnosticConsumer for Recorder {
    fn report(&self, diagnostic: &Diagnostic) {
        self.seen.borrow_mut().push((
            diagnostic.id,
            diagnostic.level,
            diagnostic.message.clone(),
            diagnostic.source_range.begin.column,
            diagnostic.source_range.end.column,
        ));
    }
}

fn kinds(tokens: &[Token]) -> Vec<TokenKind> {
    tokens.iter().map(|t| t.kind.clone()).collect()
}

fn lex(text: &str) -> (Vec<TokenKind>, Vec<(DiagnosticId, DiagnosticLevel, String, u32, u32)>) {
    let file = SourceFile::new("test.c", text);
    let mut engine = DiagnosticEngine::new(Recorder::default());
    let mut lexer = Lexer::new(&file);
    let tokens = lexer.tokenize(&mut engine);
    let seen = engine.consumer().seen.borrow().clone();
    (kinds(&tokens), seen)
}

#[test]
fn keywords_are_classified() {
    assert_eq!(lex("int").0, vec![TokenKind::KeywordInt]);
    assert_eq!(lex("return").0, vec![TokenKind::KeywordReturn]);
    assert_eq!(lex("void").0, vec![TokenKind::KeywordVoid]);
    assert_eq!(lex("intx").0, vec![TokenKind::Identifier("intx".to_string())]);
    assert_eq!(lex("_int9").0, vec![TokenKind::Identifier("_int9".to_string())]);
}

#[test]
fn largest_integer_literal_is_a_token() {
    let (tokens, seen) = lex("4294967295");
    assert_eq!(tokens, vec![TokenKind::IntegerLiteral(4294967295)]);
    assert!(seen.is_empty());
}

#[test]
fn integer_literal_too_large_is_one_error() {
    let file = SourceFile::new("test.c", "4294967296");
    let mut engine = DiagnosticEngine::new(Recorder::default());
    let mut lexer = Lexer::new(&file);
    let tokens = lexer.tokenize(&mut engine);
    assert!(tokens.is_empty());
    let seen = engine.consumer().seen.borrow().clone();
    assert_eq!(seen.len(), 1);
    assert_eq!(seen[0].0, DiagnosticId::IntegerLiteralTooLarge);
    assert_eq!(seen[0].1, DiagnosticLevel::Error);
    assert_eq!(seen[0].2, "integer literal is too large");
    assert_eq!((seen[0].3, seen[0].4), (1, 10));
    assert_eq!(engine.error_count(), 1);
    assert!(engine.error_occurred());
}

#[test]
fn overflowing_literal_between_tokens() {
    let (tokens, seen) = lex("1 99999999999 2");
    assert_eq!(tokens, vec![TokenKind::IntegerLiteral(1), TokenKind::IntegerLiteral(2)]);
    assert_eq!(seen.len(), 1);
    assert_eq!((seen[0].3, seen[0].4), (3, 13));
}

#[test]
fn leading_zeros_keep_the_value() {
    assert_eq!(lex("0004294967295").0, vec![TokenKind::IntegerLiteral(4294967295)]);
    assert_eq!(lex("007").0, vec![TokenKind::IntegerLiteral(7)]);
}

#[test]
fn whole_function_is_lexed() {
    let (tokens, seen) = lex("int main(void){return 2;}");
    assert_eq!(
        tokens,
        vec![
            TokenKind::KeywordInt,
            TokenKind::Identifier("main".to_string()),
            TokenKind::LeftParenthesis,
            TokenKind::KeywordVoid,
            TokenKind::RightParenthesis,
            TokenKind::LeftBrace,
            TokenKind::KeywordReturn,
            TokenKind::IntegerLiteral(2),
            TokenKind::Semicolon,
            TokenKind::RightBrace,
        ]
    );
    assert!(seen.is_empty());
}

#[test]
fn comments_and_lines() {
    let file = SourceFile::new("test.c", "// c\nint /* x\n y */ main\n  ;");
    let mut engine = DiagnosticEngine::new(Recorder::default());
    let mut lexer = Lexer::new(&file);
    let tokens = lexer.tokenize(&mut engine);
    assert_eq!(
        kinds(&tokens),
        vec![TokenKind::KeywordInt, TokenKind::Identifier("main".to_string()), TokenKind::Semicolon]
    );
    assert_eq!((tokens[0].range.begin.line, tokens[0].range.begin.column), (2, 1));
    assert_eq!((tokens[1].range.begin.line, tokens[1].range.begin.column), (3, 7));
    assert_eq!((tokens[1].range.end.line, tokens[1].range.end.column), (3, 10));
    assert_eq!((tokens[2].range.begin.line, tokens[2].range.begin.column), (4, 3));
    assert_eq!(tokens[1].range.begin.index, 20);
}

#[test]
fn star_slash_closes_a_block_comment() {
    assert_eq!(lex("/**/x").0, vec![TokenKind::Identifier("x".to_string())]);
    assert_eq!(lex("/* **/x").0, vec![TokenKind::Identifier("x".to_string())]);
    assert_eq!(lex("/*/ x").0, vec![]);
}

#[test]
fn unterminated_comments_are_silent() {
    let (tokens, seen) = lex("int /* abc");
    assert_eq!(tokens, vec![TokenKind::KeywordInt]);
    assert!(seen.is_empty());
    let (tokens, seen) = lex("int // abc");
    assert_eq!(tokens, vec![TokenKind::KeywordInt]);
    assert!(seen.is_empty());
}

#[test]
fn slash_is_a_token() {
    assert_eq!(lex("a / b").0, vec![
        TokenKind::Identifier("a".to_string()),
        TokenKind::Slash,
        TokenKind::Identifier("b".to_string()),
    ]);
    assert_eq!(lex("a /").0, vec![TokenKind::Identifier("a".to_string()), TokenKind::Slash]);
    assert_eq!(lex("/").0, vec![TokenKind::Slash]);
}

#[test]
fn unexpected_character_is_reported() {
    let (tokens, seen) = lex("a$b");
    assert_eq!(tokens, vec![
        TokenKind::Identifier("a".to_string()),
        TokenKind::Identifier("b".to_string()),
    ]);
    assert_eq!(seen.len(), 1);
    assert_eq!(seen[0].0, DiagnosticId::UnexpectedCharacter);
    assert_eq!(seen[0].2, "unexpected character '$' found");
    assert_eq!(seen[0].3, 2);
}

#[test]
fn non_ascii_letter_is_unexpected() {
    let (tokens, seen) = lex("aこ");
    assert_eq!(tokens, vec![TokenKind::Identifier("a".to_string())]);
    assert_eq!(seen.len(), 1);
    assert_eq!(seen[0].2, "unexpected character 'こ' found");
}

#[test]
fn null_character_is_a_warning() {
    let (tokens, seen) = lex("a\0b");
    assert_eq!(tokens.len(), 2);
    assert_eq!(seen.len(), 1);
    assert_eq!(seen[0].0, DiagnosticId::NullCharacter);
    assert_eq!(seen[0].1, DiagnosticLevel::Warning);
    assert_eq!(seen[0].2, "null character ignored");
}

#[test]
fn empty_and_blank_inputs() {
    assert_eq!(lex(""), (vec![], vec![]));
    assert_eq!(lex("  \n\t \r\n\u{a0}\u{3000}"), (vec![], vec![]));
}

#[test]
fn tokens_cover_the_text_once() {
    let file = SourceFile::new("test.c", "ab 12;c /* d */ (");
    let mut engine = DiagnosticEngine::new(Recorder::default());
    let mut lexer = Lexer::new(&file);
    let tokens = lexer.tokenize(&mut engine);
    let spans: Vec<(usize, usize)> =
        tokens.iter().map(|t| (t.range.begin.index, t.range.end.index)).collect();
    assert_eq!(spans, vec![(0, 1), (3, 4), (5, 5), (6, 6), (16, 16)]);
    let texts: Vec<&str> = tokens.iter().map(|t| t.source_text().unwrap()).collect();
    assert_eq!(texts, vec!["ab", "12", ";", "c", "("]);
}

#[test]
fn token_text_and_dump() {
    let file = SourceFile::new("test.c", "int main(void){return 2;}");
    let mut engine = DiagnosticEngine::new(Recorder::default());
    let mut lexer = Lexer::new(&file);
    let tokens = lexer.tokenize(&mut engine);
    assert_eq!(tokens[1].source_text(), Some("main"));
    assert!(tokens[1].is_identifier());
    assert!(tokens[0].is_keyword());
    assert_eq!(tokens[1].dump(), "Identifier(\"main\") 1:5-1:8 - 'main'");
    assert_eq!(tokens[7].dump(), "IntegerLiteral(2) 1:23 - '2'");
    assert_eq!(tokens[2].dump(), "LeftParenthesis 1:9 - '('");
}

#[test]
fn a_lexer_hands_out_its_tokens_once() {
    let file = SourceFile::new("test.c", "int x");
    let mut engine = DiagnosticEngine::new(Recorder::default());
    let mut lexer = Lexer::new(&file);
    assert!(!lexer.is_finished());
    assert_eq!(lexer.tokenize(&mut engine).len(), 2);
    assert!(lexer.is_finished());
    assert_eq!(lexer.tokenize(&mut engine).len(), 0);
}

#[test]
fn lexer_is_finished_when_empty_or_after_tokenize() {
    let empty = SourceFile::new("test.c", "");
    assert!(Lexer::new(&empty).is_finished());
    let file = SourceFile::new("test.c", "a /* open");
    let mut engine = DiagnosticEngine::new(Recorder::default());
    let mut lexer = Lexer::new(&file);
    assert!(!lexer.is_finished());
    lexer.tokenize(&mut engine);
    assert!(lexer.is_finished());
}

#[test]
fn overflow_diagnostic_range_bytes() {
    let file = SourceFile::new("test.c", "x 99999999999");
    let mut engine = DiagnosticEngine::new(Recorder::default());
    let mut lexer = Lexer::new(&file);
    let tokens = lexer.tokenize(&mut engine);
    assert_eq!(tokens.len(), 1);
    assert_eq!(engine.consumer().seen.borrow()[0].2, "integer literal is too large");
}
