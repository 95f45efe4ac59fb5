use rustcc::ast::{ExpressionKind, StatementKind, TranslationUnit};
use rustcc::diagnostic::{Diagnostic, DiagnosticId};
use rustcc::diagnostic_consumer::DiagnosticConsumer;
use rustcc::diagnostic_engine::DiagnosticEngine;
use rustcc::lexer::Lexer;
use rustcc::parser::Parser;
use rustcc::source_file::SourceFile;
use rustcc::source_range::SourceRange;
use rustcc::token::{Token, TokenKind};
use std::cell::RefCell;

#[derive(Default)]
struct Ids {
    seen: RefCell<Vec<DiagnosticId>>,
}

impl DiagnosticConsumer for Ids {
    fn report(&self, diagnostic: &Diagnostic) {
        self.seen.borrow_mut().push(diagnostic.id);
    }
}

fn parse_text<'a>(file: &'a SourceFile, engine: &mut DiagnosticEngine<Ids>) -> TranslationUnit<'a> {
    let mut lexer = Lexer::new(file);
    let tokens = lexer.tokenize(engine);
    let mut parser = Parser::new(tokens);
    parser.parse(engine)
}

#[test]
fn parses_return_of_a_literal() {
    let file = SourceFile::new("test.c", "int main(void){return 2;}");
    let mut engine = DiagnosticEngine::new(Ids::default());
    let unit = parse_text(&file, &mut engine);
    assert_eq!(unit.function.len(), 1);
    assert_eq!(unit.function[0].name, "main");
    match &unit.function[0].body.kind {
        StatementKind::Return(expression) => {
            assert_eq!(expression.kind, ExpressionKind::IntegerLiteral(2));
        }
    }
    assert_eq!(unit.function[0].body.range.begin.column, 16);
    assert_eq!(unit.function[0].body.range.end.column, 24);
    assert!(!engine.error_occurred());
    assert!(engine.consumer().seen.borrow().is_empty());
}

#[test]
fn missing_expression_gives_no_function() {
    let file = SourceFile::new("test.c", "int main(void){return;}");
    let mut engine = DiagnosticEngine::new(Ids::default());
    let unit = parse_text(&file, &mut engine);
    assert_eq!(unit.function.len(), 0);
    assert!(engine.error_occurred());
    assert!(engine.error_count() >= 1);
    assert_eq!(engine.consumer().seen.borrow()[0], DiagnosticId::ExpectedIntegerLiteral);
}

#[test]
fn expression_missing_at_end_of_input() {
    let file = SourceFile::new("test.c", "int main(void){return");
    let mut engine = DiagnosticEngine::new(Ids::default());
    let unit = parse_text(&file, &mut engine);
    assert_eq!(unit.function.len(), 0);
    assert_eq!(*engine.consumer().seen.borrow(), vec![DiagnosticId::ExpectedExpression]);
}

#[test]
fn parsing_goes_on_after_a_bad_function() {
    let file = SourceFile::new("test.c", "int f(void){return x;} int g(void){return 7;}");
    let mut engine = DiagnosticEngine::new(Ids::default());
    let unit = parse_text(&file, &mut engine);
    assert_eq!(unit.function.len(), 1);
    assert_eq!(unit.function[0].name, "g");
    assert!(engine.error_occurred());
}

#[test]
fn missing_pieces_are_reported_and_passed_over() {
    let file = SourceFile::new("test.c", "main(){return 0;");
    let mut engine = DiagnosticEngine::new(Ids::default());
    let unit = parse_text(&file, &mut engine);
    assert_eq!(unit.function.len(), 1);
    assert_eq!(unit.function[0].name, "main");
    assert_eq!(
        *engine.consumer().seen.borrow(),
        vec![
            DiagnosticId::ExpectedFunctionReturnType,
            DiagnosticId::ExpectedVoidInParameterList,
            DiagnosticId::ExpectedRightBrace,
        ]
    );
}

#[test]
fn keyword_as_name_gives_an_empty_name() {
    let file = SourceFile::new("test.c", "int void(void){return 1;}");
    let mut engine = DiagnosticEngine::new(Ids::default());
    let unit = parse_text(&file, &mut engine);
    assert_eq!(unit.function.len(), 1);
    assert_eq!(unit.function[0].name, "");
    assert_eq!(*engine.consumer().seen.borrow(), vec![DiagnosticId::ExpectedFunctionName]);
}

#[test]
fn missing_semicolon_and_return() {
    let file = SourceFile::new("test.c", "int a(void){return 1} int b(void){1;}");
    let mut engine = DiagnosticEngine::new(Ids::default());
    let unit = parse_text(&file, &mut engine);
    assert_eq!(unit.function.len(), 0);
    let seen = engine.consumer().seen.borrow().clone();
    assert_eq!(seen[0], DiagnosticId::ExpectedSemicolon);
    assert!(seen.contains(&DiagnosticId::ExpectedReturnKeyword));
}

#[test]
fn empty_input_gives_empty_unit() {
    let file = SourceFile::new("test.c", "");
    let mut engine = DiagnosticEngine::new(Ids::default());
    let unit = parse_text(&file, &mut engine);
    assert_eq!(unit.function.len(), 0);
    assert!(!engine.error_occurred());
}

#[test]
fn translation_unit_dump() {
    let file = SourceFile::new("test.c", "int main(void){return 2;}");
    let mut engine = DiagnosticEngine::new(Ids::default());
    let unit = parse_text(&file, &mut engine);
    assert_eq!(
        unit.dump(),
        "TranslationUnit\n  FunctionDefinition \"main\"\n    ReturnStatement 1:16-1:24\n      IntegerLiteral (2) 1:23"
    );
    assert_eq!(TranslationUnit::new().dump(), "TranslationUnit\n");
}

#[derive(Default)]
struct Places {
    seen: RefCell<Vec<(DiagnosticId, u32, u32, u32, u32)>>,
}

impl DiagnosticConsumer for Places {
    fn report(&self, diagnostic: &Diagnostic) {
        let range = diagnostic.source_range;
        self.seen.borrow_mut().push((
            diagnostic.id,
            range.begin.line,
            range.begin.column,
            range.end.line,
            range.end.column,
        ));
    }
}

#[test]
fn parser_diagnostics_stand_at_the_offending_token() {
    let file = SourceFile::new("test.c", "main(){return 0;\n");
    let mut engine = DiagnosticEngine::new(Places::default());
    let mut lexer = Lexer::new(&file);
    let tokens = lexer.tokenize(&mut engine);
    let mut parser = Parser::new(tokens);
    let unit = parser.parse(&mut engine);
    assert_eq!(unit.function.len(), 1);
    assert_eq!(
        *engine.consumer().seen.borrow(),
        vec![
            (DiagnosticId::ExpectedFunctionReturnType, 1, 1, 1, 4),
            (DiagnosticId::ExpectedVoidInParameterList, 1, 6, 1, 6),
            (DiagnosticId::ExpectedRightBrace, 0, 0, 0, 0),
        ]
    );
}

#[test]
fn missing_expression_points_after_return() {
    let file = SourceFile::new("test.c", "int f(void){\n  return");
    let mut engine = DiagnosticEngine::new(Places::default());
    let mut lexer = Lexer::new(&file);
    let tokens = lexer.tokenize(&mut engine);
    let mut parser = Parser::new(tokens);
    parser.parse(&mut engine);
    assert_eq!(
        *engine.consumer().seen.borrow(),
        vec![(DiagnosticId::ExpectedExpression, 2, 8, 2, 8)]
    );
}

#[test]
fn function_name_comes_from_the_identifier() {
    let nowhere = SourceRange::invalid();
    let kinds = vec![
        TokenKind::KeywordInt,
        TokenKind::Identifier("f".to_string()),
        TokenKind::LeftParenthesis,
        TokenKind::KeywordVoid,
        TokenKind::RightParenthesis,
        TokenKind::LeftBrace,
        TokenKind::KeywordReturn,
        TokenKind::IntegerLiteral(4),
        TokenKind::Semicolon,
        TokenKind::RightBrace,
    ];
    let tokens: Vec<Token> = kinds.into_iter().map(|k| Token::new(k, nowhere)).collect();
    let mut engine = DiagnosticEngine::new(Ids::default());
    let mut parser = Parser::new(tokens);
    let unit = parser.parse(&mut engine);
    assert_eq!(unit.function.len(), 1);
    assert_eq!(unit.function[0].name, "f");
    assert!(engine.consumer().seen.borrow().is_empty());
}
