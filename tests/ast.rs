use rustcc::ast::{
    BinaryOperator, Expression, ExpressionKind, FunctionDefinition, Statement, StatementKind,
    UnaryOperator,
};
use rustcc::source_file::SourceFile;
use rustcc::source_location::SourceLocation;
use rustcc::source_range::SourceRange;

fn literal(value: u32, line: u32, column: u32) -> Expression<'static> {
    Expression {
        kind: ExpressionKind::IntegerLiteral(value),
        range: SourceRange::from_location(SourceLocation::new_scratch(line, column)),
    }
}

#[test]
fn expression_dump_nests_children() {
    let sum = Expression {
        kind: ExpressionKind::BinaryOperation {
            operator: BinaryOperator::Add,
            left: Box::new(literal(1, 1, 1)),
            right: Box::new(Expression {
                kind: ExpressionKind::UnaryOperation {
                    operator: UnaryOperator::Negate,
                    expression: Box::new(literal(2, 1, 6)),
                },
                range: SourceRange::new(
                    SourceLocation::new_scratch(1, 5),
                    SourceLocation::new_scratch(1, 6),
                ),
            }),
        },
        range: SourceRange::new(SourceLocation::new_scratch(1, 1), SourceLocation::new_scratch(1, 6)),
    };
    assert_eq!(
        sum.dump(0),
        "BinaryOperation Add\n  IntegerLiteral (1) 1:1\n  UnaryOperation Negate 1:5-1:6\n    IntegerLiteral (2) 1:6"
    );
    let grouped = Expression {
        kind: ExpressionKind::Parenthesis(Box::new(literal(3, 2, 2))),
        range: SourceRange::new(SourceLocation::new_scratch(2, 1), SourceLocation::new_scratch(2, 3)),
    };
    assert_eq!(grouped.dump(1), "  Parenthesis 2:1-2:3\n    IntegerLiteral (3) 2:2");
}

#[test]
fn function_and_statement_dump() {
    let body = Statement::new_return(literal(0, 1, 8), SourceRange::invalid());
    assert_eq!(body.kind, StatementKind::Return(literal(0, 1, 8)));
    assert_eq!(body.dump(0), "ReturnStatement 0:0\n  IntegerLiteral (0) 1:8");
    let function = FunctionDefinition::new("f".to_string(), body);
    assert_eq!(
        function.dump(1),
        "  FunctionDefinition \"f\"\n    ReturnStatement 0:0\n      IntegerLiteral (0) 1:8"
    );
}

#[test]
fn dump_of_a_range_across_files_shows_both_ends() {
    let first = SourceFile::new("a.c", "xy");
    let second = SourceFile::new("b.c", "xy");
    let range = SourceRange {
        begin: SourceLocation::new(&first, 0, 1, 1),
        end: SourceLocation::new(&second, 0, 1, 1),
    };
    let statement = Statement::new_return(literal(1, 1, 1), range);
    assert_eq!(statement.dump(0), "ReturnStatement 1:1-1:1\n  IntegerLiteral (1) 1:1");
    let same = SourceRange::from_location(SourceLocation::new(&first, 0, 1, 1));
    let statement = Statement::new_return(literal(1, 1, 1), same);
    assert_eq!(statement.dump(0), "ReturnStatement 1:1\n  IntegerLiteral (1) 1:1");
}
