use crate::ast::{Expression, ExpressionKind, FunctionDefinition, Statement, StatementKind, TranslationUnit};
use crate::diagnostic::{Diagnostic, DiagnosticId};
use crate::diagnostic_builder::DiagnosticBuilder;
use crate::diagnostic_consumer::DiagnosticConsumer;
use crate::diagnostic_engine::{
    after_report, after_reports, notes_view, plain_report, DiagnosticEngine, EngineState, Report,
};
use crate::source_location::SourceLocation;
use crate::source_range::SourceRange;
use crate::token::{kinds_equal, Token, TokenKind};
use vstd::prelude::*;

verus! {

/// Reporting `a` and then `b` is reporting `a + b`.
pub proof fn lemma_after_reports_concat(
    st: EngineState,
    a: Seq<Report>,
    b: Seq<Report>,
)
    ensures
        after_reports(st, a + b) == after_reports(after_reports(st, a), b),
    decreases b.len(),
{
    if b.len() == 0 {
        assert(a + b =~= a);
    } else {
        lemma_after_reports_concat(st, a, b.drop_last());
        assert((a + b).drop_last() =~= a + b.drop_last());
    }
}

/// The token at `i` is there and of kind `kind`.
pub open spec fn is_at(tokens: Seq<Token>, i: int, kind: TokenKind) -> bool {
    0 <= i < tokens.len() && kinds_equal(tokens[i].kind, kind)
}

/// The range of the token at `i`, or the invalid range past the end.
pub open spec fn cursor_range<'a>(tokens: Seq<Token<'a>>, i: int) -> SourceRange<'a> {
    if 0 <= i < tokens.len() {
        tokens[i].range
    } else {
        let nowhere = SourceLocation { source_file: None, index: 0, line: 0, column: 0 };
        SourceRange { begin: nowhere, end: nowhere }
    }
}

/// Expecting a token of `kind` at `i`: move past it, or report `id` with `message` at the
/// token that is there and stay.
pub open spec fn expect_step<'a>(
    tokens: Seq<Token<'a>>,
    i: int,
    kind: TokenKind,
    id: DiagnosticId,
    message: Seq<char>,
) -> (
    int,
    Seq<Report>,
) {
    if is_at(tokens, i, kind) {
        (i + 1, seq![])
    } else {
        (i, seq![plain_report(id, cursor_range(tokens, i), message)])
    }
}

/// The name that a function takes from its name token: the identifier's name, or empty.
pub open spec fn name_of(t: Token) -> Seq<char> {
    match t.kind {
        TokenKind::Identifier(name) => name@,
        _ => seq![],
    }
}

/// An integer literal at `i`: the expression, where the parse continues, and the problems.
/// At the end of the tokens nothing is consumed and nothing reported.
pub open spec fn parse_integer_literal_spec<'a>(tokens: Seq<Token<'a>>, i: int) -> (
    Option<Expression<'a>>,
    int,
    Seq<Report>,
) {
    if i < 0 || i >= tokens.len() {
        (None, i, seq![])
    } else {
        match tokens[i].kind {
            TokenKind::IntegerLiteral(v) => (
                Some(Expression { kind: ExpressionKind::IntegerLiteral(v), range: tokens[i].range }),
                i + 1,
                seq![],
            ),
            _ => (
                None,
                i + 1,
                seq![
                    plain_report(
                        DiagnosticId::ExpectedIntegerLiteral,
                        tokens[i].range,
                        "expected integer literal"@,
                    ),
                ],
            ),
        }
    }
}

/// `return`, an expression and `;` at `i`: the statement, where the parse continues, and
/// the problems. An expression missing at the end of the tokens is reported as such.
pub open spec fn parse_return_spec<'a>(tokens: Seq<Token<'a>>, i: int) -> (
    Option<Statement<'a>>,
    int,
    Seq<Report>,
) {
    if !is_at(tokens, i, TokenKind::KeywordReturn) {
        (
            None,
            i,
            seq![
                plain_report(
                    DiagnosticId::ExpectedReturnKeyword,
                    cursor_range(tokens, i),
                    "expected 'return' keyword"@,
                ),
            ],
        )
    } else {
        let (expression, j, problems) = parse_integer_literal_spec(tokens, i + 1);
        match expression {
            None => (
                None,
                j,
                if problems.len() == 0 {
                    seq![
                        plain_report(
                            DiagnosticId::ExpectedExpression,
                            SourceRange { begin: tokens[i].range.end, end: tokens[i].range.end },
                            "expected expression instead reached end of file"@,
                        ),
                    ]
                } else {
                    problems
                },
            ),
            Some(e) => if is_at(tokens, j, TokenKind::Semicolon) {
                (
                    Some(
                        Statement {
                            kind: StatementKind::Return(e),
                            range: SourceRange {
                                begin: tokens[i].range.begin,
                                end: tokens[j].range.end,
                            },
                        },
                    ),
                    j + 1,
                    seq![],
                )
            } else {
                (
                    None,
                    j,
                    seq![
                        plain_report(
                            DiagnosticId::ExpectedSemicolon,
                            cursor_range(tokens, j),
                            "expected ';'"@,
                        ),
                    ],
                )
            },
        }
    }
}

/// A function definition at `i`: its name and body, where the parse continues, and the
/// problems. Missing `int`, `(`, `void`, `)`, `{` or `}` are reported and passed over; a
/// body that does not parse fails the definition.
pub open spec fn parse_function_spec<'a>(tokens: Seq<Token<'a>>, i: int) -> (
    Option<(Seq<char>, Statement<'a>)>,
    int,
    Seq<Report>,
) {
    let (i1, d1) = expect_step(tokens, i, TokenKind::KeywordInt, DiagnosticId::ExpectedFunctionReturnType, "expected 'int' keyword"@);
    if i1 >= tokens.len() {
        (
            None,
            i1,
            d1.push(
                plain_report(
                    DiagnosticId::ExpectedFunctionName,
                    cursor_range(tokens, i1),
                    "expected function name but reached end of file"@,
                ),
            ),
        )
    } else {
        let name = name_of(tokens[i1]);
        let d2 = if name.len() == 0 {
            d1.push(
                plain_report(
                    DiagnosticId::ExpectedFunctionName,
                    cursor_range(tokens, i1 + 1),
                    "expected function name"@,
                ),
            )
        } else {
            d1
        };
        let (i3, d3) = expect_step(tokens, i1 + 1, TokenKind::LeftParenthesis, DiagnosticId::ExpectedLeftParenthesis, "expected '('"@);
        let (i4, d4) = expect_step(tokens, i3, TokenKind::KeywordVoid, DiagnosticId::ExpectedVoidInParameterList, "expected 'void' keyword for parameter list"@);
        let (i5, d5) = expect_step(tokens, i4, TokenKind::RightParenthesis, DiagnosticId::ExpectedRightParenthesis, "expected ')'"@);
        let (i6, d6) = expect_step(tokens, i5, TokenKind::LeftBrace, DiagnosticId::ExpectedLeftBrace, "expected '{'"@);
        let head = d2 + d3 + d4 + d5 + d6;
        let (body, i7, d7) = parse_return_spec(tokens, i6);
        match body {
            None => (None, i7, head + d7),
            Some(statement) => {
                let (i8, d8) = expect_step(tokens, i7, TokenKind::RightBrace, DiagnosticId::ExpectedRightBrace, "expected '}'"@);
                (Some((name, statement)), i8, head + d7 + d8)
            },
        }
    }
}

/// An attempt at a function definition always moves past at least one token.
pub proof fn lemma_parse_function_advances<'a>(tokens: Seq<Token<'a>>, i: int)
    requires
        0 <= i < tokens.len(),
    ensures
        i < parse_function_spec(tokens, i).1 <= tokens.len(),
{
}

/// Parsing from `i` to the end: the functions that parse, and all problems, in order.
pub open spec fn parse_spec<'a>(tokens: Seq<Token<'a>>, i: int) -> (
    Seq<(Seq<char>, Statement<'a>)>,
    Seq<Report>,
)
    decreases tokens.len() - i,
{
    if i < 0 || i >= tokens.len() {
        (seq![], seq![])
    } else {
        let (f, j, d) = parse_function_spec(tokens, i);
        proof {
            lemma_parse_function_advances(tokens, i);
        }
        let (fs, ds) = parse_spec(tokens, j);
        (
            match f {
                Some(x) => seq![x] + fs,
                None => fs,
            },
            d + ds,
        )
    }
}

/// `unit` holds the functions `parsed`, in order.
pub open spec fn holds_functions(unit: TranslationUnit, parsed: Seq<(Seq<char>, Statement)>) -> bool {
    &&& unit.function@.len() == parsed.len()
    &&& forall|k: int|
        0 <= k < parsed.len() ==> (#[trigger] unit.function@[k]).name@ == parsed[k].0
            && unit.function@[k].body == parsed[k].1
}

/// Builds the syntax tree from tokens, reporting what is malformed and going on past it.
pub struct Parser<'a> {
    tokens: Vec<Token<'a>>,
    index: usize,
}

impl<'a> Parser<'a> {
    /// The tokens being parsed.
    pub closed spec fn tokens_spec(&self) -> Seq<Token<'a>> {
        self.tokens@
    }

    /// The place of the next token.
    pub closed spec fn position(&self) -> int {
        self.index as int
    }

    spec fn inv(&self) -> bool {
        self.index <= self.tokens@.len()
    }

    /// The position is within the tokens.
    pub closed spec fn wf(&self) -> bool {
        self.inv()
    }

    /// A parser at the first of `tokens`.
    pub fn new(tokens: Vec<Token<'a>>) -> (r: Parser<'a>)
        ensures
            r.tokens_spec() == tokens@,
            r.position() == 0,
            r.wf(),
    {
        Parser { tokens, index: 0 }
    }

    fn diagnostic<C: DiagnosticConsumer>(
        &self,
        engine: &mut DiagnosticEngine<C>,
        id: DiagnosticId,
        source_range: SourceRange<'a>,
        message: String,
    )
        ensures
            final(engine)@ == after_reports(
                old(engine)@,
                seq![plain_report(id, source_range, message@)],
            ),
            final(engine).consumer_spec() == old(engine).consumer_spec(),
    {
        let ghost st = engine@;
        let ghost one = seq![plain_report(id, source_range, message@)];
        let diagnostic = Diagnostic::new(id, source_range, message);
        assert(notes_view(diagnostic.notes@) =~= Seq::empty());
        DiagnosticBuilder::new(diagnostic).emit(engine);
        proof {
            assert(one.drop_last() =~= Seq::<Report>::empty());
            assert(one.last() == plain_report(id, source_range, diagnostic.message@));
            assert(after_reports(st, Seq::<Report>::empty()) == st);
        }
    }

    fn is_finished(&self) -> (r: bool)
        ensures
            r == (self.index >= self.tokens@.len()),
    {
        self.index >= self.tokens.len()
    }

    /// The range of the next token, or the invalid range at the end.
    fn current_token_source_range(&self) -> (r: SourceRange<'a>)
        ensures
            self.index < self.tokens@.len() ==> r == self.tokens@[self.index as int].range,
            r == cursor_range(self.tokens@, self.index as int),
    {
        match self.peek_next() {
            Some(token) => token.range,
            None => SourceRange::invalid(),
        }
    }

    fn peek_next(&self) -> (r: Option<&Token<'a>>)
        ensures
            self.index < self.tokens@.len() ==> r == Some(&self.tokens@[self.index as int]),
            self.index >= self.tokens@.len() ==> r is None,
    {
        if self.index < self.tokens.len() {
            Some(&self.tokens[self.index])
        } else {
            None
        }
    }

    /// Moves past the next token, if there is one.
    fn consume(&mut self)
        ensures
            final(self).tokens == old(self).tokens,
            final(self).index == (if old(self).index < old(self).tokens@.len() {
                old(self).index + 1
            } else {
                old(self).index as int
            }),
    {
        if self.index < self.tokens.len() {
            self.index = self.index + 1;
        }
    }

    /// Moves past the next token and gives its place, if there is one.
    fn consume_next(&mut self) -> (r: Option<usize>)
        ensures
            final(self).tokens == old(self).tokens,
            old(self).index < old(self).tokens@.len() ==> r == Some(old(self).index)
                && final(self).index == old(self).index + 1,
            old(self).index >= old(self).tokens@.len() ==> r is None && final(self).index
                == old(self).index,
    {
        let at = self.index;
        if at < self.tokens.len() {
            self.consume();
            Some(at)
        } else {
            None
        }
    }

    /// Moves past the next token if it is of `token_kind`, and gives its place.
    fn expect(&mut self, token_kind: TokenKind) -> (r: Option<usize>)
        ensures
            final(self).tokens == old(self).tokens,
            is_at(old(self).tokens@, old(self).index as int, token_kind) ==> r == Some(
                old(self).index,
            ) && final(self).index == old(self).index + 1,
            !is_at(old(self).tokens@, old(self).index as int, token_kind) ==> r is None
                && final(self).index == old(self).index,
    {
        if self.index < self.tokens.len() {
            if self.tokens[self.index].kind == token_kind {
                let at = self.index;
                self.consume();
                return Some(at);
            }
        }
        None
    }

    /// Expects a token of `kind`, reporting `id` with `message` when it is not there.
    fn expect_or_report<C: DiagnosticConsumer>(
        &mut self,
        engine: &mut DiagnosticEngine<C>,
        kind: TokenKind,
        id: DiagnosticId,
        message: &str,
    )
        ensures
            final(self).tokens == old(self).tokens,
            final(self).index == expect_step(old(self).tokens@, old(self).index as int, kind, id, message@).0,
            final(engine)@ == after_reports(
                old(engine)@,
                expect_step(old(self).tokens@, old(self).index as int, kind, id, message@).1,
            ),
            final(engine).consumer_spec() == old(engine).consumer_spec(),
    {
        if self.expect(kind).is_none() {
            let range = self.current_token_source_range();
            self.diagnostic(engine, id, range, message.to_owned());
        } else {
            proof {
                assert(Seq::<Report>::empty().len() == 0);
            }
        }
    }

    fn parse_integer_literal<C: DiagnosticConsumer>(&mut self, engine: &mut DiagnosticEngine<C>) -> (r:
        Option<Expression<'a>>)
        requires
            old(self).inv(),
        ensures
            final(self).inv(),
            final(self).tokens == old(self).tokens,
            r == parse_integer_literal_spec(old(self).tokens@, old(self).index as int).0,
            final(self).index == parse_integer_literal_spec(old(self).tokens@, old(self).index as int).1,
            final(engine)@ == after_reports(
                old(engine)@,
                parse_integer_literal_spec(old(self).tokens@, old(self).index as int).2,
            ),
            final(engine).consumer_spec() == old(engine).consumer_spec(),
    {
        let at = match self.consume_next() {
            Some(at) => at,
            None => return None,
        };
        let range = self.tokens[at].range;
        match &self.tokens[at].kind {
            TokenKind::IntegerLiteral(value) => Some(
                Expression { kind: ExpressionKind::IntegerLiteral(*value), range },
            ),
            _ => {
                self.diagnostic(
                    engine,
                    DiagnosticId::ExpectedIntegerLiteral,
                    range,
                    "expected integer literal".to_owned(),
                );
                None
            },
        }
    }

    fn parse_expression<C: DiagnosticConsumer>(&mut self, engine: &mut DiagnosticEngine<C>) -> (r:
        Option<Expression<'a>>)
        requires
            old(self).inv(),
        ensures
            final(self).inv(),
            final(self).tokens == old(self).tokens,
            r == parse_integer_literal_spec(old(self).tokens@, old(self).index as int).0,
            final(self).index == parse_integer_literal_spec(old(self).tokens@, old(self).index as int).1,
            final(engine)@ == after_reports(
                old(engine)@,
                parse_integer_literal_spec(old(self).tokens@, old(self).index as int).2,
            ),
            final(engine).consumer_spec() == old(engine).consumer_spec(),
    {
        self.parse_integer_literal(engine)
    }

    fn parse_return_statement<C: DiagnosticConsumer>(&mut self, engine: &mut DiagnosticEngine<C>) -> (r:
        Option<Statement<'a>>)
        requires
            old(self).inv(),
        ensures
            final(self).inv(),
            final(self).tokens == old(self).tokens,
            r == parse_return_spec(old(self).tokens@, old(self).index as int).0,
            final(self).index == parse_return_spec(old(self).tokens@, old(self).index as int).1,
            final(engine)@ == after_reports(
                old(engine)@,
                parse_return_spec(old(self).tokens@, old(self).index as int).2,
            ),
            final(engine).consumer_spec() == old(engine).consumer_spec(),
    {
        let return_at = match self.expect(TokenKind::KeywordReturn) {
            Some(at) => at,
            None => {
                let range = self.current_token_source_range();
                self.diagnostic(
                    engine,
                    DiagnosticId::ExpectedReturnKeyword,
                    range,
                    "expected 'return' keyword".to_owned(),
                );
                return None;
            },
        };
        let at_end = self.is_finished();
        let expression = match self.parse_expression(engine) {
            Some(expression) => expression,
            None => {
                if at_end {
                    let range = SourceRange::from_location(self.tokens[return_at].range.end);
                    self.diagnostic(
                        engine,
                        DiagnosticId::ExpectedExpression,
                        range,
                        "expected expression instead reached end of file".to_owned(),
                    );
                }
                return None;
            },
        };
        let semicolon_at = match self.expect(TokenKind::Semicolon) {
            Some(at) => at,
            None => {
                let range = self.current_token_source_range();
                self.diagnostic(
                    engine,
                    DiagnosticId::ExpectedSemicolon,
                    range,
                    "expected ';'".to_owned(),
                );
                return None;
            },
        };
        let range = SourceRange {
            begin: self.tokens[return_at].range.begin,
            end: self.tokens[semicolon_at].range.end,
        };
        Some(Statement::new_return(expression, range))
    }

    fn parse_statement<C: DiagnosticConsumer>(&mut self, engine: &mut DiagnosticEngine<C>) -> (r:
        Option<Statement<'a>>)
        requires
            old(self).inv(),
        ensures
            final(self).inv(),
            final(self).tokens == old(self).tokens,
            r == parse_return_spec(old(self).tokens@, old(self).index as int).0,
            final(self).index == parse_return_spec(old(self).tokens@, old(self).index as int).1,
            final(engine)@ == after_reports(
                old(engine)@,
                parse_return_spec(old(self).tokens@, old(self).index as int).2,
            ),
            final(engine).consumer_spec() == old(engine).consumer_spec(),
    {
        self.parse_return_statement(engine)
    }

    fn parse_function_definition<C: DiagnosticConsumer>(
        &mut self,
        engine: &mut DiagnosticEngine<C>,
    ) -> (r: Option<FunctionDefinition<'a>>)
        requires
            old(self).inv(),
        ensures
            final(self).inv(),
            final(self).tokens == old(self).tokens,
            final(self).index == parse_function_spec(old(self).tokens@, old(self).index as int).1,
            final(engine)@ == after_reports(
                old(engine)@,
                parse_function_spec(old(self).tokens@, old(self).index as int).2,
            ),
            final(engine).consumer_spec() == old(engine).consumer_spec(),
            r is Some <==> parse_function_spec(old(self).tokens@, old(self).index as int).0 is Some,
            r is Some ==> ({
                let (name, body) = parse_function_spec(old(self).tokens@, old(self).index as int).0->0;
                r->0.name@ == name && r->0.body == body
            }),
    {
        let ghost toks = self.tokens@;
        let ghost st0 = engine@;
        let ghost i = self.index as int;
        self.expect_or_report(
            engine,
            TokenKind::KeywordInt,
            DiagnosticId::ExpectedFunctionReturnType,
            "expected 'int' keyword",
        );
        let ghost d1 = expect_step(toks, i, TokenKind::KeywordInt, DiagnosticId::ExpectedFunctionReturnType, "expected 'int' keyword"@).1;
        let name_at = match self.consume_next() {
            Some(at) => at,
            None => {
                let range = self.current_token_source_range();
                self.diagnostic(
                    engine,
                    DiagnosticId::ExpectedFunctionName,
                    range,
                    "expected function name but reached end of file".to_owned(),
                );
                proof {
                    let extra = seq![
                        plain_report(
                            DiagnosticId::ExpectedFunctionName,
                            cursor_range(toks, self.index as int),
                            "expected function name but reached end of file"@,
                        ),
                    ];
                    lemma_after_reports_concat(st0, d1, extra);
                    assert(d1.push(extra[0]) =~= d1 + extra);
                }
                return None;
            },
        };
        let name: String = match &self.tokens[name_at].kind {
            TokenKind::Identifier(identifier) => identifier.clone(),
            _ => String::new(),
        };
        assert(name@ == name_of(toks[name_at as int]));
        let ghost named_at = self.index as int;
        let ghost d2 = if name@.len() == 0 {
            d1.push(
                plain_report(
                    DiagnosticId::ExpectedFunctionName,
                    cursor_range(toks, named_at),
                    "expected function name"@,
                ),
            )
        } else {
            d1
        };
        if name.as_str().is_empty() {
            let range = self.current_token_source_range();
            self.diagnostic(
                engine,
                DiagnosticId::ExpectedFunctionName,
                range,
                "expected function name".to_owned(),
            );
            proof {
                let extra = seq![
                    plain_report(
                        DiagnosticId::ExpectedFunctionName,
                        cursor_range(toks, named_at),
                        "expected function name"@,
                    ),
                ];
                lemma_after_reports_concat(st0, d1, extra);
                assert(d1.push(extra[0]) =~= d1 + extra);
            }
        }
        assert(engine@ == after_reports(st0, d2));
        let ghost i3 = self.index as int;
        self.expect_or_report(
            engine,
            TokenKind::LeftParenthesis,
            DiagnosticId::ExpectedLeftParenthesis,
            "expected '('",
        );
        let ghost d3 = expect_step(toks, i3, TokenKind::LeftParenthesis, DiagnosticId::ExpectedLeftParenthesis, "expected '('"@).1;
        proof {
            lemma_after_reports_concat(st0, d2, d3);
        }
        let ghost i4 = self.index as int;
        self.expect_or_report(
            engine,
            TokenKind::KeywordVoid,
            DiagnosticId::ExpectedVoidInParameterList,
            "expected 'void' keyword for parameter list",
        );
        let ghost d4 = expect_step(toks, i4, TokenKind::KeywordVoid, DiagnosticId::ExpectedVoidInParameterList, "expected 'void' keyword for parameter list"@).1;
        proof {
            lemma_after_reports_concat(st0, d2 + d3, d4);
        }
        let ghost i5 = self.index as int;
        self.expect_or_report(
            engine,
            TokenKind::RightParenthesis,
            DiagnosticId::ExpectedRightParenthesis,
            "expected ')'",
        );
        let ghost d5 = expect_step(toks, i5, TokenKind::RightParenthesis, DiagnosticId::ExpectedRightParenthesis, "expected ')'"@).1;
        proof {
            lemma_after_reports_concat(st0, d2 + d3 + d4, d5);
        }
        let ghost i6 = self.index as int;
        self.expect_or_report(
            engine,
            TokenKind::LeftBrace,
            DiagnosticId::ExpectedLeftBrace,
            "expected '{'",
        );
        let ghost d6 = expect_step(toks, i6, TokenKind::LeftBrace, DiagnosticId::ExpectedLeftBrace, "expected '{'"@).1;
        proof {
            lemma_after_reports_concat(st0, d2 + d3 + d4 + d5, d6);
        }
        let ghost head = d2 + d3 + d4 + d5 + d6;
        let ghost i7 = self.index as int;
        let body = match self.parse_statement(engine) {
            Some(body) => body,
            None => {
                proof {
                    lemma_after_reports_concat(st0, head, parse_return_spec(toks, i7).2);
                }
                return None;
            },
        };
        proof {
            lemma_after_reports_concat(st0, head, parse_return_spec(toks, i7).2);
        }
        let ghost d7 = parse_return_spec(toks, i7).2;
        let ghost i8 = self.index as int;
        self.expect_or_report(
            engine,
            TokenKind::RightBrace,
            DiagnosticId::ExpectedRightBrace,
            "expected '}'",
        );
        proof {
            lemma_after_reports_concat(
                st0,
                head + d7,
                expect_step(toks, i8, TokenKind::RightBrace, DiagnosticId::ExpectedRightBrace, "expected '}'"@).1,
            );
        }
        Some(FunctionDefinition::new(name, body))
    }

    /// Parses function definitions up to the end of the tokens, keeping those that parse and
    /// reporting problems to `engine`.
    pub fn parse<C: DiagnosticConsumer>(&mut self, engine: &mut DiagnosticEngine<C>) -> (r:
        TranslationUnit<'a>)
        requires
            old(self).wf(),
        ensures
            final(self).wf(),
            final(self).tokens_spec() == old(self).tokens_spec(),
            final(self).position() == old(self).tokens_spec().len(),
            holds_functions(r, parse_spec(old(self).tokens_spec(), old(self).position()).0),
            final(engine)@ == after_reports(
                old(engine)@,
                parse_spec(old(self).tokens_spec(), old(self).position()).1,
            ),
            final(engine).consumer_spec() == old(engine).consumer_spec(),
    {
        let ghost toks = self.tokens@;
        let ghost i0 = self.index as int;
        let ghost st0 = engine@;
        let ghost all = parse_spec(toks, i0);
        let ghost mut done_functions: Seq<(Seq<char>, Statement<'a>)> = seq![];
        let ghost mut done_problems: Seq<Report> = seq![];
        let mut translation_unit = TranslationUnit::new();
        proof {
            assert(done_functions + parse_spec(toks, i0).0 =~= all.0);
            assert(done_problems + parse_spec(toks, i0).1 =~= all.1);
        }
        while !self.is_finished()
            invariant
                self.inv(),
                self.tokens@ == toks,
                holds_functions(translation_unit, done_functions),
                done_functions + parse_spec(toks, self.index as int).0 == all.0,
                done_problems + parse_spec(toks, self.index as int).1 == all.1,
                engine@ == after_reports(st0, done_problems),
                engine.consumer_spec() == old(engine).consumer_spec(),
            decreases toks.len() - self.index,
        {
            let ghost i = self.index as int;
            let ghost step = parse_function_spec(toks, i);
            proof {
                lemma_parse_function_advances(toks, i);
                lemma_after_reports_concat(st0, done_problems, step.2);
            }
            match self.parse_function_definition(engine) {
                Some(function_definition) => {
                    translation_unit.function.push(function_definition);
                },
                None => {},
            }
            proof {
                let rest = parse_spec(toks, self.index as int);
                match step.0 {
                    Some(x) => {
                        assert(done_functions.push(x) + rest.0 =~= done_functions + (seq![x] + rest.0));
                        done_functions = done_functions.push(x);
                    },
                    None => {},
                }
                assert((done_problems + step.2) + rest.1 =~= done_problems + (step.2 + rest.1));
                done_problems = done_problems + step.2;
            }
        }
        proof {
            assert(done_functions + parse_spec(toks, self.index as int).0 =~= done_functions);
            assert(done_problems + parse_spec(toks, self.index as int).1 =~= done_problems);
        }
        translation_unit
    }
}

} // verus!
