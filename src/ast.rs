use crate::source_location::SourceLocation;
use crate::source_range::SourceRange;
use crate::text::{decimal, decimal_text, indent, indentation, line_column, line_column_text, next_depth};
use vstd::prelude::*;
use vstd::string::StringExecFns;

verus! {

/// The functions of one source file, in order.
#[derive(Debug, Hash, Default)]
pub struct TranslationUnit<'a> {
    pub function: Vec<FunctionDefinition<'a>>,
}

impl<'a> TranslationUnit<'a> {
    /// A unit without functions.
    pub fn new() -> (r: Self)
        ensures
            r.function@.len() == 0,
    {
        TranslationUnit { function: Vec::new() }
    }
}

/// A function: its name and its body.
#[derive(Debug, Hash)]
pub struct FunctionDefinition<'a> {
    pub name: String,
    pub body: Statement<'a>,
}

impl<'a> FunctionDefinition<'a> {
    /// A function with the given name and body.
    pub fn new(name: String, body: Statement<'a>) -> (r: Self)
        ensures
            r.name == name,
            r.body == body,
    {
        FunctionDefinition { name, body }
    }
}

#[derive(Debug, PartialEq, Eq, Hash)]
/// What a statement does.
pub enum StatementKind<'a> {
    Return(Expression<'a>),
}

#[derive(Debug, PartialEq, Eq, Hash)]
/// A statement and the range it spans.
pub struct Statement<'a> {
    pub kind: StatementKind<'a>,
    pub range: SourceRange<'a>,
}

impl<'a> Statement<'a> {
    /// A statement of the given kind over `range`.
    pub fn new(kind: StatementKind<'a>, range: SourceRange<'a>) -> (r: Self)
        ensures
            r.kind == kind,
            r.range == range,
    {
        Statement { kind, range }
    }

    /// A `return` of `expression` over `range`.
    pub fn new_return(expression: Expression<'a>, range: SourceRange<'a>) -> (r: Self)
        ensures
            r.kind == StatementKind::Return(expression),
            r.range == range,
    {
        Statement::new(StatementKind::Return(expression), range)
    }
}

#[derive(Debug, PartialEq, Eq, Clone, Hash)]
/// Operators with one operand.
pub enum UnaryOperator {
    Complement,
    Negate,
}

#[derive(Debug, PartialEq, Eq, Clone, Hash)]
/// Operators with two operands.
pub enum BinaryOperator {
    Add,
    Subtract,
    Multiply,
    Divide,
    Remainder,
}

#[derive(Debug, PartialEq, Eq, Hash)]
/// What an expression is; each node owns its operands.
pub enum ExpressionKind<'a> {
    IntegerLiteral(u32),
    UnaryOperation { operator: UnaryOperator, expression: Box<Expression<'a>> },
    BinaryOperation {
        operator: BinaryOperator,
        left: Box<Expression<'a>>,
        right: Box<Expression<'a>>,
    },
    Parenthesis(Box<Expression<'a>>),
}

#[derive(Debug, PartialEq, Eq, Hash)]
/// An expression and the range it spans.
pub struct Expression<'a> {
    pub kind: ExpressionKind<'a>,
    pub range: SourceRange<'a>,
}


/// The two locations are equal: the same file (by path and content) or both without one,
/// and the same byte index, line and column.
pub open spec fn same_location(a: SourceLocation, b: SourceLocation) -> bool {
    &&& match (a.source_file, b.source_file) {
        (None, None) => true,
        (Some(x), Some(y)) => x.path@ == y.path@ && x.content@ == y.content@,
        _ => false,
    }
    &&& a.index == b.index
    &&& a.line == b.line
    &&& a.column == b.column
}

/// Whether the two locations are equal (see `same_location`).
pub fn locations_equal(a: &SourceLocation, b: &SourceLocation) -> (r: bool)
    ensures
        r == same_location(*a, *b),
{
    let same_file = match (a.source_file, b.source_file) {
        (None, None) => true,
        (Some(x), Some(y)) => x.eq(y),
        _ => false,
    };
    same_file && a.index == b.index && a.line == b.line && a.column == b.column
}

/// Where a range stands, as a dump shows it: `line:column` for a range of one location,
/// otherwise `line:column-line:column`.
pub open spec fn place_text(range: SourceRange) -> Seq<char> {
    if same_location(range.begin, range.end) {
        line_column(range.begin.line, range.begin.column)
    } else {
        line_column(range.begin.line, range.begin.column) + seq!['-'] + line_column(
            range.end.line,
            range.end.column,
        )
    }
}

pub(crate) fn ast_source_range_to_string(range: &SourceRange<'_>) -> (r: String)
    ensures
        r@ == place_text(*range),
{
    proof {
        reveal_strlit("-");
        assert("-"@ =~= seq!['-']);
    }
    let mut r = line_column_text(range.begin.line, range.begin.column);
    if locations_equal(&range.begin, &range.end) {
        return r;
    }
    r.append("-");
    let end = line_column_text(range.end.line, range.end.column);
    r.append(end.as_str());
    r
}

/// The name of a unary operator in a dump.
pub open spec fn unary_name(operator: UnaryOperator) -> Seq<char> {
    match operator {
        UnaryOperator::Complement => "Complement"@,
        UnaryOperator::Negate => "Negate"@,
    }
}

/// The name of a binary operator in a dump.
pub open spec fn binary_name(operator: BinaryOperator) -> Seq<char> {
    match operator {
        BinaryOperator::Add => "Add"@,
        BinaryOperator::Subtract => "Subtract"@,
        BinaryOperator::Multiply => "Multiply"@,
        BinaryOperator::Divide => "Divide"@,
        BinaryOperator::Remainder => "Remainder"@,
    }
}

fn unary_name_text(operator: &UnaryOperator) -> (r: &'static str)
    ensures
        r@ == unary_name(*operator),
{
    match operator {
        UnaryOperator::Complement => "Complement",
        UnaryOperator::Negate => "Negate",
    }
}

fn binary_name_text(operator: &BinaryOperator) -> (r: &'static str)
    ensures
        r@ == binary_name(*operator),
{
    match operator {
        BinaryOperator::Add => "Add",
        BinaryOperator::Subtract => "Subtract",
        BinaryOperator::Multiply => "Multiply",
        BinaryOperator::Divide => "Divide",
        BinaryOperator::Remainder => "Remainder",
    }
}

/// The dump of an expression at nesting level `depth`: one line per node, children below
/// their parent one level deeper.
pub open spec fn expression_dump(e: Expression, depth: nat) -> Seq<char>
    decreases e,
{
    match e.kind {
        ExpressionKind::IntegerLiteral(value) => indent(depth) + "IntegerLiteral ("@ + decimal(
            value as nat,
        ) + ") "@ + place_text(e.range),
        ExpressionKind::UnaryOperation { operator, expression } => indent(depth)
            + "UnaryOperation "@ + unary_name(operator) + " "@ + place_text(e.range) + "\n"@
            + expression_dump(*expression, next_depth(depth)),
        ExpressionKind::Parenthesis(inner) => indent(depth) + "Parenthesis "@ + place_text(e.range)
            + "\n"@ + expression_dump(*inner, next_depth(depth)),
        ExpressionKind::BinaryOperation { operator, left, right } => indent(depth)
            + "BinaryOperation "@ + binary_name(operator) + "\n"@ + expression_dump(
            *left,
            next_depth(depth),
        ) + "\n"@ + expression_dump(*right, next_depth(depth)),
    }
}

/// The dump of a statement at nesting level `depth`.
pub open spec fn statement_dump(s: Statement, depth: nat) -> Seq<char> {
    match s.kind {
        StatementKind::Return(e) => indent(depth) + "ReturnStatement "@ + place_text(s.range)
            + "\n"@ + expression_dump(e, next_depth(depth)),
    }
}

/// The dump of a function definition at nesting level `depth`.
pub open spec fn function_dump(f: FunctionDefinition, depth: nat) -> Seq<char> {
    indent(depth) + "FunctionDefinition \""@ + f.name@ + "\"\n"@ + statement_dump(
        f.body,
        next_depth(depth),
    )
}

/// The dumps of the first `k` functions, each at level 1, one after another.
pub open spec fn functions_dump(functions: Seq<FunctionDefinition>, k: int) -> Seq<char>
    decreases k,
{
    if k <= 0 {
        seq![]
    } else {
        functions_dump(functions, k - 1) + function_dump(functions[k - 1], 1)
    }
}

fn deeper(depth: usize) -> (r: usize)
    ensures
        r == next_depth(depth as nat),
{
    if depth < usize::MAX {
        depth + 1
    } else {
        depth
    }
}

impl<'a> Expression<'a> {
    /// A readable rendering of the expression tree (see `expression_dump`).
    pub fn dump(&self, depth: usize) -> (r: String)
        ensures
            r@ == expression_dump(*self, depth as nat),
        decreases self,
    {
        let mut r = indentation(depth);
        match &self.kind {
            ExpressionKind::IntegerLiteral(value) => {
                r.append("IntegerLiteral (");
                let v = decimal_text(*value as u64);
                r.append(v.as_str());
                r.append(") ");
                let place = ast_source_range_to_string(&self.range);
                r.append(place.as_str());
            },
            ExpressionKind::UnaryOperation { operator, expression } => {
                r.append("UnaryOperation ");
                r.append(unary_name_text(operator));
                r.append(" ");
                let place = ast_source_range_to_string(&self.range);
                r.append(place.as_str());
                r.append("\n");
                let inner = expression.dump(deeper(depth));
                r.append(inner.as_str());
            },
            ExpressionKind::Parenthesis(expression) => {
                r.append("Parenthesis ");
                let place = ast_source_range_to_string(&self.range);
                r.append(place.as_str());
                r.append("\n");
                let inner = expression.dump(deeper(depth));
                r.append(inner.as_str());
            },
            ExpressionKind::BinaryOperation { operator, left, right } => {
                r.append("BinaryOperation ");
                r.append(binary_name_text(operator));
                r.append("\n");
                let l = left.dump(deeper(depth));
                r.append(l.as_str());
                r.append("\n");
                let rt = right.dump(deeper(depth));
                r.append(rt.as_str());
            },
        }
        r
    }
}

impl<'a> Statement<'a> {
    /// A readable rendering of the statement (see `statement_dump`).
    pub fn dump(&self, depth: usize) -> (r: String)
        ensures
            r@ == statement_dump(*self, depth as nat),
    {
        match &self.kind {
            StatementKind::Return(expression) => {
                let mut r = indentation(depth);
                r.append("ReturnStatement ");
                let place = ast_source_range_to_string(&self.range);
                r.append(place.as_str());
                r.append("\n");
                let inner = expression.dump(deeper(depth));
                r.append(inner.as_str());
                r
            },
        }
    }
}

impl<'a> FunctionDefinition<'a> {
    /// A readable rendering of the function (see `function_dump`).
    pub fn dump(&self, depth: usize) -> (r: String)
        ensures
            r@ == function_dump(*self, depth as nat),
    {
        let mut r = indentation(depth);
        r.append("FunctionDefinition \"");
        r.append(self.name.as_str());
        r.append("\"\n");
        let body = self.body.dump(deeper(depth));
        r.append(body.as_str());
        r
    }
}

impl<'a> TranslationUnit<'a> {
    /// A readable rendering of the whole tree: a header line, then each function.
    pub fn dump(&self) -> (r: String)
        ensures
            r@ == "TranslationUnit\n"@ + functions_dump(self.function@, self.function@.len() as int),
    {
        let mut r = String::from_str("TranslationUnit\n");
        let mut i: usize = 0;
        while i < self.function.len()
            invariant
                0 <= i <= self.function@.len(),
                r@ == "TranslationUnit\n"@ + functions_dump(self.function@, i as int),
            decreases self.function@.len() - i,
        {
            let f = self.function[i].dump(1);
            r.append(f.as_str());
            i = i + 1;
        }
        r
    }
}

} // verus!
