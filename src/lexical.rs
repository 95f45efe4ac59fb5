use crate::diagnostic::DiagnosticId;
use crate::diagnostic_engine::{after_report, after_reports, plain_report, EngineState, Report};
use crate::source_file::SourceFile;
use crate::source_location::SourceLocation;
use crate::source_range::{is_ordered, SourceRange};
use crate::text::{
    byte_len, byte_offset, column_of, lemma_byte_offset_in_suffix,
    lemma_byte_offset_is_char_boundary, lemma_byte_offset_step, lemma_byte_offset_strictly_grows,
    lemma_byte_span, lemma_line_column_bounds, lemma_same_line,
    line_of,
};
use crate::token::{is_word_kind, Token, TokenKind};
use vstd::prelude::*;
use vstd::utf8::*;

verus! {

// ---- Character classes ----

/// An ASCII letter.
pub open spec fn is_letter(c: char) -> bool {
    (0x41 <= c as u32 <= 0x5A) || (0x61 <= c as u32 <= 0x7A)
}

/// An ASCII decimal digit.
pub open spec fn is_digit(c: char) -> bool {
    0x30 <= c as u32 <= 0x39
}

/// A character that can begin a word.
pub open spec fn is_word_start(c: char) -> bool {
    is_letter(c) || c == '_'
}

/// A character that can continue a word.
pub open spec fn is_word_char(c: char) -> bool {
    is_word_start(c) || is_digit(c)
}

/// Characters with the Unicode White_Space property: those that `char::is_whitespace`
/// accepts.
pub open spec fn is_white_space(c: char) -> bool {
    let v = c as u32;
    ||| 0x09 <= v <= 0x0D
    ||| v == 0x20
    ||| v == 0x85
    ||| v == 0xA0
    ||| v == 0x1680
    ||| 0x2000 <= v <= 0x200A
    ||| v == 0x2028
    ||| v == 0x2029
    ||| v == 0x202F
    ||| v == 0x205F
    ||| v == 0x3000
}

/// The token of a single punctuation character.
pub open spec fn punctuation_kind(c: char) -> Option<TokenKind> {
    if c == '(' {
        Some(TokenKind::LeftParenthesis)
    } else if c == ')' {
        Some(TokenKind::RightParenthesis)
    } else if c == '{' {
        Some(TokenKind::LeftBrace)
    } else if c == '}' {
        Some(TokenKind::RightBrace)
    } else if c == ';' {
        Some(TokenKind::Semicolon)
    } else {
        None
    }
}

/// The value of a decimal digit.
pub open spec fn digit_value(c: char) -> int {
    c as u32 - 0x30
}

// ---- Runs of characters ----

/// The end of the run of word characters from `p`.
pub open spec fn word_end(s: Seq<char>, p: int) -> int
    decreases s.len() - p,
{
    if 0 <= p < s.len() && is_word_char(s[p]) {
        word_end(s, p + 1)
    } else {
        p
    }
}

/// The end of the run of digits from `p`.
pub open spec fn digits_end(s: Seq<char>, p: int) -> int
    decreases s.len() - p,
{
    if 0 <= p < s.len() && is_digit(s[p]) {
        digits_end(s, p + 1)
    } else {
        p
    }
}

/// The decimal value of the digits from `b` up to `e`.
pub open spec fn digits_value(s: Seq<char>, b: int, e: int) -> int
    decreases e - b,
{
    if e <= b {
        0
    } else {
        digits_value(s, b, e - 1) * 10 + digit_value(s[e - 1])
    }
}

/// Where a line comment whose text starts at `p` ends: just after the line break that
/// closes it, or at the end of the input.
pub open spec fn line_comment_end(s: Seq<char>, p: int) -> int
    decreases s.len() - p,
{
    if p >= s.len() {
        s.len() as int
    } else if s[p] == '\n' {
        p + 1
    } else {
        line_comment_end(s, p + 1)
    }
}

/// Where a block comment whose text starts at `p` ends: just after the first `*/` from
/// `p`, or at the end of the input.
pub open spec fn block_comment_end(s: Seq<char>, p: int) -> int
    decreases s.len() - p,
{
    if p + 1 >= s.len() {
        s.len() as int
    } else if s[p] == '*' && s[p + 1] == '/' {
        p + 2
    } else {
        block_comment_end(s, p + 1)
    }
}

/// A run of word characters lies within the input, and ends at a character that is not one.
pub proof fn lemma_word_end(s: Seq<char>, p: int)
    requires
        0 <= p <= s.len(),
    ensures
        p <= word_end(s, p) <= s.len(),
        forall|k: int| p <= k < word_end(s, p) ==> is_word_char(#[trigger] s[k]),
        word_end(s, p) < s.len() ==> !is_word_char(s[word_end(s, p)]),
    decreases s.len() - p,
{
    if p < s.len() && is_word_char(s[p]) {
        lemma_word_end(s, p + 1);
    }
}

/// A run of digits lies within the input, and ends at a character that is not one.
pub proof fn lemma_digits_end(s: Seq<char>, p: int)
    requires
        0 <= p <= s.len(),
    ensures
        p <= digits_end(s, p) <= s.len(),
        forall|k: int| p <= k < digits_end(s, p) ==> is_digit(#[trigger] s[k]),
        digits_end(s, p) < s.len() ==> !is_digit(s[digits_end(s, p)]),
    decreases s.len() - p,
{
    if p < s.len() && is_digit(s[p]) {
        lemma_digits_end(s, p + 1);
    }
}

/// A line comment ends within the input.
pub proof fn lemma_line_comment_end(s: Seq<char>, p: int)
    requires
        0 <= p <= s.len(),
    ensures
        p <= line_comment_end(s, p) <= s.len(),
    decreases s.len() - p,
{
    if p < s.len() && s[p] != '\n' {
        lemma_line_comment_end(s, p + 1);
    }
}

/// A block comment ends within the input.
pub proof fn lemma_block_comment_end(s: Seq<char>, p: int)
    requires
        0 <= p <= s.len(),
    ensures
        p <= block_comment_end(s, p) <= s.len(),
    decreases s.len() - p,
{
    if p + 1 < s.len() && !(s[p] == '*' && s[p + 1] == '/') {
        lemma_block_comment_end(s, p + 1);
    }
}

/// The value of digits is never negative.
pub proof fn lemma_digits_value_nonnegative(s: Seq<char>, b: int, m: int)
    requires
        0 <= b <= m <= s.len(),
        forall|j: int| b <= j < m ==> is_digit(#[trigger] s[j]),
    ensures
        0 <= digits_value(s, b, m),
    decreases m - b,
{
    if m > b {
        lemma_digits_value_nonnegative(s, b, m - 1);
    }
}

/// More digits never give a smaller value.
pub proof fn lemma_digits_value_grows(s: Seq<char>, b: int, k: int, m: int)
    requires
        0 <= b <= k <= m <= s.len(),
        forall|j: int| b <= j < m ==> is_digit(#[trigger] s[j]),
    ensures
        0 <= digits_value(s, b, k) <= digits_value(s, b, m),
    decreases m - k,
{
    lemma_digits_value_nonnegative(s, b, k);
    if m > k {
        lemma_digits_value_grows(s, b, k, m - 1);
        lemma_digits_value_nonnegative(s, b, m - 1);
    }
}

// ---- What lexing produces ----

/// One result of lexing: a token spanning positions `begin` through `end`, or a problem
/// reported over that span.
pub enum Lexeme {
    Token { begin: int, end: int },
    Problem { id: DiagnosticId, begin: int, end: int },
}

/// What lexing `s` gives from position `p` on, in order.
pub open spec fn lex_from(s: Seq<char>, p: int) -> Seq<Lexeme>
    decreases s.len() - p,
{
    if p < 0 || p >= s.len() {
        seq![]
    } else {
        let c = s[p];
        if is_white_space(c) {
            lex_from(s, p + 1)
        } else if is_word_start(c) {
            let q = word_end(s, p + 1);
            proof {
                lemma_word_end(s, p + 1);
            }
            seq![Lexeme::Token { begin: p, end: q - 1 }] + lex_from(s, q)
        } else if is_digit(c) {
            let q = digits_end(s, p + 1);
            proof {
                lemma_digits_end(s, p + 1);
            }
            if digits_value(s, p, q) <= u32::MAX {
                seq![Lexeme::Token { begin: p, end: q - 1 }] + lex_from(s, q)
            } else {
                seq![
                    Lexeme::Problem { id: DiagnosticId::IntegerLiteralTooLarge, begin: p, end: q - 1 },
                ] + lex_from(s, q)
            }
        } else if c == '/' && p + 1 < s.len() && s[p + 1] == '/' {
            proof {
                lemma_line_comment_end(s, p + 2);
            }
            lex_from(s, line_comment_end(s, p + 2))
        } else if c == '/' && p + 1 < s.len() && s[p + 1] == '*' {
            proof {
                lemma_block_comment_end(s, p + 2);
            }
            lex_from(s, block_comment_end(s, p + 2))
        } else if c == '/' || punctuation_kind(c) is Some {
            seq![Lexeme::Token { begin: p, end: p }] + lex_from(s, p + 1)
        } else if c == '\0' {
            seq![Lexeme::Problem { id: DiagnosticId::NullCharacter, begin: p, end: p }] + lex_from(
                s,
                p + 1,
            )
        } else {
            seq![Lexeme::Problem { id: DiagnosticId::UnexpectedCharacter, begin: p, end: p }]
                + lex_from(s, p + 1)
        }
    }
}

/// The spans of the tokens among `ls`, in order.
pub open spec fn token_spans(ls: Seq<Lexeme>) -> Seq<(int, int)>
    decreases ls.len(),
{
    if ls.len() == 0 {
        seq![]
    } else {
        let rest = token_spans(ls.drop_last());
        match ls.last() {
            Lexeme::Token { begin, end } => rest.push((begin, end)),
            _ => rest,
        }
    }
}

/// The problems among `ls`, in order.
pub open spec fn problem_ids(ls: Seq<Lexeme>) -> Seq<DiagnosticId>
    decreases ls.len(),
{
    if ls.len() == 0 {
        seq![]
    } else {
        let rest = problem_ids(ls.drop_last());
        match ls.last() {
            Lexeme::Problem { id, .. } => rest.push(id),
            _ => rest,
        }
    }
}

/// The message of a problem found at character `c`.
pub open spec fn problem_message(id: DiagnosticId, c: char) -> Seq<char> {
    match id {
        DiagnosticId::NullCharacter => "null character ignored"@,
        DiagnosticId::IntegerLiteralTooLarge => "integer literal is too large"@,
        _ => "unexpected character '"@ + seq![c] + "' found"@,
    }
}

/// What lexing `f` reports for a problem over positions `b` through `e`.
pub open spec fn problem_report(f: &SourceFile, id: DiagnosticId, b: int, e: int) -> Report {
    plain_report(id, range_at(f, b, e), problem_message(id, f.content@[b]))
}

/// What lexing `f` reports for the problems among `ls`, in order.
pub open spec fn problem_reports(f: &SourceFile, ls: Seq<Lexeme>) -> Seq<Report>
    decreases ls.len(),
{
    if ls.len() == 0 {
        seq![]
    } else {
        let rest = problem_reports(f, ls.drop_last());
        match ls.last() {
            Lexeme::Problem { id, begin, end } => rest.push(problem_report(f, id, begin, end)),
            _ => rest,
        }
    }
}

/// The location of position `p` of `f`.
pub open spec fn location_at<'a>(f: &'a SourceFile, p: int) -> SourceLocation<'a> {
    let s = f.content@;
    SourceLocation {
        source_file: Some(f),
        index: byte_offset(s, p) as usize,
        line: line_of(s, p) as u32,
        column: column_of(s, p) as u32,
    }
}

/// The range of positions `b` through `e` of `f`.
pub open spec fn range_at<'a>(f: &'a SourceFile, b: int, e: int) -> SourceRange<'a> {
    SourceRange { begin: location_at(f, b), end: location_at(f, e) }
}

/// The kind of the token that spans positions `b` through `e` of `s`.
pub open spec fn is_kind_of_span(kind: TokenKind, s: Seq<char>, b: int, e: int) -> bool {
    let c = s[b];
    if is_word_start(c) {
        is_word_kind(kind, s.subrange(b, e + 1))
    } else if is_digit(c) {
        kind == TokenKind::IntegerLiteral(digits_value(s, b, e + 1) as u32)
    } else if c == '/' {
        kind == TokenKind::Slash
    } else {
        punctuation_kind(c) == Some(kind)
    }
}

/// `t` is the token of `f` over positions `b` through `e`.
pub open spec fn is_token_at(t: Token, f: &SourceFile, b: int, e: int) -> bool {
    &&& t.range == range_at(f, b, e)
    &&& is_kind_of_span(t.kind, f.content@, b, e)
}

/// `tokens` are the tokens of `f` over `spans`, one for one.
pub open spec fn tokens_over(f: &SourceFile, tokens: Seq<Token>, spans: Seq<(int, int)>) -> bool {
    &&& tokens.len() == spans.len()
    &&& forall|i: int| 0 <= i < tokens.len() ==> is_token_at(#[trigger] tokens[i], f, spans[i].0, spans[i].1)
}

/// `tokens` are what lexing `f` gives.
pub open spec fn is_lexing_of(f: &SourceFile, tokens: Seq<Token>) -> bool {
    tokens_over(f, tokens, token_spans(lex_from(f.content@, 0)))
}

/// What lexing `f` reports, in order.
pub open spec fn lexing_problems(f: &SourceFile) -> Seq<Report> {
    problem_reports(f, lex_from(f.content@, 0))
}

/// The text of the range over positions `b` through `e` is the characters there.
pub proof fn lemma_range_text(f: &SourceFile, b: int, e: int)
    requires
        0 <= b <= e < f.content@.len(),
        byte_len(f.content@) <= usize::MAX,
    ensures
        range_at(f, b, e).text_bytes() == Some(encode_utf8(f.content@.subrange(b, e + 1))),
{
    let s = f.content@;
    assert(s.take(s.len() as int) =~= s);
    lemma_byte_span(s, b, e + 1);
    lemma_byte_span(s, e + 1, s.len() as int);
    lemma_byte_span(s, b, e);
    lemma_byte_offset_is_char_boundary(s, b);
    lemma_byte_offset_is_char_boundary(s, e);
    lemma_byte_offset_in_suffix(s, e, e + 1);
    encode_utf8_first_scalar(s.subrange(e, s.len() as int));
    lemma_byte_offset_step(s, e);
}

/// A further token adds its span and no problem.
pub proof fn lemma_push_token(f: &SourceFile, ls: Seq<Lexeme>, b: int, e: int)
    ensures
        token_spans(ls.push(Lexeme::Token { begin: b, end: e })) == token_spans(ls).push((b, e)),
        problem_ids(ls.push(Lexeme::Token { begin: b, end: e })) == problem_ids(ls),
        problem_reports(f, ls.push(Lexeme::Token { begin: b, end: e })) == problem_reports(f, ls),
{
    assert(ls.push(Lexeme::Token { begin: b, end: e }).drop_last() =~= ls);
}

/// A further problem adds its id and no span.
pub proof fn lemma_push_problem(f: &SourceFile, ls: Seq<Lexeme>, id: DiagnosticId, b: int, e: int)
    ensures
        token_spans(ls.push(Lexeme::Problem { id, begin: b, end: e })) == token_spans(ls),
        problem_ids(ls.push(Lexeme::Problem { id, begin: b, end: e })) == problem_ids(ls).push(id),
        problem_reports(f, ls.push(Lexeme::Problem { id, begin: b, end: e })) == problem_reports(
            f,
            ls,
        ).push(problem_report(f, id, b, e)),
{
    assert(ls.push(Lexeme::Problem { id, begin: b, end: e }).drop_last() =~= ls);
}

/// Reporting one more diagnostic extends the reports by it.
pub proof fn lemma_after_reports_push(st: EngineState, reports: Seq<Report>, report: Report)
    ensures
        after_reports(st, reports.push(report)) == after_report(after_reports(st, reports), report),
{
    assert(reports.push(report).drop_last() =~= reports);
}

/// The ends of a span without line breaks lie in one file and in order.
pub proof fn lemma_span_ordered(f: &SourceFile, b: int, e: int)
    requires
        0 <= b <= e < f.content@.len(),
        forall|k: int| b <= k <= e ==> f.content@[k] != '\n',
        f.content@.len() < u32::MAX,
        byte_len(f.content@) <= usize::MAX,
    ensures
        location_at(f, b).source_file == location_at(f, e).source_file,
        crate::source_range::is_ordered(location_at(f, b), location_at(f, e)),
{
    let s = f.content@;
    lemma_same_line(s, b, e);
    lemma_line_column_bounds(s, b);
    lemma_line_column_bounds(s, e);
    lemma_byte_span(s, b, e);
    lemma_byte_span(s, e, s.len() as int);
    assert(s.take(s.len() as int) =~= s);
}

/// A run of digits ends where the run from any later point in it ends.
pub proof fn lemma_digits_end_within(s: Seq<char>, b: int, p: int)
    requires
        0 <= b <= p <= s.len(),
        forall|k: int| b <= k < p ==> is_digit(#[trigger] s[k]),
    ensures
        digits_end(s, b) == digits_end(s, p),
    decreases p - b,
{
    if b < p {
        lemma_digits_end_within(s, b + 1, p);
    }
}

/// The first position a lexeme spans.
pub open spec fn begin_of(l: Lexeme) -> int {
    match l {
        Lexeme::Token { begin, .. } => begin,
        Lexeme::Problem { begin, .. } => begin,
    }
}

/// The last position a lexeme spans.
pub open spec fn end_of(l: Lexeme) -> int {
    match l {
        Lexeme::Token { end, .. } => end,
        Lexeme::Problem { end, .. } => end,
    }
}

/// The positions from `p` on that lie in comments, `//` and `/*` included, as lexing
/// finds them.
pub open spec fn comment_positions(s: Seq<char>, p: int) -> Set<int>
    decreases s.len() - p,
{
    if p < 0 || p >= s.len() {
        Set::empty()
    } else {
        let c = s[p];
        if is_white_space(c) {
            comment_positions(s, p + 1)
        } else if is_word_start(c) {
            proof {
                lemma_word_end(s, p + 1);
            }
            comment_positions(s, word_end(s, p + 1))
        } else if is_digit(c) {
            proof {
                lemma_digits_end(s, p + 1);
            }
            comment_positions(s, digits_end(s, p + 1))
        } else if c == '/' && p + 1 < s.len() && s[p + 1] == '/' {
            let q = line_comment_end(s, p + 2);
            proof {
                lemma_line_comment_end(s, p + 2);
            }
            Set::new(|k: int| p <= k < q) + comment_positions(s, q)
        } else if c == '/' && p + 1 < s.len() && s[p + 1] == '*' {
            let q = block_comment_end(s, p + 2);
            proof {
                lemma_block_comment_end(s, p + 2);
            }
            Set::new(|k: int| p <= k < q) + comment_positions(s, q)
        } else {
            comment_positions(s, p + 1)
        }
    }
}

/// The lexemes that lexing gives from `p` on lie in order, without overlap, over characters
/// that are neither blank nor in a comment; and every such character lies in one of them.
pub proof fn lemma_lexemes_cover(s: Seq<char>, p: int)
    requires
        0 <= p <= s.len(),
    ensures
        forall|i: int|
            0 <= i < lex_from(s, p).len() ==> p <= begin_of(#[trigger] lex_from(s, p)[i])
                <= end_of(lex_from(s, p)[i]) < s.len(),
        forall|i: int, k: int|
            0 <= i < lex_from(s, p).len() && begin_of(#[trigger] lex_from(s, p)[i]) <= k
                <= end_of(lex_from(s, p)[i]) ==> !is_white_space(#[trigger] s[k])
                && !comment_positions(s, p).contains(k),
        forall|i: int, j: int|
            0 <= i < j < lex_from(s, p).len() ==> end_of(#[trigger] lex_from(s, p)[i]) < begin_of(
                #[trigger] lex_from(s, p)[j],
            ),
        forall|k: int|
            p <= k < s.len() && !is_white_space(#[trigger] s[k]) && !comment_positions(
                s,
                p,
            ).contains(k) ==> exists|i: int|
                0 <= i < lex_from(s, p).len() && begin_of(#[trigger] lex_from(s, p)[i]) <= k
                    <= end_of(lex_from(s, p)[i]),
        forall|k: int| comment_positions(s, p).contains(k) ==> p <= k < s.len(),
        forall|i: int|
            0 <= i < lex_from(s, p).len() && begin_of(#[trigger] lex_from(s, p)[i]) < end_of(
                lex_from(s, p)[i],
            ) ==> is_word_char(s[end_of(lex_from(s, p)[i])]),
    decreases s.len() - p,
{
    if p >= s.len() {
        assert(comment_positions(s, p) =~= Set::<int>::empty());
        return ;
    }
    let c = s[p];
    let ls = lex_from(s, p);
    let cp = comment_positions(s, p);
    if is_white_space(c) {
        lemma_lexemes_cover(s, p + 1);
        assert(ls == lex_from(s, p + 1));
        assert(cp == comment_positions(s, p + 1));
        assert forall|i: int, k: int|
            0 <= i < ls.len() && begin_of(#[trigger] ls[i]) <= k <= end_of(ls[i]) implies !is_white_space(
            #[trigger] s[k]) && !cp.contains(k) by {
            let ch = s[k];
            assert(!is_white_space(ch) && !comment_positions(s, p + 1).contains(k));
        }
    } else if is_word_start(c) || is_digit(c) {
        let q = if is_word_start(c) {
            word_end(s, p + 1)
        } else {
            digits_end(s, p + 1)
        };
        lemma_word_end(s, p + 1);
        lemma_digits_end(s, p + 1);
        lemma_lexemes_cover(s, q);
        let rest = lex_from(s, q);
        assert(cp == comment_positions(s, q));
        assert(p < q <= s.len());
        assert(forall|k: int| p <= k < q ==> !is_white_space(#[trigger] s[k]));
        assert(ls.len() == rest.len() + 1);
        assert(forall|i: int| 0 < i < ls.len() ==> ls[i] == rest[i - 1]);
        assert(begin_of(ls[0]) == p && end_of(ls[0]) == q - 1);
        assert forall|i: int| 0 <= i < ls.len() implies p <= begin_of(#[trigger] ls[i]) <= end_of(
            ls[i],
        ) < s.len() by {
            if i > 0 {
                assert(ls[i] == rest[i - 1]);
            }
        }
        assert forall|i: int|
            0 <= i < ls.len() && begin_of(#[trigger] ls[i]) < end_of(ls[i]) implies is_word_char(
            s[end_of(ls[i])],
        ) by {
            if i > 0 {
                assert(ls[i] == rest[i - 1]);
            } else {
                assert(p + 1 <= q - 1);
            }
        }
        assert forall|k: int|
            p <= k < s.len() && !is_white_space(#[trigger] s[k]) && !cp.contains(k) implies exists|
            i: int|
            0 <= i < ls.len() && begin_of(#[trigger] ls[i]) <= k <= end_of(ls[i]) by {
            if k >= q {
                let i = choose|i: int|
                    0 <= i < rest.len() && begin_of(#[trigger] rest[i]) <= k <= end_of(rest[i]);
                assert(ls[i + 1] == rest[i]);
            } else {
                assert(begin_of(ls[0]) <= k <= end_of(ls[0]));
            }
        }
        assert forall|i: int, k: int|
            0 <= i < ls.len() && begin_of(#[trigger] ls[i]) <= k <= end_of(ls[i]) implies !is_white_space(
            #[trigger] s[k]) && !cp.contains(k) by {
            let ch = s[k];
            if i > 0 {
                assert(ls[i] == rest[i - 1]);
                assert(begin_of(rest[i - 1]) <= k <= end_of(rest[i - 1]));
                assert(!is_white_space(ch) && !comment_positions(s, q).contains(k));
            } else {
                assert(p <= k < q);
                assert(!comment_positions(s, q).contains(k));
            }
        }
        assert forall|i: int, j: int| 0 <= i < j < ls.len() implies end_of(#[trigger] ls[i]) < begin_of(
            #[trigger] ls[j],
        ) by {
            assert(ls[j] == rest[j - 1]);
            if i > 0 {
                assert(ls[i] == rest[i - 1]);
            }
        }
    } else if c == '/' && p + 1 < s.len() && (s[p + 1] == '/' || s[p + 1] == '*') {
        let q = if s[p + 1] == '/' {
            line_comment_end(s, p + 2)
        } else {
            block_comment_end(s, p + 2)
        };
        lemma_line_comment_end(s, p + 2);
        lemma_block_comment_end(s, p + 2);
        lemma_lexemes_cover(s, q);
        assert(ls == lex_from(s, q));
        assert(cp == Set::new(|k: int| p <= k < q) + comment_positions(s, q));
        assert forall|i: int, k: int|
            0 <= i < ls.len() && begin_of(#[trigger] ls[i]) <= k <= end_of(ls[i]) implies !is_white_space(
            #[trigger] s[k]) && !cp.contains(k) by {
            let ch = s[k];
            assert(q <= k);
            assert(!is_white_space(ch) && !comment_positions(s, q).contains(k));
            assert(!Set::new(|k: int| p <= k < q).contains(k));
        }
        assert forall|i: int| 0 <= i < ls.len() implies p <= begin_of(#[trigger] ls[i]) <= end_of(
            ls[i],
        ) < s.len() by {
            assert(q <= begin_of(ls[i]));
        }
    } else {
        lemma_lexemes_cover(s, p + 1);
        let rest = lex_from(s, p + 1);
        assert(ls.len() == rest.len() + 1);
        assert(forall|i: int| 0 < i < ls.len() ==> ls[i] == rest[i - 1]);
        assert(begin_of(ls[0]) == p && end_of(ls[0]) == p);
        assert(cp == comment_positions(s, p + 1));
        assert forall|i: int|
            0 <= i < ls.len() && begin_of(#[trigger] ls[i]) < end_of(ls[i]) implies is_word_char(
            s[end_of(ls[i])],
        ) by {
            if i > 0 {
                assert(ls[i] == rest[i - 1]);
            }
        }
        assert forall|i: int| 0 <= i < ls.len() implies p <= begin_of(#[trigger] ls[i]) <= end_of(
            ls[i],
        ) < s.len() by {
            if i > 0 {
                assert(ls[i] == rest[i - 1]);
            }
        }
        assert forall|k: int|
            p <= k < s.len() && !is_white_space(#[trigger] s[k]) && !cp.contains(k) implies exists|
            i: int|
            0 <= i < ls.len() && begin_of(#[trigger] ls[i]) <= k <= end_of(ls[i]) by {
            if k > p {
                let i = choose|i: int|
                    0 <= i < rest.len() && begin_of(#[trigger] rest[i]) <= k <= end_of(rest[i]);
                assert(ls[i + 1] == rest[i]);
            } else {
                assert(begin_of(ls[0]) <= k <= end_of(ls[0]));
            }
        }
        assert forall|i: int, k: int|
            0 <= i < ls.len() && begin_of(#[trigger] ls[i]) <= k <= end_of(ls[i]) implies !is_white_space(
            #[trigger] s[k]) && !cp.contains(k) by {
            let ch = s[k];
            if i > 0 {
                assert(ls[i] == rest[i - 1]);
                assert(begin_of(rest[i - 1]) <= k <= end_of(rest[i - 1]));
                assert(!is_white_space(ch) && !comment_positions(s, p + 1).contains(k));
            } else {
                assert(k == p);
                assert(!comment_positions(s, p + 1).contains(k));
            }
        }
        assert forall|i: int, j: int| 0 <= i < j < ls.len() implies end_of(#[trigger] ls[i]) < begin_of(
            #[trigger] ls[j],
        ) by {
            assert(ls[j] == rest[j - 1]);
            if i > 0 {
                assert(ls[i] == rest[i - 1]);
            }
        }
    }
}

/// Where lexing reports no problem, every lexeme is a token and the token spans are the
/// lexemes' spans.
pub proof fn lemma_spans_without_problems(ls: Seq<Lexeme>)
    requires
        problem_ids(ls).len() == 0,
    ensures
        token_spans(ls).len() == ls.len(),
        forall|i: int|
            0 <= i < ls.len() ==> (#[trigger] ls[i]) is Token && token_spans(ls)[i] == (
                begin_of(ls[i]),
                end_of(ls[i]),
            ),
    decreases ls.len(),
{
    if ls.len() > 0 {
        let init = ls.drop_last();
        if ls.last() is Problem {
            assert(problem_ids(ls).len() == problem_ids(init).len() + 1);
        }
        lemma_spans_without_problems(init);
        assert forall|i: int| 0 <= i < ls.len() implies (#[trigger] ls[i]) is Token && token_spans(
            ls,
        )[i] == (begin_of(ls[i]), end_of(ls[i])) by {
            if i < ls.len() - 1 {
                assert(ls[i] == init[i]);
            }
        }
    }
}

/// Position `k` lies in the span `span`.
pub open spec fn in_span(span: (int, int), k: int) -> bool {
    span.0 <= k <= span.1
}

/// Lexing covers its input. On every input on which lexing reports no problem, the tokens
/// come in order without overlap, each spans only characters that are neither blank nor in a
/// comment, and every character that is neither blank nor in a comment lies in a token, and
/// so in exactly one.
pub proof fn lemma_tokens_cover_input(s: Seq<char>)
    requires
        problem_ids(lex_from(s, 0)).len() == 0,
    ensures
        forall|i: int|
            0 <= i < token_spans(lex_from(s, 0)).len() ==> 0 <= (#[trigger] token_spans(
                lex_from(s, 0),
            )[i]).0 <= token_spans(lex_from(s, 0))[i].1 < s.len(),
        forall|i: int, j: int|
            0 <= i < j < token_spans(lex_from(s, 0)).len() ==> (#[trigger] token_spans(
                lex_from(s, 0),
            )[i]).1 < (#[trigger] token_spans(lex_from(s, 0))[j]).0,
        forall|i: int, k: int|
            0 <= i < token_spans(lex_from(s, 0)).len() && in_span(
                #[trigger] token_spans(lex_from(s, 0))[i],
                k,
            ) ==> !is_white_space(#[trigger] s[k]) && !comment_positions(s, 0).contains(k),
        forall|k: int|
            0 <= k < s.len() && !is_white_space(#[trigger] s[k]) && !comment_positions(
                s,
                0,
            ).contains(k) ==> exists|i: int|
                0 <= i < token_spans(lex_from(s, 0)).len() && in_span(
                    #[trigger] token_spans(lex_from(s, 0))[i],
                    k,
                ),
{
    let ls = lex_from(s, 0);
    lemma_lexemes_cover(s, 0);
    lemma_spans_without_problems(ls);
    let spans = token_spans(ls);
    assert forall|i: int, k: int|
        0 <= i < spans.len() && in_span(#[trigger] spans[i], k) implies !is_white_space(
        #[trigger] s[k]) && !comment_positions(s, 0).contains(k) by {
        assert(spans[i] == (begin_of(ls[i]), end_of(ls[i])));
    }
    assert forall|k: int|
        0 <= k < s.len() && !is_white_space(#[trigger] s[k]) && !comment_positions(s, 0).contains(
            k,
        ) implies exists|i: int| 0 <= i < spans.len() && in_span(#[trigger] spans[i], k) by {
        let i = choose|i: int| 0 <= i < ls.len() && begin_of(#[trigger] ls[i]) <= k <= end_of(ls[i]);
        assert(spans[i] == (begin_of(ls[i]), end_of(ls[i])));
    }
    assert forall|i: int, j: int| 0 <= i < j < spans.len() implies (#[trigger] spans[i]).1 < (
    #[trigger] spans[j]).0 by {
        assert(spans[i] == (begin_of(ls[i]), end_of(ls[i])));
        assert(spans[j] == (begin_of(ls[j]), end_of(ls[j])));
    }
    assert forall|i: int| 0 <= i < spans.len() implies 0 <= (#[trigger] spans[i]).0 <= spans[i].1
        < s.len() by {
        assert(spans[i] == (begin_of(ls[i]), end_of(ls[i])));
    }
}

/// Each token span is the span of some token lexeme.
pub proof fn lemma_token_spans_come_from_lexemes(ls: Seq<Lexeme>)
    ensures
        forall|i: int|
            0 <= i < token_spans(ls).len() ==> exists|j: int|
                0 <= j < ls.len() && begin_of(#[trigger] ls[j]) == (#[trigger] token_spans(ls)[i]).0
                    && end_of(ls[j]) == token_spans(ls)[i].1,
    decreases ls.len(),
{
    if ls.len() > 0 {
        let init = ls.drop_last();
        lemma_token_spans_come_from_lexemes(init);
        assert forall|i: int| 0 <= i < token_spans(ls).len() implies exists|j: int|
            0 <= j < ls.len() && begin_of(#[trigger] ls[j]) == (#[trigger] token_spans(ls)[i]).0
                && end_of(ls[j]) == token_spans(ls)[i].1 by {
            if i < token_spans(init).len() {
                let j = choose|j: int|
                    0 <= j < init.len() && begin_of(#[trigger] init[j]) == (#[trigger] token_spans(
                        init,
                    )[i]).0 && end_of(init[j]) == token_spans(init)[i].1;
                assert(ls[j] == init[j]);
            } else {
                assert(ls[ls.len() - 1] == ls.last());
            }
        }
    }
}

/// The location of a character other than a line break addresses it.
pub proof fn lemma_location_at_addresses(f: &SourceFile, p: int)
    requires
        0 <= p < f.content@.len(),
        f.content@[p] != '\n',
        f.content@[p] != '\r',
        f.content@.len() < u32::MAX,
        byte_len(f.content@) <= usize::MAX,
    ensures
        location_at(f, p).is_file_location(),
{
    let s = f.content@;
    lemma_line_column_bounds(s, p);
    lemma_byte_span(s, p, p + 1);
    lemma_byte_span(s, p + 1, s.len() as int);
    assert(s.take(s.len() as int) =~= s);
    assert(crate::text::names_character(s, line_of(s, p), column_of(s, p)));
}

/// Every token that lexing gives has a well-formed, well-ordered range within its file, and
/// the text of that range is exactly the characters that the token spans.
pub proof fn lemma_lexed_token_ranges(f: &SourceFile, tokens: Seq<Token>)
    requires
        is_lexing_of(f, tokens),
        f.content@.len() < u32::MAX,
        byte_len(f.content@) <= usize::MAX,
    ensures
        forall|i: int| 0 <= i < tokens.len() ==> (#[trigger] tokens[i]).range.wf(),
        forall|i: int|
            0 <= i < tokens.len() ==> (#[trigger] tokens[i]).range.text_bytes() == Some(
                encode_utf8(
                    f.content@.subrange(
                        token_spans(lex_from(f.content@, 0))[i].0,
                        token_spans(lex_from(f.content@, 0))[i].1 + 1,
                    ),
                ),
            ),
{
    let s = f.content@;
    let ls = lex_from(s, 0);
    let spans = token_spans(ls);
    lemma_lexemes_cover(s, 0);
    lemma_token_spans_come_from_lexemes(ls);
    assert forall|i: int| 0 <= i < tokens.len() implies (#[trigger] tokens[i]).range.wf()
        && tokens[i].range.text_bytes() == Some(
        encode_utf8(s.subrange(spans[i].0, spans[i].1 + 1)),
    ) by {
        let j = choose|j: int|
            0 <= j < ls.len() && begin_of(#[trigger] ls[j]) == (#[trigger] spans[i]).0 && end_of(
                ls[j],
            ) == spans[i].1;
        let b = spans[i].0;
        let e = spans[i].1;
        assert(tokens[i].range == range_at(f, b, e));
        assert forall|k: int| b <= k <= e implies s[k] != '\n' && s[k] != '\r' by {
            assert(!is_white_space(s[k]));
        }
        lemma_location_at_addresses(f, b);
        lemma_location_at_addresses(f, e);
        lemma_span_ordered(f, b, e);
        lemma_range_text(f, b, e);
    }
}

/// Every byte offset of a text whose encoding fits in `usize` fits too.
pub proof fn lemma_byte_offset_fits(s: Seq<char>, p: int)
    requires
        0 <= p <= s.len(),
        byte_len(s) <= usize::MAX,
    ensures
        0 <= byte_offset(s, p) <= usize::MAX,
{
    lemma_byte_span(s, p, s.len() as int);
    assert(s.take(s.len() as int) =~= s);
}

/// The character at `k` of `f` lies in token `t`'s range, by byte index.
pub open spec fn token_holds(t: Token, f: &SourceFile, k: int) -> bool {
    t.range.begin.index <= byte_offset(f.content@, k) <= t.range.end.index
}

/// The tokens that lexing gives cover the text. On every input on which lexing reports no
/// problem, the tokens' ranges come in order of byte index without overlap; a character
/// lies in a token's range only if it is neither blank nor in a comment; and every
/// character that is neither blank nor in a comment lies in the range of exactly one token.
pub proof fn lemma_lexed_tokens_cover(f: &SourceFile, tokens: Seq<Token>)
    requires
        is_lexing_of(f, tokens),
        problem_ids(lex_from(f.content@, 0)).len() == 0,
        byte_len(f.content@) <= usize::MAX,
    ensures
        forall|i: int, j: int|
            0 <= i < j < tokens.len() ==> (#[trigger] tokens[i]).range.end.index
                < (#[trigger] tokens[j]).range.begin.index,
        forall|i: int, k: int|
            0 <= i < tokens.len() && 0 <= k < f.content@.len() && token_holds(
                #[trigger] tokens[i],
                f,
                k,
            ) ==> !is_white_space(#[trigger] f.content@[k]) && !comment_positions(
                f.content@,
                0,
            ).contains(k),
        forall|k: int|
            0 <= k < f.content@.len() && !is_white_space(#[trigger] f.content@[k])
                && !comment_positions(f.content@, 0).contains(k) ==> exists|i: int|
                0 <= i < tokens.len() && token_holds(#[trigger] tokens[i], f, k),
        forall|i: int, j: int, k: int|
            0 <= i < tokens.len() && 0 <= j < tokens.len() && 0 <= k < f.content@.len()
                && #[trigger] token_holds(tokens[i], f, k) && #[trigger] token_holds(tokens[j], f, k)
                ==> i == j,
{
    let s = f.content@;
    let spans = token_spans(lex_from(s, 0));
    lemma_tokens_cover_input(s);
    assert forall|i: int| 0 <= i < tokens.len() implies ({
        &&& (#[trigger] tokens[i]).range.begin.index == byte_offset(s, spans[i].0)
        &&& tokens[i].range.end.index == byte_offset(s, spans[i].1)
        &&& 0 <= spans[i].0 <= spans[i].1 < s.len()
    }) by {
        assert(is_token_at(tokens[i], f, spans[i].0, spans[i].1));
        lemma_byte_offset_fits(s, spans[i].0);
        lemma_byte_offset_fits(s, spans[i].1);
    }
    assert forall|i: int, k: int|
        0 <= i < tokens.len() && 0 <= k < s.len() implies (#[trigger] token_holds(tokens[i], f, k)
        <==> in_span(spans[i], k)) by {
        lemma_byte_offset_strictly_grows(s, spans[i].0, k);
        lemma_byte_offset_strictly_grows(s, k, spans[i].0);
        lemma_byte_offset_strictly_grows(s, spans[i].1, k);
        lemma_byte_offset_strictly_grows(s, k, spans[i].1);
    }
    assert forall|i: int, j: int| 0 <= i < j < tokens.len() implies (#[trigger] tokens[i]).range.end.index
        < (#[trigger] tokens[j]).range.begin.index by {
        assert(spans[i].1 < spans[j].0);
        lemma_byte_offset_strictly_grows(s, spans[i].1, spans[j].0);
    }
    assert forall|i: int, k: int|
        0 <= i < tokens.len() && 0 <= k < s.len() && token_holds(#[trigger] tokens[i], f, k) implies !is_white_space(
        #[trigger] s[k]) && !comment_positions(s, 0).contains(k) by {
        assert(in_span(spans[i], k));
    }
    assert forall|k: int|
        0 <= k < s.len() && !is_white_space(#[trigger] s[k]) && !comment_positions(s, 0).contains(
            k,
        ) implies exists|i: int| 0 <= i < tokens.len() && token_holds(#[trigger] tokens[i], f, k) by {
        let i = choose|i: int| 0 <= i < spans.len() && in_span(#[trigger] spans[i], k);
        assert(token_holds(tokens[i], f, k));
    }
    assert forall|i: int, j: int, k: int|
        0 <= i < tokens.len() && 0 <= j < tokens.len() && 0 <= k < s.len() && #[trigger] token_holds(
            tokens[i],
            f,
            k,
        ) && #[trigger] token_holds(tokens[j], f, k) implies i == j by {
        assert(in_span(spans[i], k) && in_span(spans[j], k));
        if i < j {
            assert(spans[i].1 < spans[j].0);
        } else if j < i {
            assert(spans[j].1 < spans[i].0);
        }
    }
}

} // verus!
