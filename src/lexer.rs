use crate::diagnostic::{Diagnostic, DiagnosticId};
use crate::diagnostic_builder::DiagnosticBuilder;
use crate::diagnostic_consumer::DiagnosticConsumer;
use crate::diagnostic_engine::{
    after_report, after_reports, plain_report, DiagnosticEngine, EngineState,
};
use crate::source_file::SourceFile;
use crate::lexical::{
    is_digit, is_word_start, is_word_char, is_white_space, word_end, digits_end, digits_value,
    line_comment_end, block_comment_end, lemma_word_end, lemma_digits_end, lemma_digits_value_grows,
    Lexeme, lex_from, token_spans, problem_report, problem_reports, location_at, range_at, is_token_at, tokens_over,
    is_lexing_of, lexing_problems, lemma_range_text, lemma_push_token, lemma_push_problem,
    lemma_after_reports_push, lemma_span_ordered, lemma_digits_end_within,
};
use crate::source_location::SourceLocation;
use crate::source_range::SourceRange;
use crate::text::{
    byte_len, byte_offset, char_text, chars_of, column_of, lemma_byte_span,
    lemma_line_column_bounds, line_of, utf8_width,
};
use crate::token::Token;
use vstd::prelude::*;
use vstd::string::{StringExecFns, StringSliceAdditionalSpecFns};
use vstd::utf8::*;

verus! {

#[derive(Debug, Clone, Copy, PartialEq, Eq, Structural, Hash)]
enum LexerState {
    Start,
    Identifier,
    IntegerLiteral,
    IntegerLiteralOverflow,
    AfterSlash,
    LineComment,
    MultiLineComment,
    MultiLineCommentAfterStar,
}

/// Turns the text of a source file into tokens, reporting malformed input.
pub struct Lexer<'a> {
    state: LexerState,
    source_file: &'a SourceFile,
    characters: Vec<char>,
    position: usize,
    line: u32,
    column: u32,
    index: usize,
    token_begin_location: SourceLocation<'a>,
    token_end_location: SourceLocation<'a>,
    queued_tokens: Vec<Token<'a>>,
    token_begin: Ghost<int>,
    emitted: Ghost<Seq<Lexeme>>,
}

impl<'a> Lexer<'a> {
    /// The file being lexed.
    pub closed spec fn file(&self) -> &'a SourceFile {
        self.source_file
    }

    /// Nothing has been lexed yet.
    pub closed spec fn is_fresh(&self) -> bool {
        &&& self.inv()
        &&& self.position == 0
        &&& self.state == LexerState::Start
        &&& self.emitted@.len() == 0
        &&& self.queued_tokens@.len() == 0
    }

    /// All input has been lexed and handed out.
    pub closed spec fn is_done(&self) -> bool {
        &&& self.characters@ == self.text()
        &&& self.position == self.characters@.len()
        &&& self.state != LexerState::AfterSlash
        &&& self.queued_tokens@.len() == 0
    }

    /// A lexer is fresh or done.
    pub closed spec fn wf(&self) -> bool {
        self.is_fresh() || self.is_done()
    }

    spec fn text(&self) -> Seq<char> {
        self.source_file.content@
    }

    spec fn cursor_inv(&self) -> bool {
        let s = self.text();
        &&& self.characters@ == s
        &&& s.len() < u32::MAX
        &&& byte_len(s) <= usize::MAX
        &&& self.position <= s.len()
        &&& self.index == byte_offset(s, self.position as int)
        &&& self.line == line_of(s, self.position as int)
        &&& self.column == column_of(s, self.position as int)
        &&& tokens_over(self.source_file, self.queued_tokens@, token_spans(self.emitted@))
    }

    spec fn state_inv(&self) -> bool {
        let s = self.text();
        let f = self.source_file;
        let p = self.position as int;
        let b = self.token_begin@;
        let done = self.emitted@;
        let all = lex_from(s, 0);
        match self.state {
            LexerState::Start => done + lex_from(s, p) == all,
            LexerState::Identifier => {
                &&& b == p
                &&& p < s.len()
                &&& is_word_start(s[p])
                &&& self.token_begin_location == location_at(f, p)
                &&& done + lex_from(s, p) == all
            },
            LexerState::IntegerLiteral => {
                &&& b == p
                &&& p < s.len()
                &&& is_digit(s[p])
                &&& self.token_begin_location == location_at(f, p)
                &&& done + lex_from(s, p) == all
            },
            LexerState::IntegerLiteralOverflow => {
                &&& 0 <= b < p < s.len()
                &&& is_digit(s[p])
                &&& (forall|k: int| b <= k < p ==> is_digit(#[trigger] s[k]))
                &&& digits_value(s, b, p + 1) > u32::MAX
                &&& self.token_begin_location == location_at(f, b)
                &&& self.token_end_location == location_at(f, p - 1)
                &&& done + lex_from(s, b) == all
            },
            LexerState::AfterSlash => {
                &&& 0 <= b
                &&& p == b + 1
                &&& s[b] == '/'
                &&& self.token_begin_location == location_at(f, b)
                &&& done + lex_from(s, b) == all
            },
            LexerState::LineComment => done + lex_from(s, line_comment_end(s, p)) == all,
            LexerState::MultiLineComment => done + lex_from(s, block_comment_end(s, p)) == all,
            LexerState::MultiLineCommentAfterStar => {
                &&& 1 <= p
                &&& s[p - 1] == '*'
                &&& done + lex_from(s, block_comment_end(s, p - 1)) == all
            },
        }
    }

    spec fn inv(&self) -> bool {
        self.cursor_inv() && self.state_inv()
    }

    spec fn rank(&self) -> int {
        match self.state {
            LexerState::Start => 1,
            LexerState::AfterSlash => 2,
            _ => 0,
        }
    }

    /// Decreases with every step of the state machine.
    spec fn progress(&self) -> int {
        3 * (self.characters@.len() - self.position) + self.rank()
    }

    /// A lexer over `source_file`, at its start. Lines and columns are `u32`, so the
    /// content must have fewer than `u32::MAX` characters.
    pub fn new(source_file: &'a SourceFile) -> (r: Self)
        requires
            source_file.content@.len() < u32::MAX,
        ensures
            r.file() == source_file,
            r.is_fresh(),
            r.wf(),
            r.is_finished_spec() == (source_file.content@.len() == 0),
    {
        let content = source_file.content.as_str();
        let byte_count = content.as_bytes().len();
        let characters = chars_of(content);
        let r = Lexer {
            state: LexerState::Start,
            source_file,
            characters,
            position: 0,
            line: 1,
            column: 1,
            index: 0,
            token_begin_location: SourceLocation::invalid(),
            token_end_location: SourceLocation::invalid(),
            queued_tokens: Vec::new(),
            token_begin: Ghost(0),
            emitted: Ghost(Seq::empty()),
        };
        proof {
            let s = source_file.content@;
            assert(s.take(0) =~= Seq::<char>::empty());
            assert(byte_len(s) == byte_count);
            assert(Seq::<Lexeme>::empty() + lex_from(s, 0) =~= lex_from(s, 0));
        }
        r
    }

    /// All input has been read.
    pub closed spec fn is_finished_spec(&self) -> bool {
        self.position >= self.characters@.len()
    }

    /// All input has been read.
    pub fn is_finished(&self) -> (r: bool)
        ensures
            r == self.is_finished_spec(),
    {
        self.position >= self.characters.len()
    }

    fn peek_next(&self) -> (r: Option<char>)
        ensures
            self.position < self.characters@.len() ==> r == Some(self.characters@[self.position as int]),
            self.position >= self.characters@.len() ==> r is None,
    {
        if self.position < self.characters.len() {
            Some(self.characters[self.position])
        } else {
            None
        }
    }

    /// Moves over the next character; the caller deals with a line break.
    fn consume_character(&mut self)
        requires
            old(self).cursor_inv(),
            old(self).position < old(self).characters@.len(),
        ensures
            final(self).position == old(self).position + 1,
            final(self).index == byte_offset(old(self).text(), old(self).position + 1),
            final(self).column == old(self).column + 1,
            final(self).line == old(self).line,
            final(self).state == old(self).state,
            final(self).source_file == old(self).source_file,
            final(self).characters == old(self).characters,
            final(self).queued_tokens == old(self).queued_tokens,
            final(self).emitted == old(self).emitted,
            final(self).token_begin == old(self).token_begin,
            final(self).token_begin_location == old(self).token_begin_location,
            final(self).token_end_location == old(self).token_end_location,
    {
        let current_character = self.characters[self.position];
        proof {
            let s = self.text();
            let p = self.position as int;
            crate::text::lemma_byte_offset_step(s, p);
            lemma_byte_span(s, p + 1, s.len() as int);
            assert(s.take(s.len() as int) =~= s);
            lemma_line_column_bounds(s, p);
        }
        self.column = self.column + 1;
        self.index = self.index + utf8_width(current_character);
        self.position = self.position + 1;
    }

    /// Moves over a line break.
    fn consume_line_break(&mut self)
        requires
            old(self).cursor_inv(),
            old(self).position < old(self).characters@.len(),
            old(self).characters@[old(self).position as int] == '\n',
        ensures
            final(self).cursor_inv(),
            final(self).position == old(self).position + 1,
            final(self).state == old(self).state,
            final(self).source_file == old(self).source_file,
            final(self).characters == old(self).characters,
            final(self).queued_tokens == old(self).queued_tokens,
            final(self).emitted == old(self).emitted,
            final(self).token_begin == old(self).token_begin,
            final(self).token_begin_location == old(self).token_begin_location,
            final(self).token_end_location == old(self).token_end_location,
    {
        proof {
            lemma_line_column_bounds(self.text(), self.position as int);
        }
        self.consume_character();
        self.line = self.line + 1;
        self.column = 1;
    }

    /// Moves over a character that is not a line break.
    fn consume_other(&mut self)
        requires
            old(self).cursor_inv(),
            old(self).position < old(self).characters@.len(),
            old(self).characters@[old(self).position as int] != '\n',
        ensures
            final(self).cursor_inv(),
            final(self).position == old(self).position + 1,
            final(self).state == old(self).state,
            final(self).source_file == old(self).source_file,
            final(self).characters == old(self).characters,
            final(self).queued_tokens == old(self).queued_tokens,
            final(self).emitted == old(self).emitted,
            final(self).token_begin == old(self).token_begin,
            final(self).token_begin_location == old(self).token_begin_location,
            final(self).token_end_location == old(self).token_end_location,
    {
        self.consume_character();
    }

    /// The location of the next character.
    fn current_location(&self) -> (r: SourceLocation<'a>)
        requires
            self.cursor_inv(),
            self.position < self.characters@.len(),
            self.characters@[self.position as int] != '\n',
            self.characters@[self.position as int] != '\r',
        ensures
            r == location_at(self.source_file, self.position as int),
    {
        proof {
            let s = self.text();
            let p = self.position as int;
            lemma_line_column_bounds(s, p);
            lemma_byte_span(s, p, p + 1);
            lemma_byte_span(s, p + 1, s.len() as int);
            assert(s.take(s.len() as int) =~= s);
            assert(crate::text::names_character(s, line_of(s, p), column_of(s, p)));
        }
        SourceLocation::new(self.source_file, self.index, self.line, self.column)
    }

    /// Reports a problem over `source_range`.
    fn diagnostic<C: DiagnosticConsumer>(
        &self,
        engine: &mut DiagnosticEngine<C>,
        id: DiagnosticId,
        source_range: SourceRange<'a>,
        message: String,
    )
        ensures
            final(engine)@ == after_report(old(engine)@, plain_report(id, source_range, message@)),
            final(engine).consumer_spec() == old(engine).consumer_spec(),
    {
        let diagnostic = Diagnostic::new(id, source_range, message);
        assert(crate::diagnostic_engine::notes_view(diagnostic.notes@) =~= Seq::empty());
        DiagnosticBuilder::new(diagnostic).emit(engine);
    }

    /// Reports a problem at the next character.
    fn diagnostic_here<C: DiagnosticConsumer>(
        &self,
        engine: &mut DiagnosticEngine<C>,
        id: DiagnosticId,
        message: String,
    )
        requires
            self.cursor_inv(),
            self.position < self.characters@.len(),
            self.characters@[self.position as int] != '\n',
            self.characters@[self.position as int] != '\r',
        ensures
            final(engine)@ == after_report(
                old(engine)@,
                plain_report(
                    id,
                    range_at(self.source_file, self.position as int, self.position as int),
                    message@,
                ),
            ),
            final(engine).consumer_spec() == old(engine).consumer_spec(),
    {
        let location = self.current_location();
        self.diagnostic(engine, id, SourceRange::from_location(location), message);
    }

    /// Queues a token over positions `b` through `e`.
    fn push_token(&mut self, token: Token<'a>, Ghost(b): Ghost<int>, Ghost(e): Ghost<int>)
        requires
            old(self).cursor_inv(),
            is_token_at(token, old(self).source_file, b, e),
        ensures
            final(self).cursor_inv(),
            final(self).emitted@ == old(self).emitted@.push(Lexeme::Token { begin: b, end: e }),
            problem_reports(final(self).source_file, final(self).emitted@) == problem_reports(
                old(self).source_file,
                old(self).emitted@,
            ),
            final(self).position == old(self).position,
            final(self).state == old(self).state,
            final(self).source_file == old(self).source_file,
            final(self).token_begin == old(self).token_begin,
            final(self).token_begin_location == old(self).token_begin_location,
            final(self).token_end_location == old(self).token_end_location,
    {
        proof {
            lemma_push_token(self.source_file, self.emitted@, b, e);
        }
        self.queued_tokens.push(token);
        self.emitted = Ghost(self.emitted@.push(Lexeme::Token { begin: b, end: e }));
        assert(tokens_over(self.source_file, self.queued_tokens@, token_spans(self.emitted@)));
    }

    /// Records a problem over positions `b` through `e`, already reported to the engine.
    fn record_problem(&mut self, Ghost(id): Ghost<DiagnosticId>, Ghost(b): Ghost<int>, Ghost(e): Ghost<int>)
        requires
            old(self).cursor_inv(),
        ensures
            final(self).cursor_inv(),
            final(self).emitted@ == old(self).emitted@.push(Lexeme::Problem { id, begin: b, end: e }),
            problem_reports(final(self).source_file, final(self).emitted@) == problem_reports(
                old(self).source_file,
                old(self).emitted@,
            ).push(problem_report(old(self).source_file, id, b, e)),
            final(self).position == old(self).position,
            final(self).state == old(self).state,
            final(self).source_file == old(self).source_file,
            final(self).token_begin == old(self).token_begin,
            final(self).token_begin_location == old(self).token_begin_location,
            final(self).token_end_location == old(self).token_end_location,
    {
        proof {
            lemma_push_problem(self.source_file, self.emitted@, id, b, e);
        }
        self.emitted = Ghost(self.emitted@.push(Lexeme::Problem { id, begin: b, end: e }));
    }

    /// One step from the start state: skip blank space, begin a word, a number or a
    /// slash, emit a punctuation token, or report a stray character.
    fn lex_start<C: DiagnosticConsumer>(
        &mut self,
        engine: &mut DiagnosticEngine<C>,
        Ghost(e0): Ghost<EngineState>,
    )
        requires
            old(self).inv(),
            old(self).state == LexerState::Start,
            old(self).position < old(self).characters@.len(),
            old(engine)@ == after_reports(e0, problem_reports(old(self).source_file, old(self).emitted@)),
        ensures
            final(self).inv(),
            final(self).progress() < old(self).progress(),
            final(self).source_file == old(self).source_file,
            final(engine)@ == after_reports(e0, problem_reports(final(self).source_file, final(self).emitted@)),
            final(engine).consumer_spec() == old(engine).consumer_spec(),
    {
        let ghost s = self.text();
        let ghost f = self.source_file;
        let ghost p = self.position as int;
        let ghost done = self.emitted@;
        let c = self.characters[self.position];
        if c == '\n' {
            self.consume_line_break();
        } else if is_white_space_character(c) {
            self.consume_other();
        } else if is_word_start_character(c) {
            self.token_begin_location = self.current_location();
            self.token_begin = Ghost(p);
            self.state = LexerState::Identifier;
        } else if is_digit_character(c) {
            self.token_begin_location = self.current_location();
            self.token_begin = Ghost(p);
            self.state = LexerState::IntegerLiteral;
        } else if c == '/' {
            self.token_begin_location = self.current_location();
            self.token_begin = Ghost(p);
            self.consume_other();
            self.state = LexerState::AfterSlash;
        } else if c == '(' || c == ')' || c == '{' || c == '}' || c == ';' {
            let location = self.current_location();
            let range = SourceRange::from_location(location);
            proof {
                lemma_range_text(f, p, p);
                assert(s.subrange(p, p + 1) =~= seq![c]);
            }
            let token = if c == '(' {
                Token::new_left_parenthesis(range)
            } else if c == ')' {
                Token::new_right_parenthesis(range)
            } else if c == '{' {
                Token::new_left_brace(range)
            } else if c == '}' {
                Token::new_right_brace(range)
            } else {
                Token::new_semicolon(range)
            };
            self.push_token(token, Ghost(p), Ghost(p));
            self.consume_other();
            assert(done.push(Lexeme::Token { begin: p, end: p }) + lex_from(s, p + 1) =~= done
                + lex_from(s, p));
        } else if c == '\0' {
            self.diagnostic_here(
                engine,
                DiagnosticId::NullCharacter,
                String::from_str("null character ignored"),
            );
            proof {
                lemma_after_reports_push(
                    e0,
                    problem_reports(f, done),
                    problem_report(f, DiagnosticId::NullCharacter, p, p),
                );
            }
            self.record_problem(Ghost(DiagnosticId::NullCharacter), Ghost(p), Ghost(p));
            self.consume_other();
            assert(done.push(Lexeme::Problem { id: DiagnosticId::NullCharacter, begin: p, end: p })
                + lex_from(s, p + 1) =~= done + lex_from(s, p));
        } else {
            let mut message = String::from_str("unexpected character '");
            let shown = char_text(c);
            message.append(shown.as_str());
            message.append("' found");
            self.diagnostic_here(engine, DiagnosticId::UnexpectedCharacter, message);
            proof {
                lemma_after_reports_push(
                    e0,
                    problem_reports(f, done),
                    problem_report(f, DiagnosticId::UnexpectedCharacter, p, p),
                );
            }
            self.record_problem(Ghost(DiagnosticId::UnexpectedCharacter), Ghost(p), Ghost(p));
            self.consume_other();
            assert(done.push(
                Lexeme::Problem { id: DiagnosticId::UnexpectedCharacter, begin: p, end: p },
            ) + lex_from(s, p + 1) =~= done + lex_from(s, p));
        }
    }

    fn next_is_word_character(&self) -> (r: bool)
        ensures
            r == (self.position < self.characters@.len() && is_word_char(
                self.characters@[self.position as int],
            )),
    {
        self.position < self.characters.len() && is_word_character(self.characters[self.position])
    }

    fn next_is_digit(&self) -> (r: bool)
        ensures
            r == (self.position < self.characters@.len() && is_digit(
                self.characters@[self.position as int],
            )),
    {
        self.position < self.characters.len() && is_digit_character(self.characters[self.position])
    }

    /// Reads a whole word and emits its token.
    fn lex_identifier(&mut self)
        requires
            old(self).inv(),
            old(self).state == LexerState::Identifier,
        ensures
            final(self).inv(),
            final(self).progress() < old(self).progress(),
            final(self).source_file == old(self).source_file,
            problem_reports(final(self).source_file, final(self).emitted@) == problem_reports(
                old(self).source_file,
                old(self).emitted@,
            ),
    {
        let ghost s = self.text();
        let ghost f = self.source_file;
        let ghost b = self.position as int;
        let ghost done = self.emitted@;
        proof {
            lemma_word_end(s, b);
        }
        while self.next_is_word_character()
            invariant
                self.cursor_inv(),
                self.source_file == f,
                self.text() == s,
                self.emitted@ == done,
                self.state == LexerState::Identifier,
                self.token_begin@ == b,
                self.token_begin_location == location_at(f, b),
                b <= self.position <= word_end(s, b),
                self.position > b ==> self.token_end_location == location_at(
                    f,
                    self.position - 1,
                ),
                forall|k: int| b <= k < word_end(s, b) ==> is_word_char(#[trigger] s[k]),
                word_end(s, b) <= s.len(),
                word_end(s, b) < s.len() ==> !is_word_char(s[word_end(s, b)]),
            decreases self.characters@.len() - self.position,
        {
            self.token_end_location = self.current_location();
            self.consume_other();
        }
        let ghost q = self.position as int;
        proof {
            if q < word_end(s, b) {
                assert(is_word_char(s[q]));
            }
            assert(s[b] == self.characters@[b]);
            lemma_span_ordered(f, b, q - 1);
            lemma_range_text(f, b, q - 1);
            assert(s.subrange(b, q) == s.subrange(b, (q - 1) + 1));
            encode_utf8_decode_utf8(s.subrange(b, q));
        }
        let range = SourceRange::new(self.token_begin_location, self.token_end_location);
        let token = Token::new_identifier(range);
        self.push_token(token, Ghost(b), Ghost(q - 1));
        self.state = LexerState::Start;
        assert(done.push(Lexeme::Token { begin: b, end: q - 1 }) + lex_from(s, q) =~= done
            + lex_from(s, b));
    }

    /// Reads a run of digits; emits its token, or moves on to the overflow state when the
    /// value does not fit in `u32`.
    fn lex_integer_literal(&mut self)
        requires
            old(self).inv(),
            old(self).state == LexerState::IntegerLiteral,
        ensures
            final(self).inv(),
            final(self).progress() < old(self).progress(),
            final(self).source_file == old(self).source_file,
            problem_reports(final(self).source_file, final(self).emitted@) == problem_reports(
                old(self).source_file,
                old(self).emitted@,
            ),
    {
        let ghost s = self.text();
        let ghost f = self.source_file;
        let ghost b = self.position as int;
        let ghost done = self.emitted@;
        proof {
            lemma_digits_end(s, b);
        }
        let mut value: u32 = 0;
        let mut overflow = false;
        while !overflow && self.next_is_digit()
            invariant
                self.cursor_inv(),
                self.source_file == f,
                self.text() == s,
                self.emitted@ == done,
                self.state == LexerState::IntegerLiteral,
                self.token_begin@ == b,
                self.token_begin_location == location_at(f, b),
                b <= self.position <= digits_end(s, b),
                self.position > b ==> self.token_end_location == location_at(
                    f,
                    self.position - 1,
                ),
                forall|k: int| b <= k < digits_end(s, b) ==> is_digit(#[trigger] s[k]),
                digits_end(s, b) <= s.len(),
                digits_end(s, b) < s.len() ==> !is_digit(s[digits_end(s, b)]),
                !overflow ==> value == digits_value(s, b, self.position as int),
                overflow ==> {
                    &&& b < self.position < s.len()
                    &&& is_digit(s[self.position as int])
                    &&& digits_value(s, b, self.position + 1) > u32::MAX
                },
            decreases self.characters@.len() - self.position + (if overflow {
                0int
            } else {
                1int
            }),
        {
            let c = self.characters[self.position];
            let digit = c as u32 - 0x30;
            match value.checked_mul(10) {
                Some(scaled) => match scaled.checked_add(digit) {
                    Some(next) => {
                        value = next;
                        self.token_end_location = self.current_location();
                        self.consume_other();
                    },
                    None => {
                        overflow = true;
                    },
                },
                None => {
                    overflow = true;
                },
            }
        }
        if overflow {
            self.state = LexerState::IntegerLiteralOverflow;
        } else {
            let ghost q = self.position as int;
            proof {
                if q < digits_end(s, b) {
                    assert(is_digit(s[q]));
                }
                assert(s[b] == self.characters@[b]);
                lemma_span_ordered(f, b, q - 1);
            }
            let range = SourceRange::new(self.token_begin_location, self.token_end_location);
            let token = Token::new_integer_literal(value, range);
            self.push_token(token, Ghost(b), Ghost(q - 1));
            self.state = LexerState::Start;
            assert(done.push(Lexeme::Token { begin: b, end: q - 1 }) + lex_from(s, q) =~= done
                + lex_from(s, b));
        }
    }

    /// Reads the rest of a run of digits too large for `u32` and reports it.
    fn lex_integer_overflow<C: DiagnosticConsumer>(
        &mut self,
        engine: &mut DiagnosticEngine<C>,
        Ghost(e0): Ghost<EngineState>,
    )
        requires
            old(self).inv(),
            old(self).state == LexerState::IntegerLiteralOverflow,
            old(engine)@ == after_reports(e0, problem_reports(old(self).source_file, old(self).emitted@)),
        ensures
            final(self).inv(),
            final(self).progress() < old(self).progress(),
            final(self).source_file == old(self).source_file,
            final(engine)@ == after_reports(e0, problem_reports(final(self).source_file, final(self).emitted@)),
            final(engine).consumer_spec() == old(engine).consumer_spec(),
    {
        let ghost s = self.text();
        let ghost f = self.source_file;
        let ghost b = self.token_begin@;
        let ghost first = self.position as int;
        let ghost done = self.emitted@;
        proof {
            lemma_digits_end(s, first);
            lemma_digits_end(s, b);
            lemma_digits_end_within(s, b, first);
        }
        while self.next_is_digit()
            invariant
                self.cursor_inv(),
                self.source_file == f,
                self.text() == s,
                self.emitted@ == done,
                self.state == LexerState::IntegerLiteralOverflow,
                self.token_begin@ == b,
                self.token_begin_location == location_at(f, b),
                0 <= b < first <= self.position <= digits_end(s, first),
                self.token_end_location == location_at(f, self.position - 1),
                forall|k: int| first <= k < digits_end(s, first) ==> is_digit(#[trigger] s[k]),
                digits_end(s, first) <= s.len(),
                digits_end(s, first) < s.len() ==> !is_digit(s[digits_end(s, first)]),
            decreases self.characters@.len() - self.position,
        {
            self.token_end_location = self.current_location();
            self.consume_other();
        }
        let ghost q = self.position as int;
        proof {
            if q < digits_end(s, first) {
                assert(is_digit(s[q]));
            }
            assert(s[first] == self.characters@[first]);
            assert(forall|k: int| b <= k < q ==> is_digit(#[trigger] s[k]));
            lemma_digits_value_grows(s, b, first + 1, q);
            lemma_span_ordered(f, b, q - 1);
            lemma_after_reports_push(
                e0,
                problem_reports(f, done),
                problem_report(f, DiagnosticId::IntegerLiteralTooLarge, b, q - 1),
            );
        }
        let range = SourceRange::new(self.token_begin_location, self.token_end_location);
        self.diagnostic(
            engine,
            DiagnosticId::IntegerLiteralTooLarge,
            range,
            String::from_str("integer literal is too large"),
        );
        self.record_problem(Ghost(DiagnosticId::IntegerLiteralTooLarge), Ghost(b), Ghost(q - 1));
        self.state = LexerState::Start;
        assert(done.push(
            Lexeme::Problem { id: DiagnosticId::IntegerLiteralTooLarge, begin: b, end: q - 1 },
        ) + lex_from(s, q) =~= done + lex_from(s, b));
    }

    /// After a slash: a comment begins, or the slash is a token of its own.
    fn lex_after_slash(&mut self)
        requires
            old(self).inv(),
            old(self).state == LexerState::AfterSlash,
        ensures
            final(self).inv(),
            final(self).progress() < old(self).progress(),
            final(self).source_file == old(self).source_file,
            problem_reports(final(self).source_file, final(self).emitted@) == problem_reports(
                old(self).source_file,
                old(self).emitted@,
            ),
    {
        let ghost s = self.text();
        let ghost f = self.source_file;
        let ghost b = self.token_begin@;
        let ghost done = self.emitted@;
        match self.peek_next() {
            Some('/') => {
                self.consume_other();
                self.state = LexerState::LineComment;
            },
            Some('*') => {
                self.consume_other();
                self.state = LexerState::MultiLineComment;
            },
            _ => {
                let range = SourceRange::from_location(self.token_begin_location);
                proof {
                    lemma_range_text(f, b, b);
                    assert(s.subrange(b, b + 1) =~= seq!['/']);
                }
                let token = Token::new_slash(range);
                self.push_token(token, Ghost(b), Ghost(b));
                self.state = LexerState::Start;
                assert(done.push(Lexeme::Token { begin: b, end: b }) + lex_from(s, b + 1) =~= done
                    + lex_from(s, b));
            },
        }
    }

    /// Inside a line comment: the line break ends it.
    fn lex_line_comment(&mut self)
        requires
            old(self).inv(),
            old(self).state == LexerState::LineComment,
            old(self).position < old(self).characters@.len(),
        ensures
            final(self).inv(),
            final(self).progress() < old(self).progress(),
            final(self).source_file == old(self).source_file,
            final(self).emitted == old(self).emitted,
    {
        if self.characters[self.position] == '\n' {
            self.consume_line_break();
            self.state = LexerState::Start;
        } else {
            self.consume_other();
        }
    }

    /// Inside a block comment: a star may begin its end.
    fn lex_multi_line_comment(&mut self)
        requires
            old(self).inv(),
            old(self).state == LexerState::MultiLineComment,
            old(self).position < old(self).characters@.len(),
        ensures
            final(self).inv(),
            final(self).progress() < old(self).progress(),
            final(self).source_file == old(self).source_file,
            final(self).emitted == old(self).emitted,
    {
        let c = self.characters[self.position];
        proof {
            let s = self.text();
            let p = self.position as int;
            if c != '*' {
                assert(block_comment_end(s, p) == block_comment_end(s, p + 1));
            }
        }
        if c == '*' {
            self.consume_other();
            self.state = LexerState::MultiLineCommentAfterStar;
        } else if c == '\n' {
            self.consume_line_break();
        } else {
            self.consume_other();
        }
    }

    /// Inside a block comment, after a star: a slash ends the comment.
    fn lex_multi_line_comment_after_star(&mut self)
        requires
            old(self).inv(),
            old(self).state == LexerState::MultiLineCommentAfterStar,
            old(self).position < old(self).characters@.len(),
        ensures
            final(self).inv(),
            final(self).progress() < old(self).progress(),
            final(self).source_file == old(self).source_file,
            final(self).emitted == old(self).emitted,
    {
        let c = self.characters[self.position];
        proof {
            let s = self.text();
            let p = self.position as int;
            if c != '/' {
                assert(block_comment_end(s, p - 1) == block_comment_end(s, p));
                if c != '*' {
                    assert(block_comment_end(s, p) == block_comment_end(s, p + 1));
                }
            }
        }
        if c == '/' {
            self.consume_other();
            self.state = LexerState::Start;
        } else if c == '\n' {
            self.consume_line_break();
            self.state = LexerState::MultiLineComment;
        } else if c == '*' {
            self.consume_other();
        } else {
            self.consume_other();
            self.state = LexerState::MultiLineComment;
        }
    }

    /// One step of the state machine.
    fn advance_state_machine<C: DiagnosticConsumer>(
        &mut self,
        engine: &mut DiagnosticEngine<C>,
        Ghost(e0): Ghost<EngineState>,
    )
        requires
            old(self).inv(),
            old(self).position < old(self).characters@.len() || old(self).state
                == LexerState::AfterSlash,
            old(engine)@ == after_reports(e0, problem_reports(old(self).source_file, old(self).emitted@)),
        ensures
            final(self).inv(),
            final(self).progress() < old(self).progress(),
            final(self).source_file == old(self).source_file,
            final(engine)@ == after_reports(e0, problem_reports(final(self).source_file, final(self).emitted@)),
            final(engine).consumer_spec() == old(engine).consumer_spec(),
    {
        match self.state {
            LexerState::Start => self.lex_start(engine, Ghost(e0)),
            LexerState::Identifier => self.lex_identifier(),
            LexerState::IntegerLiteral => self.lex_integer_literal(),
            LexerState::IntegerLiteralOverflow => self.lex_integer_overflow(engine, Ghost(e0)),
            LexerState::AfterSlash => self.lex_after_slash(),
            LexerState::LineComment => self.lex_line_comment(),
            LexerState::MultiLineComment => self.lex_multi_line_comment(),
            LexerState::MultiLineCommentAfterStar => self.lex_multi_line_comment_after_star(),
        }
    }

    /// Lexes the whole input and hands out its tokens, reporting problems to `engine`. A
    /// fresh lexer gives exactly what lexing its file gives; afterwards it is done, and a
    /// done lexer gives nothing more.
    pub fn tokenize<C: DiagnosticConsumer>(&mut self, engine: &mut DiagnosticEngine<C>) -> (r: Vec<
        Token<'a>,
    >)
        requires
            old(self).wf(),
        ensures
            final(self).wf(),
            final(self).is_done(),
            final(self).is_finished_spec(),
            final(self).file() == old(self).file(),
            final(engine).consumer_spec() == old(engine).consumer_spec(),
            old(self).is_fresh() ==> is_lexing_of(old(self).file(), r@),
            old(self).is_fresh() ==> final(engine)@ == after_reports(
                old(engine)@,
                lexing_problems(old(self).file()),
            ),
            !old(self).is_fresh() ==> r@.len() == 0 && final(engine)@ == old(engine)@,
    {
        if self.is_finished() && self.state != LexerState::AfterSlash {
            proof {
                if self.is_fresh() {
                    assert(self.text().len() == 0);
                }
            }
            return Vec::new();
        }
        let ghost e0 = engine@;
        let ghost f = self.source_file;
        while !self.is_finished() || self.state == LexerState::AfterSlash
            invariant
                self.inv(),
                self.source_file == f,
                engine@ == after_reports(e0, problem_reports(self.source_file, self.emitted@)),
                engine.consumer_spec() == old(engine).consumer_spec(),
            decreases self.progress(),
        {
            self.advance_state_machine(engine, Ghost(e0));
        }
        proof {
            let s = self.text();
            let n = s.len() as int;
            assert(self.emitted@ + lex_from(s, n) =~= self.emitted@);
        }
        let mut tokens: Vec<Token<'a>> = Vec::new();
        std::mem::swap(&mut tokens, &mut self.queued_tokens);
        tokens
    }
}

/// Whether `c` is blank (see `is_white_space`).
pub fn is_white_space_character(c: char) -> (r: bool)
    ensures
        r == is_white_space(c),
{
    let v = c as u32;
    (0x09 <= v && v <= 0x0D) || v == 0x20 || v == 0x85 || v == 0xA0 || v == 0x1680 || (0x2000
        <= v && v <= 0x200A) || v == 0x2028 || v == 0x2029 || v == 0x202F || v == 0x205F || v
        == 0x3000
}

/// Whether `c` is an ASCII decimal digit.
pub fn is_digit_character(c: char) -> (r: bool)
    ensures
        r == is_digit(c),
{
    let v = c as u32;
    0x30 <= v && v <= 0x39
}

/// Whether `c` can begin a word.
pub fn is_word_start_character(c: char) -> (r: bool)
    ensures
        r == is_word_start(c),
{
    let v = c as u32;
    (0x41 <= v && v <= 0x5A) || (0x61 <= v && v <= 0x7A) || c == '_'
}

/// Whether `c` can continue a word.
pub fn is_word_character(c: char) -> (r: bool)
    ensures
        r == is_word_char(c),
{
    is_word_start_character(c) || is_digit_character(c)
}

} // verus!
