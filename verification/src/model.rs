//! The scanner as a mathematical state machine.
//!
//! A [`ScannerView`] is the state of a scan with its texts as sequences of
//! characters. Each rule of the scanner is a function from state to state;
//! the methods of the scanner are proved to compute exactly these functions.

use vstd::prelude::*;
use crate::chars::{
    all_digits, is_alpha_char, is_digit_char, is_numeral, lemma_newlines_bound, lemma_run_end,
    newlines, run_end, CharClass,
};
use crate::diagnostics::{unexpected_character_message, unterminated_string_message, ReportView};
use crate::token::{LiteralView, TokenType, TokenView};

verus! {

/// The reserved words, each with the kind of its token.
pub open spec fn keyword_table() -> Map<Seq<char>, TokenType> {
    Map::<Seq<char>, TokenType>::empty().insert("and"@, TokenType::And).insert(
        "class"@,
        TokenType::Class,
    ).insert("else"@, TokenType::Else).insert("false"@, TokenType::False).insert(
        "for"@,
        TokenType::For,
    ).insert("fun"@, TokenType::Fun).insert("if"@, TokenType::If).insert(
        "nil"@,
        TokenType::Nil,
    ).insert("or"@, TokenType::Or).insert("print"@, TokenType::Print).insert(
        "return"@,
        TokenType::Return,
    ).insert("super"@, TokenType::Super).insert("this"@, TokenType::This).insert(
        "true"@,
        TokenType::True,
    ).insert("var"@, TokenType::Var).insert("while"@, TokenType::While)
}

/// The kind of the token that a word makes: that of the reserved word it
/// spells, or `Identifier` when it spells none. The whole word is compared.
pub open spec fn word_kind(word: Seq<char>) -> TokenType {
    if keyword_table().contains_key(word) {
        keyword_table()[word]
    } else {
        TokenType::Identifier
    }
}

/// The literal that a word carries: a boolean for `true` and `false`, else none.
pub open spec fn word_literal(kind: TokenType) -> LiteralView {
    if kind == TokenType::True {
        LiteralView::Boolean(true)
    } else if kind == TokenType::False {
        LiteralView::Boolean(false)
    } else {
        LiteralView::Nil
    }
}

/// The state of a scan.
pub struct ScannerView {
    /// The text being scanned.
    pub source: Seq<char>,
    /// The table that words are looked up in.
    pub keywords: Map<Seq<char>, TokenType>,
    /// The tokens emitted so far.
    pub tokens: Seq<TokenView>,
    /// The reports made so far.
    pub reports: Seq<ReportView>,
    /// Where the lexeme under construction begins.
    pub start: int,
    /// The next character to inspect.
    pub current: int,
    /// One more than the number of line feeds consumed.
    pub line: int,
}

impl ScannerView {
    /// The state before anything of `source` is read.
    pub open spec fn fresh(source: Seq<char>) -> ScannerView {
        ScannerView {
            source,
            keywords: keyword_table(),
            tokens: Seq::empty(),
            reports: Seq::empty(),
            start: 0,
            current: 0,
            line: 1,
        }
    }

    /// The table holds the reserved words and nothing else, the cursor lies
    /// inside the text, not before the start of the lexeme, and the line
    /// counter can take every line feed that is still to come.
    pub open spec fn wf(self) -> bool {
        &&& self.keywords == keyword_table()
        &&& 0 <= self.start <= self.current <= self.source.len()
        &&& 1 <= self.line
        &&& self.line + (self.source.len() - self.current) <= i32::MAX
    }

    /// Nothing is left to read.
    pub open spec fn at_end(self) -> bool {
        self.current >= self.source.len()
    }

    /// The next character, or NUL at the end of the text.
    pub open spec fn peek(self) -> char {
        if self.at_end() {
            '\0'
        } else {
            self.source[self.current]
        }
    }

    /// The character after the next, or NUL where the text has none.
    pub open spec fn peek_next(self) -> char {
        if self.current + 1 >= self.source.len() {
            '\0'
        } else {
            self.source[self.current + 1]
        }
    }

    /// The text of the lexeme under construction.
    pub open spec fn lexeme(self) -> Seq<char> {
        self.source.subrange(self.start, self.current)
    }

    /// The lexeme under construction is a non-empty run of digits.
    pub open spec fn in_number(self) -> bool {
        self.start < self.current && all_digits(self.lexeme())
    }

    /// The state with the cursor at `position`.
    pub open spec fn at(self, position: int) -> ScannerView {
        ScannerView { current: position, ..self }
    }

    /// The state after the next character is consumed.
    pub open spec fn advance(self) -> ScannerView {
        self.at(self.current + 1)
    }

    /// Whether the next character is there and is `expected`.
    pub open spec fn next_is(self, expected: char) -> bool {
        !self.at_end() && self.source[self.current] == expected
    }

    /// The state after `expected` is consumed if it comes next.
    pub open spec fn match_char(self, expected: char) -> ScannerView {
        if self.next_is(expected) {
            self.advance()
        } else {
            self
        }
    }

    /// The state with a new lexeme beginning at the cursor.
    pub open spec fn begin(self) -> ScannerView {
        ScannerView { start: self.current, ..self }
    }

    /// The state after one line feed more is counted.
    pub open spec fn next_line(self) -> ScannerView {
        ScannerView { line: self.line + 1, ..self }
    }

    /// The state after a token of the lexeme under construction is emitted,
    /// on the current line.
    pub open spec fn emit(self, kind: TokenType, literal: LiteralView) -> ScannerView {
        ScannerView {
            tokens: self.tokens.push(
                TokenView { kind, lexeme: self.lexeme(), literal, line: self.line },
            ),
            ..self
        }
    }

    /// The state after `message` is reported at the current line.
    pub open spec fn complain(self, message: Seq<char>) -> ScannerView {
        ScannerView {
            reports: self.reports.push(
                ReportView { line: self.line, location: Seq::empty(), message },
            ),
            ..self
        }
    }

    /// The state after a one- or two-character operator: `long` when `=`
    /// follows, which is then consumed, else `short`.
    pub open spec fn operator(self, long: TokenType, short: TokenType) -> ScannerView {
        if self.next_is('=') {
            self.advance().emit(long, LiteralView::Nil)
        } else {
            self.emit(short, LiteralView::Nil)
        }
    }

    /// The string literal rule, applied behind the opening quote.
    ///
    /// The literal runs to the next double quote and may cross lines. Its
    /// value is the text between the quotes, taken as it stands. The token
    /// carries the line on which the literal opens; the line counter moves on
    /// by the line feeds inside it. Where no quote follows, the rest of the
    /// text is consumed, nothing is emitted, and the report carries the line
    /// on which the text ends.
    pub open spec fn string(self) -> ScannerView {
        let close = run_end(self.source, self.current, CharClass::StringBody);
        let line = self.line + newlines(self.source.subrange(self.current, close));
        if close >= self.source.len() {
            ScannerView { current: close, line, ..self }.complain(unterminated_string_message())
        } else {
            ScannerView {
                current: close + 1,
                line,
                tokens: self.tokens.push(
                    TokenView {
                        kind: TokenType::String,
                        lexeme: self.source.subrange(self.start, close + 1),
                        literal: LiteralView::String(self.source.subrange(self.start + 1, close)),
                        line: self.line,
                    },
                ),
                ..self
            }
        }
    }

    /// Where the numeral that is being read ends: behind its digits, or,
    /// where a dot and a digit follow them, behind the digits after the dot.
    pub open spec fn number_end(self) -> int {
        let whole = run_end(self.source, self.current, CharClass::Digit);
        if whole + 1 < self.source.len() && self.source[whole] == '.' && is_digit_char(
            self.source[whole + 1],
        ) {
            run_end(self.source, whole + 1, CharClass::Digit)
        } else {
            whole
        }
    }

    /// The number literal rule, applied behind the leading digits. The
    /// literal is the numeral itself.
    pub open spec fn number(self) -> ScannerView {
        let read = self.at(self.number_end());
        read.emit(TokenType::Number, LiteralView::Number(read.lexeme()))
    }

    /// The identifier and keyword rule, applied behind the first character.
    pub open spec fn identifier(self) -> ScannerView {
        let read = self.at(run_end(self.source, self.current, CharClass::Word));
        let kind = word_kind(read.lexeme());
        read.emit(kind, word_literal(kind))
    }

    /// The state after the lexeme that begins with the next character, which
    /// must be there: a token, a report, or nothing for blanks and comments.
    pub open spec fn scan_token(self) -> ScannerView {
        let c = self.source[self.current];
        let read = self.advance();
        if c == '(' {
            read.emit(TokenType::LeftParen, LiteralView::Nil)
        } else if c == ')' {
            read.emit(TokenType::RightParen, LiteralView::Nil)
        } else if c == '{' {
            read.emit(TokenType::LeftBrace, LiteralView::Nil)
        } else if c == '}' {
            read.emit(TokenType::RightBrace, LiteralView::Nil)
        } else if c == ',' {
            read.emit(TokenType::Comma, LiteralView::Nil)
        } else if c == '.' {
            read.emit(TokenType::Dot, LiteralView::Nil)
        } else if c == '-' {
            read.emit(TokenType::Minus, LiteralView::Nil)
        } else if c == '+' {
            read.emit(TokenType::Plus, LiteralView::Nil)
        } else if c == ';' {
            read.emit(TokenType::Semicolon, LiteralView::Nil)
        } else if c == '*' {
            read.emit(TokenType::Star, LiteralView::Nil)
        } else if c == '!' {
            read.operator(TokenType::BangEqual, TokenType::Bang)
        } else if c == '=' {
            read.operator(TokenType::EqualEqual, TokenType::Equal)
        } else if c == '<' {
            read.operator(TokenType::LessEqual, TokenType::Less)
        } else if c == '>' {
            read.operator(TokenType::GreaterEqual, TokenType::Greater)
        } else if c == '/' {
            if read.next_is('/') {
                read.at(run_end(self.source, read.current + 1, CharClass::CommentBody))
            } else {
                read.emit(TokenType::Slash, LiteralView::Nil)
            }
        } else if c == '"' {
            read.string()
        } else if c == ' ' || c == '\r' || c == '\t' {
            read
        } else if c == '\n' {
            read.next_line()
        } else if is_digit_char(c) {
            read.number()
        } else if is_alpha_char(c) {
            read.identifier()
        } else {
            read.complain(unexpected_character_message())
        }
    }

    /// The state after the rest of the text is read, lexeme by lexeme.
    pub open spec fn run(self) -> ScannerView
        decreases self.source.len() - self.current,
        via Self::run_decreases
    {
        if self.wf() && !self.at_end() {
            self.begin().scan_token().run()
        } else {
            self
        }
    }

    #[via_fn]
    proof fn run_decreases(self) {
        if self.wf() && !self.at_end() {
            self.begin().lemma_scan_token();
        }
    }

    /// The state after the end-of-input token is emitted: its lexeme is
    /// empty and it carries the current line.
    pub open spec fn finish(self) -> ScannerView {
        ScannerView {
            tokens: self.tokens.push(
                TokenView {
                    kind: TokenType::EOF,
                    lexeme: Seq::empty(),
                    literal: LiteralView::Nil,
                    line: self.line,
                },
            ),
            ..self
        }
    }

    /// The state after a whole scan: the rest of the text, then end of input.
    pub open spec fn scan_tokens(self) -> ScannerView {
        self.run().finish()
    }

    /// Reading a lexeme moves the cursor forward and keeps the state well
    /// formed; the text and the start of the lexeme stay as they are.
    pub proof fn lemma_scan_token(self)
        requires
            self.wf(),
            !self.at_end(),
        ensures
            self.scan_token().wf(),
            self.scan_token().current > self.current,
            self.scan_token().source == self.source,
            self.scan_token().keywords == self.keywords,
            self.scan_token().start == self.start,
    {
        let read = self.advance();
        let text = self.source;
        lemma_run_end(text, read.current, CharClass::StringBody);
        lemma_run_end(text, read.current, CharClass::Digit);
        lemma_run_end(text, read.current, CharClass::Word);
        if read.current + 1 <= text.len() {
            lemma_run_end(text, read.current + 1, CharClass::CommentBody);
        }
        let whole = run_end(text, read.current, CharClass::Digit);
        if whole + 1 <= text.len() {
            lemma_run_end(text, whole + 1, CharClass::Digit);
        }
        let close = run_end(text, read.current, CharClass::StringBody);
        lemma_newlines_bound(text.subrange(read.current, close));
    }

    /// Behind a non-empty run of digits the number rule emits a numeral.
    pub proof fn lemma_number_is_numeral(self)
        requires
            self.wf(),
            self.in_number(),
        ensures
            is_numeral(self.at(self.number_end()).lexeme()),
    {
        let text = self.source;
        let whole = run_end(text, self.current, CharClass::Digit);
        let end = self.number_end();
        let lexeme = self.at(end).lexeme();
        lemma_run_end(text, self.current, CharClass::Digit);
        if whole + 1 <= text.len() {
            lemma_run_end(text, whole + 1, CharClass::Digit);
        }
        assert forall|k: int| self.start <= k < whole implies is_digit_char(#[trigger] text[k]) by {
            if k < self.current {
                assert(self.lexeme()[k - self.start] == text[k]);
            } else {
                assert(CharClass::Digit.holds(text[k]));
            }
        }
        if end == whole {
            assert forall|i: int| 0 <= i < lexeme.len() implies is_digit_char(
                #[trigger] lexeme[i],
            ) by {
                assert(lexeme[i] == text[self.start + i]);
            }
            assert(all_digits(lexeme));
        } else {
            let dot = whole - self.start;
            assert(CharClass::Digit.holds(text[whole + 1]));
            assert(end >= whole + 2);
            assert forall|i: int| 0 <= i < lexeme.take(dot).len() implies is_digit_char(
                #[trigger] lexeme.take(dot)[i],
            ) by {
                assert(lexeme.take(dot)[i] == text[self.start + i]);
            }
            assert forall|i: int| 0 <= i < lexeme.skip(dot + 1).len() implies is_digit_char(
                #[trigger] lexeme.skip(dot + 1)[i],
            ) by {
                assert(lexeme.skip(dot + 1)[i] == text[whole + 1 + i]);
                assert(CharClass::Digit.holds(text[whole + 1 + i]));
            }
            assert(lexeme[dot] == '.');
            assert(all_digits(lexeme.take(dot)));
            assert(all_digits(lexeme.skip(dot + 1)));
            assert(0 < dot < lexeme.len() - 1);
        }
    }

    /// A run keeps the state well formed and reads the text to its end.
    pub proof fn lemma_run(self)
        requires
            self.wf(),
        ensures
            self.run().wf(),
            self.run().at_end(),
            self.run().source == self.source,
        decreases self.source.len() - self.current,
    {
        if !self.at_end() {
            self.begin().lemma_scan_token();
            self.begin().scan_token().lemma_run();
        }
    }
}

} // verus!
