//! The scanner: a cursor over the text, and the rules that move it.

use vstd::prelude::*;
use vstd::hash_map::StringHashMap;
use vstd::string::*;
use crate::chars::{
    is_alpha_char, is_alphanumeric_char, is_digit_char, is_numeral, lemma_run_end, newlines,
    run_end, CharClass,
};
use crate::diagnostics::{error, report_views, ErrorReport};
use crate::model::ScannerView;
use crate::token::{token_views, Literal, LiteralView, Token, TokenType};

verus! {

/// A scan in progress.
///
/// `source` is the text, `tokens` what was emitted so far, `errors` what was
/// reported so far, `line` one more than the number of line feeds consumed,
/// and `keywords` the reserved words. The cursor is private: the start of the
/// lexeme under construction and the next character to inspect, both counted
/// in characters.
pub struct Scanner {
    pub source: String,
    pub tokens: Vec<Token>,
    pub errors: Vec<ErrorReport>,
    start: usize,
    current: usize,
    pub keywords: StringHashMap<TokenType>,
    pub line: i32,
    chars: Vec<char>,
}

impl View for Scanner {
    type V = ScannerView;

    closed spec fn view(&self) -> ScannerView {
        ScannerView {
            source: self.source@,
            keywords: self.keywords@,
            tokens: token_views(self.tokens@),
            reports: report_views(self.errors@),
            start: self.start as int,
            current: self.current as int,
            line: self.line as int,
        }
    }
}

/// The characters of `text`, in order.
fn decode(text: &str) -> (chars: Vec<char>)
    ensures
        chars@ == text@,
{
    let mut chars: Vec<char> = Vec::new();
    for c in it: text.chars()
        invariant
            chars@ == it.seq().take(it.index() as int),
            it.seq() == text@,
    {
        chars.push(c);
    }
    chars
}

impl Scanner {
    /// The characters that the scanner has decoded are those of `source`.
    pub closed spec fn decoded(&self) -> bool {
        self.chars@ == self.source@
    }

    /// The scanner is in a state that its methods can work from.
    pub open spec fn wf(&self) -> bool {
        &&& self.decoded()
        &&& self@.wf()
    }

    /// A scanner at the beginning of `source`, on line 1, with nothing
    /// emitted and nothing reported.
    ///
    /// Lines are counted in an `i32`, and a text has at most as many line
    /// feeds as characters: `source` must be shorter than `i32::MAX`
    /// characters.
    pub fn new(source: String) -> (scanner: Scanner)
        requires
            source@.len() < i32::MAX,
        ensures
            scanner.wf(),
            scanner@ == ScannerView::fresh(source@),
    {
        let mut keywords: StringHashMap<TokenType> = StringHashMap::new();
        keywords.insert("and".to_owned(), TokenType::And);
        keywords.insert("class".to_owned(), TokenType::Class);
        keywords.insert("else".to_owned(), TokenType::Else);
        keywords.insert("false".to_owned(), TokenType::False);
        keywords.insert("for".to_owned(), TokenType::For);
        keywords.insert("fun".to_owned(), TokenType::Fun);
        keywords.insert("if".to_owned(), TokenType::If);
        keywords.insert("nil".to_owned(), TokenType::Nil);
        keywords.insert("or".to_owned(), TokenType::Or);
        keywords.insert("print".to_owned(), TokenType::Print);
        keywords.insert("return".to_owned(), TokenType::Return);
        keywords.insert("super".to_owned(), TokenType::Super);
        keywords.insert("this".to_owned(), TokenType::This);
        keywords.insert("true".to_owned(), TokenType::True);
        keywords.insert("var".to_owned(), TokenType::Var);
        keywords.insert("while".to_owned(), TokenType::While);
        let chars = decode(source.as_str());
        let scanner = Scanner {
            source,
            tokens: Vec::new(),
            errors: Vec::new(),
            start: 0,
            current: 0,
            keywords,
            line: 1,
            chars,
        };
        assert(scanner@.tokens =~= Seq::empty());
        assert(scanner@.reports =~= Seq::empty());
        scanner
    }

    /// Whether the whole text has been read.
    pub fn is_at_end(&self) -> (end: bool)
        requires
            self.wf(),
        ensures
            end == self@.at_end(),
    {
        self.current >= self.chars.len()
    }

    /// Consumes the next character and returns it.
    pub fn advance(&mut self) -> (c: char)
        requires
            old(self).wf(),
            !old(self)@.at_end(),
        ensures
            final(self).wf(),
            final(self)@ == old(self)@.advance(),
            c == old(self)@.source[old(self)@.current],
    {
        assert(self.current < self.chars.len());
        self.current += 1;
        self.chars[self.current - 1]
    }

    /// Emits a token of the lexeme under construction, without a literal.
    pub fn add_token(&mut self, token_type: TokenType)
        requires
            old(self).wf(),
        ensures
            final(self).wf(),
            final(self)@ == old(self)@.emit(token_type, LiteralView::Nil),
    {
        self.add_token_literal(token_type, Literal::Nil)
    }

    /// Emits a token of the lexeme under construction, on the current line,
    /// with the given literal.
    pub fn add_token_literal(&mut self, token_type: TokenType, literal: Literal)
        requires
            old(self).wf(),
        ensures
            final(self).wf(),
            final(self)@ == old(self)@.emit(token_type, literal@),
    {
        let text = self.source.as_str().substring_char(self.start, self.current).to_owned();
        self.tokens.push(Token::new(token_type, text, literal, self.line));
        assert(final(self)@.tokens =~= old(self)@.emit(token_type, literal@).tokens);
    }

    /// Consumes the next character if it is `expected`, and says whether it
    /// did.
    pub fn match_char(&mut self, expected: char) -> (matched: bool)
        requires
            old(self).wf(),
        ensures
            final(self).wf(),
            matched == old(self)@.next_is(expected),
            final(self)@ == old(self)@.match_char(expected),
    {
        if self.is_at_end() {
            return false;
        }
        if self.chars[self.current] != expected {
            return false;
        }
        assert(self.current < self.chars.len());
        self.current += 1;
        true
    }

    /// The next character, or NUL at the end of the text. Nothing is consumed.
    pub fn peek(&mut self) -> (c: char)
        requires
            old(self).wf(),
        ensures
            *final(self) == *old(self),
            c == old(self)@.peek(),
    {
        if self.is_at_end() {
            return '\0';
        }
        self.chars[self.current]
    }

    /// Whether `c` is a decimal digit.
    pub fn is_digit(c: char) -> (digit: bool)
        ensures
            digit == is_digit_char(c),
    {
        c >= '0' && c <= '9'
    }

    /// The character after the next, or NUL where the text has none.
    /// Nothing is consumed.
    pub fn peek_next(&mut self) -> (c: char)
        requires
            old(self).wf(),
        ensures
            *final(self) == *old(self),
            c == old(self)@.peek_next(),
    {
        if self.is_at_end() {
            return '\0';
        }
        assert(self.current < self.chars.len());
        if self.current + 1 >= self.chars.len() {
            return '\0';
        }
        self.chars[self.current + 1]
    }

    /// Whether `c` is an ASCII letter or an underscore.
    pub fn is_alpha(c: char) -> (alpha: bool)
        ensures
            alpha == is_alpha_char(c),
    {
        (c >= 'a' && c <= 'z') || (c >= 'A' && c <= 'Z') || c == '_'
    }

    /// Whether `c` may continue an identifier.
    pub fn is_alphanumeric(c: char) -> (word: bool)
        ensures
            word == is_alphanumeric_char(c),
    {
        Scanner::is_alpha(c) || Scanner::is_digit(c)
    }

    /// Consumes the characters of `class` that come next.
    fn skip_run(&mut self, class: CharClass)
        requires
            old(self).wf(),
        ensures
            final(self).wf(),
            final(self)@ == old(self)@.at(run_end(old(self)@.source, old(self)@.current, class)),
    {
        proof {
            lemma_run_end(self@.source, self@.current, class);
        }
        while !self.is_at_end() && Scanner::in_class(class, self.peek())
            invariant
                self.wf(),
                self@ == old(self)@.at(self@.current),
                old(self)@.current <= self@.current,
                run_end(self@.source, self@.current, class) == run_end(
                    old(self)@.source,
                    old(self)@.current,
                    class,
                ),
            decreases self@.source.len() - self@.current,
        {
            self.advance();
        }
    }

    /// Whether `c` belongs to `class`.
    fn in_class(class: CharClass, c: char) -> (inside: bool)
        ensures
            inside == class.holds(c),
    {
        match class {
            CharClass::Digit => Scanner::is_digit(c),
            CharClass::Word => Scanner::is_alphanumeric(c),
            CharClass::CommentBody => c != '\n',
            CharClass::StringBody => c != '"',
        }
    }

    /// The string literal rule. See [`ScannerView::string`].
    ///
    /// The opening quote has been consumed, so the lexeme under construction
    /// is not empty.
    pub fn string(&mut self)
        requires
            old(self).wf(),
            old(self)@.start < old(self)@.current,
        ensures
            final(self).wf(),
            final(self)@ == old(self)@.string(),
    {
        let opening_line = self.line;
        proof {
            lemma_run_end(self@.source, self@.current, CharClass::StringBody);
            assert(self@.source.subrange(self@.current, self@.current) =~= Seq::<char>::empty());
        }
        while self.peek() != '"' && !self.is_at_end()
            invariant
                self.wf(),
                old(self)@.current <= self@.current,
                self@ == (ScannerView {
                    current: self@.current,
                    line: old(self)@.line + newlines(
                        old(self)@.source.subrange(old(self)@.current, self@.current),
                    ),
                    ..old(self)@
                }),
                run_end(self@.source, self@.current, CharClass::StringBody) == run_end(
                    old(self)@.source,
                    old(self)@.current,
                    CharClass::StringBody,
                ),
                opening_line == old(self)@.line,
            decreases self@.source.len() - self@.current,
        {
            let ghost before = self@;
            let c = self.advance();
            if c == '\n' {
                self.line += 1;
            }
            proof {
                let crossed = before.source.subrange(old(self)@.current, before.current + 1);
                assert(crossed.drop_last() =~= before.source.subrange(
                    old(self)@.current,
                    before.current,
                ));
                assert(crossed.last() == c);
            }
        }
        if self.is_at_end() {
            self.errors.push(error(self.line, "Unterminated string.".to_owned()));
            assert(self@.reports =~= old(self)@.string().reports);
            return ;
        }
        self.advance();
        let value = self.source.as_str().substring_char(self.start + 1, self.current - 1).to_owned();
        let text = self.source.as_str().substring_char(self.start, self.current).to_owned();
        self.tokens.push(Token::new(TokenType::String, text, Literal::String(value), opening_line));
        assert(self@.tokens =~= old(self)@.string().tokens);
    }

    /// The number literal rule. See [`ScannerView::number`].
    ///
    /// Where the lexeme under construction is a non-empty run of digits, as
    /// it is behind a leading digit, the lexeme that is emitted is a numeral.
    pub fn number(&mut self)
        requires
            old(self).wf(),
        ensures
            final(self).wf(),
            final(self)@ == old(self)@.number(),
            old(self)@.in_number() ==> is_numeral(final(self)@.lexeme()),
    {
        self.skip_run(CharClass::Digit);
        let ghost whole = self@.current;
        proof {
            lemma_run_end(self@.source, old(self)@.current, CharClass::Digit);
        }
        if self.peek() == '.' && Scanner::is_digit(self.peek_next()) {
            self.advance();
            self.skip_run(CharClass::Digit);
            proof {
                lemma_run_end(self@.source, whole + 1, CharClass::Digit);
            }
        }
        proof {
            if old(self)@.in_number() {
                old(self)@.lemma_number_is_numeral();
            }
        }
        let numeral = self.source.as_str().substring_char(self.start, self.current).to_owned();
        self.add_token_literal(TokenType::Number, Literal::Number(numeral));
    }
    /// The identifier and keyword rule. See [`ScannerView::identifier`].
    pub fn identifier(&mut self)
        requires
            old(self).wf(),
        ensures
            final(self).wf(),
            final(self)@ == old(self)@.identifier(),
    {
        self.skip_run(CharClass::Word);
        proof {
            lemma_run_end(self@.source, old(self)@.current, CharClass::Word);
        }
        let text = self.source.as_str().substring_char(self.start, self.current).to_owned();
        let token_type = match self.keywords.get(text.as_str()) {
            Some(kind) => *kind,
            None => TokenType::Identifier,
        };
        if token_type == TokenType::True {
            self.add_token_literal(token_type, Literal::Boolean(true));
            return ;
        } else if token_type == TokenType::False {
            self.add_token_literal(token_type, Literal::Boolean(false));
            return ;
        }
        self.add_token(token_type);
    }

    /// Reads the lexeme that begins with the next character: emits its
    /// token, or reports it, or skips it. See [`ScannerView::scan_token`].
    pub fn scan_token(&mut self)
        requires
            old(self).wf(),
            !old(self)@.at_end(),
        ensures
            final(self).wf(),
            final(self)@ == old(self)@.scan_token(),
    {
        let c = self.advance();
        match c {
            '(' => self.add_token(TokenType::LeftParen),
            ')' => self.add_token(TokenType::RightParen),
            '{' => self.add_token(TokenType::LeftBrace),
            '}' => self.add_token(TokenType::RightBrace),
            ',' => self.add_token(TokenType::Comma),
            '.' => self.add_token(TokenType::Dot),
            '-' => self.add_token(TokenType::Minus),
            '+' => self.add_token(TokenType::Plus),
            ';' => self.add_token(TokenType::Semicolon),
            '*' => self.add_token(TokenType::Star),
            '!' => {
                if self.match_char('=') {
                    self.add_token(TokenType::BangEqual)
                } else {
                    self.add_token(TokenType::Bang)
                }
            },
            '=' => {
                if self.match_char('=') {
                    self.add_token(TokenType::EqualEqual)
                } else {
                    self.add_token(TokenType::Equal)
                }
            },
            '<' => {
                if self.match_char('=') {
                    self.add_token(TokenType::LessEqual)
                } else {
                    self.add_token(TokenType::Less)
                }
            },
            '>' => {
                if self.match_char('=') {
                    self.add_token(TokenType::GreaterEqual)
                } else {
                    self.add_token(TokenType::Greater)
                }
            },
            '/' => {
                if self.match_char('/') {
                    self.skip_run(CharClass::CommentBody);
                } else {
                    self.add_token(TokenType::Slash)
                }
            },
            '"' => self.string(),
            ' ' => (),
            '\r' => (),
            '\t' => (),
            '\n' => self.line += 1,
            _ => {
                if Scanner::is_digit(c) {
                    self.number();
                } else if Scanner::is_alpha(c) {
                    self.identifier();
                } else {
                    self.errors.push(error(self.line, "Unexpected character.".to_owned()));
                    assert(self@.reports =~= old(self)@.scan_token().reports);
                }
            },
        }
    }

    /// Scans the rest of the text and closes the sequence with the
    /// end-of-input token. Returns every token emitted so far, in order.
    ///
    /// On a new scanner these are the tokens of the whole text.
    pub fn scan_tokens(&mut self) -> (tokens: Vec<Token>)
        requires
            old(self).wf(),
        ensures
            final(self).wf(),
            final(self)@ == old(self)@.scan_tokens(),
            final(self)@.at_end(),
            token_views(tokens@) == final(self)@.tokens,
    {
        proof {
            old(self)@.lemma_run();
        }
        while !self.is_at_end()
            invariant
                self.wf(),
                self@.run() == old(self)@.run(),
            decreases self@.source.len() - self@.current,
        {
            self.start = self.current;
            proof {
                self@.lemma_scan_token();
            }
            self.scan_token();
        }
        self.tokens.push(Token::new(TokenType::EOF, String::new(), Literal::Nil, self.line));
        assert(self@.tokens =~= old(self)@.scan_tokens().tokens);
        let tokens = self.tokens.clone();
        assert(tokens@ =~= self.tokens@);
        tokens
    }

    /// What was reported so far, in order.
    pub fn errors(&self) -> (reports: &Vec<ErrorReport>)
        ensures
            report_views(reports@) == self@.reports,
    {
        &self.errors
    }
}

} // verus!
