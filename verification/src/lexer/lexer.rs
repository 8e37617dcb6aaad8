use crate::info::{OperatorType, ValType};
use crate::lexer::chars::{
    blank, byte_offset, lemma_byte_offset_step, lemma_bytes_between, lemma_offset_is_boundary,
    utf8_width, word_char,
};
use crate::lexer::rules::{
    bump, carries, depicts, in_class, is_stream, is_word_start, keyword_of,
    lemma_next_token_bounds, lemma_next_token_carries, lemma_scan_bounds,
    lemma_tokens_are_stream, lemma_tokens_step, next_token, rest, scan, symbol_of, token_from,
    tokens, CharClass, Cursor, Lexed, TokenModel,
};
use crate::lexer::token::{Token, TokenData, TokenType};
use crate::position::Position;
use crate::text::{chars_of, is_digit, lemma_encoding_injective, str_eq};
use std::ops::Range;
use vstd::prelude::*;

verus! {

/// What the lexer knows of a place in its text: the characters and the bytes
/// before it, and its line and column.
struct Mark {
    index: usize,
    offset: usize,
    line: usize,
    column: usize,
}

/// Reads tokens off a text, one after the other.
struct Scanner<'s> {
    source: &'s str,
    chars: Vec<char>,
    at: Mark,
}

/// Cuts a text into tokens. It always holds one token ahead: the one that
/// `peek` shows and the next `lex` hands out.
pub struct Lexer<'s> {
    scanner: Scanner<'s>,
    // Tokens
    curr_tok: Token<'s>,
    next_tok: Token<'s>,
    // Where the token ahead was read from.
    before: Ghost<Cursor>,
}

/// The next number, as far as the machine can count.
fn bumped(n: usize) -> (r: usize)
    ensures
        r == bump(n),
{
    if n < usize::MAX {
        n + 1
    } else {
        n
    }
}

/// Whether a character belongs to a class.
fn belongs(class: CharClass, c: char) -> (r: bool)
    ensures
        r == in_class(class, c),
{
    match class {
        CharClass::Blank => blank(c),
        CharClass::Word => word_char(c),
        CharClass::Digit => '0' <= c && c <= '9',
        CharClass::Comment => c != '\n',
    }
}

/// The token that a word is, if it is a keyword.
fn keyword(word: &str) -> (r: Option<(TokenType, Option<TokenData>)>)
    ensures
        r == keyword_of(word@),
{
    if str_eq(word, "i32") {
        Some((TokenType::Type, Some(TokenData::Type(ValType::I32))))
    } else if str_eq(word, "f32") {
        Some((TokenType::Type, Some(TokenData::Type(ValType::F32))))
    } else if str_eq(word, "func") {
        Some((TokenType::Func, None))
    } else if str_eq(word, "return") {
        Some((TokenType::Return, None))
    } else if str_eq(word, "let") {
        Some((TokenType::Let, None))
    } else if str_eq(word, "var") {
        Some((TokenType::Var, None))
    } else if str_eq(word, "null") {
        Some((TokenType::Null, None))
    } else {
        None
    }
}

/// The token that a single character is, if it is one.
fn symbol(c: char) -> (r: Option<(TokenType, Option<TokenData>)>)
    ensures
        r == symbol_of(c),
{
    if c == '(' {
        Some((TokenType::Paren(true), None))
    } else if c == ')' {
        Some((TokenType::Paren(false), None))
    } else if c == '{' {
        Some((TokenType::Brace(true), None))
    } else if c == '}' {
        Some((TokenType::Brace(false), None))
    } else if c == ':' {
        Some((TokenType::Colon, None))
    } else if c == ',' {
        Some((TokenType::Comma, None))
    } else if c == ';' {
        Some((TokenType::Semicolon, None))
    } else if c == '=' {
        Some((TokenType::Assign, None))
    } else if c == '+' {
        Some((TokenType::Plus, Some(TokenData::Operator(OperatorType::Add))))
    } else if c == '-' {
        Some((TokenType::Minus, Some(TokenData::Operator(OperatorType::Sub))))
    } else if c == '*' {
        Some((TokenType::Mul, Some(TokenData::Operator(OperatorType::Mul))))
    } else if c == '/' {
        Some((TokenType::Div, Some(TokenData::Operator(OperatorType::Div))))
    } else {
        None
    }
}

impl<'s> Scanner<'s> {
    /// The scanner stands within its text and knows how many bytes lie behind
    /// it.
    #[verifier::type_invariant]
    spec fn wf(&self) -> bool {
        &&& self.chars@ == self.source@
        &&& self.at.index <= self.chars@.len()
        &&& self.at.offset == byte_offset(self.source@, self.at.index as int)
    }

    /// The text that is read.
    closed spec fn text(&self) -> Seq<char> {
        self.source@
    }

    /// The place at which the scanner stands.
    closed spec fn cursor(&self) -> Cursor {
        Cursor { index: self.at.index as int, line: self.at.line, column: self.at.column }
    }

    /// A scanner at the beginning of `source`.
    fn new(source: &'s str) -> (r: Self)
        ensures
            r.text() == source@,
            r.cursor() == Cursor::origin(),
    {
        let chars = chars_of(source);
        assert(source@.take(0) =~= Seq::<char>::empty());
        Self { source, chars, at: Mark { index: 0, offset: 0, line: 1, column: 1 } }
    }

    /// The character at which the scanner stands, if it is not at the end.
    fn get_char(&self) -> (r: Option<char>)
        ensures
            match r {
                Some(c) => self.cursor().index < self.text().len() && c
                    == self.text()[self.cursor().index],
                None => self.cursor().index >= self.text().len(),
            },
    {
        proof {
            use_type_invariant(self);
        }
        if self.at.index < self.chars.len() {
            Some(self.chars[self.at.index])
        } else {
            None
        }
    }

    /// What the scanner knows of the place at which it stands.
    fn mark(&self) -> (r: Mark)
        ensures
            r.index == self.cursor().index,
            r.index <= self.text().len(),
            r.offset == byte_offset(self.text(), self.cursor().index),
            r.line == self.cursor().line,
            r.column == self.cursor().column,
    {
        proof {
            use_type_invariant(self);
        }
        Mark {
            index: self.at.index,
            offset: self.at.offset,
            line: self.at.line,
            column: self.at.column,
        }
    }

    /// Moves over one character, if the scanner is not at the end.
    fn advance(&mut self) -> (r: Option<char>)
        ensures
            final(self).text() == old(self).text(),
            match r {
                Some(c) => old(self).cursor().index < old(self).text().len() && c == old(
                    self,
                ).text()[old(self).cursor().index] && final(self).cursor() == old(
                    self,
                ).cursor().step(c),
                None => old(self).cursor().index >= old(self).text().len() && final(self).cursor()
                    == old(self).cursor(),
            },
    {
        proof {
            use_type_invariant(&*self);
        }
        if self.at.index >= self.chars.len() {
            return None;
        }
        let c = self.chars[self.at.index];
        let len = utf8_width(c);
        let total = self.source.as_bytes().len();
        proof {
            lemma_byte_offset_step(self.source@, self.at.index as int);
        }
        assert(self.at.offset + len <= total);
        let (line, column) = if c == '\n' {
            (bumped(self.at.line), 1)
        } else {
            (self.at.line, bumped(self.at.column))
        };
        self.at = Mark { index: self.at.index + 1, offset: self.at.offset + len, line, column };
        Some(c)
    }

    /// Moves over the longest run of characters of a class.
    fn run(&mut self, class: CharClass)
        ensures
            final(self).text() == old(self).text(),
            final(self).cursor() == scan(old(self).text(), old(self).cursor(), class),
    {
        proof {
            use_type_invariant(&*self);
        }
        loop
            invariant
                self.text() == old(self).text(),
                0 <= self.cursor().index <= self.text().len(),
                scan(self.text(), self.cursor(), class) == scan(
                    old(self).text(),
                    old(self).cursor(),
                    class,
                ),
            ensures
                self.text() == old(self).text(),
                self.cursor() == scan(old(self).text(), old(self).cursor(), class),
            decreases self.text().len() - self.cursor().index,
        {
            match self.get_char() {
                Some(c) => {
                    if belongs(class, c) {
                        self.advance();
                    } else {
                        break;
                    }
                },
                None => {
                    break;
                },
            }
        }
    }

    /// Passes over white space.
    fn lex_trivial(&mut self)
        ensures
            final(self).text() == old(self).text(),
            final(self).cursor() == scan(old(self).text(), old(self).cursor(), CharClass::Blank),
    {
        self.run(CharClass::Blank);
    }

    /// Passes over the rest of a comment, up to the end of the line.
    fn lex_comment(&mut self)
        ensures
            final(self).text() == old(self).text(),
            final(self).cursor() == scan(old(self).text(), old(self).cursor(), CharClass::Comment),
    {
        self.run(CharClass::Comment);
    }

    /// The text from `start` up to where the scanner stands.
    fn get_lexeme(&self, start: &Mark) -> (r: &'s str)
        requires
            start.index <= self.cursor().index,
            start.offset == byte_offset(self.text(), start.index as int),
        ensures
            r@ == self.text().subrange(start.index as int, self.cursor().index),
    {
        proof {
            use_type_invariant(self);
            let src = self.source@;
            let i = start.index as int;
            let j = self.at.index as int;
            lemma_offset_is_boundary(src, i);
            lemma_bytes_between(src, i, j);
            lemma_offset_is_boundary(src.skip(i), j - i);
            lemma_bytes_between(src.skip(i), 0, j - i);
            assert(src.skip(i).take(0) =~= Seq::<char>::empty());
            assert(src.skip(i).subrange(0, j - i) =~= src.subrange(i, j));
        }
        let (_, tail) = self.source.split_at(start.offset);
        let (lexeme, _) = tail.split_at(self.at.offset - start.offset);
        proof {
            lemma_encoding_injective(
                lexeme@,
                self.source@.subrange(start.index as int, self.at.index as int),
            );
        }
        lexeme
    }

    /// The span from `start` up to where the scanner stands.
    fn get_pos(&self, start: &Mark) -> (r: Position)
        ensures
            r.line == start.line,
            r.column == start.column,
            r.range.start == start.offset,
            r.range.end == byte_offset(self.text(), self.cursor().index),
    {
        proof {
            use_type_invariant(self);
        }
        Position::new(start.line, start.column, Range { start: start.offset, end: self.at.offset })
    }

    /// The token of a kind from `start` up to where the scanner stands.
    fn get_token_with_data(&self, token_type: TokenType, data: Option<TokenData>, start: &Mark)
        -> (r: Token<'s>)
        requires
            start.index <= self.cursor().index,
            start.offset == byte_offset(self.text(), start.index as int),
        ensures
            depicts(
                r,
                self.text(),
                Lexed {
                    token_type,
                    data,
                    start: Cursor { index: start.index as int, line: start.line, column: start.column },
                    end: self.cursor(),
                },
            ),
    {
        Token::new(token_type, self.get_lexeme(start), self.get_pos(start), data)
    }

    /// The token of a kind, carrying nothing, from `start` up to where the
    /// scanner stands.
    fn get_token(&self, token_type: TokenType, start: &Mark) -> (r: Token<'s>)
        requires
            start.index <= self.cursor().index,
            start.offset == byte_offset(self.text(), start.index as int),
        ensures
            depicts(
                r,
                self.text(),
                Lexed {
                    token_type,
                    data: None,
                    start: Cursor { index: start.index as int, line: start.line, column: start.column },
                    end: self.cursor(),
                },
            ),
    {
        self.get_token_with_data(token_type, None, start)
    }

    /// Reads the rest of a word and makes it a keyword or an identifier.
    fn lex_identifier(&mut self, start: &Mark) -> (r: Token<'s>)
        requires
            start.index + 1 == old(self).cursor().index,
            start.index < old(self).text().len(),
            start.offset == byte_offset(old(self).text(), start.index as int),
            is_word_start(old(self).text()[start.index as int]),
            old(self).text()[start.index as int] != '\0',
            old(self).cursor() == (Cursor {
                index: start.index as int,
                line: start.line,
                column: start.column,
            }).step(old(self).text()[start.index as int]),
        ensures
            final(self).text() == old(self).text(),
            depicts(
                r,
                old(self).text(),
                token_from(
                    old(self).text(),
                    Cursor { index: start.index as int, line: start.line, column: start.column },
                    old(self).text()[start.index as int],
                ),
            ),
            final(self).cursor() == token_from(
                old(self).text(),
                Cursor { index: start.index as int, line: start.line, column: start.column },
                old(self).text()[start.index as int],
            ).end,
    {
        proof {
            use_type_invariant(&*self);
            lemma_scan_bounds(self.text(), self.cursor(), CharClass::Word);
        }
        self.run(CharClass::Word);
        let lexeme = self.get_lexeme(start);
        match keyword(lexeme) {
            Some((token_type, data)) => self.get_token_with_data(token_type, data, start),
            None => self.get_token(TokenType::Identifier, start),
        }
    }

    /// Reads the rest of a number: digits, and behind a point more digits.
    fn lex_number(&mut self, start: &Mark) -> (r: Token<'s>)
        requires
            start.index + 1 == old(self).cursor().index,
            start.index < old(self).text().len(),
            start.offset == byte_offset(old(self).text(), start.index as int),
            is_digit(old(self).text()[start.index as int]),
            old(self).cursor() == (Cursor {
                index: start.index as int,
                line: start.line,
                column: start.column,
            }).step(old(self).text()[start.index as int]),
        ensures
            final(self).text() == old(self).text(),
            depicts(
                r,
                old(self).text(),
                token_from(
                    old(self).text(),
                    Cursor { index: start.index as int, line: start.line, column: start.column },
                    old(self).text()[start.index as int],
                ),
            ),
            final(self).cursor() == token_from(
                old(self).text(),
                Cursor { index: start.index as int, line: start.line, column: start.column },
                old(self).text()[start.index as int],
            ).end,
    {
        proof {
            use_type_invariant(&*self);
            lemma_scan_bounds(self.text(), self.cursor(), CharClass::Digit);
        }
        self.run(CharClass::Digit);
        if self.get_char() == Some('.') {
            proof {
                lemma_scan_bounds(self.text(), self.cursor().step('.'), CharClass::Digit);
            }
            self.advance();
            self.run(CharClass::Digit);
            return self.get_token_with_data(
                TokenType::Float,
                Some(TokenData::Type(ValType::F32)),
                start,
            );
        }
        self.get_token_with_data(TokenType::Integer, Some(TokenData::Type(ValType::I32)), start)
    }

    /// Reads the next token.
    fn next(&mut self) -> (r: Token<'s>)
        ensures
            final(self).text() == old(self).text(),
            depicts(r, old(self).text(), next_token(old(self).text(), old(self).cursor())),
            final(self).cursor() == next_token(old(self).text(), old(self).cursor()).end,
    {
        proof {
            use_type_invariant(&*self);
        }
        loop
            invariant
                self.text() == old(self).text(),
                0 <= self.cursor().index <= self.text().len(),
                next_token(self.text(), self.cursor()) == next_token(
                    old(self).text(),
                    old(self).cursor(),
                ),
            decreases self.text().len() - self.cursor().index,
        {
            let ghost begun = self.cursor();
            proof {
                lemma_scan_bounds(self.text(), begun, CharClass::Blank);
            }
            self.lex_trivial();
            let start = self.mark();
            let c = match self.advance() {
                Some(c) => c,
                None => {
                    return self.get_token(TokenType::Eof, &start);
                },
            };
            if c == '/' && self.get_char() == Some('/') {
                proof {
                    lemma_scan_bounds(self.text(), self.cursor().step('/'), CharClass::Comment);
                }
                self.advance();
                self.lex_comment();
                continue ;
            }
            if c == '\0' {
                return self.get_token(TokenType::Eof, &start);
            }
            if ('a' <= c && c <= 'z') || ('A' <= c && c <= 'Z') || c == '_' {
                return self.lex_identifier(&start);
            }
            if '0' <= c && c <= '9' {
                return self.lex_number(&start);
            }
            return match symbol(c) {
                Some((token_type, data)) => self.get_token_with_data(token_type, data, &start),
                None => self.get_token(TokenType::Error, &start),
            };
        }
    }
}

impl<'s> Lexer<'s> {
    /// The token ahead is the first token of the text behind the place where
    /// it was read from, and the lexer stands behind it. `new` makes a lexer
    /// for which this holds, and `lex` keeps it so.
    pub closed spec fn wf(&self) -> bool {
        &&& 0 <= self.before@.index <= self.scanner.text().len()
        &&& depicts(
            self.next_tok,
            self.scanner.text(),
            next_token(self.scanner.text(), self.before@),
        )
        &&& self.scanner.cursor() == next_token(self.scanner.text(), self.before@).end
        &&& carries(self.curr_tok.token_type, self.curr_tok.data)
    }

    /// The text that is cut into tokens.
    pub closed spec fn text(&self) -> Seq<char> {
        self.scanner.text()
    }

    /// The place behind the token that `peek` shows.
    pub closed spec fn cursor(&self) -> Cursor {
        self.scanner.cursor()
    }

    /// The place from which the token that `peek` shows was read.
    pub closed spec fn before(&self) -> Cursor {
        self.before@
    }

    /// The token that the last `lex` handed out.
    pub closed spec fn current_token(&self) -> Token<'s> {
        self.curr_tok
    }

    /// The token that `peek` shows.
    pub closed spec fn peeked(&self) -> Token<'s> {
        self.next_tok
    }

    /// The tokens that `lex` will hand out, from the one that `peek` shows up
    /// to the `Eof` at the end of the text. Behind that `Eof`, `lex` hands out
    /// the same `Eof` again.
    pub closed spec fn upcoming(&self) -> Seq<TokenModel> {
        tokens(self.scanner.text(), self.before@)
    }

    /// The tokens ahead are a stream, and the token that `peek` shows is the
    /// first of them.
    pub proof fn lemma_upcoming(&self)
        requires
            self.wf(),
        ensures
            is_stream(self.upcoming()),
            self.peeked()@ == self.upcoming()[0],
    {
        lemma_tokens_are_stream(self.text(), self.before@);
    }

    /// A lexer at the beginning of `source`, with the first token ahead.
    pub fn new(source: &'s str) -> (r: Self)
        ensures
            r.wf(),
            r.text() == source@,
            r.before() == Cursor::origin(),
            r.upcoming() == tokens(source@, Cursor::origin()),
            is_stream(r.upcoming()),
            r.peeked()@ == r.upcoming()[0],
            depicts(r.peeked(), source@, next_token(source@, Cursor::origin())),
            r.cursor() == next_token(source@, Cursor::origin()).end,
    {
        let mut scanner = Scanner::new(source);
        let first = scanner.next();
        proof {
            lemma_tokens_are_stream(source@, Cursor::origin());
        }
        Self { scanner, curr_tok: Token::default(), next_tok: first, before: Ghost(Cursor::origin()) }
    }

    /// Hands out the token that was ahead and reads the one behind it.
    pub fn lex(&mut self) -> (r: Token<'s>)
        requires
            old(self).wf(),
        ensures
            final(self).wf(),
            r == old(self).peeked(),
            r@ == old(self).upcoming()[0],
            carries(r.token_type, r.data),
            final(self).current_token() == r,
            final(self).text() == old(self).text(),
            final(self).before() == old(self).cursor(),
            final(self).upcoming() == rest(old(self).upcoming(), 1),
            is_stream(old(self).upcoming()),
            is_stream(final(self).upcoming()),
            final(self).peeked()@ == final(self).upcoming()[0],
            depicts(
                final(self).peeked(),
                old(self).text(),
                next_token(old(self).text(), old(self).cursor()),
            ),
            final(self).cursor() == next_token(old(self).text(), old(self).cursor()).end,
    {
        proof {
            use_type_invariant(&self.scanner);
            lemma_next_token_bounds(self.text(), self.before@);
            lemma_next_token_carries(self.text(), self.before@);
            lemma_tokens_are_stream(self.text(), self.before@);
            lemma_tokens_step(self.text(), self.before@);
            lemma_tokens_are_stream(self.text(), self.cursor());
            lemma_next_token_bounds(self.text(), self.cursor());
        }
        let ghost from = self.scanner.cursor();
        let handed = self.next_tok.clone();
        let next = self.scanner.next();
        self.curr_tok = handed;
        self.next_tok = next;
        self.before = Ghost(from);
        self.curr_tok.clone()
    }

    /// The token that the next `lex` hands out.
    pub fn peek(&self) -> (r: Token<'s>)
        requires
            self.wf(),
        ensures
            r == self.peeked(),
            r@ == self.upcoming()[0],
            is_stream(self.upcoming()),
            carries(r.token_type, r.data),
    {
        proof {
            lemma_next_token_carries(self.text(), self.before@);
            lemma_tokens_are_stream(self.text(), self.before@);
        }
        self.next_tok.clone()
    }
}

} // verus!
