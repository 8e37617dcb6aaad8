use crate::info::{OperatorType, ValType};
use crate::lexer::chars::{byte_offset, is_blank, is_word_char};
use crate::lexer::token::{Token, TokenData, TokenType};
use crate::position::Position;
use crate::text::is_digit;
use std::ops::Range;
use vstd::prelude::*;

verus! {

/// The next number, as far as the machine can count.
pub open spec fn bump(n: usize) -> usize {
    if n < usize::MAX {
        (n + 1) as usize
    } else {
        n
    }
}

/// A place in a text: the number of characters before it, and the line and
/// column of the character that stands there, both counted from 1.
pub struct Cursor {
    pub index: int,
    pub line: usize,
    pub column: usize,
}

impl Cursor {
    /// The beginning of a text.
    pub open spec fn origin() -> Cursor {
        Cursor { index: 0, line: 1, column: 1 }
    }

    /// The place behind the character `c`, which stands at this place. A line
    /// feed begins a new line; any other character moves on by one column.
    pub open spec fn step(self, c: char) -> Cursor {
        if c == '\n' {
            Cursor { index: self.index + 1, line: bump(self.line), column: 1 }
        } else {
            Cursor { index: self.index + 1, line: self.line, column: bump(self.column) }
        }
    }
}

/// The classes of characters that the lexer passes over in runs.
#[derive(Clone, Copy)]
pub enum CharClass {
    /// White space.
    Blank,
    /// What an identifier holds behind its first character.
    Word,
    /// The decimal digits.
    Digit,
    /// What a comment holds: everything up to the end of the line.
    Comment,
}

/// Whether a character belongs to a class.
pub open spec fn in_class(class: CharClass, c: char) -> bool {
    match class {
        CharClass::Blank => is_blank(c),
        CharClass::Word => is_word_char(c),
        CharClass::Digit => is_digit(c),
        CharClass::Comment => c != '\n',
    }
}

/// The place behind the longest run of characters of a class that begins at
/// `cur`.
pub open spec fn scan(src: Seq<char>, cur: Cursor, class: CharClass) -> Cursor
    decreases src.len() - cur.index,
{
    if 0 <= cur.index < src.len() && in_class(class, src[cur.index]) {
        scan(src, cur.step(src[cur.index]), class)
    } else {
        cur
    }
}

/// A run ends within the text, no earlier than it begins, and before a
/// character that is not of its class.
pub proof fn lemma_scan_bounds(src: Seq<char>, cur: Cursor, class: CharClass)
    requires
        0 <= cur.index <= src.len(),
    ensures
        cur.index <= scan(src, cur, class).index <= src.len(),
        scan(src, cur, class).index < src.len() ==> !in_class(
            class,
            src[scan(src, cur, class).index],
        ),
    decreases src.len() - cur.index,
{
    if cur.index < src.len() && in_class(class, src[cur.index]) {
        lemma_scan_bounds(src, cur.step(src[cur.index]), class);
    }
}

/// Whether an identifier or a keyword can begin with a character.
pub open spec fn is_word_start(c: char) -> bool {
    ('a' <= c <= 'z') || ('A' <= c <= 'Z') || c == '_'
}

/// The token that a word is, if it is a keyword.
pub open spec fn keyword_of(word: Seq<char>) -> Option<(TokenType, Option<TokenData>)> {
    if word == "i32"@ {
        Some((TokenType::Type, Some(TokenData::Type(ValType::I32))))
    } else if word == "f32"@ {
        Some((TokenType::Type, Some(TokenData::Type(ValType::F32))))
    } else if word == "func"@ {
        Some((TokenType::Func, None))
    } else if word == "return"@ {
        Some((TokenType::Return, None))
    } else if word == "let"@ {
        Some((TokenType::Let, None))
    } else if word == "var"@ {
        Some((TokenType::Var, None))
    } else if word == "null"@ {
        Some((TokenType::Null, None))
    } else {
        None
    }
}

/// The token that a single character is, if it is one.
pub open spec fn symbol_of(c: char) -> Option<(TokenType, Option<TokenData>)> {
    if c == '(' {
        Some((TokenType::Paren(true), None))
    } else if c == ')' {
        Some((TokenType::Paren(false), None))
    } else if c == '{' {
        Some((TokenType::Brace(true), None))
    } else if c == '}' {
        Some((TokenType::Brace(false), None))
    } else if c == ':' {
        Some((TokenType::Colon, None))
    } else if c == ',' {
        Some((TokenType::Comma, None))
    } else if c == ';' {
        Some((TokenType::Semicolon, None))
    } else if c == '=' {
        Some((TokenType::Assign, None))
    } else if c == '+' {
        Some((TokenType::Plus, Some(TokenData::Operator(OperatorType::Add))))
    } else if c == '-' {
        Some((TokenType::Minus, Some(TokenData::Operator(OperatorType::Sub))))
    } else if c == '*' {
        Some((TokenType::Mul, Some(TokenData::Operator(OperatorType::Mul))))
    } else if c == '/' {
        Some((TokenType::Div, Some(TokenData::Operator(OperatorType::Div))))
    } else {
        None
    }
}

/// A token as the rules give it: its kind, what it carries, and the places
/// where it begins and ends.
pub struct Lexed {
    pub token_type: TokenType,
    pub data: Option<TokenData>,
    pub start: Cursor,
    pub end: Cursor,
}

/// The token that begins at `start` with the character `c`, which is neither
/// white space nor the beginning of a comment.
pub open spec fn token_from(src: Seq<char>, start: Cursor, c: char) -> Lexed {
    let behind = start.step(c);
    if c == '\0' {
        Lexed { token_type: TokenType::Eof, data: None, start, end: behind }
    } else if is_word_start(c) {
        let end = scan(src, behind, CharClass::Word);
        match keyword_of(src.subrange(start.index, end.index)) {
            Some((token_type, data)) => Lexed { token_type, data, start, end },
            None => Lexed { token_type: TokenType::Identifier, data: None, start, end },
        }
    } else if is_digit(c) {
        let whole = scan(src, behind, CharClass::Digit);
        if whole.index < src.len() && src[whole.index] == '.' {
            Lexed {
                token_type: TokenType::Float,
                data: Some(TokenData::Type(ValType::F32)),
                start,
                end: scan(src, whole.step('.'), CharClass::Digit),
            }
        } else {
            Lexed {
                token_type: TokenType::Integer,
                data: Some(TokenData::Type(ValType::I32)),
                start,
                end: whole,
            }
        }
    } else {
        match symbol_of(c) {
            Some((token_type, data)) => Lexed { token_type, data, start, end: behind },
            None => Lexed { token_type: TokenType::Error, data: None, start, end: behind },
        }
    }
}

/// Whether a comment begins at `at`: two slashes.
pub open spec fn comment_begins(src: Seq<char>, at: Cursor) -> bool {
    0 <= at.index && at.index + 1 < src.len() && src[at.index] == '/' && src[at.index + 1] == '/'
}

/// The first token at or behind `cur`. White space and comments before it are
/// passed over; at the end of the text the token is `Eof`, with no text.
pub open spec fn next_token(src: Seq<char>, cur: Cursor) -> Lexed
    decreases src.len() - cur.index,
{
    let start = scan(src, cur, CharClass::Blank);
    if 0 <= cur.index && start.index < src.len() {
        if comment_begins(src, start) {
            let end = scan(src, start.step('/').step('/'), CharClass::Comment);
            proof {
                lemma_scan_bounds(src, cur, CharClass::Blank);
                lemma_scan_bounds(src, start.step('/').step('/'), CharClass::Comment);
            }
            next_token(src, end)
        } else {
            token_from(src, start, src[start.index])
        }
    } else {
        Lexed { token_type: TokenType::Eof, data: None, start, end: start }
    }
}

/// What a token says: its kind, the characters of its text, where it stands,
/// and what it carries.
pub struct TokenModel {
    pub token_type: TokenType,
    pub lexeme: Seq<char>,
    pub pos: Position,
    pub data: Option<TokenData>,
}

impl<'s> View for Token<'s> {
    type V = TokenModel;

    open spec fn view(&self) -> TokenModel {
        TokenModel {
            token_type: self.token_type,
            lexeme: self.lexeme@,
            pos: self.pos,
            data: self.data,
        }
    }
}

/// What the token `lexed` of the text `src` says: its text is the characters
/// between its two places, its line and column are those of its beginning, and
/// its range is the bytes that it takes in the text.
pub open spec fn token_model(src: Seq<char>, lexed: Lexed) -> TokenModel {
    TokenModel {
        token_type: lexed.token_type,
        lexeme: src.subrange(lexed.start.index, lexed.end.index),
        pos: Position {
            line: lexed.start.line,
            column: lexed.start.column,
            range: Range {
                start: byte_offset(src, lexed.start.index) as usize,
                end: byte_offset(src, lexed.end.index) as usize,
            },
        },
        data: lexed.data,
    }
}

/// The tokens of a text from `at` on. The last of them is the `Eof` at the end
/// of the text, which alone has no characters.
pub open spec fn tokens(src: Seq<char>, at: Cursor) -> Seq<TokenModel>
    decreases src.len() - at.index,
{
    let lexed = next_token(src, at);
    if 0 <= at.index <= src.len() && lexed.start.index < lexed.end.index {
        proof {
            lemma_next_token_bounds(src, at);
        }
        seq![token_model(src, lexed)] + tokens(src, lexed.end)
    } else {
        seq![token_model(src, lexed)]
    }
}

/// Whether a sequence of tokens is one that a text can give: every token
/// carries what its kind asks for, and the last token is `Eof`.
#[verifier::opaque]
pub open spec fn is_stream(toks: Seq<TokenModel>) -> bool {
    &&& toks.len() > 0
    &&& toks.last().token_type == TokenType::Eof
    &&& forall|i: int| 0 <= i < toks.len() ==> carries((#[trigger] toks[i]).token_type, toks[i].data)
}

/// The tokens that are left when the first `n` of a stream are taken. The
/// `Eof` at the end stays, however many are taken.
#[verifier::opaque]
pub open spec fn rest(toks: Seq<TokenModel>, n: nat) -> Seq<TokenModel> {
    if n < toks.len() {
        toks.skip(n as int)
    } else {
        seq![toks.last()]
    }
}

/// The tokens of a text are a stream.
pub proof fn lemma_tokens_are_stream(src: Seq<char>, at: Cursor)
    requires
        0 <= at.index <= src.len(),
    ensures
        is_stream(tokens(src, at)),
        tokens(src, at)[0] == token_model(src, next_token(src, at)),
    decreases src.len() - at.index,
{
    reveal(is_stream);
    lemma_next_token_bounds(src, at);
    lemma_next_token_carries(src, at);
    let lexed = next_token(src, at);
    if lexed.start.index < lexed.end.index {
        lemma_tokens_are_stream(src, lexed.end);
        let head = seq![token_model(src, lexed)];
        let tail = tokens(src, lexed.end);
        assert((head + tail).last() == tail.last());
        assert forall|i: int| 0 <= i < (head + tail).len() implies carries(
            (#[trigger] (head + tail)[i]).token_type,
            (head + tail)[i].data,
        ) by {
            if i > 0 {
                assert((head + tail)[i] == tail[i - 1]);
            }
        }
    }
}

/// A token without characters is the `Eof` at the end of the text, and behind
/// it the same token comes again.
pub proof fn lemma_final_token(src: Seq<char>, at: Cursor)
    requires
        0 <= at.index <= src.len(),
        next_token(src, at).start.index >= next_token(src, at).end.index,
    ensures
        next_token(src, at).start == next_token(src, at).end,
        next_token(src, at).end.index == src.len(),
        next_token(src, at).token_type == TokenType::Eof,
        next_token(src, at).data is None,
        next_token(src, next_token(src, at).end) == next_token(src, at),
    decreases src.len() - at.index,
{
    lemma_next_token_bounds(src, at);
    lemma_scan_bounds(src, at, CharClass::Blank);
    let start = scan(src, at, CharClass::Blank);
    if start.index < src.len() {
        if comment_begins(src, start) {
            let body = start.step('/').step('/');
            lemma_scan_bounds(src, body, CharClass::Comment);
            lemma_final_token(src, scan(src, body, CharClass::Comment));
        } else {
            let c = src[start.index];
            let behind = start.step(c);
            lemma_scan_bounds(src, behind, CharClass::Word);
            lemma_scan_bounds(src, behind, CharClass::Digit);
            let whole = scan(src, behind, CharClass::Digit);
            if whole.index < src.len() {
                lemma_scan_bounds(src, whole.step('.'), CharClass::Digit);
            }
        }
    }
}

/// Behind the first token of a text come the tokens that are left of its
/// stream.
pub proof fn lemma_tokens_step(src: Seq<char>, at: Cursor)
    requires
        0 <= at.index <= src.len(),
    ensures
        tokens(src, next_token(src, at).end) == rest(tokens(src, at), 1),
{
    reveal(is_stream);
    reveal(rest);
    lemma_next_token_bounds(src, at);
    let lexed = next_token(src, at);
    if lexed.start.index < lexed.end.index {
        lemma_tokens_are_stream(src, lexed.end);
        assert((seq![token_model(src, lexed)] + tokens(src, lexed.end)).skip(1) =~= tokens(
            src,
            lexed.end,
        ));
    } else {
        lemma_final_token(src, at);
    }
}

/// What is left of a stream is a stream, and no longer than the stream.
pub proof fn lemma_rest_is_stream(toks: Seq<TokenModel>, n: nat)
    requires
        is_stream(toks),
    ensures
        is_stream(rest(toks, n)),
        toks.len() >= 1,
        rest(toks, n).len() <= toks.len(),
        n >= 1 && toks.len() >= 2 ==> rest(toks, n).len() < toks.len(),
        toks[0].token_type != TokenType::Eof ==> toks.len() >= 2,
        carries(toks[0].token_type, toks[0].data),
        rest(toks, 0) == toks,
{
    reveal(is_stream);
    reveal(rest);
    assert(toks.skip(0) =~= toks);
}

/// Taking `n` tokens and then `m` is taking `n + m`.
pub proof fn lemma_rest_rest(toks: Seq<TokenModel>, n: nat, m: nat)
    requires
        is_stream(toks),
    ensures
        rest(rest(toks, n), m) == rest(toks, n + m),
{
    reveal(is_stream);
    reveal(rest);
    if n < toks.len() {
        if m < toks.len() - n {
            assert(toks.skip(n as int).skip(m as int) =~= toks.skip((n + m) as int));
        } else {
            assert(toks.skip(n as int).last() == toks.last());
        }
    } else {
        assert(seq![toks.last()].last() == toks.last());
        if m == 0 {
            assert(seq![toks.last()].skip(0) =~= seq![toks.last()]);
        }
    }
}

/// Whether `token` is the token `lexed` of the text `src`: it has its kind and
/// what it carries, its text is the characters between the two places, its
/// line and column are those of its beginning, and its range is the bytes that
/// it takes in the text.
pub open spec fn depicts(token: Token, src: Seq<char>, lexed: Lexed) -> bool {
    &&& token.token_type == lexed.token_type
    &&& token.data == lexed.data
    &&& token.lexeme@ == src.subrange(lexed.start.index, lexed.end.index)
    &&& token.pos.line == lexed.start.line
    &&& token.pos.column == lexed.start.column
    &&& token.pos.range.start == byte_offset(src, lexed.start.index)
    &&& token.pos.range.end == byte_offset(src, lexed.end.index)
}

/// Whether a token of a kind carries what its kind asks for: a type name and a
/// number carry a type, the type of a whole number being `I32` and that of one
/// with a point `F32`; a sign carries its operator; any other token carries
/// nothing.
pub open spec fn carries(token_type: TokenType, data: Option<TokenData>) -> bool {
    match token_type {
        TokenType::Type => data matches Some(TokenData::Type(_)),
        TokenType::Integer => data == Some(TokenData::Type(ValType::I32)),
        TokenType::Float => data == Some(TokenData::Type(ValType::F32)),
        TokenType::Plus => data == Some(TokenData::Operator(OperatorType::Add)),
        TokenType::Minus => data == Some(TokenData::Operator(OperatorType::Sub)),
        TokenType::Mul => data == Some(TokenData::Operator(OperatorType::Mul)),
        TokenType::Div => data == Some(TokenData::Operator(OperatorType::Div)),
        _ => data is None,
    }
}

/// Every token of a text carries what its kind asks for.
pub proof fn lemma_next_token_carries(src: Seq<char>, cur: Cursor)
    requires
        0 <= cur.index <= src.len(),
    ensures
        carries(next_token(src, cur).token_type, next_token(src, cur).data),
    decreases src.len() - cur.index,
{
    lemma_scan_bounds(src, cur, CharClass::Blank);
    let start = scan(src, cur, CharClass::Blank);
    if start.index < src.len() && comment_begins(src, start) {
        let body = start.step('/').step('/');
        lemma_scan_bounds(src, body, CharClass::Comment);
        lemma_next_token_carries(src, scan(src, body, CharClass::Comment));
    }
}

/// A token begins and ends within the text, and ends no earlier than the
/// lexer stood before it.
pub proof fn lemma_next_token_bounds(src: Seq<char>, cur: Cursor)
    requires
        0 <= cur.index <= src.len(),
    ensures
        cur.index <= next_token(src, cur).start.index <= next_token(src, cur).end.index
            <= src.len(),
        next_token(src, cur).token_type != TokenType::Eof ==> next_token(src, cur).start.index
            < next_token(src, cur).end.index,
    decreases src.len() - cur.index,
{
    lemma_scan_bounds(src, cur, CharClass::Blank);
    let start = scan(src, cur, CharClass::Blank);
    if start.index < src.len() {
        if comment_begins(src, start) {
            let body = start.step('/').step('/');
            lemma_scan_bounds(src, body, CharClass::Comment);
            lemma_next_token_bounds(src, scan(src, body, CharClass::Comment));
        } else {
            let c = src[start.index];
            let behind = start.step(c);
            lemma_scan_bounds(src, behind, CharClass::Word);
            lemma_scan_bounds(src, behind, CharClass::Digit);
            let whole = scan(src, behind, CharClass::Digit);
            if whole.index < src.len() {
                lemma_scan_bounds(src, whole.step('.'), CharClass::Digit);
            }
        }
    }
}

} // verus!
