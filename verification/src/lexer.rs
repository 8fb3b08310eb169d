//! The lexer: turns source text into a sequence of tokens, tracking the line
//! and column of each.

use vstd::prelude::*;
use crate::lexemes::{
    Cursor, LexErrorKindView, LexErrorView, Lexeme, after, closing_quote, digits_end, ident_end,
    is_digit, is_ident_part, lemma_after_push, lemma_digits_end_stops, lemma_lexeme_advances,
    lexeme_at, operator, origin, punctuation, scan, with_equals,
};
use crate::token::{Token, TokenKind, TokenView, keyword_of, tokens_view};

verus! {

/// What went wrong while lexing.
#[derive(Debug, PartialEq)]
pub enum LexErrorKind {
    /// A character that starts no token.
    UnknownSymbol(char),
    /// A string literal without a closing quote; holds the text after the
    /// opening quote.
    UnterminatedString(String),
}

/// A lexing failure, with the line and column that the scanner had reached:
/// the column after an unknown symbol, and the column of the last character
/// of a source that ends within a string.
#[derive(Debug, PartialEq)]
pub struct LexError {
    pub kind: LexErrorKind,
    pub ln: usize,
    pub col: usize,
}

impl View for LexErrorKind {
    type V = LexErrorKindView;

    open spec fn view(&self) -> LexErrorKindView {
        match self {
            LexErrorKind::UnknownSymbol(c) => LexErrorKindView::UnknownSymbol(*c),
            LexErrorKind::UnterminatedString(s) => LexErrorKindView::UnterminatedString(s@),
        }
    }
}

impl View for LexError {
    type V = LexErrorView;

    open spec fn view(&self) -> LexErrorView {
        LexErrorView { kind: self.kind@, ln: self.ln as int, col: self.col as int }
    }
}

/// The view of what lexing returns.
pub open spec fn lexed_view(result: Result<Vec<Token>, LexError>) -> Result<
    Seq<TokenView>,
    LexErrorView,
> {
    match result {
        Ok(tokens) => Ok(tokens_view(tokens@)),
        Err(error) => Err(error@),
    }
}

/// The characters of `input`, in order.
pub fn chars_of(input: &str) -> (chars: Vec<char>)
    ensures
        chars@ == input@,
{
    broadcast use vstd::string::group_string_axioms;

    let mut chars: Vec<char> = Vec::new();
    for c in it: input.chars()
        invariant
            it.seq() == input@,
            chars@ == it.seq().take(it.index() as int),
    {
        chars.push(c);
        assert(chars@ =~= it.seq().take(it.index() + 1));
    }
    assert(chars@ =~= input@);
    chars
}

fn punctuation_of(c: char) -> (kind: Option<TokenKind>)
    ensures
        kind == punctuation(c),
{
    if c == '+' {
        Some(TokenKind::Plus)
    } else if c == '-' {
        Some(TokenKind::Minus)
    } else if c == '*' {
        Some(TokenKind::Star)
    } else if c == '/' {
        Some(TokenKind::Slash)
    } else if c == '{' {
        Some(TokenKind::Lbrace)
    } else if c == '}' {
        Some(TokenKind::Rbrace)
    } else if c == '(' {
        Some(TokenKind::Lparen)
    } else if c == ')' {
        Some(TokenKind::Rparen)
    } else if c == ',' {
        Some(TokenKind::Comma)
    } else if c == ';' {
        Some(TokenKind::Semicolon)
    } else if c == '.' {
        Some(TokenKind::Dot)
    } else {
        None
    }
}

fn operator_of(c: char) -> (kind: Option<TokenKind>)
    ensures
        kind == operator(c),
{
    if c == '=' {
        Some(TokenKind::Assign)
    } else if c == '!' {
        Some(TokenKind::Bang)
    } else if c == '<' {
        Some(TokenKind::LessThan)
    } else if c == '>' {
        Some(TokenKind::GreaterThan)
    } else {
        None
    }
}

fn with_equals_of(alone: TokenKind) -> (kind: TokenKind)
    ensures
        kind == with_equals(alone),
{
    match alone {
        TokenKind::Assign => TokenKind::Equals,
        TokenKind::Bang => TokenKind::NotEquals,
        TokenKind::LessThan => TokenKind::LessEquals,
        _ => TokenKind::GreaterEquals,
    }
}

fn digit(c: char) -> (b: bool)
    ensures
        b == is_digit(c),
{
    '0' <= c && c <= '9'
}

fn ident_part(c: char) -> (b: bool)
    ensures
        b == is_ident_part(c),
{
    if c <= '\x7f' {
        ('a' <= c && c <= 'z') || ('A' <= c && c <= 'Z') || c == '_'
    } else {
        c.is_alphabetic()
    }
}

/// A lexer over one source text. It keeps the tokens produced so far and the
/// position it has reached.
#[derive(Debug)]
pub struct Lexer {
    source: Vec<char>,
    tokens: Vec<Token>,
    startidx: usize,  // start index of the current token's text
    endidx: usize,  // end index of the current token's text
    col: usize,
    ln: usize,
}

impl Lexer {
    /// The characters of the source text.
    pub closed spec fn source(&self) -> Seq<char> {
        self.source@
    }

    /// The tokens produced so far.
    pub closed spec fn emitted(&self) -> Seq<TokenView> {
        tokens_view(self.tokens@)
    }

    /// The position the lexer has reached.
    pub closed spec fn cursor(&self) -> Cursor {
        Cursor { idx: self.endidx as int, ln: self.ln as int, col: self.col as int }
    }

    /// The lexer's indices lie within the source, and its line and column fit
    /// what it has read.
    pub closed spec fn wf(&self) -> bool {
        &&& self.startidx <= self.endidx <= self.source.len()
        &&& 4 * self.source.len() + 1 <= usize::MAX
        &&& 1 <= self.ln <= 1 + self.startidx
        &&& 1 + (self.endidx - self.startidx) <= self.col <= 1 + 4 * self.startidx + (self.endidx
            - self.startidx)
    }

    /// Where the token being read starts.
    spec fn token_start(&self) -> Cursor {
        Cursor {
            idx: self.startidx as int,
            ln: self.ln as int,
            col: self.col - (self.endidx - self.startidx),
        }
    }

    /// A lexer at the start of `input`.
    pub fn new(input: &str) -> (lexer: Lexer)
        requires
            4 * input@.len() + 1 <= usize::MAX,
        ensures
            lexer.wf(),
            lexer.source() == input@,
            lexer.emitted() == Seq::<TokenView>::empty(),
            lexer.cursor() == origin(),
    {
        let lexer = Lexer {
            source: chars_of(input),
            tokens: Vec::new(),
            col: 1,
            ln: 1,
            startidx: 0,
            endidx: 0,
        };
        assert(lexer.emitted() =~= Seq::<TokenView>::empty());
        lexer
    }

    /// Lexes the rest of the source. On success the result holds every token
    /// produced so far, the last of them the end-of-input token.
    pub fn parse(&mut self) -> (result: Result<Vec<Token>, LexError>)
        requires
            old(self).wf(),
        ensures
            final(self).wf(),
            final(self).source() == old(self).source(),
            lexed_view(result) == after(
                old(self).emitted(),
                scan(old(self).source(), old(self).cursor()),
            ),
            old(self).emitted().len() == 0 ==> lexed_view(result) == scan(
                old(self).source(),
                old(self).cursor(),
            ),
            result is Ok ==> final(self).emitted() == tokens_view(result->Ok_0@),
            result is Ok ==> final(self).cursor().idx == final(self).source().len(),
            result matches Ok(tokens) ==> tokens@.len() >= 1 && tokens@.last().kind
                == TokenKind::EOF,
    {
        self.startidx = self.endidx;
        let ghost goal = after(old(self).emitted(), scan(old(self).source(), old(self).cursor()));
        proof {
            let rest = scan(old(self).source(), old(self).cursor());
            if old(self).emitted().len() == 0 && rest is Ok {
                assert(old(self).emitted() + rest->Ok_0 =~= rest->Ok_0);
            }
        }
        while self.endidx < self.source.len()
            invariant
                self.wf(),
                self.startidx == self.endidx,
                self.source@ == old(self).source@,
                goal == after(old(self).emitted(), scan(old(self).source(), old(self).cursor())),
                after(self.emitted(), scan(self.source@, self.cursor())) == goal,
            decreases self.source.len() - self.endidx,
        {
            let ghost at = self.cursor();
            let ghost before = self.emitted();
            proof {
                lemma_lexeme_advances(self.source@, at);
            }
            let ch = self.source[self.endidx];
            self.endidx += 1;
            self.col += 1;

            if let Some(kind) = punctuation_of(ch) {
                self.add_token(kind);
            } else if let Some(alone) = operator_of(ch) {
                if self.curch_is('=') {
                    self.advance();
                    self.add_token(with_equals_of(alone));
                } else {
                    self.add_token(alone);
                }
            } else if ch == ' ' {
                self.startidx += 1;
            } else if ch == '\t' {
                self.col += 3;
                self.startidx += 1;
            } else if ch == '\n' {
                self.startidx += 1;
                self.col = 1;
                self.ln += 1;
            } else if ch == '\r' {
                // a carriage return puts the cursor back at the start of the line
                self.col = 1;
                self.startidx += 1;
            } else if digit(ch) {
                self.number();
            } else if ch == '"' {
                assert(self.token_start() == at);
                match self.string() {
                    Ok(()) => {},
                    Err(error) => {
                        assert(scan(self.source@, at) == Err::<Seq<TokenView>, LexErrorView>(
                            error@,
                        ));
                        return Err(error);
                    },
                }
            } else if ident_part(ch) {
                self.ident();
            } else {
                let error = self.error(LexErrorKind::UnknownSymbol(ch));
                assert(scan(self.source@, at) == Err::<Seq<TokenView>, LexErrorView>(error@));
                return Err(error);
            }
            proof {
                match lexeme_at(self.source@, at) {
                    Lexeme::Emit(token, next) => {
                        assert(self.emitted() == before.push(token));
                        lemma_after_push(before, token, scan(self.source@, next));
                    },
                    _ => {},
                }
            }
        }

        let ghost before = self.emitted();
        self.add_token(TokenKind::EOF);
        proof {
            assert(self.source@.subrange(self.endidx as int, self.endidx as int) =~= Seq::<
                char,
            >::empty());
            assert(before.push(self.emitted().last()) =~= before + seq![self.emitted().last()]);
        }
        let tokens = clone_tokens(&self.tokens);
        proof {
            let last = self.tokens@.len() - 1;
            assert(tokens_view(tokens@)[last] == tokens_view(self.tokens@)[last]);
        }
        Ok(tokens)
    }

    /// Reads the rest of an identifier or keyword whose first character has
    /// been read, and adds its token.
    fn ident(&mut self)
        requires
            old(self).wf(),
            old(self).endidx == old(self).startidx + 1,
            is_ident_part(old(self).source@[old(self).startidx as int]),
        ensures
            final(self).wf(),
            final(self).startidx == final(self).endidx,
            final(self).source@ == old(self).source@,
            lexeme_at(old(self).source@, old(self).token_start()) == Lexeme::Emit(
                final(self).emitted().last(),
                final(self).cursor(),
            ),
            final(self).emitted() == old(self).emitted().push(final(self).emitted().last()),
    {
        loop
            invariant
                self.wf(),
                self.startidx == old(self).startidx,
                self.startidx < self.endidx,
                self.source@ == old(self).source@,
                self.tokens@ == old(self).tokens@,
                self.token_start() == old(self).token_start(),
                ident_end(self.source@, self.endidx as int) == ident_end(
                    self.source@,
                    old(self).endidx as int,
                ),
            ensures
                self.endidx == ident_end(self.source@, old(self).endidx as int),
            decreases self.source.len() - self.endidx,
        {
            match self.curch() {
                Some(ch) => {
                    if ident_part(ch) {
                        self.advance();
                    } else {
                        break ;
                    }
                },
                None => {
                    break ;
                },
            }
        }

        let text = self.text_between(self.startidx, self.endidx);
        let kind = match keyword_of(&text) {
            Some(keyword) => keyword,
            None => TokenKind::Identifier,
        };
        self.add_token(kind);
    }

    /// Reads the rest of a string literal whose opening quote has been read,
    /// and adds its token, without the quotes.
    fn string(&mut self) -> (result: Result<(), LexError>)
        requires
            old(self).wf(),
            old(self).endidx == old(self).startidx + 1,
            old(self).source@[old(self).startidx as int] == '"',
        ensures
            final(self).wf(),
            final(self).source@ == old(self).source@,
            match result {
                Ok(()) => {
                    &&& final(self).startidx == final(self).endidx
                    &&& lexeme_at(old(self).source@, old(self).token_start()) == Lexeme::Emit(
                        final(self).emitted().last(),
                        final(self).cursor(),
                    )
                    &&& final(self).emitted() == old(self).emitted().push(
                        final(self).emitted().last(),
                    )
                },
                Err(error) => lexeme_at(old(self).source@, old(self).token_start())
                    == Lexeme::Fail(error@),
            },
    {
        loop
            invariant
                self.wf(),
                self.startidx == old(self).startidx,
                self.startidx < self.endidx,
                self.source@ == old(self).source@,
                self.tokens@ == old(self).tokens@,
                self.token_start() == old(self).token_start(),
                closing_quote(self.source@, self.endidx as int) == closing_quote(
                    self.source@,
                    old(self).endidx as int,
                ),
            ensures
                self.endidx == closing_quote(self.source@, old(self).endidx as int),
                self.endidx == self.source.len() || self.source@[self.endidx as int] == '"',
            decreases self.source.len() - self.endidx,
        {
            match self.curch() {
                Some(ch) => {
                    if ch == '"' {
                        break ;
                    }
                    if ch == '\\' && self.peek().is_some() {
                        self.advance();
                    }
                    self.advance();
                },
                None => {
                    break ;
                },
            }
        }

        // if there's no matching quote
        if !self.curch_is('"') {
            let rest = self.text_between(self.startidx + 1, self.endidx);
            let mut error = self.error(LexErrorKind::UnterminatedString(rest));
            if self.endidx - self.startidx >= 2 {
                // the error is reported at the last character
                error.col = error.col - 1;
            }
            return Err(error);
        }
        // the token starts at the opening quote, and its text leaves the quotes out

        self.startidx += 1;
        self.col -= 1;
        self.add_token(TokenKind::String);

        // step over the closing quote
        self.endidx += 1;
        self.startidx = self.endidx;
        self.col += 2;
        Ok(())
    }

    /// Reads the rest of a number whose first digit has been read, and adds
    /// its token.
    fn number(&mut self)
        requires
            old(self).wf(),
            old(self).endidx == old(self).startidx + 1,
            is_digit(old(self).source@[old(self).startidx as int]),
        ensures
            final(self).wf(),
            final(self).startidx == final(self).endidx,
            final(self).source@ == old(self).source@,
            lexeme_at(old(self).source@, old(self).token_start()) == Lexeme::Emit(
                final(self).emitted().last(),
                final(self).cursor(),
            ),
            final(self).emitted() == old(self).emitted().push(final(self).emitted().last()),
    {
        self.digits();

        let kind = if self.curch_is('.') {
            self.advance();
            TokenKind::Float
        } else {
            TokenKind::Integer
        };

        self.digits();

        proof {
            let src = self.source@;
            let start = self.startidx as int;
            let whole = digits_end(src, start);
            assert(whole == digits_end(src, start + 1));
            lemma_digits_end_stops(src, start + 1);
        }
        self.add_token(kind);
    }

    /// Reads on to the end of a run of digits.
    fn digits(&mut self)
        requires
            old(self).wf(),
            old(self).startidx < old(self).endidx,
        ensures
            final(self).wf(),
            final(self).startidx == old(self).startidx,
            final(self).source@ == old(self).source@,
            final(self).tokens@ == old(self).tokens@,
            final(self).token_start() == old(self).token_start(),
            final(self).endidx == digits_end(old(self).source@, old(self).endidx as int),
            final(self).endidx >= old(self).endidx,
    {
        loop
            invariant
                self.wf(),
                self.startidx == old(self).startidx,
                self.startidx < self.endidx,
                self.source@ == old(self).source@,
                self.tokens@ == old(self).tokens@,
                self.token_start() == old(self).token_start(),
                digits_end(self.source@, self.endidx as int) == digits_end(
                    self.source@,
                    old(self).endidx as int,
                ),
                self.endidx >= old(self).endidx,
            ensures
                self.endidx == digits_end(self.source@, old(self).endidx as int),
            decreases self.source.len() - self.endidx,
        {
            match self.curch() {
                Some(ch) => {
                    if digit(ch) {
                        self.advance();
                    } else {
                        break ;
                    }
                },
                None => {
                    break ;
                },
            }
        }
    }

    /// The characters of the source from `from` up to `to`, as a string.
    fn text_between(&self, from: usize, to: usize) -> (text: String)
        requires
            from <= to <= self.source.len(),
        ensures
            text@ == self.source@.subrange(from as int, to as int),
    {
        let mut text = String::new();
        let mut i: usize = from;
        while i < to
            invariant
                from <= i <= to <= self.source.len(),
                text@ == self.source@.subrange(from as int, i as int),
            decreases to - i,
        {
            text.push(self.source[i]);
            assert(self.source@.subrange(from as int, i as int).push(self.source@[i as int])
                =~= self.source@.subrange(from as int, i + 1));
            i += 1;
        }
        text
    }

    /// Adds a token of kind `kind` whose text is what has been read since the
    /// last token, and starts the next token where this one ends.
    fn add_token(&mut self, kind: TokenKind)
        requires
            old(self).wf(),
        ensures
            final(self).wf(),
            final(self).source@ == old(self).source@,
            final(self).startidx == old(self).endidx,
            final(self).endidx == old(self).endidx,
            final(self).ln == old(self).ln,
            final(self).col == old(self).col,
            final(self).emitted() == old(self).emitted().push(
                TokenView {
                    kind,
                    text: old(self).source@.subrange(
                        old(self).startidx as int,
                        old(self).endidx as int,
                    ),
                    ln: old(self).token_start().ln,
                    col: old(self).token_start().col,
                },
            ),
    {
        let len = self.endidx - self.startidx;
        let text = self.text_between(self.startidx, self.endidx);
        let token = Token { kind: kind, text: text, ln: self.ln, col: self.col - len };
        let ghost before = self.tokens@;
        self.tokens.push(token);
        assert(tokens_view(self.tokens@) =~= tokens_view(before).push(token@));
        self.startidx = self.endidx;
    }

    /// Takes one more character into the current token.
    fn advance(&mut self)
        requires
            old(self).wf(),
            old(self).endidx < old(self).source.len(),
        ensures
            final(self).wf(),
            final(self).source@ == old(self).source@,
            final(self).tokens@ == old(self).tokens@,
            final(self).startidx == old(self).startidx,
            final(self).endidx == old(self).endidx + 1,
            final(self).ln == old(self).ln,
            final(self).col == old(self).col + 1,
    {
        self.endidx += 1;
        self.col += 1;
    }

    /// The character after the next one, if there is one.
    fn peek(&self) -> (next: Option<char>)
        requires
            self.wf(),
        ensures
            next == if self.endidx + 1 < self.source.len() {
                Some(self.source@[self.endidx + 1])
            } else {
                None
            },
    {
        if self.endidx < self.source.len() && self.endidx + 1 < self.source.len() {
            Some(self.source[self.endidx + 1])
        } else {
            None
        }
    }

    /// Whether the next character is `ch`.
    fn curch_is(&self, ch: char) -> (is: bool)
        requires
            self.wf(),
        ensures
            is == (self.endidx < self.source.len() && self.source@[self.endidx as int] == ch),
    {
        match self.curch() {
            Some(peek_ch) => peek_ch == ch,
            None => false,
        }
    }

    /// The next character, if there is one.
    fn curch(&self) -> (next: Option<char>)
        requires
            self.wf(),
        ensures
            next == if self.endidx < self.source.len() {
                Some(self.source@[self.endidx as int])
            } else {
                None
            },
    {
        if self.endidx < self.source.len() {
            Some(self.source[self.endidx])
        } else {
            None
        }
    }

    /// An error of kind `kind` at the lexer's current line and column.
    fn error(&self, kind: LexErrorKind) -> (error: LexError)
        ensures
            error@ == (LexErrorView { kind: kind@, ln: self.ln as int, col: self.col as int }),
    {
        LexError { kind: kind, ln: self.ln, col: self.col }
    }
}

/// A copy of `tokens`.
fn clone_tokens(tokens: &Vec<Token>) -> (copy: Vec<Token>)
    ensures
        tokens_view(copy@) == tokens_view(tokens@),
        copy@.len() == tokens@.len(),
{
    let mut copy: Vec<Token> = Vec::new();
    let mut i: usize = 0;
    while i < tokens.len()
        invariant
            i <= tokens.len(),
            copy@ == tokens@.subrange(0, i as int),
        decreases tokens.len() - i,
    {
        copy.push(tokens[i].clone());
        assert(tokens@.subrange(0, i as int).push(tokens@[i as int]) =~= tokens@.subrange(
            0,
            i + 1,
        ));
        i += 1;
    }
    assert(tokens@.subrange(0, tokens.len() as int) =~= tokens@);
    copy
}

} // verus!
