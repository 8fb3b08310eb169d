//! What a source text lexes to, as functions on mathematical values.
//!
//! The scanner reads the text once from left to right. It keeps a cursor: the
//! index of the next character with the line and column that the character
//! stands at.

use vstd::prelude::*;
use crate::std_specs::unicode_alphabetic;
use crate::token::{TokenKind, TokenView, keyword_kind};

verus! {

pub ghost enum LexErrorKindView {
    UnknownSymbol(char),
    UnterminatedString(Seq<char>),
}

pub ghost struct LexErrorView {
    pub kind: LexErrorKindView,
    pub ln: int,
    pub col: int,
}

/// A position of the scanner: the index of the next character, and the line
/// and column that character stands at.
pub ghost struct Cursor {
    pub idx: int,
    pub ln: int,
    pub col: int,
}

/// What the scanner finds at a cursor: a token, a gap, or a failure.
pub ghost enum Lexeme {
    Emit(TokenView, Cursor),
    Skip(Cursor),
    Fail(LexErrorView),
}

pub open spec fn is_digit(c: char) -> bool {
    '0' <= c <= '9'
}

pub open spec fn is_ascii_letter(c: char) -> bool {
    ('a' <= c <= 'z') || ('A' <= c <= 'Z')
}

/// A character of an identifier: an underscore or an alphabetic character.
pub open spec fn is_ident_part(c: char) -> bool {
    if c <= '\x7f' {
        is_ascii_letter(c) || c == '_'
    } else {
        unicode_alphabetic(c)
    }
}

/// The characters that separate tokens without forming one.
pub open spec fn is_blank(c: char) -> bool {
    c == ' ' || c == '\t' || c == '\n' || c == '\r'
}

/// The kind of a token that a single character always forms by itself.
pub open spec fn punctuation(c: char) -> Option<TokenKind> {
    if c == '+' {
        Some(TokenKind::Plus)
    } else if c == '-' {
        Some(TokenKind::Minus)
    } else if c == '*' {
        Some(TokenKind::Star)
    } else if c == '/' {
        Some(TokenKind::Slash)
    } else if c == '{' {
        Some(TokenKind::Lbrace)
    } else if c == '}' {
        Some(TokenKind::Rbrace)
    } else if c == '(' {
        Some(TokenKind::Lparen)
    } else if c == ')' {
        Some(TokenKind::Rparen)
    } else if c == ',' {
        Some(TokenKind::Comma)
    } else if c == ';' {
        Some(TokenKind::Semicolon)
    } else if c == '.' {
        Some(TokenKind::Dot)
    } else {
        None
    }
}

/// The kind of the operator that `c` forms where no `=` follows it.
pub open spec fn operator(c: char) -> Option<TokenKind> {
    if c == '=' {
        Some(TokenKind::Assign)
    } else if c == '!' {
        Some(TokenKind::Bang)
    } else if c == '<' {
        Some(TokenKind::LessThan)
    } else if c == '>' {
        Some(TokenKind::GreaterThan)
    } else {
        None
    }
}

/// The kind of the two-character operator made of the operator `alone` and
/// a following `=`.
pub open spec fn with_equals(alone: TokenKind) -> TokenKind {
    match alone {
        TokenKind::Assign => TokenKind::Equals,
        TokenKind::Bang => TokenKind::NotEquals,
        TokenKind::LessThan => TokenKind::LessEquals,
        _ => TokenKind::GreaterEquals,
    }
}

/// The end of the run of digits that starts at `i`.
pub open spec fn digits_end(src: Seq<char>, i: int) -> int
    decreases src.len() - i,
{
    if 0 <= i < src.len() && is_digit(src[i]) {
        digits_end(src, i + 1)
    } else {
        i
    }
}

/// The end of the run of identifier characters that starts at `i`.
pub open spec fn ident_end(src: Seq<char>, i: int) -> int
    decreases src.len() - i,
{
    if 0 <= i < src.len() && is_ident_part(src[i]) {
        ident_end(src, i + 1)
    } else {
        i
    }
}

/// The index of the first quote at or after `i` that no backslash escapes, or
/// the length of the source if there is none.
pub open spec fn closing_quote(src: Seq<char>, i: int) -> int
    decreases src.len() - i,
{
    if i < 0 || i >= src.len() {
        src.len() as int
    } else if src[i] == '"' {
        i
    } else if src[i] == '\\' && i + 1 < src.len() {
        closing_quote(src, i + 2)
    } else {
        closing_quote(src, i + 1)
    }
}

/// The end of the number that starts at `i`: digits, then optionally a dot
/// and more digits.
pub open spec fn number_end(src: Seq<char>, i: int) -> int {
    let whole = digits_end(src, i);
    if whole < src.len() && src[whole] == '.' {
        digits_end(src, whole + 1)
    } else {
        whole
    }
}

pub open spec fn number_kind(src: Seq<char>, i: int) -> TokenKind {
    let whole = digits_end(src, i);
    if whole < src.len() && src[whole] == '.' {
        TokenKind::Float
    } else {
        TokenKind::Integer
    }
}

/// A token of kind `kind` that starts at the cursor and ends before `end`,
/// on one line.
pub open spec fn emit(src: Seq<char>, at: Cursor, kind: TokenKind, end: int) -> Lexeme {
    Lexeme::Emit(
        TokenView { kind, text: src.subrange(at.idx, end), ln: at.ln, col: at.col },
        Cursor { idx: end, ln: at.ln, col: at.col + (end - at.idx) },
    )
}

/// What stands at the cursor, which points at a character of the source.
pub open spec fn lexeme_at(src: Seq<char>, at: Cursor) -> Lexeme
    recommends
        0 <= at.idx < src.len(),
{
    let c = src[at.idx];
    let eq_follows = at.idx + 1 < src.len() && src[at.idx + 1] == '=';
    if c == ' ' {
        Lexeme::Skip(Cursor { idx: at.idx + 1, ln: at.ln, col: at.col + 1 })
    } else if c == '\t' {
        Lexeme::Skip(Cursor { idx: at.idx + 1, ln: at.ln, col: at.col + 4 })
    } else if c == '\n' {
        Lexeme::Skip(Cursor { idx: at.idx + 1, ln: at.ln + 1, col: 1 })
    } else if c == '\r' {
        Lexeme::Skip(Cursor { idx: at.idx + 1, ln: at.ln, col: 1 })
    } else if punctuation(c) is Some {
        emit(src, at, punctuation(c)->0, at.idx + 1)
    } else if operator(c) is Some {
        if eq_follows {
            emit(src, at, with_equals(operator(c)->0), at.idx + 2)
        } else {
            emit(src, at, operator(c)->0, at.idx + 1)
        }
    } else if is_digit(c) {
        emit(src, at, number_kind(src, at.idx), number_end(src, at.idx))
    } else if c == '"' {
        let close = closing_quote(src, at.idx + 1);
        if close < src.len() {
            Lexeme::Emit(
                TokenView {
                    kind: TokenKind::String,
                    text: src.subrange(at.idx + 1, close),
                    ln: at.ln,
                    col: at.col,
                },
                Cursor { idx: close + 1, ln: at.ln, col: at.col + (close + 1 - at.idx) },
            )
        } else {
            Lexeme::Fail(
                LexErrorView {
                    kind: LexErrorKindView::UnterminatedString(
                        src.subrange(at.idx + 1, src.len() as int),
                    ),
                    ln: at.ln,
                    col: if at.idx + 2 <= src.len() {
                        at.col + (src.len() - at.idx) - 1
                    } else {
                        at.col + 1
                    },
                },
            )
        }
    } else if is_ident_part(c) {
        let end = ident_end(src, at.idx + 1);
        let text = src.subrange(at.idx, end);
        let kind = match keyword_kind(text) {
            Some(k) => k,
            None => TokenKind::Identifier,
        };
        emit(src, at, kind, end)
    } else {
        Lexeme::Fail(
            LexErrorView { kind: LexErrorKindView::UnknownSymbol(c), ln: at.ln, col: at.col + 1 },
        )
    }
}

/// The cursor after the lexeme at `at`, where there is one.
pub open spec fn next_cursor(src: Seq<char>, at: Cursor) -> Cursor {
    match lexeme_at(src, at) {
        Lexeme::Emit(_, next) => next,
        Lexeme::Skip(next) => next,
        Lexeme::Fail(_) => at,
    }
}

pub proof fn lemma_digits_end_bounds(src: Seq<char>, i: int)
    requires
        0 <= i <= src.len(),
    ensures
        i <= digits_end(src, i) <= src.len(),
    decreases src.len() - i,
{
    if i < src.len() && is_digit(src[i]) {
        lemma_digits_end_bounds(src, i + 1);
    }
}

pub proof fn lemma_ident_end_bounds(src: Seq<char>, i: int)
    requires
        0 <= i <= src.len(),
    ensures
        i <= ident_end(src, i) <= src.len(),
    decreases src.len() - i,
{
    if i < src.len() && is_ident_part(src[i]) {
        lemma_ident_end_bounds(src, i + 1);
    }
}

pub proof fn lemma_closing_quote_bounds(src: Seq<char>, i: int)
    requires
        0 <= i <= src.len(),
    ensures
        i <= closing_quote(src, i) <= src.len(),
    decreases src.len() - i,
{
    if i < src.len() && src[i] != '"' {
        if src[i] == '\\' && i + 1 < src.len() {
            lemma_closing_quote_bounds(src, i + 2);
        } else {
            lemma_closing_quote_bounds(src, i + 1);
        }
    }
}

/// A run of digits ends at the end of the source or before a character that
/// is no digit.
pub proof fn lemma_digits_end_stops(src: Seq<char>, i: int)
    requires
        0 <= i <= src.len(),
    ensures
        digits_end(src, digits_end(src, i)) == digits_end(src, i),
    decreases src.len() - i,
{
    if i < src.len() && is_digit(src[i]) {
        lemma_digits_end_stops(src, i + 1);
    }
}

/// Every lexeme that is not a failure moves the cursor forward, and keeps it
/// within the source and within the bounds that positions obey.
pub proof fn lemma_lexeme_advances(src: Seq<char>, at: Cursor)
    requires
        0 <= at.idx < src.len(),
    ensures
        !(lexeme_at(src, at) is Fail) ==> at.idx < next_cursor(src, at).idx <= src.len(),
        !(lexeme_at(src, at) is Fail) && 1 <= at.ln <= 1 + at.idx && 1 <= at.col <= 1 + 4 * at.idx
            ==> {
            let next = next_cursor(src, at);
            1 <= next.ln <= 1 + next.idx && 1 <= next.col <= 1 + 4 * next.idx
        },
{
    lemma_digits_end_bounds(src, at.idx);
    let whole = digits_end(src, at.idx);
    if whole < src.len() {
        lemma_digits_end_bounds(src, whole + 1);
    }
    lemma_ident_end_bounds(src, at.idx + 1);
    lemma_closing_quote_bounds(src, at.idx + 1);
}

/// The tokens from the cursor to the end of the source, closed by the
/// end-of-input token, or the first failure.
pub open spec fn scan(src: Seq<char>, at: Cursor) -> Result<Seq<TokenView>, LexErrorView>
    decreases src.len() - at.idx,
{
    if at.idx < 0 || at.idx >= src.len() {
        Ok(seq![TokenView { kind: TokenKind::EOF, text: Seq::empty(), ln: at.ln, col: at.col }])
    } else {
        proof {
            lemma_lexeme_advances(src, at);
        }
        match lexeme_at(src, at) {
            Lexeme::Emit(token, next) => after(seq![token], scan(src, next)),
            Lexeme::Skip(next) => scan(src, next),
            Lexeme::Fail(error) => Err(error),
        }
    }
}

/// The tokens `done` followed by what `rest` yields.
pub open spec fn after(
    done: Seq<TokenView>,
    rest: Result<Seq<TokenView>, LexErrorView>,
) -> Result<Seq<TokenView>, LexErrorView> {
    match rest {
        Ok(tokens) => Ok(done + tokens),
        Err(error) => Err(error),
    }
}

/// The start of a source: its first character, on line 1 at column 1.
pub open spec fn origin() -> Cursor {
    Cursor { idx: 0, ln: 1, col: 1 }
}

/// The tokens of a whole source text.
pub open spec fn lex(src: Seq<char>) -> Result<Seq<TokenView>, LexErrorView> {
    scan(src, origin())
}


/// The characters of a run of digits are digits.
pub proof fn lemma_digits_run(src: Seq<char>, i: int)
    requires
        0 <= i <= src.len(),
    ensures
        forall|j: int| i <= j < digits_end(src, i) ==> is_digit(#[trigger] src[j]),
    decreases src.len() - i,
{
    if i < src.len() && is_digit(src[i]) {
        lemma_digits_run(src, i + 1);
    }
}

/// The characters of a run of identifier characters are identifier
/// characters.
pub proof fn lemma_ident_run(src: Seq<char>, i: int)
    requires
        0 <= i <= src.len(),
    ensures
        forall|j: int| i <= j < ident_end(src, i) ==> is_ident_part(#[trigger] src[j]),
    decreases src.len() - i,
{
    if i < src.len() && is_ident_part(src[i]) {
        lemma_ident_run(src, i + 1);
    }
}

/// The texts of the tokens, one after the other.
pub open spec fn texts(tokens: Seq<TokenView>) -> Seq<char>
    decreases tokens.len(),
{
    if tokens.len() == 0 {
        Seq::empty()
    } else {
        tokens.first().text + texts(tokens.drop_first())
    }
}

/// The significant content of the source from index `i` on: its characters
/// without the blanks between tokens and without the quotes around string
/// literals.
pub open spec fn significant(src: Seq<char>, i: int) -> Seq<char>
    decreases src.len() - i,
{
    if i < 0 || i >= src.len() {
        Seq::empty()
    } else if is_blank(src[i]) {
        significant(src, i + 1)
    } else if src[i] == '"' {
        let close = closing_quote(src, i + 1);
        if i < close < src.len() {
            src.subrange(i + 1, close) + significant(src, close + 1)
        } else {
            src.subrange(i + 1, src.len() as int)
        }
    } else {
        seq![src[i]] + significant(src, i + 1)
    }
}

/// Over a stretch without blanks and quotes, the significant content is the
/// source itself.
pub proof fn lemma_significant_run(src: Seq<char>, i: int, k: int)
    requires
        0 <= i <= k <= src.len(),
        forall|j: int| i <= j < k ==> !is_blank(#[trigger] src[j]) && src[j] != '"',
    ensures
        significant(src, i) == src.subrange(i, k) + significant(src, k),
    decreases k - i,
{
    if i < k {
        lemma_significant_run(src, i + 1, k);
        assert(seq![src[i]] + src.subrange(i + 1, k) =~= src.subrange(i, k));
        assert(significant(src, i) =~= src.subrange(i, k) + significant(src, k));
    } else {
        assert(src.subrange(i, k) + significant(src, k) =~= significant(src, k));
    }
}

/// Lexing loses nothing: the texts of the tokens, one after the other, are
/// the significant content of the source.
pub proof fn lemma_lex_keeps_significant(src: Seq<char>, at: Cursor)
    requires
        0 <= at.idx <= src.len(),
    ensures
        scan(src, at) is Ok ==> texts(scan(src, at)->Ok_0) == significant(src, at.idx),
    decreases src.len() - at.idx,
{
    if at.idx >= src.len() {
        let tokens = scan(src, at)->Ok_0;
        assert(tokens.drop_first() =~= Seq::<TokenView>::empty());
        assert(texts(tokens.drop_first()) =~= Seq::<char>::empty());
        assert(texts(tokens) =~= Seq::<char>::empty());
    } else {
        lemma_lexeme_advances(src, at);
        let c = src[at.idx];
        match lexeme_at(src, at) {
            Lexeme::Emit(token, next) => {
                lemma_lex_keeps_significant(src, next);
                if scan(src, next) is Ok {
                    let rest = scan(src, next)->Ok_0;
                    let tokens = seq![token] + rest;
                    assert(tokens.first() == token);
                    assert(tokens.drop_first() =~= rest);
                    if c == '"' {
                        lemma_closing_quote_bounds(src, at.idx + 1);
                    } else {
                        assert forall|j: int| at.idx <= j < next.idx implies !is_blank(
                            #[trigger] src[j],
                        ) && src[j] != '"' by {
                            if is_digit(c) {
                                lemma_digits_run(src, at.idx);
                                let whole = digits_end(src, at.idx);
                                lemma_digits_end_bounds(src, at.idx);
                                if whole < src.len() {
                                    lemma_digits_run(src, whole + 1);
                                }
                            } else if is_ident_part(c) {
                                lemma_ident_run(src, at.idx + 1);
                            }
                        }
                        lemma_significant_run(src, at.idx, next.idx);
                    }
                }
            },
            Lexeme::Skip(next) => {
                lemma_lex_keeps_significant(src, next);
            },
            Lexeme::Fail(_) => {},
        }
    }
}

/// The texts of the tokens of a source text, one after the other, are the
/// significant content of the text.
pub proof fn lemma_lex_round_trip(src: Seq<char>)
    ensures
        lex(src) is Ok ==> texts(lex(src)->Ok_0) == significant(src, 0),
{
    lemma_lex_keeps_significant(src, origin());
}

/// Where lexing succeeds, the last token is the end of input, and there is
/// no other such token among those that the scan adds.
pub proof fn lemma_scan_ends_with_eof(src: Seq<char>, at: Cursor)
    requires
        0 <= at.idx <= src.len(),
    ensures
        scan(src, at) is Ok ==> {
            let tokens = scan(src, at)->Ok_0;
            &&& tokens.len() >= 1
            &&& tokens.last().kind == TokenKind::EOF
            &&& forall|j: int| 0 <= j < tokens.len() - 1 ==> (#[trigger] tokens[j]).kind
                != TokenKind::EOF
        },
    decreases src.len() - at.idx,
{
    if at.idx < src.len() {
        lemma_lexeme_advances(src, at);
        match lexeme_at(src, at) {
            Lexeme::Emit(token, next) => {
                lemma_scan_ends_with_eof(src, next);
                if scan(src, next) is Ok {
                    let rest = scan(src, next)->Ok_0;
                    let tokens = seq![token] + rest;
                    assert(tokens.last() == rest.last());
                    assert forall|j: int| 0 <= j < tokens.len() - 1 implies (
                    #[trigger] tokens[j]).kind != TokenKind::EOF by {
                        if j > 0 {
                            assert(tokens[j] == rest[j - 1]);
                        }
                    }
                }
            },
            Lexeme::Skip(next) => {
                lemma_scan_ends_with_eof(src, next);
            },
            Lexeme::Fail(_) => {},
        }
    }
}

pub proof fn lemma_after_push(
    done: Seq<TokenView>,
    token: TokenView,
    rest: Result<Seq<TokenView>, LexErrorView>,
)
    ensures
        after(done.push(token), rest) == after(done, after(seq![token], rest)),
{
    match rest {
        Ok(tokens) => {
            assert(done.push(token) + tokens =~= done + (seq![token] + tokens));
        },
        Err(_) => {},
    }
}

} // verus!
