//! Lexical units: the kinds of token, a token with its source position, and
//! the table of reserved words.

use vstd::prelude::*;
use vstd::string::StringExecFns;

verus! {

/// The closed set of token kinds.
#[derive(PartialEq, Eq, Debug, Clone, Copy, Structural)]
pub enum TokenKind {
    // literals
    Identifier,
    String,
    Integer,
    Float,
    True,
    False,
    // keywords
    Return,
    Var,
    Fn,
    While,
    // assignment
    Assign,
    // arithmetic
    Plus,
    Minus,
    Slash,
    Star,
    // comparison
    Equals,
    NotEquals,
    LessThan,
    GreaterThan,
    LessEquals,
    GreaterEquals,
    Bang,
    // groupings
    Lparen,
    Rparen,
    Lbrace,
    Rbrace,
    // separators
    Comma,
    Semicolon,
    Dot,
    // end of input
    EOF,
}

/// A token: its kind, its text, and the 1-based line and column at which it
/// starts in the source.
#[derive(Debug, PartialEq)]
pub struct Token {
    pub kind: TokenKind,
    pub text: String,
    pub ln: usize,
    pub col: usize,
}

/// The mathematical value of a [`Token`].
pub ghost struct TokenView {
    pub kind: TokenKind,
    pub text: Seq<char>,
    pub ln: int,
    pub col: int,
}

impl View for Token {
    type V = TokenView;

    open spec fn view(&self) -> TokenView {
        TokenView { kind: self.kind, text: self.text@, ln: self.ln as int, col: self.col as int }
    }
}

impl Clone for Token {
    fn clone(&self) -> (res: Self)
        ensures
            res == *self,
    {
        Token { kind: self.kind, text: self.text.clone(), ln: self.ln, col: self.col }
    }
}

/// The views of a sequence of tokens, in order.
pub open spec fn tokens_view(tokens: Seq<Token>) -> Seq<TokenView> {
    Seq::new(tokens.len(), |i: int| tokens[i]@)
}

/// The reserved words, each with the kind of token it lexes to.
pub open spec fn keyword_table() -> Seq<(Seq<char>, TokenKind)> {
    seq![
        ("var"@, TokenKind::Var),
        ("fn"@, TokenKind::Fn),
        ("while"@, TokenKind::While),
        ("true"@, TokenKind::True),
        ("false"@, TokenKind::False),
        ("return"@, TokenKind::Return),
    ]
}

/// The keyword kind of `text`, if `text` is a reserved word.
pub open spec fn keyword_kind(text: Seq<char>) -> Option<TokenKind> {
    if text == "var"@ {
        Some(TokenKind::Var)
    } else if text == "fn"@ {
        Some(TokenKind::Fn)
    } else if text == "while"@ {
        Some(TokenKind::While)
    } else if text == "true"@ {
        Some(TokenKind::True)
    } else if text == "false"@ {
        Some(TokenKind::False)
    } else if text == "return"@ {
        Some(TokenKind::Return)
    } else {
        None
    }
}

/// The view of a keyword table held in a vector.
pub open spec fn table_view(table: Seq<(String, TokenKind)>) -> Seq<(Seq<char>, TokenKind)> {
    Seq::new(table.len(), |i: int| (table[i].0@, table[i].1))
}

/// The table of reserved words.
pub fn keywords() -> (table: Vec<(String, TokenKind)>)
    ensures
        table_view(table@) == keyword_table(),
{
    let mut table: Vec<(String, TokenKind)> = Vec::new();
    table.push((String::from_str("var"), TokenKind::Var));
    table.push((String::from_str("fn"), TokenKind::Fn));
    table.push((String::from_str("while"), TokenKind::While));
    table.push((String::from_str("true"), TokenKind::True));
    table.push((String::from_str("false"), TokenKind::False));
    table.push((String::from_str("return"), TokenKind::Return));
    assert(table_view(table@) =~= keyword_table());
    table
}

/// Looks `text` up among the reserved words.
pub fn keyword_of(text: &String) -> (kind: Option<TokenKind>)
    ensures
        kind == keyword_kind(text@),
{
    let table = keywords();
    let mut i: usize = 0;
    assert(table_view(table@).len() == 6);
    assert forall|j: int| 0 <= j < 6 implies (#[trigger] table@[j].0@, table@[j].1) == keyword_table()[j] by {
        assert(table_view(table@)[j] == keyword_table()[j]);
    }
    while i < table.len()
        invariant
            i <= table.len(),
            table.len() == 6,
            forall|j: int| 0 <= j < 6 ==> (#[trigger] table@[j].0@, table@[j].1) == keyword_table()[j],
            forall|j: int| 0 <= j < i ==> keyword_table()[j].0 != text@,
        decreases table.len() - i,
    {
        if table[i].0 == *text {
            let kind = table[i].1;
            proof {
                lemma_keywords_distinct();
                assert((table@[i as int].0@, table@[i as int].1) == keyword_table()[i as int]);
            }
            return Some(kind);
        }
        i += 1;
    }
    proof {
        assert(keyword_table()[0].0 != text@);
        assert(keyword_table()[1].0 != text@);
        assert(keyword_table()[2].0 != text@);
        assert(keyword_table()[3].0 != text@);
        assert(keyword_table()[4].0 != text@);
        assert(keyword_table()[5].0 != text@);
    }
    None
}

/// No two reserved words have the same spelling.
pub proof fn lemma_keywords_distinct()
    ensures
        "var"@ != "fn"@,
        "var"@ != "while"@,
        "var"@ != "true"@,
        "var"@ != "false"@,
        "var"@ != "return"@,
        "fn"@ != "while"@,
        "fn"@ != "true"@,
        "fn"@ != "false"@,
        "fn"@ != "return"@,
        "while"@ != "true"@,
        "while"@ != "false"@,
        "while"@ != "return"@,
        "true"@ != "false"@,
        "true"@ != "return"@,
        "false"@ != "return"@,
{
    reveal_strlit("var");
    reveal_strlit("fn");
    reveal_strlit("while");
    reveal_strlit("true");
    reveal_strlit("false");
    reveal_strlit("return");
    assert("var"@.len() == 3);
    assert("fn"@.len() == 2);
    assert("while"@.len() == 5);
    assert("true"@.len() == 4);
    assert("false"@.len() == 5);
    assert("return"@.len() == 6);
    assert("while"@[0] == 'w');
    assert("false"@[0] == 'f');
}

} // verus!
