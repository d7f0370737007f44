//! The token model: the category of a token with its verbatim text, and its
//! 1-based position in the source.
use vstd::prelude::*;
use crate::text::push_char;

verus! {

/// A token's category and text, as a mathematical value.
pub enum KindView {
    Identifier(Seq<char>),
    Integer(Seq<char>),
    /// The digits before the point and those after it.
    Decimal(Seq<char>, Seq<char>),
    Str(Seq<char>),
    Char(Seq<char>),
    Divider(Seq<char>),
    Operator(Seq<char>),
}

/// A token as a mathematical value.
pub struct TokenView {
    pub kind: KindView,
    pub line: nat,
    pub col: nat,
}

/// The source text that a token of this kind was read from.
pub open spec fn text_of(k: KindView) -> Seq<char> {
    match k {
        KindView::Identifier(t) => t,
        KindView::Integer(t) => t,
        KindView::Decimal(a, b) => a + seq!['.'] + b,
        KindView::Str(t) => t,
        KindView::Char(t) => t,
        KindView::Divider(t) => t,
        KindView::Operator(t) => t,
    }
}

/// A token's category, holding the verbatim text it was read from: no
/// escape is decoded and nothing is normalised.
#[derive(Clone, Debug, PartialEq, Eq, PartialOrd, Ord, Hash)]
pub enum TokenType {
    Identifier(String),
    Integer(String),
    Decimal(String, String),
    String(String),
    Char(String),
    Divider(String),
    Operator(String),
}

impl View for TokenType {
    type V = KindView;

    open spec fn view(&self) -> KindView {
        match self {
            TokenType::Identifier(t) => KindView::Identifier(t@),
            TokenType::Integer(t) => KindView::Integer(t@),
            TokenType::Decimal(a, b) => KindView::Decimal(a@, b@),
            TokenType::String(t) => KindView::Str(t@),
            TokenType::Char(t) => KindView::Char(t@),
            TokenType::Divider(t) => KindView::Divider(t@),
            TokenType::Operator(t) => KindView::Operator(t@),
        }
    }
}

impl TokenType {
    /// The source text of the token; for a decimal, the two parts joined by
    /// the point.
    pub fn text(&self) -> (r: String)
        ensures
            r@ == text_of(self@),
    {
        match self {
            TokenType::Identifier(t) => t.clone(),
            TokenType::Integer(t) => t.clone(),
            TokenType::Decimal(a, b) => {
                let mut r = a.clone();
                push_char(&mut r, '.');
                let r = r.concat(b.as_str());
                r
            },
            TokenType::String(t) => t.clone(),
            TokenType::Char(t) => t.clone(),
            TokenType::Divider(t) => t.clone(),
            TokenType::Operator(t) => t.clone(),
        }
    }

    pub fn open_parentheses() -> (r: Self)
        ensures
            r@ == KindView::Divider(seq!['(']),
    {
        let t = "(".to_owned();
        proof {
            reveal_strlit("(");
            assert(t@ =~= seq!['(']);
        }
        TokenType::Divider(t)
    }

    pub fn close_parentheses() -> (r: Self)
        ensures
            r@ == KindView::Divider(seq![')']),
    {
        let t = ")".to_owned();
        proof {
            reveal_strlit(")");
            assert(t@ =~= seq![')']);
        }
        TokenType::Divider(t)
    }

    pub fn open_square_brackets() -> (r: Self)
        ensures
            r@ == KindView::Divider(seq!['[']),
    {
        let t = "[".to_owned();
        proof {
            reveal_strlit("[");
            assert(t@ =~= seq!['[']);
        }
        TokenType::Divider(t)
    }

    pub fn close_square_brackets() -> (r: Self)
        ensures
            r@ == KindView::Divider(seq![']']),
    {
        let t = "]".to_owned();
        proof {
            reveal_strlit("]");
            assert(t@ =~= seq![']']);
        }
        TokenType::Divider(t)
    }

    pub fn open_brackets() -> (r: Self)
        ensures
            r@ == KindView::Divider(seq!['{']),
    {
        let t = "{".to_owned();
        proof {
            reveal_strlit("{");
            assert(t@ =~= seq!['{']);
        }
        TokenType::Divider(t)
    }

    pub fn close_brackets() -> (r: Self)
        ensures
            r@ == KindView::Divider(seq!['}']),
    {
        let t = "}".to_owned();
        proof {
            reveal_strlit("}");
            assert(t@ =~= seq!['}']);
        }
        TokenType::Divider(t)
    }

    pub fn open_arrow_brackets() -> (r: Self)
        ensures
            r@ == KindView::Divider(seq!['<']),
    {
        let t = "<".to_owned();
        proof {
            reveal_strlit("<");
            assert(t@ =~= seq!['<']);
        }
        TokenType::Divider(t)
    }

    pub fn close_arrow_brackets() -> (r: Self)
        ensures
            r@ == KindView::Divider(seq!['>']),
    {
        let t = ">".to_owned();
        proof {
            reveal_strlit(">");
            assert(t@ =~= seq!['>']);
        }
        TokenType::Divider(t)
    }

    pub fn question_mark() -> (r: Self)
        ensures
            r@ == KindView::Divider(seq!['?']),
    {
        let t = "?".to_owned();
        proof {
            reveal_strlit("?");
            assert(t@ =~= seq!['?']);
        }
        TokenType::Divider(t)
    }

    /// `|` is always read as an operator, never as a divider.
    pub fn pipe() -> (r: Self)
        ensures
            r@ == KindView::Operator(seq!['|']),
    {
        let t = "|".to_owned();
        proof {
            reveal_strlit("|");
            assert(t@ =~= seq!['|']);
        }
        TokenType::Operator(t)
    }
}

/// A token with the 1-based line and column of its first character.
#[derive(Clone, Debug, PartialEq, Eq, PartialOrd, Ord, Hash)]
pub struct Token {
    pub token_type: TokenType,
    pub line: usize,
    pub col: usize,
}

impl View for Token {
    type V = TokenView;

    open spec fn view(&self) -> TokenView {
        TokenView { kind: self.token_type@, line: self.line as nat, col: self.col as nat }
    }
}

impl Token {
    pub fn new(token_type: TokenType, line: usize, col: usize) -> (r: Self)
        ensures
            r@ == (TokenView { kind: token_type@, line: line as nat, col: col as nat }),
    {
        Token { token_type, line, col }
    }

    /// A placeholder: an empty identifier at line 0, column 0, a position
    /// that no scanned token has.
    pub fn temp() -> (r: Self)
        ensures
            r@ == (TokenView { kind: KindView::Identifier(Seq::empty()), line: 0, col: 0 }),
    {
        Token::new(TokenType::Identifier(String::new()), 0, 0)
    }
}

} // verus!
