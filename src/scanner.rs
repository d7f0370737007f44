//! The scanner: one forward pass that tries the categories in priority order
//! at each position, emits a token or skips trivia, and tracks line and column.
use vstd::prelude::*;
use crate::patterns::{
    Category, CharClass, Regexes, first_match, lemma_some_category_matches, match_len, run,
    run_len,
};
use crate::text::{source_chars, string_of, without_cr};
use crate::token::{KindView, Token, TokenType, TokenView};

verus! {

/// The line and column reached after reading `t` from `(line, col)`: a
/// newline moves to column 1 of the next line, any other character one
/// column on.
pub open spec fn advance(t: Seq<char>, line: nat, col: nat) -> (nat, nat)
    decreases t.len(),
{
    if t.len() == 0 {
        (line, col)
    } else {
        let p = advance(t.drop_last(), line, col);
        if t.last() == '\n' {
            (p.0 + 1, 1)
        } else {
            (p.0, p.1 + 1)
        }
    }
}

pub open spec fn is_trivia(c: Category) -> bool {
    c == Category::Comment || c == Category::Whitespace
}

/// The kind of the token that category `c` makes of `s[i..i + n]`. A decimal
/// is split at its point. (Trivia make no token and are given no kind.)
pub open spec fn kind_of(c: Category, s: Seq<char>, i: int, n: int) -> KindView {
    let t = s.subrange(i, i + n);
    match c {
        Category::Str => KindView::Str(t),
        Category::Char => KindView::Char(t),
        Category::Identifier => KindView::Identifier(t),
        Category::Operator => KindView::Operator(t),
        Category::Divider => KindView::Divider(t),
        Category::Decimal => {
            let d = run_len(s, i, CharClass::Digit);
            KindView::Decimal(s.subrange(i, i + d), s.subrange(i + d + 1, i + n))
        },
        _ => KindView::Integer(t),
    }
}

/// The tokens read from position `i` of `s` on, the scan standing at
/// `(line, col)`. A comment moves to column 1 of the next line; whitespace
/// moves as `advance` says; a token moves the column on by its length.
pub open spec fn lex_from(s: Seq<char>, i: int, line: nat, col: nat) -> Seq<TokenView>
    decreases s.len() - i,
{
    if i < 0 || i >= s.len() {
        Seq::empty()
    } else {
        let c = first_match(s, i).0;
        let n = first_match(s, i).1;
        if n == 0 || i + n > s.len() {
            Seq::empty()
        } else if c == Category::Comment {
            lex_from(s, i + n, line + 1, 1)
        } else if c == Category::Whitespace {
            let p = advance(s.subrange(i, i + n), line, col);
            lex_from(s, i + n, p.0, p.1)
        } else {
            seq![TokenView { kind: kind_of(c, s, i, n as int), line, col }] + lex_from(
                s,
                i + n,
                line,
                col + n,
            )
        }
    }
}

/// The tokens of the text `s`, scanned from line 1, column 1.
pub open spec fn lex(s: Seq<char>) -> Seq<TokenView> {
    lex_from(s, 0, 1, 1)
}

pub open spec fn views(v: Seq<Token>) -> Seq<TokenView> {
    v.map_values(|t: Token| t@)
}

proof fn lemma_without_cr_len(s: Seq<char>)
    ensures
        without_cr(s).len() <= s.len(),
    decreases s.len(),
{
    if s.len() > 0 {
        lemma_without_cr_len(s.drop_last());
    }
}

/// Reading text never moves backwards, and moves at most one line or column
/// per character.
pub proof fn lemma_advance_bounds(t: Seq<char>, line: nat, col: nat)
    requires
        col >= 1,
    ensures
        advance(t, line, col).0 >= line,
        advance(t, line, col).1 >= 1,
        advance(t, line, col).0 + advance(t, line, col).1 <= line + col + t.len(),
        advance(t, line, col).0 == line ==> advance(t, line, col).1 == col + t.len(),
    decreases t.len(),
{
    if t.len() > 0 {
        lemma_advance_bounds(t.drop_last(), line, col);
    }
}

fn advance_over(s: &Vec<char>, from: usize, to: usize, line: usize, col: usize) -> (r: (
    usize,
    usize,
))
    requires
        from <= to <= s@.len(),
        line >= 1,
        col >= 1,
        line + col + (to - from) <= usize::MAX + 1,
    ensures
        (r.0 as nat, r.1 as nat) == advance(s@.subrange(from as int, to as int), line as nat, col as nat),
{
    let mut l = line;
    let mut c = col;
    let mut k = from;
    while k < to
        invariant
            from <= k <= to <= s@.len(),
            line >= 1,
            col >= 1,
            line + col + (to - from) <= usize::MAX + 1,
            (l as nat, c as nat) == advance(s@.subrange(from as int, k as int), line as nat, col as nat),
        decreases to - k,
    {
        proof {
            lemma_advance_bounds(s@.subrange(from as int, k as int), line as nat, col as nat);
            assert(s@.subrange(from as int, k + 1).drop_last() =~= s@.subrange(from as int, k as int));
        }
        if s[k] == '\n' {
            l = l + 1;
            c = 1;
        } else {
            c = c + 1;
        }
        k += 1;
    }
    (l, c)
}

fn make_kind(c: Category, s: &Vec<char>, i: usize, end: usize) -> (r: TokenType)
    requires
        i < end <= s@.len(),
        end - i == match_len(c, s@, i as int),
        !is_trivia(c),
    ensures
        r@ == kind_of(c, s@, i as int, end - i),
{
    match c {
        Category::Str => TokenType::String(string_of(s, i, end)),
        Category::Char => TokenType::Char(string_of(s, i, end)),
        Category::Identifier => TokenType::Identifier(string_of(s, i, end)),
        Category::Operator => TokenType::Operator(string_of(s, i, end)),
        Category::Divider => TokenType::Divider(string_of(s, i, end)),
        Category::Decimal => {
            let d = run(s, i, CharClass::Digit);
            TokenType::Decimal(string_of(s, i, i + d), string_of(s, i + d + 1, end))
        },
        _ => TokenType::Integer(string_of(s, i, end)),
    }
}

/// Scans `code` into tokens. Carriage returns are dropped first, so lines are
/// counted by `\n` alone; positions are counted in characters.
pub fn interpret(code: &str, regexes: &Regexes) -> (r: Vec<Token>)
    requires
        regexes.wf(),
        code@.len() < usize::MAX,
    ensures
        views(r@) == lex(without_cr(code@)),
{
    let s = source_chars(code);
    proof {
        lemma_without_cr_len(code@);
    }
    let mut tokens: Vec<Token> = Vec::new();
    let mut line: usize = 1;
    let mut col: usize = 1;
    let mut i: usize = 0;
    assert(views(tokens@) + lex(s@) =~= lex(s@));
    while i < s.len()
        invariant
            regexes.wf(),
            s@ == without_cr(code@),
            s@.len() < usize::MAX,
            i <= s@.len(),
            1 <= line,
            1 <= col,
            line + col <= i + 2,
            views(tokens@) + lex_from(s@, i as int, line as nat, col as nat) == lex(s@),
        decreases s@.len() - i,
    {
        let (c, n) = regexes.first_match(&s, i);
        proof {
            lemma_some_category_matches(s@, i as int);
        }
        let ghost prev = views(tokens@);
        match c {
            Category::Comment => {
                line = line + 1;
                col = 1;
            },
            Category::Whitespace => {
                proof {
                    lemma_advance_bounds(s@.subrange(i as int, i + n), line as nat, col as nat);
                }
                let p = advance_over(&s, i, i + n, line, col);
                line = p.0;
                col = p.1;
            },
            _ => {
                let kind = make_kind(c, &s, i, i + n);
                let t = Token::new(kind, line, col);
                tokens.push(t);
                proof {
                    assert(views(tokens@) =~= prev.push(t@));
                    let rest = lex_from(s@, i + n, line as nat, (col + n) as nat);
                    assert(prev.push(t@) + rest =~= prev + (seq![t@] + rest));
                }
                col = col + n;
            },
        }
        i = i + n;
    }
    assert(views(tokens@) + lex_from(s@, i as int, line as nat, col as nat) =~= views(tokens@));
    tokens
}

} // verus!
