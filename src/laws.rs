//! What holds of every scan, proved over the model `lex`.
use vstd::prelude::*;
use crate::patterns::{
    Category, CharClass, first_match, in_class, is_space, lemma_some_category_matches, match_len,
    run_len,
};
use crate::scanner::{advance, is_trivia, kind_of, lemma_advance_bounds, lex, lex_from, views};
use crate::text::without_cr;
use crate::token::{Token, TokenView, text_of};

verus! {

/// Token `t` stands at `(line, col)` or after it.
pub open spec fn at_or_after(t: TokenView, line: nat, col: nat) -> bool {
    t.line > line || (t.line == line && t.col >= col)
}

/// Each token stands at or after every token before it.
pub open spec fn positions_ordered(v: Seq<TokenView>) -> bool {
    forall|j: int, k: int|
        0 <= j < k < v.len() ==> #[trigger] at_or_after(v[k], v[j].line, v[j].col)
}

/// The text holds `//`.
pub open spec fn has_comment_marker(t: Seq<char>) -> bool {
    exists|j: int| 0 <= j && j + 1 < t.len() && #[trigger] t[j] == '/' && t[j + 1] == '/'
}

/// The text is made of whitespace alone.
pub open spec fn blank(t: Seq<char>) -> bool {
    forall|j: int| 0 <= j < t.len() ==> is_space(#[trigger] t[j])
}

/// A token that trivia do not show through: its text is not blank, and, but
/// for a string literal (whose quotes may enclose `//`), holds no `//`.
pub open spec fn free_of_trivia(t: TokenView) -> bool {
    !blank(text_of(t.kind)) && (!(t.kind is Str) ==> !has_comment_marker(text_of(t.kind)))
}

proof fn lemma_run_chars(s: Seq<char>, p: int, k: CharClass)
    ensures
        forall|q: int| p <= q < p + run_len(s, p, k) ==> in_class(k, #[trigger] s[q]),
    decreases s.len() - p,
{
    if 0 <= p < s.len() && in_class(k, s[p]) {
        lemma_run_chars(s, p + 1, k);
    }
}

/// The token that category `c` makes at `i` reads back as the matched text,
/// does not begin with whitespace, and, unless it is a string literal, holds
/// no two slashes in a row.
proof fn lemma_token_text(s: Seq<char>, c: Category, i: int, n: int)
    requires
        0 <= i,
        i + n <= s.len(),
        n > 0,
        n == match_len(c, s, i),
        !is_trivia(c),
    ensures
        text_of(kind_of(c, s, i, n)) == s.subrange(i, i + n),
        !is_space(s[i]),
        c != Category::Str ==> forall|q: int|
            i <= q && q + 1 < i + n ==> !(#[trigger] s[q] == '/' && s[q + 1] == '/'),
{
    match c {
        Category::Identifier => {
            lemma_run_chars(s, i + 1, CharClass::IdentChar);
        },
        Category::Decimal => {
            let d = run_len(s, i, CharClass::Digit);
            lemma_run_chars(s, i, CharClass::Digit);
            lemma_run_chars(s, i + d + 1, CharClass::Digit);
            assert(s.subrange(i, i + d) + seq!['.'] + s.subrange(i + d + 1, i + n) =~= s.subrange(
                i,
                i + n,
            ));
            assert forall|q: int| i <= q && q + 1 < i + n implies !(#[trigger] s[q] == '/' && s[q
                + 1] == '/') by {
                if q + 1 != i + d {
                    assert(in_class(CharClass::Digit, s[q + 1]));
                }
            }
        },
        Category::Integer => {
            lemma_run_chars(s, i, CharClass::Digit);
            if 0 <= i + 1 < s.len() {
                if let Some(k) = crate::patterns::radix_class(s[i + 1]) {
                    lemma_run_chars(s, i + 2, k);
                }
            }
            assert forall|q: int| i <= q && q + 1 < i + n implies !(#[trigger] s[q] == '/' && s[q
                + 1] == '/') by {
                if q + 1 > i + 1 {
                    if let Some(k) = crate::patterns::radix_class(s[i + 1]) {
                        if s[i] == '0' && run_len(s, i + 2, k) > 0 {
                            assert(in_class(k, s[q + 1]));
                        } else {
                            assert(in_class(CharClass::Digit, s[q + 1]));
                        }
                    } else {
                        assert(in_class(CharClass::Digit, s[q + 1]));
                    }
                } else {
                    assert(in_class(CharClass::Digit, s[i]) || s[i] == '0');
                }
            }
        },
        _ => {},
    }
}

proof fn lemma_lex_from_facts(s: Seq<char>, i: int, line: nat, col: nat)
    requires
        col >= 1,
    ensures
        forall|k: int|
            0 <= k < lex_from(s, i, line, col).len() ==> at_or_after(
                #[trigger] lex_from(s, i, line, col)[k],
                line,
                col,
            ),
        positions_ordered(lex_from(s, i, line, col)),
        forall|k: int|
            0 <= k < lex_from(s, i, line, col).len() ==> free_of_trivia(
                #[trigger] lex_from(s, i, line, col)[k],
            ),
    decreases s.len() - i,
{
    if 0 <= i < s.len() {
        lemma_some_category_matches(s, i);
        let c = first_match(s, i).0;
        let n = first_match(s, i).1;
        if i + n <= s.len() {
            if c == Category::Comment {
                lemma_lex_from_facts(s, i + n, line + 1, 1);
            } else if c == Category::Whitespace {
                let p = advance(s.subrange(i, i + n), line, col);
                lemma_advance_bounds(s.subrange(i, i + n), line, col);
                lemma_lex_from_facts(s, i + n, p.0, p.1);
            } else {
                let rest = lex_from(s, i + n, line, col + n);
                lemma_lex_from_facts(s, i + n, line, col + n);
                let t0 = TokenView { kind: kind_of(c, s, i, n as int), line, col };
                let r = lex_from(s, i, line, col);
                assert(r == seq![t0] + rest);
                lemma_token_text(s, c, i, n as int);
                let text = s.subrange(i, i + n);
                assert(!blank(text)) by {
                    assert(text[0] == s[i]);
                }
                if c != Category::Str {
                    assert(!has_comment_marker(text)) by {
                        if has_comment_marker(text) {
                            let j = choose|j: int|
                                0 <= j && j + 1 < text.len() && #[trigger] text[j] == '/' && text[j
                                    + 1] == '/';
                            assert(s[i + j] == '/' && s[i + j + 1] == '/');
                        }
                    }
                }
                assert(free_of_trivia(t0));
                assert forall|k: int| 0 <= k < r.len() implies at_or_after(
                    #[trigger] r[k],
                    line,
                    col,
                ) && free_of_trivia(r[k]) by {
                    if k > 0 {
                        assert(r[k] == rest[k - 1]);
                    }
                }
                assert forall|j: int, k: int| 0 <= j < k < r.len() implies #[trigger] at_or_after(
                    r[k],
                    r[j].line,
                    r[j].col,
                ) by {
                    assert(r[k] == rest[k - 1]);
                    if j > 0 {
                        assert(r[j] == rest[j - 1]);
                    }
                }
            }
        }
    }
}

/// Positions never go backwards: every token stands at or after, in
/// (line, column) order, each token before it.
pub proof fn lemma_positions_nondecreasing(code: Seq<char>)
    ensures
        positions_ordered(lex(without_cr(code))),
{
    lemma_lex_from_facts(without_cr(code), 0, 1, 1);
}

/// Comments and whitespace never show in a token: no token's text is
/// whitespace alone, and no token but a string literal holds `//`.
pub proof fn lemma_trivia_invisible(code: Seq<char>)
    ensures
        forall|k: int|
            0 <= k < lex(without_cr(code)).len() ==> free_of_trivia(
                #[trigger] lex(without_cr(code))[k],
            ),
{
    lemma_lex_from_facts(without_cr(code), 0, 1, 1);
}

/// Scanning has no hidden state: any two results that `interpret` may give
/// for the same text are the same tokens.
pub proof fn lemma_scan_deterministic(code: Seq<char>, a: Seq<Token>, b: Seq<Token>)
    requires
        views(a) == lex(without_cr(code)),
        views(b) == lex(without_cr(code)),
    ensures
        views(a) == views(b),
{
}

} // verus!
