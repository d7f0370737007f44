//! The pattern set: nine anchored matchers, one per lexical category, and the
//! fixed order in which the scanner tries them.
use vstd::prelude::*;

verus! {

/// A lexical category. Comments and whitespace are trivia: they are matched
/// and skipped, never emitted.
#[derive(Clone, Copy, Debug, PartialEq, Eq, Structural)]
pub enum Category {
    Comment,
    Str,
    Char,
    Identifier,
    Whitespace,
    Operator,
    Divider,
    Decimal,
    Integer,
}

/// A class of characters that a matcher takes a maximal run of.
#[derive(Clone, Copy, Debug, PartialEq, Eq, Structural)]
pub enum CharClass {
    Digit,
    Binary,
    Octal,
    Hex,
    NotNewline,
    Space,
    IdentChar,
}

pub open spec fn is_digit(c: char) -> bool {
    '0' as u32 <= c as u32 <= '9' as u32
}

pub open spec fn is_space(c: char) -> bool {
    c == ' ' || c == '\t' || c == '\n'
}

/// The single-character dividers: `, ; : . + - * / & | ^ ' " ? ! ( ) [ ] { } < > =`.
pub open spec fn is_divider(c: char) -> bool {
    c == ',' || c == ';' || c == ':' || c == '.' || c == '+' || c == '-' || c == '*' || c == '/'
        || c == '&' || c == '|' || c == '^' || c == '\'' || c == '"' || c == '?' || c == '!'
        || c == '(' || c == ')' || c == '[' || c == ']' || c == '{' || c == '}' || c == '<'
        || c == '>' || c == '='
}

/// A character that may stand inside an identifier: anything but a divider,
/// an operator character, a quote or whitespace.
pub open spec fn is_ident_char(c: char) -> bool {
    !is_divider(c) && c != '%' && !is_space(c)
}

/// A character that may begin an identifier: an identifier character that is
/// not an ASCII digit.
pub open spec fn is_ident_start(c: char) -> bool {
    is_ident_char(c) && !is_digit(c)
}

pub open spec fn in_class(k: CharClass, c: char) -> bool {
    match k {
        CharClass::Digit => is_digit(c),
        CharClass::Binary => c == '0' || c == '1',
        CharClass::Octal => '0' as u32 <= c as u32 <= '7' as u32,
        CharClass::Hex => is_digit(c) || ('a' as u32 <= c as u32 <= 'f' as u32) || ('A' as u32
            <= c as u32 <= 'F' as u32),
        CharClass::NotNewline => c != '\n',
        CharClass::Space => is_space(c),
        CharClass::IdentChar => is_ident_char(c),
    }
}

/// Whether position `j` of `s` exists and holds `c`.
pub open spec fn char_at_is(s: Seq<char>, j: int, c: char) -> bool {
    0 <= j < s.len() && s[j] == c
}

/// Length of the longest run of characters of class `k` starting at `i`.
pub open spec fn run_len(s: Seq<char>, i: int, k: CharClass) -> nat
    decreases s.len() - i,
{
    if 0 <= i < s.len() && in_class(k, s[i]) {
        1 + run_len(s, i + 1, k)
    } else {
        0
    }
}

/// `//`, the rest of the line, and the newline that ends it if there is one.
pub open spec fn comment_len(s: Seq<char>, i: int) -> nat {
    if char_at_is(s, i, '/') && char_at_is(s, i + 1, '/') {
        let k = run_len(s, i + 2, CharClass::NotNewline);
        if i + 2 + k < s.len() {
            k + 3
        } else {
            k + 2
        }
    } else {
        0
    }
}

/// Scanning the body of a string literal from `j`: the position just past the
/// closing quote, or -1 when the text ends first. A backslash takes the
/// character after it, whatever it is.
pub open spec fn string_end(s: Seq<char>, j: int) -> int
    decreases s.len() - j,
{
    if j < 0 || j >= s.len() {
        -1
    } else if s[j] == '"' {
        j + 1
    } else if s[j] == '\\' {
        if j + 1 < s.len() {
            string_end(s, j + 2)
        } else {
            -1
        }
    } else {
        string_end(s, j + 1)
    }
}

pub open spec fn string_len(s: Seq<char>, i: int) -> nat {
    if char_at_is(s, i, '"') && string_end(s, i + 1) > i {
        (string_end(s, i + 1) - i) as nat
    } else {
        0
    }
}

/// The characters that may follow a backslash in a character literal.
pub open spec fn is_escapable(c: char) -> bool {
    c == '\\' || c == '\'' || c == 'n' || c == 't' || c == 'r'
}

/// `'x'` for one character other than a quote or a backslash, or `'\x'` for
/// an escapable `x`.
pub open spec fn char_len(s: Seq<char>, i: int) -> nat {
    if char_at_is(s, i, '\'') && 0 <= i + 2 < s.len() && s[i + 1] != '\'' && s[i + 1] != '\\'
        && s[i + 2] == '\'' {
        3
    } else if char_at_is(s, i, '\'') && char_at_is(s, i + 1, '\\') && 0 <= i + 3 < s.len()
        && is_escapable(s[i + 2]) && s[i + 3] == '\'' {
        4
    } else {
        0
    }
}

pub open spec fn ident_len(s: Seq<char>, i: int) -> nat {
    if 0 <= i < s.len() && is_ident_start(s[i]) {
        1 + run_len(s, i + 1, CharClass::IdentChar)
    } else {
        0
    }
}

pub open spec fn whitespace_len(s: Seq<char>, i: int) -> nat {
    run_len(s, i, CharClass::Space)
}

/// The longest of `+ += - -= * *= / /= % %= & && &= &&= | || |= ||= ^ ^= ! != ==`
/// that starts at `i`.
pub open spec fn operator_len(s: Seq<char>, i: int) -> nat {
    if !(0 <= i < s.len()) {
        0
    } else {
        let c = s[i];
        if c == '+' || c == '-' || c == '*' || c == '/' || c == '%' || c == '^' || c == '!' {
            if char_at_is(s, i + 1, '=') {
                2
            } else {
                1
            }
        } else if c == '&' || c == '|' {
            let d: nat = if char_at_is(s, i + 1, c) {
                1
            } else {
                0
            };
            if char_at_is(s, i + 1 + d, '=') {
                2 + d
            } else {
                1 + d
            }
        } else if c == '=' && char_at_is(s, i + 1, '=') {
            2
        } else {
            0
        }
    }
}

pub open spec fn divider_len(s: Seq<char>, i: int) -> nat {
    if 0 <= i < s.len() && is_divider(s[i]) {
        1
    } else {
        0
    }
}

/// One or more digits, a point, and zero or more digits.
pub open spec fn decimal_len(s: Seq<char>, i: int) -> nat {
    let d = run_len(s, i, CharClass::Digit);
    if d > 0 && char_at_is(s, i + d, '.') {
        d + 1 + run_len(s, i + d + 1, CharClass::Digit)
    } else {
        0
    }
}

/// The digits that may follow `0` and the radix letter `c`.
pub open spec fn radix_class(c: char) -> Option<CharClass> {
    if c == 'b' || c == 'B' {
        Some(CharClass::Binary)
    } else if c == 'o' || c == 'O' {
        Some(CharClass::Octal)
    } else if c == 'x' || c == 'X' || c == 'h' || c == 'H' {
        Some(CharClass::Hex)
    } else if c == 'd' || c == 'D' {
        Some(CharClass::Digit)
    } else {
        None
    }
}

/// `0` with a radix letter and at least one digit of that radix, or else a run
/// of decimal digits.
pub open spec fn integer_len(s: Seq<char>, i: int) -> nat {
    if char_at_is(s, i, '0') && 0 <= i + 1 < s.len() && radix_class(s[i + 1]) is Some && run_len(
        s,
        i + 2,
        radix_class(s[i + 1])->0,
    ) > 0 {
        2 + run_len(s, i + 2, radix_class(s[i + 1])->0)
    } else {
        run_len(s, i, CharClass::Digit)
    }
}

/// How many characters the pattern of category `c` matches at `i`; 0 when it
/// does not match there.
pub open spec fn match_len(c: Category, s: Seq<char>, i: int) -> nat {
    match c {
        Category::Comment => comment_len(s, i),
        Category::Str => string_len(s, i),
        Category::Char => char_len(s, i),
        Category::Identifier => ident_len(s, i),
        Category::Whitespace => whitespace_len(s, i),
        Category::Operator => operator_len(s, i),
        Category::Divider => divider_len(s, i),
        Category::Decimal => decimal_len(s, i),
        Category::Integer => integer_len(s, i),
    }
}

/// The order in which the categories are tried.
pub open spec fn priority() -> Seq<Category> {
    seq![
        Category::Comment,
        Category::Str,
        Category::Char,
        Category::Identifier,
        Category::Whitespace,
        Category::Operator,
        Category::Divider,
        Category::Decimal,
        Category::Integer,
    ]
}

/// The first category from position `k` of the priority order on that
/// matches at `i`, with its match length; a length of 0 when none does.
pub open spec fn first_from(s: Seq<char>, i: int, k: int) -> (Category, nat)
    decreases 9 - k,
{
    if k < 0 || k >= 9 {
        (Category::Integer, 0)
    } else if match_len(priority()[k], s, i) > 0 {
        (priority()[k], match_len(priority()[k], s, i))
    } else {
        first_from(s, i, k + 1)
    }
}

/// The category that wins at `i`, and the length of its match.
pub open spec fn first_match(s: Seq<char>, i: int) -> (Category, nat) {
    first_from(s, i, 0)
}

/// Once a category of priority `k2` matches, the search from any earlier
/// position of the order finds a match too, and reports its true length.
proof fn lemma_first_from_finds(s: Seq<char>, i: int, k: int, k2: int)
    requires
        0 <= k <= k2 < 9,
        match_len(priority()[k2], s, i) > 0,
    ensures
        first_from(s, i, k).1 > 0,
    decreases k2 - k,
{
    if match_len(priority()[k], s, i) == 0 {
        lemma_first_from_finds(s, i, k + 1, k2);
    }
}

/// What the search reports is the length of the winning category's match.
proof fn lemma_first_match_len(s: Seq<char>, i: int, k: int)
    requires
        first_from(s, i, k).1 > 0,
    ensures
        first_from(s, i, k).1 == match_len(first_from(s, i, k).0, s, i),
    decreases 9 - k,
{
    if 0 <= k < 9 && match_len(priority()[k], s, i) == 0 {
        lemma_first_match_len(s, i, k + 1);
    }
}

/// Every position of the text is matched by some category: the scanner can
/// never be left without a way forward.
pub proof fn lemma_some_category_matches(s: Seq<char>, i: int)
    requires
        0 <= i < s.len(),
    ensures
        first_match(s, i).1 > 0,
        first_match(s, i).1 == match_len(first_match(s, i).0, s, i),
{
    let c = s[i];
    assert(priority()[3] == Category::Identifier);
    assert(priority()[4] == Category::Whitespace);
    assert(priority()[5] == Category::Operator);
    assert(priority()[6] == Category::Divider);
    assert(priority()[8] == Category::Integer);
    if is_space(c) {
        assert(whitespace_len(s, i) > 0);
        lemma_first_from_finds(s, i, 0, 4);
    } else if is_digit(c) {
        assert(run_len(s, i, CharClass::Digit) > 0);
        assert(integer_len(s, i) > 0);
        lemma_first_from_finds(s, i, 0, 8);
    } else if is_divider(c) {
        lemma_first_from_finds(s, i, 0, 6);
    } else if c == '%' {
        lemma_first_from_finds(s, i, 0, 5);
    } else {
        assert(ident_len(s, i) > 0);
        lemma_first_from_finds(s, i, 0, 3);
    }
    lemma_first_match_len(s, i, 0);
}

fn exec_is_digit(c: char) -> (r: bool)
    ensures
        r == is_digit(c),
{
    '0' as u32 <= c as u32 && c as u32 <= '9' as u32
}

fn exec_is_space(c: char) -> (r: bool)
    ensures
        r == is_space(c),
{
    c == ' ' || c == '\t' || c == '\n'
}

fn exec_is_divider(c: char) -> (r: bool)
    ensures
        r == is_divider(c),
{
    c == ',' || c == ';' || c == ':' || c == '.' || c == '+' || c == '-' || c == '*' || c == '/'
        || c == '&' || c == '|' || c == '^' || c == '\'' || c == '"' || c == '?' || c == '!'
        || c == '(' || c == ')' || c == '[' || c == ']' || c == '{' || c == '}' || c == '<'
        || c == '>' || c == '='
}

fn exec_is_ident_char(c: char) -> (r: bool)
    ensures
        r == is_ident_char(c),
{
    !exec_is_divider(c) && c != '%' && !exec_is_space(c)
}

fn class_contains(k: CharClass, c: char) -> (r: bool)
    ensures
        r == in_class(k, c),
{
    match k {
        CharClass::Digit => exec_is_digit(c),
        CharClass::Binary => c == '0' || c == '1',
        CharClass::Octal => '0' as u32 <= c as u32 && c as u32 <= '7' as u32,
        CharClass::Hex => exec_is_digit(c) || ('a' as u32 <= c as u32 && c as u32 <= 'f' as u32)
            || ('A' as u32 <= c as u32 && c as u32 <= 'F' as u32),
        CharClass::NotNewline => c != '\n',
        CharClass::Space => exec_is_space(c),
        CharClass::IdentChar => exec_is_ident_char(c),
    }
}

pub(crate) fn run(s: &Vec<char>, i: usize, k: CharClass) -> (r: usize)
    requires
        i <= s@.len(),
    ensures
        r == run_len(s@, i as int, k),
        i + r <= s@.len(),
{
    let mut j = i;
    while j < s.len() && class_contains(k, s[j])
        invariant
            i <= j <= s@.len(),
            run_len(s@, i as int, k) == (j - i) + run_len(s@, j as int, k),
        decreases s@.len() - j,
    {
        j += 1;
    }
    j - i
}

fn exec_char_at_is(s: &Vec<char>, j: usize, c: char) -> (r: bool)
    ensures
        r == char_at_is(s@, j as int, c),
{
    j < s.len() && s[j] == c
}

fn match_comment(s: &Vec<char>, i: usize) -> (r: usize)
    requires
        i < s@.len(),
    ensures
        r == comment_len(s@, i as int),
        i + r <= s@.len(),
{
    let len = s.len();
    if i + 1 < len && s[i] == '/' && s[i + 1] == '/' {
        let k = run(s, i + 2, CharClass::NotNewline);
        if i + 2 + k < len {
            k + 3
        } else {
            k + 2
        }
    } else {
        0
    }
}

fn match_string(s: &Vec<char>, i: usize) -> (r: usize)
    requires
        i < s@.len(),
    ensures
        r == string_len(s@, i as int),
        i + r <= s@.len(),
{
    let len = s.len();
    if s[i] != '"' {
        return 0;
    }
    let mut j = i + 1;
    while j < len
        invariant
            i < j <= s@.len(),
            len == s@.len(),
            s@[i as int] == '"',
            string_end(s@, i + 1) == string_end(s@, j as int),
        decreases s@.len() - j,
    {
        if s[j] == '"' {
            return j + 1 - i;
        } else if s[j] == '\\' {
            if j + 1 < len {
                j += 2;
            } else {
                return 0;
            }
        } else {
            j += 1;
        }
    }
    0
}

fn match_char(s: &Vec<char>, i: usize) -> (r: usize)
    requires
        i < s@.len(),
    ensures
        r == char_len(s@, i as int),
        i + r <= s@.len(),
{
    let len = s.len();
    if s[i] == '\'' && 2 < len - i && s[i + 1] != '\'' && s[i + 1] != '\\' && s[i + 2]
        == '\'' {
        3
    } else if s[i] == '\'' && 3 < len - i && s[i + 1] == '\\' && (s[i + 2] == '\\' || s[i
        + 2] == '\'' || s[i + 2] == 'n' || s[i + 2] == 't' || s[i + 2] == 'r') && s[i + 3]
        == '\'' {
        4
    } else {
        0
    }
}

fn match_ident(s: &Vec<char>, i: usize) -> (r: usize)
    requires
        i < s@.len(),
    ensures
        r == ident_len(s@, i as int),
        i + r <= s@.len(),
{
    let len = s.len();
    if exec_is_ident_char(s[i]) && !exec_is_digit(s[i]) {
        1 + run(s, i + 1, CharClass::IdentChar)
    } else {
        0
    }
}

fn match_operator(s: &Vec<char>, i: usize) -> (r: usize)
    requires
        i < s@.len(),
    ensures
        r == operator_len(s@, i as int),
        i + r <= s@.len(),
{
    let len = s.len();
    let c = s[i];
    if c == '+' || c == '-' || c == '*' || c == '/' || c == '%' || c == '^' || c == '!' {
        if exec_char_at_is(s, i + 1, '=') {
            2
        } else {
            1
        }
    } else if c == '&' || c == '|' {
        let d: usize = if exec_char_at_is(s, i + 1, c) {
            1
        } else {
            0
        };
        if exec_char_at_is(s, i + 1 + d, '=') {
            2 + d
        } else {
            1 + d
        }
    } else if c == '=' && exec_char_at_is(s, i + 1, '=') {
        2
    } else {
        0
    }
}

fn match_decimal(s: &Vec<char>, i: usize) -> (r: usize)
    requires
        i < s@.len(),
    ensures
        r == decimal_len(s@, i as int),
        i + r <= s@.len(),
{
    let len = s.len();
    let d = run(s, i, CharClass::Digit);
    if d > 0 && exec_char_at_is(s, i + d, '.') {
        d + 1 + run(s, i + d + 1, CharClass::Digit)
    } else {
        0
    }
}

fn exec_radix_class(c: char) -> (r: Option<CharClass>)
    ensures
        r == radix_class(c),
{
    if c == 'b' || c == 'B' {
        Some(CharClass::Binary)
    } else if c == 'o' || c == 'O' {
        Some(CharClass::Octal)
    } else if c == 'x' || c == 'X' || c == 'h' || c == 'H' {
        Some(CharClass::Hex)
    } else if c == 'd' || c == 'D' {
        Some(CharClass::Digit)
    } else {
        None
    }
}

fn match_integer(s: &Vec<char>, i: usize) -> (r: usize)
    requires
        i < s@.len(),
    ensures
        r == integer_len(s@, i as int),
        i + r <= s@.len(),
{
    let len = s.len();
    if s[i] == '0' && i + 1 < len {
        if let Some(k) = exec_radix_class(s[i + 1]) {
            let n = run(s, i + 2, k);
            if n > 0 {
                return 2 + n;
            }
        }
    }
    run(s, i, CharClass::Digit)
}

/// The executable counterpart of `match_len`.
fn match_at(c: Category, s: &Vec<char>, i: usize) -> (r: usize)
    requires
        i < s@.len(),
    ensures
        r == match_len(c, s@, i as int),
        i + r <= s@.len(),
{
    match c {
        Category::Comment => match_comment(s, i),
        Category::Str => match_string(s, i),
        Category::Char => match_char(s, i),
        Category::Identifier => match_ident(s, i),
        Category::Whitespace => run(s, i, CharClass::Space),
        Category::Operator => match_operator(s, i),
        Category::Divider => if exec_is_divider(s[i]) {
            1
        } else {
            0
        },
        Category::Decimal => match_decimal(s, i),
        Category::Integer => match_integer(s, i),
    }
}

/// The immutable pattern set: the nine categories in the order in which they
/// are tried. Built once and shared by any number of scans.
pub struct Regexes {
    order: Vec<Category>,
}

impl Regexes {
    /// The table holds the categories in priority order.
    pub closed spec fn wf(&self) -> bool {
        self.order@ == priority()
    }

    /// The first category, in priority order, whose pattern matches at `i`,
    /// and the length of that match.
    pub fn first_match(&self, s: &Vec<char>, i: usize) -> (r: (Category, usize))
        requires
            self.wf(),
            i < s@.len(),
        ensures
            r.0 == first_match(s@, i as int).0,
            r.1 == first_match(s@, i as int).1,
            r.1 > 0,
            i + r.1 <= s@.len(),
    {
        proof {
            lemma_some_category_matches(s@, i as int);
        }
        let mut k: usize = 0;
        while k < self.order.len()
            invariant
                self.wf(),
                i < s@.len(),
                k <= 9,
                first_from(s@, i as int, 0) == first_from(s@, i as int, k as int),
            decreases 9 - k,
        {
            let c = self.order[k];
            let n = match_at(c, s, i);
            if n > 0 {
                return (c, n);
            }
            k += 1;
        }
        (Category::Integer, 0)
    }
}

impl Default for Regexes {
    fn default() -> (r: Self)
        ensures
            r.wf(),
    {
        let mut order: Vec<Category> = Vec::new();
        order.push(Category::Comment);
        order.push(Category::Str);
        order.push(Category::Char);
        order.push(Category::Identifier);
        order.push(Category::Whitespace);
        order.push(Category::Operator);
        order.push(Category::Divider);
        order.push(Category::Decimal);
        order.push(Category::Integer);
        let r = Regexes { order };
        assert(r.order@ =~= priority());
        r
    }
}

} // verus!
