//! Character-level helpers: turning source text into characters and back.
use vstd::prelude::*;
use vstd::std_specs::iter::IteratorSpec;

verus! {

/// The text with every carriage return removed, other characters kept in order.
pub open spec fn without_cr(s: Seq<char>) -> Seq<char>
    decreases s.len(),
{
    if s.len() == 0 {
        Seq::empty()
    } else if s.last() == '\r' {
        without_cr(s.drop_last())
    } else {
        without_cr(s.drop_last()).push(s.last())
    }
}

/// Relies on `String::push`: appends one character at the end of the string.
#[verifier::external_body]
pub(crate) fn push_char(s: &mut String, c: char)
    ensures
        final(s)@ == old(s)@.push(c),
{
    s.push(c)
}

/// The characters of `code`, carriage returns dropped.
pub(crate) fn source_chars(code: &str) -> (v: Vec<char>)
    ensures
        v@ == without_cr(code@),
{
    let mut v: Vec<char> = Vec::new();
    let mut it = code.chars();
    let ghost mut k: int = 0;
    proof {
        broadcast use vstd::string::axiom_spec_iter;
    }
    loop
        invariant
            0 <= k <= code@.len(),
            it.obeys_prophetic_iter_laws(),
            it.remaining() == code@.subrange(k, code@.len() as int),
            v@ == without_cr(code@.subrange(0, k)),
        ensures
            v@ == without_cr(code@),
        decreases code@.len() - k,
    {
        let ghost prev = it;
        let next = it.next();
        proof {
            vstd::string::next_postcondition(&prev, &it, next);
        }
        match next {
            None => {
                assert(code@.subrange(0, k) =~= code@);
                break;
            },
            Some(c) => {
                assert(code@.subrange(0, k + 1).drop_last() =~= code@.subrange(0, k));
                if c != '\r' {
                    v.push(c);
                }
                proof {
                    k = k + 1;
                }
                assert(it.remaining() =~= code@.subrange(k, code@.len() as int));
            },
        }
    }
    v
}

/// The characters `s[from..to]` as a string.
pub(crate) fn string_of(s: &Vec<char>, from: usize, to: usize) -> (r: String)
    requires
        from <= to <= s@.len(),
    ensures
        r@ == s@.subrange(from as int, to as int),
{
    let mut r = String::new();
    let mut j = from;
    while j < to
        invariant
            from <= j <= to <= s@.len(),
            r@ == s@.subrange(from as int, j as int),
        decreases to - j,
    {
        push_char(&mut r, s[j]);
        assert(s@.subrange(from as int, j + 1) =~= s@.subrange(from as int, j as int).push(s@[j as int]));
        j += 1;
    }
    r
}

/// The source text with carriage returns removed, so that lines are told
/// apart by `\n` alone.
pub fn strip_carriage_returns(code: &str) -> (r: String)
    ensures
        r@ == without_cr(code@),
{
    let v = source_chars(code);
    string_of(&v, 0, v.len())
}

} // verus!
