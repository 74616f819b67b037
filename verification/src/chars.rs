//! Characters and character sequences: white space, ASCII case folding, trimming.

use vstd::prelude::*;
use vstd::std_specs::iter::IteratorSpec;
use vstd::string::*;
use vstd::utf8::*;

verus! {

/// Whether `c` is white space: a character with the Unicode property `White_Space`. Among
/// them are the space, the tab, the line feed and the carriage return.
pub open spec fn whitespace(c: char) -> bool {
    ||| '\u{9}' <= c <= '\u{d}'
    ||| c == ' '
    ||| c == '\u{85}'
    ||| c == '\u{a0}'
    ||| c == '\u{1680}'
    ||| '\u{2000}' <= c <= '\u{200a}'
    ||| c == '\u{2028}'
    ||| c == '\u{2029}'
    ||| c == '\u{202f}'
    ||| c == '\u{205f}'
    ||| c == '\u{3000}'
}

/// Whether every character of `s` is white space. The empty sequence is.
pub open spec fn all_whitespace(s: Seq<char>) -> bool {
    forall|i: int| 0 <= i < s.len() ==> whitespace(#[trigger] s[i])
}

/// `s` without its leading white space.
pub open spec fn trimmed_start(s: Seq<char>) -> Seq<char>
    decreases s.len(),
{
    if s.len() > 0 && whitespace(s.first()) {
        trimmed_start(s.drop_first())
    } else {
        s
    }
}

/// `s` without its trailing white space.
pub open spec fn trimmed_end(s: Seq<char>) -> Seq<char>
    decreases s.len(),
{
    if s.len() > 0 && whitespace(s.last()) {
        trimmed_end(s.drop_last())
    } else {
        s
    }
}

/// `s` without its leading and trailing white space.
pub open spec fn trimmed(s: Seq<char>) -> Seq<char> {
    trimmed_end(trimmed_start(s))
}

/// Whether `s` neither begins nor ends with white space. The empty sequence qualifies.
pub open spec fn is_trimmed(s: Seq<char>) -> bool {
    s.len() > 0 ==> !whitespace(s.first()) && !whitespace(s.last())
}

/// The lower-case form of an ASCII capital letter; any other character unchanged.
pub open spec fn ascii_lowercase(c: char) -> char {
    if 'A' <= c <= 'Z' {
        ((c as u32) + 32) as char
    } else {
        c
    }
}

/// Whether `a` and `b` are the same up to the case of their ASCII letters.
pub open spec fn eq_ignoring_ascii_case(a: Seq<char>, b: Seq<char>) -> bool {
    &&& a.len() == b.len()
    &&& forall|i: int| 0 <= i < a.len() ==> ascii_lowercase(#[trigger] a[i]) == ascii_lowercase(b[i])
}

/// Leading white space in front of a sequence that does not begin with white space is what
/// `trimmed_start` removes.
pub proof fn lemma_trimmed_start_of_padded(pad: Seq<char>, core: Seq<char>)
    requires
        all_whitespace(pad),
        core.len() > 0 ==> !whitespace(core.first()),
    ensures
        trimmed_start(pad + core) == core,
    decreases pad.len(),
{
    if pad.len() == 0 {
        assert(pad + core =~= core);
    } else {
        assert((pad + core).first() == pad[0]);
        assert((pad + core).drop_first() =~= pad.drop_first() + core);
        assert forall|i: int| 0 <= i < pad.drop_first().len() implies whitespace(
            #[trigger] pad.drop_first()[i],
        ) by {
            assert(pad.drop_first()[i] == pad[i + 1]);
        }
        lemma_trimmed_start_of_padded(pad.drop_first(), core);
    }
}

/// Trailing white space behind a sequence that does not end with white space is what
/// `trimmed_end` removes.
pub proof fn lemma_trimmed_end_of_padded(core: Seq<char>, pad: Seq<char>)
    requires
        all_whitespace(pad),
        core.len() > 0 ==> !whitespace(core.last()),
    ensures
        trimmed_end(core + pad) == core,
    decreases pad.len(),
{
    if pad.len() == 0 {
        assert(core + pad =~= core);
    } else {
        assert((core + pad).last() == pad.last());
        assert((core + pad).drop_last() =~= core + pad.drop_last());
        lemma_trimmed_end_of_padded(core, pad.drop_last());
    }
}

/// Trimming undoes any padding with white space: if `core` neither begins nor ends with white
/// space, it is what is left of `lead + core + trail`.
pub proof fn lemma_trimmed_of_padded(lead: Seq<char>, core: Seq<char>, trail: Seq<char>)
    requires
        all_whitespace(lead),
        all_whitespace(trail),
        is_trimmed(core),
    ensures
        trimmed(lead + core + trail) == core,
{
    if core.len() == 0 {
        let pad = lead + trail;
        assert(lead + core + trail =~= pad + core);
        lemma_trimmed_start_of_padded(pad, core);
    } else {
        assert(lead + core + trail =~= lead + (core + trail));
        assert((core + trail).first() == core.first());
        lemma_trimmed_start_of_padded(lead, core + trail);
        lemma_trimmed_end_of_padded(core, trail);
    }
}

/// What `trimmed_start` removes is white space, and what it leaves does not begin with any.
pub proof fn lemma_trimmed_start_splits(s: Seq<char>) -> (n: int)
    ensures
        0 <= n <= s.len(),
        all_whitespace(s.take(n)),
        trimmed_start(s) == s.skip(n),
        n < s.len() ==> !whitespace(s[n]),
    decreases s.len(),
{
    if s.len() > 0 && whitespace(s.first()) {
        let m = lemma_trimmed_start_splits(s.drop_first());
        assert(s.drop_first().skip(m) =~= s.skip(m + 1));
        assert forall|i: int| 0 <= i < s.take(m + 1).len() implies whitespace(
            #[trigger] s.take(m + 1)[i],
        ) by {
            if i > 0 {
                assert(s.take(m + 1)[i] == s.drop_first().take(m)[i - 1]);
            }
        }
        m + 1
    } else {
        assert(s.skip(0) =~= s);
        0
    }
}

/// What `trimmed_end` removes is white space, and what it leaves does not end with any.
pub proof fn lemma_trimmed_end_splits(s: Seq<char>) -> (n: int)
    ensures
        0 <= n <= s.len(),
        all_whitespace(s.skip(n)),
        trimmed_end(s) == s.take(n),
        n > 0 ==> !whitespace(s[n - 1]),
    decreases s.len(),
{
    if s.len() > 0 && whitespace(s.last()) {
        let m = lemma_trimmed_end_splits(s.drop_last());
        assert(s.drop_last().take(m) =~= s.take(m));
        assert forall|i: int| 0 <= i < s.skip(m).len() implies whitespace(#[trigger] s.skip(m)[i]) by {
            if i < s.len() - 1 - m {
                assert(s.skip(m)[i] == s.drop_last().skip(m)[i]);
            }
        }
        m
    } else {
        assert(s.take(s.len() as int) =~= s);
        s.len() as int
    }
}

/// Trimming takes a sequence apart into leading white space, a part that neither begins nor
/// ends with white space, and trailing white space.
pub proof fn lemma_trimmed_splits(s: Seq<char>) -> (bounds: (int, int))
    ensures
        0 <= bounds.0 <= bounds.1 <= s.len(),
        all_whitespace(s.take(bounds.0)),
        all_whitespace(s.skip(bounds.1)),
        trimmed(s) == s.subrange(bounds.0, bounds.1),
        is_trimmed(trimmed(s)),
{
    let from = lemma_trimmed_start_splits(s);
    let rest = s.skip(from);
    let kept = lemma_trimmed_end_splits(rest);
    assert(rest.take(kept) =~= s.subrange(from, from + kept));
    assert(rest.skip(kept) =~= s.skip(from + kept));
    (from, from + kept)
}

/// A sequence of white space alone is trimmed to nothing.
pub proof fn lemma_trimmed_of_whitespace(s: Seq<char>)
    requires
        all_whitespace(s),
    ensures
        trimmed(s) == Seq::<char>::empty(),
{
    let nothing = Seq::<char>::empty();
    assert(nothing + nothing + s =~= s);
    lemma_trimmed_of_padded(nothing, nothing, s);
}

/// No sequence of characters is longer than its UTF-8 encoding.
proof fn lemma_chars_fit_in_bytes(s: Seq<char>)
    ensures
        s.len() <= encode_utf8(s).len(),
    decreases s.len(),
{
    if s.len() > 0 {
        lemma_chars_fit_in_bytes(s.drop_first());
    }
}

/// Decides whether `c` is white space.
pub fn is_whitespace(c: char) -> (r: bool)
    ensures
        r == whitespace(c),
{
    ('\u{9}' <= c && c <= '\u{d}') || c == ' ' || c == '\u{85}' || c == '\u{a0}' || c == '\u{1680}'
        || ('\u{2000}' <= c && c <= '\u{200a}') || c == '\u{2028}' || c == '\u{2029}' || c
        == '\u{202f}' || c == '\u{205f}' || c == '\u{3000}'
}

/// Maps an ASCII capital letter to its lower-case form and any other character to itself.
pub fn to_ascii_lowercase(c: char) -> (r: char)
    ensures
        r == ascii_lowercase(c),
{
    if 'A' <= c && c <= 'Z' {
        ((c as u8) + 32) as char
    } else {
        c
    }
}

/// Compares two strings character by character, ignoring the case of ASCII letters.
pub fn eq_ignore_ascii_case(a: &str, b: &str) -> (r: bool)
    ensures
        r == eq_ignoring_ascii_case(a@, b@),
{
    let mut left = a.chars();
    let mut right = b.chars();
    let ghost mut n: int = 0;
    loop
        invariant
            0 <= n <= a@.len(),
            n <= b@.len(),
            left.remaining() == a@.skip(n),
            right.remaining() == b@.skip(n),
            forall|i: int| 0 <= i < n ==> ascii_lowercase(#[trigger] a@[i]) == ascii_lowercase(b@[i]),
        decreases a@.len() - n,
    {
        broadcast use group_string_axioms;

        match (left.next(), right.next()) {
            (None, None) => {
                assert(a@.skip(n).len() == 0 && b@.skip(n).len() == 0);
                return true;
            },
            (Some(x), Some(y)) => {
                assert(x == a@.skip(n)[0] && y == b@.skip(n)[0]);
                if to_ascii_lowercase(x) != to_ascii_lowercase(y) {
                    return false;
                }
                proof {
                    assert(a@.skip(n).drop_first() =~= a@.skip(n + 1));
                    assert(b@.skip(n).drop_first() =~= b@.skip(n + 1));
                    n = n + 1;
                }
            },
            _ => {
                assert(a@.skip(n).len() != b@.skip(n).len());
                return false;
            },
        }
    }
}

/// Returns the part of `s` that is left when leading and trailing white space is removed.
/// The result borrows from `s`.
pub fn trim<'a>(s: &'a str) -> (t: &'a str)
    ensures
        t@ == trimmed(s@),
        is_trimmed(t@),
{
    // A string has no more characters than bytes, so the counters below cannot overflow.
    let bytes = s.as_bytes().len();
    proof {
        lemma_chars_fit_in_bytes(s@);
    }
    let mut from: usize = 0;
    let mut to: usize = 0;
    let mut count: usize = 0;
    for c in it: s.chars()
        invariant
            it.seq() == s@,
            count == it.index(),
            s@.len() <= bytes,
            from <= to <= count,
            from < to ==> !whitespace(s@[from as int]) && !whitespace(s@[to - 1]),
            from == to ==> from == 0,
            forall|i: int| 0 <= i < count && !(from <= i < to) ==> whitespace(#[trigger] s@[i]),
    {
        if !is_whitespace(c) {
            if from == to {
                from = count;
            }
            to = count + 1;
        }
        count = count + 1;
    }
    let t = s.substring_char(from, to);
    proof {
        let lead = s@.take(from as int);
        let trail = s@.skip(to as int);
        assert(s@ =~= lead + t@ + trail);
        lemma_trimmed_of_padded(lead, t@, trail);
    }
    t
}

} // verus!
