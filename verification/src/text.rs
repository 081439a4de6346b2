//! Character and string helpers shared by the transform and the generator.

use vstd::prelude::*;

verus! {

/// A character that fits in the 7-bit ASCII range.
pub open spec fn ascii_char(c: char) -> bool {
    c as u32 <= 127
}

/// Every character of the sequence is ASCII.
pub open spec fn ascii_seq(s: Seq<char>) -> bool {
    forall|i: int| 0 <= i < s.len() ==> ascii_char(#[trigger] s[i])
}

/// A character outside the ASCII range, such as a Chinese character.
pub open spec fn wide_char(c: char) -> bool {
    c as u32 > 127
}

/// At least one character of the sequence lies outside the ASCII range.
pub open spec fn has_wide_char(s: Seq<char>) -> bool {
    exists|i: int| 0 <= i < s.len() && wide_char(#[trigger] s[i])
}

/// An ASCII letter, either case.
pub open spec fn ascii_letter(c: char) -> bool {
    (65 <= c as u32 <= 90) || (97 <= c as u32 <= 122)
}

/// A lowercase ASCII letter.
pub open spec fn lower_letter(c: char) -> bool {
    97 <= c as u32 <= 122
}

/// Every character of the sequence is a lowercase ASCII letter.
pub open spec fn letters_seq(s: Seq<char>) -> bool {
    forall|i: int| 0 <= i < s.len() ==> lower_letter(#[trigger] s[i])
}

/// No character of the sequence is an ASCII letter.
pub open spec fn letter_free(s: Seq<char>) -> bool {
    forall|i: int| 0 <= i < s.len() ==> !ascii_letter(#[trigger] s[i])
}

/// At least one character of the sequence is an ASCII letter.
pub open spec fn has_ascii_letter(s: Seq<char>) -> bool {
    exists|i: int| 0 <= i < s.len() && ascii_letter(#[trigger] s[i])
}

/// `r` is `c` with an ASCII lowercase letter raised to its uppercase
/// counterpart, and any other character kept as it is.
pub open spec fn upper_of(c: char, r: char) -> bool {
    if 97 <= c as u32 <= 122 {
        r as u32 == c as u32 - 32
    } else {
        r == c
    }
}

/// The needle occurs in the haystack starting at position `i`.
pub open spec fn contains_at(hay: Seq<char>, needle: Seq<char>, i: int) -> bool {
    0 <= i && i + needle.len() <= hay.len() && hay.subrange(i, i + needle.len()) == needle
}

/// The needle occurs somewhere in the haystack.
pub open spec fn contains_seq(hay: Seq<char>, needle: Seq<char>) -> bool {
    exists|i: int| contains_at(hay, needle, i)
}

/// The decimal digit character for a value below ten.
pub open spec fn digit_char(d: int) -> char {
    if d == 0 {
        '0'
    } else if d == 1 {
        '1'
    } else if d == 2 {
        '2'
    } else if d == 3 {
        '3'
    } else if d == 4 {
        '4'
    } else if d == 5 {
        '5'
    } else if d == 6 {
        '6'
    } else if d == 7 {
        '7'
    } else if d == 8 {
        '8'
    } else {
        '9'
    }
}

/// The four decimal digits of a value in `[1000, 10000)`.
pub open spec fn digits4(n: int) -> Seq<char> {
    seq![
        digit_char(n / 1000 % 10),
        digit_char(n / 100 % 10),
        digit_char(n / 10 % 10),
        digit_char(n % 10),
    ]
}

/// The digit character for a value below ten.
fn digit_to_char(d: usize) -> (r: char)
    requires
        d < 10,
    ensures
        r == digit_char(d as int),
{
    if d == 0 {
        '0'
    } else if d == 1 {
        '1'
    } else if d == 2 {
        '2'
    } else if d == 3 {
        '3'
    } else if d == 4 {
        '4'
    } else if d == 5 {
        '5'
    } else if d == 6 {
        '6'
    } else if d == 7 {
        '7'
    } else if d == 8 {
        '8'
    } else {
        '9'
    }
}

/// Append the four decimal digits of a four-digit value.
pub(crate) fn push_digits4(out: &mut String, n: usize)
    requires
        1000 <= n < 10000,
    ensures
        final(out)@ == old(out)@ + digits4(n as int),
{
    let c0 = digit_to_char((n / 1000) % 10);
    let c1 = digit_to_char((n / 100) % 10);
    let c2 = digit_to_char((n / 10) % 10);
    let c3 = digit_to_char(n % 10);
    push_char(out, c0);
    push_char(out, c1);
    push_char(out, c2);
    push_char(out, c3);
    proof {
        assert(out@ =~= old(out)@ + digits4(n as int));
    }
}

/// Every digit character is ASCII.
pub proof fn lemma_digits4_ascii(n: int)
    ensures
        ascii_seq(digits4(n)),
{
    assert(ascii_char(digits4(n)[0]));
    assert(ascii_char(digits4(n)[1]));
    assert(ascii_char(digits4(n)[2]));
    assert(ascii_char(digits4(n)[3]));
}

/// Concatenation keeps a string ASCII.
pub proof fn lemma_ascii_concat(a: Seq<char>, b: Seq<char>)
    requires
        ascii_seq(a),
        ascii_seq(b),
    ensures
        ascii_seq(a + b),
{
    assert forall|i: int| 0 <= i < (a + b).len() implies ascii_char(#[trigger] (a + b)[i]) by {
        if i < a.len() {
            assert((a + b)[i] == a[i]);
        } else {
            assert((a + b)[i] == b[i - a.len()]);
        }
    }
}

/// Relies on String::push: appends exactly one character.
#[verifier::external_body]
pub(crate) fn push_char(s: &mut String, c: char)
    ensures
        final(s)@ == old(s)@.push(c),
{
    s.push(c)
}

/// Relies on char::to_ascii_uppercase: an ASCII lowercase letter moves 32
/// code points down; every other character comes back unchanged.
#[verifier::external_body]
pub(crate) fn to_upper_char(c: char) -> (r: char)
    ensures
        upper_of(c, r),
{
    c.to_ascii_uppercase()
}

/// Copy a corpus, line for line.
pub(crate) fn clone_lines(v: &Vec<String>) -> (r: Vec<String>)
    ensures
        r@ == v@,
{
    let n = v.len();
    let mut out: Vec<String> = Vec::new();
    let mut i: usize = 0;
    while i < n
        invariant
            i <= n,
            n == v@.len(),
            out@.len() == i,
            forall|k: int| 0 <= k < i ==> out@[k] == v@[k],
        decreases n - i,
    {
        out.push(v[i].clone());
        i = i + 1;
    }
    proof {
        assert(out@ =~= v@);
    }
    out
}

/// Whether the vector holds the given value.
pub(crate) fn contains_usize(v: &Vec<usize>, x: usize) -> (r: bool)
    ensures
        r == v@.contains(x),
{
    let n = v.len();
    let mut i: usize = 0;
    while i < n
        invariant
            i <= n,
            n == v@.len(),
            forall|k: int| 0 <= k < i ==> v@[k] != x,
        decreases n - i,
    {
        if v[i] == x {
            return true;
        }
        i = i + 1;
    }
    false
}

} // verus!
