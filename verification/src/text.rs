//! Character-level text building blocks shared by the interchange writers.

use vstd::prelude::*;
use vstd::string::StrSliceExecFns;

verus! {

/// `String::push`: appends one character.
#[verifier::external_body]
pub(crate) fn push_char(text: &mut String, c: char)
    ensures
        final(text)@ == old(text)@.push(c),
{
    text.push(c);
}

/// The characters of a text, in order.
pub fn chars_of(text: &str) -> (chars: Vec<char>)
    ensures
        chars@ == text@,
{
    let length = text.unicode_len();
    let mut chars: Vec<char> = Vec::new();
    let mut i: usize = 0;
    while i < length
        invariant
            i <= length,
            length == text@.len(),
            chars@ == text@.take(i as int),
        decreases length - i,
    {
        chars.push(text.get_char(i));
        i = i + 1;
        proof {
            assert(chars@ =~= text@.take(i as int));
        }
    }
    proof {
        assert(chars@ =~= text@);
    }
    chars
}

/// The text made of the first `count` characters.
pub fn text_from_chars(chars: &Vec<char>, count: usize) -> (text: String)
    requires
        count <= chars@.len(),
    ensures
        text@ == chars@.take(count as int),
{
    let mut text = String::new();
    let mut i: usize = 0;
    while i < count
        invariant
            i <= count <= chars@.len(),
            text@ == chars@.take(i as int),
        decreases count - i,
    {
        push_char(&mut text, chars[i]);
        i = i + 1;
        proof {
            assert(text@ =~= chars@.take(i as int));
        }
    }
    text
}

/// ASCII letter or digit.
pub open spec fn is_ascii_alphanumeric(c: char) -> bool {
    ('0' <= c && c <= '9') || ('a' <= c && c <= 'z') || ('A' <= c && c <= 'Z')
}

/// `char::is_ascii_alphanumeric`.
pub fn ascii_alphanumeric(c: char) -> (result: bool)
    ensures
        result == is_ascii_alphanumeric(c),
{
    ('0' <= c && c <= '9') || ('a' <= c && c <= 'z') || ('A' <= c && c <= 'Z')
}

/// Lowercase hexadecimal digit of a nibble.
pub open spec fn hex_digit(nibble: u64) -> char {
    if nibble < 10 {
        ((nibble + 48) as u8) as char
    } else {
        ((nibble + 87) as u8) as char
    }
}

/// Appends the lowercase hexadecimal digit of a nibble.
pub fn push_hex_digit(text: &mut String, nibble: u64)
    requires
        nibble < 16,
    ensures
        final(text)@ == old(text)@.push(hex_digit(nibble)),
{
    let c = if nibble < 10 {
        ((nibble + 48) as u8) as char
    } else {
        ((nibble + 87) as u8) as char
    };
    push_char(text, c);
}


/// The text made of the characters at positions `start..end`.
pub fn text_from_range(chars: &Vec<char>, start: usize, end: usize) -> (text: String)
    requires
        start <= end <= chars@.len(),
    ensures
        text@ == chars@.subrange(start as int, end as int),
{
    let mut text = String::new();
    let mut i: usize = start;
    while i < end
        invariant
            start <= i <= end <= chars@.len(),
            text@ == chars@.subrange(start as int, i as int),
        decreases end - i,
    {
        push_char(&mut text, chars[i]);
        i = i + 1;
        proof {
            assert(text@ =~= chars@.subrange(start as int, i as int));
        }
    }
    text
}

/// True when `c` occurs among `chars`.
pub fn contains_char(chars: &Vec<char>, c: char) -> (found: bool)
    ensures
        found == chars@.contains(c),
{
    let mut i: usize = 0;
    while i < chars.len()
        invariant
            i <= chars@.len(),
            forall|j: int| 0 <= j < i ==> chars@[j] != c,
        decreases chars.len() - i,
    {
        if chars[i] == c {
            return true;
        }
        i = i + 1;
    }
    false
}

/// True when `chars` ends with `suffix`.
pub fn ends_with_chars(chars: &Vec<char>, suffix: &Vec<char>) -> (found: bool)
    ensures
        found == (suffix@.len() <= chars@.len() && chars@.subrange(
            chars@.len() - suffix@.len(),
            chars@.len() as int,
        ) == suffix@),
{
    if suffix.len() > chars.len() {
        return false;
    }
    let offset: usize = chars.len() - suffix.len();
    let mut i: usize = 0;
    while i < suffix.len()
        invariant
            i <= suffix@.len(),
            offset + suffix@.len() == chars@.len(),
            offset + suffix.len() == chars.len(),
            forall|j: int| 0 <= j < i ==> chars@[offset + j] == suffix@[j],
        decreases suffix.len() - i,
    {
        if chars[offset + i] != suffix[i] {
            proof {
                assert(chars@.subrange(offset as int, chars@.len() as int)[i as int] != suffix@[i as int]);
            }
            return false;
        }
        i = i + 1;
    }
    proof {
        assert(chars@.subrange(offset as int, chars@.len() as int) =~= suffix@);
    }
    true
}


/// `a` comes strictly before `b` in lexicographic code-point order, which is
/// also the byte order of their UTF-8 encodings.
pub open spec fn text_before(a: Seq<char>, b: Seq<char>) -> bool
    decreases a.len(),
{
    if b.len() == 0 {
        false
    } else if a.len() == 0 {
        true
    } else if a[0] != b[0] {
        a[0] < b[0]
    } else {
        text_before(a.drop_first(), b.drop_first())
    }
}

/// No text comes before itself.
pub proof fn lemma_text_before_irreflexive(a: Seq<char>)
    ensures
        !text_before(a, a),
    decreases a.len(),
{
    if a.len() > 0 {
        lemma_text_before_irreflexive(a.drop_first());
    }
}

/// Of two texts, at most one comes first.
pub proof fn lemma_text_before_asymmetric(a: Seq<char>, b: Seq<char>)
    ensures
        !(text_before(a, b) && text_before(b, a)),
    decreases a.len(),
{
    if a.len() > 0 && b.len() > 0 && a[0] == b[0] {
        lemma_text_before_asymmetric(a.drop_first(), b.drop_first());
    }
}

/// Of two distinct texts, one comes first.
pub proof fn lemma_text_before_total(a: Seq<char>, b: Seq<char>)
    ensures
        a != b ==> text_before(a, b) || text_before(b, a),
    decreases a.len(),
{
    if a.len() > 0 && b.len() > 0 && a[0] == b[0] {
        lemma_text_before_total(a.drop_first(), b.drop_first());
        if a.drop_first() == b.drop_first() {
            assert(a =~= seq![a[0]] + a.drop_first());
            assert(b =~= seq![b[0]] + b.drop_first());
        }
    } else if a.len() == 0 && b.len() == 0 {
        assert(a =~= b);
    }
}

/// The order of texts is transitive.
pub proof fn lemma_text_before_transitive(a: Seq<char>, b: Seq<char>, c: Seq<char>)
    requires
        text_before(a, b),
        text_before(b, c),
    ensures
        text_before(a, c),
    decreases a.len(),
{
    if a.len() > 0 && a[0] == b[0] && b[0] == c[0] {
        lemma_text_before_transitive(a.drop_first(), b.drop_first(), c.drop_first());
    }
}

/// Lexicographic comparison of two texts.
pub fn text_less(a: &String, b: &String) -> (less: bool)
    ensures
        less == text_before(a@, b@),
{
    let x = chars_of(a.as_str());
    let y = chars_of(b.as_str());
    let mut i: usize = 0;
    proof {
        assert(x@.skip(0) =~= x@);
        assert(y@.skip(0) =~= y@);
    }
    while i < x.len() && i < y.len() && x[i] == y[i]
        invariant
            i <= x@.len(),
            i <= y@.len(),
            x@ == a@,
            y@ == b@,
            text_before(a@, b@) == text_before(x@.skip(i as int), y@.skip(i as int)),
        decreases x.len() - i,
    {
        proof {
            assert(x@.skip(i as int).drop_first() =~= x@.skip(i as int + 1));
            assert(y@.skip(i as int).drop_first() =~= y@.skip(i as int + 1));
        }
        i = i + 1;
    }
    if i == y.len() {
        false
    } else if i == x.len() {
        true
    } else {
        x[i] < y[i]
    }
}
} // verus!
