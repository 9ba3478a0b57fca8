//! Text primitives over sequences of characters: joining, placeholder
//! substitution and ASCII case mapping.
use vstd::prelude::*;
use vstd::string::*;

verus! {

/// `str`'s `PartialEq::eq` from the standard library: two string slices are equal
/// exactly when they hold the same characters. The contract is assumed.
pub assume_specification[ <str as PartialEq>::eq ](a: &str, b: &str) -> (r: bool)
    ensures
        r == (a@ == b@),
;

/// `String::push` from the standard library: appends the one character `c` to
/// `text` and leaves the rest of it as it was. The contract is assumed.
#[verifier::external_body]
pub(crate) fn push_char(text: &mut String, c: char)
    ensures
        final(text)@ == old(text)@.push(c),
{
    text.push(c);
}

/// The characters of each string of `parts`, in order.
pub open spec fn texts(parts: Seq<String>) -> Seq<Seq<char>> {
    parts.map_values(|part: String| part@)
}

/// `parts` written one after the other with `sep` between neighbours: no
/// separator leads or trails, and an empty list gives the empty text.
pub open spec fn joined(parts: Seq<Seq<char>>, sep: Seq<char>) -> Seq<char>
    decreases parts.len(),
{
    if parts.len() == 0 {
        Seq::empty()
    } else if parts.len() == 1 {
        parts[0]
    } else {
        joined(parts.drop_last(), sep) + sep + parts.last()
    }
}

/// `pattern` is not empty and `text` holds it from position `at` on.
pub open spec fn occurs_at(text: Seq<char>, pattern: Seq<char>, at: int) -> bool {
    &&& pattern.len() > 0
    &&& 0 <= at
    &&& at + pattern.len() <= text.len()
    &&& text.subrange(at, at + pattern.len()) == pattern
}

/// `text` with every occurrence of `placeholder` replaced by `value`.
///
/// Occurrences are taken from the left and do not overlap; an inserted `value`
/// is not searched again. An empty placeholder occurs nowhere.
pub open spec fn substituted(text: Seq<char>, placeholder: Seq<char>, value: Seq<char>) -> Seq<
    char,
>
    decreases text.len(),
{
    if text.len() == 0 {
        text
    } else if occurs_at(text, placeholder, 0) {
        value + substituted(text.skip(placeholder.len() as int), placeholder, value)
    } else {
        seq![text[0]] + substituted(text.skip(1), placeholder, value)
    }
}

/// The lower-case form of an ASCII capital letter; any other character itself.
pub open spec fn lower(c: char) -> char {
    if 'A' <= c && c <= 'Z' {
        ((c as u32) + 32) as char
    } else {
        c
    }
}

/// `text` with each ASCII capital letter in lower case.
pub open spec fn lowercased(text: Seq<char>) -> Seq<char> {
    text.map_values(|c: char| lower(c))
}

/// Joining respects the order of the parts: the text of two lists laid end to
/// end is the text of the first, a separator, and the text of the second.
pub proof fn lemma_joined_concat(a: Seq<Seq<char>>, b: Seq<Seq<char>>, sep: Seq<char>)
    requires
        a.len() > 0,
        b.len() > 0,
    ensures
        joined(a + b, sep) == joined(a, sep) + sep + joined(b, sep),
    decreases b.len(),
{
    assert((a + b).drop_last() =~= a + b.drop_last());
    assert((a + b).last() == b.last());
    if b.len() == 1 {
        assert(a + b.drop_last() =~= a);
    } else {
        lemma_joined_concat(a, b.drop_last(), sep);
        assert(joined(a + b, sep) =~= joined(a, sep) + sep + joined(b, sep));
    }
}

/// Substitution passes over a stretch that holds the placeholder's first
/// character nowhere: the first `n` characters stay, and the rest is
/// substituted on its own.
pub proof fn lemma_substituted_skips(
    text: Seq<char>,
    placeholder: Seq<char>,
    value: Seq<char>,
    n: int,
)
    requires
        placeholder.len() > 0,
        0 <= n <= text.len(),
        forall|i: int| 0 <= i < n ==> text[i] != placeholder[0],
    ensures
        substituted(text, placeholder, value) == text.take(n) + substituted(
            text.skip(n),
            placeholder,
            value,
        ),
    decreases n,
{
    if n == 0 {
        assert(text.skip(0) =~= text);
        assert(text.take(0) + substituted(text, placeholder, value) =~= substituted(
            text,
            placeholder,
            value,
        ));
    } else {
        assert(!occurs_at(text, placeholder, 0)) by {
            if placeholder.len() <= text.len() {
                assert(text.subrange(0, placeholder.len() as int)[0] == text[0]);
            }
        }
        let rest = text.skip(1);
        assert forall|i: int| 0 <= i < n - 1 implies rest[i] != placeholder[0] by {
            assert(rest[i] == text[i + 1]);
        }
        lemma_substituted_skips(rest, placeholder, value, n - 1);
        assert(rest.skip(n - 1) =~= text.skip(n));
        assert(seq![text[0]] + (rest.take(n - 1) + substituted(text.skip(n), placeholder, value))
            =~= text.take(n) + substituted(text.skip(n), placeholder, value));
    }
}

/// Substitution keeps a beginning that holds the placeholder's first
/// character nowhere.
pub proof fn lemma_substituted_keeps_prefix(
    text: Seq<char>,
    placeholder: Seq<char>,
    value: Seq<char>,
    prefix: Seq<char>,
)
    requires
        placeholder.len() > 0,
        prefix.is_prefix_of(text),
        forall|i: int| 0 <= i < prefix.len() ==> prefix[i] != placeholder[0],
    ensures
        prefix.is_prefix_of(substituted(text, placeholder, value)),
{
    let n = prefix.len() as int;
    assert forall|i: int| 0 <= i < n implies text[i] != placeholder[0] by {
        assert(text.subrange(0, n)[i] == text[i]);
    }
    lemma_substituted_skips(text, placeholder, value, n);
    assert(text.take(n) =~= prefix);
    assert(substituted(text, placeholder, value).subrange(0, n) =~= prefix);
}

/// The characters of `text`, in order.
pub fn chars_of(text: &str) -> (chars: Vec<char>)
    ensures
        chars@ == text@,
{
    broadcast use group_string_axioms;

    let mut chars: Vec<char> = Vec::new();
    for c in it: text.chars()
        invariant
            it.seq() == text@,
            chars@ =~= text@.take(it.index()),
    {
        chars.push(c);
    }
    chars
}

/// Joins `parts` with `sep` between neighbours.
pub fn join(parts: &Vec<String>, sep: &str) -> (text: String)
    ensures
        text@ == joined(texts(parts@), sep@),
{
    let mut text = String::new();
    let mut i: usize = 0;
    while i < parts.len()
        invariant
            i <= parts.len(),
            text@ == joined(texts(parts@).take(i as int), sep@),
        decreases parts.len() - i,
    {
        if i > 0 {
            text.append(sep);
        }
        text.append(parts[i].as_str());
        proof {
            let all = texts(parts@);
            assert(all.take(i + 1).drop_last() =~= all.take(i as int));
            assert(all.take(i + 1).last() == parts@[i as int]@);
            if i == 0 {
                assert(text@ =~= parts@[0]@);
            }
        }
        i += 1;
    }
    proof {
        assert(texts(parts@).take(parts@.len() as int) =~= texts(parts@));
    }
    text
}

/// Whether `pattern` occurs in `text` at position `at`.
fn matches_at(text: &Vec<char>, at: usize, pattern: &Vec<char>) -> (found: bool)
    requires
        at <= text.len(),
    ensures
        found == occurs_at(text@.skip(at as int), pattern@, 0),
{
    if pattern.len() == 0 || pattern.len() > text.len() - at {
        return false;
    }
    let mut j: usize = 0;
    while j < pattern.len()
        invariant
            at + pattern.len() <= text.len(),
            j <= pattern.len(),
            forall|k: int| 0 <= k < j ==> text@[at + k] == pattern@[k],
        decreases pattern.len() - j,
    {
        if text[at + j] != pattern[j] {
            proof {
                let rest = text@.skip(at as int);
                assert(rest.subrange(0, pattern@.len() as int)[j as int] == text@[at + j]);
            }
            return false;
        }
        j += 1;
    }
    proof {
        let rest = text@.skip(at as int);
        assert(rest.subrange(0, pattern@.len() as int) =~= pattern@);
    }
    true
}

/// Replaces every occurrence of `placeholder` in `text` by `value`.
pub fn substitute(text: &str, placeholder: &str, value: &str) -> (result: String)
    ensures
        result@ == substituted(text@, placeholder@, value@),
{
    let source = chars_of(text);
    let pattern = chars_of(placeholder);
    let mut result = String::new();
    let mut i: usize = 0;
    proof {
        let all = substituted(source@, pattern@, value@);
        assert(source@.skip(0) =~= source@);
        assert(result@ + all =~= all);
    }
    while i < source.len()
        invariant
            i <= source.len(),
            source@ == text@,
            pattern@ == placeholder@,
            result@ + substituted(source@.skip(i as int), pattern@, value@) == substituted(
                source@,
                pattern@,
                value@,
            ),
        decreases source.len() - i,
    {
        let ghost rest = source@.skip(i as int);
        let ghost before = result@;
        if matches_at(&source, i, &pattern) {
            result.append(value);
            proof {
                let tail = substituted(rest.skip(pattern@.len() as int), pattern@, value@);
                assert(rest.skip(pattern@.len() as int) =~= source@.skip(i + pattern@.len()));
                assert((before + value@) + tail =~= before + (value@ + tail));
            }
            i += pattern.len();
        } else {
            let c = source[i];
            push_char(&mut result, c);
            proof {
                let tail = substituted(rest.skip(1), pattern@, value@);
                assert(rest.skip(1) =~= source@.skip(i + 1));
                assert(before.push(c) + tail =~= before + (seq![rest[0]] + tail));
            }
            i += 1;
        }
    }
    proof {
        assert(result@ + Seq::<char>::empty() =~= result@);
    }
    result
}

/// The lower-case form of `c` where it is an ASCII capital letter.
fn lower_char(c: char) -> (r: char)
    ensures
        r == lower(c),
{
    if 'A' <= c && c <= 'Z' {
        ((c as u8) + 32u8) as char
    } else {
        c
    }
}

/// A copy of `text` with each ASCII capital letter in lower case.
pub fn to_ascii_lowercase(text: &str) -> (result: String)
    ensures
        result@ == lowercased(text@),
{
    broadcast use group_string_axioms;

    let mut result = String::new();
    for c in it: text.chars()
        invariant
            it.seq() == text@,
            result@ =~= lowercased(text@.take(it.index())),
    {
        push_char(&mut result, lower_char(c));
    }
    proof {
        assert(text@.take(text@.len() as int) =~= text@);
    }
    result
}

} // verus!
