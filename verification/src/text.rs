//! Operations on text: reading a string character by character, building one,
//! and escaping what the wiki markup would otherwise interpret.

use vstd::prelude::*;

verus! {

/// `String::push` of the standard library: the character is added at the end and
/// nothing else changes.
pub assume_specification[ String::push ](s: &mut String, ch: char)
    ensures
        final(s)@ == old(s)@.push(ch),
;

/// The characters of `s`, in order.
pub fn chars_of(s: &str) -> (v: Vec<char>)
    ensures
        v@ == s@,
{
    let mut v: Vec<char> = Vec::new();
    for ch in it: s.chars()
        invariant
            v@ == it.history(),
    {
        v.push(ch);
    }
    v
}

/// Whether two strings hold the same characters.
pub fn same_text(a: &str, b: &str) -> (r: bool)
    ensures
        r == (a@ == b@),
{
    let x = chars_of(a);
    let y = chars_of(b);
    if x.len() != y.len() {
        return false;
    }
    let mut i: usize = 0;
    while i < x.len()
        invariant
            x@ == a@,
            y@ == b@,
            x@.len() == y@.len(),
            i <= x@.len(),
            x@.subrange(0, i as int) == y@.subrange(0, i as int),
        decreases x@.len() - i,
    {
        if x[i] != y[i] {
            assert(x@[i as int] != y@[i as int]);
            return false;
        }
        i += 1;
        assert(x@.subrange(0, i as int) == x@.subrange(0, i - 1).push(x@[i - 1]));
        assert(y@.subrange(0, i as int) == y@.subrange(0, i - 1).push(y@[i - 1]));
    }
    assert(x@ == x@.subrange(0, i as int));
    assert(y@ == y@.subrange(0, i as int));
    true
}

/// The characters that the wiki markup gives a meaning to.
pub open spec fn is_markup(c: char) -> bool {
    c == '-' || c == '*' || c == '_' || c == '?' || c == '[' || c == ']' || c == '{' || c == '}'
}

/// `s` with a backslash in front of every markup character.
pub open spec fn escaped(s: Seq<char>) -> Seq<char>
    decreases s.len(),
{
    if s.len() == 0 {
        Seq::empty()
    } else if is_markup(s.last()) {
        escaped(s.drop_last()).push('\\').push(s.last())
    } else {
        escaped(s.drop_last()).push(s.last())
    }
}

/// How many markup characters `s` holds.
pub open spec fn markup_count(s: Seq<char>) -> nat
    decreases s.len(),
{
    if s.len() == 0 {
        0
    } else if is_markup(s.last()) {
        markup_count(s.drop_last()) + 1
    } else {
        markup_count(s.drop_last())
    }
}

/// `s` without the backslash that stands in front of a markup character.
pub open spec fn unescaped(s: Seq<char>) -> Seq<char>
    decreases s.len(),
{
    if s.len() == 0 {
        Seq::empty()
    } else if s.len() >= 2 && is_markup(s.last()) && s[s.len() - 2] == '\\' {
        unescaped(s.subrange(0, s.len() - 2)).push(s.last())
    } else {
        unescaped(s.drop_last()).push(s.last())
    }
}

/// Whether `c` is one of the markup characters.
pub fn markup_char(c: char) -> (r: bool)
    ensures
        r == is_markup(c),
{
    c == '-' || c == '*' || c == '_' || c == '?' || c == '[' || c == ']' || c == '{' || c == '}'
}

/// Escapes free text for the wiki markup: every markup character gets a backslash
/// in front of it, every other character stays as it is.
pub fn escape(text: &str) -> (r: String)
    ensures
        r@ == escaped(text@),
        r@.len() == text@.len() + markup_count(text@),
        forall|j: int| 0 <= j < r@.len() && is_markup(#[trigger] r@[j]) ==> j > 0 && r@[j - 1] == '\\',
        (forall|i: int| 0 <= i < text@.len() ==> !is_markup(text@[i])) ==> r@ == text@,
        unescaped(r@) == text@,
{
    let chars = chars_of(text);
    let mut r = String::new();
    let mut i: usize = 0;
    while i < chars.len()
        invariant
            i <= chars@.len(),
            r@ == escaped(chars@.subrange(0, i as int)),
        decreases chars@.len() - i,
    {
        let ch = chars[i];
        if markup_char(ch) {
            r.push('\\');
        }
        r.push(ch);
        i += 1;
        assert(chars@.subrange(0, i as int).drop_last() == chars@.subrange(0, i - 1));
    }
    proof {
        assert(chars@.subrange(0, i as int) == text@);
        lemma_escaped_len(text@);
        lemma_escaped_guarded(text@);
        lemma_escaped_plain(text@);
        lemma_unescaped_escaped(text@);
    }
    r
}

/// Escaping adds one character for each markup character, and none else.
pub proof fn lemma_escaped_len(s: Seq<char>)
    ensures
        escaped(s).len() == s.len() + markup_count(s),
        escaped(s).len() >= s.len(),
    decreases s.len(),
{
    if s.len() > 0 {
        lemma_escaped_len(s.drop_last());
    }
}

/// In escaped text every markup character stands directly behind a backslash.
pub proof fn lemma_escaped_guarded(s: Seq<char>)
    ensures
        forall|j: int|
            0 <= j < escaped(s).len() && is_markup(#[trigger] escaped(s)[j]) ==> j > 0 && escaped(
                s,
            )[j - 1] == '\\',
    decreases s.len(),
{
    if s.len() > 0 {
        let head = escaped(s.drop_last());
        lemma_escaped_guarded(s.drop_last());
        assert forall|j: int|
            0 <= j < escaped(s).len() && is_markup(#[trigger] escaped(s)[j]) implies j > 0
            && escaped(s)[j - 1] == '\\' by {
            if j < head.len() {
                assert(escaped(s)[j] == head[j]);
                assert(is_markup(head[j]));
                assert(escaped(s)[j - 1] == head[j - 1]);
            }
        }
    }
}

/// Text without markup characters is its own escaped form; so is the empty text.
pub proof fn lemma_escaped_plain(s: Seq<char>)
    ensures
        (forall|i: int| 0 <= i < s.len() ==> !is_markup(s[i])) ==> escaped(s) == s,
        escaped(Seq::<char>::empty()) == Seq::<char>::empty(),
    decreases s.len(),
{
    if s.len() > 0 {
        lemma_escaped_plain(s.drop_last());
        if forall|i: int| 0 <= i < s.len() ==> !is_markup(s[i]) {
            assert(forall|i: int| 0 <= i < s.drop_last().len() ==> s.drop_last()[i] == s[i]);
            assert(escaped(s) == s.drop_last().push(s.last()));
            assert(s.drop_last().push(s.last()) == s);
        }
    }
}

/// Taking the added backslashes out of escaped text gives the text back: escaping
/// loses nothing and keeps the order of the characters.
pub proof fn lemma_unescaped_escaped(s: Seq<char>)
    ensures
        unescaped(escaped(s)) == s,
    decreases s.len(),
{
    if s.len() > 0 {
        let head = s.drop_last();
        let e = escaped(s);
        lemma_unescaped_escaped(head);
        if is_markup(s.last()) {
            assert(e.subrange(0, e.len() - 2) == escaped(head));
        } else {
            assert(e.drop_last() == escaped(head));
        }
        assert(head.push(s.last()) == s);
    }
}

} // verus!
