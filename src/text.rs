use vstd::prelude::*;

verus! {

/// `pattern` occurs in `text` starting at position `i`.
pub open spec fn occurs_at(text: Seq<char>, pattern: Seq<char>, i: int) -> bool {
    &&& 0 <= i
    &&& i + pattern.len() <= text.len()
    &&& text.subrange(i, i + pattern.len()) == pattern
}

/// `pattern` is a contiguous run of characters of `text`.
pub open spec fn is_infix(pattern: Seq<char>, text: Seq<char>) -> bool {
    exists|i: int| occurs_at(text, pattern, i)
}

/// `text` begins with `pattern`.
pub open spec fn is_prefix(pattern: Seq<char>, text: Seq<char>) -> bool {
    pattern.len() <= text.len() && text.take(pattern.len() as int) == pattern
}

/// `text` ends with `pattern`.
pub open spec fn is_suffix(pattern: Seq<char>, text: Seq<char>) -> bool {
    pattern.len() <= text.len() && text.skip(text.len() - pattern.len()) == pattern
}

/// The characters of `text` that come before its first `.`; all of `text`
/// when it holds no `.`.
pub open spec fn stem(text: Seq<char>) -> Seq<char>
    decreases text.len(),
{
    if text.len() == 0 {
        text
    } else if text[0] == '.' {
        Seq::empty()
    } else {
        seq![text[0]] + stem(text.drop_first())
    }
}

/// `stem` cut at the first `.`: if no `.` stands before position `i`, and `i`
/// is the end of `text` or holds a `.`, the stem is the first `i` characters.
pub proof fn lemma_stem_at(text: Seq<char>, i: int)
    requires
        0 <= i <= text.len(),
        forall|k: int| 0 <= k < i ==> text[k] != '.',
        i == text.len() || text[i] == '.',
    ensures
        stem(text) == text.take(i),
    decreases text.len(),
{
    if text.len() == 0 {
        assert(text.take(i) =~= text);
    } else if text[0] == '.' {
        assert(text.take(i) =~= Seq::<char>::empty());
    } else {
        let rest = text.drop_first();
        assert forall|k: int| 0 <= k < i - 1 implies rest[k] != '.' by {
            assert(rest[k] == text[k + 1]);
        }
        lemma_stem_at(rest, i - 1);
        assert(text.take(i) =~= seq![text[0]] + rest.take(i - 1));
    }
}

/// The characters of `s`, one by one.
pub fn chars_of(s: &str) -> (r: Vec<char>)
    ensures
        r@ == s@,
{
    let mut out: Vec<char> = Vec::new();
    for c in it: s.chars()
        invariant
            it.seq() == s@,
            out@ == s@.take(it.index() as int),
    {
        out.push(c);
    }
    out
}

/// Whether `pattern` occurs in `text` starting at position `i`.
fn occurs_at_exec(text: &Vec<char>, pattern: &Vec<char>, i: usize) -> (r: bool)
    ensures
        r == occurs_at(text@, pattern@, i as int),
{
    if i > text.len() || pattern.len() > text.len() - i {
        return false;
    }
    let mut j: usize = 0;
    while j < pattern.len()
        invariant
            i + pattern.len() <= text.len(),
            j <= pattern.len(),
            forall|k: int| 0 <= k < j ==> text@[i + k] == pattern@[k],
        decreases pattern.len() - j,
    {
        if text[i + j] != pattern[j] {
            assert(text@.subrange(i as int, i + pattern.len())[j as int] != pattern@[j as int]);
            return false;
        }
        j = j + 1;
    }
    assert(text@.subrange(i as int, i + pattern.len()) =~= pattern@);
    true
}

/// Whether `pattern` is a contiguous run of characters of `text`.
pub fn text_contains(text: &str, pattern: &str) -> (r: bool)
    ensures
        r == is_infix(pattern@, text@),
{
    let t = chars_of(text);
    let p = chars_of(pattern);
    if p.len() > t.len() {
        return false;
    }
    let last = t.len() - p.len();
    let mut i: usize = 0;
    loop
        invariant
            t@ == text@,
            p@ == pattern@,
            last == t.len() - p.len(),
            i <= last,
            forall|k: int| 0 <= k < i ==> !occurs_at(text@, pattern@, k),
        decreases last - i,
    {
        if occurs_at_exec(&t, &p, i) {
            return true;
        }
        if i == last {
            return false;
        }
        i = i + 1;
    }
}

/// Whether `text` begins with `pattern`.
pub fn text_starts_with(text: &str, pattern: &str) -> (r: bool)
    ensures
        r == is_prefix(pattern@, text@),
{
    let t = chars_of(text);
    let p = chars_of(pattern);
    let r = occurs_at_exec(&t, &p, 0);
    assert(r == is_prefix(pattern@, text@)) by {
        assert(text@.take(pattern@.len() as int) =~= text@.subrange(0, pattern@.len() as int));
    }
    r
}

/// Whether `text` ends with `pattern`.
pub fn text_ends_with(text: &str, pattern: &str) -> (r: bool)
    ensures
        r == is_suffix(pattern@, text@),
{
    let t = chars_of(text);
    let p = chars_of(pattern);
    if p.len() > t.len() {
        return false;
    }
    let start = t.len() - p.len();
    let r = occurs_at_exec(&t, &p, start);
    assert(r == is_suffix(pattern@, text@)) by {
        assert(text@.skip(start as int) =~= text@.subrange(start as int, text@.len() as int));
    }
    r
}

/// The part of `text` before its first `.`, borrowed from `text`; all of
/// `text` when it holds no `.`.
pub fn text_stem(text: &str) -> (r: &str)
    ensures
        r@ == stem(text@),
{
    let t = chars_of(text);
    let mut i: usize = 0;
    while i < t.len() && t[i] != '.'
        invariant
            t@ == text@,
            i <= t.len(),
            forall|k: int| 0 <= k < i ==> text@[k] != '.',
        decreases t.len() - i,
    {
        i = i + 1;
    }
    proof {
        lemma_stem_at(text@, i as int);
    }
    text.substring_char(0, i)
}

} // verus!
