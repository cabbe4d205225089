//! Helpers on text.

use vstd::prelude::*;
use vstd::string::{StrSliceExecFns, StringExecFns};

verus! {

/// The characters of `s`, one by one.
pub fn chars_of(s: &str) -> (chars: Vec<char>)
    ensures
        chars@ == s@,
{
    let mut chars: Vec<char> = Vec::new();
    for c in it: s.chars()
        invariant
            chars@ == it.seq().subrange(0, it.index() as int),
            it.seq() == s@,
    {
        chars.push(c);
    }
    chars
}

/// Position of the last `c` in `s`, or -1 where there is none.
pub open spec fn last_index_of(s: Seq<char>, c: char) -> int
    decreases s.len(),
{
    if s.len() == 0 {
        -1
    } else if s.last() == c {
        s.len() - 1
    } else {
        last_index_of(s.drop_last(), c)
    }
}

/// Where the last `c` stands in `s`: at a position of `s`, with no `c` after
/// it; or nowhere, and then `s` holds no `c`.
pub proof fn lemma_last_index_of(s: Seq<char>, c: char)
    ensures
        -1 <= last_index_of(s, c) < s.len(),
        last_index_of(s, c) >= 0 ==> s[last_index_of(s, c)] == c,
        forall|i: int| last_index_of(s, c) < i < s.len() ==> s[i] != c,
    decreases s.len(),
{
    if s.len() > 0 && s.last() != c {
        lemma_last_index_of(s.drop_last(), c);
        assert forall|i: int| last_index_of(s, c) < i < s.len() implies s[i] != c by {
            if i < s.len() - 1 {
                assert(s.drop_last()[i] == s[i]);
            }
        }
    }
}

/// Position of the last `c` among `chars`.
pub fn find_last(chars: &Vec<char>, c: char) -> (at: Option<usize>)
    ensures
        match at {
            Some(i) => i == last_index_of(chars@, c) && i < chars.len(),
            None => last_index_of(chars@, c) == -1,
        },
{
    let mut i: usize = chars.len();
    assert(chars@.subrange(0, i as int) =~= chars@);
    while i > 0
        invariant
            i <= chars.len(),
            last_index_of(chars@, c) == last_index_of(chars@.subrange(0, i as int), c),
        decreases i,
    {
        let ghost upto = chars@.subrange(0, i as int);
        assert(upto.last() == chars@[i - 1]);
        assert(upto.drop_last() =~= chars@.subrange(0, i - 1));
        if chars[i - 1] == c {
            return Some(i - 1);
        }
        i -= 1;
    }
    None
}

/// The text of `s` from character `from` up to character `to`.
pub fn slice_text(s: &str, from: usize, to: usize) -> (part: String)
    requires
        from <= to <= s@.len(),
    ensures
        part@ == s@.subrange(from as int, to as int),
{
    String::from_str(s.substring_char(from, to))
}

/// `text` with every `from` replaced by `to`.
pub open spec fn replaced(text: Seq<char>, from: char, to: Seq<char>) -> Seq<char>
    decreases text.len(),
{
    if text.len() == 0 {
        Seq::empty()
    } else if text.last() == from {
        replaced(text.drop_last(), from, to) + to
    } else {
        replaced(text.drop_last(), from, to).push(text.last())
    }
}

/// Replaces every `from` in `text` by `to`.
pub fn replace_char(text: &str, from: char, to: &str) -> (out: String)
    ensures
        out@ == replaced(text@, from, to@),
{
    let chars = chars_of(text);
    let mut out = String::new();
    let mut start: usize = 0;
    let mut i: usize = 0;
    assert(out@ + text@.subrange(0, 0) =~= replaced(text@.subrange(0, 0), from, to@));
    while i < chars.len()
        invariant
            start <= i <= chars.len(),
            chars@ == text@,
            out@ + text@.subrange(start as int, i as int) == replaced(
                text@.subrange(0, i as int),
                from,
                to@,
            ),
        decreases chars.len() - i,
    {
        let ghost before = text@.subrange(0, i as int);
        let ghost upto = text@.subrange(0, i + 1);
        let ghost piece = text@.subrange(start as int, i as int);
        let ghost written = out@;
        assert(upto.drop_last() =~= before);
        assert(upto.last() == text@[i as int]);
        if chars[i] == from {
            out.append(text.substring_char(start, i));
            out.append(to);
            start = i + 1;
            assert(out@ + text@.subrange(start as int, i + 1) =~= (written + piece) + to@);
        } else {
            assert(written + text@.subrange(start as int, i + 1) =~= (written + piece).push(
                text@[i as int],
            ));
        }
        i += 1;
    }
    out.append(text.substring_char(start, chars.len()));
    assert(text@.subrange(0, chars.len() as int) =~= text@);
    out
}

/// The pieces of `text` between the separators `sep`, empty pieces included:
/// a text without separator is one piece, and so is the empty text.
pub open spec fn split_on(text: Seq<char>, sep: char) -> Seq<Seq<char>>
    decreases text.len(),
{
    if text.len() == 0 {
        seq![Seq::empty()]
    } else {
        let before = split_on(text.drop_last(), sep);
        if text.last() == sep {
            before.push(Seq::empty())
        } else {
            before.drop_last().push(before.last().push(text.last()))
        }
    }
}

/// The views of a sequence of strings.
pub open spec fn texts_of(parts: Seq<String>) -> Seq<Seq<char>> {
    Seq::new(parts.len(), |i: int| parts[i]@)
}

/// Splits `text` at every `sep`.
pub fn split_text(text: &str, sep: char) -> (parts: Vec<String>)
    ensures
        texts_of(parts@) == split_on(text@, sep),
        parts.len() >= 1,
{
    let chars = chars_of(text);
    let mut parts: Vec<String> = Vec::new();
    let mut start: usize = 0;
    let mut i: usize = 0;
    assert(text@.subrange(0, 0) =~= Seq::<char>::empty());
    assert(texts_of(parts@).push(text@.subrange(0, 0)) =~= split_on(text@.subrange(0, 0), sep));
    while i < chars.len()
        invariant
            start <= i <= chars.len(),
            chars@ == text@,
            texts_of(parts@).push(text@.subrange(start as int, i as int)) == split_on(
                text@.subrange(0, i as int),
                sep,
            ),
        decreases chars.len() - i,
    {
        let ghost before = text@.subrange(0, i as int);
        let ghost upto = text@.subrange(0, i + 1);
        let ghost piece = text@.subrange(start as int, i as int);
        let ghost done = texts_of(parts@);
        assert(upto.drop_last() =~= before);
        assert(upto.last() == text@[i as int]);
        assert(done.push(piece).drop_last() =~= done);
        if chars[i] == sep {
            parts.push(slice_text(text, start, i));
            start = i + 1;
            assert(texts_of(parts@) =~= done.push(piece));
            assert(text@.subrange(start as int, i + 1) =~= Seq::<char>::empty());
        } else {
            assert(text@.subrange(start as int, i + 1) =~= piece.push(text@[i as int]));
        }
        i += 1;
    }
    let ghost done = texts_of(parts@);
    parts.push(slice_text(text, start, chars.len()));
    assert(texts_of(parts@) =~= done.push(text@.subrange(start as int, chars.len() as int)));
    assert(text@.subrange(0, chars.len() as int) =~= text@);
    parts
}

/// Whether `text` ends with `suffix`.
pub open spec fn ends_with(text: Seq<char>, suffix: Seq<char>) -> bool {
    text.len() >= suffix.len() && text.subrange(text.len() - suffix.len(), text.len() as int)
        == suffix
}

/// `text` without the copies of `suffix` at its end.
pub open spec fn without_suffix(text: Seq<char>, suffix: Seq<char>) -> Seq<char>
    decreases text.len(),
{
    if suffix.len() > 0 && ends_with(text, suffix) {
        without_suffix(text.subrange(0, text.len() - suffix.len()), suffix)
    } else {
        text
    }
}

/// Whether the characters before `end` end with `suffix`.
fn chars_end_with(chars: &Vec<char>, end: usize, suffix: &Vec<char>) -> (yes: bool)
    requires
        end <= chars.len(),
    ensures
        yes == ends_with(chars@.subrange(0, end as int), suffix@),
{
    if end < suffix.len() {
        return false;
    }
    let from: usize = end - suffix.len();
    let ghost head = chars@.subrange(0, end as int);
    let ghost tail = head.subrange(from as int, end as int);
    let mut i: usize = 0;
    while i < suffix.len()
        invariant
            i <= suffix.len(),
            from + suffix.len() == end,
            end <= chars.len(),
            head == chars@.subrange(0, end as int),
            tail == head.subrange(from as int, end as int),
            forall|j: int| 0 <= j < i ==> tail[j] == suffix@[j],
        decreases suffix.len() - i,
    {
        assert(tail[i as int] == chars@[from + i]);
        if chars[from + i] != suffix[i] {
            return false;
        }
        i += 1;
    }
    assert(tail =~= suffix@);
    true
}

/// Removes the copies of `suffix` at the end of `text`.
pub fn trim_suffix(text: &str, suffix: &str) -> (out: String)
    ensures
        out@ == without_suffix(text@, suffix@),
{
    let chars = chars_of(text);
    let tail = chars_of(suffix);
    let mut end: usize = chars.len();
    assert(text@.subrange(0, end as int) =~= text@);
    if tail.len() > 0 {
        while chars_end_with(&chars, end, &tail)
            invariant
                end <= chars.len(),
                chars@ == text@,
                tail@ == suffix@,
                tail.len() > 0,
                without_suffix(text@, suffix@) == without_suffix(
                    text@.subrange(0, end as int),
                    suffix@,
                ),
            decreases end,
        {
            let ghost head = text@.subrange(0, end as int);
            end = end - tail.len();
            assert(head.subrange(0, head.len() - suffix@.len()) =~= text@.subrange(0, end as int));
        }
    }
    slice_text(text, 0, end)
}

} // verus!
