//! Words and `#tags` in note content.
use vstd::prelude::*;
use crate::text::{alphanumeric, chars_of, is_alphabetic, is_numeric, is_whitespace, string_from_chars, white_space};

verus! {

/// The words of `s` (maximal runs of characters that are not white space),
/// where `cur` holds the characters of the word read just before `s`.
pub open spec fn words_from(s: Seq<char>, cur: Seq<char>) -> Seq<Seq<char>>
    decreases s.len(),
{
    if s.len() == 0 {
        if cur.len() > 0 {
            seq![cur]
        } else {
            Seq::empty()
        }
    } else if white_space(s[0]) {
        (if cur.len() > 0 {
            seq![cur]
        } else {
            Seq::empty()
        }) + words_from(s.drop_first(), Seq::empty())
    } else {
        words_from(s.drop_first(), cur.push(s[0]))
    }
}

/// The white-space separated words of `s`, in order.
pub open spec fn words_of(s: Seq<char>) -> Seq<Seq<char>> {
    words_from(s, Seq::empty())
}

/// `w` without its leading `#` characters.
pub open spec fn strip_hashes(w: Seq<char>) -> Seq<char>
    decreases w.len(),
{
    if w.len() > 0 && w[0] == '#' {
        strip_hashes(w.drop_first())
    } else {
        w
    }
}

/// `w` without its trailing characters that are not alphanumeric.
pub open spec fn trim_trailing(w: Seq<char>) -> Seq<char>
    decreases w.len(),
{
    if w.len() > 0 && !alphanumeric(w.last()) {
        trim_trailing(w.drop_last())
    } else {
        w
    }
}

/// The tag that a word names: a word of two or more characters that starts
/// with `#`, without its leading `#`s and trailing punctuation, if anything
/// is left.
pub open spec fn tag_of(w: Seq<char>) -> Option<Seq<char>> {
    if w.len() > 1 && w[0] == '#' && trim_trailing(strip_hashes(w)).len() > 0 {
        Some(trim_trailing(strip_hashes(w)))
    } else {
        None
    }
}

/// The distinct tags of a list of words, in order of first appearance.
pub open spec fn collect_tags(ws: Seq<Seq<char>>) -> Seq<Seq<char>>
    decreases ws.len(),
{
    if ws.len() == 0 {
        Seq::empty()
    } else {
        let prev = collect_tags(ws.drop_last());
        match tag_of(ws.last()) {
            Some(t) => if prev.contains(t) {
                prev
            } else {
                prev.push(t)
            },
            None => prev,
        }
    }
}

/// The tags of a text.
pub open spec fn tags_of(s: Seq<char>) -> Seq<Seq<char>> {
    collect_tags(words_of(s))
}

pub open spec fn strings_view(v: Seq<String>) -> Seq<Seq<char>> {
    v.map_values(|s: String| s@)
}

/// The words of `s`, in order.
pub(crate) fn split_words(s: &Vec<char>) -> (r: Vec<Vec<char>>)
    ensures
        r@.map_values(|w: Vec<char>| w@) == words_of(s@),
{
    let mut words: Vec<Vec<char>> = Vec::new();
    let mut cur: Vec<char> = Vec::new();
    let mut i: usize = 0;
    assert(s@.skip(0) =~= s@);
    assert(words@.map_values(|w: Vec<char>| w@) =~= Seq::<Seq<char>>::empty());
    while i < s.len()
        invariant
            i <= s.len(),
            words@.map_values(|w: Vec<char>| w@) + words_from(s@.skip(i as int), cur@) == words_of(
                s@,
            ),
        decreases s.len() - i,
    {
        let c = s[i];
        assert(s@.skip(i as int).drop_first() =~= s@.skip(i as int + 1));
        if is_whitespace(c) {
            if cur.len() > 0 {
                let ghost before = words@.map_values(|w: Vec<char>| w@);
                words.push(cur);
                assert(words@.map_values(|w: Vec<char>| w@) =~= before + seq![cur@]);
            }
            cur = Vec::new();
            assert(words@.map_values(|w: Vec<char>| w@) + words_from(s@.skip(i as int + 1), cur@)
                =~= words_of(s@));
        } else {
            cur.push(c);
        }
        i = i + 1;
    }
    if cur.len() > 0 {
        let ghost before = words@.map_values(|w: Vec<char>| w@);
        words.push(cur);
        assert(words@.map_values(|w: Vec<char>| w@) =~= before + seq![cur@]);
    } else {
        assert(words@.map_values(|w: Vec<char>| w@) + Seq::<Seq<char>>::empty() =~= words@.map_values(|w: Vec<char>| w@));
    }
    words
}

fn is_alphanumeric(c: char) -> (r: bool)
    ensures
        r == alphanumeric(c),
{
    is_alphabetic(c) || is_numeric(c)
}

/// The tag that the word `w` names, if any.
fn word_tag(w: &Vec<char>) -> (r: Option<Vec<char>>)
    ensures
        r matches Some(t) ==> tag_of(w@) == Some(t@),
        r is None ==> tag_of(w@) is None,
{
    if w.len() <= 1 || w[0] != '#' {
        return None;
    }
    let mut start: usize = 0;
    assert(w@.skip(0) =~= w@);
    while start < w.len() && w[start] == '#'
        invariant
            start <= w.len(),
            strip_hashes(w@) == strip_hashes(w@.skip(start as int)),
        decreases w.len() - start,
    {
        assert(w@.skip(start as int).drop_first() =~= w@.skip(start as int + 1));
        start = start + 1;
    }
    let mut end: usize = w.len();
    assert(w@.skip(start as int) =~= w@.subrange(start as int, end as int));
    while end > start && !is_alphanumeric(w[end - 1])
        invariant
            start <= end <= w.len(),
            trim_trailing(strip_hashes(w@)) == trim_trailing(w@.subrange(start as int, end as int)),
        decreases end,
    {
        assert(w@.subrange(start as int, end as int).drop_last() =~= w@.subrange(
            start as int,
            end as int - 1,
        ));
        end = end - 1;
    }
    if end == start {
        assert(w@.subrange(start as int, end as int).len() == 0);
        return None;
    }
    let mut t: Vec<char> = Vec::new();
    let mut k: usize = start;
    while k < end
        invariant
            start <= k <= end <= w.len(),
            t@ == w@.subrange(start as int, k as int),
        decreases end - k,
    {
        t.push(w[k]);
        assert(t@ =~= w@.subrange(start as int, k as int + 1));
        k = k + 1;
    }
    Some(t)
}

/// Whether `v` holds a string with the characters `s`.
pub(crate) fn contains_string(v: &Vec<String>, s: &String) -> (r: bool)
    ensures
        r == strings_view(v@).contains(s@),
{
    let mut i: usize = 0;
    while i < v.len()
        invariant
            i <= v.len(),
            forall|k: int| 0 <= k < i ==> v@[k]@ != s@,
        decreases v.len() - i,
    {
        if v[i] == *s {
            assert(strings_view(v@)[i as int] == s@);
            return true;
        }
        i = i + 1;
    }
    proof {
        if strings_view(v@).contains(s@) {
            let j = choose|j: int| 0 <= j < strings_view(v@).len() && strings_view(v@)[j] == s@;
            assert(v@[j]@ == s@);
        }
    }
    false
}

/// The tags of `content`: each word that starts with `#`, without its `#`s
/// and trailing punctuation, once each, in order of first appearance.
pub fn extract_tags(content: &str) -> (r: Vec<String>)
    ensures
        strings_view(r@) == tags_of(content@),
{
    let chars = chars_of(content);
    let words = split_words(&chars);
    let ghost ws = words@.map_values(|w: Vec<char>| w@);
    let mut tags: Vec<String> = Vec::new();
    let mut i: usize = 0;
    assert(ws.take(0) =~= Seq::<Seq<char>>::empty());
    assert(strings_view(tags@) =~= Seq::<Seq<char>>::empty());
    while i < words.len()
        invariant
            i <= words.len(),
            ws == words@.map_values(|w: Vec<char>| w@),
            ws == words_of(content@),
            strings_view(tags@) == collect_tags(ws.take(i as int)),
        decreases words.len() - i,
    {
        assert(ws.take(i as int + 1).drop_last() =~= ws.take(i as int));
        assert(ws.take(i as int + 1).last() == words@[i as int]@);
        match word_tag(&words[i]) {
            Some(t) => {
                let tag = string_from_chars(t.as_slice());
                if !contains_string(&tags, &tag) {
                    let ghost before = strings_view(tags@);
                    tags.push(tag);
                    assert(strings_view(tags@) =~= before.push(tag@));
                }
            },
            None => {},
        }
        i = i + 1;
    }
    assert(ws.take(words.len() as int) =~= ws);
    tags
}

} // verus!
