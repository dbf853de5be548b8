//! Backlinks: notes whose text links to another note as `[[Title]]`.
use vstd::prelude::*;
use crate::errors::NoteError;
use crate::notes::{NoteManager, NoteSummary};
use crate::patterns::{regex_escape, regex_escaped, regex_is_match, regex_matches, regex_valid, replace_all, replaced};
use crate::tags::strings_view;

verus! {

/// How many lines, up to the current one, a link may be spread over.
pub const WINDOW_LINES: usize = 5;

/// The wiki link to a title.
pub open spec fn wiki_link(title: Seq<char>) -> Seq<char> {
    "[["@ + title + "]]"@
}

/// The regular expression that matches the wiki link to `title` literally.
pub open spec fn link_regex(title: Seq<char>) -> Seq<char> {
    "\\[\\["@ + regex_escaped(title) + "\\]\\]"@
}

/// The lines joined with line feeds.
pub open spec fn join_lines(ls: Seq<Seq<char>>) -> Seq<char>
    decreases ls.len(),
{
    if ls.len() == 0 {
        Seq::empty()
    } else if ls.len() == 1 {
        ls[0]
    } else {
        join_lines(ls.drop_last()) + "\n"@ + ls.last()
    }
}

/// The first line of the window that ends with line `i`.
pub open spec fn window_start(i: int) -> int {
    if i + 1 > WINDOW_LINES as int {
        i + 1 - WINDOW_LINES as int
    } else {
        0
    }
}

/// The text of the last lines up to and including line `i`.
pub open spec fn window(lines: Seq<Seq<char>>, i: int) -> Seq<char> {
    join_lines(lines.subrange(window_start(i), i + 1))
}

/// Whether some window of the lines matches `re`.
pub open spec fn some_window_matches(re: Seq<char>, lines: Seq<Seq<char>>) -> bool {
    exists|i: int| 0 <= i < lines.len() && regex_matches(re, #[trigger] window(lines, i))
}

/// Returns the regular expression that matches `[[title]]` literally.
pub fn link_pattern(title: &str) -> (r: String)
    ensures
        r@ == link_regex(title@),
{
    let escaped = regex_escape(title);
    let r = String::from_str("\\[\\[").concat(escaped.as_str()).concat("\\]\\]");
    r
}

/// The text of lines `start..=end` joined with line feeds.
fn join_range(lines: &Vec<String>, start: usize, end: usize) -> (r: String)
    requires
        start <= end < lines.len(),
    ensures
        r@ == join_lines(strings_view(lines@).subrange(start as int, end + 1)),
{
    let ghost ls = strings_view(lines@);
    let mut text = lines[start].clone();
    let mut k: usize = start + 1;
    assert(ls.subrange(start as int, start + 1).len() == 1);
    while k <= end
        invariant
            start < k <= end + 1,
            end < lines.len(),
            ls == strings_view(lines@),
            text@ == join_lines(ls.subrange(start as int, k as int)),
        decreases end + 1 - k,
    {
        assert(ls.subrange(start as int, k + 1).drop_last() =~= ls.subrange(start as int, k as int));
        text = text.concat("\n").concat(lines[k].as_str());
        k = k + 1;
    }
    text
}

/// Whether some window of at most five consecutive lines, joined with line
/// feeds, matches `pattern`; `InvalidInput` where the pattern does not
/// compile and there is a line to try it on.
pub fn lines_match(lines: &Vec<String>, pattern: &str) -> (r: Result<bool, NoteError>)
    ensures
        lines.len() == 0 ==> r == Ok::<bool, NoteError>(false),
        lines.len() > 0 && !regex_valid(pattern@) ==> r == Err::<bool, NoteError>(NoteError::InvalidInput),
        regex_valid(pattern@) ==> r == Ok::<bool, NoteError>(some_window_matches(pattern@, strings_view(lines@))),
{
    let ghost ls = strings_view(lines@);
    let mut i: usize = 0;
    while i < lines.len()
        invariant
            i <= lines.len(),
            ls == strings_view(lines@),
            i > 0 ==> regex_valid(pattern@),
            forall|k: int| 0 <= k < i ==> !regex_matches(pattern@, #[trigger] window(ls, k)),
        decreases lines.len() - i,
    {
        let start = if i + 1 > WINDOW_LINES {
            i + 1 - WINDOW_LINES
        } else {
            0
        };
        let text = join_range(lines, start, i);
        match regex_is_match(pattern, text.as_str()) {
            Ok(true) => {
                assert(text@ == window(ls, i as int));
                return Ok(true);
            },
            Ok(false) => {},
            Err(_) => {
                return Err(NoteError::InvalidInput);
            },
        }
        i = i + 1;
    }
    Ok(false)
}

/// `content` with every `[[old_title]]` turned into `[[new_title]]`.
pub fn update_backlinks(content: &str, old_title: &str, new_title: &str) -> (r: String)
    ensures
        r@ == replaced(content@, wiki_link(old_title@), wiki_link(new_title@)),
{
    let old_link = String::from_str("[[").concat(old_title).concat("]]");
    let new_link = String::from_str("[[").concat(new_title).concat("]]");
    proof {
        reveal_strlit("[[");
        reveal_strlit("]]");
    }
    replace_all(content, old_link.as_str(), new_link.as_str())
}

/// The notes, in order, whose lines hold a window that matches `re`.
pub open spec fn linking(re: Seq<char>, notes: Seq<NoteSummary>, lines: Seq<Vec<String>>) -> Seq<NoteSummary>
    decreases notes.len(),
{
    if notes.len() == 0 || lines.len() == 0 {
        Seq::empty()
    } else {
        let prev = linking(re, notes.drop_last(), lines.drop_last());
        if some_window_matches(re, strings_view(lines.last()@)) {
            prev.push(notes.last())
        } else {
            prev
        }
    }
}

impl NoteManager {
    /// The notes whose text, given line by line in `lines` (one entry per
    /// note), links to `note_title` as `[[note_title]]`, in listing order.
    pub fn find_backlinks(&self, note_title: &str, notes: Vec<NoteSummary>, lines: &Vec<Vec<String>>) -> (r: Result<Vec<NoteSummary>, NoteError>)
        requires
            notes.len() == lines.len(),
        ensures
            !regex_valid(link_regex(note_title@)) ==> r == Err::<Vec<NoteSummary>, NoteError>(NoteError::InvalidInput),
            regex_valid(link_regex(note_title@)) ==> (r matches Ok(found) && found@ == linking(link_regex(note_title@), notes@, lines@)),
    {
        let pattern = link_pattern(note_title);
        match regex_is_match(pattern.as_str(), "") {
            Ok(_) => {},
            Err(_) => {
                return Err(NoteError::InvalidInput);
            },
        }
        let ghost re = link_regex(note_title@);
        let ghost all = notes@;
        let mut found: Vec<NoteSummary> = Vec::new();
        let mut rest = notes;
        let mut i: usize = 0;
        assert(all.skip(0) =~= all);
        assert(all.take(0) =~= Seq::<NoteSummary>::empty());
        while i < lines.len()
            invariant
                i <= lines.len() == all.len(),
                pattern@ == re,
                regex_valid(re),
                rest@ == all.skip(i as int),
                found@ == linking(re, all.take(i as int), lines@.take(i as int)),
            decreases lines.len() - i,
        {
            let n = rest.remove(0);
            assert(all.skip(i as int + 1) =~= all.skip(i as int).drop_first());
            assert(all.take(i as int + 1).drop_last() =~= all.take(i as int));
            assert(lines@.take(i as int + 1).drop_last() =~= lines@.take(i as int));
            let m = lines_match(&lines[i], pattern.as_str());
            match m {
                Ok(true) => {
                    found.push(n);
                },
                _ => {},
            }
            i = i + 1;
        }
        assert(all.take(all.len() as int) =~= all);
        assert(lines@.take(lines.len() as int) =~= lines@);
        Ok(found)
    }
}

} // verus!
