//! Notes and their summaries: what is derived from a file's path and text.
use vstd::prelude::*;
use crate::codec::{encode_id, id_of};
use crate::tags::{extract_tags, strings_view, strip_hashes, tags_of};
use vstd::utf8::encode_utf8;
use crate::text::{before, chars_of, copy_range, find_char, string_from_chars, trim_range, trim_ws};

verus! {

/// The kind of a note file.
#[derive(Debug, Clone, Copy, PartialEq, Eq, Structural)]
pub enum NoteType {
    /// A `.md` file.
    Markdown,
    /// A `.txt` file.
    PlainText,
}

/// The orders in which a listing can come.
#[derive(Debug, Clone, Copy, PartialEq, Eq, Structural)]
pub enum SortOption {
    /// Titles in natural order, A to Z.
    TitleAsc,
    /// Titles in natural order, Z to A.
    TitleDesc,
    /// Newest creation time first.
    CreatedNewest,
    /// Oldest creation time first.
    CreatedOldest,
    /// Newest modification time first.
    ModifiedNewest,
    /// Oldest modification time first.
    ModifiedOldest,
}

/// A note as read from its file. Times are seconds since the Unix epoch.
#[derive(Debug, Clone)]
pub struct Note {
    pub id: String,
    pub title: String,
    pub content: String,
    pub created: i64,
    pub modified: i64,
    pub tags: Vec<String>,
    pub file_type: NoteType,
    /// Path relative to the notes directory, with `/` between components.
    pub path: String,
}

/// A note without its content and path, for listings.
#[derive(Debug, Clone)]
pub struct NoteSummary {
    pub id: String,
    pub title: String,
    pub created: i64,
    pub modified: i64,
    pub tags: Vec<String>,
    pub file_type: NoteType,
}

/// Title given to a Markdown note with no text.
pub open spec fn untitled() -> Seq<char> {
    "Untitled Note"@
}

/// The first line of `s`: up to the first line feed, without a carriage
/// return just before it.
pub open spec fn first_line(s: Seq<char>) -> Seq<char> {
    let line = before(s, '\n');
    if line.len() < s.len() && line.len() > 0 && line.last() == '\r' {
        line.drop_last()
    } else {
        line
    }
}

/// The title of a Markdown note: its first line without leading `#`s and
/// surrounding white space, or "Untitled Note" where the text is empty.
pub open spec fn markdown_title(content: Seq<char>) -> Seq<char> {
    if content.len() == 0 {
        untitled()
    } else {
        trim_ws(strip_hashes(first_line(content)))
    }
}

/// The last component of a `/`-separated path.
pub open spec fn file_name_of(path: Seq<char>) -> Seq<char> {
    before(path.reverse(), '/').reverse()
}

/// Whether a file name has an extension: a `.` that is not its first
/// character (`.bashrc` has none).
pub open spec fn has_extension(name: Seq<char>) -> bool {
    let rev_stem_len = before(name.reverse(), '.').len();
    rev_stem_len < name.len() && rev_stem_len + 1 < name.len()
}

/// The extension of a file name: what follows its last `.`.
pub open spec fn extension_of(name: Seq<char>) -> Option<Seq<char>> {
    if has_extension(name) {
        Some(before(name.reverse(), '.').reverse())
    } else {
        None
    }
}

/// The stem of a file name: what precedes its last `.`, or all of it.
pub open spec fn stem_of(name: Seq<char>) -> Seq<char> {
    if has_extension(name) {
        name.take(name.len() - before(name.reverse(), '.').len() - 1)
    } else {
        name
    }
}

/// The note type of a path: Markdown for the extension `md`, plain text
/// otherwise.
pub open spec fn type_of_path(path: Seq<char>) -> NoteType {
    if extension_of(file_name_of(path)) == Some("md"@) {
        NoteType::Markdown
    } else {
        NoteType::PlainText
    }
}

/// Whether a path names a note file: its extension is `md` or `txt`.
pub open spec fn is_note_path(path: Seq<char>) -> bool {
    extension_of(file_name_of(path)) == Some("md"@) || extension_of(file_name_of(path)) == Some("txt"@)
}

/// The title of a note: from the text for Markdown, the file stem otherwise.
pub open spec fn title_of(path: Seq<char>, content: Seq<char>) -> Seq<char> {
    match type_of_path(path) {
        NoteType::Markdown => markdown_title(content),
        NoteType::PlainText => stem_of(file_name_of(path)),
    }
}

/// Index just after the last `c` in `t`, or 0.
fn after_last(t: &Vec<char>, c: char) -> (r: usize)
    ensures
        r <= t.len(),
        t@.skip(r as int) == before(t@.reverse(), c).reverse(),
        r > 0 ==> t@[r - 1] == c,
{
    let mut i: usize = t.len();
    assert(t@.skip(i as int) =~= Seq::<char>::empty());
    assert(t@.reverse().take(0) =~= Seq::<char>::empty());
    while i > 0 && t[i - 1] != c
        invariant
            i <= t.len(),
            forall|k: int| i <= k < t.len() ==> t@[k] != c,
            t@.skip(i as int).reverse() == t@.reverse().take(t.len() - i),
        decreases i,
    {
        assert(t@.skip(i as int - 1).reverse() =~= t@.reverse().take(t.len() - i + 1));
        i = i - 1;
    }
    proof {
        let rv = t@.reverse();
        let n = (t.len() - i) as int;
        assert forall|k: int| 0 <= k < n implies rv[k] != c by {
            assert(rv[k] == t@[t.len() - 1 - k]);
        }
        lemma_before_take(rv, c, n);
        assert(t@.skip(i as int).reverse().reverse() =~= t@.skip(i as int));
    }
    i
}

/// Where the first `c` of `t` stands at `n` (or `t` has none and `n` is its
/// length), the characters before it are `t.take(n)`.
pub(crate) proof fn lemma_before_take(t: Seq<char>, c: char, n: int)
    requires
        0 <= n <= t.len(),
        forall|k: int| 0 <= k < n ==> t[k] != c,
        n < t.len() ==> t[n] == c,
    ensures
        before(t, c) == t.take(n),
    decreases n,
{
    if n == 0 {
        assert(t.take(0) =~= Seq::<char>::empty());
    } else {
        lemma_before_take(t.drop_first(), c, n - 1);
        assert(t.take(n) =~= seq![t[0]] + t.drop_first().take(n - 1));
    }
}

/// The note type of a relative path.
pub fn note_type_of(path: &str) -> (r: NoteType)
    ensures
        r == type_of_path(path@),
{
    let t = chars_of(path);
    match extension_range(&t) {
        Some(start) => {
            if t.len() - start == 2 && t[start] == 'm' && t[start + 1] == 'd' {
                proof {
                    reveal_strlit("md");
                    assert(t@.skip(start as int) =~= "md"@);
                }
                NoteType::Markdown
            } else {
                proof {
                    reveal_strlit("md");
                    let e = t@.skip(start as int);
                    if e == "md"@ {
                        assert(e.len() == 2);
                        assert(e[0] == 'm' && e[1] == 'd');
                        assert(t@[start as int] == e[0]);
                        assert(t@[start + 1] == e[1]);
                    }
                }
                NoteType::PlainText
            }
        },
        None => NoteType::PlainText,
    }
}

/// Whether `path` names a note file: one with the extension `md` or `txt`.
pub fn is_note_file(path: &str) -> (r: bool)
    ensures
        r == is_note_path(path@),
{
    let t = chars_of(path);
    proof {
        reveal_strlit("md");
        reveal_strlit("txt");
    }
    match extension_range(&t) {
        Some(start) => {
            let e = copy_range(&t, start, t.len());
            let ghost ext = t@.skip(start as int);
            assert(e@ =~= ext);
            let md = e.len() == 2 && e[0] == 'm' && e[1] == 'd';
            let txt = e.len() == 3 && e[0] == 't' && e[1] == 'x' && e[2] == 't';
            proof {
                if md {
                    assert(ext =~= "md"@);
                }
                if txt {
                    assert(ext =~= "txt"@);
                }
                if ext == "md"@ {
                    assert(ext.len() == 2 && ext[0] == 'm' && ext[1] == 'd');
                }
                if ext == "txt"@ {
                    assert(ext.len() == 3 && ext[0] == 't' && ext[1] == 'x' && ext[2] == 't');
                }
            }
            md || txt
        },
        None => false,
    }
}

/// Where the extension of the file named at the end of `t` starts, if it
/// has one.
fn extension_range(t: &Vec<char>) -> (r: Option<usize>)
    ensures
        r is Some <==> extension_of(file_name_of(t@)) is Some,
        r matches Some(s) ==> s <= t.len() && extension_of(file_name_of(t@)) == Some(t@.skip(s as int)),
{
    let name_start = after_last(t, '/');
    let name = copy_range(t, name_start, t.len());
    let dot = after_last(&name, '.');
    proof {
        assert(name@ == file_name_of(t@));
        let rev_ext = before(name@.reverse(), '.');
        assert(name@.skip(dot as int).reverse() == rev_ext);
        assert(rev_ext.len() == name.len() - dot);
    }
    if dot > 1 {
        assert(name@.skip(dot as int) =~= t@.skip(name_start + dot));
        Some(name_start + dot)
    } else {
        None
    }
}

/// The title of a Markdown note with text `content`.
fn markdown_title_exec(content: &str) -> (r: String)
    ensures
        r@ == markdown_title(content@),
{
    let t = chars_of(content);
    if t.len() == 0 {
        return String::from_str("Untitled Note");
    }
    let n = find_char(&t, '\n');
    let mut end = n;
    if n < t.len() && n > 0 && t[n - 1] == '\r' {
        end = n - 1;
    }
    proof {
        if n > 0 {
            assert(t@.take(n as int).drop_last() =~= t@.take(n as int - 1));
        }
    }
    let ghost line = t@.take(end as int);
    assert(line == first_line(content@));
    let mut a: usize = 0;
    assert(t@.subrange(0, end as int) =~= line);
    while a < end && t[a] == '#'
        invariant
            a <= end <= t.len(),
            strip_hashes(line) == strip_hashes(t@.subrange(a as int, end as int)),
        decreases end - a,
    {
        assert(t@.subrange(a as int, end as int).drop_first() =~= t@.subrange(a as int + 1, end as int));
        a = a + 1;
    }
    let title = trim_range(&t, a, end);
    string_from_chars(title.as_slice())
}

/// Where the file stem of the path `t` starts and ends.
fn stem_range(t: &Vec<char>) -> (r: (usize, usize))
    ensures
        r.0 <= r.1 <= t.len(),
        t@.subrange(r.0 as int, r.1 as int) == stem_of(file_name_of(t@)),
{
    let name_start = after_last(t, '/');
    let name = copy_range(t, name_start, t.len());
    let dot = after_last(&name, '.');
    proof {
        let rev_ext = before(name@.reverse(), '.');
        assert(name@.skip(dot as int).reverse() == rev_ext);
        assert(rev_ext.len() == name.len() - dot);
    }
    if dot > 1 {
        assert(t@.subrange(name_start as int, (name_start + dot - 1) as int) =~= name@.take(dot - 1));
        (name_start, name_start + dot - 1)
    } else {
        assert(t@.subrange(name_start as int, t.len() as int) =~= name@);
        (name_start, t.len())
    }
}

/// The title of the note at `path` with text `content`.
pub fn note_title(path: &str, content: &str) -> (r: String)
    ensures
        r@ == title_of(path@, content@),
{
    match note_type_of(path) {
        NoteType::Markdown => markdown_title_exec(content),
        NoteType::PlainText => {
            let t = chars_of(path);
            let (a, b) = stem_range(&t);
            let stem = copy_range(&t, a, b);
            string_from_chars(stem.as_slice())
        },
    }
}

/// Whether `n` is the note read from the file at `path` with text `content`
/// and the given times.
pub open spec fn is_note_of(n: Note, path: Seq<char>, content: Seq<char>, created: i64, modified: i64) -> bool {
    &&& n.id@ == id_of(path)
    &&& n.title@ == title_of(path, content)
    &&& n.content@ == content
    &&& n.created == created
    &&& n.modified == modified
    &&& strings_view(n.tags@) == tags_of(content)
    &&& n.file_type == type_of_path(path)
    &&& n.path@ == path
}

/// Whether `s` is `n` without its content and path.
pub open spec fn is_summary_of(s: NoteSummary, n: Note) -> bool {
    &&& s.id@ == n.id@
    &&& s.title@ == n.title@
    &&& s.created == n.created
    &&& s.modified == n.modified
    &&& strings_view(s.tags@) == strings_view(n.tags@)
    &&& s.file_type == n.file_type
}

fn clone_strings(v: &Vec<String>) -> (r: Vec<String>)
    ensures
        strings_view(r@) == strings_view(v@),
{
    let mut out: Vec<String> = Vec::new();
    let mut i: usize = 0;
    while i < v.len()
        invariant
            i <= v.len(),
            out@ == v@.take(i as int),
        decreases v.len() - i,
    {
        out.push(v[i].clone());
        assert(out@ =~= v@.take(i as int + 1));
        i = i + 1;
    }
    assert(v@.take(v.len() as int) =~= v@);
    out
}

impl NoteSummary {
    /// The summary of a note: the note without its content and path.
    pub fn of_note(n: &Note) -> (r: NoteSummary)
        ensures
            is_summary_of(r, *n),
    {
        NoteSummary {
            id: n.id.clone(),
            title: n.title.clone(),
            created: n.created,
            modified: n.modified,
            tags: clone_strings(&n.tags),
            file_type: n.file_type,
        }
    }
}

/// The notes kept as files under one directory.
#[derive(Debug, Clone)]
pub struct NoteManager {
    notes_dir: String,
}

impl NoteManager {
    pub closed spec fn dir(&self) -> Seq<char> {
        self.notes_dir@
    }

    /// A manager for the notes under `notes_dir`.
    pub fn new(notes_dir: String) -> (r: Self)
        ensures
            r.dir() == notes_dir@,
    {
        NoteManager { notes_dir }
    }

    /// The directory that holds the notes.
    pub fn notes_dir(&self) -> (r: &str)
        ensures
            r@ == self.dir(),
    {
        self.notes_dir.as_str()
    }

    /// The note type of a path: Markdown for `.md`, plain text otherwise.
    pub fn get_note_type(&self, path: &str) -> (r: NoteType)
        ensures
            r == type_of_path(path@),
    {
        note_type_of(path)
    }

    /// The file extension, without its dot, for a note type.
    pub fn get_extension_for_type(&self, file_type: &NoteType) -> (r: &'static str)
        ensures
            r@ == extension_for(*file_type),
    {
        match file_type {
            NoteType::Markdown => "md",
            NoteType::PlainText => "txt",
        }
    }

    /// The tags of a note's text, in order of first appearance.
    pub fn extract_tags(&self, content: &str) -> (r: Vec<String>)
        ensures
            strings_view(r@) == tags_of(content@),
    {
        extract_tags(content)
    }

    /// The note read from the file at `rel_path` (relative to the notes
    /// directory) with text `content` and the given times.
    pub fn read_note(&self, rel_path: &str, content: String, created: i64, modified: i64) -> (r: Note)
        requires
            encode_utf8(rel_path@).len() <= usize::MAX / 2,
        ensures
            is_note_of(r, rel_path@, content@, created, modified),
    {
        let title = note_title(rel_path, content.as_str());
        let tags = extract_tags(content.as_str());
        Note {
            id: encode_id(rel_path),
            title,
            content,
            created,
            modified,
            tags,
            file_type: note_type_of(rel_path),
            path: String::from_str(rel_path),
        }
    }
}

/// The extension of a note type's files.
pub open spec fn extension_for(t: NoteType) -> Seq<char> {
    match t {
        NoteType::Markdown => "md"@,
        NoteType::PlainText => "txt"@,
    }
}

} // verus!
