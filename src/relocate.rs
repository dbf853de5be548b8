//! Renaming and moving notes: where a note goes, and the file system
//! renames that take it there, including the two-step rename through a
//! temporary name that a case-only change needs on case-insensitive file
//! systems.
use vstd::prelude::*;
use crate::errors::NoteError;
use crate::notes::{extension_of, file_name_of, lemma_before_take, stem_of, NoteManager};
use crate::patterns::decimal_of;
use crate::text::{before, chars_of, copy_range, lower_of, string_from_chars, to_lowercase};

verus! {

/// The renames that carry a note from one relative path to another.
#[derive(Debug, Clone, PartialEq, Eq)]
pub enum RelocationPlan {
    /// A single rename.
    Direct { from: String, to: String },
    /// A change of letter case only: rename to `temp`, then to `to`.
    CaseOnlyRelocation { from: String, temp: String, to: String },
}

/// Relies on `chrono::Utc::now` and `DateTime::timestamp`: the current time
/// in seconds since the Unix epoch. Nothing is known of its value.
#[verifier::external_body]
fn current_timestamp() -> (r: i64) {
    chrono::Utc::now().timestamp()
}

/// The directory part of a relative path, up to and including its last `/`.
pub open spec fn dir_prefix(path: Seq<char>) -> Seq<char> {
    path.take(path.len() - file_name_of(path).len())
}

/// The decimal text of a signed number.
pub open spec fn signed_decimal_of(n: int) -> Seq<char> {
    if n < 0 {
        seq!['-'] + decimal_of((-n) as nat)
    } else {
        decimal_of(n as nat)
    }
}

/// The extension that a renamed note keeps: its own, or `txt`.
pub open spec fn kept_extension(path: Seq<char>) -> Seq<char> {
    match extension_of(file_name_of(path)) {
        Some(e) => e,
        None => "txt"@,
    }
}

/// Where a note at `path` goes when renamed to `new_name`.
pub open spec fn rename_target_of(path: Seq<char>, new_name: Seq<char>) -> Seq<char> {
    dir_prefix(path) + new_name + "."@ + kept_extension(path)
}

/// Whether two names differ in letter case only.
pub open spec fn case_only_change(a: Seq<char>, b: Seq<char>) -> bool {
    lower_of(a) == lower_of(b) && a != b
}

/// The temporary path of a case-only rename.
pub open spec fn rename_temp_of(path: Seq<char>, new_name: Seq<char>, now: i64) -> Seq<char> {
    dir_prefix(path) + "temp_rename_"@ + signed_decimal_of(now as int) + "_"@ + new_name + "."@
        + kept_extension(path)
}

/// The components of a relative path: the parts between `/`s, without
/// empty ones and `.`; `cur` holds the part read just before `s`.
pub open spec fn components_from(s: Seq<char>, cur: Seq<char>) -> Seq<Seq<char>>
    decreases s.len(),
{
    if s.len() == 0 {
        if cur.len() > 0 && cur != seq!['.'] {
            seq![cur]
        } else {
            Seq::empty()
        }
    } else if s[0] == '/' {
        (if cur.len() > 0 && cur != seq!['.'] {
            seq![cur]
        } else {
            Seq::empty()
        }) + components_from(s.drop_first(), Seq::empty())
    } else {
        components_from(s.drop_first(), cur.push(s[0]))
    }
}

pub open spec fn components_of(s: Seq<char>) -> Seq<Seq<char>> {
    components_from(s, Seq::empty())
}

/// The components joined with `/`.
pub open spec fn join_components(cs: Seq<Seq<char>>) -> Seq<char>
    decreases cs.len(),
{
    if cs.len() == 0 {
        Seq::empty()
    } else if cs.len() == 1 {
        cs[0]
    } else {
        join_components(cs.drop_last()) + seq!['/'] + cs.last()
    }
}

/// Whether a move target leaves the notes directory: it is absolute or
/// has a `..` component.
pub open spec fn escapes_root(s: Seq<char>) -> bool {
    (s.len() > 0 && s[0] == '/') || components_of(s).contains(seq!['.', '.'])
}

/// A directory joined with a relative path.
pub open spec fn joined(dir: Seq<char>, rel: Seq<char>) -> Seq<char> {
    if dir.len() == 0 {
        rel
    } else if dir.last() == '/' {
        dir + rel
    } else {
        dir + seq!['/'] + rel
    }
}

/// The temporary path of a case-only move.
pub open spec fn move_temp_of(target: Seq<char>, now: i64) -> Seq<char> {
    let name = file_name_of(target);
    dir_prefix(target) + "temp_move_"@ + signed_decimal_of(now as int) + "_"@ + (if name.len() == 0 {
        "note"@
    } else {
        name
    })
}

/// The text of `v`.
fn text_of(v: &Vec<char>) -> (r: String)
    ensures
        r@ == v@,
{
    string_from_chars(v.as_slice())
}

/// The decimal text of a signed number.
fn signed_decimal(n: i64) -> (r: String)
    ensures
        r@ == signed_decimal_of(n as int),
{
    if n < 0 {
        let magnitude: u64 = (0i128 - (n as i128)) as u64;
        proof {
            reveal_strlit("-");
        }
        String::from_str("-").concat(crate::patterns::decimal(magnitude).as_str())
    } else {
        crate::patterns::decimal(n as u64)
    }
}

/// Splits a relative path into its directory part (up to and including the
/// last `/`) and its file name.
fn split_path(path: &str) -> (r: (String, String))
    ensures
        r.0@ == dir_prefix(path@),
        r.1@ == file_name_of(path@),
        path@ == r.0@ + r.1@,
{
    let t = chars_of(path);
    let mut i: usize = t.len();
    assert(t@.skip(i as int) =~= Seq::<char>::empty());
    while i > 0 && t[i - 1] != '/'
        invariant
            i <= t.len(),
            forall|k: int| i <= k < t.len() ==> t@[k] != '/',
        decreases i,
    {
        i = i - 1;
    }
    proof {
        let rv = t@.reverse();
        let n = (t.len() - i) as int;
        assert forall|k: int| 0 <= k < n implies rv[k] != '/' by {
            assert(rv[k] == t@[t.len() - 1 - k]);
        }
        lemma_before_take(rv, '/', n);
        assert(rv.take(n).reverse() =~= t@.skip(i as int));
        assert(t@.take(i as int) + t@.skip(i as int) =~= t@);
    }
    (text_of(&copy_range(&t, 0, i)), text_of(&copy_range(&t, i, t.len())))
}

/// The stem and extension of a file name, the extension `txt` where it
/// has none.
fn stem_and_extension(name: &str) -> (r: (String, String))
    ensures
        r.0@ == stem_of(name@),
        r.1@ == (match extension_of(name@) {
            Some(e) => e,
            None => "txt"@,
        }),
{
    let t = chars_of(name);
    let mut i: usize = t.len();
    while i > 0 && t[i - 1] != '.'
        invariant
            i <= t.len(),
            forall|k: int| i <= k < t.len() ==> t@[k] != '.',
        decreases i,
    {
        i = i - 1;
    }
    let ghost ext_len = (t.len() - i) as int;
    proof {
        let rv = t@.reverse();
        assert forall|k: int| 0 <= k < ext_len implies rv[k] != '.' by {
            assert(rv[k] == t@[t.len() - 1 - k]);
        }
        lemma_before_take(rv, '.', ext_len);
        assert(rv.take(ext_len).reverse() =~= t@.skip(i as int));
    }
    if i > 1 {
        assert(t@.take(i - 1) =~= t@.subrange(0, i - 1));
        (text_of(&copy_range(&t, 0, i - 1)), text_of(&copy_range(&t, i, t.len())))
    } else {
        (String::from_str(name), String::from_str("txt"))
    }
}

/// Returns `path` with its components normalised: empty and `.` parts
/// dropped, the rest joined with `/`. `InvalidInput` where the path is
/// absolute or has a `..` component.
pub fn normalize_target(path: &str) -> (r: Result<String, NoteError>)
    ensures
        escapes_root(path@) ==> r == Err::<String, NoteError>(NoteError::InvalidInput),
        !escapes_root(path@) ==> (r matches Ok(p) && p@ == join_components(components_of(path@))),
{
    let t = chars_of(path);
    if t.len() > 0 && t[0] == '/' {
        return Err(NoteError::InvalidInput);
    }
    let mut parts: Vec<Vec<char>> = Vec::new();
    let mut cur: Vec<char> = Vec::new();
    let mut i: usize = 0;
    assert(t@.skip(0) =~= t@);
    assert(parts@.map_values(|w: Vec<char>| w@) =~= Seq::<Seq<char>>::empty());
    while i < t.len()
        invariant
            i <= t.len(),
            t@ == path@,
            parts@.map_values(|w: Vec<char>| w@) + components_from(t@.skip(i as int), cur@) == components_of(path@),
        decreases t.len() - i,
    {
        let c = t[i];
        assert(t@.skip(i as int).drop_first() =~= t@.skip(i as int + 1));
        if c == '/' {
            if cur.len() > 0 && !(cur.len() == 1 && cur[0] == '.') {
                let ghost before = parts@.map_values(|w: Vec<char>| w@);
                parts.push(cur);
                assert(parts@.map_values(|w: Vec<char>| w@) =~= before + seq![cur@]);
            } else {
                proof {
                    if cur@.len() == 1 {
                        assert(cur@ =~= seq!['.']);
                    }
                }
            }
            cur = Vec::new();
            assert(parts@.map_values(|w: Vec<char>| w@) + components_from(t@.skip(i as int + 1), cur@)
                =~= components_of(path@));
        } else {
            cur.push(c);
        }
        i = i + 1;
    }
    if cur.len() > 0 && !(cur.len() == 1 && cur[0] == '.') {
        let ghost before = parts@.map_values(|w: Vec<char>| w@);
        parts.push(cur);
        assert(parts@.map_values(|w: Vec<char>| w@) =~= before + seq![cur@]);
    } else {
        proof {
            if cur@.len() == 1 {
                assert(cur@ =~= seq!['.']);
            }
        }
        assert(parts@.map_values(|w: Vec<char>| w@) + Seq::<Seq<char>>::empty() =~= parts@.map_values(|w: Vec<char>| w@));
    }
    let ghost cs = parts@.map_values(|w: Vec<char>| w@);
    let mut out: Vec<char> = Vec::new();
    let mut k: usize = 0;
    assert(cs.take(0) =~= Seq::<Seq<char>>::empty());
    while k < parts.len()
        invariant
            k <= parts.len(),
            cs == parts@.map_values(|w: Vec<char>| w@),
            cs == components_of(path@),
            forall|m: int| 0 <= m < k ==> cs[m] != seq!['.', '.'],
            out@ == join_components(cs.take(k as int)),
        decreases parts.len() - k,
    {
        let part = &parts[k];
        if part.len() == 2 && part[0] == '.' && part[1] == '.' {
            assert(cs[k as int] =~= seq!['.', '.']);
            return Err(NoteError::InvalidInput);
        }
        proof {
            if cs[k as int] == seq!['.', '.'] {
                assert(part@.len() == 2 && part@[0] == '.' && part@[1] == '.');
            }
        }
        assert(cs.take(k as int + 1).drop_last() =~= cs.take(k as int));
        let ghost prev = out@;
        if k > 0 {
            out.push('/');
        }
        let mut m: usize = 0;
        let ghost base = out@;
        while m < part.len()
            invariant
                m <= part.len(),
                out@ == base + part@.take(m as int),
            decreases part.len() - m,
        {
            out.push(part[m]);
            assert(out@ =~= base + part@.take(m as int + 1));
            m = m + 1;
        }
        assert(part@.take(part.len() as int) =~= part@);
        assert(out@ =~= join_components(cs.take(k as int + 1)));
        k = k + 1;
    }
    assert(cs.take(parts.len() as int) =~= cs);
    proof {
        if cs.contains(seq!['.', '.']) {
            let j = choose|j: int| 0 <= j < cs.len() && cs[j] == seq!['.', '.'];
            assert(cs[j] != seq!['.', '.']);
        }
    }
    Ok(text_of(&out))
}

impl NoteManager {
    /// Where the note at `path` goes when renamed to `new_name`: the same
    /// directory and extension (`txt` where it has none).
    pub fn rename_target(&self, path: &str, new_name: &str) -> (r: String)
        ensures
            r@ == rename_target_of(path@, new_name@),
    {
        let (dir, name) = split_path(path);
        let (_stem, ext) = stem_and_extension(name.as_str());
        dir.concat(new_name).concat(".").concat(ext.as_str())
    }

    /// The renames that carry the note at `path` to `new_name`, where
    /// `target_exists` tells whether its target path is taken and `now` is
    /// the current time. A case-only change of the stem goes through a
    /// temporary name; any other taken target is a `Conflict`.
    pub fn plan_rename(&self, path: &str, new_name: &str, target_exists: bool, now: i64) -> (r: Result<RelocationPlan, NoteError>)
        ensures
            ({
                let case_only = case_only_change(stem_of(file_name_of(path@)), new_name@);
                let to = rename_target_of(path@, new_name@);
                &&& target_exists && !case_only ==> r == Err::<RelocationPlan, NoteError>(NoteError::Conflict)
                &&& case_only ==> (r matches Ok(RelocationPlan::CaseOnlyRelocation { from, temp, to: t })
                    && from@ == path@ && t@ == to && temp@ == rename_temp_of(path@, new_name@, now))
                &&& !target_exists && !case_only ==> (r matches Ok(RelocationPlan::Direct { from, to: t })
                    && from@ == path@ && t@ == to)
            }),
    {
        let (dir, name) = split_path(path);
        let (stem, ext) = stem_and_extension(name.as_str());
        let case_only = to_lowercase(stem.as_str()) == to_lowercase(new_name) && !(stem == String::from_str(new_name));
        if target_exists && !case_only {
            return Err(NoteError::Conflict);
        }
        let to = dir.clone().concat(new_name).concat(".").concat(ext.as_str());
        if case_only {
            let temp = dir.concat("temp_rename_").concat(signed_decimal(now).as_str()).concat("_").concat(
                new_name,
            ).concat(".").concat(ext.as_str());
            Ok(RelocationPlan::CaseOnlyRelocation { from: String::from_str(path), temp, to })
        } else {
            Ok(RelocationPlan::Direct { from: String::from_str(path), to })
        }
    }

    /// `plan_rename` at the current time.
    pub fn plan_rename_now(&self, path: &str, new_name: &str, target_exists: bool) -> (r: Result<RelocationPlan, NoteError>)
        ensures
            ({
                let case_only = case_only_change(stem_of(file_name_of(path@)), new_name@);
                let to = rename_target_of(path@, new_name@);
                &&& target_exists && !case_only ==> r == Err::<RelocationPlan, NoteError>(NoteError::Conflict)
                &&& case_only ==> (r matches Ok(RelocationPlan::CaseOnlyRelocation { from, temp, to: t })
                    && from@ == path@ && t@ == to)
                &&& !target_exists && !case_only ==> (r matches Ok(RelocationPlan::Direct { from, to: t })
                    && from@ == path@ && t@ == to)
            }),
    {
        let now = current_timestamp();
        self.plan_rename(path, new_name, target_exists, now)
    }

    /// The renames that carry the note at `path` to the normalised relative
    /// path `target`, where `target_exists` tells whether it is taken and
    /// `now` is the current time. Paths that differ only in letter case
    /// (compared in full, under the notes directory) go through a temporary
    /// name; any other taken target is a `Conflict`.
    pub fn plan_move(&self, path: &str, target: &str, target_exists: bool, now: i64) -> (r: Result<RelocationPlan, NoteError>)
        ensures
            ({
                let case_only = case_only_change(joined(self.dir(), path@), joined(self.dir(), target@));
                &&& target_exists && !case_only ==> r == Err::<RelocationPlan, NoteError>(NoteError::Conflict)
                &&& case_only ==> (r matches Ok(RelocationPlan::CaseOnlyRelocation { from, temp, to })
                    && from@ == path@ && to@ == target@ && temp@ == move_temp_of(target@, now))
                &&& !target_exists && !case_only ==> (r matches Ok(RelocationPlan::Direct { from, to })
                    && from@ == path@ && to@ == target@)
            }),
    {
        let full_from = self.join(path);
        let full_to = self.join(target);
        let case_only = to_lowercase(full_from.as_str()) == to_lowercase(full_to.as_str()) && !(full_from == full_to);
        if target_exists && !case_only {
            return Err(NoteError::Conflict);
        }
        if case_only {
            let (dir, name) = split_path(target);
            let shown = if name.as_str().is_empty() {
                String::from_str("note")
            } else {
                name
            };
            let temp = dir.concat("temp_move_").concat(signed_decimal(now).as_str()).concat("_").concat(shown.as_str());
            Ok(RelocationPlan::CaseOnlyRelocation { from: String::from_str(path), temp, to: String::from_str(target) })
        } else {
            Ok(RelocationPlan::Direct { from: String::from_str(path), to: String::from_str(target) })
        }
    }

    /// `plan_move` at the current time.
    pub fn plan_move_now(&self, path: &str, target: &str, target_exists: bool) -> (r: Result<RelocationPlan, NoteError>)
        ensures
            ({
                let case_only = case_only_change(joined(self.dir(), path@), joined(self.dir(), target@));
                &&& target_exists && !case_only ==> r == Err::<RelocationPlan, NoteError>(NoteError::Conflict)
                &&& case_only ==> (r matches Ok(RelocationPlan::CaseOnlyRelocation { from, temp, to })
                    && from@ == path@ && to@ == target@)
                &&& !target_exists && !case_only ==> (r matches Ok(RelocationPlan::Direct { from, to })
                    && from@ == path@ && to@ == target@)
            }),
    {
        let now = current_timestamp();
        self.plan_move(path, target, target_exists, now)
    }

    /// The notes directory joined with a relative path.
    pub fn join(&self, rel: &str) -> (r: String)
        ensures
            r@ == joined(self.dir(), rel@),
    {
        let dir = self.notes_dir();
        let d = chars_of(dir);
        proof {
            reveal_strlit("/");
        }
        if d.len() == 0 {
            String::from_str(rel)
        } else if d[d.len() - 1] == '/' {
            String::from_str(dir).concat(rel)
        } else {
            String::from_str(dir).concat("/").concat(rel)
        }
    }
}

} // verus!
