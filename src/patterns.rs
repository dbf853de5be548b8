//! Naming patterns for new notes (`{number}`, `{title}`, `{extension}`)
//! and the regular expressions that the store runs over names and text.
use vstd::prelude::*;
use crate::errors::NoteError;
use crate::notes::{extension_for, NoteManager, NoteType};
use crate::text::{chars_of, parse_u32, parse_u32_spec, string_from_chars};

verus! {

#[verifier::external_type_specification]
#[verifier::external_body]
pub struct ExRegexError(regex::Error);

/// Whether a regular expression compiles.
pub uninterp spec fn regex_valid(re: Seq<char>) -> bool;

/// The text of capture group 1 in the leftmost match of `re` in `hay`, if
/// there is a match and the group took part in it.
pub uninterp spec fn regex_group_one(re: Seq<char>, hay: Seq<char>) -> Option<Seq<char>>;

/// Whether `re` matches somewhere in `hay`.
pub uninterp spec fn regex_matches(re: Seq<char>, hay: Seq<char>) -> bool;

/// `s` with every character that has a meaning in a regular expression
/// escaped, so that it matches itself.
pub uninterp spec fn regex_escaped(s: Seq<char>) -> Seq<char>;

pub open spec fn opt_string_view(o: Option<String>) -> Option<Seq<char>> {
    match o {
        Some(s) => Some(s@),
        None => None,
    }
}

/// Relies on `regex::Regex::new`, `Regex::captures` and `Captures::get`:
/// compiles `re` and gives group 1 of its leftmost match in `hay`.
#[verifier::external_body]
pub(crate) fn regex_first_group(re: &str, hay: &str) -> (r: Result<Option<String>, regex::Error>)
    ensures
        r is Ok <==> regex_valid(re@),
        r matches Ok(g) ==> opt_string_view(g) == regex_group_one(re@, hay@),
{
    let compiled = regex::Regex::new(re)?;
    let group = match compiled.captures(hay) {
        Some(caps) => caps.get(1),
        None => None,
    };
    Ok(match group {
        Some(m) => Some(m.as_str().to_string()),
        None => None,
    })
}

/// Relies on `regex::Regex::new` and `Regex::is_match`: compiles `re` and
/// tells whether it matches somewhere in `hay`.
#[verifier::external_body]
pub(crate) fn regex_is_match(re: &str, hay: &str) -> (r: Result<bool, regex::Error>)
    ensures
        r is Ok <==> regex_valid(re@),
        r matches Ok(b) ==> b == regex_matches(re@, hay@),
{
    let compiled = regex::Regex::new(re)?;
    Ok(compiled.is_match(hay))
}

/// Relies on `regex::escape`: the text with its meta characters escaped.
#[verifier::external_body]
pub(crate) fn regex_escape(s: &str) -> (r: String)
    ensures
        r@ == regex_escaped(s@),
{
    regex::escape(s)
}

/// `s` with each non-overlapping occurrence of `p`, from the left, replaced
/// by `r`.
pub open spec fn replaced(s: Seq<char>, p: Seq<char>, r: Seq<char>) -> Seq<char>
    decreases s.len(),
{
    if p.len() == 0 || s.len() < p.len() {
        s
    } else if s.take(p.len() as int) == p {
        r + replaced(s.skip(p.len() as int), p, r)
    } else {
        seq![s[0]] + replaced(s.drop_first(), p, r)
    }
}

/// Whether `p` occurs in `s`.
pub open spec fn occurs(s: Seq<char>, p: Seq<char>) -> bool {
    exists|i: int| 0 <= i <= s.len() - p.len() && #[trigger] s.subrange(i, i + p.len()) == p
}

/// Whether `p` stands in `s` at `i`.
fn matches_at(s: &Vec<char>, i: usize, p: &Vec<char>) -> (r: bool)
    requires
        i <= s.len(),
    ensures
        r == (p.len() <= s.len() - i && s@.subrange(i as int, i + p.len()) == p@),
{
    if p.len() > s.len() - i {
        return false;
    }
    let mut k: usize = 0;
    while k < p.len()
        invariant
            k <= p.len() <= s.len() - i,
            forall|m: int| 0 <= m < k ==> s@[i + m] == p@[m],
        decreases p.len() - k,
    {
        if s[i + k] != p[k] {
            assert(s@.subrange(i as int, i + p.len())[k as int] != p@[k as int]);
            return false;
        }
        k = k + 1;
    }
    assert(s@.subrange(i as int, i + p.len()) =~= p@);
    true
}

/// Returns `s` with each non-overlapping occurrence of `p` replaced by `r`.
pub fn replace_all(s: &str, p: &str, r: &str) -> (out: String)
    requires
        p@.len() > 0,
    ensures
        out@ == replaced(s@, p@, r@),
{
    let sc = chars_of(s);
    let pc = chars_of(p);
    let rc = chars_of(r);
    let mut out: Vec<char> = Vec::new();
    let mut i: usize = 0;
    assert(sc@.skip(0) =~= sc@);
    while i < sc.len()
        invariant
            i <= sc.len(),
            sc@ == s@,
            pc@ == p@,
            rc@ == r@,
            pc@.len() > 0,
            out@ + replaced(sc@.skip(i as int), p@, r@) == replaced(s@, p@, r@),
        decreases sc.len() - i,
    {
        let ghost rest = sc@.skip(i as int);
        if matches_at(&sc, i, &pc) {
            assert(rest.take(p@.len() as int) =~= sc@.subrange(i as int, i + p@.len()));
            assert(rest.skip(p@.len() as int) =~= sc@.skip(i + p@.len()));
            let mut k: usize = 0;
            let ghost start = out@;
            while k < rc.len()
                invariant
                    k <= rc.len(),
                    out@ == start + rc@.take(k as int),
                decreases rc.len() - k,
            {
                out.push(rc[k]);
                assert(out@ =~= start + rc@.take(k as int + 1));
                k = k + 1;
            }
            assert(rc@.take(rc.len() as int) =~= rc@);
            assert(out@ + replaced(sc@.skip(i + pc.len()), p@, r@) =~= start + (r@ + replaced(rest.skip(p@.len() as int), p@, r@)));
            i = i + pc.len();
        } else {
            proof {
                if rest.len() >= p@.len() {
                    assert(rest.take(p@.len() as int) =~= sc@.subrange(i as int, i + p@.len()));
                }
            }
            assert(rest.drop_first() =~= sc@.skip(i as int + 1));
            let ghost start = out@;
            out.push(sc[i]);
            assert(out@ + replaced(sc@.skip(i as int + 1), p@, r@) =~= start + (seq![rest[0]] + replaced(rest.drop_first(), p@, r@)));
            i = i + 1;
        }
    }
    assert(out@ + Seq::<char>::empty() =~= out@);
    string_from_chars(out.as_slice())
}

/// Whether `p` occurs in `s`.
pub fn contains_text(s: &str, p: &str) -> (r: bool)
    ensures
        r == occurs(s@, p@),
{
    let sc = chars_of(s);
    let pc = chars_of(p);
    if pc.len() > sc.len() {
        return false;
    }
    let limit = sc.len() - pc.len();
    let mut i: usize = 0;
    loop
        invariant
            pc.len() <= sc.len(),
            limit == sc.len() - pc.len(),
            i <= limit,
            sc@ == s@,
            pc@ == p@,
            forall|k: int| 0 <= k < i ==> #[trigger] sc@.subrange(k, k + pc.len()) != pc@,
        decreases limit - i,
    {
        if matches_at(&sc, i, &pc) {
            return true;
        }
        if i == limit {
            return false;
        }
        i = i + 1;
    }
}

/// The decimal digits of `n`, most significant first, without leading zeros.
pub open spec fn decimal_of(n: nat) -> Seq<char>
    decreases n,
{
    if n < 10 {
        seq![(n + '0' as nat) as char]
    } else {
        decimal_of(n / 10).push(((n % 10) + '0' as nat) as char)
    }
}

/// Appends the decimal digits of `n` to `out`.
fn push_decimal(out: &mut Vec<char>, n: u64)
    ensures
        final(out)@ == old(out)@ + decimal_of(n as nat),
    decreases n,
{
    if n >= 10 {
        push_decimal(out, n / 10);
    }
    let d: u8 = (n % 10) as u8;
    out.push((d + 48) as char);
    assert(out@ =~= old(out)@ + decimal_of(n as nat));
}

/// The decimal text of `n`.
pub fn decimal(n: u64) -> (r: String)
    ensures
        r@ == decimal_of(n as nat),
{
    let mut v: Vec<char> = Vec::new();
    push_decimal(&mut v, n);
    assert(v@ =~= decimal_of(n as nat));
    string_from_chars(v.as_slice())
}

/// The regular expression that picks the number out of a file name made
/// with `pattern`: `{number}` captures digits, `{title}` matches anything
/// and `{extension}` is left out.
pub open spec fn number_regex(pattern: Seq<char>) -> Seq<char> {
    replaced(
        replaced(replaced(pattern, "{number}"@, "(\\d+)"@), "{title}"@, ".*"@),
        "{extension}"@,
        Seq::empty(),
    )
}

/// The number that a file name carries under a regular expression, or 0.
pub open spec fn number_in(re: Seq<char>, name: Seq<char>) -> u32 {
    match regex_group_one(re, name) {
        Some(g) => match parse_u32_spec(g) {
            Some(n) => n,
            None => 0,
        },
        None => 0,
    }
}

/// The largest number that the names carry, or 0.
pub open spec fn highest_of(re: Seq<char>, names: Seq<Seq<char>>) -> u32
    decreases names.len(),
{
    if names.len() == 0 {
        0
    } else {
        let prev = highest_of(re, names.drop_last());
        let n = number_in(re, names.last());
        if n > prev {
            n
        } else {
            prev
        }
    }
}

pub open spec fn names_view(v: Seq<String>) -> Seq<Seq<char>> {
    v.map_values(|s: String| s@)
}

/// The file name for a note made with `pattern`, where `highest` is the
/// largest number already in use.
pub open spec fn filename_for(title: Seq<char>, pattern: Seq<char>, ext: Seq<char>, highest: u32) -> Seq<char> {
    if occurs(pattern, "{number}"@) {
        replaced(
            replaced(
                replaced(pattern, "{number}"@, decimal_of(highest as nat + 1)),
                "{title}"@,
                title,
            ),
            "{extension}"@,
            ext,
        )
    } else {
        replaced(replaced(pattern, "{title}"@, title), "{extension}"@, ext)
    }
}

impl NoteManager {
    /// The largest number that the file names carry under `pattern`, or 0;
    /// `InvalidInput` where the pattern gives no valid regular expression.
    pub fn find_highest_number_in_notes(&self, pattern: &str, names: &Vec<String>) -> (r: Result<u32, NoteError>)
        ensures
            r is Ok <==> regex_valid(number_regex(pattern@)),
            r matches Ok(n) ==> n == highest_of(number_regex(pattern@), names_view(names@)),
            r matches Err(e) ==> e == NoteError::InvalidInput,
    {
        proof {
            reveal_strlit("{number}");
            reveal_strlit("{title}");
            reveal_strlit("{extension}");
        }
        let re1 = replace_all(pattern, "{number}", "(\\d+)");
        let re2 = replace_all(re1.as_str(), "{title}", ".*");
        let re = replace_all(re2.as_str(), "{extension}", "");
        proof {
            reveal_strlit("");
            assert(""@ =~= Seq::<char>::empty());
        }
        let ghost rs = number_regex(pattern@);
        let mut highest: u32 = 0;
        let mut i: usize = 0;
        if names.len() == 0 {
            match regex_is_match(re.as_str(), "") {
                Ok(_) => {},
                Err(_) => {
                    return Err(NoteError::InvalidInput);
                },
            }
        }
        assert(names_view(names@).take(0) =~= Seq::<Seq<char>>::empty());
        while i < names.len()
            invariant
                i <= names.len(),
                re@ == rs,
                rs == number_regex(pattern@),
                i > 0 || names.len() == 0 ==> regex_valid(rs),
                highest == highest_of(rs, names_view(names@).take(i as int)),
            decreases names.len() - i,
        {
            let g = match regex_first_group(re.as_str(), names[i].as_str()) {
                Ok(g) => g,
                Err(_) => {
                    return Err(NoteError::InvalidInput);
                },
            };
            let ghost nv = names_view(names@);
            assert(nv.take(i as int + 1).drop_last() =~= nv.take(i as int));
            assert(nv.take(i as int + 1).last() == names@[i as int]@);
            let n: u32 = match g {
                Some(text) => {
                    let digits = chars_of(text.as_str());
                    match parse_u32(digits.as_slice()) {
                        Some(v) => v,
                        None => 0,
                    }
                },
                None => 0,
            };
            if n > highest {
                highest = n;
            }
            i = i + 1;
        }
        assert(names_view(names@).take(names.len() as int) =~= names_view(names@));
        Ok(highest)
    }

    /// The file name for a new note: `title` with the extension of
    /// `file_type` where no pattern is given, else as
    /// `generate_filename_from_pattern` makes it.
    pub fn note_filename(
        &self,
        title: &str,
        file_type: &NoteType,
        pattern: Option<&str>,
        names: &Vec<String>,
    ) -> (r: Result<String, NoteError>)
        ensures
            pattern is None ==> (r matches Ok(f) && f@ == title@ + "."@ + extension_for(*file_type)),
            pattern matches Some(p) ==> ({
                let re = number_regex(p@);
                let h = highest_of(re, names_view(names@));
                if !occurs(p@, "{number}"@) {
                    r matches Ok(f) && f@ == filename_for(title@, p@, extension_for(*file_type), 0)
                } else if !regex_valid(re) {
                    r == Err::<String, NoteError>(NoteError::InvalidInput)
                } else if h == u32::MAX {
                    r == Err::<String, NoteError>(NoteError::Conflict)
                } else {
                    r matches Ok(f) && f@ == filename_for(title@, p@, extension_for(*file_type), h)
                }
            }),
    {
        match pattern {
            Some(p) => self.generate_filename_from_pattern(title, p, file_type, names),
            None => {
                let extension = self.get_extension_for_type(file_type);
                Ok(String::from_str(title).concat(".").concat(extension))
            },
        }
    }

    /// The file name for a new note made with `pattern`: `{number}` becomes
    /// one more than the largest number that `names` carry, `{title}` the
    /// title and `{extension}` the extension of `file_type`. `Conflict`
    /// where the largest number in use is `u32::MAX`.
    pub fn generate_filename_from_pattern(
        &self,
        title: &str,
        pattern: &str,
        file_type: &NoteType,
        names: &Vec<String>,
    ) -> (r: Result<String, NoteError>)
        ensures
            !occurs(pattern@, "{number}"@) ==> (r matches Ok(f) && f@ == filename_for(title@, pattern@, extension_for(*file_type), 0)),
            occurs(pattern@, "{number}"@) ==> {
                let re = number_regex(pattern@);
                let h = highest_of(re, names_view(names@));
                &&& !regex_valid(re) ==> r == Err::<String, NoteError>(NoteError::InvalidInput)
                &&& regex_valid(re) && h == u32::MAX ==> r == Err::<String, NoteError>(NoteError::Conflict)
                &&& regex_valid(re) && h < u32::MAX ==> (r matches Ok(f) && f@ == filename_for(title@, pattern@, extension_for(*file_type), h))
            },
    {
        proof {
            reveal_strlit("{number}");
            reveal_strlit("{title}");
            reveal_strlit("{extension}");
        }
        let extension = self.get_extension_for_type(file_type);
        if contains_text(pattern, "{number}") {
            let highest = self.find_highest_number_in_notes(pattern, names)?;
            if highest == u32::MAX {
                return Err(NoteError::Conflict);
            }
            let number = decimal((highest + 1) as u64);
            let f1 = replace_all(pattern, "{number}", number.as_str());
            let f2 = replace_all(f1.as_str(), "{title}", title);
            Ok(replace_all(f2.as_str(), "{extension}", extension))
        } else {
            let f1 = replace_all(pattern, "{title}", title);
            Ok(replace_all(f1.as_str(), "{extension}", extension))
        }
    }
}

} // verus!
