//! Zettelkasten hierarchy: prefixes such as `1`, `1a`, `1a1`, `1b` name a
//! note's place in a tree of notes, and order its children.
use vstd::prelude::*;
use std::cmp::Ordering;
use crate::listing::reversed;
use crate::notes::{Note, NoteManager, NoteSummary};
use crate::text::{
    alphabetic, before, chars_of, find_char, is_alphabetic, is_numeric, numeric, parse_u32, parse_u32_spec,
    string_from_chars,
};

verus! {

broadcast use vstd::seq_lib::group_to_multiset_ensures;

/// The part of a title before its first `-`, or the whole title.
pub open spec fn prefix_of(t: Seq<char>) -> Seq<char> {
    before(t, '-')
}

/// Depth of a suffix below its parent: one for each letter, one for each
/// whole run of numeric characters, nothing for any other character.
/// `in_run` tells that the character before `s` continued a numeric run.
pub open spec fn depth_from(s: Seq<char>, in_run: bool) -> nat
    decreases s.len(),
{
    if s.len() == 0 {
        0
    } else if in_run && numeric(s[0]) {
        depth_from(s.drop_first(), true)
    } else if alphabetic(s[0]) {
        1 + depth_from(s.drop_first(), false)
    } else if numeric(s[0]) {
        1 + depth_from(s.drop_first(), true)
    } else {
        depth_from(s.drop_first(), false)
    }
}

pub open spec fn depth_of(s: Seq<char>) -> nat {
    depth_from(s, false)
}

/// Whether a prefix `cp` lies strictly below the parent prefix `pp`: it
/// extends it, and where `pp` ends in a numeric character the extension
/// starts with a letter (so `10` is no child of `1`).
pub open spec fn below(cp: Seq<char>, pp: Seq<char>) -> bool {
    &&& cp.len() > pp.len()
    &&& cp.take(pp.len() as int) == pp
    &&& (pp.len() > 0 && numeric(pp.last()) ==> alphabetic(cp[pp.len() as int]))
}

/// The depth of the note titled `title` below the parent prefix, if it is
/// a subnote of it.
pub open spec fn subnote_depth(title: Seq<char>, parent: Option<Seq<char>>) -> Option<nat> {
    match parent {
        None => None,
        Some(pp) => {
            let cp = prefix_of(title);
            if below(cp, pp) {
                Some(depth_of(cp.skip(pp.len() as int)))
            } else {
                None
            }
        },
    }
}

/// One component of a Zettelkasten prefix.
#[derive(Debug, Clone, Copy, PartialEq, Eq, Structural)]
pub enum ZettelComponent {
    Number(u32),
    Letter(char),
}

/// ASCII lower-case mapping of one character.
pub open spec fn ascii_lower(c: char) -> char {
    if 'A' <= c && c <= 'Z' {
        ((c as u32) + 32) as char
    } else {
        c
    }
}

/// The component that a finished run of numeric characters gives: a number
/// where it reads as a `u32`, none otherwise.
pub open spec fn run_parts(run: Seq<char>) -> Seq<ZettelComponent> {
    if run.len() == 0 {
        Seq::empty()
    } else {
        match parse_u32_spec(run) {
            Some(n) => seq![ZettelComponent::Number(n)],
            None => Seq::empty(),
        }
    }
}

/// The components of `s`, where `run` holds the numeric characters read
/// just before it: each run of numeric characters that reads as a `u32`
/// gives a number, each letter gives its ASCII lower case, and anything
/// else is passed over.
pub open spec fn parts_from(s: Seq<char>, run: Seq<char>) -> Seq<ZettelComponent>
    decreases s.len(),
{
    if s.len() == 0 {
        run_parts(run)
    } else if numeric(s[0]) {
        parts_from(s.drop_first(), run.push(s[0]))
    } else if alphabetic(s[0]) {
        run_parts(run) + seq![ZettelComponent::Letter(ascii_lower(s[0]))] + parts_from(
            s.drop_first(),
            Seq::empty(),
        )
    } else {
        run_parts(run) + parts_from(s.drop_first(), Seq::empty())
    }
}

/// The components of a prefix, such as `1a10` giving 1, `a`, 10.
pub open spec fn parts_of(s: Seq<char>) -> Seq<ZettelComponent> {
    parts_from(s, Seq::empty())
}

pub open spec fn cmp_int(a: int, b: int) -> Ordering {
    if a < b {
        Ordering::Less
    } else if a > b {
        Ordering::Greater
    } else {
        Ordering::Equal
    }
}

/// Numbers by value, letters by code point, and a number before a letter.
pub open spec fn component_order(a: ZettelComponent, b: ZettelComponent) -> Ordering {
    match (a, b) {
        (ZettelComponent::Number(x), ZettelComponent::Number(y)) => cmp_int(x as int, y as int),
        (ZettelComponent::Letter(x), ZettelComponent::Letter(y)) => cmp_int(
            x as int,
            y as int,
        ),
        (ZettelComponent::Number(_), ZettelComponent::Letter(_)) => Ordering::Less,
        (ZettelComponent::Letter(_), ZettelComponent::Number(_)) => Ordering::Greater,
    }
}

/// Lexicographic order of component sequences; a proper prefix comes first.
pub open spec fn parts_order(a: Seq<ZettelComponent>, b: Seq<ZettelComponent>) -> Ordering
    decreases a.len(),
{
    if a.len() == 0 && b.len() == 0 {
        Ordering::Equal
    } else if a.len() == 0 {
        Ordering::Less
    } else if b.len() == 0 {
        Ordering::Greater
    } else if component_order(a[0], b[0]) != Ordering::Equal {
        component_order(a[0], b[0])
    } else {
        parts_order(a.drop_first(), b.drop_first())
    }
}

/// The Zettelkasten order of two prefixes.
pub open spec fn zettel_order(a: Seq<char>, b: Seq<char>) -> Ordering {
    parts_order(parts_of(a), parts_of(b))
}

/// Returns the part of `title` before its first `-`, or all of it.
pub fn extract_prefix(title: &str) -> (r: Option<String>)
    ensures
        r is Some,
        r->Some_0@ == prefix_of(title@),
        title@.take(r->Some_0@.len() as int) == r->Some_0@,
        !r->Some_0@.contains('-'),
        r->Some_0@.len() < title@.len() ==> title@[r->Some_0@.len() as int] == '-',
{
    let t = chars_of(title);
    let end = find_char(&t, '-');
    Some(string_from_chars(vstd::slice::slice_subrange(t.as_slice(), 0, end)))
}

pub open spec fn opt_view(p: Option<&str>) -> Option<Seq<char>> {
    match p {
        Some(s) => Some(s@),
        None => None,
    }
}

/// Returns the depth of the note titled `title` below `parent_prefix`, or
/// `None` where it is not a subnote of it.
pub fn is_subnote(title: &str, parent_prefix: Option<&str>) -> (r: Option<u32>)
    requires
        title@.len() <= u32::MAX,
    ensures
        r is Some <==> subnote_depth(title@, opt_view(parent_prefix)) is Some,
        r is Some ==> r->Some_0 as nat == subnote_depth(title@, opt_view(parent_prefix))->Some_0,
{
    let pp_str = match parent_prefix {
        None => return None,
        Some(p) => p,
    };
    let t = chars_of(title);
    let end = find_char(&t, '-');
    let pp = chars_of(pp_str);
    let ghost cp = prefix_of(title@);
    if end <= pp.len() {
        return None;
    }
    let mut i: usize = 0;
    while i < pp.len()
        invariant
            i <= pp.len() < end <= t.len(),
            cp == t@.take(end as int),
            cp == prefix_of(title@),
            t@ == title@,
            pp@ == pp_str@,
            parent_prefix == Some(pp_str),
            forall|k: int| 0 <= k < i ==> t@[k] == pp@[k],
        decreases pp.len() - i,
    {
        if t[i] != pp[i] {
            assert(cp.take(pp.len() as int)[i as int] == t@[i as int]);
            assert(cp.take(pp.len() as int) != pp@);
            return None;
        }
        i = i + 1;
    }
    assert(cp.take(pp.len() as int) =~= pp@);
    if pp.len() > 0 && is_numeric(pp[pp.len() - 1]) {
        if !is_alphabetic(t[pp.len()]) {
            return None;
        }
    }
    let depth = suffix_depth(&t, pp.len(), end);
    assert(t@.subrange(pp.len() as int, end as int) =~= cp.skip(pp.len() as int));
    Some(depth)
}

/// The depth of the characters `t[start..end]`.
fn suffix_depth(t: &Vec<char>, start: usize, end: usize) -> (r: u32)
    requires
        start <= end <= t.len() <= u32::MAX,
    ensures
        r as nat == depth_of(t@.subrange(start as int, end as int)),
{
    let ghost whole = t@.subrange(start as int, end as int);
    let mut depth: u32 = 0;
    let mut in_run = false;
    let mut i: usize = start;
    while i < end
        invariant
            start <= i <= end <= t.len() <= u32::MAX,
            whole == t@.subrange(start as int, end as int),
            depth as nat + depth_from(t@.subrange(i as int, end as int), in_run) == depth_from(whole, false),
            depth <= i - start,
        decreases end - i,
    {
        let c = t[i];
        proof {
            assert(t@.subrange(i as int, end as int).drop_first() =~= t@.subrange(i as int + 1, end as int));
        }
        if in_run && is_numeric(c) {
        } else if is_alphabetic(c) {
            depth = depth + 1;
            in_run = false;
        } else if is_numeric(c) {
            depth = depth + 1;
            in_run = true;
        } else {
            in_run = false;
        }
        i = i + 1;
    }
    depth
}

/// ASCII lower case of one character; other characters are kept.
fn to_ascii_lower(c: char) -> (r: char)
    ensures
        r == ascii_lower(c),
{
    if 'A' <= c && c <= 'Z' {
        ((c as u8) + 32) as char
    } else {
        c
    }
}

/// Appends the component of a finished numeric run, if it gives one.
fn flush_run(parts: &mut Vec<ZettelComponent>, run: &Vec<char>)
    ensures
        final(parts)@ == old(parts)@ + run_parts(run@),
{
    if run.len() > 0 {
        match parse_u32(run.as_slice()) {
            Some(n) => {
                parts.push(ZettelComponent::Number(n));
            },
            None => {},
        }
    }
    assert(final(parts)@ =~= old(parts)@ + run_parts(run@));
}

/// Splits a prefix into its components, such as `1a10` into 1, `a`, 10.
pub fn parse_zettelkasten_parts(prefix: &str) -> (r: Vec<ZettelComponent>)
    ensures
        r@ == parts_of(prefix@),
{
    let t = chars_of(prefix);
    let mut parts: Vec<ZettelComponent> = Vec::new();
    let mut run: Vec<char> = Vec::new();
    let mut i: usize = 0;
    assert(t@.skip(0) =~= t@);
    while i < t.len()
        invariant
            i <= t.len(),
            t@ == prefix@,
            parts@ + parts_from(t@.skip(i as int), run@) == parts_of(prefix@),
        decreases t.len() - i,
    {
        let c = t[i];
        let ghost rest = t@.skip(i as int);
        assert(rest.drop_first() =~= t@.skip(i as int + 1));
        if is_numeric(c) {
            run.push(c);
        } else if is_alphabetic(c) {
            flush_run(&mut parts, &run);
            parts.push(ZettelComponent::Letter(to_ascii_lower(c)));
            run = Vec::new();
            assert(parts@ + parts_from(t@.skip(i as int + 1), run@) =~= parts_of(prefix@));
        } else {
            flush_run(&mut parts, &run);
            run = Vec::new();
            assert(parts@ + parts_from(t@.skip(i as int + 1), run@) =~= parts_of(prefix@));
        }
        i = i + 1;
    }
    flush_run(&mut parts, &run);
    assert(parts@ =~= parts_of(prefix@));
    parts
}

/// Compares two components: numbers by value, letters by code point, and
/// a number before a letter.
pub fn compare_zettelkasten_component(a: &ZettelComponent, b: &ZettelComponent) -> (r: Ordering)
    ensures
        r == component_order(*a, *b),
{
    match (a, b) {
        (ZettelComponent::Number(x), ZettelComponent::Number(y)) => {
            if *x < *y {
                Ordering::Less
            } else if *x > *y {
                Ordering::Greater
            } else {
                Ordering::Equal
            }
        },
        (ZettelComponent::Letter(x), ZettelComponent::Letter(y)) => {
            if (*x as u32) < (*y as u32) {
                Ordering::Less
            } else if (*x as u32) > (*y as u32) {
                Ordering::Greater
            } else {
                Ordering::Equal
            }
        },
        (ZettelComponent::Number(_), ZettelComponent::Letter(_)) => Ordering::Less,
        (ZettelComponent::Letter(_), ZettelComponent::Number(_)) => Ordering::Greater,
    }
}

/// Compares two prefixes in Zettelkasten order: component by component,
/// and a prefix whose components all match the start of the other first.
pub fn zettelkasten_compare(a: &str, b: &str) -> (r: Ordering)
    ensures
        r == zettel_order(a@, b@),
{
    let a_parts = parse_zettelkasten_parts(a);
    let b_parts = parse_zettelkasten_parts(b);
    let mut i: usize = 0;
    assert(a_parts@.skip(0) =~= a_parts@);
    assert(b_parts@.skip(0) =~= b_parts@);
    while i < a_parts.len() && i < b_parts.len()
        invariant
            i <= a_parts.len(),
            i <= b_parts.len(),
            a_parts@ == parts_of(a@),
            b_parts@ == parts_of(b@),
            parts_order(a_parts@.skip(i as int), b_parts@.skip(i as int)) == zettel_order(a@, b@),
        decreases a_parts.len() - i,
    {
        let c = compare_zettelkasten_component(&a_parts[i], &b_parts[i]);
        assert(a_parts@.skip(i as int).drop_first() =~= a_parts@.skip(i as int + 1));
        assert(b_parts@.skip(i as int).drop_first() =~= b_parts@.skip(i as int + 1));
        match c {
            Ordering::Equal => {},
            _ => {
                return c;
            },
        }
        i = i + 1;
    }
    if i < a_parts.len() {
        Ordering::Greater
    } else if i < b_parts.len() {
        Ordering::Less
    } else {
        Ordering::Equal
    }
}

/// Swapping two component sequences reverses their order.
pub proof fn lemma_parts_order_antisymmetric(a: Seq<ZettelComponent>, b: Seq<ZettelComponent>)
    ensures
        parts_order(b, a) == reversed(parts_order(a, b)),
    decreases a.len(),
{
    if a.len() > 0 && b.len() > 0 {
        lemma_parts_order_antisymmetric(a.drop_first(), b.drop_first());
    }
}

/// A subnote of a parent note, with its depth below it.
#[derive(Debug, Clone)]
pub struct SubnoteInfo {
    pub note: NoteSummary,
    pub depth: u32,
}

/// Whether `a` may stand before `b` among the subnotes of a note.
pub open spec fn zettel_precedes(a: SubnoteInfo, b: SubnoteInfo) -> bool {
    zettel_order(prefix_of(a.note.title@), prefix_of(b.note.title@)) != Ordering::Greater
}

/// Whether the note is a subnote of the note with title `parent_title`.
pub open spec fn is_subnote_of(n: NoteSummary, parent_title: Seq<char>) -> bool {
    subnote_depth(n.title@, Some(prefix_of(parent_title))) is Some
}

pub open spec fn notes_of(s: Seq<SubnoteInfo>) -> Seq<NoteSummary> {
    s.map_values(|x: SubnoteInfo| x.note)
}

fn zettel_le(a: &SubnoteInfo, b: &SubnoteInfo) -> (r: bool)
    ensures
        r == zettel_precedes(*a, *b),
        !r ==> zettel_precedes(*b, *a),
{
    let pa = extract_prefix(a.note.title.as_str()).unwrap();
    let pb = extract_prefix(b.note.title.as_str()).unwrap();
    let o = zettelkasten_compare(pa.as_str(), pb.as_str());
    proof {
        lemma_parts_order_antisymmetric(parts_of(pa@), parts_of(pb@));
    }
    match o {
        Ordering::Greater => false,
        _ => true,
    }
}

impl NoteManager {
    /// The subnotes of `parent` among `notes`, with their depths, in
    /// Zettelkasten order of their prefixes.
    pub fn get_subnotes(&self, parent: &Note, notes: Vec<NoteSummary>) -> (r: Vec<SubnoteInfo>)
        requires
            forall|i: int| 0 <= i < notes@.len() ==> (#[trigger] notes@[i]).title@.len() <= u32::MAX,
        ensures
            notes_of(r@).to_multiset() == notes@.filter(|n: NoteSummary| is_subnote_of(n, parent.title@)).to_multiset(),
            forall|i: int| 0 <= i < r@.len() ==> subnote_depth((#[trigger] r@[i]).note.title@, Some(prefix_of(parent.title@)))
                == Some(r@[i].depth as nat),
            forall|i: int| 0 <= i < r@.len() - 1 ==> zettel_precedes(#[trigger] r@[i], r@[i + 1]),
    {
        let pp = extract_prefix(parent.title.as_str()).unwrap();
        let ghost pred = |n: NoteSummary| is_subnote_of(n, parent.title@);
        let ghost orig = notes@;
        let mut rest = notes;
        let mut out: Vec<SubnoteInfo> = Vec::new();
        assert(notes_of(out@) =~= Seq::<NoteSummary>::empty());
        while rest.len() > 0
            invariant
                pp@ == prefix_of(parent.title@),
                pred == (|n: NoteSummary| is_subnote_of(n, parent.title@)),
                orig.filter(pred) .to_multiset() == notes_of(out@).to_multiset().add(rest@.filter(pred).to_multiset()),
                rest@.len() <= orig.len(),
                forall|i: int| 0 <= i < rest@.len() ==> (#[trigger] rest@[i]).title@.len() <= u32::MAX,
                forall|i: int| 0 <= i < out@.len() ==> subnote_depth((#[trigger] out@[i]).note.title@, Some(prefix_of(parent.title@)))
                    == Some(out@[i].depth as nat),
                forall|i: int| 0 <= i < out@.len() - 1 ==> zettel_precedes(#[trigger] out@[i], out@[i + 1]),
            decreases rest.len(),
        {
            let ghost before_rest = rest@;
            let n = rest.pop().unwrap();
            assert(before_rest =~= rest@.push(n));
            proof {
                rest@.lemma_filter_push(n, pred);
            }
            let pps = pp.as_str();
            assert(opt_view(Some(pps)) == Some(prefix_of(parent.title@)));
            match is_subnote(n.title.as_str(), Some(pps)) {
                Some(depth) => {
                    let x = SubnoteInfo { note: n, depth };
                    let mut j: usize = out.len();
                    while j > 0 && !zettel_le(&out[j - 1], &x)
                        invariant
                            j <= out.len(),
                            j < out.len() ==> zettel_precedes(x, out@[j as int]),
                        decreases j,
                    {
                        j = j - 1;
                    }
                    let ghost before = out@;
                    out.insert(j, x);
                    proof {
                        assert(out@ == before.insert(j as int, x));
                        assert(notes_of(out@) =~= notes_of(before).insert(j as int, x.note));
                        assert forall|i: int| 0 <= i < out@.len() - 1 implies zettel_precedes(
                            #[trigger] out@[i],
                            out@[i + 1],
                        ) by {
                            if i < j as int - 1 {
                                assert(out@[i] == before[i] && out@[i + 1] == before[i + 1]);
                            } else if i == j as int - 1 {
                            } else if i == j as int {
                            } else {
                                assert(out@[i] == before[i - 1] && out@[i + 1] == before[i]);
                            }
                        }
                        assert forall|i: int| 0 <= i < out@.len() implies subnote_depth((#[trigger] out@[i]).note.title@, Some(prefix_of(parent.title@)))
                            == Some(out@[i].depth as nat) by {
                            if i < j as int {
                                assert(out@[i] == before[i]);
                            } else if i > j as int {
                                assert(out@[i] == before[i - 1]);
                            }
                        }
                    }
                },
                None => {},
            }
        }
        assert(rest@.filter(pred) =~= Seq::<NoteSummary>::empty());
        out
    }
}

} // verus!
