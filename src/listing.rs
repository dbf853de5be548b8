//! Ordering and searching a listing of note summaries.
use vstd::prelude::*;
use std::cmp::Ordering;
use crate::notes::{NoteManager, NoteSummary, SortOption};
use crate::tags::{contains_string, strings_view};
use crate::text::{lower_of, to_lowercase};

verus! {

broadcast use vstd::seq_lib::group_to_multiset_ensures;

/// The natural order of two texts, where runs of digits compare by value.
pub uninterp spec fn natural_order(a: Seq<char>, b: Seq<char>) -> Ordering;

pub open spec fn reversed(o: Ordering) -> Ordering {
    match o {
        Ordering::Less => Ordering::Greater,
        Ordering::Equal => Ordering::Equal,
        Ordering::Greater => Ordering::Less,
    }
}

/// Relies on `natord::compare`: natural order, where runs of digits compare
/// by value; swapping the arguments reverses the result.
#[verifier::external_body]
fn natural_compare(a: &str, b: &str) -> (r: Ordering)
    ensures
        r == natural_order(a@, b@),
        natural_order(b@, a@) == reversed(r),
{
    natord::compare(a, b)
}

/// The order of a listing when none is asked for.
pub open spec fn order_or_default(sort: Option<SortOption>) -> SortOption {
    match sort {
        Some(s) => s,
        None => SortOption::ModifiedNewest,
    }
}

/// Whether `a` may stand before `b` in a listing sorted by `sort`.
pub open spec fn may_precede(a: NoteSummary, b: NoteSummary, sort: SortOption) -> bool {
    match sort {
        SortOption::TitleAsc => natural_order(a.title@, b.title@) != Ordering::Greater,
        SortOption::TitleDesc => natural_order(b.title@, a.title@) != Ordering::Greater,
        SortOption::CreatedNewest => a.created >= b.created,
        SortOption::CreatedOldest => a.created <= b.created,
        SortOption::ModifiedNewest => a.modified >= b.modified,
        SortOption::ModifiedOldest => a.modified <= b.modified,
    }
}

/// Whether every note of `s` may stand before the one after it.
pub open spec fn sorted_by(s: Seq<NoteSummary>, sort: SortOption) -> bool {
    forall|i: int| 0 <= i < s.len() - 1 ==> may_precede(#[trigger] s[i], s[i + 1], sort)
}

fn precedes(a: &NoteSummary, b: &NoteSummary, sort: SortOption) -> (r: bool)
    ensures
        r == may_precede(*a, *b, sort),
        !r ==> may_precede(*b, *a, sort),
{
    match sort {
        SortOption::TitleAsc => {
            let o = natural_compare(a.title.as_str(), b.title.as_str());
            match o {
                Ordering::Greater => false,
                _ => true,
            }
        },
        SortOption::TitleDesc => {
            let o = natural_compare(b.title.as_str(), a.title.as_str());
            match o {
                Ordering::Greater => false,
                _ => true,
            }
        },
        SortOption::CreatedNewest => a.created >= b.created,
        SortOption::CreatedOldest => a.created <= b.created,
        SortOption::ModifiedNewest => a.modified >= b.modified,
        SortOption::ModifiedOldest => a.modified <= b.modified,
    }
}

/// Orders a listing by `sort`, by modification time, newest first, where
/// none is given. The result holds the same notes.
pub fn sort_notes(notes: Vec<NoteSummary>, sort: Option<SortOption>) -> (r: Vec<NoteSummary>)
    ensures
        r@.to_multiset() == notes@.to_multiset(),
        sorted_by(r@, order_or_default(sort)),
{
    let order = match sort {
        Some(s) => s,
        None => SortOption::ModifiedNewest,
    };
    let ghost orig = notes@;
    let mut rest = notes;
    let mut out: Vec<NoteSummary> = Vec::new();
    while rest.len() > 0
        invariant
            out@.to_multiset().add(rest@.to_multiset()) == orig.to_multiset(),
            sorted_by(out@, order),
            order == order_or_default(sort),
        decreases rest.len(),
    {
        let ghost before_rest = rest@;
        let x = rest.pop().unwrap();
        assert(before_rest =~= rest@.push(x));
        let mut j: usize = out.len();
        while j > 0 && !precedes(&out[j - 1], &x, order)
            invariant
                j <= out.len(),
                j < out.len() ==> may_precede(x, out@[j as int], order),
            decreases j,
        {
            j = j - 1;
        }
        let ghost before = out@;
        out.insert(j, x);
        proof {
            assert(out@ == before.insert(j as int, x));
            assert forall|i: int| 0 <= i < out@.len() - 1 implies may_precede(
                #[trigger] out@[i],
                out@[i + 1],
                order,
            ) by {
                if i < j as int - 1 {
                    assert(out@[i] == before[i] && out@[i + 1] == before[i + 1]);
                } else if i == j as int - 1 {
                } else if i == j as int {
                } else {
                    assert(out@[i] == before[i - 1] && out@[i + 1] == before[i]);
                }
            }
        }
    }
    out
}

/// Whether a note carries the tags asked for: all of them, or any of them.
pub open spec fn has_tags(n: NoteSummary, tags: Seq<Seq<char>>, match_all: bool) -> bool {
    if match_all {
        forall|i: int| 0 <= i < tags.len() ==> strings_view(n.tags@).contains(#[trigger] tags[i])
    } else {
        exists|i: int| 0 <= i < tags.len() && strings_view(n.tags@).contains(#[trigger] tags[i])
    }
}

/// The notes of a listing that carry the tags, in order.
pub open spec fn tag_filtered(notes: Seq<NoteSummary>, tags: Seq<Seq<char>>, match_all: bool) -> Seq<NoteSummary>
    decreases notes.len(),
{
    if notes.len() == 0 {
        Seq::empty()
    } else {
        let prev = tag_filtered(notes.drop_last(), tags, match_all);
        if has_tags(notes.last(), tags, match_all) {
            prev.push(notes.last())
        } else {
            prev
        }
    }
}

fn carries_tags(n: &NoteSummary, tags: &Vec<String>, match_all: bool) -> (r: bool)
    ensures
        r == has_tags(*n, strings_view(tags@), match_all),
{
    let ghost ts = strings_view(tags@);
    let mut i: usize = 0;
    while i < tags.len()
        invariant
            i <= tags.len(),
            ts == strings_view(tags@),
            match_all ==> forall|k: int| 0 <= k < i ==> strings_view(n.tags@).contains(#[trigger] ts[k]),
            !match_all ==> forall|k: int| 0 <= k < i ==> !strings_view(n.tags@).contains(#[trigger] ts[k]),
        decreases tags.len() - i,
    {
        let found = contains_string(&n.tags, &tags[i]);
        assert(ts[i as int] == tags@[i as int]@);
        if match_all && !found {
            return false;
        }
        if !match_all && found {
            return true;
        }
        i = i + 1;
    }
    match_all
}

/// The notes of `notes` that carry all of `tags` (where `match_all`) or
/// any of them, in listing order.
pub fn filter_notes_by_tags(notes: Vec<NoteSummary>, tags: &Vec<String>, match_all: bool) -> (r: Vec<NoteSummary>)
    ensures
        r@ == tag_filtered(notes@, strings_view(tags@), match_all),
{
    let ghost all = notes@;
    let ghost ts = strings_view(tags@);
    let mut rest = notes;
    let mut out: Vec<NoteSummary> = Vec::new();
    let mut i: usize = 0;
    let n = rest.len();
    assert(all.skip(0) =~= all);
    assert(all.take(0) =~= Seq::<NoteSummary>::empty());
    while i < n
        invariant
            i <= n == all.len(),
            ts == strings_view(tags@),
            rest@ == all.skip(i as int),
            out@ == tag_filtered(all.take(i as int), ts, match_all),
        decreases n - i,
    {
        let note = rest.remove(0);
        assert(all.skip(i as int + 1) =~= all.skip(i as int).drop_first());
        assert(all.take(i as int + 1).drop_last() =~= all.take(i as int));
        if carries_tags(&note, tags, match_all) {
            out.push(note);
        }
        i = i + 1;
    }
    assert(all.take(n as int) =~= all);
    out
}

/// Whether a note's title equals `title` ignoring case.
pub open spec fn title_matches(n: NoteSummary, title: Seq<char>) -> bool {
    lower_of(n.title@) == lower_of(title)
}

impl NoteManager {
    /// The identifier of the first note of `notes` whose title equals
    /// `title` ignoring case, if there is one.
    pub fn find_note_by_title(&self, notes: &Vec<NoteSummary>, title: &str) -> (r: Option<String>)
        ensures
            r is None <==> forall|i: int| 0 <= i < notes@.len() ==> !title_matches(#[trigger] notes@[i], title@),
            r matches Some(id) ==> exists|i: int|
                0 <= i < notes@.len() && title_matches(notes@[i], title@) && id@ == notes@[i].id@
                && forall|k: int| 0 <= k < i ==> !title_matches(#[trigger] notes@[k], title@),
    {
        let wanted = to_lowercase(title);
        let mut i: usize = 0;
        while i < notes.len()
            invariant
                i <= notes.len(),
                wanted@ == lower_of(title@),
                forall|k: int| 0 <= k < i ==> !title_matches(#[trigger] notes@[k], title@),
            decreases notes.len() - i,
        {
            let lowered = to_lowercase(notes[i].title.as_str());
            if lowered == wanted {
                return Some(notes[i].id.clone());
            }
            i = i + 1;
        }
        None
    }
}

} // verus!
