//! Keeping the search index in step with the notes: what each change to a
//! note asks of the index under the configured policy, and the steps of a
//! full rebuild that never leaves the index location without a complete
//! index unless a restore itself fails.
use vstd::prelude::*;
use crate::config::{AppConfig, AutoUpdateMode};
use crate::notes::{Note, NoteSummary, NoteType};
use crate::patterns::{contains_text, occurs};
use crate::tags::{split_words, strings_view, words_of};
use crate::text::{chars_of, string_from_chars};

verus! {

/// A change to the notes that the index may have to follow.
#[derive(Debug, Clone, PartialEq, Eq)]
pub enum NoteChange {
    /// A note was created with this identifier.
    Created { id: String },
    /// The text of the note with this identifier changed.
    Updated { id: String },
    /// A rename or move gave the note a new identifier.
    Relocated { old_id: String, new_id: String },
}

/// What the index has to do after a change.
#[derive(Debug, Clone, PartialEq, Eq)]
pub struct IndexPlan {
    /// A document to remove first.
    pub remove: Option<String>,
    /// The identifier of a note whose document to add (or replace).
    pub add: Option<String>,
    /// Whether a full rebuild is due afterwards.
    pub rebuild: bool,
}

/// Whether the policy pushes each change at once.
pub open spec fn pushes_at_once(config: AppConfig) -> bool {
    config.auto_update_search_index && (config.auto_update_mode == AutoUpdateMode::Incremental
        || config.auto_update_mode == AutoUpdateMode::Hybrid)
}

/// Whether a periodic rebuild is due `elapsed` seconds after the last one.
pub open spec fn rebuild_due(config: AppConfig, elapsed: u64) -> bool {
    &&& config.auto_update_search_index
    &&& (config.auto_update_mode == AutoUpdateMode::Periodic || config.auto_update_mode
        == AutoUpdateMode::Hybrid)
    &&& elapsed as int >= config.auto_update_interval as int * 60
}

/// Whether a periodic rebuild is due `elapsed` seconds after the last one:
/// automatic updates are on, the mode is periodic or hybrid, and the
/// interval has passed.
pub fn check_periodic_rebuild(config: &AppConfig, elapsed: u64) -> (r: bool)
    ensures
        r == rebuild_due(*config, elapsed),
{
    if !config.auto_update_search_index {
        return false;
    }
    match config.auto_update_mode {
        AutoUpdateMode::Periodic | AutoUpdateMode::Hybrid => {
            elapsed >= (config.auto_update_interval as u64) * 60
        },
        AutoUpdateMode::Incremental => false,
    }
}

/// What the index has to do after `change`, `elapsed` seconds after the
/// last full rebuild: nothing where automatic updates are off; the changed
/// document at once in incremental and hybrid mode (the old one removed
/// where the identifier changed); and a rebuild where one is due.
pub fn plan_index_update(config: &AppConfig, change: &NoteChange, elapsed: u64) -> (r: IndexPlan)
    ensures
        r.rebuild == rebuild_due(*config, elapsed),
        !pushes_at_once(*config) ==> r.remove is None && r.add is None,
        pushes_at_once(*config) ==> match *change {
            NoteChange::Created { id } => r.remove is None && (r.add matches Some(a) && a@ == id@),
            NoteChange::Updated { id } => r.remove is None && (r.add matches Some(a) && a@ == id@),
            NoteChange::Relocated { old_id, new_id } => (r.remove matches Some(o) && o@ == old_id@)
                && (r.add matches Some(a) && a@ == new_id@),
        },
{
    let rebuild = check_periodic_rebuild(config, elapsed);
    let push = config.auto_update_search_index && match config.auto_update_mode {
        AutoUpdateMode::Incremental | AutoUpdateMode::Hybrid => true,
        AutoUpdateMode::Periodic => false,
    };
    if !push {
        return IndexPlan { remove: None, add: None, rebuild };
    }
    match change {
        NoteChange::Created { id } => IndexPlan { remove: None, add: Some(id.clone()), rebuild },
        NoteChange::Updated { id } => IndexPlan { remove: None, add: Some(id.clone()), rebuild },
        NoteChange::Relocated { old_id, new_id } => IndexPlan {
            remove: Some(old_id.clone()),
            add: Some(new_id.clone()),
            rebuild,
        },
    }
}

/// A note as the search index stores it.
#[derive(Debug, Clone)]
pub struct IndexableDocument {
    pub id: String,
    pub title: String,
    pub content: String,
    pub tags: Vec<String>,
    pub created: i64,
    pub modified: i64,
    /// `Markdown` or `PlainText`.
    pub file_type: String,
}

/// The name under which the index stores a note type.
pub open spec fn kind_name(t: NoteType) -> Seq<char> {
    match t {
        NoteType::Markdown => "Markdown"@,
        NoteType::PlainText => "PlainText"@,
    }
}

/// Whether `d` is the document of note `n`.
pub open spec fn is_document_of(d: IndexableDocument, n: Note) -> bool {
    &&& d.id@ == n.id@
    &&& d.title@ == n.title@
    &&& d.content@ == n.content@
    &&& strings_view(d.tags@) == strings_view(n.tags@)
    &&& d.created == n.created
    &&& d.modified == n.modified
    &&& d.file_type@ == kind_name(n.file_type)
}

/// Turns notes into the documents of the search index.
#[derive(Debug, Clone, Copy)]
pub struct DocumentConverter {}

impl DocumentConverter {
    pub fn new() -> (r: Self) {
        DocumentConverter {}
    }

    /// The document of a note.
    pub fn note_to_document(&self, note: &Note) -> (r: IndexableDocument)
        ensures
            is_document_of(r, *note),
    {
        let mut tags: Vec<String> = Vec::new();
        let mut i: usize = 0;
        while i < note.tags.len()
            invariant
                i <= note.tags.len(),
                tags@ == note.tags@.take(i as int),
            decreases note.tags.len() - i,
        {
            tags.push(note.tags[i].clone());
            assert(tags@ =~= note.tags@.take(i as int + 1));
            i = i + 1;
        }
        assert(note.tags@.take(note.tags.len() as int) =~= note.tags@);
        let file_type = match note.file_type {
            NoteType::Markdown => String::from_str("Markdown"),
            NoteType::PlainText => String::from_str("PlainText"),
        };
        IndexableDocument {
            id: note.id.clone(),
            title: note.title.clone(),
            content: note.content.clone(),
            tags,
            created: note.created,
            modified: note.modified,
            file_type,
        }
    }

    /// The documents of notes, in the same order.
    pub fn notes_to_documents(&self, notes: &Vec<Note>) -> (r: Vec<IndexableDocument>)
        ensures
            r.len() == notes.len(),
            forall|i: int| 0 <= i < notes.len() ==> is_document_of(#[trigger] r@[i], notes@[i]),
    {
        let mut docs: Vec<IndexableDocument> = Vec::new();
        let mut i: usize = 0;
        while i < notes.len()
            invariant
                i <= notes.len(),
                docs.len() == i,
                forall|k: int| 0 <= k < i ==> is_document_of(#[trigger] docs@[k], notes@[k]),
            decreases notes.len() - i,
        {
            docs.push(self.note_to_document(&notes[i]));
            i = i + 1;
        }
        docs
    }
}

/// The words joined with single spaces.
pub open spec fn space_joined(ws: Seq<Seq<char>>) -> Seq<char>
    decreases ws.len(),
{
    if ws.len() == 0 {
        Seq::empty()
    } else if ws.len() == 1 {
        ws[0]
    } else {
        space_joined(ws.drop_last()) + seq![' '] + ws.last()
    }
}

/// The text of the tag field: the tags joined with single spaces.
pub fn tags_field(tags: &Vec<String>) -> (r: String)
    ensures
        r@ == space_joined(strings_view(tags@)),
{
    let ghost ts = strings_view(tags@);
    let mut out = String::from_str("");
    let mut i: usize = 0;
    proof {
        reveal_strlit("");
    }
    assert(ts.take(0) =~= Seq::<Seq<char>>::empty());
    while i < tags.len()
        invariant
            i <= tags.len(),
            ts == strings_view(tags@),
            out@ == space_joined(ts.take(i as int)),
        decreases tags.len() - i,
    {
        assert(ts.take(i as int + 1).drop_last() =~= ts.take(i as int));
        if i > 0 {
            out = out.concat(" ");
        }
        out = out.concat(tags[i].as_str());
        proof {
            reveal_strlit(" ");
            if i == 0 {
                assert(Seq::<char>::empty() + tags@[0]@ =~= tags@[0]@);
            }
        }
        i = i + 1;
    }
    assert(ts.take(tags.len() as int) =~= ts);
    out
}

/// The summary of a note as the search index stores it: the tags are the
/// words of the tag field, and the type is Markdown where the stored type
/// names it.
pub fn summary_from_index(
    id: String,
    title: String,
    tags_text: &str,
    created: i64,
    modified: i64,
    file_type: &str,
) -> (r: NoteSummary)
    ensures
        r.id@ == id@,
        r.title@ == title@,
        strings_view(r.tags@) == words_of(tags_text@),
        r.created == created,
        r.modified == modified,
        r.file_type == (if occurs(file_type@, "Markdown"@) {
            NoteType::Markdown
        } else {
            NoteType::PlainText
        }),
{
    let words = split_words(&chars_of(tags_text));
    let ghost ws = words@.map_values(|w: Vec<char>| w@);
    let mut tags: Vec<String> = Vec::new();
    let mut i: usize = 0;
    while i < words.len()
        invariant
            i <= words.len(),
            ws == words@.map_values(|w: Vec<char>| w@),
            strings_view(tags@) == ws.take(i as int),
        decreases words.len() - i,
    {
        let ghost before = tags@;
        let t = string_from_chars(words[i].as_slice());
        tags.push(t);
        assert(tags@ == before.push(t));
        assert(t@ == ws[i as int]);
        assert(strings_view(tags@) =~= strings_view(before).push(t@));
        assert(ws.take(i as int + 1) =~= ws.take(i as int).push(ws[i as int]));
        i = i + 1;
    }
    assert(ws.take(words.len() as int) =~= ws);
    let kind = if contains_text(file_type, "Markdown") {
        NoteType::Markdown
    } else {
        NoteType::PlainText
    };
    NoteSummary { id, title, created, modified, tags, file_type: kind }
}

/// What a directory that can hold an index holds.
#[derive(Debug, Clone, Copy, PartialEq, Eq, Structural)]
pub enum Holding {
    Nothing,
    /// The index as it was before the rebuild.
    OldIndex,
    /// The complete index that the rebuild made.
    NewIndex,
}

/// The file system work of a rebuild, one step at a time.
#[derive(Debug, Clone, Copy, PartialEq, Eq, Structural)]
pub enum RebuildAction {
    /// Build the new index, from every note, in a temporary directory.
    BuildTemporary,
    /// Move the current index aside to the backup location.
    MoveCanonicalToBackup,
    /// Move the new index into the index location.
    MoveTemporaryToCanonical,
    /// Move the backup back into the index location.
    RestoreBackup,
    /// Delete the backup.
    RemoveBackup,
    /// Nothing is left to do: the rebuild succeeded.
    Finish,
    /// Nothing is left to do: the rebuild failed.
    GiveUp,
}

/// Where a rebuild stands, and what each location holds.
#[derive(Debug, Clone, Copy, PartialEq, Eq, Structural)]
pub struct RebuildState {
    /// The action under way.
    pub next: RebuildAction,
    /// What the index location held before the rebuild.
    pub initial: Holding,
    pub canonical: Holding,
    pub backup: Holding,
    pub temporary: Holding,
    /// Whether a restore of the backup failed.
    pub lost: bool,
}

/// The consistency of a rebuild: until the new index is built the index
/// location is untouched; it is empty only while the swap is under way
/// (or after a restore that failed); a rebuild that gives up leaves the
/// initial index in place, and one that finishes leaves the new one.
pub open spec fn rebuild_wf(s: RebuildState) -> bool {
    &&& s.initial != Holding::NewIndex
    &&& match s.next {
        RebuildAction::BuildTemporary => s.canonical == s.initial && s.backup == Holding::Nothing
            && !s.lost,
        RebuildAction::MoveCanonicalToBackup => s.canonical == s.initial && s.initial
            == Holding::OldIndex && s.temporary == Holding::NewIndex && !s.lost,
        RebuildAction::MoveTemporaryToCanonical => s.temporary == Holding::NewIndex && s.backup
            == s.initial && s.canonical == Holding::Nothing && !s.lost,
        RebuildAction::RestoreBackup => s.backup == Holding::OldIndex && s.canonical
            == Holding::Nothing && s.initial == Holding::OldIndex && !s.lost,
        RebuildAction::RemoveBackup => s.canonical == Holding::NewIndex && s.backup
            == Holding::OldIndex && !s.lost,
        RebuildAction::Finish => s.canonical == Holding::NewIndex && !s.lost,
        RebuildAction::GiveUp => s.lost || s.canonical == s.initial,
    }
}

/// The start of a rebuild, where `has_index` tells whether the index
/// location holds an index.
pub fn start_rebuild(has_index: bool) -> (r: RebuildState)
    ensures
        rebuild_wf(r),
        r.next == RebuildAction::BuildTemporary,
        r.canonical == r.initial,
        r.initial == (if has_index {
            Holding::OldIndex
        } else {
            Holding::Nothing
        }),
{
    let initial = if has_index {
        Holding::OldIndex
    } else {
        Holding::Nothing
    };
    RebuildState {
        next: RebuildAction::BuildTemporary,
        initial,
        canonical: initial,
        backup: Holding::Nothing,
        temporary: Holding::Nothing,
        lost: false,
    }
}

/// The state after the action `s.next` was carried out, where `ok` tells
/// whether it succeeded.
pub open spec fn next_state(s: RebuildState, ok: bool) -> RebuildState {
    match s.next {
        RebuildAction::BuildTemporary => {
            if !ok {
                RebuildState { next: RebuildAction::GiveUp, ..s }
            } else if s.initial == Holding::OldIndex {
                RebuildState {
                    next: RebuildAction::MoveCanonicalToBackup,
                    temporary: Holding::NewIndex,
                    ..s
                }
            } else {
                RebuildState {
                    next: RebuildAction::MoveTemporaryToCanonical,
                    temporary: Holding::NewIndex,
                    canonical: Holding::Nothing,
                    backup: Holding::Nothing,
                    ..s
                }
            }
        },
        RebuildAction::MoveCanonicalToBackup => {
            if !ok {
                RebuildState { next: RebuildAction::GiveUp, ..s }
            } else {
                RebuildState {
                    next: RebuildAction::MoveTemporaryToCanonical,
                    canonical: Holding::Nothing,
                    backup: Holding::OldIndex,
                    ..s
                }
            }
        },
        RebuildAction::MoveTemporaryToCanonical => {
            if ok {
                if s.backup == Holding::OldIndex {
                    RebuildState {
                        next: RebuildAction::RemoveBackup,
                        canonical: Holding::NewIndex,
                        temporary: Holding::Nothing,
                        ..s
                    }
                } else {
                    RebuildState {
                        next: RebuildAction::Finish,
                        canonical: Holding::NewIndex,
                        temporary: Holding::Nothing,
                        ..s
                    }
                }
            } else if s.backup == Holding::OldIndex {
                RebuildState { next: RebuildAction::RestoreBackup, ..s }
            } else {
                RebuildState { next: RebuildAction::GiveUp, ..s }
            }
        },
        RebuildAction::RestoreBackup => {
            if ok {
                RebuildState {
                    next: RebuildAction::GiveUp,
                    canonical: Holding::OldIndex,
                    backup: Holding::Nothing,
                    ..s
                }
            } else {
                RebuildState { next: RebuildAction::GiveUp, lost: true, ..s }
            }
        },
        RebuildAction::RemoveBackup => {
            if ok {
                RebuildState { next: RebuildAction::Finish, backup: Holding::Nothing, ..s }
            } else {
                RebuildState { next: RebuildAction::Finish, ..s }
            }
        },
        RebuildAction::Finish => s,
        RebuildAction::GiveUp => s,
    }
}


/// The state after the action `s.next` was carried out, where `ok` tells
/// whether it succeeded. A failure before the swap gives up with the index
/// location untouched; a failed move into place restores the backup.
pub fn rebuild_step(s: RebuildState, ok: bool) -> (r: RebuildState)
    requires
        rebuild_wf(s),
    ensures
        r == next_state(s, ok),
        rebuild_wf(r),
        r.initial == s.initial,
        s.next == RebuildAction::Finish || s.next == RebuildAction::GiveUp ==> r == s,
        r.next == RebuildAction::GiveUp && !r.lost ==> r.canonical == r.initial,
        r.next == RebuildAction::Finish ==> r.canonical == Holding::NewIndex,
        (s.next == RebuildAction::BuildTemporary || s.next == RebuildAction::MoveCanonicalToBackup)
            && !ok ==> r.next == RebuildAction::GiveUp && r.canonical == s.initial,
{
    match s.next {
        RebuildAction::BuildTemporary => {
            if !ok {
                RebuildState { next: RebuildAction::GiveUp, ..s }
            } else if s.initial == Holding::OldIndex {
                RebuildState {
                    next: RebuildAction::MoveCanonicalToBackup,
                    temporary: Holding::NewIndex,
                    ..s
                }
            } else {
                RebuildState {
                    next: RebuildAction::MoveTemporaryToCanonical,
                    temporary: Holding::NewIndex,
                    canonical: Holding::Nothing,
                    backup: Holding::Nothing,
                    ..s
                }
            }
        },
        RebuildAction::MoveCanonicalToBackup => {
            if !ok {
                RebuildState { next: RebuildAction::GiveUp, ..s }
            } else {
                RebuildState {
                    next: RebuildAction::MoveTemporaryToCanonical,
                    canonical: Holding::Nothing,
                    backup: Holding::OldIndex,
                    ..s
                }
            }
        },
        RebuildAction::MoveTemporaryToCanonical => {
            if ok {
                if s.backup == Holding::OldIndex {
                    RebuildState {
                        next: RebuildAction::RemoveBackup,
                        canonical: Holding::NewIndex,
                        temporary: Holding::Nothing,
                        ..s
                    }
                } else {
                    RebuildState {
                        next: RebuildAction::Finish,
                        canonical: Holding::NewIndex,
                        temporary: Holding::Nothing,
                        ..s
                    }
                }
            } else if s.backup == Holding::OldIndex {
                RebuildState { next: RebuildAction::RestoreBackup, ..s }
            } else {
                RebuildState { next: RebuildAction::GiveUp, ..s }
            }
        },
        RebuildAction::RestoreBackup => {
            if ok {
                RebuildState {
                    next: RebuildAction::GiveUp,
                    canonical: Holding::OldIndex,
                    backup: Holding::Nothing,
                    ..s
                }
            } else {
                RebuildState { next: RebuildAction::GiveUp, lost: true, ..s }
            }
        },
        RebuildAction::RemoveBackup => {
            if ok {
                RebuildState { next: RebuildAction::Finish, backup: Holding::Nothing, ..s }
            } else {
                RebuildState { next: RebuildAction::Finish, ..s }
            }
        },
        RebuildAction::Finish => s,
        RebuildAction::GiveUp => s,
    }
}

/// The state after a run of outcomes, one for each action carried out.
pub open spec fn run_rebuild(s: RebuildState, outcomes: Seq<bool>) -> RebuildState
    decreases outcomes.len(),
{
    if outcomes.len() == 0 {
        s
    } else {
        run_rebuild(next_state(s, outcomes[0]), outcomes.drop_first())
    }
}

/// Every step keeps a rebuild consistent.
pub proof fn lemma_step_keeps_wf(s: RebuildState, ok: bool)
    requires
        rebuild_wf(s),
    ensures
        rebuild_wf(next_state(s, ok)),
{
}

/// Whatever each step's outcome, a rebuild stays consistent: the index
/// location holds the initial index until the new one is complete, a
/// rebuild that gives up (with no failed restore) leaves the initial
/// index in place, and one that finishes leaves the new index there.
pub proof fn lemma_rebuild_consistent(has_index: bool, outcomes: Seq<bool>)
    ensures
        ({
            let initial = if has_index {
                Holding::OldIndex
            } else {
                Holding::Nothing
            };
            let s0 = RebuildState {
                next: RebuildAction::BuildTemporary,
                initial,
                canonical: initial,
                backup: Holding::Nothing,
                temporary: Holding::Nothing,
                lost: false,
            };
            let r = run_rebuild(s0, outcomes);
            &&& rebuild_wf(r)
            &&& r.initial == initial
            &&& (r.next == RebuildAction::BuildTemporary || r.next == RebuildAction::MoveCanonicalToBackup)
                ==> r.canonical == initial
            &&& r.next == RebuildAction::GiveUp && !r.lost ==> r.canonical == initial
            &&& r.next == RebuildAction::Finish ==> r.canonical == Holding::NewIndex
        }),
{
    let initial = if has_index {
        Holding::OldIndex
    } else {
        Holding::Nothing
    };
    let s0 = RebuildState {
        next: RebuildAction::BuildTemporary,
        initial,
        canonical: initial,
        backup: Holding::Nothing,
        temporary: Holding::Nothing,
        lost: false,
    };
    lemma_run_keeps_wf(s0, outcomes);
}

proof fn lemma_run_keeps_wf(s: RebuildState, outcomes: Seq<bool>)
    requires
        rebuild_wf(s),
    ensures
        rebuild_wf(run_rebuild(s, outcomes)),
        run_rebuild(s, outcomes).initial == s.initial,
    decreases outcomes.len(),
{
    if outcomes.len() > 0 {
        lemma_step_keeps_wf(s, outcomes[0]);
        lemma_run_keeps_wf(next_state(s, outcomes[0]), outcomes.drop_first());
    }
}

} // verus!
