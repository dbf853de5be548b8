use notter::backlinks::{link_pattern, lines_match, update_backlinks};
use notter::codec::{decode_id, encode_id};
use notter::errors::NoteError;
use notter::listing::{filter_notes_by_tags, sort_notes};
use notter::notes::{is_note_file, note_title, note_type_of, NoteManager, NoteSummary, NoteType, SortOption};
use notter::patterns::{contains_text, decimal, replace_all};
use notter::relocate::{normalize_target, RelocationPlan};
use notter::tags::extract_tags;

fn summary(id: &str, title: &str, created: i64, modified: i64) -> NoteSummary {
    NoteSummary {
        id: id.to_string(),
        title: title.to_string(),
        created,
        modified,
        tags: vec![],
        file_type: NoteType::Markdown,
    }
}

fn manager() -> NoteManager {
    NoteManager::new("/home/me/notes".to_string())
}

#[test]
fn tags_in_order_without_marker_and_trailing_punctuation() {
    let tags = extract_tags("Hello #world! #foo-bar #a");
    assert_eq!(tags, vec!["world", "foo-bar", "a"]);
}

#[test]
fn tags_are_deduplicated_case_sensitively() {
    let tags = extract_tags("#x #X #x\n##y, #! # #z.");
    assert_eq!(tags, vec!["x", "X", "y", "z"]);
}

#[test]
fn tags_of_empty_text() {
    assert!(extract_tags("").is_empty());
    assert!(manager().extract_tags("no tags here").is_empty());
}

#[test]
fn markdown_title_from_first_line() {
    assert_eq!(note_title("a/Note.md", "# My Title \nbody"), "My Title");
    assert_eq!(note_title("n.md", "## Two\r\nrest"), "Two");
    assert_eq!(note_title("n.md", ""), "Untitled Note");
    assert_eq!(note_title("n.md", "\nsecond"), "");
}

#[test]
fn plain_text_title_is_file_stem() {
    assert_eq!(note_title("dir/My Note.txt", "# Not this"), "My Note");
    assert_eq!(note_title("archive.tar.txt", "x"), "archive.tar");
}

#[test]
fn note_type_by_extension() {
    assert_eq!(note_type_of("x/y.md"), NoteType::Markdown);
    assert_eq!(note_type_of("y.txt"), NoteType::PlainText);
    assert_eq!(note_type_of(".md"), NoteType::PlainText);
    assert_eq!(note_type_of("md"), NoteType::PlainText);
    assert_eq!(manager().get_extension_for_type(&NoteType::Markdown), "md");
    assert_eq!(manager().get_extension_for_type(&NoteType::PlainText), "txt");
}

#[test]
fn identifier_round_trip() {
    let id = encode_id("Test.md");
    assert_eq!(id, "VGVzdC5tZA==");
    assert_eq!(decode_id(&id), Ok("Test.md".to_string()));
    let nested = encode_id("sub dir/Ünïcode note.txt");
    assert_eq!(decode_id(&nested), Ok("sub dir/Ünïcode note.txt".to_string()));
}

#[test]
fn malformed_identifier_is_invalid_input() {
    assert_eq!(decode_id("not base64!"), Err(NoteError::InvalidInput));
    assert_eq!(decode_id("/w=="), Err(NoteError::InvalidInput));
}

#[test]
fn create_then_read_back_by_id() {
    let m = manager();
    let name = m.note_filename("Test", &NoteType::Markdown, None, &vec![]).unwrap();
    assert_eq!(name, "Test.md");
    let created = m.read_note(&name, "# Test\nHello".to_string(), 10, 20);
    let path = decode_id(&created.id).unwrap();
    let read = m.read_note(&path, "# Test\nHello".to_string(), 10, 20);
    assert_eq!(read.title, "Test");
    assert_eq!(read.title, created.title);
    assert_eq!(read.content, created.content);
    assert_eq!(read.file_type, NoteType::Markdown);
    assert_eq!(read.path, "Test.md");
}

#[test]
fn natural_title_sort() {
    let notes = vec![summary("a", "Note 2", 0, 0), summary("b", "Note 10", 0, 0), summary("c", "Note 1", 0, 0)];
    let asc = sort_notes(notes.clone(), Some(SortOption::TitleAsc));
    let titles: Vec<&str> = asc.iter().map(|n| n.title.as_str()).collect();
    assert_eq!(titles, vec!["Note 1", "Note 2", "Note 10"]);
    let desc = sort_notes(notes, Some(SortOption::TitleDesc));
    let titles: Vec<&str> = desc.iter().map(|n| n.title.as_str()).collect();
    assert_eq!(titles, vec!["Note 10", "Note 2", "Note 1"]);
}

#[test]
fn time_sorts_and_default() {
    let notes = vec![summary("a", "A", 3, 1), summary("b", "B", 1, 3), summary("c", "C", 2, 2)];
    let ids = |v: Vec<NoteSummary>| v.into_iter().map(|n| n.id).collect::<Vec<_>>();
    assert_eq!(ids(sort_notes(notes.clone(), Some(SortOption::CreatedNewest))), vec!["a", "c", "b"]);
    assert_eq!(ids(sort_notes(notes.clone(), Some(SortOption::CreatedOldest))), vec!["b", "c", "a"]);
    assert_eq!(ids(sort_notes(notes.clone(), Some(SortOption::ModifiedOldest))), vec!["a", "c", "b"]);
    assert_eq!(ids(sort_notes(notes.clone(), Some(SortOption::ModifiedNewest))), vec!["b", "c", "a"]);
    assert_eq!(ids(sort_notes(notes, None)), vec!["b", "c", "a"]);
}

#[test]
fn find_by_title_ignores_case_and_takes_first() {
    let notes = vec![summary("1", "Other", 0, 0), summary("2", "Groceries", 0, 0), summary("3", "GROCERIES", 0, 0)];
    let m = manager();
    assert_eq!(m.find_note_by_title(&notes, "groceries"), Some("2".to_string()));
    assert_eq!(m.find_note_by_title(&notes, "missing"), None);
}

#[test]
fn replace_and_contains() {
    assert_eq!(replace_all("a{x}b{x}", "{x}", "1"), "a1b1");
    assert_eq!(replace_all("aaa", "aa", "b"), "ba");
    assert!(contains_text("{number}-{title}", "{title}"));
    assert!(!contains_text("{number}", "{title}"));
    assert_eq!(decimal(0), "0");
    assert_eq!(decimal(1203), "1203");
}

#[test]
fn filename_from_pattern_with_next_number() {
    let m = manager();
    let names = vec!["3-Old.md".to_string(), "12-Other.md".to_string(), "x-Note.md".to_string(), "readme".to_string()];
    assert_eq!(m.find_highest_number_in_notes("{number}-{title}.{extension}", &names), Ok(12));
    let f = m.generate_filename_from_pattern("New", "{number}-{title}.{extension}", &NoteType::Markdown, &names);
    assert_eq!(f, Ok("13-New.md".to_string()));
    let f = m.generate_filename_from_pattern("New", "{number}-{title}.{extension}", &NoteType::PlainText, &vec![]);
    assert_eq!(f, Ok("1-New.txt".to_string()));
    let f = m.note_filename("Plain", &NoteType::PlainText, Some("{title}.{extension}"), &names);
    assert_eq!(f, Ok("Plain.txt".to_string()));
}

#[test]
fn invalid_number_pattern_is_invalid_input() {
    let m = manager();
    let f = m.generate_filename_from_pattern("New", "{number}({title}", &NoteType::Markdown, &vec![]);
    assert_eq!(f, Err(NoteError::InvalidInput));
}

#[test]
fn largest_number_in_use_is_a_conflict() {
    let m = manager();
    let names = vec!["4294967295-Full.md".to_string()];
    let f = m.generate_filename_from_pattern("New", "{number}-{title}.{extension}", &NoteType::Markdown, &names);
    assert_eq!(f, Err(NoteError::Conflict));
}

#[test]
fn backlink_detection() {
    let m = manager();
    let notes = vec![summary("a", "Linker", 0, 0), summary("b", "Plain", 0, 0), summary("c", "Split", 0, 0)];
    let lines = vec![
        vec!["See [[Other Note]] for details".to_string()],
        vec!["Other Note".to_string()],
        vec!["x".to_string(), "[[Other".to_string(), "Note]]".to_string()],
    ];
    let found = m.find_backlinks("Other Note", notes, &lines).unwrap();
    let ids: Vec<&str> = found.iter().map(|n| n.id.as_str()).collect();
    assert_eq!(ids, vec!["a"]);
}

#[test]
fn backlink_title_is_literal() {
    let pattern = link_pattern("a.b");
    assert_eq!(pattern, "\\[\\[a\\.b\\]\\]");
    let lines = vec!["[[axb]]".to_string()];
    assert_eq!(lines_match(&lines, &pattern), Ok(false));
    let lines = vec!["[[a.b]]".to_string()];
    assert_eq!(lines_match(&lines, &pattern), Ok(true));
    assert_eq!(lines_match(&vec![], &pattern), Ok(false));
}

#[test]
fn window_spans_five_lines() {
    let pattern = "start(.|\\n)*end";
    let five = vec!["start", "2", "3", "4", "end"].into_iter().map(String::from).collect::<Vec<_>>();
    assert_eq!(lines_match(&five, pattern), Ok(true));
    let six = vec!["start", "2", "3", "4", "5", "end"].into_iter().map(String::from).collect::<Vec<_>>();
    assert_eq!(lines_match(&six, pattern), Ok(false));
    let bad = vec!["x".to_string()];
    assert_eq!(lines_match(&bad, "("), Err(NoteError::InvalidInput));
}

#[test]
fn backlinks_rewritten_on_rename() {
    let text = update_backlinks("See [[Old]] and [[Old]], not [[Older]].", "Old", "New");
    assert_eq!(text, "See [[New]] and [[New]], not [[Older]].");
}

#[test]
fn rename_keeps_directory_and_extension() {
    let m = manager();
    assert_eq!(m.rename_target("dir/a.md", "b"), "dir/b.md");
    assert_eq!(m.rename_target("noext", "b"), "b.txt");
}

#[test]
fn rename_plans() {
    let m = manager();
    assert_eq!(
        m.plan_rename("dir/a.md", "b", false, 5),
        Ok(RelocationPlan::Direct { from: "dir/a.md".to_string(), to: "dir/b.md".to_string() })
    );
    assert_eq!(m.plan_rename("dir/a.md", "b", true, 5), Err(NoteError::Conflict));
    assert_eq!(
        m.plan_rename("dir/note.md", "Note", true, 1700),
        Ok(RelocationPlan::CaseOnlyRelocation {
            from: "dir/note.md".to_string(),
            temp: "dir/temp_rename_1700_Note.md".to_string(),
            to: "dir/Note.md".to_string(),
        })
    );
    assert!(matches!(m.plan_rename_now("a.md", "A", true), Ok(RelocationPlan::CaseOnlyRelocation { .. })));
}

#[test]
fn move_plans() {
    let m = manager();
    assert_eq!(
        m.plan_move("a.md", "sub/a.md", false, 1),
        Ok(RelocationPlan::Direct { from: "a.md".to_string(), to: "sub/a.md".to_string() })
    );
    assert_eq!(m.plan_move("a.md", "sub/a.md", true, 1), Err(NoteError::Conflict));
    assert_eq!(
        m.plan_move("sub/a.md", "SUB/a.md", true, -3),
        Ok(RelocationPlan::CaseOnlyRelocation {
            from: "sub/a.md".to_string(),
            temp: "SUB/temp_move_-3_a.md".to_string(),
            to: "SUB/a.md".to_string(),
        })
    );
    assert_eq!(m.join("x.md"), "/home/me/notes/x.md");
}

#[test]
fn move_targets_are_normalised() {
    assert_eq!(normalize_target("./a//b/./c.md"), Ok("a/b/c.md".to_string()));
    assert_eq!(normalize_target("a/../b.md"), Err(NoteError::InvalidInput));
    assert_eq!(normalize_target("/etc/passwd"), Err(NoteError::InvalidInput));
    assert_eq!(normalize_target("..."), Ok("...".to_string()));
}

#[test]
fn filter_by_tags_all_or_any() {
    let mut a = summary("a", "A", 0, 0);
    a.tags = vec!["x".to_string(), "y".to_string()];
    let mut b = summary("b", "B", 0, 0);
    b.tags = vec!["y".to_string()];
    let c = summary("c", "C", 0, 0);
    let notes = vec![a, b, c];
    let want = vec!["x".to_string(), "y".to_string()];
    let ids = |v: Vec<NoteSummary>| v.into_iter().map(|n| n.id).collect::<Vec<_>>();
    assert_eq!(ids(filter_notes_by_tags(notes.clone(), &want, true)), vec!["a"]);
    assert_eq!(ids(filter_notes_by_tags(notes.clone(), &want, false)), vec!["a", "b"]);
    assert_eq!(ids(filter_notes_by_tags(notes.clone(), &vec![], true)), vec!["a", "b", "c"]);
    assert!(filter_notes_by_tags(notes, &vec![], false).is_empty());
}

#[test]
fn read_note_derives_every_field() {
    let m = manager();
    let n = m.read_note("dir/Plan.txt", "first line #todo\n#todo #later".to_string(), 7, 9);
    assert_eq!(n.title, "Plan");
    assert_eq!(n.tags, vec!["todo", "later"]);
    assert_eq!(n.file_type, NoteType::PlainText);
    assert_eq!(n.path, "dir/Plan.txt");
    assert_eq!(decode_id(&n.id), Ok("dir/Plan.txt".to_string()));
    assert_eq!((n.created, n.modified), (7, 9));
    let s = NoteSummary::of_note(&n);
    assert_eq!((s.id, s.title, s.tags), (n.id.clone(), n.title.clone(), n.tags.clone()));
    assert_eq!(m.get_note_type("a.md"), NoteType::Markdown);
    assert_eq!(m.notes_dir(), "/home/me/notes");
}

#[test]
fn only_md_and_txt_are_notes() {
    assert!(is_note_file("/x/a.md"));
    assert!(is_note_file("b.txt"));
    assert!(!is_note_file("c.pdf"));
    assert!(!is_note_file(".md"));
    assert!(!is_note_file("dir.md/readme"));
}
