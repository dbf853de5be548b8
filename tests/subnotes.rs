use notter::notes::{Note, NoteManager, NoteSummary, NoteType};
use notter::zettel::{
    compare_zettelkasten_component, extract_prefix, is_subnote, parse_zettelkasten_parts,
    zettelkasten_compare, ZettelComponent,
};
use std::cmp::Ordering;

#[test]
fn test_extract_prefix() {
    assert_eq!(extract_prefix("1-title").as_deref(), Some("1"));
    assert_eq!(extract_prefix("1.1-title").as_deref(), Some("1.1"));
    assert_eq!(extract_prefix("title").as_deref(), Some("title"));
}

#[test]
fn test_is_subnote() {
    assert_eq!(is_subnote("1a-title", Some("1")), Some(1));
    assert_eq!(is_subnote("1b-title", Some("1")), Some(1));
    assert_eq!(is_subnote("1a1-title", Some("1")), Some(2));
    assert_eq!(is_subnote("1a2-title", Some("1")), Some(2));
    assert_eq!(is_subnote("1a1-title", Some("1a")), Some(1));
    assert_eq!(is_subnote("1a2-title", Some("1a")), Some(1));
    assert_eq!(is_subnote("2-title", Some("1")), None);
    assert_eq!(is_subnote("1-title", Some("1")), None);
    assert_eq!(is_subnote("1a-title", Some("2")), None);
    assert_eq!(is_subnote("2a-title", Some("1")), None);

    assert_eq!(is_subnote("10-title", Some("1")), None);
    assert_eq!(is_subnote("11-title", Some("1")), None);
    assert_eq!(is_subnote("100-title", Some("1")), None);

    assert_eq!(is_subnote("10a-title", Some("10")), Some(1));
}

#[test]
fn test_zettelkasten_sorting() {
    let mut prefixes = vec!["1b", "1a2", "1a", "1a1", "1c", "1a10"];
    prefixes.sort_by(|a, b| zettelkasten_compare(a, b));
    assert_eq!(prefixes, vec!["1a", "1a1", "1a2", "1a10", "1b", "1c"]);
}

#[test]
fn prefix_of_empty_and_leading_dash() {
    assert_eq!(extract_prefix("").as_deref(), Some(""));
    assert_eq!(extract_prefix("-x").as_deref(), Some(""));
    assert_eq!(extract_prefix("a-b-c").as_deref(), Some("a"));
}

#[test]
fn subnote_without_parent_prefix() {
    assert_eq!(is_subnote("1a-title", None), None);
}

#[test]
fn depth_counts_each_letter_and_each_digit_run() {
    assert_eq!(is_subnote("1ab-x", Some("1")), Some(2));
    assert_eq!(is_subnote("1a123b-x", Some("1")), Some(3));
    assert_eq!(is_subnote("1a.b-x", Some("1")), Some(2));
    assert_eq!(is_subnote("ab1", Some("a")), Some(2));
}

#[test]
fn components_of_a_prefix() {
    assert_eq!(
        parse_zettelkasten_parts("1a10"),
        vec![ZettelComponent::Number(1), ZettelComponent::Letter('a'), ZettelComponent::Number(10)]
    );
    assert_eq!(
        parse_zettelkasten_parts("2B.c"),
        vec![ZettelComponent::Number(2), ZettelComponent::Letter('b'), ZettelComponent::Letter('c')]
    );
    assert_eq!(parse_zettelkasten_parts("99999999999a"), vec![ZettelComponent::Letter('a')]);
    assert_eq!(parse_zettelkasten_parts(""), vec![]);
}

#[test]
fn component_order() {
    let n1 = ZettelComponent::Number(1);
    let n10 = ZettelComponent::Number(10);
    let a = ZettelComponent::Letter('a');
    let b = ZettelComponent::Letter('b');
    assert_eq!(compare_zettelkasten_component(&n1, &n10), Ordering::Less);
    assert_eq!(compare_zettelkasten_component(&b, &a), Ordering::Greater);
    assert_eq!(compare_zettelkasten_component(&n10, &a), Ordering::Less);
    assert_eq!(compare_zettelkasten_component(&a, &n1), Ordering::Greater);
    assert_eq!(compare_zettelkasten_component(&a, &a), Ordering::Equal);
}

#[test]
fn shorter_prefix_sorts_first() {
    assert_eq!(zettelkasten_compare("1a", "1a1"), Ordering::Less);
    assert_eq!(zettelkasten_compare("1a1", "1a"), Ordering::Greater);
    assert_eq!(zettelkasten_compare("1A", "1a"), Ordering::Equal);
    assert_eq!(zettelkasten_compare("2", "10"), Ordering::Less);
}

fn summary(title: &str) -> NoteSummary {
    NoteSummary {
        id: format!("id-{}", title),
        title: title.to_string(),
        created: 0,
        modified: 0,
        tags: vec![],
        file_type: NoteType::Markdown,
    }
}

#[test]
fn subnotes_are_selected_and_ordered() {
    let manager = NoteManager::new("/notes".to_string());
    let parent = Note {
        id: "p".to_string(),
        title: "1-Parent".to_string(),
        content: "# 1-Parent".to_string(),
        created: 0,
        modified: 0,
        tags: vec![],
        file_type: NoteType::Markdown,
        path: "1-Parent.md".to_string(),
    };
    let notes = vec![
        summary("1b-Second"),
        summary("10-Other"),
        summary("1a2-Deep"),
        summary("1a-First"),
        summary("1-Parent"),
        summary("2a-Elsewhere"),
    ];
    let subs = manager.get_subnotes(&parent, notes);
    let titles: Vec<&str> = subs.iter().map(|s| s.note.title.as_str()).collect();
    assert_eq!(titles, vec!["1a-First", "1a2-Deep", "1b-Second"]);
    let depths: Vec<u32> = subs.iter().map(|s| s.depth).collect();
    assert_eq!(depths, vec![1, 2, 1]);
}
