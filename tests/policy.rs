use notter::config::{default_update_interval, AppConfig, AutoUpdateMode, ConfigError, ConfigManager, Theme};
use notter::notes::{Note, NoteType};
use notter::sync::{
    check_periodic_rebuild, plan_index_update, rebuild_step, start_rebuild, summary_from_index, tags_field,
    DocumentConverter, Holding,
    NoteChange, RebuildAction,
};

fn config(auto: bool, mode: AutoUpdateMode, interval: u32) -> AppConfig {
    let mut c = AppConfig::default();
    c.auto_update_search_index = auto;
    c.auto_update_mode = mode;
    c.auto_update_interval = interval;
    c
}

#[test]
fn default_settings() {
    let c = AppConfig::default();
    assert_eq!(c.notes_dir, None);
    assert_eq!(c.note_naming_pattern.as_deref(), Some("{number}-{title}.{extension}"));
    assert_eq!(c.default_note_type, Some(NoteType::Markdown));
    assert!(c.auto_update_search_index);
    assert_eq!(c.auto_update_mode, AutoUpdateMode::Incremental);
    assert_eq!(c.auto_update_interval, 30);
    assert_eq!(c.theme, Theme::System);
    assert_eq!(default_update_interval(), 30);
    assert_eq!(AutoUpdateMode::default(), AutoUpdateMode::Incremental);
    assert_eq!(Theme::default(), Theme::System);
}

#[test]
fn setters_change_one_field() {
    let mut m = ConfigManager::new("/cfg/config.json".to_string(), AppConfig::default());
    m.set_theme(Theme::Dark);
    m.set_auto_update_interval(5);
    m.set_auto_update_mode(AutoUpdateMode::Hybrid);
    m.set_auto_update_search_index(false);
    m.set_default_note_type(NoteType::PlainText);
    m.set_notes_dir("/notes".to_string());
    let c = m.get_config();
    assert_eq!(c.theme, Theme::Dark);
    assert_eq!(c.auto_update_interval, 5);
    assert_eq!(c.auto_update_mode, AutoUpdateMode::Hybrid);
    assert!(!c.auto_update_search_index);
    assert_eq!(c.default_note_type, Some(NoteType::PlainText));
    assert_eq!(c.notes_dir.as_deref(), Some("/notes"));
    assert_eq!(m.config_path(), "/cfg/config.json");
}

#[test]
fn naming_pattern_needs_title() {
    let mut m = ConfigManager::new("c.json".to_string(), AppConfig::default());
    assert_eq!(m.set_note_naming_pattern("{number}.{extension}".to_string()), Err(ConfigError::MissingTitlePlaceholder));
    assert_eq!(m.get_config().note_naming_pattern.as_deref(), Some("{number}-{title}.{extension}"));
    assert_eq!(m.set_note_naming_pattern("{title}.{extension}".to_string()), Ok(()));
    assert_eq!(m.get_config().note_naming_pattern.as_deref(), Some("{title}.{extension}"));
}

#[test]
fn periodic_rebuild_is_due_after_interval() {
    assert!(!check_periodic_rebuild(&config(true, AutoUpdateMode::Incremental, 1), 1000));
    assert!(!check_periodic_rebuild(&config(false, AutoUpdateMode::Periodic, 1), 1000));
    assert!(!check_periodic_rebuild(&config(true, AutoUpdateMode::Periodic, 2), 119));
    assert!(check_periodic_rebuild(&config(true, AutoUpdateMode::Periodic, 2), 120));
    assert!(check_periodic_rebuild(&config(true, AutoUpdateMode::Hybrid, 30), 1800));
}

#[test]
fn index_plans_by_mode() {
    let created = NoteChange::Created { id: "n".to_string() };
    let moved = NoteChange::Relocated { old_id: "o".to_string(), new_id: "n".to_string() };

    let p = plan_index_update(&config(false, AutoUpdateMode::Hybrid, 1), &moved, 1000);
    assert_eq!((p.remove, p.add, p.rebuild), (None, None, false));

    let p = plan_index_update(&config(true, AutoUpdateMode::Incremental, 1), &created, 1000);
    assert_eq!((p.remove, p.add.as_deref(), p.rebuild), (None, Some("n"), false));

    let p = plan_index_update(&config(true, AutoUpdateMode::Periodic, 1), &moved, 59);
    assert_eq!((p.remove, p.add, p.rebuild), (None, None, false));

    let p = plan_index_update(&config(true, AutoUpdateMode::Hybrid, 1), &moved, 60);
    assert_eq!((p.remove.as_deref(), p.add.as_deref(), p.rebuild), (Some("o"), Some("n"), true));
}

#[test]
fn failed_build_leaves_index_in_place() {
    let s = start_rebuild(true);
    assert_eq!(s.next, RebuildAction::BuildTemporary);
    let s = rebuild_step(s, false);
    assert_eq!(s.next, RebuildAction::GiveUp);
    assert_eq!(s.canonical, Holding::OldIndex);
}

#[test]
fn rebuild_runs_through_backup() {
    let mut s = start_rebuild(true);
    let mut actions = vec![s.next];
    while s.next != RebuildAction::Finish && s.next != RebuildAction::GiveUp {
        s = rebuild_step(s, true);
        actions.push(s.next);
    }
    assert_eq!(
        actions,
        vec![
            RebuildAction::BuildTemporary,
            RebuildAction::MoveCanonicalToBackup,
            RebuildAction::MoveTemporaryToCanonical,
            RebuildAction::RemoveBackup,
            RebuildAction::Finish,
        ]
    );
    assert_eq!(s.canonical, Holding::NewIndex);
    assert_eq!(s.backup, Holding::Nothing);
}

#[test]
fn failed_promotion_restores_backup() {
    let s = rebuild_step(rebuild_step(start_rebuild(true), true), true);
    assert_eq!(s.next, RebuildAction::MoveTemporaryToCanonical);
    let s = rebuild_step(s, false);
    assert_eq!(s.next, RebuildAction::RestoreBackup);
    let s = rebuild_step(s, true);
    assert_eq!(s.next, RebuildAction::GiveUp);
    assert_eq!(s.canonical, Holding::OldIndex);
}

#[test]
fn first_rebuild_has_no_backup() {
    let s = rebuild_step(start_rebuild(false), true);
    assert_eq!(s.next, RebuildAction::MoveTemporaryToCanonical);
    let s = rebuild_step(s, true);
    assert_eq!(s.next, RebuildAction::Finish);
}

#[test]
fn documents_of_notes() {
    let note = Note {
        id: "i".to_string(),
        title: "T".to_string(),
        content: "body #t".to_string(),
        created: 1,
        modified: 2,
        tags: vec!["t".to_string()],
        file_type: NoteType::PlainText,
        path: "T.txt".to_string(),
    };
    let conv = DocumentConverter::new();
    let doc = conv.note_to_document(&note);
    assert_eq!(doc.file_type, "PlainText");
    assert_eq!(doc.tags, vec!["t"]);
    assert_eq!((doc.created, doc.modified), (1, 2));
    let docs = conv.notes_to_documents(&vec![note.clone(), note]);
    assert_eq!(docs.len(), 2);
}

#[test]
fn tag_field_and_stored_summary() {
    assert_eq!(tags_field(&vec!["a".to_string(), "b".to_string()]), "a b");
    assert_eq!(tags_field(&vec![]), "");
    let s = summary_from_index("i".to_string(), "T".to_string(), " x  y ", 3, 4, "Markdown");
    assert_eq!(s.tags, vec!["x", "y"]);
    assert_eq!(s.file_type, NoteType::Markdown);
    let s = summary_from_index("i".to_string(), "T".to_string(), "", 3, 4, "PlainText");
    assert!(s.tags.is_empty());
    assert_eq!(s.file_type, NoteType::PlainText);
    assert_eq!((s.created, s.modified), (3, 4));
}
