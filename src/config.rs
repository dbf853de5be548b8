//! Application settings and the rules for changing them.
use vstd::prelude::*;
use crate::notes::NoteType;
use crate::patterns::{contains_text, occurs};

verus! {

/// How the search index follows changes to the notes.
#[derive(Debug, Clone, Copy, PartialEq, Eq, Structural)]
pub enum AutoUpdateMode {
    /// Push each changed note at once.
    Incremental,
    /// Rebuild the whole index once the interval has passed.
    Periodic,
    /// Both.
    Hybrid,
}

impl Default for AutoUpdateMode {
    fn default() -> (r: Self)
        ensures
            r == AutoUpdateMode::Incremental,
    {
        AutoUpdateMode::Incremental
    }
}

/// The colour theme.
#[derive(Debug, Clone, Copy, PartialEq, Eq, Structural)]
pub enum Theme {
    System,
    Light,
    Dark,
}

impl Default for Theme {
    fn default() -> (r: Self)
        ensures
            r == Theme::System,
    {
        Theme::System
    }
}

/// The interval between periodic rebuilds, in minutes, where none is set.
pub fn default_update_interval() -> (r: u32)
    ensures
        r == 30,
{
    30
}

/// Application settings.
#[derive(Debug, Clone)]
pub struct AppConfig {
    /// The directory that holds the notes.
    pub notes_dir: Option<String>,
    /// The pattern for names of new notes, with `{number}`, `{title}` and
    /// `{extension}`.
    pub note_naming_pattern: Option<String>,
    /// The type of new notes.
    pub default_note_type: Option<NoteType>,
    /// Whether changes to notes reach the search index by themselves.
    pub auto_update_search_index: bool,
    pub auto_update_mode: AutoUpdateMode,
    /// Minutes between periodic rebuilds.
    pub auto_update_interval: u32,
    pub theme: Theme,
}

pub open spec fn opt_str(o: Option<String>) -> Option<Seq<char>> {
    match o {
        Some(s) => Some(s@),
        None => None,
    }
}

/// Whether two settings agree in every field.
pub open spec fn same_config(a: AppConfig, b: AppConfig) -> bool {
    &&& opt_str(a.notes_dir) == opt_str(b.notes_dir)
    &&& opt_str(a.note_naming_pattern) == opt_str(b.note_naming_pattern)
    &&& a.default_note_type == b.default_note_type
    &&& a.auto_update_search_index == b.auto_update_search_index
    &&& a.auto_update_mode == b.auto_update_mode
    &&& a.auto_update_interval == b.auto_update_interval
    &&& a.theme == b.theme
}

fn copy_opt(o: &Option<String>) -> (r: Option<String>)
    ensures
        opt_str(r) == opt_str(*o),
{
    match o {
        Some(s) => Some(s.clone()),
        None => None,
    }
}

impl AppConfig {
    /// The settings of a fresh installation.
    pub fn initial() -> (r: AppConfig)
        ensures
            r.notes_dir is None,
            opt_str(r.note_naming_pattern) == Some("{number}-{title}.{extension}"@),
            r.default_note_type == Some(NoteType::Markdown),
            r.auto_update_search_index,
            r.auto_update_mode == AutoUpdateMode::Incremental,
            r.auto_update_interval == 30,
            r.theme == Theme::System,
    {
        AppConfig {
            notes_dir: None,
            note_naming_pattern: Some(String::from_str("{number}-{title}.{extension}")),
            default_note_type: Some(NoteType::Markdown),
            auto_update_search_index: true,
            auto_update_mode: AutoUpdateMode::Incremental,
            auto_update_interval: 30,
            theme: Theme::System,
        }
    }

    /// A copy of the settings.
    pub fn copy(&self) -> (r: AppConfig)
        ensures
            same_config(r, *self),
    {
        AppConfig {
            notes_dir: copy_opt(&self.notes_dir),
            note_naming_pattern: copy_opt(&self.note_naming_pattern),
            default_note_type: self.default_note_type,
            auto_update_search_index: self.auto_update_search_index,
            auto_update_mode: self.auto_update_mode,
            auto_update_interval: self.auto_update_interval,
            theme: self.theme,
        }
    }
}

impl Default for AppConfig {
    fn default() -> (r: Self)
        ensures
            r.notes_dir is None,
            opt_str(r.note_naming_pattern) == Some("{number}-{title}.{extension}"@),
            r.default_note_type == Some(NoteType::Markdown),
            r.auto_update_search_index,
            r.auto_update_mode == AutoUpdateMode::Incremental,
            r.auto_update_interval == 30,
            r.theme == Theme::System,
    {
        AppConfig::initial()
    }
}

/// Why a setting was refused.
#[derive(Debug, Clone, Copy, PartialEq, Eq, Structural)]
pub enum ConfigError {
    /// A naming pattern without `{title}`.
    MissingTitlePlaceholder,
}

/// The settings in use, and the file that keeps them.
#[derive(Debug)]
pub struct ConfigManager {
    config_path: String,
    config: AppConfig,
}

impl ConfigManager {
    pub closed spec fn current(&self) -> AppConfig {
        self.config
    }

    pub closed spec fn path(&self) -> Seq<char> {
        self.config_path@
    }

    /// A manager for settings kept at `config_path`, loaded as `config`.
    pub fn new(config_path: String, config: AppConfig) -> (r: Self)
        ensures
            r.path() == config_path@,
            same_config(r.current(), config),
    {
        ConfigManager { config_path, config }
    }

    /// The file that keeps the settings.
    pub fn config_path(&self) -> (r: &str)
        ensures
            r@ == self.path(),
    {
        self.config_path.as_str()
    }

    /// The settings in use.
    pub fn get_config(&self) -> (r: AppConfig)
        ensures
            same_config(r, self.current()),
    {
        self.config.copy()
    }

    /// Sets the notes directory; the caller has checked that it is a
    /// writable directory.
    pub fn set_notes_dir(&mut self, path: String)
        ensures
            final(self).path() == old(self).path(),
            same_config(
                final(self).current(),
                AppConfig { notes_dir: Some(path), ..old(self).current() },
            ),
    {
        self.config.notes_dir = Some(path);
    }

    /// Sets the naming pattern for new notes. A pattern without `{title}`
    /// is refused and the settings stay as they were.
    pub fn set_note_naming_pattern(&mut self, pattern: String) -> (r: Result<(), ConfigError>)
        ensures
            final(self).path() == old(self).path(),
            !occurs(pattern@, "{title}"@) ==> r == Err::<(), ConfigError>(ConfigError::MissingTitlePlaceholder)
                && final(self).current() == old(self).current(),
            occurs(pattern@, "{title}"@) ==> r is Ok && same_config(
                final(self).current(),
                AppConfig { note_naming_pattern: Some(pattern), ..old(self).current() },
            ),
    {
        if !contains_text(pattern.as_str(), "{title}") {
            return Err(ConfigError::MissingTitlePlaceholder);
        }
        self.config.note_naming_pattern = Some(pattern);
        Ok(())
    }

    /// Sets the type of new notes.
    pub fn set_default_note_type(&mut self, note_type: NoteType)
        ensures
            final(self).path() == old(self).path(),
            same_config(
                final(self).current(),
                AppConfig { default_note_type: Some(note_type), ..old(self).current() },
            ),
    {
        self.config.default_note_type = Some(note_type);
    }

    /// Sets whether changes reach the search index by themselves.
    pub fn set_auto_update_search_index(&mut self, auto_update: bool)
        ensures
            final(self).path() == old(self).path(),
            same_config(
                final(self).current(),
                AppConfig { auto_update_search_index: auto_update, ..old(self).current() },
            ),
    {
        self.config.auto_update_search_index = auto_update;
    }

    /// Sets how the search index follows changes.
    pub fn set_auto_update_mode(&mut self, mode: AutoUpdateMode)
        ensures
            final(self).path() == old(self).path(),
            same_config(
                final(self).current(),
                AppConfig { auto_update_mode: mode, ..old(self).current() },
            ),
    {
        self.config.auto_update_mode = mode;
    }

    /// Sets the minutes between periodic rebuilds.
    pub fn set_auto_update_interval(&mut self, interval: u32)
        ensures
            final(self).path() == old(self).path(),
            same_config(
                final(self).current(),
                AppConfig { auto_update_interval: interval, ..old(self).current() },
            ),
    {
        self.config.auto_update_interval = interval;
    }

    /// Sets the colour theme.
    pub fn set_theme(&mut self, theme: Theme)
        ensures
            final(self).path() == old(self).path(),
            same_config(final(self).current(), AppConfig { theme, ..old(self).current() }),
    {
        self.config.theme = theme;
    }
}

} // verus!
