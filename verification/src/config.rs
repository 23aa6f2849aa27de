//! Application configuration: its sections, their defaults, and the
//! settings derived from them.

use std::path::{Path, PathBuf};

use vstd::prelude::*;

verus! {

/// The whole configuration.
#[derive(Debug, Clone)]
pub struct AppConfig {
    pub app: AppSection,
    pub ui: UiSection,
    pub storage: StorageSection,
    pub ordering: OrderingSection,
    pub logging: LoggingSection,
}

/// Application identity and the seeding of new boards.
#[derive(Debug, Clone)]
pub struct AppSection {
    pub name: String,
    pub default_board_name: String,
    /// Whether a new board gets the `default_columns`.
    pub seed_default_columns: bool,
    pub default_columns: Vec<String>,
}

/// Settings of the user interface.
#[derive(Debug, Clone)]
pub struct UiSection {
    pub start_route: String,
    pub enable_animations: bool,
    pub dense_mode: bool,
}

/// Settings of the SQLite store.
#[derive(Debug, Clone)]
pub struct StorageSection {
    pub sqlite_filename: String,
    pub journal_mode: String,
    pub synchronous: String,
    pub foreign_keys: bool,
}

/// Spacing used when ordering columns and cards by integer positions.
#[derive(Debug, Clone, PartialEq, Eq)]
pub struct OrderingSection {
    /// Distance between consecutive positions when appending or renormalizing.
    pub step: i64,
    /// A gap between two neighbours must exceed this before an item is placed in it.
    pub min_gap: i64,
}

/// Settings of the log output.
#[derive(Debug, Clone)]
pub struct LoggingSection {
    pub level: String,
    pub json: bool,
    pub write_to_file: bool,
    pub log_dirname: String,
    pub max_log_files: usize,
}

/// The built-in values of the `app` section.
pub open spec fn is_default_app(s: AppSection) -> bool {
    &&& s.name@ == "Oxban"@
    &&& s.default_board_name@ == "My Board"@
    &&& s.seed_default_columns
    &&& s.default_columns.deep_view() == seq!["To do"@, "Doing"@, "Done"@]
}

/// The built-in values of the `ui` section.
pub open spec fn is_default_ui(s: UiSection) -> bool {
    &&& s.start_route@ == "/"@
    &&& s.enable_animations
    &&& !s.dense_mode
}

/// The built-in values of the `storage` section.
pub open spec fn is_default_storage(s: StorageSection) -> bool {
    &&& s.sqlite_filename@ == "oxban.sqlite3"@
    &&& s.journal_mode@ == "WAL"@
    &&& s.synchronous@ == "NORMAL"@
    &&& s.foreign_keys
}

/// The built-in values of the `ordering` section.
pub open spec fn is_default_ordering(s: OrderingSection) -> bool {
    s.step == 1_000_000 && s.min_gap == 4
}

/// The built-in values of the `logging` section.
pub open spec fn is_default_logging(s: LoggingSection) -> bool {
    &&& s.level@ == "info"@
    &&& !s.json
    &&& s.write_to_file
    &&& s.log_dirname@ == "logs"@
    &&& s.max_log_files == 10
}

/// The built-in configuration.
pub open spec fn is_default_config(c: AppConfig) -> bool {
    &&& is_default_app(c.app)
    &&& is_default_ui(c.ui)
    &&& is_default_storage(c.storage)
    &&& is_default_ordering(c.ordering)
    &&& is_default_logging(c.logging)
}

impl Default for AppSection {
    fn default() -> (r: Self)
        ensures
            is_default_app(r),
    {
        let default_columns = vec!["To do".to_owned(), "Doing".to_owned(), "Done".to_owned()];
        assert(default_columns.deep_view() =~= seq!["To do"@, "Doing"@, "Done"@]);
        AppSection {
            name: "Oxban".to_owned(),
            default_board_name: "My Board".to_owned(),
            seed_default_columns: true,
            default_columns,
        }
    }
}

impl Default for UiSection {
    fn default() -> (r: Self)
        ensures
            is_default_ui(r),
    {
        UiSection { start_route: "/".to_owned(), enable_animations: true, dense_mode: false }
    }
}

impl Default for StorageSection {
    fn default() -> (r: Self)
        ensures
            is_default_storage(r),
    {
        StorageSection {
            sqlite_filename: "oxban.sqlite3".to_owned(),
            journal_mode: "WAL".to_owned(),
            synchronous: "NORMAL".to_owned(),
            foreign_keys: true,
        }
    }
}

impl Default for OrderingSection {
    fn default() -> (r: Self)
        ensures
            is_default_ordering(r),
    {
        OrderingSection { step: 1_000_000, min_gap: 4 }
    }
}

impl Default for LoggingSection {
    fn default() -> (r: Self)
        ensures
            is_default_logging(r),
    {
        LoggingSection {
            level: "info".to_owned(),
            json: false,
            write_to_file: true,
            log_dirname: "logs".to_owned(),
            max_log_files: 10,
        }
    }
}

impl Default for AppConfig {
    fn default() -> (r: Self)
        ensures
            is_default_config(r),
    {
        AppConfig {
            app: AppSection::default(),
            ui: UiSection::default(),
            storage: StorageSection::default(),
            ordering: OrderingSection::default(),
            logging: LoggingSection::default(),
        }
    }
}

/// The configuration in effect: the parsed file, or the built-in defaults
/// when the file could not be parsed.
pub fn config_or_default(parsed: Option<AppConfig>) -> (r: AppConfig)
    ensures
        parsed matches Some(c) ==> r == c,
        parsed is None ==> is_default_config(r),
{
    match parsed {
        Some(c) => c,
        None => AppConfig::default(),
    }
}

/// The configuration file written when none exists yet: the built-in
/// defaults in TOML.
pub const DEFAULT_CONFIG_TEXT: &'static str = r#"# Oxban configuration.
# Written with the built-in defaults when no configuration file exists.

[app]
name = "Oxban"
default_board_name = "My Board"
seed_default_columns = true
default_columns = ["To do", "Doing", "Done"]

[ui]
start_route = "/"
enable_animations = true
dense_mode = false

[storage]
sqlite_filename = "oxban.sqlite3"
journal_mode = "WAL"
synchronous = "NORMAL"
foreign_keys = true

[ordering]
step = 1000000
min_gap = 4

[logging]
level = "info"
json = false
write_to_file = true
log_dirname = "logs"
max_log_files = 10
"#;

/// The name of the log file inside the log directory.
pub const LOG_FILE_NAME: &'static str = "oxban.log";

/// The text of the configuration file written when none exists yet.
pub fn default_config_text() -> (text: &'static str)
    ensures
        text@ == DEFAULT_CONFIG_TEXT@,
{
    DEFAULT_CONFIG_TEXT
}

#[verifier::external_type_specification]
#[verifier::external_body]
pub struct ExPath(Path);

#[verifier::external_type_specification]
#[verifier::external_body]
pub struct ExPathBuf(PathBuf);

/// The bytes that `path.as_os_str().as_encoded_bytes()` returns for a
/// borrowed path: the path's own representation.
pub uninterp spec fn spec_path_bytes(path: &Path) -> Seq<u8>;

/// The bytes that `path.as_os_str().as_encoded_bytes()` returns for an
/// owned path: the path's own representation.
pub uninterp spec fn spec_path_buf_bytes(path: PathBuf) -> Seq<u8>;

/// The representation of the path that `PathBuf::push` makes of the path
/// represented by `base` when it adjoins `part`, under the path rules
/// (separators, roots, prefixes) of the target the crate is built for.
pub uninterp spec fn spec_path_pushed(base: Seq<u8>, part: Seq<char>) -> Seq<u8>;

/// `Path::join`, which its documentation defines as adjoining `part` to an
/// owned copy of `base` as `PathBuf::push` does. The contract names the
/// result through `spec_path_pushed` and claims nothing more.
#[verifier::external_body]
fn path_join(base: &Path, part: &str) -> (r: PathBuf)
    ensures
        spec_path_buf_bytes(r) == spec_path_pushed(spec_path_bytes(base), part@),
{
    base.join(part)
}

/// `PathBuf::push`. The contract names the extended path through
/// `spec_path_pushed` and claims nothing more.
#[verifier::external_body]
fn path_push(path: &mut PathBuf, part: &str)
    ensures
        spec_path_buf_bytes(*final(path)) == spec_path_pushed(spec_path_buf_bytes(*old(path)), part@),
{
    path.push(part)
}

/// The path of the log file: the file `oxban.log` in the directory
/// `log_dirname` under `config_dir`, adjoined as `Path::join` does.
pub fn log_file_path(config_dir: &Path, log_dirname: &str) -> (r: PathBuf)
    ensures
        spec_path_buf_bytes(r) == spec_path_pushed(
            spec_path_pushed(spec_path_bytes(config_dir), log_dirname@),
            LOG_FILE_NAME@,
        ),
{
    let mut path = path_join(config_dir, log_dirname);
    path_push(&mut path, LOG_FILE_NAME);
    path
}

} // verus!
