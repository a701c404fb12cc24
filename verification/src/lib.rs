//! A verified core for a textbook download manager.
//!
//! The crate models the download orchestrator of a desktop client: catalog
//! data and tag-hierarchy lookups, destination-path construction, progress
//! accounting, a cancellation registry, a single-transfer state machine, and
//! a bounded-concurrency batch coordinator.  Network and file-system effects
//! are performed by the surrounding application; the decisions, bookkeeping
//! and event shaping are verified here.
use vstd::prelude::*;
use vstd::string::StringExecFns;

pub mod batch;
pub mod catalog;
pub mod encoding;
pub mod locator;
pub mod models;
pub mod registry;
pub mod strutil;
pub mod transfer;

verus! {

/// Verbosity threshold for the application log.
#[derive(Clone, Copy, Debug, PartialEq, Eq, Structural)]
pub enum LogLevel {
    Error,
    Warn,
    Info,
    Debug,
    Trace,
}

/// Application-wide configuration chosen at startup.
#[derive(Clone, Debug)]
pub struct AppConfig {
    pub debug_logging: bool,
    pub log_level: LogLevel,
}

impl Default for AppConfig {
    /// The development configuration: verbose logging switched on.
    fn default() -> (r: Self)
        ensures
            r.debug_logging == true,
            r.log_level == LogLevel::Debug,
    {
        AppConfig { debug_logging: true, log_level: LogLevel::Debug }
    }
}

/// Mutable state shared with the user interface: the category the user last
/// selected.  Callers that share it across threads wrap it in a lock.
#[derive(Debug)]
pub struct AppState {
    pub cached_category_id: Option<String>,
}

impl AppState {
    pub fn new() -> (r: Self)
        ensures
            r.cached_category_id is None,
    {
        AppState { cached_category_id: None }
    }

    pub fn get_cached_category_id(&self) -> (r: Option<String>)
        ensures
            r == self.cached_category_id,
    {
        match &self.cached_category_id {
            Some(s) => Some(s.clone()),
            None => None,
        }
    }

    pub fn set_cached_category_id(&mut self, category_id: Option<String>)
        ensures
            final(self).cached_category_id == category_id,
    {
        self.cached_category_id = category_id;
    }
}

impl Default for AppState {
    fn default() -> (r: Self)
        ensures
            r.cached_category_id is None,
    {
        AppState::new()
    }
}

/// Application-level error taxonomy.  Failures that originate outside the
/// library (network, JSON, file system, URL syntax) are carried as their
/// rendered detail text.
#[derive(Clone, Debug)]
pub enum AppError {
    NetworkError(String),
    JsonError(String),
    IoError(String),
    UrlError(String),
    DownloadCancelled,
    ValidationError(String),
    Generic(String),
}

impl AppError {
    /// The user-facing description of this error.
    pub open spec fn message_spec(&self) -> Seq<char> {
        match self {
            AppError::NetworkError(d) => "网络请求失败: "@ + d@,
            AppError::JsonError(d) => "JSON 解析失败: "@ + d@,
            AppError::IoError(d) => "文件操作失败: "@ + d@,
            AppError::UrlError(d) => "URL 解析失败: "@ + d@,
            AppError::DownloadCancelled => "下载被取消"@,
            AppError::ValidationError(d) => "参数验证失败: "@ + d@,
            AppError::Generic(d) => "应用程序错误: "@ + d@,
        }
    }

    /// Render the error as its user-facing message.
    pub fn message(&self) -> (r: String)
        ensures
            r@ == self.message_spec(),
    {
        match self {
            AppError::NetworkError(d) => {
                let mut s = String::from_str("网络请求失败: ");
                s.append(d.as_str());
                s
            },
            AppError::JsonError(d) => {
                let mut s = String::from_str("JSON 解析失败: ");
                s.append(d.as_str());
                s
            },
            AppError::IoError(d) => {
                let mut s = String::from_str("文件操作失败: ");
                s.append(d.as_str());
                s
            },
            AppError::UrlError(d) => {
                let mut s = String::from_str("URL 解析失败: ");
                s.append(d.as_str());
                s
            },
            AppError::DownloadCancelled => String::from_str("下载被取消"),
            AppError::ValidationError(d) => {
                let mut s = String::from_str("参数验证失败: ");
                s.append(d.as_str());
                s
            },
            AppError::Generic(d) => {
                let mut s = String::from_str("应用程序错误: ");
                s.append(d.as_str());
                s
            },
        }
    }
}

impl vstd::std_specs::convert::FromSpecImpl<AppError> for String {
    open spec fn obeys_from_spec() -> bool {
        false
    }

    open spec fn from_spec(e: AppError) -> String {
        arbitrary()
    }
}

impl From<AppError> for String {
    fn from(e: AppError) -> (r: String)
        ensures
            r@ == e.message_spec(),
    {
        e.message()
    }
}

pub type AppResult<T> = std::result::Result<T, AppError>;

/// What a menu click asks the application to do.
#[derive(Clone, Copy, Debug, PartialEq, Eq, Structural)]
pub enum MenuAction {
    ShowAbout,
    Quit,
    NoAction,
}

/// Decide what a menu event identifier asks for: the about dialog, quitting,
/// or nothing.
pub fn menu_action(event_id: &str) -> (r: MenuAction)
    ensures
        r == (if event_id@ == "about"@ || event_id@ == "About"@ || event_id@ == "tray:about"@
            || event_id@ == "macos:about"@ {
            MenuAction::ShowAbout
        } else if event_id@ == "quit"@ || event_id@ == "Quit"@ || event_id@ == "tray:quit"@ {
            MenuAction::Quit
        } else {
            MenuAction::NoAction
        }),
{
    if crate::strutil::str_eq(event_id, "about") || crate::strutil::str_eq(event_id, "About")
        || crate::strutil::str_eq(event_id, "tray:about") || crate::strutil::str_eq(
        event_id,
        "macos:about",
    ) {
        MenuAction::ShowAbout
    } else if crate::strutil::str_eq(event_id, "quit") || crate::strutil::str_eq(event_id, "Quit")
        || crate::strutil::str_eq(event_id, "tray:quit") {
        MenuAction::Quit
    } else {
        MenuAction::NoAction
    }
}

} // verus!
