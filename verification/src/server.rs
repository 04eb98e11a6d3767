//! The server model: status, console lines and the persistent server record.

use vstd::prelude::*;
use crate::paths;
use crate::text;

verus! {

/// Lifecycle state of a server process.
#[derive(Clone, Copy, Debug, PartialEq, Eq, Structural)]
pub enum ServerStatus {
    Stopped,
    Starting,
    Running,
    Crashed,
}

impl ServerStatus {
    /// Whether the status counts as a live process (starting or running).
    pub open spec fn active(self) -> bool {
        self == ServerStatus::Running || self == ServerStatus::Starting
    }

    /// Style class of the status indicator.
    pub fn css_class(self) -> (r: &'static str)
        ensures
            r@ == match self {
                ServerStatus::Stopped => "stopped"@,
                ServerStatus::Starting => "starting"@,
                ServerStatus::Running => "running"@,
                ServerStatus::Crashed => "crashed"@,
            },
    {
        match self {
            ServerStatus::Stopped => "stopped",
            ServerStatus::Starting => "starting",
            ServerStatus::Running => "running",
            ServerStatus::Crashed => "crashed",
        }
    }

    /// Label shown to the user.
    pub fn label(self) -> (r: &'static str)
        ensures
            r@ == match self {
                ServerStatus::Stopped => "Остановлен"@,
                ServerStatus::Starting => "Запускается"@,
                ServerStatus::Running => "Работает"@,
                ServerStatus::Crashed => "Аварийно завершён"@,
            },
    {
        match self {
            ServerStatus::Stopped => "Остановлен",
            ServerStatus::Starting => "Запускается",
            ServerStatus::Running => "Работает",
            ServerStatus::Crashed => "Аварийно завершён",
        }
    }

    /// Whether the server is starting or running.
    pub fn is_active(self) -> (r: bool)
        ensures
            r == self.active(),
    {
        match self {
            ServerStatus::Running | ServerStatus::Starting => true,
            _ => false,
        }
    }
}

/// Colour class of a console line.
#[derive(Clone, Copy, Debug, PartialEq, Eq, Structural)]
pub enum LogKind {
    Info,
    Warn,
    Error,
    Chat,
}

/// The kind of a log `line` whose Unicode upper case is `upper`: errors first
/// (`ERROR`, `SEVERE`, `EXCEPTION`), then warnings (`WARN`), then chat (both `<` and `>`).
pub open spec fn classify_spec(line: Seq<char>, upper: Seq<char>) -> LogKind {
    if text::contains_spec(upper, "ERROR"@) || text::contains_spec(upper, "SEVERE"@)
        || text::contains_spec(upper, "EXCEPTION"@) {
        LogKind::Error
    } else if text::contains_spec(upper, "WARN"@) {
        LogKind::Warn
    } else if text::contains_spec(line, "<"@) && text::contains_spec(line, ">"@) {
        LogKind::Chat
    } else {
        LogKind::Info
    }
}

/// A line whose upper case names an error (`ERROR`, `SEVERE` or `EXCEPTION`) is an error,
/// whatever else it holds (a warning, chat brackets).
pub proof fn law_errors_win(line: Seq<char>, upper: Seq<char>)
    requires
        text::contains_spec(upper, "ERROR"@) || text::contains_spec(upper, "SEVERE"@)
            || text::contains_spec(upper, "EXCEPTION"@),
    ensures
        classify_spec(line, upper) == LogKind::Error,
{
}

/// A line whose upper case names a warning and no error is a warning, chat brackets or not.
pub proof fn law_warnings_before_chat(line: Seq<char>, upper: Seq<char>)
    requires
        !text::contains_spec(upper, "ERROR"@),
        !text::contains_spec(upper, "SEVERE"@),
        !text::contains_spec(upper, "EXCEPTION"@),
        text::contains_spec(upper, "WARN"@),
    ensures
        classify_spec(line, upper) == LogKind::Warn,
{
}

/// Without error or warning words, a line with both `<` and `>` is chat and any other line is
/// plain information.
pub proof fn law_chat_or_info(line: Seq<char>, upper: Seq<char>)
    requires
        !text::contains_spec(upper, "ERROR"@),
        !text::contains_spec(upper, "SEVERE"@),
        !text::contains_spec(upper, "EXCEPTION"@),
        !text::contains_spec(upper, "WARN"@),
    ensures
        classify_spec(line, upper) == (if text::contains_spec(line, "<"@) && text::contains_spec(line, ">"@) {
            LogKind::Chat
        } else {
            LogKind::Info
        }),
{
}

impl LogKind {
    /// Classifies a Minecraft log line by its content.
    pub fn classify(line: &str) -> (r: LogKind)
        ensures
            r == classify_spec(line@, text::unicode_upper(line@)),
    {
        let upper = text::to_uppercase(line);
        LogKind::classify_with_upper(line, upper.as_str())
    }

    /// Classifies `line`, given its Unicode upper case `upper`.
    pub fn classify_with_upper(line: &str, upper: &str) -> (r: LogKind)
        ensures
            r == classify_spec(line@, upper@),
    {
        if text::contains(upper, "ERROR") || text::contains(upper, "SEVERE") || text::contains(upper, "EXCEPTION") {
            LogKind::Error
        } else if text::contains(upper, "WARN") {
            LogKind::Warn
        } else if text::contains(line, "<") && text::contains(line, ">") {
            LogKind::Chat
        } else {
            LogKind::Info
        }
    }

    /// Style class that colours a console line of this kind (none for plain information).
    pub fn css_class(self) -> (r: Option<&'static str>)
        ensures
            match self {
                LogKind::Error => r matches Some(c) && c@ == "log-error"@,
                LogKind::Warn => r matches Some(c) && c@ == "log-warn"@,
                LogKind::Chat => r matches Some(c) && c@ == "log-chat"@,
                LogKind::Info => r is None,
            },
    {
        match self {
            LogKind::Error => Some("log-error"),
            LogKind::Warn => Some("log-warn"),
            LogKind::Chat => Some("log-chat"),
            LogKind::Info => None,
        }
    }
}

/// One line of server output with its classification.
#[derive(Clone, Debug)]
pub struct LogLine {
    pub text: String,
    pub kind: LogKind,
}

impl LogLine {
    /// A console line, classified by its text.
    pub fn new(text: String) -> (r: LogLine)
        ensures
            r.text@ == text@,
            r.kind == classify_spec(text@, text::unicode_upper(text@)),
    {
        let kind = LogKind::classify(text.as_str());
        LogLine { text, kind }
    }
}

/// A version 4 UUID in hyphenated text: 36 characters, `-` at positions 8, 13, 18 and 23,
/// lower-case hexadecimal digits elsewhere, and the version digit `4` at position 14.
pub open spec fn uuid_v4_text(s: Seq<char>) -> bool {
    &&& s.len() == 36
    &&& forall|i: int|
        0 <= i < 36 ==> if i == 8 || i == 13 || i == 18 || i == 23 {
            #[trigger] s[i] == '-'
        } else {
            ('0' <= s[i] <= '9') || ('a' <= s[i] <= 'f')
        }
    &&& s[14] == '4'
}

/// `uuid::Uuid::new_v4().to_string()`: a version 4 UUID in hyphenated lower-case text
/// (`uuid_v4_text`). Which random digits come is not stated.
#[verifier::external_body]
fn new_server_id() -> (r: String)
    ensures
        uuid_v4_text(r@),
{
    uuid::Uuid::new_v4().to_string()
}

/// A moment in UTC as chrono keeps it: whole seconds since the Unix epoch (negative before
/// 1970) and the nanoseconds past that second (from one billion up during a leap second).
#[derive(Clone, Copy, Debug, PartialEq, Eq, Structural)]
pub struct Timestamp {
    pub secs: i64,
    pub nanos: u32,
}

/// The current time, read as `chrono::DateTime::<chrono::Utc>::from(std::time::SystemTime::now())`
/// (which also accepts a clock set before 1970) and taken apart by `timestamp` and
/// `timestamp_subsec_nanos`; chrono documents the nanoseconds as below two billion. Which
/// moment it reports is not stated.
#[verifier::external_body]
fn now_utc() -> (r: Timestamp)
    ensures
        r.nanos < 2_000_000_000,
{
    let t = chrono::DateTime::<chrono::Utc>::from(std::time::SystemTime::now());
    Timestamp { secs: t.timestamp(), nanos: t.timestamp_subsec_nanos() }
}

/// JVM options of a new server.
pub fn default_jvm_args() -> (r: Vec<String>)
    ensures
        r@.len() == 2,
        r@[0]@ == "-Xmx2G"@,
        r@[1]@ == "-Xms1G"@,
{
    let mut v: Vec<String> = Vec::new();
    v.push("-Xmx2G".to_string());
    v.push("-Xms1G".to_string());
    v
}

/// Java executable of a new server.
pub fn default_java_path() -> (r: String)
    ensures
        r@ == "java"@,
{
    "java".to_string()
}

/// A server registered with the application (stored in `servers.json`).
#[derive(Clone, Debug)]
pub struct Server {
    pub id: String,
    pub name: String,
    pub path: String,
    pub jar_file: String,
    pub avatar_path: Option<String>,
    pub jvm_args: Vec<String>,
    pub java_path: String,
    pub auto_restart: bool,
    /// Creation time (UTC).
    pub created_at: Timestamp,
}

impl Server {
    /// The record of a new server with identifier `id`, created at `created_at`, and default
    /// launch settings.
    pub fn with_identity(id: String, created_at: Timestamp, name: String, path: String, jar_file: String) -> (r: Server)
        ensures
            r.id@ == id@,
            r.created_at == created_at,
            r.name@ == name@,
            r.path@ == path@,
            r.jar_file@ == jar_file@,
            r.avatar_path is None,
            r.jvm_args@.len() == 2,
            r.jvm_args@[0]@ == "-Xmx2G"@,
            r.jvm_args@[1]@ == "-Xms1G"@,
            r.java_path@ == "java"@,
            !r.auto_restart,
    {
        Server {
            id,
            name,
            path,
            jar_file,
            avatar_path: None,
            jvm_args: default_jvm_args(),
            java_path: default_java_path(),
            auto_restart: false,
            created_at,
        }
    }

    /// A new server record with a fresh random identifier, the current time as its creation
    /// time (nanoseconds below two billion), and default launch settings. The identifier is
    /// a version 4 UUID in hyphenated lower-case text; which random digits it holds, and
    /// which moment the clock reports, are not stated.
    pub fn new(name: String, path: String, jar_file: String) -> (r: Server)
        ensures
            uuid_v4_text(r.id@),
            r.created_at.nanos < 2_000_000_000,
            r.name@ == name@,
            r.path@ == path@,
            r.jar_file@ == jar_file@,
            r.avatar_path is None,
            r.jvm_args@.len() == 2,
            r.jvm_args@[0]@ == "-Xmx2G"@,
            r.jvm_args@[1]@ == "-Xms1G"@,
            r.java_path@ == "java"@,
            !r.auto_restart,
    {
        let id = new_server_id();
        let created_at = now_utc();
        Server::with_identity(id, created_at, name, path, jar_file)
    }

    /// The server's plugin directory.
    pub fn plugins_dir(&self) -> (r: String)
        ensures
            r@ == paths::joined(self.path@, "plugins"@),
    {
        paths::join(self.path.as_str(), "plugins")
    }

    /// The server's `server.properties` file.
    pub fn properties_file(&self) -> (r: String)
        ensures
            r@ == paths::joined(self.path@, "server.properties"@),
    {
        paths::join(self.path.as_str(), "server.properties")
    }

    /// The server's `eula.txt` file.
    pub fn eula_file(&self) -> (r: String)
        ensures
            r@ == paths::joined(self.path@, "eula.txt"@),
    {
        paths::join(self.path.as_str(), "eula.txt")
    }

    /// The server's current log file, `logs/latest.log`.
    pub fn latest_log(&self) -> (r: String)
        ensures
            r@ == paths::joined(paths::joined(self.path@, "logs"@), "latest.log"@),
    {
        let logs = paths::join(self.path.as_str(), "logs");
        paths::join(logs.as_str(), "latest.log")
    }

    /// The avatar text when there is no picture: the upper case of the name's first character,
    /// or nothing for an empty name.
    pub fn initials(&self) -> (r: String)
        ensures
            r@ == (if self.name@.len() == 0 {
                Seq::<char>::empty()
            } else {
                text::unicode_upper(seq![self.name@[0]])
            }),
    {
        let chars = text::chars_of(self.name.as_str());
        if chars.len() == 0 {
            return text::string_of(&chars);
        }
        let first = text::slice_chars(&chars, 0, 1);
        assert(first@ =~= seq![self.name@[0]]);
        let s = text::string_of(&first);
        text::to_uppercase(s.as_str())
    }
}

} // verus!
