//! Application settings, their defaults, and where they are stored.

use vstd::prelude::*;
use crate::paths;
use crate::text;

verus! {

/// Colour scheme of the application.
#[derive(Clone, Copy, Debug, PartialEq, Eq, Structural)]
pub enum Theme {
    System,
    Light,
    Dark,
}

impl Default for Theme {
    fn default() -> (r: Self)
        ensures
            r == Theme::System,
    {
        Theme::System
    }
}

/// Position of a theme in the settings' theme list (system, light, dark).
pub open spec fn theme_index_spec(theme: Theme) -> u32 {
    match theme {
        Theme::System => 0,
        Theme::Light => 1,
        Theme::Dark => 2,
    }
}

/// Position of `theme` in the settings' theme list.
pub fn theme_index(theme: Theme) -> (r: u32)
    ensures
        r == theme_index_spec(theme),
{
    match theme {
        Theme::System => 0,
        Theme::Light => 1,
        Theme::Dark => 2,
    }
}

/// The theme at position `index` of the settings' list; any other position is the system theme.
pub fn theme_from_index(index: u32) -> (r: Theme)
    ensures
        r == (if index == 1 { Theme::Light } else if index == 2 { Theme::Dark } else { Theme::System }),
{
    if index == 1 {
        Theme::Light
    } else if index == 2 {
        Theme::Dark
    } else {
        Theme::System
    }
}

/// Every theme has its own entry within the three-entry theme list, in the order system,
/// light, dark, so the default theme is the first entry.
pub proof fn law_theme_positions(a: Theme, b: Theme)
    ensures
        theme_index_spec(a) < 3,
        a != b ==> theme_index_spec(a) != theme_index_spec(b),
        theme_index_spec(Theme::System) == 0,
        theme_index_spec(Theme::Light) == 1,
        theme_index_spec(Theme::Dark) == 2,
{
}

/// Choosing the list entry shown for a theme gives that theme back.
pub proof fn law_theme_index_round_trip(theme: Theme)
    ensures
        (if theme_index_spec(theme) == 1 { Theme::Light } else if theme_index_spec(theme) == 2 {
            Theme::Dark
        } else {
            Theme::System
        }) == theme,
{
}

/// Global application settings (stored as `settings.json`).
#[derive(Clone, Debug)]
pub struct AppConfig {
    pub theme: Theme,
    pub font_family: Option<String>,
    pub console_font_size: u32,
    pub terminal: String,
    pub editor: String,
    pub file_manager: String,
    pub java_path: String,
    pub auto_restart: bool,
    pub restart_delay_secs: u32,
    pub console_buffer_max: usize,
    pub default_server_dir: Option<String>,
}

/// Console font size in points unless configured.
pub fn default_console_font_size() -> (r: u32)
    ensures
        r == 12,
{
    12
}

/// Terminal program unless configured: `cmd.exe` on Windows, `kitty` elsewhere.
pub fn default_terminal(windows: bool) -> (r: String)
    ensures
        r@ == (if windows { "cmd.exe"@ } else { "kitty"@ }),
{
    if windows {
        "cmd.exe".to_string()
    } else {
        "kitty".to_string()
    }
}

/// Editor program unless configured: `notepad.exe` on Windows, `nvim` elsewhere.
pub fn default_editor(windows: bool) -> (r: String)
    ensures
        r@ == (if windows { "notepad.exe"@ } else { "nvim"@ }),
{
    if windows {
        "notepad.exe".to_string()
    } else {
        "nvim".to_string()
    }
}

/// File manager program unless configured: `explorer.exe` on Windows, `xdg-open` elsewhere.
pub fn default_file_manager(windows: bool) -> (r: String)
    ensures
        r@ == (if windows { "explorer.exe"@ } else { "xdg-open"@ }),
{
    if windows {
        "explorer.exe".to_string()
    } else {
        "xdg-open".to_string()
    }
}

/// Java executable unless configured.
pub fn default_java() -> (r: String)
    ensures
        r@ == "java"@,
{
    "java".to_string()
}

/// Seconds to wait before restarting a crashed server, unless configured.
pub fn default_restart_delay() -> (r: u32)
    ensures
        r == 5,
{
    5
}

/// Lines kept in a server's console buffer, unless configured.
pub fn default_console_buffer() -> (r: usize)
    ensures
        r == 10000,
{
    10000
}

impl AppConfig {
    /// The settings that hold before the user changes any, on Windows when `windows` holds
    /// and on other systems otherwise.
    pub open spec fn is_default_for(&self, windows: bool) -> bool {
        &&& self.theme == Theme::System
        &&& self.font_family is None
        &&& self.console_font_size == 12
        &&& self.terminal@ == (if windows { "cmd.exe"@ } else { "kitty"@ })
        &&& self.editor@ == (if windows { "notepad.exe"@ } else { "nvim"@ })
        &&& self.file_manager@ == (if windows { "explorer.exe"@ } else { "xdg-open"@ })
        &&& self.java_path@ == "java"@
        &&& !self.auto_restart
        &&& self.restart_delay_secs == 5
        &&& self.console_buffer_max == 10000
        &&& self.default_server_dir is None
    }

    /// The default settings of the platform: Windows when `windows` holds, another system
    /// otherwise.
    pub fn defaults(windows: bool) -> (r: Self)
        ensures
            r.is_default_for(windows),
    {
        AppConfig {
            theme: Theme::System,
            font_family: None,
            console_font_size: default_console_font_size(),
            terminal: default_terminal(windows),
            editor: default_editor(windows),
            file_manager: default_file_manager(windows),
            java_path: default_java(),
            auto_restart: false,
            restart_delay_secs: default_restart_delay(),
            console_buffer_max: default_console_buffer(),
            default_server_dir: None,
        }
    }
}

/// The application's configuration directory under the platform configuration directory
/// `base` (the current directory where there is none).
pub fn config_dir(base: Option<String>) -> (r: String)
    ensures
        r@ == paths::joined(
            match base {
                Some(b) => b@,
                None => "."@,
            },
            "42host"@,
        ),
{
    match base {
        Some(b) => paths::join(b.as_str(), "42host"),
        None => paths::join(".", "42host"),
    }
}

/// Where logs are kept under the platform cache directory `base` (the current directory
/// where there is none).
pub fn cache_logs_dir(base: Option<String>) -> (r: String)
    ensures
        r@ == paths::joined(
            paths::joined(
                match base {
                    Some(b) => b@,
                    None => "."@,
                },
                "42host"@,
            ),
            "logs"@,
        ),
{
    let app = match base {
        Some(b) => paths::join(b.as_str(), "42host"),
        None => paths::join(".", "42host"),
    };
    paths::join(app.as_str(), "logs")
}

/// The server list file in the configuration directory `config_dir`.
pub fn servers_file(config_dir: &str) -> (r: String)
    ensures
        r@ == paths::joined(config_dir@, "servers.json"@),
{
    paths::join(config_dir, "servers.json")
}

/// The settings file in the configuration directory `config_dir`.
pub fn settings_file(config_dir: &str) -> (r: String)
    ensures
        r@ == paths::joined(config_dir@, "settings.json"@),
{
    paths::join(config_dir, "settings.json")
}

/// The style sheet that sets the application font, where a non-blank family is configured.
pub open spec fn font_css_spec(font_family: Option<Seq<char>>) -> Option<Seq<char>> {
    match font_family {
        Some(f) => if text::trim_spec(f).len() > 0 {
            Some("* { font-family: \""@ + f + "\"; }"@)
        } else {
            None
        },
        None => None,
    }
}

/// The style sheet for the configured application font, if any.
pub fn font_css(font_family: &Option<String>) -> (r: Option<String>)
    ensures
        match r {
            Some(css) => font_css_spec(
                match font_family {
                    Some(f) => Some(f@),
                    None => None,
                },
            ) == Some(css@),
            None => font_css_spec(
                match font_family {
                    Some(f) => Some(f@),
                    None => None,
                },
            ) is None,
        },
{
    match font_family {
        Some(f) => {
            let chars = text::chars_of(f.as_str());
            let trimmed = text::trim(&chars);
            if trimmed.len() == 0 {
                return None;
            }
            let mut out: Vec<char> = Vec::new();
            text::push_str(&mut out, "* { font-family: \"");
            text::push_chars(&mut out, &chars);
            text::push_str(&mut out, "\"; }");
            Some(text::string_of(&out))
        },
        None => None,
    }
}

/// The style sheet that sets the console's font size in points.
pub fn console_font_css(size: u32) -> (r: String)
    ensures
        r@ == "textview { font-size: "@ + text::decimal_spec(size as nat) + "pt; }"@,
{
    let mut out: Vec<char> = Vec::new();
    text::push_str(&mut out, "textview { font-size: ");
    let digits = text::decimal(size as u64);
    text::push_chars(&mut out, &digits);
    text::push_str(&mut out, "pt; }");
    text::string_of(&out)
}

} // verus!
