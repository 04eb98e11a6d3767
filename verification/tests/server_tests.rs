use host42::server::{LogKind, LogLine, Server, ServerStatus, Timestamp};
use host42::monitor::format_uptime;
use host42::config::{self, AppConfig, Theme};

#[test]
fn status_css_and_labels() {
    assert_eq!(ServerStatus::Stopped.css_class(), "stopped");
    assert_eq!(ServerStatus::Starting.css_class(), "starting");
    assert_eq!(ServerStatus::Running.css_class(), "running");
    assert_eq!(ServerStatus::Crashed.css_class(), "crashed");
    assert_eq!(ServerStatus::Stopped.label(), "Остановлен");
    assert_eq!(ServerStatus::Crashed.label(), "Аварийно завершён");
}

#[test]
fn active_statuses() {
    assert!(ServerStatus::Running.is_active());
    assert!(ServerStatus::Starting.is_active());
    assert!(!ServerStatus::Stopped.is_active());
    assert!(!ServerStatus::Crashed.is_active());
}

#[test]
fn classify_log_lines() {
    assert_eq!(LogKind::classify("[12:00:00] [Server thread/ERROR]: boom"), LogKind::Error);
    assert_eq!(LogKind::classify("java.lang.NullPointerException"), LogKind::Error);
    assert_eq!(LogKind::classify("severe problem"), LogKind::Error);
    assert_eq!(LogKind::classify("[Server thread/WARN]: careful"), LogKind::Warn);
    assert_eq!(LogKind::classify("a warning in lower case"), LogKind::Warn);
    assert_eq!(LogKind::classify("[Server thread/INFO]: <Steve> hello"), LogKind::Chat);
    assert_eq!(LogKind::classify("[Server thread/INFO]: Done (3.2s)!"), LogKind::Info);
    assert_eq!(LogKind::classify("only < here"), LogKind::Info);
    assert_eq!(LogKind::classify(""), LogKind::Info);
}

#[test]
fn classify_given_upper_case() {
    // The upper-cased text decides errors and warnings; chat goes by the line itself.
    assert_eq!(LogKind::classify_with_upper("x", "ERROR"), LogKind::Error);
    assert_eq!(LogKind::classify_with_upper("<a>", "WARN"), LogKind::Warn);
    assert_eq!(LogKind::classify_with_upper("<a>", "<A>"), LogKind::Chat);
    assert_eq!(LogKind::classify_with_upper("error", "x"), LogKind::Info);
}

#[test]
fn log_kind_css() {
    assert_eq!(LogKind::Error.css_class(), Some("log-error"));
    assert_eq!(LogKind::Warn.css_class(), Some("log-warn"));
    assert_eq!(LogKind::Chat.css_class(), Some("log-chat"));
    assert_eq!(LogKind::Info.css_class(), None);
}

#[test]
fn log_line_is_classified() {
    let l = LogLine::new("[Server thread/WARN]: x".to_string());
    assert_eq!(l.text, "[Server thread/WARN]: x");
    assert_eq!(l.kind, LogKind::Warn);
}

#[test]
fn new_server_defaults() {
    let s = Server::new("Survival".into(), "/srv/mc".into(), "/srv/mc/server.jar".into());
    assert_eq!(s.id.len(), 36);
    assert_eq!(&s.id[8..9], "-");
    assert_eq!(&s.id[14..15], "4");
    assert_eq!(s.name, "Survival");
    assert_eq!(s.jvm_args, vec!["-Xmx2G".to_string(), "-Xms1G".to_string()]);
    assert_eq!(s.java_path, "java");
    assert!(!s.auto_restart);
    assert!(s.avatar_path.is_none());
    assert!(s.created_at.secs > 1_600_000_000);
    assert!(s.created_at.nanos < 2_000_000_000);
    let t = Server::new("Other".into(), "/srv/mc".into(), "server.jar".into());
    assert_ne!(s.id, t.id);
}

#[test]
fn server_with_given_identity() {
    let id = "123e4567-e89b-42d3-a456-426614174000".to_string();
    let at = Timestamp { secs: -5, nanos: 1_500_000_000 };
    let s = Server::with_identity(id.clone(), at, "Old".into(), "/srv/old".into(), "a.jar".into());
    assert_eq!(s.id, id);
    assert_eq!(s.created_at, at);
    assert_eq!(s.name, "Old");
    assert_eq!(s.path, "/srv/old");
    assert_eq!(s.jar_file, "a.jar");
    assert_eq!(s.jvm_args, vec!["-Xmx2G".to_string(), "-Xms1G".to_string()]);
    assert_eq!(s.java_path, "java");
    assert!(!s.auto_restart);
    assert!(s.avatar_path.is_none());
}

#[test]
fn server_paths() {
    let s = Server::new("a".into(), "/srv/mc".into(), "server.jar".into());
    assert_eq!(s.plugins_dir(), "/srv/mc/plugins");
    assert_eq!(s.properties_file(), "/srv/mc/server.properties");
    assert_eq!(s.eula_file(), "/srv/mc/eula.txt");
    assert_eq!(s.latest_log(), "/srv/mc/logs/latest.log");
}

#[test]
fn server_initials() {
    let mut s = Server::new("survival".into(), "/x".into(), "a.jar".into());
    assert_eq!(s.initials(), "S");
    s.name = "ёлка".into();
    assert_eq!(s.initials(), "Ё");
    s.name = "ßeta".into();
    assert_eq!(s.initials(), "SS");
    s.name = String::new();
    assert_eq!(s.initials(), "");
}

#[test]
fn uptime_format() {
    assert_eq!(format_uptime(0), "00:00:00");
    assert_eq!(format_uptime(59), "00:00:59");
    assert_eq!(format_uptime(3661), "01:01:01");
    assert_eq!(format_uptime(86399), "23:59:59");
    assert_eq!(format_uptime(360000), "100:00:00");
}

#[test]
fn config_defaults() {
    let c = AppConfig::defaults(false);
    assert_eq!(c.theme, Theme::System);
    assert_eq!(c.font_family, None);
    assert_eq!(c.console_font_size, 12);
    assert_eq!(c.terminal, "kitty");
    assert_eq!(c.editor, "nvim");
    assert_eq!(c.file_manager, "xdg-open");
    assert_eq!(c.java_path, "java");
    assert!(!c.auto_restart);
    assert_eq!(c.restart_delay_secs, 5);
    assert_eq!(c.console_buffer_max, 10000);
    assert_eq!(c.default_server_dir, None);
    assert_eq!(Theme::default(), Theme::System);
    assert_eq!(config::default_console_font_size(), 12);
    assert_eq!(config::default_restart_delay(), 5);
    assert_eq!(config::default_console_buffer(), 10000);
    assert_eq!(config::default_terminal(false), "kitty");
    assert_eq!(config::default_editor(false), "nvim");
    assert_eq!(config::default_file_manager(false), "xdg-open");
    assert_eq!(config::default_java(), "java");
}

#[test]
fn config_defaults_on_windows() {
    let c = AppConfig::defaults(true);
    assert_eq!(c.terminal, "cmd.exe");
    assert_eq!(c.editor, "notepad.exe");
    assert_eq!(c.file_manager, "explorer.exe");
    assert_eq!(c.java_path, "java");
    assert_eq!(c.console_font_size, 12);
    assert_eq!(c.restart_delay_secs, 5);
    assert_eq!(c.console_buffer_max, 10000);
    assert_eq!(config::default_terminal(true), "cmd.exe");
    assert_eq!(config::default_editor(true), "notepad.exe");
    assert_eq!(config::default_file_manager(true), "explorer.exe");
}

#[test]
fn config_locations() {
    assert_eq!(config::config_dir(Some("/home/u/.config".into())), "/home/u/.config/42host");
    assert_eq!(config::config_dir(None), "./42host");
    assert_eq!(config::cache_logs_dir(Some("/home/u/.cache".into())), "/home/u/.cache/42host/logs");
    assert_eq!(config::servers_file("/c/42host"), "/c/42host/servers.json");
    assert_eq!(config::settings_file("/c/42host"), "/c/42host/settings.json");
}

#[test]
fn theme_indices() {
    for t in [Theme::System, Theme::Light, Theme::Dark] {
        assert_eq!(config::theme_from_index(config::theme_index(t)), t);
    }
    assert_eq!(config::theme_index(Theme::Dark), 2);
    assert_eq!(config::theme_from_index(7), Theme::System);
}

#[test]
fn style_sheets() {
    assert_eq!(config::font_css(&Some("Inter".into())), Some("* { font-family: \"Inter\"; }".to_string()));
    assert_eq!(config::font_css(&Some("   ".into())), None);
    assert_eq!(config::font_css(&None), None);
    assert_eq!(config::console_font_css(12), "textview { font-size: 12pt; }");
}
