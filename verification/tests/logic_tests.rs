use host42::config::AppConfig;
use host42::console::{should_send, CommandHistory};
use host42::external;
use host42::manager::{self, EulaDecision, JavaCandidate, ServerEvent};
use host42::players;
use host42::plugins;
use host42::properties::{self, ControlKind, PropLine};
use host42::server::{LogLine, Server, ServerStatus};
use host42::state::{AppState, Runtime};

fn c(s: &str) -> Vec<char> {
    s.chars().collect()
}

#[test]
fn extract_player_names() {
    let n = players::extract_name(&c("[12:00:01] [Server thread/INFO]: Steve joined the game"), " joined the game");
    assert_eq!(n.map(|v| v.into_iter().collect::<String>()), Some("Steve".to_string()));
    let n = players::extract_name(&c("[12:00:01] [Server thread/INFO]: Alex left the game"), " left the game");
    assert_eq!(n.map(|v| v.into_iter().collect::<String>()), Some("Alex".to_string()));
    assert!(players::extract_name(&c("[12:00:01] [Server thread/INFO]: [Bot] joined the game"), " joined the game").is_none());
    assert!(players::extract_name(&c("[12:00:01] [Server thread/INFO]:  joined the game"), " joined the game").is_none());
    assert!(players::extract_name(&c("nothing here"), " joined the game").is_none());
}

#[test]
fn online_from_log() {
    let log = "[10:00:00] [Server thread/INFO]: Steve joined the game\n\
               [10:00:01] [Server thread/INFO]: Alex joined the game\n\
               [10:00:02] [Server thread/INFO]: Steve left the game\n\
               [10:00:03] [Server thread/INFO]: Zed joined the game\n";
    assert_eq!(players::parse_online(log), vec!["Alex".to_string(), "Zed".to_string()]);
}

#[test]
fn list_reply_replaces_set() {
    let log = "[10:00:00] [Server thread/INFO]: Steve joined the game\n\
               [10:00:05] [Server thread/INFO]: There are 2 of a max of 20 players online: Bob, Alice.\n\
               [10:00:06] [Server thread/INFO]: Carol joined the game\n\
               [10:00:07] [Server thread/INFO]: Bob left the game";
    assert_eq!(players::parse_online(log), vec!["Alice".to_string(), "Carol".to_string()]);
    let empty = "[10:00:05] [Server thread/INFO]: There are 0 of a max of 20 players online: ";
    assert!(players::parse_online(empty).is_empty());
    assert!(players::parse_online("").is_empty());
}

#[test]
fn player_search() {
    assert!(players::player_matches("Steve", ""));
    assert!(players::player_matches("Steve", "TEV"));
    assert!(!players::player_matches("Steve", "alex"));
    assert!(players::lowered_matches("steve", "st"));
    assert!(!players::lowered_matches("steve", "xy"));
}

#[test]
fn plugin_names() {
    assert_eq!(plugins::display_name("Essentials.jar.disabled"), "Essentials.jar");
    assert_eq!(plugins::display_name("Essentials.jar"), "Essentials.jar");
    assert!(plugins::is_disabled("a.jar.disabled"));
    assert!(!plugins::is_disabled("a.jar"));
    assert_eq!(plugins::config_folder_name("Nullsleep.jar"), "nullsleep");
    assert_eq!(plugins::config_folder_name("WorldEdit.jar.disabled"), "worldedit");
    assert!(plugins::is_plugin_file("x.jar"));
    assert!(plugins::is_plugin_file("x.jar.disabled"));
    assert!(!plugins::is_plugin_file("x.txt"));
    assert!(!plugins::is_plugin_file("config"));
}

#[test]
fn plugin_listing_sorted() {
    let names = vec!["b.jar".to_string(), "config".to_string(), "A.jar.disabled".to_string(), "a.jar".to_string(), "b.txt".to_string()];
    assert_eq!(plugins::plugin_files(names), vec!["A.jar.disabled".to_string(), "a.jar".to_string(), "b.jar".to_string()]);
}

#[test]
fn plugin_toggle_paths() {
    assert_eq!(plugins::toggled_path("/p/a.jar", false), "/p/a.jar.disabled");
    assert_eq!(plugins::toggled_path("/p/a.jar.disabled", false), "/p/a.jar.disabled");
    assert_eq!(plugins::toggled_path("/p/a.jar.disabled", true), "/p/a.jar");
    assert_eq!(plugins::toggled_path(&plugins::toggled_path("/p/a.jar", false), true), "/p/a.jar");
}

#[test]
fn plugin_import_names() {
    assert_eq!(plugins::import_name("Essentials", 0), "Essentials.jar");
    assert_eq!(plugins::import_name("Essentials", 3), "Essentials_3.jar");
    assert_eq!(plugins::import_stem("/home/u/Downloads/Essentials.jar"), Some("Essentials".to_string()));
    assert_eq!(plugins::import_stem("/home/u/readme.txt"), None);
    assert_eq!(plugins::import_stem("/home/u/noext"), None);
}

#[test]
fn properties_round_trip() {
    let content = "#Minecraft server properties\n\
                   difficulty=easy\n\
                   \n\
                   motd=A=B server\n\
                   garbage line\n\
                   white-list = false\n";
    let lines = properties::parse(content);
    assert_eq!(lines.len(), 6);
    assert!(matches!(&lines[0], PropLine::Raw(s) if s == "#Minecraft server properties"));
    assert!(matches!(&lines[1], PropLine::Pair(k, v) if k == "difficulty" && v == "easy"));
    assert!(matches!(&lines[2], PropLine::Raw(s) if s.is_empty()));
    assert!(matches!(&lines[3], PropLine::Pair(k, v) if k == "motd" && v == "A=B server"));
    assert!(matches!(&lines[4], PropLine::Raw(s) if s == "garbage line"));
    assert!(matches!(&lines[5], PropLine::Pair(k, v) if k == "white-list" && v == " false"));
    let edits = vec![("difficulty".to_string(), "hard".to_string())];
    let out = properties::render(&lines, &edits);
    assert_eq!(out, "#Minecraft server properties\ndifficulty=hard\n\nmotd=A=B server\ngarbage line\nwhite-list= false\n");
    let unchanged = properties::render(&lines, &Vec::new());
    assert_eq!(unchanged, "#Minecraft server properties\ndifficulty=easy\n\nmotd=A=B server\ngarbage line\nwhite-list= false\n");
}

#[test]
fn property_controls() {
    let diff = properties::difficulty_options();
    assert_eq!(properties::normalize("2", &diff), "normal");
    assert_eq!(properties::normalize(" hard ", &diff), "hard");
    assert_eq!(properties::normalize("9", &diff), "9");
    assert_eq!(properties::choice_index("1", &diff), Some(1));
    assert_eq!(properties::choice_index("weird", &diff), None);
    match properties::control_kind("gamemode", "3") {
        ControlKind::Choice(opts, sel) => {
            assert_eq!(opts[3], "spectator");
            assert_eq!(sel, Some(3));
        }
        _ => panic!("expected a choice"),
    }
    assert!(matches!(properties::control_kind("pvp", "true"), ControlKind::Switch(true)));
    assert!(matches!(properties::control_kind("pvp", "false"), ControlKind::Switch(false)));
    assert!(matches!(properties::control_kind("motd", "hello"), ControlKind::Entry));
    assert_eq!(properties::choice_value(&diff, 3), "hard");
    assert_eq!(properties::choice_value(&diff, 9), "");
    assert_eq!(properties::switch_value(true), "true");
}

#[test]
fn live_settings() {
    assert!(properties::is_live_key("difficulty"));
    assert!(properties::is_live_key("white-list"));
    assert!(!properties::is_live_key("motd"));
    assert_eq!(properties::live_command("difficulty", "hard"), Some("difficulty hard".to_string()));
    assert_eq!(properties::live_command("white-list", "true"), Some("whitelist on".to_string()));
    assert_eq!(properties::live_command("white-list", "false"), Some("whitelist off".to_string()));
    assert_eq!(properties::live_command("motd", "x"), None);
}

#[test]
fn eula_rules() {
    assert!(manager::eula_accepted("#By changing...\neula=true\n"));
    assert!(manager::eula_accepted("  EULA=TRUE  \r\n"));
    assert!(!manager::eula_accepted("eula=false\n"));
    assert!(!manager::eula_accepted(""));
    assert_eq!(manager::eula_decision(Some("eula=true".into()), false), EulaDecision::Accepted);
    assert_eq!(manager::eula_decision(Some("eula=false".into()), true), EulaDecision::Write);
    assert_eq!(manager::eula_decision(None, false), EulaDecision::Ask);
    assert_eq!(manager::eula_text(), "eula=true\n");
}

#[test]
fn launch_arguments() {
    let s = Server::new("a".into(), "/srv/mc".into(), "server.jar".into());
    assert_eq!(manager::jar_path(&s), "/srv/mc/server.jar");
    let mut t = s.clone();
    t.jar_file = "/opt/paper.jar".into();
    assert_eq!(manager::jar_path(&t), "/opt/paper.jar");
    let args = manager::java_command_args(&s.jvm_args, "/srv/mc/server.jar");
    assert_eq!(args, vec!["-Xmx2G", "-Xms1G", "-jar", "/srv/mc/server.jar", "nogui"]);
}

#[test]
fn java_configuration() {
    assert_eq!(manager::configured_java("  \"/usr/bin/java\" "), "/usr/bin/java");
    assert_eq!(manager::configured_java_file("/usr/bin/java", "/srv"), Some("/usr/bin/java".to_string()));
    assert_eq!(manager::configured_java_file("runtime/bin/java", "/srv"), Some("/srv/runtime/bin/java".to_string()));
    assert_eq!(manager::configured_java_file("java", "/srv"), None);
    assert_eq!(manager::configured_java_file("", "/srv"), None);
    assert!(manager::is_bare_program("java"));
    assert!(!manager::is_bare_program("bin/java"));
    assert!(manager::has_jar_extension("/srv/paper.jar"));
    assert!(!manager::has_jar_extension("/srv/paper.zip"));
    assert_eq!(manager::default_server_name("/home/u/servers/survival"), "survival");
    assert_eq!(manager::default_server_name("/"), "server");
    assert!(manager::avatar_too_large(10 * 1024 * 1024 + 1));
    assert!(!manager::avatar_too_large(10 * 1024 * 1024));
}

#[test]
fn runtime_log_buffer_is_bounded() {
    let mut rt = Runtime::default();
    for i in 0..5 {
        rt.push_log(LogLine::new(format!("line {i}")), 3);
    }
    let texts: Vec<&str> = rt.console.iter().map(|l| l.text.as_str()).collect();
    assert_eq!(texts, vec!["line 2", "line 3", "line 4"]);
    rt.push_log(LogLine::new("x".into()), 0);
    assert!(rt.console.is_empty());
}

#[test]
fn runtime_uptime() {
    let mut rt = Runtime::default();
    rt.started_at = Some(1_000);
    assert_eq!(rt.uptime_secs(10_000), 0);
    rt.status = ServerStatus::Running;
    assert_eq!(rt.uptime_secs(10_999), 9);
    assert_eq!(rt.uptime_secs(500), 0);
    assert_eq!(rt.pid(), None);
}

fn two_servers() -> (AppState, String, String) {
    let a = Server::new("A".into(), "/a".into(), "a.jar".into());
    let b = Server::new("B".into(), "/b".into(), "b.jar".into());
    let (ia, ib) = (a.id.clone(), b.id.clone());
    (AppState::new(AppConfig::defaults(false), vec![a, b]), ia, ib)
}

#[test]
fn state_lookup_and_selection() {
    let (mut st, a, b) = two_servers();
    assert_eq!(st.server(&a).unwrap().name, "A");
    assert!(st.server("missing").is_none());
    assert!(st.runtime(&b).is_some());
    assert!(st.current_server().is_none());
    assert!(!st.current_running());
    st.select(&b);
    assert_eq!(st.current_server().unwrap().name, "B");
    assert_eq!(st.selected(), Some(b.clone()));
    st.set_status(&b, ServerStatus::Running);
    assert!(st.current_running());
}

#[test]
fn process_lifecycle_events() {
    let (mut st, a, _b) = two_servers();
    st.select(&a);
    st.start_process(&a, 4242, 1_000);
    assert_eq!(st.runtime(&a).unwrap().status, ServerStatus::Starting);
    assert_eq!(st.runtime(&a).unwrap().pid(), Some(4242));
    let o = st.handle_event(&a, ServerEvent::Log(LogLine::new("Loading".into())));
    assert!(o.show_line && o.status.is_none() && !o.finished);
    let o = st.handle_event(&a, ServerEvent::Log(LogLine::new("[INFO]: Done (2.1s)! For help".into())));
    assert_eq!(o.status, Some(ServerStatus::Running));
    assert_eq!(st.runtime(&a).unwrap().status, ServerStatus::Running);
    assert_eq!(st.runtime(&a).unwrap().console.len(), 2);
    let o = st.handle_event(&a, ServerEvent::Exited(Some(0)));
    assert_eq!(o.status, Some(ServerStatus::Stopped));
    assert!(o.finished && o.refresh_controls && o.restart_after_secs.is_none());
    let rt = st.runtime(&a).unwrap();
    assert_eq!(rt.pid, None);
    assert_eq!(rt.started_at, None);
    assert_eq!(rt.console.len(), 2);
}

#[test]
fn crash_restarts_when_configured() {
    let (mut st, a, b) = two_servers();
    let o = st.handle_event(&a, ServerEvent::Exited(Some(1)));
    assert_eq!(o.status, Some(ServerStatus::Crashed));
    assert!(o.restart_after_secs.is_none());
    assert!(!o.refresh_controls);
    let mut cfg = AppConfig::defaults(false);
    cfg.auto_restart = true;
    cfg.restart_delay_secs = 0;
    st.set_config(cfg);
    let o = st.handle_event(&b, ServerEvent::Exited(Some(137)));
    assert_eq!(o.restart_after_secs, Some(1));
    let o = st.handle_event(&b, ServerEvent::Exited(None));
    assert_eq!(o.status, Some(ServerStatus::Stopped));
    assert!(o.restart_after_secs.is_none());
}

#[test]
fn console_buffer_uses_config() {
    let (mut st, a, _b) = two_servers();
    let mut cfg = AppConfig::defaults(false);
    cfg.console_buffer_max = 2;
    st.set_config(cfg);
    for i in 0..4 {
        st.push_log(&a, LogLine::new(format!("{i}")));
    }
    let texts: Vec<String> = st.runtime(&a).unwrap().console.iter().map(|l| l.text.clone()).collect();
    assert_eq!(texts, vec!["2".to_string(), "3".to_string()]);
}

#[test]
fn remove_and_add_servers() {
    let (mut st, a, b) = two_servers();
    st.select(&a);
    st.remove_server(&a);
    assert!(st.server(&a).is_none());
    assert!(st.runtime(&a).is_none());
    assert_eq!(st.selected(), None);
    assert_eq!(st.servers().len(), 1);
    assert_eq!(st.servers()[0].id, b);
    let c = Server::new("C".into(), "/c".into(), "c.jar".into());
    let ic = c.id.clone();
    st.add_server(c);
    assert_eq!(st.servers().len(), 2);
    assert_eq!(st.runtime(&ic).unwrap().status, ServerStatus::Stopped);
}

#[test]
fn rename_and_update_servers() {
    let (mut st, a, _b) = two_servers();
    assert!(!st.rename_server(&a, "   "));
    assert_eq!(st.server(&a).unwrap().name, "A");
    assert!(st.rename_server(&a, "  Creative  "));
    assert_eq!(st.server(&a).unwrap().name, "Creative");
    st.set_launch_settings(&a, vec!["-Xmx4G".into()], "/usr/bin/java".into());
    assert_eq!(st.server(&a).unwrap().jvm_args, vec!["-Xmx4G".to_string()]);
    assert_eq!(st.server(&a).unwrap().java_path, "/usr/bin/java");
    st.set_avatar(&a, "/img.png".into());
    assert_eq!(st.server(&a).unwrap().avatar_path.as_deref(), Some("/img.png"));
}

#[test]
fn command_history_navigation() {
    let mut h = CommandHistory::new();
    assert_eq!(h.up(), None);
    h.record("list".into());
    h.record("say hi".into());
    assert_eq!(h.up(), Some("say hi".to_string()));
    assert_eq!(h.up(), Some("list".to_string()));
    assert_eq!(h.up(), Some("list".to_string()));
    assert_eq!(h.down(), Some("say hi".to_string()));
    assert_eq!(h.down(), Some(String::new()));
    assert_eq!(h.down(), Some(String::new()));
}

#[test]
fn command_history_keeps_fifty() {
    let mut h = CommandHistory::new();
    for i in 0..60 {
        h.record(format!("cmd {i}"));
    }
    assert_eq!(h.up(), Some("cmd 59".to_string()));
    let mut last = None;
    for _ in 0..60 {
        last = h.up();
    }
    assert_eq!(last, Some("cmd 10".to_string()));
}

#[test]
fn blank_input_not_sent() {
    assert!(!should_send("   "));
    assert!(should_send(" list "));
}

#[test]
fn external_commands() {
    let mut cfg = AppConfig::defaults(false);
    let l = external::terminal_command(&cfg, "/srv/server.properties");
    assert_eq!(l.program, "kitty");
    assert_eq!(l.args, vec!["--", "nvim", "/srv/server.properties"]);
    cfg.terminal = " alacritty ".into();
    let l = external::terminal_command(&cfg, "/f");
    assert_eq!(l.program, "alacritty");
    assert_eq!(l.args, vec!["-e", "nvim", "/f"]);
    let l = external::terminal_at_command(&cfg, "/srv/plugins/x");
    assert_eq!(l.args, vec!["--working-directory", "/srv/plugins/x"]);
    assert_eq!(l.current_dir.as_deref(), Some("/srv/plugins/x"));
    cfg.terminal = "xterm".into();
    assert!(external::terminal_at_command(&cfg, "/d").args.is_empty());
    cfg.terminal = "  ".into();
    assert_eq!(external::terminal_at_command(&cfg, "/d").program, "kitty");
    cfg.file_manager = String::new();
    let l = external::file_manager_command(&cfg, "/srv");
    assert_eq!(l.program, "xdg-open");
    assert_eq!(l.args, vec!["/srv"]);
    assert_eq!(external::launch_preview("foot", "nano"), "foot -- nano <file>");
    assert_eq!(external::launch_preview("xterm", "vim"), "xterm -e vim <file>");
}

#[test]
fn stale_java_path_search_plan() {
    let plan = manager::java_search_plan("/tmp/host/deleted-runtime/bin/java.exe", "/tmp/host", "java");
    assert_eq!(plan.len(), 3);
    assert!(matches!(&plan[0], JavaCandidate::File(f) if f == "/tmp/host/deleted-runtime/bin/java.exe"));
    assert!(matches!(&plan[1], JavaCandidate::Bundled));
    assert!(matches!(&plan[2], JavaCandidate::OnPath(p) if p == "java"));
    let plan = manager::java_search_plan(" \"java\" ", "/srv", "java");
    assert!(matches!(&plan[0], JavaCandidate::OnPath(p) if p == "java"));
    assert_eq!(plan.len(), 3);
    let plan = manager::java_search_plan("runtime/bin/java", "/srv", "java");
    assert!(matches!(&plan[0], JavaCandidate::File(f) if f == "/srv/runtime/bin/java"));
    assert_eq!(plan.len(), 3);
}

#[test]
fn unedited_properties_written_back_unchanged() {
    let content = "#Minecraft server properties\n#Mon Jan 01\ndifficulty=easy\nmotd=A Minecraft Server\n\nnote without equals\nwhite-list=false\n";
    let lines = properties::parse(content);
    assert_eq!(properties::render(&lines, &Vec::new()), content);
    assert_eq!(properties::render(&properties::parse(""), &Vec::new()), "");
}

#[test]
fn untouched_controls_write_properties_back_unchanged() {
    let content = "#Minecraft server properties\ndifficulty=easy\ngamemode=creative\nmotd=A Minecraft Server\npvp=true\n\nwhite-list=false\n";
    let lines = properties::parse(content);
    let mut entries: Vec<(String, String)> = Vec::new();
    for l in lines.iter() {
        if let PropLine::Pair(k, v) = l {
            let shown = match properties::control_kind(k, v) {
                ControlKind::Choice(opts, Some(i)) => properties::choice_value(&opts, i),
                ControlKind::Choice(_, None) => panic!("a canonical name is always selected"),
                ControlKind::Switch(b) => properties::switch_value(b),
                ControlKind::Entry => v.clone(),
            };
            entries.push((k.clone(), shown));
        }
    }
    assert_eq!(entries.len(), 5);
    assert_eq!(properties::render(&lines, &entries), content);
}

#[test]
fn start_refusals_in_order() {
    assert_eq!(
        manager::start_refusal("/srv/mc", false, "/srv/mc/server.jar", false),
        Some("папка сервера не найдена: /srv/mc".to_string())
    );
    assert_eq!(
        manager::start_refusal("/srv/mc", true, "/srv/mc/server.jar", false),
        Some("JAR сервера не найден: /srv/mc/server.jar".to_string())
    );
    assert_eq!(manager::start_refusal("/srv/mc", true, "/srv/mc/server.jar", true), None);
    assert_eq!(
        manager::java_missing_message("/old/java", "java"),
        "Java не найдена: сохранённый путь «/old/java» не существует, встроенной Java нет, а java отсутствует в PATH. Укажите Java в настройках"
    );
}

#[test]
fn search_path_names() {
    assert_eq!(manager::search_names("java", false, None), vec!["java".to_string()]);
    assert_eq!(
        manager::search_names("java", true, None),
        vec!["java.COM", "java.EXE", "java.BAT", "java.CMD"]
    );
    assert_eq!(
        manager::search_names("java", true, Some(".exe;;.cmd;".to_string())),
        vec!["java.exe", "java.cmd"]
    );
    assert_eq!(manager::search_names("java.exe", true, None), vec!["java.exe".to_string()]);
}
