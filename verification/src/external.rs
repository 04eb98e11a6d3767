//! Launching external applications: the terminal with the editor, a terminal in a folder,
//! the file manager.

use vstd::prelude::*;
use crate::config::AppConfig;
use crate::text::{self, trim_spec};

verus! {

/// A program to start: its name, its arguments, and the directory to start it in.
pub struct Launch {
    pub program: String,
    pub args: Vec<String>,
    pub current_dir: Option<String>,
}

/// The texts of a list of strings.
pub open spec fn views(v: Seq<String>) -> Seq<Seq<char>> {
    v.map_values(|s: String| s@)
}

/// Whether a terminal takes the command after `--` (kitty, foot) rather than after `-e`.
pub open spec fn uses_double_dash(term: Seq<char>) -> bool {
    term == "kitty"@ || term == "foot"@
}

/// Opening `target` in the configured editor inside the configured terminal:
/// `kitty -- nvim <file>`, `alacritty -e nvim <file>` (terminal and editor without surrounding
/// white space).
pub fn terminal_command(cfg: &AppConfig, target: &str) -> (r: Launch)
    ensures
        r.program@ == trim_spec(cfg.terminal@),
        views(r.args@) == seq![
            if uses_double_dash(trim_spec(cfg.terminal@)) { "--"@ } else { "-e"@ },
            trim_spec(cfg.editor@),
            target@,
        ],
        r.current_dir is None,
{
    let tc = text::chars_of(cfg.terminal.as_str());
    let term = text::string_of(&text::trim(&tc));
    let ec = text::chars_of(cfg.editor.as_str());
    let editor = text::string_of(&text::trim(&ec));
    let flag = if text::same(term.as_str(), "kitty") || text::same(term.as_str(), "foot") {
        "--"
    } else {
        "-e"
    };
    let mut args: Vec<String> = Vec::new();
    args.push(flag.to_string());
    args.push(editor);
    args.push(target.to_string());
    assert(views(args@) =~= seq![
        if uses_double_dash(trim_spec(cfg.terminal@)) { "--"@ } else { "-e"@ },
        trim_spec(cfg.editor@),
        target@,
    ]);
    Launch { program: term, args, current_dir: None }
}

/// The configured program without surrounding white space, or `fallback` where that is empty.
pub open spec fn program_or(configured: Seq<char>, fallback: Seq<char>) -> Seq<char> {
    if trim_spec(configured).len() == 0 {
        fallback
    } else {
        trim_spec(configured)
    }
}

fn choose_program(configured: &str, fallback: &str) -> (r: String)
    ensures
        r@ == program_or(configured@, fallback@),
{
    let c = text::chars_of(configured);
    let t = text::trim(&c);
    if t.len() == 0 {
        fallback.to_string()
    } else {
        text::string_of(&t)
    }
}

/// Whether a terminal is told its working directory with `--working-directory`.
pub open spec fn takes_working_directory(term: Seq<char>) -> bool {
    term == "kitty"@ || term == "gnome-terminal"@ || term == "foot"@ || term == "alacritty"@
}

/// Opening the configured terminal (kitty where none is set) in `dir`.
pub fn terminal_at_command(cfg: &AppConfig, dir: &str) -> (r: Launch)
    ensures
        r.program@ == program_or(cfg.terminal@, "kitty"@),
        views(r.args@) == (if takes_working_directory(program_or(cfg.terminal@, "kitty"@)) {
            seq!["--working-directory"@, dir@]
        } else {
            Seq::<Seq<char>>::empty()
        }),
        r.current_dir matches Some(d) && d@ == dir@,
{
    let term = choose_program(cfg.terminal.as_str(), "kitty");
    let mut args: Vec<String> = Vec::new();
    let t = term.as_str();
    if text::same(t, "kitty") || text::same(t, "gnome-terminal") || text::same(t, "foot") || text::same(t, "alacritty") {
        args.push("--working-directory".to_string());
        args.push(dir.to_string());
        assert(views(args@) =~= seq!["--working-directory"@, dir@]);
    } else {
        assert(views(args@) =~= Seq::<Seq<char>>::empty());
    }
    Launch { program: term, args, current_dir: Some(dir.to_string()) }
}

/// Opening `target` in the configured file manager (xdg-open where none is set).
pub fn file_manager_command(cfg: &AppConfig, target: &str) -> (r: Launch)
    ensures
        r.program@ == program_or(cfg.file_manager@, "xdg-open"@),
        views(r.args@) == seq![target@],
        r.current_dir is None,
{
    let fm = choose_program(cfg.file_manager.as_str(), "xdg-open");
    let mut args: Vec<String> = Vec::new();
    args.push(target.to_string());
    assert(views(args@) =~= seq![target@]);
    Launch { program: fm, args, current_dir: None }
}

/// The launch command shown in the settings for terminal `t` and editor `e`, as typed:
/// `t -- e <file>` for kitty and foot, `t -e e <file>` otherwise.
pub fn launch_preview(t: &str, e: &str) -> (r: String)
    ensures
        r@ == t@ + " "@ + (if uses_double_dash(t@) { "--"@ } else { "-e"@ }) + " "@ + e@ + " <file>"@,
{
    let sep = if text::same(t, "kitty") || text::same(t, "foot") { "--" } else { "-e" };
    let mut out: Vec<char> = Vec::new();
    text::push_str(&mut out, t);
    text::push_str(&mut out, " ");
    text::push_str(&mut out, sep);
    text::push_str(&mut out, " ");
    text::push_str(&mut out, e);
    text::push_str(&mut out, " <file>");
    text::string_of(&out)
}

} // verus!
