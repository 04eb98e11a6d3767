//! Server process management: what the launch runs, what the process reports, the EULA file.

use vstd::prelude::*;
use crate::paths;
use crate::server::{LogLine, Server};
use crate::text;

verus! {

/// Events from a server process, delivered to the user interface.
#[derive(Clone, Debug)]
pub enum ServerEvent {
    Log(LogLine),
    /// The process ended with the given exit code (`None`: killed by a signal).
    Exited(Option<i32>),
}

/// Seconds a soft stop may take before the process is killed.
pub const STOP_TIMEOUT_SECS: u32 = 30;

/// Seconds a restart waits for the old process to exit.
pub const RESTART_WAIT_SECS: u32 = 5;

/// Whether `eula.txt` content accepts the EULA: some line reads `eula=true`, ignoring
/// surrounding white space and ASCII case.
pub open spec fn eula_accepted_spec(content: Seq<char>) -> bool {
    exists|i: int| 0 <= i < text::lines_spec(content).len()
        && text::eq_ignore_ascii_case_spec(text::trim_spec(#[trigger] text::lines_spec(content)[i]), "eula=true"@)
}

/// Whether `eula.txt` content accepts the EULA.
pub fn eula_accepted(content: &str) -> (r: bool)
    ensures
        r == eula_accepted_spec(content@),
{
    let chars = text::chars_of(content);
    let ls = text::lines(&chars);
    let target = text::chars_of("eula=true");
    let mut i: usize = 0;
    while i < ls.len()
        invariant
            ls@.len() == text::lines_spec(content@).len(),
            forall|m: int| 0 <= m < ls@.len() ==> #[trigger] ls@[m]@ == text::lines_spec(content@)[m],
            target@ == "eula=true"@,
            i <= ls@.len(),
            forall|m: int| 0 <= m < i ==> !text::eq_ignore_ascii_case_spec(
                text::trim_spec(#[trigger] text::lines_spec(content@)[m]),
                "eula=true"@,
            ),
        decreases ls.len() - i,
    {
        let t = text::trim(&ls[i]);
        if text::eq_ignore_ascii_case(&t, &target) {
            assert(ls@[i as int]@ == text::lines_spec(content@)[i as int]);
            return true;
        }
        i = i + 1;
    }
    false
}

/// What to do about the EULA before a start.
#[derive(Clone, Copy, Debug, PartialEq, Eq, Structural)]
pub enum EulaDecision {
    /// It is accepted already.
    Accepted,
    /// Write `eula=true` to `eula.txt`, then go on.
    Write,
    /// Ask the user first.
    Ask,
}

/// The EULA step of a start, from the content of `eula.txt` (`None` where it could not be
/// read) and whether the user accepts it now.
pub fn eula_decision(content: Option<String>, accept: bool) -> (r: EulaDecision)
    ensures
        r == (if content is Some && eula_accepted_spec(content->0@) {
            EulaDecision::Accepted
        } else if accept {
            EulaDecision::Write
        } else {
            EulaDecision::Ask
        }),
{
    let accepted = match &content {
        Some(c) => eula_accepted(c.as_str()),
        None => false,
    };
    if accepted {
        EulaDecision::Accepted
    } else if accept {
        EulaDecision::Write
    } else {
        EulaDecision::Ask
    }
}

/// The content written to `eula.txt` to accept the EULA.
pub fn eula_text() -> (r: &'static str)
    ensures
        r@ == "eula=true\n"@,
{
    "eula=true\n"
}

/// The jar a server launches: its jar path where that is absolute, else that path within
/// the server directory.
pub fn jar_path(server: &Server) -> (r: String)
    ensures
        r@ == (if paths::absolute(server.jar_file@) {
            server.jar_file@
        } else {
            paths::joined(server.path@, server.jar_file@)
        }),
{
    if paths::is_absolute(server.jar_file.as_str()) {
        server.jar_file.clone()
    } else {
        paths::join(server.path.as_str(), server.jar_file.as_str())
    }
}

/// Arguments of the Java process: the server's JVM options, then `-jar <jar> nogui`.
pub fn java_command_args(jvm_args: &Vec<String>, jar: &str) -> (r: Vec<String>)
    ensures
        r@.map_values(|s: String| s@) == jvm_args@.map_values(|s: String| s@)
            + seq!["-jar"@, jar@, "nogui"@],
{
    let ghost jv = jvm_args@.map_values(|s: String| s@);
    let mut out: Vec<String> = Vec::new();
    let mut i: usize = 0;
    while i < jvm_args.len()
        invariant
            jv == jvm_args@.map_values(|s: String| s@),
            i <= jvm_args@.len(),
            out@.map_values(|s: String| s@) == jv.take(i as int),
        decreases jvm_args.len() - i,
    {
        let ghost before = out@;
        out.push(jvm_args[i].clone());
        assert(out@.map_values(|s: String| s@) =~= before.map_values(|s: String| s@).push(jv[i as int]));
        i = i + 1;
        assert(jv.take(i as int) =~= jv.take(i - 1).push(jv[i - 1]));
    }
    assert(jv.take(jvm_args@.len() as int) =~= jv);
    let ghost mid = out@;
    out.push("-jar".to_string());
    out.push(jar.to_string());
    out.push("nogui".to_string());
    assert(out@.map_values(|s: String| s@) =~= mid.map_values(|s: String| s@) + seq!["-jar"@, jar@, "nogui"@]);
    out
}

/// The configured Java command, cleaned: surrounding white space, then surrounding `"`, removed.
pub open spec fn configured_java_spec(java_path: Seq<char>) -> Seq<char> {
    text::trim_end_matches_spec(text::trim_start_matches_spec(text::trim_spec(java_path), "\""@), "\""@)
}

/// The file a configured Java command names directly, if it names one: an absolute path as
/// it is, a relative path of several components within the server directory; a bare program
/// name names none (it is looked up on the search path).
pub open spec fn configured_java_file_spec(configured: Seq<char>, server_dir: Seq<char>) -> Option<Seq<char>> {
    if paths::absolute(configured) {
        Some(configured)
    } else if paths::component_count(configured) > 1 {
        Some(paths::joined(server_dir, configured))
    } else {
        None
    }
}

/// The configured Java command of a server, cleaned.
pub fn configured_java(java_path: &str) -> (r: String)
    ensures
        r@ == configured_java_spec(java_path@),
{
    let c = text::chars_of(java_path);
    let t = text::trim(&c);
    let q = text::chars_of("\"");
    let a = text::trim_start_matches(&t, &q);
    let b = text::trim_end_matches(&a, &q);
    text::string_of(&b)
}

/// The file the cleaned Java command `configured` names directly, if any.
pub fn configured_java_file(configured: &str, server_dir: &str) -> (r: Option<String>)
    ensures
        match r {
            Some(p) => configured_java_file_spec(configured@, server_dir@) == Some(p@),
            None => configured_java_file_spec(configured@, server_dir@) is None,
        },
{
    if paths::is_absolute(configured) {
        Some(configured.to_string())
    } else if paths::components(configured) > 1 {
        Some(paths::join(server_dir, configured))
    } else {
        None
    }
}

/// Where to look for Java, in order.
#[derive(Clone, Debug)]
pub enum JavaCandidate {
    /// This file, if it exists.
    File(String),
    /// This bare program name, on the search path.
    OnPath(String),
    /// The runtime shipped next to the application.
    Bundled,
}

/// The view of a candidate.
pub enum CandidateView {
    File(Seq<char>),
    OnPath(Seq<char>),
    Bundled,
}

impl View for JavaCandidate {
    type V = CandidateView;

    open spec fn view(&self) -> CandidateView {
        match self {
            JavaCandidate::File(f) => CandidateView::File(f@),
            JavaCandidate::OnPath(p) => CandidateView::OnPath(p@),
            JavaCandidate::Bundled => CandidateView::Bundled,
        }
    }
}

/// The search for a working Java: the file the configured command names (so that a stale
/// absolute path is skipped when it no longer exists), then the configured name on the search
/// path where it is a bare name, then the bundled runtime, then `default_program` on the
/// search path.
pub open spec fn java_search_plan_spec(java_path: Seq<char>, server_dir: Seq<char>, default_program: Seq<char>) -> Seq<CandidateView> {
    let configured = configured_java_spec(java_path);
    let first: Seq<CandidateView> = match configured_java_file_spec(configured, server_dir) {
        Some(f) => seq![CandidateView::File(f)],
        None => Seq::empty(),
    };
    let second: Seq<CandidateView> = if paths::component_count(configured) == 1 {
        seq![CandidateView::OnPath(configured)]
    } else {
        Seq::empty()
    };
    first + second + seq![CandidateView::Bundled, CandidateView::OnPath(default_program)]
}

/// The places to look for Java for a server with configured command `java_path` in
/// `server_dir`, in order.
pub fn java_search_plan(java_path: &str, server_dir: &str, default_program: &str) -> (r: Vec<JavaCandidate>)
    ensures
        r@.map_values(|c: JavaCandidate| c@) == java_search_plan_spec(java_path@, server_dir@, default_program@),
{
    let configured = configured_java(java_path);
    let mut plan: Vec<JavaCandidate> = Vec::new();
    let ghost v0 = plan@.map_values(|c: JavaCandidate| c@);
    match configured_java_file(configured.as_str(), server_dir) {
        Some(f) => plan.push(JavaCandidate::File(f)),
        None => {},
    }
    let ghost v1 = plan@.map_values(|c: JavaCandidate| c@);
    if is_bare_program(configured.as_str()) {
        plan.push(JavaCandidate::OnPath(configured));
    }
    let ghost v2 = plan@.map_values(|c: JavaCandidate| c@);
    plan.push(JavaCandidate::Bundled);
    plan.push(JavaCandidate::OnPath(default_program.to_string()));
    proof {
        let first: Seq<CandidateView> = match configured_java_file_spec(configured_java_spec(java_path@), server_dir@) {
            Some(f) => seq![CandidateView::File(f)],
            None => Seq::empty(),
        };
        assert(v0 =~= Seq::<CandidateView>::empty());
        assert(v1 =~= first);
        assert(plan@.map_values(|c: JavaCandidate| c@) =~= java_search_plan_spec(java_path@, server_dir@, default_program@));
    }
    plan
}

/// Whether a program is a bare name, to be looked up on the search path.
pub fn is_bare_program(program: &str) -> (r: bool)
    ensures
        r == (paths::component_count(program@) == 1),
{
    paths::components(program) == 1
}

/// Whether a path names a `.jar` file (its extension is `jar`).
pub fn has_jar_extension(path: &str) -> (r: bool)
    ensures
        r == (paths::extension_of(path@) == Some("jar"@)),
{
    match paths::extension(path) {
        Some(e) => text::same(e.as_str(), "jar"),
        None => false,
    }
}

/// The name a server added from a folder gets: the folder's name, or `server`.
pub fn default_server_name(folder: &str) -> (r: String)
    ensures
        r@ == match paths::file_name_of(folder@) {
            Some(n) => n,
            None => "server"@,
        },
{
    match paths::file_name(folder) {
        Some(n) => n,
        None => "server".to_string(),
    }
}

/// Why a server cannot start before Java is looked for: its folder is missing, or, with the
/// folder there, its jar is missing. The message names the missing path.
pub fn start_refusal(folder: &str, folder_exists: bool, jar: &str, jar_exists: bool) -> (r: Option<String>)
    ensures
        !folder_exists ==> (r matches Some(m) && m@ == "папка сервера не найдена: "@ + folder@),
        folder_exists && !jar_exists ==> (r matches Some(m) && m@ == "JAR сервера не найден: "@ + jar@),
        folder_exists && jar_exists ==> r is None,
{
    if !folder_exists {
        let mut out: Vec<char> = Vec::new();
        text::push_str(&mut out, "папка сервера не найдена: ");
        text::push_str(&mut out, folder);
        Some(text::string_of(&out))
    } else if !jar_exists {
        let mut out: Vec<char> = Vec::new();
        text::push_str(&mut out, "JAR сервера не найден: ");
        text::push_str(&mut out, jar);
        Some(text::string_of(&out))
    } else {
        None
    }
}

/// The message when no candidate of the search plan gives a working Java.
pub fn java_missing_message(java_path: &str, default_program: &str) -> (r: String)
    ensures
        r@ == "Java не найдена: сохранённый путь «"@ + java_path@
            + "» не существует, встроенной Java нет, а "@ + default_program@
            + " отсутствует в PATH. Укажите Java в настройках"@,
{
    let mut out: Vec<char> = Vec::new();
    text::push_str(&mut out, "Java не найдена: сохранённый путь «");
    text::push_str(&mut out, java_path);
    text::push_str(&mut out, "» не существует, встроенной Java нет, а ");
    text::push_str(&mut out, default_program);
    text::push_str(&mut out, " отсутствует в PATH. Укажите Java в настройках");
    text::string_of(&out)
}

/// The extensions Windows tries when `PATHEXT` is not set.
pub open spec fn default_pathext() -> Seq<char> {
    ".COM;.EXE;.BAT;.CMD"@
}

/// `program` followed by each non-empty piece of `exts`, in order.
pub open spec fn with_extensions(program: Seq<char>, exts: Seq<Seq<char>>) -> Seq<Seq<char>>
    decreases exts.len(),
{
    if exts.len() == 0 {
        Seq::empty()
    } else {
        let rest = with_extensions(program, exts.drop_last());
        if exts.last().len() > 0 {
            rest.push(program + exts.last())
        } else {
            rest
        }
    }
}

/// The file names tried in each directory of the search path for a bare `program`: on
/// Windows, a name without an extension gets each non-empty `;`-separated extension of
/// `pathext` (of `default_pathext` where it is not set); otherwise the name itself.
pub open spec fn search_names_spec(program: Seq<char>, windows: bool, pathext: Option<Seq<char>>) -> Seq<Seq<char>> {
    if windows && paths::extension_of(program) is None {
        with_extensions(program, text::split_spec(match pathext {
            Some(p) => p,
            None => default_pathext(),
        }, ';'))
    } else {
        seq![program]
    }
}

/// The file names to try for `program` in each directory of the search path.
pub fn search_names(program: &str, windows: bool, pathext: Option<String>) -> (r: Vec<String>)
    ensures
        r@.map_values(|s: String| s@) == search_names_spec(program@, windows, match pathext {
            Some(p) => Some(p@),
            None => None,
        }),
{
    let has_extension = match paths::extension(program) {
        Some(_) => true,
        None => false,
    };
    if !windows || has_extension {
        let r: Vec<String> = vec![program.to_string()];
        assert(r@.map_values(|s: String| s@) =~= seq![program@]);
        return r;
    }
    let ext_text = match pathext {
        Some(p) => p,
        None => ".COM;.EXE;.BAT;.CMD".to_string(),
    };
    let ext_chars = text::chars_of(ext_text.as_str());
    let pieces = text::split_char(&ext_chars, ';');
    let ghost ps = text::split_spec(ext_chars@, ';');
    let mut out: Vec<String> = Vec::new();
    let mut i: usize = 0;
    assert(ps.take(0) =~= Seq::<Seq<char>>::empty());
    while i < pieces.len()
        invariant
            ps == text::split_spec(ext_chars@, ';'),
            pieces@.len() == ps.len(),
            forall|k: int| 0 <= k < pieces@.len() ==> #[trigger] pieces@[k]@ == ps[k],
            i <= pieces@.len(),
            out@.map_values(|s: String| s@) == with_extensions(program@, ps.take(i as int)),
        decreases pieces.len() - i,
    {
        let ghost before = out@;
        assert(ps.take(i + 1).drop_last() =~= ps.take(i as int));
        assert(ps.take(i + 1).last() == pieces@[i as int]@);
        if pieces[i].len() > 0 {
            let mut name: Vec<char> = Vec::new();
            text::push_str(&mut name, program);
            text::push_chars(&mut name, &pieces[i]);
            out.push(text::string_of(&name));
            assert(out@.map_values(|s: String| s@) =~= before.map_values(|s: String| s@).push(program@ + ps[i as int]));
        }
        i = i + 1;
    }
    assert(ps.take(pieces@.len() as int) =~= ps);
    out
}

/// Largest avatar picture accepted, in bytes (10 MiB).
pub const MAX_AVATAR_BYTES: u64 = 10485760;

/// Whether an avatar picture of `size` bytes is refused.
pub fn avatar_too_large(size: u64) -> (r: bool)
    ensures
        r == (size > 10 * 1024 * 1024),
{
    size > MAX_AVATAR_BYTES
}

} // verus!
