//! Shared application state: the server list, each server's runtime state, the selection.

use vstd::prelude::*;
use std::collections::VecDeque;
use crate::config::AppConfig;
use crate::manager::ServerEvent;
use crate::server::{LogLine, Server, ServerStatus};
use crate::text;

verus! {

broadcast use vstd::std_specs::vecdeque::group_vec_dequeue_axioms;

/// The last `max` items of `s` (all of `s` where it is no longer).
pub open spec fn keep_last<T>(s: Seq<T>, max: nat) -> Seq<T> {
    if s.len() > max {
        s.subrange(s.len() - max, s.len() as int)
    } else {
        s
    }
}

/// Runtime state of one server (not persisted).
pub struct Runtime {
    pub status: ServerStatus,
    /// Process id of the attached server process, if one runs.
    pub pid: Option<u32>,
    /// When the attached process was started, in milliseconds of the application's
    /// monotonic clock.
    pub started_at: Option<u64>,
    /// Most recent console lines, oldest first.
    pub console: VecDeque<LogLine>,
}

impl Runtime {
    /// The state of a server with no process attached.
    pub open spec fn is_fresh(&self) -> bool {
        &&& self.status == ServerStatus::Stopped
        &&& self.pid is None
        &&& self.started_at is None
        &&& self.console@.len() == 0
    }

    /// Seconds the process has been up at monotonic time `now_ms`: zero unless it is
    /// active with a start time.
    pub open spec fn uptime_spec(&self, now_ms: u64) -> u64 {
        if self.status.active() && self.started_at is Some {
            let t = self.started_at->0;
            if now_ms >= t {
                ((now_ms - t) / 1000) as u64
            } else {
                0
            }
        } else {
            0
        }
    }

    /// Process id of the attached process.
    pub fn pid(&self) -> (r: Option<u32>)
        ensures
            r == self.pid,
    {
        self.pid
    }

    /// Seconds of uptime at monotonic time `now_ms` (milliseconds).
    pub fn uptime_secs(&self, now_ms: u64) -> (r: u64)
        ensures
            r == self.uptime_spec(now_ms),
    {
        match (self.status.is_active(), self.started_at) {
            (true, Some(t)) => if now_ms >= t {
                (now_ms - t) / 1000
            } else {
                0
            },
            _ => 0,
        }
    }

    /// Appends a console line, then drops the oldest lines beyond `max`.
    pub fn push_log(&mut self, line: LogLine, max: usize)
        ensures
            final(self).console@ == keep_last(old(self).console@.push(line), max as nat),
            final(self).status == old(self).status,
            final(self).pid == old(self).pid,
            final(self).started_at == old(self).started_at,
    {
        let ghost full = self.console@.push(line);
        self.console.push_back(line);
        while self.console.len() > max
            invariant
                full == old(self).console@.push(line),
                self.console@.len() <= full.len(),
                self.console@.len() >= max || self.console@.len() == full.len(),
                self.console@ == full.subrange(full.len() - self.console@.len(), full.len() as int),
                self.status == old(self).status,
                self.pid == old(self).pid,
                self.started_at == old(self).started_at,
            decreases self.console@.len(),
        {
            let ghost before = self.console@;
            let _ = self.console.pop_front();
            assert(self.console@ =~= full.subrange(full.len() - self.console@.len(), full.len() as int));
        }
    }
}

impl Default for Runtime {
    fn default() -> (r: Self)
        ensures
            r.is_fresh(),
    {
        Runtime { status: ServerStatus::Stopped, pid: None, started_at: None, console: VecDeque::new() }
    }
}

/// The console never holds more than `max` lines after a push, and the newest line is last.
pub proof fn law_push_log_bounded(old_console: Seq<LogLine>, line: LogLine, max: nat)
    requires
        max > 0,
    ensures
        keep_last(old_console.push(line), max).len() <= max,
        keep_last(old_console.push(line), max).last() == line,
        old_console.len() < max ==> keep_last(old_console.push(line), max) == old_console.push(line),
{
}

/// Runtime state of the server with identifier `id`.
pub struct RuntimeEntry {
    pub id: String,
    pub runtime: Runtime,
}

/// The runtime map held by a list of entries: a later entry for an identifier replaces an earlier one.
pub open spec fn entries_map(s: Seq<RuntimeEntry>) -> Map<Seq<char>, Runtime>
    decreases s.len(),
{
    if s.len() == 0 {
        Map::empty()
    } else {
        entries_map(s.drop_last()).insert(s.last().id@, s.last().runtime)
    }
}

/// No identifier occurs twice among the entries.
pub open spec fn unique_ids(s: Seq<RuntimeEntry>) -> bool {
    forall|i: int, j: int| 0 <= i < j < s.len() ==> s[i].id@ != s[j].id@
}

proof fn lemma_entries_dom(s: Seq<RuntimeEntry>, k: Seq<char>)
    ensures
        entries_map(s).dom().contains(k) <==> exists|i: int| 0 <= i < s.len() && s[i].id@ == k,
    decreases s.len(),
{
    if s.len() > 0 {
        lemma_entries_dom(s.drop_last(), k);
        if entries_map(s.drop_last()).dom().contains(k) {
            let i = choose|i: int| 0 <= i < s.drop_last().len() && s.drop_last()[i].id@ == k;
            assert(s[i].id@ == k);
        }
        if exists|i: int| 0 <= i < s.len() && s[i].id@ == k {
            let i = choose|i: int| 0 <= i < s.len() && s[i].id@ == k;
            if i < s.len() - 1 {
                assert(s.drop_last()[i].id@ == k);
            }
        }
    }
}

proof fn lemma_entries_index(s: Seq<RuntimeEntry>, i: int)
    requires
        unique_ids(s),
        0 <= i < s.len(),
    ensures
        entries_map(s).dom().contains(s[i].id@),
        entries_map(s)[s[i].id@] == s[i].runtime,
    decreases s.len(),
{
    if i < s.len() - 1 {
        assert(s.drop_last()[i] == s[i]);
        lemma_entries_index(s.drop_last(), i);
        assert(s.last().id@ != s[i].id@);
    }
}

proof fn lemma_entries_remove(s: Seq<RuntimeEntry>, i: int)
    requires
        unique_ids(s),
        0 <= i < s.len(),
    ensures
        entries_map(s.remove(i)) == entries_map(s).remove(s[i].id@),
        unique_ids(s.remove(i)),
    decreases s.len(),
{
    let k = s[i].id@;
    if i == s.len() - 1 {
        assert(s.remove(i) =~= s.drop_last());
        lemma_entries_dom(s.drop_last(), k);
        assert(entries_map(s.drop_last()) =~= entries_map(s).remove(k));
    } else {
        let d = s.drop_last();
        assert(d[i] == s[i]);
        lemma_entries_remove(d, i);
        assert(s.remove(i).drop_last() =~= d.remove(i));
        assert(s.remove(i).last() == s.last());
        assert(s.last().id@ != k);
        assert(entries_map(s.remove(i)) =~= entries_map(s).remove(k));
    }
}

proof fn lemma_entries_push(s: Seq<RuntimeEntry>, e: RuntimeEntry)
    requires
        unique_ids(s),
        !entries_map(s).dom().contains(e.id@),
    ensures
        unique_ids(s.push(e)),
        entries_map(s.push(e)) == entries_map(s).insert(e.id@, e.runtime),
{
    lemma_entries_dom(s, e.id@);
    assert(s.push(e).drop_last() =~= s);
    assert forall|i: int, j: int| 0 <= i < j < s.push(e).len() implies s.push(e)[i].id@ != s.push(e)[j].id@ by {
        if j == s.len() {
            assert(s.push(e)[i] == s[i]);
        }
    }
}

/// The servers of `s` other than those with identifier `id`, in order.
pub open spec fn without_id(s: Seq<Server>, id: Seq<char>) -> Seq<Server>
    decreases s.len(),
{
    if s.len() == 0 {
        s
    } else if s.last().id@ == id {
        without_id(s.drop_last(), id)
    } else {
        without_id(s.drop_last(), id).push(s.last())
    }
}

proof fn lemma_without_remove(s: Seq<Server>, i: int, id: Seq<char>)
    requires
        0 <= i < s.len(),
        s[i].id@ == id,
    ensures
        without_id(s.remove(i), id) == without_id(s, id),
    decreases s.len(),
{
    if i == s.len() - 1 {
        assert(s.remove(i) =~= s.drop_last());
    } else {
        assert(s.remove(i).drop_last() =~= s.drop_last().remove(i));
        assert(s.remove(i).last() == s.last());
        lemma_without_remove(s.drop_last(), i, id);
    }
}

proof fn lemma_without_absent(s: Seq<Server>, id: Seq<char>)
    requires
        forall|j: int| 0 <= j < s.len() ==> s[j].id@ != id,
    ensures
        without_id(s, id) == s,
    decreases s.len(),
{
    if s.len() > 0 {
        lemma_without_absent(s.drop_last(), id);
        assert(s.drop_last().push(s.last()) =~= s);
    }
}

/// No server in `without_id(s, id)` has identifier `id`, and every other server of `s` stays.
pub proof fn law_without_id(s: Seq<Server>, id: Seq<char>)
    ensures
        forall|j: int| 0 <= j < without_id(s, id).len() ==> without_id(s, id)[j].id@ != id,
        forall|j: int| 0 <= j < s.len() && s[j].id@ != id ==> without_id(s, id).contains(s[j]),
    decreases s.len(),
{
    if s.len() > 0 {
        law_without_id(s.drop_last(), id);
        let w = without_id(s.drop_last(), id);
        assert forall|j: int| 0 <= j < s.len() && s[j].id@ != id implies without_id(s, id).contains(s[j]) by {
            if j < s.len() - 1 {
                assert(s.drop_last()[j] == s[j]);
                let k = choose|k: int| 0 <= k < w.len() && w[k] == s[j];
                if s.last().id@ != id {
                    assert(without_id(s, id)[k] == s[j]);
                }
            } else {
                assert(without_id(s, id)[w.len() as int] == s[j]);
            }
        }
    }
}

/// `i` is the first position of a server with identifier `id`.
pub open spec fn first_server(s: Seq<Server>, id: Seq<char>, i: int) -> bool {
    0 <= i < s.len() && s[i].id@ == id && forall|j: int| 0 <= j < i ==> s[j].id@ != id
}

/// Whether some server has identifier `id`.
pub open spec fn has_server(s: Seq<Server>, id: Seq<char>) -> bool {
    exists|i: int| 0 <= i < s.len() && s[i].id@ == id
}

/// What the interface does after a process event.
pub struct EventOutcome {
    /// Append the event's line to the visible console.
    pub show_line: bool,
    /// The server's new status, where it changed.
    pub status: Option<ServerStatus>,
    /// Refresh the start/stop controls of the selected server.
    pub refresh_controls: bool,
    /// Start the server again after this many seconds.
    pub restart_after_secs: Option<u32>,
    /// No further events come from this process.
    pub finished: bool,
}

/// Whether a server output line reports that start-up finished (`Done (`).
pub open spec fn is_done_line(text: Seq<char>) -> bool {
    text::contains_spec(text, "Done ("@)
}

/// The status a process leaves behind: stopped on exit code 0 or a signal, crashed otherwise.
pub open spec fn status_after_exit(code: Option<i32>) -> ServerStatus {
    match code {
        Some(c) => if c == 0 { ServerStatus::Stopped } else { ServerStatus::Crashed },
        None => ServerStatus::Stopped,
    }
}

/// A process that has exited never leaves its server starting or running, and only a
/// non-zero exit code counts as a crash.
pub proof fn law_exit_never_active(code: Option<i32>)
    ensures
        !status_after_exit(code).active(),
        (status_after_exit(code) == ServerStatus::Crashed) <==> (code is Some && code->0 != 0),
{
}

/// Shared application state.
pub struct AppState {
    config: AppConfig,
    servers: Vec<Server>,
    runtimes: Vec<RuntimeEntry>,
    selected: Option<String>,
}

impl AppState {
    /// The internal invariant: one runtime entry per identifier.
    pub closed spec fn wf(&self) -> bool {
        unique_ids(self.runtimes@)
    }

    /// The application settings.
    pub closed spec fn config_spec(&self) -> AppConfig {
        self.config
    }

    /// The registered servers, in order.
    pub closed spec fn servers_spec(&self) -> Seq<Server> {
        self.servers@
    }

    /// The identifier of the selected server.
    pub closed spec fn selected_spec(&self) -> Option<Seq<char>> {
        match self.selected {
            Some(s) => Some(s@),
            None => None,
        }
    }

    /// Runtime state by server identifier.
    pub closed spec fn runtimes_spec(&self) -> Map<Seq<char>, Runtime> {
        entries_map(self.runtimes@)
    }

    /// Whether the selected server has a runtime whose process is active.
    pub open spec fn running_spec(&self) -> bool {
        match self.selected_spec() {
            Some(id) => self.runtimes_spec().dom().contains(id) && self.runtimes_spec()[id].status.active(),
            None => false,
        }
    }

    /// The selected server counts as running exactly when its status is starting or running:
    /// a server that was just started counts, one that stopped or crashed does not.
    pub proof fn law_running_means_selected_active(&self)
        ensures
            self.running_spec() == (match self.selected_spec() {
                Some(id) => self.status_of(id) == ServerStatus::Starting || self.status_of(id) == ServerStatus::Running,
                None => false,
            }),
    {
    }

    /// Starting the selected server's process makes it count as running at once.
    pub proof fn law_started_selected_counts_running(before: &AppState, after: &AppState, id: Seq<char>)
        requires
            after.selected_spec() == Some(id),
            after.runtimes_spec().dom() == before.runtimes_spec().dom().insert(id),
            after.runtimes_spec()[id].status == ServerStatus::Starting,
        ensures
            after.running_spec(),
    {
    }

    /// Status of server `id` (stopped where it has no runtime state).
    pub open spec fn status_of(&self, id: Seq<char>) -> ServerStatus {
        if self.runtimes_spec().dom().contains(id) {
            self.runtimes_spec()[id].status
        } else {
            ServerStatus::Stopped
        }
    }

    /// Process id attached to server `id`.
    pub open spec fn pid_of(&self, id: Seq<char>) -> Option<u32> {
        if self.runtimes_spec().dom().contains(id) {
            self.runtimes_spec()[id].pid
        } else {
            None
        }
    }

    /// Start time of the process attached to server `id`.
    pub open spec fn started_of(&self, id: Seq<char>) -> Option<u64> {
        if self.runtimes_spec().dom().contains(id) {
            self.runtimes_spec()[id].started_at
        } else {
            None
        }
    }

    /// Console lines of server `id`.
    pub open spec fn console_of(&self, id: Seq<char>) -> Seq<LogLine> {
        if self.runtimes_spec().dom().contains(id) {
            self.runtimes_spec()[id].console@
        } else {
            Seq::empty()
        }
    }

    /// The runtime state of servers other than `id` is as in `other`, and `id` has one.
    pub open spec fn others_as(&self, other: &AppState, id: Seq<char>) -> bool {
        &&& self.runtimes_spec().dom() == other.runtimes_spec().dom().insert(id)
        &&& self.runtimes_spec().remove(id) == other.runtimes_spec().remove(id)
    }

    /// A state over `servers`, with a fresh runtime for each of them and nothing selected.
    pub fn new(config: AppConfig, servers: Vec<Server>) -> (r: AppState)
        ensures
            r.wf(),
            r.config_spec() == config,
            r.servers_spec() == servers@,
            r.selected_spec() is None,
            forall|k: Seq<char>| r.runtimes_spec().dom().contains(k) <==> has_server(servers@, k),
            forall|k: Seq<char>| #[trigger] r.runtimes_spec().dom().contains(k) ==> r.runtimes_spec()[k].is_fresh(),
    {
        let mut st = AppState { config, servers, runtimes: Vec::new(), selected: None };
        let n = st.servers.len();
        let mut i: usize = 0;
        while i < n
            invariant
                n == st.servers@.len(),
                i <= n,
                st.servers@ == servers@,
                st.config == config,
                st.selected is None,
                unique_ids(st.runtimes@),
                forall|k: Seq<char>| entries_map(st.runtimes@).dom().contains(k) <==> has_server(servers@.take(i as int), k),
                forall|k: Seq<char>| #[trigger] entries_map(st.runtimes@).dom().contains(k) ==> entries_map(st.runtimes@)[k].is_fresh(),
            decreases n - i,
        {
            let id = st.servers[i].id.clone();
            let _ = st.take_runtime(id.as_str());
            st.put_runtime(id, Runtime::default());
            proof {
                let t0 = servers@.take(i as int);
                let t1 = servers@.take(i + 1);
                assert(t1 =~= t0.push(servers@[i as int]));
                assert forall|k: Seq<char>| has_server(t1, k) <==> has_server(t0, k) || k == servers@[i as int].id@ by {
                    if has_server(t1, k) {
                        let j = choose|j: int| 0 <= j < t1.len() && #[trigger] t1[j].id@ == k;
                        if j < i {
                            assert(t0[j].id@ == k);
                        }
                    }
                    if has_server(t0, k) {
                        let j = choose|j: int| 0 <= j < t0.len() && #[trigger] t0[j].id@ == k;
                        assert(t1[j].id@ == k);
                    }
                    if k == servers@[i as int].id@ {
                        assert(t1[i as int].id@ == k);
                    }
                }
            }
            i = i + 1;
        }
        assert(servers@.take(n as int) =~= servers@);
        st
    }

    /// Removes and returns the runtime of `id` (a fresh one where there is none).
    fn take_runtime(&mut self, id: &str) -> (r: Runtime)
        requires
            unique_ids(old(self).runtimes@),
        ensures
            unique_ids(final(self).runtimes@),
            entries_map(final(self).runtimes@) == entries_map(old(self).runtimes@).remove(id@),
            if entries_map(old(self).runtimes@).dom().contains(id@) {
                r == entries_map(old(self).runtimes@)[id@]
            } else {
                r.is_fresh()
            },
            final(self).config == old(self).config,
            final(self).servers == old(self).servers,
            final(self).selected == old(self).selected,
    {
        let n = self.runtimes.len();
        let mut i: usize = 0;
        while i < n
            invariant
                n == self.runtimes@.len(),
                i <= n,
                self.runtimes@ == old(self).runtimes@,
                unique_ids(self.runtimes@),
                self.config == old(self).config,
                self.servers == old(self).servers,
                self.selected == old(self).selected,
                forall|j: int| 0 <= j < i ==> self.runtimes@[j].id@ != id@,
            decreases n - i,
        {
            if text::same(self.runtimes[i].id.as_str(), id) {
                proof {
                    lemma_entries_index(self.runtimes@, i as int);
                    lemma_entries_remove(self.runtimes@, i as int);
                }
                let e = self.runtimes.remove(i);
                return e.runtime;
            }
            i = i + 1;
        }
        proof {
            lemma_entries_dom(self.runtimes@, id@);
            assert(entries_map(self.runtimes@) =~= entries_map(self.runtimes@).remove(id@));
        }
        Runtime::default()
    }

    /// Stores `rt` as the runtime of `id`, which has none.
    fn put_runtime(&mut self, id: String, rt: Runtime)
        requires
            unique_ids(old(self).runtimes@),
            !entries_map(old(self).runtimes@).dom().contains(id@),
        ensures
            unique_ids(final(self).runtimes@),
            entries_map(final(self).runtimes@) == entries_map(old(self).runtimes@).insert(id@, rt),
            final(self).config == old(self).config,
            final(self).servers == old(self).servers,
            final(self).selected == old(self).selected,
    {
        let e = RuntimeEntry { id, runtime: rt };
        proof {
            lemma_entries_push(self.runtimes@, e);
        }
        self.runtimes.push(e);
    }

    /// Position of the first server with identifier `id`.
    fn server_index(&self, id: &str) -> (r: Option<usize>)
        ensures
            match r {
                Some(i) => first_server(self.servers@, id@, i as int),
                None => !has_server(self.servers@, id@),
            },
    {
        let n = self.servers.len();
        let mut i: usize = 0;
        while i < n
            invariant
                n == self.servers@.len(),
                i <= n,
                forall|j: int| 0 <= j < i ==> self.servers@[j].id@ != id@,
            decreases n - i,
        {
            if text::same(self.servers[i].id.as_str(), id) {
                return Some(i);
            }
            i = i + 1;
        }
        None
    }

    /// The application settings.
    pub fn config(&self) -> (r: &AppConfig)
        ensures
            *r == self.config_spec(),
    {
        &self.config
    }

    /// Replaces the application settings.
    pub fn set_config(&mut self, config: AppConfig)
        requires
            old(self).wf(),
        ensures
            final(self).wf(),
            final(self).config_spec() == config,
            final(self).servers_spec() == old(self).servers_spec(),
            final(self).selected_spec() == old(self).selected_spec(),
            final(self).runtimes_spec() == old(self).runtimes_spec(),
    {
        self.config = config;
    }

    /// The registered servers.
    pub fn servers(&self) -> (r: &Vec<Server>)
        ensures
            r@ == self.servers_spec(),
    {
        &self.servers
    }

    /// Identifier of the selected server.
    pub fn selected(&self) -> (r: Option<String>)
        ensures
            match r {
                Some(s) => self.selected_spec() == Some(s@),
                None => self.selected_spec() is None,
            },
    {
        match &self.selected {
            Some(s) => Some(s.clone()),
            None => None,
        }
    }

    /// Selects the server with identifier `id`.
    pub fn select(&mut self, id: &str)
        requires
            old(self).wf(),
        ensures
            final(self).wf(),
            final(self).selected_spec() == Some(id@),
            final(self).config_spec() == old(self).config_spec(),
            final(self).servers_spec() == old(self).servers_spec(),
            final(self).runtimes_spec() == old(self).runtimes_spec(),
    {
        self.selected = Some(id.to_string());
    }

    /// The first server with identifier `id`.
    pub fn server(&self, id: &str) -> (r: Option<&Server>)
        ensures
            match r {
                Some(s) => exists|i: int| first_server(self.servers_spec(), id@, i) && *s == self.servers_spec()[i],
                None => !has_server(self.servers_spec(), id@),
            },
    {
        match self.server_index(id) {
            Some(i) => {
                assert(first_server(self.servers_spec(), id@, i as int));
                Some(&self.servers[i])
            },
            None => None,
        }
    }

    /// The selected server.
    pub fn current_server(&self) -> (r: Option<&Server>)
        ensures
            match r {
                Some(s) => self.selected_spec() matches Some(id) && exists|i: int|
                    first_server(self.servers_spec(), id, i) && *s == self.servers_spec()[i],
                None => match self.selected_spec() {
                    Some(id) => !has_server(self.servers_spec(), id),
                    None => true,
                },
            },
    {
        match &self.selected {
            Some(id) => self.server(id.as_str()),
            None => None,
        }
    }

    /// The runtime state of server `id`.
    pub fn runtime(&self, id: &str) -> (r: Option<&Runtime>)
        requires
            self.wf(),
        ensures
            match r {
                Some(rt) => self.runtimes_spec().dom().contains(id@) && *rt == self.runtimes_spec()[id@],
                None => !self.runtimes_spec().dom().contains(id@),
            },
    {
        let n = self.runtimes.len();
        let mut i: usize = 0;
        while i < n
            invariant
                n == self.runtimes@.len(),
                i <= n,
                unique_ids(self.runtimes@),
                forall|j: int| 0 <= j < i ==> self.runtimes@[j].id@ != id@,
            decreases n - i,
        {
            if text::same(self.runtimes[i].id.as_str(), id) {
                proof {
                    lemma_entries_index(self.runtimes@, i as int);
                }
                return Some(&self.runtimes[i].runtime);
            }
            i = i + 1;
        }
        proof {
            lemma_entries_dom(self.runtimes@, id@);
        }
        None
    }

    /// Whether the selected server's process is starting or running.
    pub fn current_running(&self) -> (r: bool)
        requires
            self.wf(),
        ensures
            r == self.running_spec(),
    {
        match &self.selected {
            Some(id) => match self.runtime(id.as_str()) {
                Some(rt) => rt.status.is_active(),
                None => false,
            },
            None => false,
        }
    }

    /// Sets the status of server `id`, creating its runtime state where there is none.
    pub fn set_status(&mut self, id: &str, status: ServerStatus)
        requires
            old(self).wf(),
        ensures
            final(self).wf(),
            final(self).runtimes_spec().dom() == old(self).runtimes_spec().dom().insert(id@),
            final(self).runtimes_spec().remove(id@) == old(self).runtimes_spec().remove(id@),
            final(self).runtimes_spec()[id@].status == status,
            if old(self).runtimes_spec().dom().contains(id@) {
                let o = old(self).runtimes_spec()[id@];
                let n = final(self).runtimes_spec()[id@];
                n.pid == o.pid && n.started_at == o.started_at && n.console@ == o.console@
            } else {
                let n = final(self).runtimes_spec()[id@];
                n.pid is None && n.started_at is None && n.console@.len() == 0
            },
            final(self).config_spec() == old(self).config_spec(),
            final(self).servers_spec() == old(self).servers_spec(),
            final(self).selected_spec() == old(self).selected_spec(),
    {
        let mut rt = self.take_runtime(id);
        rt.status = status;
        self.put_runtime(id.to_string(), rt);
        proof {
            assert(final(self).runtimes_spec().dom() =~= old(self).runtimes_spec().dom().insert(id@));
            assert(final(self).runtimes_spec().remove(id@) =~= old(self).runtimes_spec().remove(id@));
        }
    }

    /// Appends a line to server `id`'s console, keeping at most the configured number of lines.
    pub fn push_log(&mut self, id: &str, line: LogLine)
        requires
            old(self).wf(),
        ensures
            final(self).wf(),
            final(self).runtimes_spec().dom() == old(self).runtimes_spec().dom().insert(id@),
            final(self).runtimes_spec().remove(id@) == old(self).runtimes_spec().remove(id@),
            if old(self).runtimes_spec().dom().contains(id@) {
                let o = old(self).runtimes_spec()[id@];
                let n = final(self).runtimes_spec()[id@];
                &&& n.status == o.status && n.pid == o.pid && n.started_at == o.started_at
                &&& n.console@ == keep_last(o.console@.push(line), old(self).config_spec().console_buffer_max as nat)
            } else {
                let n = final(self).runtimes_spec()[id@];
                &&& n.status == ServerStatus::Stopped && n.pid is None && n.started_at is None
                &&& n.console@ == keep_last(seq![line], old(self).config_spec().console_buffer_max as nat)
            },
            final(self).config_spec() == old(self).config_spec(),
            final(self).servers_spec() == old(self).servers_spec(),
            final(self).selected_spec() == old(self).selected_spec(),
    {
        let max = self.config.console_buffer_max;
        let mut rt = self.take_runtime(id);
        proof {
            if !old(self).runtimes_spec().dom().contains(id@) {
                assert(rt.console@.push(line) =~= seq![line]);
            }
        }
        rt.push_log(line, max);
        self.put_runtime(id.to_string(), rt);
        proof {
            assert(final(self).runtimes_spec().dom() =~= old(self).runtimes_spec().dom().insert(id@));
            assert(final(self).runtimes_spec().remove(id@) =~= old(self).runtimes_spec().remove(id@));
        }
    }

    /// Records that a process with `pid` was started for server `id` at monotonic time `now_ms`:
    /// the server is starting and its console is cleared.
    pub fn start_process(&mut self, id: &str, pid: u32, now_ms: u64)
        requires
            old(self).wf(),
        ensures
            final(self).wf(),
            final(self).runtimes_spec().dom() == old(self).runtimes_spec().dom().insert(id@),
            final(self).runtimes_spec().remove(id@) == old(self).runtimes_spec().remove(id@),
            final(self).runtimes_spec()[id@].status == ServerStatus::Starting,
            final(self).runtimes_spec()[id@].pid == Some(pid),
            final(self).runtimes_spec()[id@].started_at == Some(now_ms),
            final(self).runtimes_spec()[id@].console@.len() == 0,
            final(self).config_spec() == old(self).config_spec(),
            final(self).servers_spec() == old(self).servers_spec(),
            final(self).selected_spec() == old(self).selected_spec(),
    {
        let mut rt = self.take_runtime(id);
        rt.status = ServerStatus::Starting;
        rt.pid = Some(pid);
        rt.started_at = Some(now_ms);
        rt.console.clear();
        self.put_runtime(id.to_string(), rt);
        proof {
            assert(final(self).runtimes_spec().dom() =~= old(self).runtimes_spec().dom().insert(id@));
            assert(final(self).runtimes_spec().remove(id@) =~= old(self).runtimes_spec().remove(id@));
        }
    }

    /// Forgets server `id`: it leaves the server list, loses its runtime state, and is no
    /// longer selected.
    pub fn remove_server(&mut self, id: &str)
        requires
            old(self).wf(),
        ensures
            final(self).wf(),
            final(self).servers_spec() == without_id(old(self).servers_spec(), id@),
            final(self).runtimes_spec() == old(self).runtimes_spec().remove(id@),
            final(self).selected_spec() == (if old(self).selected_spec() == Some(id@) {
                None
            } else {
                old(self).selected_spec()
            }),
            final(self).config_spec() == old(self).config_spec(),
    {
        loop
            invariant
                unique_ids(self.runtimes@),
                self.runtimes@ == old(self).runtimes@,
                self.config == old(self).config,
                self.selected == old(self).selected,
                without_id(self.servers@, id@) == without_id(old(self).servers@, id@),
            ensures
                unique_ids(self.runtimes@),
                self.runtimes@ == old(self).runtimes@,
                self.config == old(self).config,
                self.selected == old(self).selected,
                self.servers@ == without_id(old(self).servers@, id@),
            decreases self.servers@.len(),
        {
            match self.server_index(id) {
                Some(i) => {
                    proof {
                        lemma_without_remove(self.servers@, i as int, id@);
                    }
                    let _ = self.servers.remove(i);
                },
                None => {
                    proof {
                        lemma_without_absent(self.servers@, id@);
                    }
                    break;
                },
            }
        }
        let _ = self.take_runtime(id);
        let clear = match &self.selected {
            Some(s) => text::same(s.as_str(), id),
            None => false,
        };
        if clear {
            self.selected = None;
        }
    }

    /// Registers `server`, with a fresh runtime state.
    pub fn add_server(&mut self, server: Server)
        requires
            old(self).wf(),
        ensures
            final(self).wf(),
            final(self).servers_spec() == old(self).servers_spec().push(server),
            final(self).others_as(old(self), server.id@),
            final(self).runtimes_spec()[server.id@].is_fresh(),
            final(self).config_spec() == old(self).config_spec(),
            final(self).selected_spec() == old(self).selected_spec(),
    {
        let id = server.id.clone();
        self.servers.push(server);
        let _ = self.take_runtime(id.as_str());
        self.put_runtime(id, Runtime::default());
        proof {
            assert(final(self).runtimes_spec().dom() =~= old(self).runtimes_spec().dom().insert(server.id@));
            assert(final(self).runtimes_spec().remove(server.id@) =~= old(self).runtimes_spec().remove(server.id@));
        }
    }

    /// Gives the first server with identifier `id` the name `name` without surrounding white
    /// space. A blank name changes nothing; the result tells whether the name was taken.
    pub fn rename_server(&mut self, id: &str, name: &str) -> (r: bool)
        requires
            old(self).wf(),
        ensures
            final(self).wf(),
            r == (text::trim_spec(name@).len() > 0),
            if r && has_server(old(self).servers_spec(), id@) {
                exists|i: int| #![auto] first_server(old(self).servers_spec(), id@, i)
                    && final(self).servers_spec().len() == old(self).servers_spec().len()
                    && (forall|j: int| 0 <= j < old(self).servers_spec().len() && j != i
                        ==> final(self).servers_spec()[j] == old(self).servers_spec()[j])
                    && final(self).servers_spec()[i].name@ == text::trim_spec(name@)
                    && final(self).servers_spec()[i].id == old(self).servers_spec()[i].id
                    && final(self).servers_spec()[i].path == old(self).servers_spec()[i].path
                    && final(self).servers_spec()[i].jar_file == old(self).servers_spec()[i].jar_file
                    && final(self).servers_spec()[i].avatar_path == old(self).servers_spec()[i].avatar_path
                    && final(self).servers_spec()[i].jvm_args == old(self).servers_spec()[i].jvm_args
                    && final(self).servers_spec()[i].java_path == old(self).servers_spec()[i].java_path
                    && final(self).servers_spec()[i].auto_restart == old(self).servers_spec()[i].auto_restart
                    && final(self).servers_spec()[i].created_at == old(self).servers_spec()[i].created_at
            } else {
                final(self).servers_spec() == old(self).servers_spec()
            },
            final(self).runtimes_spec() == old(self).runtimes_spec(),
            final(self).config_spec() == old(self).config_spec(),
            final(self).selected_spec() == old(self).selected_spec(),
    {
        let chars = text::chars_of(name);
        let trimmed = text::trim(&chars);
        if trimmed.len() == 0 {
            return false;
        }
        match self.server_index(id) {
            Some(i) => {
                let mut sv = self.servers.remove(i);
                sv.name = text::string_of(&trimmed);
                self.servers.insert(i, sv);
                assert(first_server(old(self).servers_spec(), id@, i as int));
            },
            None => {},
        }
        true
    }

    /// Sets the launch options and Java executable of the first server with identifier `id`.
    pub fn set_launch_settings(&mut self, id: &str, jvm_args: Vec<String>, java_path: String)
        requires
            old(self).wf(),
        ensures
            final(self).wf(),
            if has_server(old(self).servers_spec(), id@) {
                exists|i: int| #![auto] first_server(old(self).servers_spec(), id@, i)
                    && final(self).servers_spec() == old(self).servers_spec().update(i, Server {
                        jvm_args: jvm_args,
                        java_path: java_path,
                        ..old(self).servers_spec()[i]
                    })
            } else {
                final(self).servers_spec() == old(self).servers_spec()
            },
            final(self).runtimes_spec() == old(self).runtimes_spec(),
            final(self).config_spec() == old(self).config_spec(),
            final(self).selected_spec() == old(self).selected_spec(),
    {
        match self.server_index(id) {
            Some(i) => {
                let mut sv = self.servers.remove(i);
                sv.jvm_args = jvm_args;
                sv.java_path = java_path;
                self.servers.insert(i, sv);
                assert(first_server(old(self).servers_spec(), id@, i as int));
                assert(self.servers@ =~= old(self).servers@.update(i as int, sv));
            },
            None => {},
        }
    }

    /// Sets the avatar picture of the first server with identifier `id`.
    pub fn set_avatar(&mut self, id: &str, path: String)
        requires
            old(self).wf(),
        ensures
            final(self).wf(),
            if has_server(old(self).servers_spec(), id@) {
                exists|i: int| #![auto] first_server(old(self).servers_spec(), id@, i)
                    && final(self).servers_spec() == old(self).servers_spec().update(i, Server {
                        avatar_path: Some(path),
                        ..old(self).servers_spec()[i]
                    })
            } else {
                final(self).servers_spec() == old(self).servers_spec()
            },
            final(self).runtimes_spec() == old(self).runtimes_spec(),
            final(self).config_spec() == old(self).config_spec(),
            final(self).selected_spec() == old(self).selected_spec(),
    {
        match self.server_index(id) {
            Some(i) => {
                let mut sv = self.servers.remove(i);
                sv.avatar_path = Some(path);
                self.servers.insert(i, sv);
                assert(first_server(old(self).servers_spec(), id@, i as int));
                assert(self.servers@ =~= old(self).servers@.update(i as int, sv));
            },
            None => {},
        }
    }

    /// Applies an event from the process of server `id` and says what the interface must do.
    /// An output line is kept in the console (bounded by the configured size) and marks the
    /// server running when it reports that start-up finished; an exit detaches the process,
    /// leaves the server stopped or crashed, and asks for a restart after the configured delay
    /// (at least a second) when a crash meets automatic restarts.
    pub fn handle_event(&mut self, id: &str, event: ServerEvent) -> (r: EventOutcome)
        requires
            old(self).wf(),
        ensures
            final(self).wf(),
            final(self).others_as(old(self), id@),
            final(self).config_spec() == old(self).config_spec(),
            final(self).servers_spec() == old(self).servers_spec(),
            final(self).selected_spec() == old(self).selected_spec(),
            match event {
                ServerEvent::Log(line) => {
                    &&& r.show_line == (old(self).selected_spec() == Some(id@))
                    &&& r.status == (if is_done_line(line.text@) {
                        Some(ServerStatus::Running)
                    } else {
                        None
                    })
                    &&& !r.refresh_controls
                    &&& r.restart_after_secs is None
                    &&& !r.finished
                    &&& final(self).status_of(id@) == (if is_done_line(line.text@) {
                        ServerStatus::Running
                    } else {
                        old(self).status_of(id@)
                    })
                    &&& final(self).pid_of(id@) == old(self).pid_of(id@)
                    &&& final(self).started_of(id@) == old(self).started_of(id@)
                    &&& final(self).console_of(id@) == keep_last(
                        old(self).console_of(id@).push(line),
                        old(self).config_spec().console_buffer_max as nat,
                    )
                },
                ServerEvent::Exited(code) => {
                    &&& !r.show_line
                    &&& r.status == Some(status_after_exit(code))
                    &&& r.refresh_controls == (old(self).selected_spec() == Some(id@))
                    &&& r.restart_after_secs == (if status_after_exit(code) == ServerStatus::Crashed
                        && old(self).config_spec().auto_restart {
                        Some(
                            if old(self).config_spec().restart_delay_secs >= 1 {
                                old(self).config_spec().restart_delay_secs
                            } else {
                                1u32
                            },
                        )
                    } else {
                        None
                    })
                    &&& r.finished
                    &&& final(self).status_of(id@) == status_after_exit(code)
                    &&& final(self).pid_of(id@) is None
                    &&& final(self).started_of(id@) is None
                    &&& final(self).console_of(id@) == old(self).console_of(id@)
                },
            },
    {
        let selected = match &self.selected {
            Some(s) => text::same(s.as_str(), id),
            None => false,
        };
        match event {
            ServerEvent::Log(line) => {
                let done = text::contains(line.text.as_str(), "Done (");
                let max = self.config.console_buffer_max;
                let mut rt = self.take_runtime(id);
                if done {
                    rt.status = ServerStatus::Running;
                }
                proof {
                    if !old(self).runtimes_spec().dom().contains(id@) {
                        assert(rt.console@.push(line) =~= seq![line]);
                        assert(old(self).console_of(id@).push(line) =~= seq![line]);
                    }
                }
                rt.push_log(line, max);
                self.put_runtime(id.to_string(), rt);
                proof {
                    assert(final(self).runtimes_spec().dom() =~= old(self).runtimes_spec().dom().insert(id@));
                    assert(final(self).runtimes_spec().remove(id@) =~= old(self).runtimes_spec().remove(id@));
                }
                EventOutcome {
                    show_line: selected,
                    status: if done { Some(ServerStatus::Running) } else { None },
                    refresh_controls: false,
                    restart_after_secs: None,
                    finished: false,
                }
            },
            ServerEvent::Exited(code) => {
                let status = match code {
                    Some(c) => if c == 0 { ServerStatus::Stopped } else { ServerStatus::Crashed },
                    None => ServerStatus::Stopped,
                };
                let mut rt = self.take_runtime(id);
                rt.status = status;
                rt.pid = None;
                rt.started_at = None;
                self.put_runtime(id.to_string(), rt);
                proof {
                    assert(final(self).runtimes_spec().dom() =~= old(self).runtimes_spec().dom().insert(id@));
                    assert(final(self).runtimes_spec().remove(id@) =~= old(self).runtimes_spec().remove(id@));
                }
                let restart = if status == ServerStatus::Crashed && self.config.auto_restart {
                    let d = self.config.restart_delay_secs;
                    Some(if d >= 1 { d } else { 1 })
                } else {
                    None
                };
                EventOutcome {
                    show_line: false,
                    status: Some(status),
                    refresh_controls: selected,
                    restart_after_secs: restart,
                    finished: true,
                }
            },
        }
    }
}

} // verus!
