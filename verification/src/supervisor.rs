//! The supervisor's state: every managed app's configuration and run-time
//! status, kept ordered by app name, and the decisions that process
//! supervision takes on it.
use vstd::prelude::*;

use crate::app::{env_sorted, clone_opt_string, AppConfig, AppConfigView, AppState, AppStatus, AppStatusView, RestartPolicy, clone_strings, clone_pairs, pair_views, opt_view};
use crate::paths::HarborPaths;
use crate::text::{lower, before_first, before_first_char, is_prefix, starts_with, eq_ignore_ascii_case, to_ascii_lowercase, views, lines, tail, tail_lines, concat2, lex_lt, lemma_lex_irreflexive, lemma_lex_asymmetric, lemma_lex_total, lemma_lex_transitive, str_lt, str_eq};

verus! {

/// Run-time bookkeeping for one app.
#[derive(Debug, Clone, Copy, PartialEq, Eq, Structural)]
pub struct RuntimeInfo {
    pub state: AppState,
    pub pid: Option<u32>,
    pub restart_count: u32,
    /// When the current process was started, in seconds since the epoch.
    pub started_at: Option<i64>,
    pub last_exit_code: Option<i32>,
    /// A supervising task owns the app's process and accepts a stop request.
    pub supervised: bool,
}

/// The bookkeeping keeps the state and the supervising task together: an
/// app is running exactly when a supervising task owns its process.
pub open spec fn consistent(rt: RuntimeInfo) -> bool {
    (rt.state == AppState::Running) == rt.supervised
}

/// Every app's bookkeeping is consistent.
pub open spec fn all_consistent(s: Seq<ManagedApp>) -> bool {
    forall|i: int| 0 <= i < s.len() ==> consistent(#[trigger] s[i].runtime)
}

/// Every app's environment is strictly ordered by name.
pub open spec fn all_env_sorted(s: Seq<ManagedApp>) -> bool {
    forall|i: int| 0 <= i < s.len() ==> env_sorted(#[trigger] s[i].config.env)
}

/// The bookkeeping of an app that has never run.
pub open spec fn fresh_runtime() -> RuntimeInfo {
    RuntimeInfo {
        state: AppState::Stopped,
        pid: None,
        restart_count: 0,
        started_at: None,
        last_exit_code: None,
        supervised: false,
    }
}

impl Default for RuntimeInfo {
    fn default() -> (r: Self)
        ensures
            r == fresh_runtime(),
    {
        RuntimeInfo {
            state: AppState::Stopped,
            pid: None,
            restart_count: 0,
            started_at: None,
            last_exit_code: None,
            supervised: false,
        }
    }
}

/// One managed app, as the supervisor sees it.
pub struct ManagedApp {
    pub config: AppConfigView,
    pub runtime: RuntimeInfo,
}

/// Why a supervisor operation was refused.
#[derive(Debug, Clone, PartialEq, Eq)]
pub enum SupervisorError {
    AlreadyExists(String),
    NotFound(String),
}

impl SupervisorError {
    /// The human-readable error text.
    pub fn message(&self) -> (r: String)
        ensures
            r@ == match self {
                SupervisorError::AlreadyExists(n) => "app '"@ + n@ + "' already exists"@,
                SupervisorError::NotFound(n) => "app '"@ + n@ + "' not found"@,
            },
    {
        match self {
            SupervisorError::AlreadyExists(n) => {
                let mut m = concat2("app '", n.as_str());
                m.append("' already exists");
                m
            },
            SupervisorError::NotFound(n) => {
                let mut m = concat2("app '", n.as_str());
                m.append("' not found");
                m
            },
        }
    }
}

/// Whether an app should be running, persisted apart from its declarative
/// config so that a restarted daemon recovers the apps that were running,
/// together with the PID of its last process.
#[derive(Debug, Clone, Copy, PartialEq, Eq, Structural)]
pub struct DesiredState {
    pub running: bool,
    pub pid: Option<u32>,
}

impl Default for DesiredState {
    fn default() -> (r: Self)
        ensures
            r == (DesiredState { running: false, pid: None }),
    {
        DesiredState { running: false, pid: None }
    }
}

/// What `start_app` asks of the caller.
#[derive(Debug, Clone, Copy, PartialEq, Eq, Structural)]
pub struct StartPlan {
    /// The desired state to persist.
    pub desired: DesiredState,
    /// Whether to spawn a supervising task (none is running yet).
    pub spawn: bool,
}

/// What `stop_app` asks of the caller.
#[derive(Debug, Clone, Copy, PartialEq, Eq, Structural)]
pub struct StopPlan {
    /// The desired state to persist.
    pub desired: DesiredState,
    /// Whether to send a stop request to the supervising task.
    pub signal_stop: bool,
}

/// What starting a managed app asks for: its desired state becomes running
/// (keeping the previously recorded PID), and a supervising task is spawned
/// unless one owns its process.
pub open spec fn start_plan(e: ManagedApp, previous: DesiredState) -> StartPlan {
    StartPlan { desired: DesiredState { running: true, pid: previous.pid }, spawn: !e.runtime.supervised }
}

/// What stopping a managed app asks for: its desired state becomes stopped,
/// and the supervising task, if one owns its process, is asked to stop.
pub open spec fn stop_plan(e: ManagedApp) -> StopPlan {
    StopPlan { desired: DesiredState { running: false, pid: None }, signal_stop: e.runtime.supervised }
}

/// How to launch an app's process, as configured when the launch began.
pub struct LaunchSpec {
    pub program: String,
    pub args: Vec<String>,
    pub working_dir: String,
    pub env: Vec<(String, String)>,
    pub restart: RestartSettings,
}

/// The restart settings a launch was made with.
#[derive(Debug, Clone, Copy, PartialEq, Eq, Structural)]
pub struct RestartSettings {
    pub policy: RestartPolicy,
    pub backoff_seconds: u64,
    pub max_backoff_seconds: u64,
}

/// The outcome of preparing one launch of an app.
pub enum LaunchDecision {
    /// The app is no longer managed: supervision ends.
    Gone,
    /// The app has no launch command: it is marked crashed and supervision
    /// ends.
    NoCommand,
    Launch(LaunchSpec),
}

/// Whether a restart policy restarts a process that exited (successfully
/// or not).
pub open spec fn restarts(policy: RestartPolicy, success: bool) -> bool {
    match policy {
        RestartPolicy::Never => false,
        RestartPolicy::Always => true,
        RestartPolicy::OnFailure => !success,
    }
}

/// The bookkeeping after a process exited on its own.
pub open spec fn after_exit(rt: RuntimeInfo, policy: RestartPolicy, code: Option<i32>, success: bool) -> RuntimeInfo {
    RuntimeInfo {
        state: if restarts(policy, success) {
            AppState::Restarting
        } else if success {
            AppState::Stopped
        } else {
            AppState::Crashed
        },
        pid: None,
        restart_count: if restarts(policy, success) {
            if rt.restart_count < u32::MAX {
                (rt.restart_count + 1) as u32
            } else {
                rt.restart_count
            }
        } else {
            rt.restart_count
        },
        started_at: rt.started_at,
        last_exit_code: code,
        supervised: false,
    }
}

/// The bookkeeping after a process was spawned.
pub open spec fn after_spawn(rt: RuntimeInfo, pid: Option<u32>, now: i64) -> RuntimeInfo {
    RuntimeInfo { state: AppState::Running, pid, started_at: Some(now), supervised: true, ..rt }
}

/// The bookkeeping after a deliberate stop killed the process.
pub open spec fn after_stop(rt: RuntimeInfo) -> RuntimeInfo {
    RuntimeInfo { state: AppState::Stopped, pid: None, supervised: false, ..rt }
}

/// The bookkeeping after a failed spawn.
pub open spec fn after_spawn_failure(rt: RuntimeInfo) -> RuntimeInfo {
    RuntimeInfo { state: AppState::Crashed, supervised: false, ..rt }
}

/// `2^e`.
pub open spec fn pow2(e: nat) -> nat
    decreases e,
{
    if e == 0 {
        1
    } else {
        2 * pow2((e - 1) as nat)
    }
}

/// How many times the base backoff is doubled before restart `count`
/// (counting from one): once per earlier restart.
pub open spec fn doublings(count: u32) -> nat {
    if count <= 1 {
        0
    } else {
        (count - 1) as nat
    }
}

/// `b * 2^e`, saturated at `u64::MAX`.
pub open spec fn doubled(b: nat, e: nat) -> nat {
    if b * pow2(e) > u64::MAX {
        u64::MAX as nat
    } else {
        b * pow2(e)
    }
}

/// Seconds to wait before restart number `count` (the first restart is
/// number one): the base backoff (at least one second) doubled once per
/// earlier restart, saturating, and capped at the larger of the maximum
/// and the base.
pub open spec fn backoff(base: u64, max: u64, count: u32) -> u64 {
    let b: nat = if base >= 1 {
        base as nat
    } else {
        1
    };
    let sat = doubled(b, doublings(count));
    let cap: nat = if max >= b {
        max as nat
    } else {
        b
    };
    (if sat < cap {
        sat
    } else {
        cap
    }) as u64
}

/// Uptime of a process started at `started_at`, as of `now`.
pub open spec fn uptime(started_at: Option<i64>, now: i64) -> Option<u64> {
    match started_at {
        Some(t) => Some(
            if now - t > 0 {
                (now - t) as u64
            } else {
                0
            },
        ),
        None => None,
    }
}

/// The status report of one app.
pub open spec fn status_of(e: ManagedApp, now: i64) -> AppStatusView {
    AppStatusView {
        name: e.config.name,
        state: e.runtime.state,
        pid: e.runtime.pid,
        restart_count: e.runtime.restart_count,
        uptime_seconds: uptime(e.runtime.started_at, now),
        memory_bytes: None,
        runtime: e.config.runtime,
        port: e.config.port,
        domain: e.config.domain,
        path_prefix: e.config.path_prefix,
        last_exit_code: e.runtime.last_exit_code,
    }
}

/// The names of the entries whose flag is set, in order.
pub open spec fn selected_names(s: Seq<ManagedApp>, flags: Seq<bool>) -> Seq<Seq<char>>
    decreases s.len(),
{
    if s.len() == 0 {
        seq![]
    } else {
        let rest = selected_names(s.drop_last(), flags.take(s.len() - 1));
        if flags[s.len() - 1] {
            rest.push(s.last().config.name)
        } else {
            rest
        }
    }
}

/// The apps after adding or re-configuring the app that `c` names.
pub open spec fn upserted(m: Map<Seq<char>, ManagedApp>, c: AppConfigView) -> Map<Seq<char>, ManagedApp> {
    m.insert(
        c.name,
        ManagedApp {
            config: c,
            runtime: if m.dom().contains(c.name) {
                m[c.name].runtime
            } else {
                fresh_runtime()
            },
        },
    )
}

/// The apps after applying the configs in order.
pub open spec fn upsert_all(m: Map<Seq<char>, ManagedApp>, cs: Seq<AppConfigView>) -> Map<Seq<char>, ManagedApp>
    decreases cs.len(),
{
    if cs.len() == 0 {
        m
    } else {
        upserted(upsert_all(m, cs.drop_last()), cs.last())
    }
}

/// The views of a sequence of configs.
pub open spec fn config_views(v: Seq<AppConfig>) -> Seq<AppConfigView> {
    v.map_values(|c: AppConfig| c@)
}

/// The last `n` lines of an optional text (none when absent).
pub open spec fn tail_of(text: Option<&str>, n: usize) -> Seq<Seq<char>> {
    match text {
        Some(t) => tail(lines(t@), n as nat),
        None => seq![],
    }
}

/// When `name` is managed, only its run-time state changed, to `rt`;
/// otherwise nothing changed.
pub open spec fn runtime_changed(
    before: Map<Seq<char>, ManagedApp>,
    after: Map<Seq<char>, ManagedApp>,
    after_seq: Seq<ManagedApp>,
    before_seq: Seq<ManagedApp>,
    name: Seq<char>,
    rt: RuntimeInfo,
) -> bool {
    if before.dom().contains(name) {
        after == before.insert(name, ManagedApp { config: before[name].config, runtime: rt })
    } else {
        after_seq == before_seq
    }
}

/// Result of matching an incoming proxy request to a managed app.
#[derive(Debug)]
pub struct RouteMatch {
    pub app_name: String,
    pub target_port: u16,
    /// Path prefix to strip before forwarding, when matched by path rather
    /// than by domain.
    pub strip_prefix: Option<String>,
}

pub struct RouteView {
    pub app_name: Seq<char>,
    pub target_port: u16,
    pub strip_prefix: Option<Seq<char>>,
}

impl View for RouteMatch {
    type V = RouteView;

    open spec fn view(&self) -> RouteView {
        RouteView {
            app_name: self.app_name@,
            target_port: self.target_port,
            strip_prefix: opt_view(self.strip_prefix),
        }
    }
}

/// A `Host` value reduced to the host name: the part before any `:port`,
/// lower-cased.
pub open spec fn host_key(h: Seq<char>) -> Seq<char> {
    lower(before_first(h, ':'))
}

/// The app is reachable at domain `hk`.
pub open spec fn domain_hit(e: ManagedApp, hk: Seq<char>) -> bool {
    e.config.port is Some && (e.config.domain matches Some(d) && lower(d) == hk)
}

/// The app is reachable under a path prefix of `path`.
pub open spec fn prefix_hit(e: ManagedApp, path: Seq<char>) -> bool {
    e.config.port is Some && (e.config.path_prefix matches Some(p) && is_prefix(p, path))
}

pub open spec fn prefix_len(e: ManagedApp) -> nat {
    e.config.path_prefix->0.len()
}

/// No app is reachable at domain `hk`.
pub open spec fn no_domain_hit(s: Seq<ManagedApp>, hk: Seq<char>) -> bool {
    forall|j: int| 0 <= j < s.len() ==> !domain_hit(#[trigger] s[j], hk)
}

/// No app is reachable under a prefix of `path`.
pub open spec fn no_prefix_hit(s: Seq<ManagedApp>, path: Seq<char>) -> bool {
    forall|j: int| 0 <= j < s.len() ==> !prefix_hit(#[trigger] s[j], path)
}

/// Entry `i` is the first app reachable at domain `hk`.
pub open spec fn first_domain_hit(s: Seq<ManagedApp>, hk: Seq<char>, i: int) -> bool {
    &&& 0 <= i < s.len()
    &&& domain_hit(s[i], hk)
    &&& forall|j: int| 0 <= j < i ==> !domain_hit(#[trigger] s[j], hk)
}

/// Entry `i` has the longest path prefix matching `path`, and is the first
/// among equally long ones.
pub open spec fn best_prefix_hit(s: Seq<ManagedApp>, path: Seq<char>, i: int) -> bool {
    &&& 0 <= i < s.len()
    &&& prefix_hit(s[i], path)
    &&& forall|j: int| 0 <= j < s.len() && prefix_hit(#[trigger] s[j], path) ==> prefix_len(s[j]) <= prefix_len(s[i])
    &&& forall|j: int| 0 <= j < i && prefix_hit(#[trigger] s[j], path) ==> prefix_len(s[j]) < prefix_len(s[i])
}

pub open spec fn domain_route(e: ManagedApp) -> RouteView {
    RouteView { app_name: e.config.name, target_port: e.config.port->0, strip_prefix: None }
}

pub open spec fn prefix_route(e: ManagedApp) -> RouteView {
    RouteView { app_name: e.config.name, target_port: e.config.port->0, strip_prefix: e.config.path_prefix }
}

/// `m` is the route that entry `i` wins: by exact host, else by longest
/// path prefix.
pub open spec fn route_winner(s: Seq<ManagedApp>, host: Option<Seq<char>>, path: Seq<char>, i: int, m: RouteView) -> bool {
    ||| (host matches Some(h) && first_domain_hit(s, host_key(h), i) && m == domain_route(s[i]))
    ||| ((host is None || no_domain_hit(s, host_key(host->0))) && best_prefix_hit(s, path, i) && m
        == prefix_route(s[i]))
}

/// No app matches the host or the path.
pub open spec fn no_route(s: Seq<ManagedApp>, host: Option<Seq<char>>, path: Seq<char>) -> bool {
    (host is None || no_domain_hit(s, host_key(host->0))) && no_prefix_hit(s, path)
}

pub open spec fn opt_str_view(o: Option<&str>) -> Option<Seq<char>> {
    match o {
        Some(s) => Some(s@),
        None => None,
    }
}

/// Names strictly increase along the sequence.
pub open spec fn sorted_names(s: Seq<ManagedApp>) -> bool {
    forall|i: int, j: int| 0 <= i < j < s.len() ==> lex_lt(s[i].config.name, s[j].config.name)
}

/// Some entry is named `n`.
pub open spec fn has_name(s: Seq<ManagedApp>, n: Seq<char>) -> bool {
    exists|i: int| 0 <= i < s.len() && #[trigger] s[i].config.name == n
}

/// The position of the entry named `n`.
pub open spec fn index_of(s: Seq<ManagedApp>, n: Seq<char>) -> int {
    choose|i: int| 0 <= i < s.len() && #[trigger] s[i].config.name == n
}

/// The apps by name.
pub open spec fn app_map(s: Seq<ManagedApp>) -> Map<Seq<char>, ManagedApp> {
    Map::new(|n: Seq<char>| has_name(s, n), |n: Seq<char>| s[index_of(s, n)])
}

pub proof fn lemma_index_of(s: Seq<ManagedApp>, i: int)
    requires
        sorted_names(s),
        0 <= i < s.len(),
    ensures
        has_name(s, s[i].config.name),
        index_of(s, s[i].config.name) == i,
        app_map(s)[s[i].config.name] == s[i],
{
    let n = s[i].config.name;
    assert(has_name(s, n));
    let j = index_of(s, n);
    if j < i {
        lemma_lex_irreflexive(n);
    } else if j > i {
        lemma_lex_irreflexive(n);
    }
}

pub proof fn lemma_insert(s: Seq<ManagedApp>, k: int, e: ManagedApp)
    requires
        sorted_names(s),
        0 <= k <= s.len(),
        forall|j: int| 0 <= j < k ==> lex_lt(#[trigger] s[j].config.name, e.config.name),
        forall|j: int| k <= j < s.len() ==> lex_lt(e.config.name, #[trigger] s[j].config.name),
    ensures
        sorted_names(s.insert(k, e)),
        app_map(s.insert(k, e)) == app_map(s).insert(e.config.name, e),
{
    let t = s.insert(k, e);
    assert forall|i: int, j: int| 0 <= i < j < t.len() implies lex_lt(
        t[i].config.name,
        t[j].config.name,
    ) by {
        if i < k && j == k {
        } else if i == k && j > k {
        } else if i < k && j > k {
            lemma_lex_transitive(s[i].config.name, e.config.name, s[j - 1].config.name);
        } else if j < k {
        } else {
            assert(t[i] == s[i - 1] && t[j] == s[j - 1]);
        }
    }
    let m1 = app_map(t);
    let m2 = app_map(s).insert(e.config.name, e);
    assert forall|n: Seq<char>| m1.dom().contains(n) <==> m2.dom().contains(n) by {
        if has_name(t, n) {
            let i = choose|i: int| 0 <= i < t.len() && #[trigger] t[i].config.name == n;
            if i < k {
                assert(s[i].config.name == n);
            } else if i > k {
                assert(s[i - 1].config.name == n);
            }
        }
        if has_name(s, n) {
            let i = choose|i: int| 0 <= i < s.len() && #[trigger] s[i].config.name == n;
            if i < k {
                assert(t[i].config.name == n);
            } else {
                assert(t[i + 1].config.name == n);
            }
        }
        if n == e.config.name {
            assert(t[k].config.name == n);
        }
    }
    assert forall|n: Seq<char>| m1.dom().contains(n) implies m1[n] == m2[n] by {
        if n == e.config.name {
            lemma_index_of(t, k);
        } else {
            let i = choose|i: int| 0 <= i < s.len() && #[trigger] s[i].config.name == n;
            lemma_index_of(s, i);
            if i < k {
                lemma_index_of(t, i);
            } else {
                lemma_index_of(t, i + 1);
            }
        }
    }
    assert(m1 =~= m2);
}

pub proof fn lemma_remove(s: Seq<ManagedApp>, k: int)
    requires
        sorted_names(s),
        0 <= k < s.len(),
    ensures
        sorted_names(s.remove(k)),
        app_map(s.remove(k)) == app_map(s).remove(s[k].config.name),
{
    let t = s.remove(k);
    let name = s[k].config.name;
    assert forall|i: int, j: int| 0 <= i < j < t.len() implies lex_lt(
        t[i].config.name,
        t[j].config.name,
    ) by {
        if i < k && j >= k {
            assert(t[j] == s[j + 1]);
        } else if i >= k {
            assert(t[i] == s[i + 1] && t[j] == s[j + 1]);
        }
    }
    let m1 = app_map(t);
    let m2 = app_map(s).remove(name);
    assert forall|n: Seq<char>| m1.dom().contains(n) <==> m2.dom().contains(n) by {
        if has_name(t, n) {
            let i = choose|i: int| 0 <= i < t.len() && #[trigger] t[i].config.name == n;
            if i < k {
                assert(s[i].config.name == n);
                lemma_lex_irreflexive(n);
            } else {
                assert(s[i + 1].config.name == n);
                lemma_lex_irreflexive(n);
            }
        }
        if has_name(s, n) && n != name {
            let i = choose|i: int| 0 <= i < s.len() && #[trigger] s[i].config.name == n;
            if i < k {
                assert(t[i].config.name == n);
            } else {
                assert(i != k);
                assert(t[i - 1].config.name == n);
            }
        }
    }
    assert forall|n: Seq<char>| m1.dom().contains(n) implies m1[n] == m2[n] by {
        let i = choose|i: int| 0 <= i < s.len() && #[trigger] s[i].config.name == n;
        lemma_index_of(s, i);
        if i < k {
            lemma_index_of(t, i);
        } else {
            assert(i != k);
            lemma_index_of(t, i - 1);
        }
    }
    assert(m1 =~= m2);
}

pub proof fn lemma_update(s: Seq<ManagedApp>, k: int, e: ManagedApp)
    requires
        sorted_names(s),
        0 <= k < s.len(),
        e.config.name == s[k].config.name,
    ensures
        sorted_names(s.update(k, e)),
        app_map(s.update(k, e)) == app_map(s).insert(e.config.name, e),
{
    let t = s.update(k, e);
    assert forall|i: int, j: int| 0 <= i < j < t.len() implies lex_lt(
        t[i].config.name,
        t[j].config.name,
    ) by {
        assert(t[i].config.name == s[i].config.name);
        assert(t[j].config.name == s[j].config.name);
    }
    let m1 = app_map(t);
    let m2 = app_map(s).insert(e.config.name, e);
    assert forall|n: Seq<char>| m1.dom().contains(n) <==> m2.dom().contains(n) by {
        if has_name(t, n) {
            let i = choose|i: int| 0 <= i < t.len() && #[trigger] t[i].config.name == n;
            assert(s[i].config.name == n);
        }
        if has_name(s, n) {
            let i = choose|i: int| 0 <= i < s.len() && #[trigger] s[i].config.name == n;
            assert(t[i].config.name == n);
        }
    }
    assert forall|n: Seq<char>| m1.dom().contains(n) implies m1[n] == m2[n] by {
        let i = choose|i: int| 0 <= i < t.len() && #[trigger] t[i].config.name == n;
        lemma_index_of(t, i);
        if i != k {
            assert(s[i].config.name == n);
            lemma_index_of(s, i);
            lemma_lex_irreflexive(n);
            assert(n != e.config.name);
        } else {
            assert(n == e.config.name);
        }
    }
    assert(m1 =~= m2);
}

proof fn lemma_pow2_mono(e: nat, f: nat)
    requires
        e <= f,
    ensures
        1 <= pow2(e) <= pow2(f),
    decreases f,
{
    if f > e {
        lemma_pow2_mono(e, (f - 1) as nat);
    } else if e > 0 {
        lemma_pow2_mono((e - 1) as nat, (e - 1) as nat);
    }
}

proof fn lemma_doubled_step(b: nat, i: nat)
    requires
        b >= 1,
    ensures
        doubled(b, i) <= u64::MAX / 2 ==> doubled(b, i + 1) == 2 * doubled(b, i),
        doubled(b, i) > u64::MAX / 2 ==> doubled(b, i + 1) == u64::MAX,
{
    assert(pow2(i + 1) == 2 * pow2(i));
    assert(b * pow2(i + 1) == 2 * (b * pow2(i))) by (nonlinear_arith)
        requires
            pow2(i + 1) == 2 * pow2(i),
    ;
    lemma_pow2_mono(i, i + 1);
    assert(b * pow2(i) <= b * pow2(i + 1)) by (nonlinear_arith)
        requires
            pow2(i) <= pow2(i + 1),
    ;
}

proof fn lemma_doubled_mono(b: nat, i: nat, j: nat)
    requires
        i <= j,
    ensures
        doubled(b, i) <= doubled(b, j),
{
    lemma_pow2_mono(i, j);
    assert(b * pow2(i) <= b * pow2(j)) by (nonlinear_arith)
        requires
            pow2(i) <= pow2(j),
    ;
}

/// Seconds to wait before restart number `count`.
pub fn backoff_seconds(base: u64, max: u64, count: u32) -> (r: u64)
    ensures
        r == backoff(base, max, count),
{
    let b: u64 = if base >= 1 {
        base
    } else {
        1
    };
    let e: u32 = if count <= 1 {
        0
    } else {
        count - 1
    };
    let cap: u64 = if max >= b {
        max
    } else {
        b
    };
    let mut p: u64 = b;
    let mut i: u32 = 0;
    proof {
        assert(pow2(0) == 1);
        assert(b as nat * pow2(0) == b as nat);
    }
    while i < e && p < cap
        invariant
            i <= e,
            e as nat == doublings(count),
            b >= 1,
            p as nat == doubled(b as nat, i as nat),
        decreases e - i,
    {
        proof {
            lemma_doubled_step(b as nat, i as nat);
        }
        if p > u64::MAX / 2 {
            p = u64::MAX;
        } else {
            p = p * 2;
        }
        i = i + 1;
    }
    proof {
        lemma_doubled_mono(b as nat, i as nat, e as nat);
    }
    if p < cap {
        p
    } else {
        cap
    }
}

fn uptime_seconds(started_at: Option<i64>, now: i64) -> (r: Option<u64>)
    ensures
        r == uptime(started_at, now),
{
    match started_at {
        Some(t) => {
            let d: i128 = now as i128 - t as i128;
            Some(
                if d > 0 {
                    d as u64
                } else {
                    0
                },
            )
        },
        None => None,
    }
}

fn build_status(cfg: &AppConfig, info: RuntimeInfo, now: i64) -> (r: AppStatus)
    ensures
        r@ == status_of(ManagedApp { config: cfg@, runtime: info }, now),
{
    AppStatus {
        name: cfg.name.clone(),
        state: info.state,
        pid: info.pid,
        restart_count: info.restart_count,
        uptime_seconds: uptime_seconds(info.started_at, now),
        memory_bytes: None,
        runtime: cfg.runtime,
        port: cfg.port,
        domain: clone_opt_string(&cfg.domain),
        path_prefix: clone_opt_string(&cfg.path_prefix),
        last_exit_code: info.last_exit_code,
    }
}

/// Strictly increasing in `lex_lt`.
pub open spec fn strictly_sorted(v: Seq<Seq<char>>) -> bool {
    forall|i: int, j: int| 0 <= i < j < v.len() ==> lex_lt(v[i], v[j])
}

/// Inserts `x` into a strictly sorted vector unless it is already there.
pub fn insert_sorted_unique(v: &mut Vec<String>, x: String)
    requires
        strictly_sorted(views(old(v)@)),
    ensures
        strictly_sorted(views(final(v)@)),
        forall|d: Seq<char>| views(final(v)@).contains(d) <==> (views(old(v)@).contains(d) || d == x@),
{
    let n = v.len();
    let mut i: usize = 0;
    while i < n && str_lt(v[i].as_str(), x.as_str())
        invariant
            n == v@.len(),
            i <= n,
            forall|j: int| 0 <= j < i ==> lex_lt(#[trigger] views(v@)[j], x@),
        decreases n - i,
    {
        i = i + 1;
    }
    if i < n && str_eq(v[i].as_str(), x.as_str()) {
        proof {
            assert(views(v@)[i as int] == x@);
        }
        return;
    }
    let ghost old_views = views(v@);
    proof {
        assert forall|j: int| i <= j < n implies lex_lt(x@, #[trigger] old_views[j]) by {
            lemma_lex_total(old_views[i as int], x@);
            if j > i {
                lemma_lex_transitive(x@, old_views[i as int], old_views[j]);
            }
        }
    }
    v.insert(i, x);
    proof {
        let nv = views(v@);
        assert(nv =~= old_views.insert(i as int, x@));
        assert forall|a: int, b: int| 0 <= a < b < nv.len() implies lex_lt(nv[a], nv[b]) by {
            if a < i && b > i {
                lemma_lex_transitive(nv[a], x@, nv[b]);
            }
        }
        assert forall|d: Seq<char>| nv.contains(d) <==> (old_views.contains(d) || d == x@) by {
            if nv.contains(d) {
                let k = choose|k: int| 0 <= k < nv.len() && nv[k] == d;
                if k < i {
                    assert(old_views[k] == d);
                } else if k > i {
                    assert(old_views[k - 1] == d);
                }
            }
            if old_views.contains(d) {
                let k = choose|k: int| 0 <= k < old_views.len() && old_views[k] == d;
                if k < i {
                    assert(nv[k] == d);
                } else {
                    assert(nv[k + 1] == d);
                }
            }
            if d == x@ {
                assert(nv[i as int] == d);
            }
        }
    }
}

/// The supervisor: the configuration and run-time state of every managed
/// app, and the installation's filesystem layout.
pub struct Supervisor {
    paths: HarborPaths,
    configs: Vec<AppConfig>,
    runtime: Vec<RuntimeInfo>,
}

impl View for Supervisor {
    type V = Seq<ManagedApp>;

    closed spec fn view(&self) -> Seq<ManagedApp> {
        Seq::new(
            self.configs@.len(),
            |i: int| ManagedApp { config: self.configs@[i]@, runtime: self.runtime@[i] },
        )
    }
}

impl Supervisor {
    /// The installation's filesystem layout.
    pub closed spec fn layout(&self) -> HarborPaths {
        self.paths
    }

    pub fn paths(&self) -> (r: &HarborPaths)
        ensures
            *r == self.layout(),
    {
        &self.paths
    }

    pub closed spec fn inv(&self) -> bool {
        self.configs@.len() == self.runtime@.len()
    }

    /// Well-formed: entries are kept in strictly increasing name order.
    pub open spec fn wf(&self) -> bool {
        self.inv() && sorted_names(self@) && all_consistent(self@) && all_env_sorted(self@)
    }

    /// The managed apps by name.
    pub open spec fn apps(&self) -> Map<Seq<char>, ManagedApp> {
        app_map(self@)
    }

    pub fn new(paths: HarborPaths) -> (r: Supervisor)
        ensures
            r.wf(),
            r@.len() == 0,
            r.layout() == paths,
    {
        Supervisor { paths, configs: Vec::new(), runtime: Vec::new() }
    }

    /// Number of managed apps.
    pub fn len(&self) -> (r: usize)
        requires
            self.wf(),
        ensures
            r == self@.len(),
    {
        self.configs.len()
    }

    /// Where `name` is, or would be inserted: the first position whose name
    /// is not below `name`, and whether that entry is named `name`.
    fn locate(&self, name: &str) -> (r: (usize, bool))
        requires
            self.wf(),
        ensures
            r.0 <= self@.len(),
            forall|j: int| 0 <= j < r.0 ==> lex_lt(#[trigger] self@[j].config.name, name@),
            forall|j: int| r.0 <= j < self@.len() ==> !lex_lt(#[trigger] self@[j].config.name, name@),
            r.1 <==> (r.0 < self@.len() && self@[r.0 as int].config.name == name@),
            !r.1 ==> forall|j: int| r.0 <= j < self@.len() ==> lex_lt(name@, #[trigger] self@[j].config.name),
            r.1 <==> has_name(self@, name@),
    {
        let n = self.configs.len();
        let mut i: usize = 0;
        while i < n && str_lt(self.configs[i].name.as_str(), name)
            invariant
                self.wf(),
                n == self@.len(),
                i <= n,
                forall|j: int| 0 <= j < i ==> lex_lt(#[trigger] self@[j].config.name, name@),
            decreases n - i,
        {
            i = i + 1;
        }
        let found = i < n && str_eq(self.configs[i].name.as_str(), name);
        proof {
            let s = self@;
            assert forall|j: int| i <= j < s.len() implies !lex_lt(#[trigger] s[j].config.name, name@) by {
                if j > i {
                    lemma_lex_asymmetric(s[i as int].config.name, name@);
                    if lex_lt(s[j].config.name, name@) {
                        if s[i as int].config.name == name@ {
                            lemma_lex_asymmetric(s[i as int].config.name, s[j].config.name);
                        } else {
                            lemma_lex_total(s[i as int].config.name, name@);
                            lemma_lex_transitive(name@, s[i as int].config.name, s[j].config.name);
                            lemma_lex_asymmetric(name@, s[j].config.name);
                        }
                    }
                }
            }
            if !found {
                assert forall|j: int| i <= j < s.len() implies lex_lt(name@, #[trigger] s[j].config.name) by {
                    lemma_lex_total(s[i as int].config.name, name@);
                    if j > i {
                        lemma_lex_transitive(name@, s[i as int].config.name, s[j].config.name);
                    }
                }
                if has_name(s, name@) {
                    let k = choose|k: int| 0 <= k < s.len() && #[trigger] s[k].config.name == name@;
                    lemma_lex_irreflexive(name@);
                }
            }
        }
        (i, found)
    }

    /// Whether an app named `name` is managed.
    pub fn has_app(&self, name: &str) -> (r: bool)
        requires
            self.wf(),
        ensures
            r == self.apps().dom().contains(name@),
    {
        let (_, found) = self.locate(name);
        found
    }

    /// Registers a new app, in the `Stopped` state.
    pub fn add_app(&mut self, config: AppConfig) -> (r: Result<(), SupervisorError>)
        requires
            old(self).wf(),
            env_sorted(config@.env),
        ensures
            final(self).wf(),
            final(self).layout() == old(self).layout(),
            r is Ok <==> !old(self).apps().dom().contains(config@.name),
            r is Ok ==> final(self).apps() == old(self).apps().insert(
                config@.name,
                ManagedApp { config: config@, runtime: fresh_runtime() },
            ),
            r is Err ==> final(self)@ == old(self)@ && (r->Err_0 matches SupervisorError::AlreadyExists(n)
                && n@ == config@.name),
    {
        let (k, found) = self.locate(config.name.as_str());
        if found {
            return Err(SupervisorError::AlreadyExists(config.name));
        }
        let ghost old_view = self@;
        let ghost e = ManagedApp { config: config@, runtime: fresh_runtime() };
        self.configs.insert(k, config);
        self.runtime.insert(k, RuntimeInfo::default());
        proof {
            assert(self@ =~= old_view.insert(k as int, e));
            lemma_insert(old_view, k as int, e);
        }
        Ok(())
    }

    fn set_runtime(&mut self, k: usize, rt: RuntimeInfo)
        requires
            old(self).wf(),
            k < old(self)@.len(),
            consistent(rt),
        ensures
            final(self).wf(),
            final(self).layout() == old(self).layout(),
            final(self)@ == old(self)@.update(
                k as int,
                ManagedApp { config: old(self)@[k as int].config, runtime: rt },
            ),
            final(self).apps() == old(self).apps().insert(
                old(self)@[k as int].config.name,
                ManagedApp { config: old(self)@[k as int].config, runtime: rt },
            ),
    {
        let ghost old_view = self@;
        let ghost e = ManagedApp { config: old_view[k as int].config, runtime: rt };
        self.runtime.set(k, rt);
        proof {
            assert(self@ =~= old_view.update(k as int, e));
            lemma_update(old_view, k as int, e);
        }
    }

    /// A copy of an app's configuration.
    pub fn get_config(&self, name: &str) -> (r: Option<AppConfig>)
        requires
            self.wf(),
        ensures
            match r {
                Some(c) => self.apps().dom().contains(name@) && c@ == self.apps()[name@].config,
                None => !self.apps().dom().contains(name@),
            },
    {
        let (k, found) = self.locate(name);
        if !found {
            return None;
        }
        proof {
            lemma_index_of(self@, k as int);
        }
        Some(self.configs[k].clone())
    }

    /// Replaces the configuration of an existing app, keeping its run-time
    /// state.
    pub fn update_config(&mut self, config: AppConfig) -> (r: Result<(), SupervisorError>)
        requires
            old(self).wf(),
            env_sorted(config@.env),
        ensures
            final(self).wf(),
            final(self).layout() == old(self).layout(),
            r is Ok <==> old(self).apps().dom().contains(config@.name),
            r is Ok ==> final(self).apps() == old(self).apps().insert(
                config@.name,
                ManagedApp { config: config@, runtime: old(self).apps()[config@.name].runtime },
            ),
            r is Err ==> final(self)@ == old(self)@ && (r->Err_0 matches SupervisorError::NotFound(n)
                && n@ == config@.name),
    {
        let (k, found) = self.locate(config.name.as_str());
        if !found {
            return Err(SupervisorError::NotFound(config.name));
        }
        let ghost old_view = self@;
        proof {
            lemma_index_of(old_view, k as int);
        }
        let ghost e = ManagedApp { config: config@, runtime: old_view[k as int].runtime };
        self.configs.set(k, config);
        proof {
            assert(self@ =~= old_view.update(k as int, e));
            lemma_update(old_view, k as int, e);
        }
        Ok(())
    }

    /// Adds a new app or replaces the configuration of an existing one
    /// (keeping its run-time state).
    pub fn upsert_config(&mut self, config: AppConfig)
        requires
            old(self).wf(),
            env_sorted(config@.env),
        ensures
            final(self).wf(),
            final(self).layout() == old(self).layout(),
            final(self).apps() == upserted(old(self).apps(), config@),
    {
        let (k, found) = self.locate(config.name.as_str());
        let ghost old_view = self@;
        if found {
            proof {
                lemma_index_of(old_view, k as int);
            }
            let ghost e = ManagedApp { config: config@, runtime: old_view[k as int].runtime };
            self.configs.set(k, config);
            proof {
                assert(self@ =~= old_view.update(k as int, e));
                lemma_update(old_view, k as int, e);
            }
        } else {
            let ghost e = ManagedApp { config: config@, runtime: fresh_runtime() };
            self.configs.insert(k, config);
            self.runtime.insert(k, RuntimeInfo::default());
            proof {
                assert(self@ =~= old_view.insert(k as int, e));
                lemma_insert(old_view, k as int, e);
            }
        }
    }

    /// Applies freshly loaded app configs: new apps are added and existing
    /// ones get the new config; apps absent from `configs` stay as they
    /// are. Returns how many configs were applied.
    pub fn reload_configs(&mut self, configs: Vec<AppConfig>) -> (r: usize)
        requires
            old(self).wf(),
            forall|i: int| 0 <= i < configs@.len() ==> env_sorted(#[trigger] configs@[i]@.env),
        ensures
            final(self).wf(),
            final(self).layout() == old(self).layout(),
            r == configs@.len(),
            final(self).apps() == upsert_all(old(self).apps(), config_views(configs@)),
    {
        let n = configs.len();
        let mut configs = configs;
        let ghost all = config_views(configs@);
        let ghost start = self.apps();
        let mut done: Vec<AppConfig> = Vec::new();
        let mut i: usize = 0;
        proof {
            assert(all.take(0) =~= Seq::<AppConfigView>::empty());
            assert forall|j: int| 0 <= j < all.len() implies env_sorted(#[trigger] all[j].env) by {
                assert(all[j] == configs@[j]@);
            }
        }
        while i < n
            invariant
                self.wf(),
                self.layout() == old(self).layout(),
                n == all.len(),
                forall|j: int| 0 <= j < all.len() ==> env_sorted(#[trigger] all[j].env),
                i <= n,
                configs@.len() == n - i,
                config_views(configs@) == all.subrange(i as int, n as int),
                self.apps() == upsert_all(start, all.take(i as int)),
            decreases n - i,
        {
            let ghost before = configs@;
            let c = configs.remove(0);
            proof {
                assert(config_views(before)[0] == all.subrange(i as int, n as int)[0]);
                assert(c@ == all[i as int]);
                assert(configs@ =~= before.subrange(1, before.len() as int));
                assert forall|j: int| 0 <= j < configs@.len() implies #[trigger] config_views(
                    configs@,
                )[j] == all.subrange(i + 1, n as int)[j] by {
                    assert(configs@[j] == before[j + 1]);
                    assert(config_views(before)[j + 1] == all.subrange(i as int, n as int)[j + 1]);
                }
                assert(config_views(configs@) =~= all.subrange(i + 1, n as int));
            }
            self.upsert_config(c);
            proof {
                let t = all.take(i + 1);
                assert(t.drop_last() =~= all.take(i as int));
                assert(t.last() == all[i as int]);
            }
            i = i + 1;
        }
        proof {
            assert(all.take(n as int) =~= all);
        }
        n
    }

    /// The status report of one app, as of `now` (seconds since the epoch).
    pub fn status(&self, name: &str, now: i64) -> (r: Option<AppStatus>)
        requires
            self.wf(),
        ensures
            match r {
                Some(st) => self.apps().dom().contains(name@) && st@ == status_of(self.apps()[name@], now),
                None => !self.apps().dom().contains(name@),
            },
    {
        let (k, found) = self.locate(name);
        if !found {
            return None;
        }
        proof {
            lemma_index_of(self@, k as int);
        }
        Some(build_status(&self.configs[k], self.runtime[k], now))
    }

    /// The status reports of all apps, ordered by name.
    pub fn status_all(&self, now: i64) -> (r: Vec<AppStatus>)
        requires
            self.wf(),
        ensures
            r@.len() == self@.len(),
            forall|i: int| 0 <= i < r@.len() ==> #[trigger] r@[i]@ == status_of(self@[i], now),
    {
        let n = self.configs.len();
        let mut out: Vec<AppStatus> = Vec::new();
        let mut i: usize = 0;
        while i < n
            invariant
                self.wf(),
                n == self@.len(),
                i <= n,
                out@.len() == i,
                forall|j: int| 0 <= j < i ==> #[trigger] out@[j]@ == status_of(self@[j], now),
            decreases n - i,
        {
            let st = build_status(&self.configs[i], self.runtime[i], now);
            out.push(st);
            i = i + 1;
        }
        out
    }

    /// The names of all apps, in order.
    pub fn names(&self) -> (r: Vec<String>)
        requires
            self.wf(),
        ensures
            r@.len() == self@.len(),
            forall|i: int| 0 <= i < r@.len() ==> #[trigger] r@[i]@ == self@[i].config.name,
    {
        let n = self.configs.len();
        let mut out: Vec<String> = Vec::new();
        let mut i: usize = 0;
        while i < n
            invariant
                self.wf(),
                n == self@.len(),
                i <= n,
                out@.len() == i,
                forall|j: int| 0 <= j < i ==> #[trigger] out@[j]@ == self@[j].config.name,
            decreases n - i,
        {
            out.push(self.configs[i].name.clone());
            i = i + 1;
        }
        out
    }

    /// The names of the apps whose persisted desired state says running;
    /// `running[i]` is that flag for the `i`-th name of `names()`.
    pub fn names_with_desired_running(&self, running: &Vec<bool>) -> (r: Vec<String>)
        requires
            self.wf(),
            running@.len() == self@.len(),
        ensures
            views(r@) == selected_names(self@, running@),
    {
        let n = self.configs.len();
        let mut out: Vec<String> = Vec::new();
        let mut i: usize = 0;
        proof {
            assert(self@.take(0) =~= Seq::<ManagedApp>::empty());
            assert(views(out@) =~= selected_names(self@.take(0), running@.take(0)));
        }
        while i < n
            invariant
                self.wf(),
                n == self@.len() == running@.len(),
                i <= n,
                views(out@) == selected_names(self@.take(i as int), running@.take(i as int)),
            decreases n - i,
        {
            let ghost prev = out@;
            if running[i] {
                out.push(self.configs[i].name.clone());
            }
            proof {
                let s2 = self@.take(i + 1);
                let f2 = running@.take(i + 1);
                assert(s2.drop_last() =~= self@.take(i as int));
                assert(f2.take(s2.len() - 1) =~= running@.take(i as int));
                assert(views(out@) =~= selected_names(s2, f2));
            }
            i = i + 1;
        }
        proof {
            assert(self@.take(n as int) =~= self@);
            assert(running@.take(n as int) =~= running@);
        }
        out
    }

    /// Whether a supervising task currently owns the app's process.
    pub fn is_supervised(&self, name: &str) -> (r: bool)
        requires
            self.wf(),
        ensures
            r == (self.apps().dom().contains(name@) && self.apps()[name@].runtime.supervised),
    {
        let (k, found) = self.locate(name);
        if !found {
            return false;
        }
        proof {
            lemma_index_of(self@, k as int);
        }
        self.runtime[k].supervised
    }

    /// Starting an app: it must exist; its desired state becomes running
    /// (keeping the previously recorded PID, so an orphan of an earlier
    /// daemon can be found), and a supervising task is spawned unless one is
    /// already running.
    pub fn start_app(&self, name: &str, previous: DesiredState) -> (r: Result<StartPlan, SupervisorError>)
        requires
            self.wf(),
        ensures
            r is Ok <==> self.apps().dom().contains(name@),
            r matches Ok(p) ==> p == start_plan(self.apps()[name@], previous),
            r matches Err(e) ==> (e matches SupervisorError::NotFound(n) && n@ == name@),
    {
        let (k, found) = self.locate(name);
        if !found {
            return Err(SupervisorError::NotFound(name.to_string()));
        }
        proof {
            lemma_index_of(self@, k as int);
        }
        Ok(StartPlan {
            desired: DesiredState { running: true, pid: previous.pid },
            spawn: !self.runtime[k].supervised,
        })
    }

    /// Stopping an app: it must exist; its desired state becomes stopped
    /// (forgetting the PID), and its supervising task, if any, is asked to
    /// stop.
    pub fn stop_app(&self, name: &str) -> (r: Result<StopPlan, SupervisorError>)
        requires
            self.wf(),
        ensures
            r is Ok <==> self.apps().dom().contains(name@),
            r matches Ok(p) ==> p == stop_plan(self.apps()[name@]),
            r matches Err(e) ==> (e matches SupervisorError::NotFound(n) && n@ == name@),
    {
        let (k, found) = self.locate(name);
        if !found {
            return Err(SupervisorError::NotFound(name.to_string()));
        }
        proof {
            lemma_index_of(self@, k as int);
        }
        Ok(StopPlan {
            desired: DesiredState { running: false, pid: None },
            signal_stop: self.runtime[k].supervised,
        })
    }

    /// The last `lines` lines of an app's captured stdout and stderr, given
    /// the text of the two log files (`None` when a file could not be read,
    /// which yields no lines).
    pub fn tail_logs(
        &self,
        name: &str,
        lines: usize,
        stdout_text: Option<&str>,
        stderr_text: Option<&str>,
    ) -> (r: Result<(Vec<String>, Vec<String>), SupervisorError>)
        requires
            self.wf(),
        ensures
            r is Ok <==> self.apps().dom().contains(name@),
            r matches Ok(p) ==> views(p.0@) == tail_of(stdout_text, lines) && views(p.1@) == tail_of(
                stderr_text,
                lines,
            ),
            r matches Err(e) ==> (e matches SupervisorError::NotFound(n) && n@ == name@),
    {
        if !self.has_app(name) {
            return Err(SupervisorError::NotFound(name.to_string()));
        }
        let out = match stdout_text {
            Some(t) => tail_lines(t, lines),
            None => Vec::new(),
        };
        let err = match stderr_text {
            Some(t) => tail_lines(t, lines),
            None => Vec::new(),
        };
        proof {
            if stdout_text is None {
                assert(views(out@) =~= Seq::<Seq<char>>::empty());
            }
            if stderr_text is None {
                assert(views(err@) =~= Seq::<Seq<char>>::empty());
            }
        }
        Ok((out, err))
    }

    /// Prepares one launch of an app's process: `Gone` when the app is no
    /// longer managed, `NoCommand` (marking it crashed) when its command is
    /// empty, else the program, arguments, directory and environment to run
    /// it with, and its restart settings.
    pub fn prepare_launch(&mut self, name: &str) -> (r: LaunchDecision)
        requires
            old(self).wf(),
        ensures
            final(self).wf(),
            final(self).layout() == old(self).layout(),
            !old(self).apps().dom().contains(name@) ==> r is Gone && final(self)@ == old(self)@,
            old(self).apps().dom().contains(name@) ==> ({
                let e = old(self).apps()[name@];
                if e.config.command.len() == 0 {
                    &&& r is NoCommand
                    &&& final(self).apps() == old(self).apps().insert(
                        name@,
                        ManagedApp {
                            config: e.config,
                            runtime: RuntimeInfo { state: AppState::Crashed, supervised: false, ..e.runtime },
                        },
                    )
                } else {
                    &&& final(self)@ == old(self)@
                    &&& r matches LaunchDecision::Launch(spec) && {
                        &&& spec.program@ == e.config.command[0]
                        &&& views(spec.args@) == e.config.command.drop_first()
                        &&& spec.working_dir@ == match e.config.working_dir {
                            Some(w) => w,
                            None => e.config.path,
                        }
                        &&& pair_views(spec.env@) == e.config.env
                        &&& spec.restart == (RestartSettings {
                            policy: e.config.restart_policy,
                            backoff_seconds: e.config.restart_backoff_seconds,
                            max_backoff_seconds: e.config.restart_max_backoff_seconds,
                        })
                    }
                }
            }),
    {
        let (k, found) = self.locate(name);
        if !found {
            return LaunchDecision::Gone;
        }
        proof {
            lemma_index_of(self@, k as int);
        }
        if self.configs[k].command.len() == 0 {
            let rt = RuntimeInfo { state: AppState::Crashed, supervised: false, ..self.runtime[k] };
            self.set_runtime(k, rt);
            return LaunchDecision::NoCommand;
        }
        let cfg = &self.configs[k];
        let program = cfg.command[0].clone();
        let mut args: Vec<String> = Vec::new();
        let mut i: usize = 1;
        while i < cfg.command.len()
            invariant
                1 <= i <= cfg.command@.len(),
                views(args@) == views(cfg.command@).subrange(1, i as int),
            decreases cfg.command@.len() - i,
        {
            let ghost prev = args@;
            args.push(cfg.command[i].clone());
            assert(views(args@) =~= views(prev).push(cfg.command@[i as int]@));
            i = i + 1;
            assert(views(args@) =~= views(cfg.command@).subrange(1, i as int));
        }
        assert(views(cfg.command@).subrange(1, cfg.command@.len() as int) =~= views(
            cfg.command@,
        ).drop_first());
        LaunchDecision::Launch(
            LaunchSpec {
                program,
                args,
                working_dir: cfg.effective_working_dir(),
                env: clone_pairs(&cfg.env),
                restart: RestartSettings {
                    policy: cfg.restart_policy,
                    backoff_seconds: cfg.restart_backoff_seconds,
                    max_backoff_seconds: cfg.restart_max_backoff_seconds,
                },
            },
        )
    }

    /// Records that spawning the app's process failed: it is crashed and no
    /// longer supervised.
    pub fn record_spawn_failure(&mut self, name: &str)
        requires
            old(self).wf(),
        ensures
            final(self).wf(),
            final(self).layout() == old(self).layout(),
            runtime_changed(old(self).apps(), final(self).apps(), final(self)@, old(self)@, name@,
                after_spawn_failure(old(self).apps()[name@].runtime)),
    {
        let (k, found) = self.locate(name);
        if found {
            proof {
                lemma_index_of(self@, k as int);
            }
            let rt = self.runtime[k];
            self.set_runtime(k, RuntimeInfo { state: AppState::Crashed, supervised: false, ..rt });
        }
    }

    /// Records that the app's process was spawned at `now` with `pid`.
    pub fn record_spawned(&mut self, name: &str, pid: Option<u32>, now: i64)
        requires
            old(self).wf(),
        ensures
            final(self).wf(),
            final(self).layout() == old(self).layout(),
            runtime_changed(old(self).apps(), final(self).apps(), final(self)@, old(self)@, name@,
                after_spawn(old(self).apps()[name@].runtime, pid, now)),
    {
        let (k, found) = self.locate(name);
        if found {
            proof {
                lemma_index_of(self@, k as int);
            }
            let rt = self.runtime[k];
            self.set_runtime(
                k,
                RuntimeInfo { state: AppState::Running, pid, started_at: Some(now), supervised: true, ..rt },
            );
        }
    }

    /// Records that the app's process exited on its own with `code`
    /// (successfully or not), applying `policy`; returns whether the app is
    /// to be restarted.
    pub fn record_exit(&mut self, name: &str, policy: RestartPolicy, code: Option<i32>, success: bool) -> (r: bool)
        requires
            old(self).wf(),
        ensures
            final(self).wf(),
            final(self).layout() == old(self).layout(),
            runtime_changed(old(self).apps(), final(self).apps(), final(self)@, old(self)@, name@,
                after_exit(old(self).apps()[name@].runtime, policy, code, success)),
            r == (old(self).apps().dom().contains(name@) && restarts(policy, success)),
    {
        let (k, found) = self.locate(name);
        if !found {
            return false;
        }
        proof {
            lemma_index_of(self@, k as int);
        }
        let rt = self.runtime[k];
        let restart = match policy {
            RestartPolicy::Never => false,
            RestartPolicy::Always => true,
            RestartPolicy::OnFailure => !success,
        };
        let count = if restart && rt.restart_count < u32::MAX {
            rt.restart_count + 1
        } else {
            rt.restart_count
        };
        let state = if restart {
            AppState::Restarting
        } else if success {
            AppState::Stopped
        } else {
            AppState::Crashed
        };
        self.set_runtime(
            k,
            RuntimeInfo {
                state,
                pid: None,
                restart_count: count,
                started_at: rt.started_at,
                last_exit_code: code,
                supervised: false,
            },
        );
        restart
    }

    /// Records that a deliberate stop killed the app's process.
    pub fn record_deliberate_stop(&mut self, name: &str)
        requires
            old(self).wf(),
        ensures
            final(self).wf(),
            final(self).layout() == old(self).layout(),
            runtime_changed(old(self).apps(), final(self).apps(), final(self)@, old(self)@, name@,
                after_stop(old(self).apps()[name@].runtime)),
    {
        let (k, found) = self.locate(name);
        if found {
            proof {
                lemma_index_of(self@, k as int);
            }
            let rt = self.runtime[k];
            self.set_runtime(k, RuntimeInfo { state: AppState::Stopped, pid: None, supervised: false, ..rt });
        }
    }

    /// Records that a stop was requested while a restart was pending.
    pub fn record_stop_during_backoff(&mut self, name: &str)
        requires
            old(self).wf(),
        ensures
            final(self).wf(),
            final(self).layout() == old(self).layout(),
            runtime_changed(old(self).apps(), final(self).apps(), final(self)@, old(self)@, name@,
                RuntimeInfo { state: AppState::Stopped, supervised: false, ..old(self).apps()[name@].runtime }),
    {
        let (k, found) = self.locate(name);
        if found {
            proof {
                lemma_index_of(self@, k as int);
            }
            let rt = self.runtime[k];
            self.set_runtime(k, RuntimeInfo { state: AppState::Stopped, supervised: false, ..rt });
        }
    }

    /// Seconds to wait before restarting the app, from its restart count
    /// (zero when it is no longer managed) and the backoff settings its
    /// launch used.
    pub fn restart_delay(&self, name: &str, base: u64, max: u64) -> (r: u64)
        requires
            self.wf(),
        ensures
            r == backoff(
                base,
                max,
                if self.apps().dom().contains(name@) {
                    self.apps()[name@].runtime.restart_count
                } else {
                    0
                },
            ),
    {
        let (k, found) = self.locate(name);
        if !found {
            return backoff_seconds(base, max, 0);
        }
        proof {
            lemma_index_of(self@, k as int);
        }
        backoff_seconds(base, max, self.runtime[k].restart_count)
    }

    /// Finds the app an incoming proxied request goes to. An exact `Host`
    /// match against an app's `domain` wins over any path-prefix match;
    /// among path-prefix matches the longest prefix wins (the first by name
    /// among equally long ones). Only apps with a `port` are reachable.
    pub fn resolve_route(&self, host: Option<&str>, path: &str) -> (r: Option<RouteMatch>)
        requires
            self.wf(),
        ensures
            match r {
                Some(m) => exists|i: int| route_winner(self@, opt_str_view(host), path@, i, m@),
                None => no_route(self@, opt_str_view(host), path@),
            },
    {
        let n = self.configs.len();
        if let Some(h) = host {
            let hk = to_ascii_lowercase(before_first_char(h, ':').as_str());
            proof {
                assert(lower(hk@) =~= hk@);
            }
            let mut i: usize = 0;
            while i < n
                invariant
                    self.wf(),
                    n == self@.len(),
                    i <= n,
                    hk@ == host_key(h@),
                    host == Some(h),
                    lower(hk@) == hk@,
                    forall|j: int| 0 <= j < i ==> !domain_hit(#[trigger] self@[j], hk@),
                decreases n - i,
            {
                let cfg = &self.configs[i];
                if let Some(port) = cfg.port {
                    if let Some(d) = &cfg.domain {
                        if eq_ignore_ascii_case(d.as_str(), hk.as_str()) {
                            let m = RouteMatch {
                                app_name: cfg.name.clone(),
                                target_port: port,
                                strip_prefix: None,
                            };
                            assert(self@[i as int].config.domain == Some(d@));
                            assert(self@[i as int].config.port == Some(port));
                            assert(domain_hit(self@[i as int], hk@));
                            assert(first_domain_hit(self@, host_key(h@), i as int));
                            assert(opt_str_view(host) == Some(h@));
                            assert(m@ == domain_route(self@[i as int]));
                            assert(route_winner(self@, opt_str_view(host), path@, i as int, m@));
                            return Some(m);
                        }
                    }
                }
                i = i + 1;
            }
        }
        let mut best: Option<(usize, usize)> = None;
        let mut i: usize = 0;
        while i < n
            invariant
                self.wf(),
                n == self@.len(),
                i <= n,
                best is None ==> forall|j: int| 0 <= j < i ==> !prefix_hit(#[trigger] self@[j], path@),
                best matches Some(bl) ==> {
                    &&& bl.0 < i
                    &&& prefix_hit(self@[bl.0 as int], path@)
                    &&& bl.1 == prefix_len(self@[bl.0 as int])
                    &&& forall|j: int| 0 <= j < i && prefix_hit(#[trigger] self@[j], path@) ==> prefix_len(self@[j]) <= bl.1
                    &&& forall|j: int| 0 <= j < bl.0 && prefix_hit(#[trigger] self@[j], path@) ==> prefix_len(self@[j]) < bl.1
                },
            decreases n - i,
        {
            let cfg = &self.configs[i];
            if let (Some(prefix), Some(_port)) = (&cfg.path_prefix, cfg.port) {
                if starts_with(path, prefix.as_str()) {
                    let len = prefix.unicode_len();
                    let better = match best {
                        Some((_, best_len)) => len > best_len,
                        None => true,
                    };
                    if better {
                        best = Some((i, len));
                    }
                }
            }
            i = i + 1;
        }
        match best {
            Some((b, _)) => {
                let cfg = &self.configs[b];
                let m = RouteMatch {
                    app_name: cfg.name.clone(),
                    target_port: cfg.port.unwrap(),
                    strip_prefix: clone_opt_string(&cfg.path_prefix),
                };
                assert(route_winner(self@, opt_str_view(host), path@, b as int, m@));
                Some(m)
            },
            None => None,
        }
    }

    /// Every distinct configured domain, in increasing order.
    pub fn configured_domains(&self) -> (r: Vec<String>)
        requires
            self.wf(),
        ensures
            strictly_sorted(views(r@)),
            forall|d: Seq<char>| views(r@).contains(d) <==> exists|i: int| 0 <= i < self@.len() && #[trigger] self@[i].config.domain == Some(d),
    {
        let n = self.configs.len();
        let mut out: Vec<String> = Vec::new();
        let mut i: usize = 0;
        while i < n
            invariant
                self.wf(),
                n == self@.len(),
                i <= n,
                strictly_sorted(views(out@)),
                forall|d: Seq<char>| views(out@).contains(d) <==> exists|j: int| 0 <= j < i && #[trigger] self@[j].config.domain == Some(d),
            decreases n - i,
        {
            if let Some(d) = &self.configs[i].domain {
                insert_sorted_unique(&mut out, d.clone());
            }
            proof {
                assert forall|d: Seq<char>| views(out@).contains(d) <==> exists|j: int| 0 <= j < i + 1 && #[trigger] self@[j].config.domain == Some(d) by {
                    if self@[i as int].config.domain == Some(d) {
                    }
                }
            }
            i = i + 1;
        }
        out
    }

    /// Stops managing an app.
    pub fn remove_app(&mut self, name: &str) -> (r: Result<(), SupervisorError>)
        requires
            old(self).wf(),
        ensures
            final(self).wf(),
            final(self).layout() == old(self).layout(),
            r is Ok <==> old(self).apps().dom().contains(name@),
            r is Ok ==> final(self).apps() == old(self).apps().remove(name@),
            r is Err ==> final(self)@ == old(self)@ && (r->Err_0 matches SupervisorError::NotFound(n)
                && n@ == name@),
    {
        let (k, found) = self.locate(name);
        if !found {
            return Err(SupervisorError::NotFound(name.to_string()));
        }
        let ghost old_view = self@;
        self.configs.remove(k);
        self.runtime.remove(k);
        proof {
            assert(self@ =~= old_view.remove(k as int));
            lemma_remove(old_view, k as int);
        }
        Ok(())
    }
}

} // verus!

verus! {

/// A route is decided by its winning entry alone: two winners of the same
/// request give the same route, and entry.
pub proof fn law_route_is_unique(
    s: Seq<ManagedApp>,
    host: Option<Seq<char>>,
    path: Seq<char>,
    i: int,
    m1: RouteView,
    j: int,
    m2: RouteView,
)
    requires
        route_winner(s, host, path, i, m1),
        route_winner(s, host, path, j, m2),
    ensures
        i == j,
        m1 == m2,
{
    if host is Some && first_domain_hit(s, host_key(host->0), i) {
        if !first_domain_hit(s, host_key(host->0), j) {
            assert(!domain_hit(s[i], host_key(host->0)));
        }
    } else if host is Some && first_domain_hit(s, host_key(host->0), j) {
        assert(!domain_hit(s[j], host_key(host->0)));
    } else {
        assert(prefix_len(s[i]) <= prefix_len(s[j]));
        assert(prefix_len(s[j]) <= prefix_len(s[i]));
    }
}

/// An exact host match always wins over a path-prefix match: when some app
/// with a port has the requested domain, the route is by domain and strips
/// nothing.
pub proof fn law_domain_beats_prefix(
    s: Seq<ManagedApp>,
    h: Seq<char>,
    path: Seq<char>,
    i: int,
    m: RouteView,
    k: int,
)
    requires
        route_winner(s, Some(h), path, i, m),
        0 <= k < s.len(),
        domain_hit(s[k], host_key(h)),
    ensures
        m.strip_prefix is None,
        domain_hit(s[i], host_key(h)),
        m.app_name == s[i].config.name,
{
}

/// Among path-prefix matches the longest prefix wins.
pub proof fn law_longest_prefix_wins(
    s: Seq<ManagedApp>,
    host: Option<Seq<char>>,
    path: Seq<char>,
    i: int,
    m: RouteView,
    k: int,
)
    requires
        route_winner(s, host, path, i, m),
        m.strip_prefix is Some,
        0 <= k < s.len(),
        prefix_hit(s[k], path),
    ensures
        is_prefix(m.strip_prefix->0, path),
        s[k].config.path_prefix->0.len() <= m.strip_prefix->0.len(),
{
}

/// Only apps with a port are reachable, and a request is sent to the
/// winning app's port.
pub proof fn law_route_targets_port(
    s: Seq<ManagedApp>,
    host: Option<Seq<char>>,
    path: Seq<char>,
    i: int,
    m: RouteView,
)
    requires
        route_winner(s, host, path, i, m),
    ensures
        s[i].config.port == Some(m.target_port),
        m.app_name == s[i].config.name,
{
}

/// Status reports come out ordered by app name.
pub proof fn law_status_all_sorted(s: Seq<ManagedApp>, r: Seq<AppStatusView>, now: i64)
    requires
        sorted_names(s),
        r.len() == s.len(),
        forall|i: int| 0 <= i < r.len() ==> #[trigger] r[i] == status_of(s[i], now),
    ensures
        forall|i: int, j: int| 0 <= i < j < r.len() ==> lex_lt(r[i].name, r[j].name),
{
    assert forall|i: int, j: int| 0 <= i < j < r.len() implies lex_lt(r[i].name, r[j].name) by {
        assert(r[i].name == s[i].config.name);
        assert(r[j].name == s[j].config.name);
    }
}

/// Adding an app that was not managed and then removing it leaves the apps
/// as they were.
pub proof fn law_add_then_remove(m: Map<Seq<char>, ManagedApp>, n: Seq<char>, e: ManagedApp)
    requires
        !m.dom().contains(n),
    ensures
        m.insert(n, e).remove(n) == m,
        m.insert(n, e).dom().contains(n),
{
    assert(m.insert(n, e).remove(n) =~= m);
}

/// Re-applying a config keeps the app's run-time state: a reload never
/// resets a running app's bookkeeping.
pub proof fn law_upsert_keeps_runtime(m: Map<Seq<char>, ManagedApp>, c: AppConfigView)
    requires
        m.dom().contains(c.name),
    ensures
        upserted(m, c)[c.name].runtime == m[c.name].runtime,
        upserted(m, c)[c.name].config == c,
        upserted(m, c).dom() == m.dom(),
{
    assert(upserted(m, c).dom() =~= m.dom());
}

/// Reloading a list of configs: every app a config names is managed
/// afterwards, with the last config of that name; an app no config names is
/// left exactly as it was, and no other app appears; an app that was
/// managed keeps its run-time state, and a new one starts stopped.
pub proof fn law_reload(m: Map<Seq<char>, ManagedApp>, cs: Seq<AppConfigView>)
    ensures
        forall|i: int| 0 <= i < cs.len() ==> upsert_all(m, cs).dom().contains(#[trigger] cs[i].name),
        forall|i: int|
            0 <= i < cs.len() && (forall|j: int| i < j < cs.len() ==> cs[j].name != cs[i].name) ==> upsert_all(
                m,
                cs,
            )[#[trigger] cs[i].name].config == cs[i],
        forall|n: Seq<char>|
            (forall|i: int| 0 <= i < cs.len() ==> cs[i].name != n) ==> (#[trigger] upsert_all(m, cs).dom().contains(n)
                <==> m.dom().contains(n)),
        forall|n: Seq<char>|
            m.dom().contains(n) && (forall|i: int| 0 <= i < cs.len() ==> cs[i].name != n) ==> #[trigger] upsert_all(
                m,
                cs,
            )[n] == m[n],
        forall|n: Seq<char>| m.dom().contains(n) ==> #[trigger] upsert_all(m, cs).dom().contains(n),
        forall|n: Seq<char>| m.dom().contains(n) ==> #[trigger] upsert_all(m, cs)[n].runtime == m[n].runtime,
        forall|n: Seq<char>|
            #[trigger] upsert_all(m, cs).dom().contains(n) && !m.dom().contains(n) ==> upsert_all(m, cs)[n].runtime
                == fresh_runtime(),
    decreases cs.len(),
{
    if cs.len() > 0 {
        let init = cs.drop_last();
        law_reload(m, init);
        let r = upsert_all(m, init);
        let c = cs.last();
        let u = upsert_all(m, cs);
        assert(u == upserted(r, c));
        assert forall|i: int| 0 <= i < cs.len() implies u.dom().contains(#[trigger] cs[i].name) by {
            if i < cs.len() - 1 {
                assert(init[i] == cs[i]);
            }
        }
        assert forall|i: int|
            0 <= i < cs.len() && (forall|j: int| i < j < cs.len() ==> cs[j].name != cs[i].name) implies u[
            #[trigger] cs[i].name].config == cs[i] by {
            if i < cs.len() - 1 {
                assert(init[i] == cs[i]);
                assert(cs[cs.len() - 1].name != cs[i].name);
                assert forall|j: int| i < j < init.len() implies init[j].name != init[i].name by {
                    assert(init[j] == cs[j]);
                }
            }
        }
        assert forall|n: Seq<char>|
            (forall|i: int| 0 <= i < cs.len() ==> cs[i].name != n) implies (#[trigger] u.dom().contains(n)
            <==> m.dom().contains(n)) by {
            assert(cs[cs.len() - 1].name != n);
            assert forall|i: int| 0 <= i < init.len() implies init[i].name != n by {
                assert(init[i] == cs[i]);
            }
        }
        assert forall|n: Seq<char>|
            m.dom().contains(n) && (forall|i: int| 0 <= i < cs.len() ==> cs[i].name != n) implies #[trigger] u[n]
            == m[n] by {
            assert(cs[cs.len() - 1].name != n);
            assert forall|i: int| 0 <= i < init.len() implies init[i].name != n by {
                assert(init[i] == cs[i]);
            }
        }
        assert forall|n: Seq<char>| m.dom().contains(n) implies #[trigger] u[n].runtime == m[n].runtime by {
            assert(r.dom().contains(n));
        }
    }
}

/// The restart delay is at least one second and at most the cap (the
/// larger of the configured maximum and the base).
pub proof fn law_backoff_bounds(base: u64, max: u64, count: u32)
    ensures
        1 <= backoff(base, max, count),
        backoff(base, max, count) <= if max >= base {
            if max >= 1 {
                max
            } else {
                1
            }
        } else {
            base
        },
{
    let b: nat = if base >= 1 {
        base as nat
    } else {
        1
    };
    assert(pow2(0) == 1);
    assert(b * pow2(0) == b);
    lemma_doubled_mono(b, 0, doublings(count));
}

/// The restart delay never shrinks as restarts accumulate.
pub proof fn law_backoff_monotone(base: u64, max: u64, c1: u32, c2: u32)
    requires
        c1 <= c2,
    ensures
        backoff(base, max, c1) <= backoff(base, max, c2),
{
    let b: nat = if base >= 1 {
        base as nat
    } else {
        1
    };
    lemma_doubled_mono(b, doublings(c1), doublings(c2));
}

/// The first restart waits the base backoff when the base is within the
/// cap, and each later one doubles the delay until the cap: restart `k`
/// waits `min(base * 2^(k-1), max)`.
pub proof fn law_first_backoff_is_base(base: u64, max: u64, k: u32)
    requires
        base >= 1,
        base <= max,
        1 <= k,
    ensures
        backoff(base, max, 1) == base,
        backoff(base, max, k) as int == if base * pow2((k - 1) as nat) <= max {
            base * pow2((k - 1) as nat)
        } else {
            max as int
        },
{
    assert(pow2(0) == 1);
    let b: nat = base as nat;
    assert(b * pow2(0) == b);
    assert(doublings(k) == (k - 1) as nat);
}

/// Restart policy: `never` never restarts, `always` always does, and
/// `on-failure` restarts exactly the failed exits; a restart counts one more
/// attempt and marks the app restarting, otherwise it is stopped after a
/// success and crashed after a failure.
pub proof fn law_exit_policy(rt: RuntimeInfo, policy: RestartPolicy, code: Option<i32>, success: bool)
    requires
        rt.restart_count < u32::MAX,
    ensures
        policy == RestartPolicy::Never ==> !restarts(policy, success),
        policy == RestartPolicy::Always ==> restarts(policy, success),
        policy == RestartPolicy::OnFailure ==> (restarts(policy, success) <==> !success),
        restarts(policy, success) ==> after_exit(rt, policy, code, success).state == AppState::Restarting
            && after_exit(rt, policy, code, success).restart_count == rt.restart_count + 1,
        !restarts(policy, success) ==> after_exit(rt, policy, code, success).state == (if success {
            AppState::Stopped
        } else {
            AppState::Crashed
        }) && after_exit(rt, policy, code, success).restart_count == rt.restart_count,
        after_exit(rt, policy, code, success).last_exit_code == code,
        !after_exit(rt, policy, code, success).supervised,
        after_exit(rt, policy, code, success).pid is None,
{
}

} // verus!

verus! {

/// The names `selected_names` picks are exactly those of the flagged apps.
proof fn lemma_selected_names(s: Seq<ManagedApp>, flags: Seq<bool>, x: Seq<char>)
    requires
        flags.len() == s.len(),
    ensures
        selected_names(s, flags).contains(x) <==> exists|i: int|
            0 <= i < s.len() && flags[i] && #[trigger] s[i].config.name == x,
    decreases s.len(),
{
    if s.len() > 0 {
        let s0 = s.drop_last();
        let f0 = flags.take(s.len() - 1);
        lemma_selected_names(s0, f0, x);
        let rest = selected_names(s0, f0);
        let n = s.len() - 1;
        if flags[n] {
            assert(selected_names(s, flags) == rest.push(s[n].config.name));
            if rest.push(s[n].config.name).contains(x) && !rest.contains(x) {
                let j = choose|j: int| 0 <= j < rest.len() + 1 && rest.push(s[n].config.name)[j] == x;
                assert(j == rest.len());
                assert(s[n].config.name == x);
            }
            if rest.contains(x) {
                let j = choose|j: int| 0 <= j < rest.len() && rest[j] == x;
                assert(rest.push(s[n].config.name)[j] == x);
            }
            if s[n].config.name == x {
                assert(rest.push(s[n].config.name)[rest.len() as int] == x);
            }
        }
        if exists|i: int| 0 <= i < s0.len() && f0[i] && #[trigger] s0[i].config.name == x {
            let i = choose|i: int| 0 <= i < s0.len() && f0[i] && #[trigger] s0[i].config.name == x;
            assert(s[i].config.name == x);
        }
        if exists|i: int| 0 <= i < s.len() && flags[i] && #[trigger] s[i].config.name == x {
            let i = choose|i: int| 0 <= i < s.len() && flags[i] && #[trigger] s[i].config.name == x;
            if i < s.len() - 1 {
                assert(s0[i].config.name == x);
            }
        }
    }
}

/// After a daemon restart, an app is resumed exactly when its persisted
/// desired state says running: one that was started (`start_app` persists
/// running) comes back, one that was stopped (`stop_app` persists stopped)
/// does not.
pub proof fn law_recovery_follows_desired_state(s: Seq<ManagedApp>, flags: Seq<bool>, k: int)
    requires
        sorted_names(s),
        flags.len() == s.len(),
        0 <= k < s.len(),
    ensures
        selected_names(s, flags).contains(s[k].config.name) <==> flags[k],
{
    lemma_selected_names(s, flags, s[k].config.name);
    if selected_names(s, flags).contains(s[k].config.name) {
        let i = choose|i: int| 0 <= i < s.len() && flags[i] && #[trigger] s[i].config.name == s[k].config.name;
        if i != k {
            lemma_lex_irreflexive(s[k].config.name);
            if i < k {
                assert(lex_lt(s[i].config.name, s[k].config.name));
            } else {
                assert(lex_lt(s[k].config.name, s[i].config.name));
            }
        }
    } else {
        assert(!(0 <= k < s.len() && flags[k] && s[k].config.name == s[k].config.name));
    }
}

} // verus!

verus! {

/// What happened to an app's supervised process, as its supervising task
/// reports it.
#[derive(Debug, Clone, Copy, PartialEq, Eq, Structural)]
pub enum SupervisionEvent {
    /// Spawning the process failed.
    SpawnFailed,
    /// The process was spawned, with this PID, at `now` (seconds since the
    /// epoch).
    Spawned { pid: Option<u32>, now: i64 },
    /// The process exited on its own.
    Exited { code: Option<i32>, success: bool },
    /// A stop was requested and the process was killed.
    Stopped,
    /// The restart delay elapsed; whether the persisted desired state still
    /// says running.
    BackoffElapsed { desired_running: bool },
}

/// What the supervising task does next.
#[derive(Debug, Clone, Copy, PartialEq, Eq, Structural)]
pub enum SupervisionAction {
    /// Wait for the process to exit or for a stop request.
    Wait,
    /// Sleep this many seconds, then report `BackoffElapsed`.
    Backoff(u64),
    /// Prepare the next launch.
    Relaunch,
    /// Supervision ends.
    Finish,
}

/// An app's bookkeeping after an event.
pub open spec fn runtime_after(rt: RuntimeInfo, restart: RestartSettings, event: SupervisionEvent) -> RuntimeInfo {
    match event {
        SupervisionEvent::SpawnFailed => after_spawn_failure(rt),
        SupervisionEvent::Spawned { pid, now } => after_spawn(rt, pid, now),
        SupervisionEvent::Exited { code, success } => after_exit(rt, restart.policy, code, success),
        SupervisionEvent::Stopped => after_stop(rt),
        SupervisionEvent::BackoffElapsed { desired_running } => if desired_running {
            rt
        } else {
            RuntimeInfo { state: AppState::Stopped, supervised: false, ..rt }
        },
    }
}

/// The action an event calls for (`managed`: the app is still managed;
/// `rt`: its bookkeeping before the event). An exit is followed by the
/// restart delay exactly when the app is managed and its policy restarts
/// it; the delay is that of the restart just counted (restart `k` waits
/// the base doubled `k - 1` times, up to the cap).
pub open spec fn action_after(managed: bool, rt: RuntimeInfo, restart: RestartSettings, event: SupervisionEvent) -> SupervisionAction {
    match event {
        SupervisionEvent::SpawnFailed => SupervisionAction::Finish,
        SupervisionEvent::Spawned { .. } => SupervisionAction::Wait,
        SupervisionEvent::Exited { code, success } => if managed && restarts(restart.policy, success) {
            SupervisionAction::Backoff(
                backoff(
                    restart.backoff_seconds,
                    restart.max_backoff_seconds,
                    after_exit(rt, restart.policy, code, success).restart_count,
                ),
            )
        } else {
            SupervisionAction::Finish
        },
        SupervisionEvent::Stopped => SupervisionAction::Finish,
        SupervisionEvent::BackoffElapsed { desired_running } => if desired_running {
            SupervisionAction::Relaunch
        } else {
            SupervisionAction::Finish
        },
    }
}

impl Supervisor {
    /// Applies one event of an app's supervised process (launched with
    /// `restart`) to its bookkeeping, and says what the supervising task
    /// does next.
    pub fn on_event(&mut self, name: &str, restart: RestartSettings, event: SupervisionEvent) -> (r: SupervisionAction)
        requires
            old(self).wf(),
        ensures
            final(self).wf(),
            final(self).layout() == old(self).layout(),
            runtime_changed(old(self).apps(), final(self).apps(), final(self)@, old(self)@, name@,
                runtime_after(old(self).apps()[name@].runtime, restart, event)),
            r == action_after(old(self).apps().dom().contains(name@), old(self).apps()[name@].runtime, restart, event),
    {
        match event {
            SupervisionEvent::SpawnFailed => {
                self.record_spawn_failure(name);
                SupervisionAction::Finish
            },
            SupervisionEvent::Spawned { pid, now } => {
                self.record_spawned(name, pid, now);
                SupervisionAction::Wait
            },
            SupervisionEvent::Exited { code, success } => {
                if self.record_exit(name, restart.policy, code, success) {
                    SupervisionAction::Backoff(
                        self.restart_delay(name, restart.backoff_seconds, restart.max_backoff_seconds),
                    )
                } else {
                    SupervisionAction::Finish
                }
            },
            SupervisionEvent::Stopped => {
                self.record_deliberate_stop(name);
                SupervisionAction::Finish
            },
            SupervisionEvent::BackoffElapsed { desired_running } => {
                if desired_running {
                    proof {
                        let m = self.apps();
                        if m.dom().contains(name@) {
                            assert(m.insert(name@, ManagedApp { config: m[name@].config, runtime: m[name@].runtime })
                                =~= m);
                        }
                    }
                    SupervisionAction::Relaunch
                } else {
                    self.record_stop_during_backoff(name);
                    SupervisionAction::Finish
                }
            },
        }
    }
}

/// A deliberate stop always ends supervision and leaves the app stopped,
/// whether it arrives while the process runs or during the restart delay.
pub proof fn law_stop_ends_supervision(managed: bool, rt: RuntimeInfo, restart: RestartSettings)
    ensures
        action_after(managed, rt, restart, SupervisionEvent::Stopped) == SupervisionAction::Finish,
        runtime_after(rt, restart, SupervisionEvent::Stopped).state == AppState::Stopped,
        runtime_after(rt, restart, SupervisionEvent::Stopped).pid is None,
        action_after(managed, rt, restart, SupervisionEvent::BackoffElapsed { desired_running: false })
            == SupervisionAction::Finish,
        runtime_after(rt, restart, SupervisionEvent::BackoffElapsed { desired_running: false }).state
            == AppState::Stopped,
{
}

/// Starting and stopping are idempotent: starting an app that is already
/// running spawns no second process, and stopping an app that is not
/// running signals no process. A restart, which waits until no supervising
/// task owns the app's process, then always spawns a new one.
pub proof fn law_start_stop_idempotent(sup: Supervisor, name: Seq<char>, previous: DesiredState)
    requires
        sup.wf(),
        sup.apps().dom().contains(name),
    ensures
        sup.apps()[name].runtime.state == AppState::Running ==> !start_plan(sup.apps()[name], previous).spawn,
        sup.apps()[name].runtime.state != AppState::Running ==> !stop_plan(sup.apps()[name]).signal_stop,
        !sup.apps()[name].runtime.supervised ==> start_plan(sup.apps()[name], previous).spawn,
{
    let s = sup@;
    let i = index_of(s, name);
    lemma_index_of(s, i);
    assert(consistent(s[i].runtime));
}

/// The desired state persisted once a process was spawned: running, with
/// its PID, so that a later daemon can find it; nothing when the PID is
/// unknown.
pub fn desired_after_spawn(pid: Option<u32>) -> (r: Option<DesiredState>)
    ensures
        r == match pid {
            Some(p) => Some(DesiredState { running: true, pid: Some(p) }),
            None => None::<DesiredState>,
        },
{
    match pid {
        Some(p) => Some(DesiredState { running: true, pid: Some(p) }),
        None => None,
    }
}

/// The number of 100 ms polls an orphaned process is given to exit after
/// it was asked to terminate, before it is killed outright.
pub open spec fn orphan_grace_polls() -> nat {
    50
}

/// What reaping an orphaned process does next.
#[derive(Debug, Clone, Copy, PartialEq, Eq, Structural)]
pub enum OrphanStep {
    /// The process is gone: the app may be launched.
    Done,
    /// Poll again after a short wait.
    Wait,
    /// The process outlived its grace period: kill it outright, then keep
    /// polling.
    ForceKill,
}

/// The next step of reaping an orphaned process that was asked to
/// terminate, after `polls` polls found it alive: the launch waits until
/// it is gone, and it is killed outright once its grace period is over.
pub fn orphan_step(alive: bool, polls: u32) -> (r: OrphanStep)
    ensures
        r == if !alive {
            OrphanStep::Done
        } else if polls == orphan_grace_polls() {
            OrphanStep::ForceKill
        } else {
            OrphanStep::Wait
        },
{
    if !alive {
        OrphanStep::Done
    } else if polls == 50 {
        OrphanStep::ForceKill
    } else {
        OrphanStep::Wait
    }
}

/// An app's status reports it as it is: its name, runtime and routing
/// (port, domain, path prefix) from its config; its state, PID, restart
/// count and last exit code from its bookkeeping; how long its process has
/// run (never negative) when it was started; and no memory reading.
pub proof fn law_status_reports_app(e: ManagedApp, now: i64)
    ensures
        ({
            let st = status_of(e, now);
            &&& st.name == e.config.name
            &&& st.runtime == e.config.runtime
            &&& st.port == e.config.port
            &&& st.domain == e.config.domain
            &&& st.path_prefix == e.config.path_prefix
            &&& st.state == e.runtime.state
            &&& st.pid == e.runtime.pid
            &&& st.restart_count == e.runtime.restart_count
            &&& st.last_exit_code == e.runtime.last_exit_code
            &&& st.memory_bytes is None
            &&& e.runtime.started_at is None ==> st.uptime_seconds is None
            &&& e.runtime.started_at matches Some(t) ==> st.uptime_seconds == Some(
                (if now >= t {
                    now - t
                } else {
                    0
                }) as u64,
            )
        }),
{
}

/// Starting persists that the app should run, keeping the PID an earlier
/// daemon recorded (so its orphan can be found); stopping persists that it
/// should not run, forgetting the PID.
pub proof fn law_start_stop_desired_state(e: ManagedApp, previous: DesiredState)
    ensures
        start_plan(e, previous).desired.running,
        start_plan(e, previous).desired.pid == previous.pid,
        !stop_plan(e).desired.running,
        stop_plan(e).desired.pid is None,
{
}

/// What each event does to the bookkeeping: a spawn makes the app running
/// with its new PID and start time, under a supervising task; a stop or an
/// exit leaves no PID and no supervising task; a failed spawn marks it
/// crashed.
pub proof fn law_event_bookkeeping(rt: RuntimeInfo, restart: RestartSettings, pid: Option<u32>, now: i64)
    ensures
        runtime_after(rt, restart, SupervisionEvent::Spawned { pid, now }).state == AppState::Running,
        runtime_after(rt, restart, SupervisionEvent::Spawned { pid, now }).pid == pid,
        runtime_after(rt, restart, SupervisionEvent::Spawned { pid, now }).started_at == Some(now),
        runtime_after(rt, restart, SupervisionEvent::Spawned { pid, now }).supervised,
        runtime_after(rt, restart, SupervisionEvent::Spawned { pid, now }).restart_count == rt.restart_count,
        runtime_after(rt, restart, SupervisionEvent::SpawnFailed).state == AppState::Crashed,
        !runtime_after(rt, restart, SupervisionEvent::SpawnFailed).supervised,
        !runtime_after(rt, restart, SupervisionEvent::Stopped).supervised,
        forall|code: Option<i32>, success: bool|
            {
                let after = #[trigger] runtime_after(rt, restart, SupervisionEvent::Exited { code, success });
                &&& after.pid is None
                &&& !after.supervised
                &&& after.last_exit_code == code
            },
{
}

} // verus!
