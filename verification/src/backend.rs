//! The dsh backend's supervision: the status shown to the user, the decisions
//! of starting (adopt a running instance or spawn our own), the ready line,
//! the messages of each failure, the back-off between retries, and when to
//! give up. The process work itself (spawning, reading, killing) is the
//! caller's; it hands each outcome back here.
use vstd::prelude::*;
use crate::settings::ostr;
use crate::text::{
    char_is_ws, chars_eq, chars_of, contains, contains_exec, dec, dec_u64, lemma_skip_ws_bounds, owned, push_all,
    skip_ws, skip_ws_exec, slice_chars, split_chars, split_seq, str_eq, string_of,
};
use crate::util::{lemma_token_end, opt_chars, parse_uint, parse_unsigned, parse_url_line, ready_url, token_end};
use crate::install::{exit_code_string, exit_code_text};

verus! {

/// The backend's phases.
#[derive(Clone, Copy, Debug, PartialEq, Eq, Structural)]
pub enum Phase {
    Idle,
    Starting,
    Running,
    External,
    Error,
    Stopped,
}

/// The name of a phase, as the status reports it.
pub open spec fn phase_text(p: Phase) -> Seq<char> {
    match p {
        Phase::Idle => "idle"@,
        Phase::Starting => "starting"@,
        Phase::Running => "running"@,
        Phase::External => "external"@,
        Phase::Error => "error"@,
        Phase::Stopped => "stopped"@,
    }
}

/// The name of a phase.
pub fn phase_name(p: Phase) -> (r: String)
    ensures
        r@ == phase_text(p),
{
    match p {
        Phase::Idle => owned("idle"),
        Phase::Starting => owned("starting"),
        Phase::Running => owned("running"),
        Phase::External => owned("external"),
        Phase::Error => owned("error"),
        Phase::Stopped => owned("stopped"),
    }
}

/// Progress of the default dsh install.
pub struct InstallState {
    pub phase: String,
    pub detail: String,
    pub fetched: u32,
}

/// What the user sees of the backend.
pub struct BackendStatus {
    pub state: String,
    pub url: Option<String>,
    pub port: Option<u16>,
    pub pid: Option<u32>,
    /// Spawned by this program (killed on exit) rather than adopted.
    pub owned: bool,
    pub error: Option<String>,
    pub next_retry_sec: Option<u32>,
    pub profile_dir: Option<String>,
    pub install: Option<InstallState>,
    pub gone: bool,
}

/// A fresh status in `state`: owned, with nothing else known.
pub open spec fn fresh(s: BackendStatus, state: Seq<char>) -> bool {
    &&& s.state@ == state
    &&& s.url is None && s.port is None && s.pid is None
    &&& s.owned
    &&& s.error is None && s.next_retry_sec is None && s.profile_dir is None && s.install is None
    &&& !s.gone
}

impl BackendStatus {
    /// A status in `state`, owned, with nothing else known.
    pub fn new(state: &str) -> (r: BackendStatus)
        ensures
            fresh(r, state@),
    {
        BackendStatus {
            state: owned(state),
            url: None,
            port: None,
            pid: None,
            owned: true,
            error: None,
            next_retry_sec: None,
            profile_dir: None,
            install: None,
            gone: false,
        }
    }

    /// Moves to `state` and clears the error.
    pub fn set_state(&mut self, state: &str)
        ensures
            final(self).state@ == state@,
            final(self).error is None,
            final(self).url == old(self).url,
            final(self).port == old(self).port,
            final(self).pid == old(self).pid,
            final(self).owned == old(self).owned,
            final(self).next_retry_sec == old(self).next_retry_sec,
            final(self).profile_dir == old(self).profile_dir,
            final(self).gone == old(self).gone,
    {
        self.state = owned(state);
        self.error = None;
    }
}

/// The status at start-up, showing the profile folder.
pub fn initial_status(profile_dir: String) -> (r: BackendStatus)
    ensures
        r.state@ == "idle"@,
        r.profile_dir matches Some(p) && p@ == profile_dir@,
        r.url is None && r.port is None && r.pid is None && r.owned && r.error is None,
        r.next_retry_sec is None && r.install is None && !r.gone,
{
    BackendStatus { profile_dir: Some(profile_dir), ..BackendStatus::new("idle") }
}

/// The status while the default install runs.
pub fn install_status(phase: &str, detail: &str, fetched: u32) -> (r: BackendStatus)
    ensures
        r.state@ == "starting"@,
        r.install matches Some(i) && i.phase@ == phase@ && i.detail@ == detail@ && i.fetched == fetched,
        r.url is None && r.port is None && r.pid is None && r.owned && r.error is None,
        r.next_retry_sec is None && r.profile_dir is None && !r.gone,
{
    BackendStatus {
        install: Some(InstallState { phase: owned(phase), detail: owned(detail), fetched }),
        ..BackendStatus::new("starting")
    }
}

/// The status once our own backend process is spawned.
pub fn starting_status(port: u16, pid: u32) -> (r: BackendStatus)
    ensures
        r.state@ == "starting"@,
        r.port == Some(port) && r.pid == Some(pid),
        r.url is None && r.owned && r.error is None && r.next_retry_sec is None,
        r.profile_dir is None && r.install is None && !r.gone,
{
    BackendStatus { port: Some(port), pid: Some(pid), ..BackendStatus::new("starting") }
}

/// The status once our own backend announced its URL.
pub fn running_status(url: String, port: u16, pid: u32) -> (r: BackendStatus)
    ensures
        r.state@ == "running"@,
        r.url matches Some(u) && u@ == url@,
        r.port == Some(port) && r.pid == Some(pid),
        r.owned && r.error is None && r.next_retry_sec is None,
        r.profile_dir is None && r.install is None && !r.gone,
{
    BackendStatus { url: Some(url), port: Some(port), pid: Some(pid), ..BackendStatus::new("running") }
}

/// `http://127.0.0.1:<port>`, the address of a backend found on the port.
pub open spec fn local_url(port: u16) -> Seq<char> {
    "http://127.0.0.1:"@ + dec(port as nat)
}

/// The status of an instance found running on the port: adopted, not owned
/// (it is left running on exit).
pub fn external_status(port: u16, pid: u32) -> (r: BackendStatus)
    ensures
        r.state@ == "external"@,
        r.url matches Some(u) && u@ == local_url(port),
        r.port == Some(port) && r.pid == Some(pid),
        !r.owned && r.error is None && r.next_retry_sec is None,
        r.profile_dir is None && r.install is None && !r.gone,
{
    let mut u = chars_of("http://127.0.0.1:");
    push_all(&mut u, &dec_u64(port as u64));
    BackendStatus {
        url: Some(string_of(&u)),
        port: Some(port),
        pid: Some(pid),
        owned: false,
        ..BackendStatus::new("external")
    }
}

fn copy_opt(o: &Option<String>) -> (r: Option<String>)
    ensures
        ostr(r) == ostr(*o),
{
    match o {
        Some(s) => Some(s.clone()),
        None => None,
    }
}

/// A failure shown with `msg`, retried in `secs` seconds: what is known of the
/// process (port, pid, owner, profile) is kept, so that it can still be
/// killed by its port.
pub fn error_status(base: &BackendStatus, msg: &str, secs: Option<u32>) -> (r: BackendStatus)
    ensures
        r.state@ == "error"@,
        r.url is None,
        r.error matches Some(e) && e@ == msg@,
        r.next_retry_sec == secs,
        r.install is None,
        r.port == base.port && r.pid == base.pid && r.owned == base.owned,
        ostr(r.profile_dir) == ostr(base.profile_dir),
        r.gone == base.gone,
{
    BackendStatus {
        state: owned("error"),
        url: None,
        port: base.port,
        pid: base.pid,
        owned: base.owned,
        error: Some(owned(msg)),
        next_retry_sec: secs,
        profile_dir: copy_opt(&base.profile_dir),
        install: None,
        gone: base.gone,
    }
}

/// The message of giving up.
pub open spec fn gave_up_text() -> Seq<char> {
    "自动重试次数已用尽，请从标题栏 ⋯ 菜单手动「重启 Web 服务」"@
}

/// The final status once retries are exhausted: no retry is announced any more.
pub fn stopped_status(base: &BackendStatus) -> (r: BackendStatus)
    ensures
        r.state@ == "stopped"@,
        r.url is None,
        r.error matches Some(e) && e@ == gave_up_text(),
        r.next_retry_sec is None,
        r.install is None,
        r.port == base.port && r.pid == base.pid && r.owned == base.owned,
        ostr(r.profile_dir) == ostr(base.profile_dir),
        r.gone == base.gone,
{
    BackendStatus {
        state: owned("stopped"),
        url: None,
        port: base.port,
        pid: base.pid,
        owned: base.owned,
        error: Some(owned("自动重试次数已用尽，请从标题栏 ⋯ 菜单手动「重启 Web 服务」")),
        next_retry_sec: None,
        profile_dir: copy_opt(&base.profile_dir),
        install: None,
        gone: base.gone,
    }
}

// ───────────────────────────── retries ─────────────────────────────

/// The waits between retries, in seconds.
pub open spec fn retry_delays() -> Seq<u64> {
    seq![1, 2, 4, 8, 15, 30]
}

/// The wait before retry number `retry` (counted from 0): the table's entry,
/// the last one once the table is used up.
pub open spec fn delay_for(retry: nat) -> u64 {
    if retry < 5 {
        retry_delays()[retry as int]
    } else {
        30
    }
}

/// The wait before retry number `retry`.
pub fn retry_delay(retry: u32) -> (r: u64)
    ensures
        r == delay_for(retry as nat),
{
    let delays: [u64; 6] = [1, 2, 4, 8, 15, 30];
    let idx: usize = if retry < 5 { retry as usize } else { 5 };
    assert(delays@ =~= retry_delays());
    delays[idx]
}

/// How many back-off waits one failure goes through.
pub open spec fn retry_rounds() -> nat {
    11
}

/// One step of the back-off after a failure: the wait of round `retry`, or
/// `None` once the rounds are over.
pub fn backoff_step(retry: u32) -> (r: Option<u64>)
    ensures
        retry < retry_rounds() ==> r == Some(delay_for(retry as nat)),
        retry >= retry_rounds() ==> r is None,
{
    if retry <= 10 {
        Some(retry_delay(retry))
    } else {
        None
    }
}

/// How many starts are tried before giving up.
pub open spec fn max_attempts() -> nat {
    100
}

/// Counts one more start; `true` once the starts are used up.
pub fn after_attempt(attempts: u32) -> (r: (u32, bool))
    requires
        attempts <= max_attempts(),
    ensures
        r.0 == attempts + 1,
        r.1 == (r.0 > max_attempts()),
{
    let n = attempts + 1;
    (n, n > 100)
}

/// How many failed checks in a row end the adoption of an external instance.
pub open spec fn external_fail_limit() -> nat {
    3
}

/// After a health check: a success resets the count of failures in a row, a
/// failure adds one; adoption stops once the count reaches the limit.
pub open spec fn health_next(fail_streak: u32, ok: bool) -> (u32, bool) {
    if ok {
        (0u32, false)
    } else {
        ((fail_streak + 1) as u32, fail_streak + 1 >= external_fail_limit())
    }
}

/// One health check of an adopted instance: returns the new count of failures
/// in a row and whether to stop adopting.
pub fn health_step(fail_streak: u32, ok: bool) -> (r: (u32, bool))
    requires
        fail_streak < external_fail_limit(),
    ensures
        r == health_next(fail_streak, ok),
{
    if ok {
        (0, false)
    } else {
        let n = fail_streak + 1;
        (n, n >= 3)
    }
}

// ───────────────────────────── starting ─────────────────────────────

/// What to do about the configured port before spawning.
pub enum PortPlan {
    /// A dsh instance already answers there: adopt it.
    Adopt,
    /// Spawn our own on this port (0: let the system choose).
    Spawn(u16),
}

/// The port plan, given what probing the port found: (something answers,
/// and it is dsh). Port 0 is not probed.
pub open spec fn port_plan_of(port: u16, probe: Option<(bool, bool)>) -> Option<u16> {
    if port == 0 {
        Some(0)
    } else {
        match probe {
            Some((true, true)) => None,
            Some((true, false)) => Some(0),
            _ => Some(port),
        }
    }
}

/// Decides whether to adopt the instance on `port` or spawn our own, and on
/// which port (a port held by another service falls back to 0).
pub fn port_plan(port: u16, probe: Option<(bool, bool)>) -> (r: PortPlan)
    ensures
        match r {
            PortPlan::Adopt => port_plan_of(port, probe) is None,
            PortPlan::Spawn(p) => port_plan_of(port, probe) == Some(p),
        },
{
    if port == 0 {
        return PortPlan::Spawn(0);
    }
    match probe {
        Some((true, true)) => PortPlan::Adopt,
        Some((true, false)) => PortPlan::Spawn(0),
        _ => PortPlan::Spawn(port),
    }
}

/// The arguments to node that start dsh's web server on `port`.
pub open spec fn launch_args(dsh_bin: Seq<char>, port: u16) -> Seq<Seq<char>> {
    seq![dsh_bin, "web"@, "--no-open"@, "--port"@, dec(port as nat)]
}

/// The arguments to node for `dsh web --no-open --port <port>`.
pub fn launch_command(dsh_bin: &str, port: u16) -> (r: Vec<String>)
    ensures
        r@.map_values(|s: String| s@) == launch_args(dsh_bin@, port),
{
    let r = vec![owned(dsh_bin), owned("web"), owned("--no-open"), owned("--port"), string_of(&dec_u64(port as u64))];
    assert(r@.map_values(|s: String| s@) =~= launch_args(dsh_bin@, port));
    r
}

/// Reads one line of the backend's output: until the URL is known, the first
/// line that announces it gives it. Returns the URL found by this line.
pub fn ready_line(known: &Option<String>, line: &str) -> (r: Option<String>)
    ensures
        known is Some ==> r is None,
        known is None ==> opt_chars(r) == ready_url(line@),
{
    if known.is_some() {
        return None;
    }
    parse_url_line(line)
}

/// The message when our backend ended: after it had announced its URL (a
/// crash, restarted) or before (a failed start).
pub open spec fn exit_text(announced: bool, code: Option<i32>) -> Seq<char> {
    if announced {
        "后端进程退出 (code="@ + exit_code_text(code) + ")，安排自动重启"@
    } else {
        "dsh 启动失败 (code="@ + exit_code_text(code) + ")"@
    }
}

/// The failure message of an ended backend process.
pub fn exit_message(announced: bool, code: Option<i32>) -> (r: String)
    ensures
        r@ == exit_text(announced, code),
{
    let c = exit_code_string(code);
    let mut v = if announced { chars_of("后端进程退出 (code=") } else { chars_of("dsh 启动失败 (code=") };
    push_all(&mut v, &chars_of(c.as_str()));
    if announced {
        push_all(&mut v, &chars_of(")，安排自动重启"));
    } else {
        push_all(&mut v, &chars_of(")"));
    }
    string_of(&v)
}

/// Which process to kill when stopping: only an owned backend; its pid, or
/// else (when unknown) whatever listens on its port (`Err(port)`: look it up).
pub open spec fn kill_target_of(owned: bool, pid: Option<u32>, port: Option<u16>) -> Option<Result<u32, u16>> {
    if !owned {
        None
    } else {
        match pid {
            Some(p) => Some(Ok(p)),
            None => match port {
                Some(q) => Some(Err(q)),
                None => None,
            },
        }
    }
}

/// Decides what to kill when stopping the backend (an adopted instance is left running).
pub fn kill_target(s: &BackendStatus) -> (r: Option<Result<u32, u16>>)
    ensures
        r == kill_target_of(s.owned, s.pid, s.port),
{
    if !s.owned {
        return None;
    }
    match s.pid {
        Some(p) => Some(Ok(p)),
        None => match s.port {
            Some(q) => Some(Err(q)),
            None => None,
        },
    }
}

/// What follows a `taskkill` of the backend's tree.
#[derive(Clone, Copy, Debug, PartialEq, Eq, Structural)]
pub enum KillFollowUp {
    /// Nothing more to do.
    Done,
    /// The kill failed: look up who listens on the port and kill that tree.
    KillByPort(u16),
    /// The kill succeeded: probe the port, and kill whoever still listens.
    ProbeThenKill(u16),
}

/// After a kill: a failed one is retried through the port's listener; a
/// successful one is checked by probing the port. Without a port there is
/// nothing to follow up.
pub open spec fn kill_follow_up_of(killed: bool, port: Option<u16>) -> KillFollowUp {
    match port {
        None => KillFollowUp::Done,
        Some(p) => if killed { KillFollowUp::ProbeThenKill(p) } else { KillFollowUp::KillByPort(p) },
    }
}

/// What to do after killing the backend's tree.
pub fn kill_follow_up(killed: bool, port: Option<u16>) -> (r: KillFollowUp)
    ensures
        r == kill_follow_up_of(killed, port),
{
    match port {
        None => KillFollowUp::Done,
        Some(p) => if killed { KillFollowUp::ProbeThenKill(p) } else { KillFollowUp::KillByPort(p) },
    }
}

/// After a restart the page is reloaded once the backend serves again:
/// running or adopted, with its address known.
pub open spec fn reload_ready_of(s: BackendStatus) -> bool {
    (s.state@ == "running"@ || s.state@ == "external"@) && s.url is Some
}

/// Whether the page can be reloaded after a restart.
pub fn reload_ready(s: &BackendStatus) -> (r: bool)
    ensures
        r == reload_ready_of(*s),
{
    (str_eq(&s.state, "running") || str_eq(&s.state, "external")) && s.url.is_some()
}

// ───────────────────────────── profile shown ─────────────────────────────

/// The profile folder shown in the status: `<DSH_HOME>/profiles/<profile>`,
/// the home being `DSH_HOME` when set, else the user's folder (backslashes
/// made forward) followed by `/.dsh`, else `./.dsh`.
pub open spec fn profile_display_text(dsh_home_var: Option<Seq<char>>, userprofile: Option<Seq<char>>, profile: Seq<char>) -> Seq<char> {
    let home = match dsh_home_var {
        Some(h) => h,
        None => match userprofile {
            Some(u) => u.map_values(|c: char| if c == '\\' { '/' } else { c }) + "/.dsh"@,
            None => "./.dsh"@,
        },
    };
    home + "/profiles/"@ + profile
}

/// The profile folder shown in the status.
pub fn profile_display(dsh_home_var: &Option<String>, userprofile: &Option<String>, profile: &str) -> (r: String)
    ensures
        r@ == profile_display_text(ostr(*dsh_home_var), ostr(*userprofile), profile@),
{
    let mut v: Vec<char> = match dsh_home_var {
        Some(h) => chars_of(h.as_str()),
        None => match userprofile {
            Some(u) => {
                let uv = chars_of(u.as_str());
                let mut w: Vec<char> = Vec::new();
                let mut i: usize = 0;
                while i < uv.len()
                    invariant
                        i <= uv@.len(),
                        w@ == uv@.take(i as int).map_values(|c: char| if c == '\\' { '/' } else { c }),
                    decreases uv@.len() - i,
                {
                    let c = uv[i];
                    w.push(if c == '\\' { '/' } else { c });
                    proof {
                        assert(uv@.take(i + 1) =~= uv@.take(i as int).push(c));
                        assert(w@ =~= uv@.take(i + 1).map_values(|c: char| if c == '\\' { '/' } else { c }));
                    }
                    i = i + 1;
                }
                assert(uv@.take(i as int) =~= uv@);
                push_all(&mut w, &chars_of("/.dsh"));
                w
            },
            None => chars_of("./.dsh"),
        },
    };
    push_all(&mut v, &chars_of("/profiles/"));
    push_all(&mut v, &chars_of(profile));
    string_of(&v)
}


// ───────────────────────────── probing the port ─────────────────────────────

/// The request that probes the port: `GET /`, closing the connection.
pub open spec fn probe_request_text(port: u16) -> Seq<char> {
    "GET / HTTP/1.1\r\nHost: 127.0.0.1:"@ + dec(port as nat) + "\r\nConnection: close\r\n\r\n"@
}

/// The probe request for `port`.
pub fn probe_request(port: u16) -> (r: String)
    ensures
        r@ == probe_request_text(port),
{
    let mut v = chars_of("GET / HTTP/1.1\r\nHost: 127.0.0.1:");
    push_all(&mut v, &dec_u64(port as u64));
    push_all(&mut v, &chars_of("\r\nConnection: close\r\n\r\n"));
    string_of(&v)
}

/// ASCII letters lower-cased, every other character kept (`to_ascii_lowercase`).
pub open spec fn ascii_lower(s: Seq<char>) -> Seq<char> {
    s.map_values(|c: char| if 'A' <= c && c <= 'Z' { ((c as int) + 32) as char } else { c })
}

fn ascii_lower_exec(v: &Vec<char>) -> (r: Vec<char>)
    ensures
        r@ == ascii_lower(v@),
{
    let mut out: Vec<char> = Vec::new();
    let mut i: usize = 0;
    while i < v.len()
        invariant
            i <= v@.len(),
            out@ == ascii_lower(v@.take(i as int)),
        decreases v@.len() - i,
    {
        let c = v[i];
        let l = if 'A' <= c && c <= 'Z' { ((c as u32) + 32) as u8 as char } else { c };
        proof {
            assert(v@.take(i + 1) =~= v@.take(i as int).push(c));
            if 'A' <= c && c <= 'Z' {
                assert(l == ((c as int) + 32) as char);
            }
        }
        out.push(l);
        assert(out@ =~= ascii_lower(v@.take(i + 1)));
        i = i + 1;
    }
    assert(v@.take(i as int) =~= v@);
    out
}

/// What a probe's answer tells: (something answers, and it is dsh web). An
/// answer counts when it is `200 OK` (in any case) or an HTML page, or bears
/// dsh web's boot marker; the marker alone tells dsh web.
pub open spec fn probe_verdict_of(reply: Seq<char>) -> (bool, bool) {
    let dsh = contains(reply, "__DSH_BOOT__"@);
    (contains(ascii_lower(reply), "200 ok"@) || contains(reply, "<!doctype"@) || contains(reply, "<html"@) || dsh, dsh)
}

/// Reads a probe's answer.
pub fn probe_verdict(reply: &str) -> (r: (bool, bool))
    ensures
        r == probe_verdict_of(reply@),
{
    let v = chars_of(reply);
    let dsh = contains_exec(&v, &chars_of("__DSH_BOOT__"));
    let ok = contains_exec(&ascii_lower_exec(&v), &chars_of("200 ok")) || contains_exec(&v, &chars_of("<!doctype"))
        || contains_exec(&v, &chars_of("<html")) || dsh;
    (ok, dsh)
}

// ───────────────────────────── who listens on the port ─────────────────────────────

/// The whitespace-separated words of `s` from `i` on.
pub open spec fn words_from(s: Seq<char>, i: int) -> Seq<Seq<char>>
    decreases s.len() - i,
{
    let a = skip_ws(s, i);
    if i < 0 || a >= s.len() || a < i {
        Seq::empty()
    } else {
        let b = token_end(s, a);
        if b <= i || b > s.len() {
            Seq::empty()
        } else {
            seq![s.subrange(a, b)] + words_from(s, b)
        }
    }
}

/// The words of a `netstat -ano` line that list a listener on the port:
/// `TCP 127.0.0.1:<port> <remote> LISTENING <pid>`.
pub open spec fn listener_pid(words: Seq<Seq<char>>, port: u16) -> Option<u32> {
    if words.len() >= 5 && words[0] == "TCP"@ && words[1] == "127.0.0.1:"@ + dec(port as nat) && words[3] == "LISTENING"@ {
        match parse_unsigned(words[4], u32::MAX as nat) {
            Some(p) => Some(p as u32),
            None => None,
        }
    } else {
        None
    }
}

/// The pid of the first line of `netstat -ano`'s output (lines split at
/// `\n`) that lists a listener on `port`.
pub open spec fn netstat_pid_from(lines: Seq<Seq<char>>, port: u16, i: int) -> Option<u32>
    decreases lines.len() - i,
{
    if i < 0 || i >= lines.len() {
        None
    } else {
        match listener_pid(words_from(lines[i], 0), port) {
            Some(p) => Some(p),
            None => netstat_pid_from(lines, port, i + 1),
        }
    }
}

fn words_exec(v: &Vec<char>) -> (r: Vec<Vec<char>>)
    ensures
        r@.len() == words_from(v@, 0).len(),
        forall|k: int| 0 <= k < r@.len() ==> #[trigger] r@[k]@ == words_from(v@, 0)[k],
{
    let n = v.len();
    let mut out: Vec<Vec<char>> = Vec::new();
    let ghost mut done: Seq<Seq<char>> = Seq::empty();
    let mut i: usize = 0;
    while i < n
        invariant
            n == v@.len(),
            i <= n,
            out@.len() == done.len(),
            forall|k: int| 0 <= k < out@.len() ==> #[trigger] out@[k]@ == done[k],
            done + words_from(v@, i as int) == words_from(v@, 0),
        decreases n - i,
    {
        let a = skip_ws_exec(v, i);
        proof {
            lemma_skip_ws_bounds(v@, i as int);
        }
        if a >= n {
            proof {
                assert(words_from(v@, i as int) == Seq::<Seq<char>>::empty());
                assert(done + words_from(v@, n as int) =~= done + words_from(v@, i as int));
            }
            i = n;
        } else {
            let mut b = a;
            while b < n && !char_is_ws(v[b])
                invariant
                    a <= b <= n,
                    n == v@.len(),
                    token_end(v@, a as int) == token_end(v@, b as int),
                decreases n - b,
            {
                b = b + 1;
            }
            proof {
                lemma_token_end(v@, a as int);
            }
            let w = slice_chars(v, a, b);
            proof {
                assert(words_from(v@, i as int) == seq![w@] + words_from(v@, b as int));
                assert(done.push(w@) + words_from(v@, b as int) =~= done + words_from(v@, i as int));
                done = done.push(w@);
            }
            out.push(w);
            i = b;
        }
    }
    proof {
        assert(done + words_from(v@, i as int) =~= done);
    }
    out
}

/// The pid listening on `127.0.0.1:<port>`, from `netstat -ano`'s output.
pub fn netstat_pid(output: &str, port: u16) -> (r: Option<u32>)
    ensures
        r == netstat_pid_from(split_seq(output@, '\n'), port, 0),
{
    let lines = split_chars(&chars_of(output), '\n');
    let ghost ls = split_seq(output@, '\n');
    let mut want = chars_of("127.0.0.1:");
    push_all(&mut want, &dec_u64(port as u64));
    let tcp = chars_of("TCP");
    let listening = chars_of("LISTENING");
    let mut i: usize = 0;
    while i < lines.len()
        invariant
            ls == split_seq(output@, '\n'),
            lines@.len() == ls.len(),
            forall|k: int| 0 <= k < lines@.len() ==> #[trigger] lines@[k]@ == ls[k],
            want@ == "127.0.0.1:"@ + dec(port as nat),
            tcp@ == "TCP"@,
            listening@ == "LISTENING"@,
            i <= lines@.len(),
            netstat_pid_from(ls, port, 0) == netstat_pid_from(ls, port, i as int),
        decreases lines@.len() - i,
    {
        assert(lines@[i as int]@ == ls[i as int]);
        let ws = words_exec(&lines[i]);
        let ghost w = words_from(ls[i as int], 0);
        let mut found: Option<u32> = None;
        if ws.len() >= 5 && chars_eq(&ws[0], &tcp) && chars_eq(&ws[1], &want) && chars_eq(&ws[3], &listening) {
            assert(ws@[0]@ == w[0] && ws@[1]@ == w[1] && ws@[3]@ == w[3] && ws@[4]@ == w[4]);
            match parse_uint(&ws[4], u32::MAX as u64) {
                Some(p) => {
                    found = Some(p as u32);
                },
                None => {},
            }
        } else {
            proof {
                if w.len() >= 5 {
                    assert(ws@[0]@ == w[0] && ws@[1]@ == w[1] && ws@[3]@ == w[3]);
                }
            }
        }
        assert(found == listener_pid(w, port));
        if let Some(p) = found {
            assert(netstat_pid_from(ls, port, i as int) == Some(p));
            return Some(p);
        }
        i = i + 1;
    }
    None
}

/// The arguments of `taskkill` that end a process tree.
pub fn taskkill_args(pid: u32) -> (r: Vec<String>)
    ensures
        r@.map_values(|a: String| a@) == seq!["/PID"@, dec(pid as nat), "/T"@, "/F"@],
{
    let r = vec![owned("/PID"), string_of(&dec_u64(pid as u64)), owned("/T"), owned("/F")];
    assert(r@.map_values(|a: String| a@) =~= seq!["/PID"@, dec(pid as nat), "/T"@, "/F"@]);
    r
}

} // verus!
