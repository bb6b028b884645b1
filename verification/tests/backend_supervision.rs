use dsh_desktop::backend::{
    after_attempt, backoff_step, error_status, exit_message, external_status, health_step, initial_status,
    install_status, kill_follow_up, kill_target, launch_command, netstat_pid, phase_name, port_plan,
    probe_request, probe_verdict, profile_display, ready_line, reload_ready, retry_delay, running_status,
    starting_status, stopped_status, taskkill_args, BackendStatus, KillFollowUp, Phase, PortPlan,
};

#[test]
fn new_status_is_owned_and_empty() {
    let s = BackendStatus::new("idle");
    assert_eq!(s.state, "idle");
    assert!(s.owned);
    assert!(s.url.is_none() && s.port.is_none() && s.pid.is_none() && s.error.is_none());
    assert!(s.next_retry_sec.is_none() && s.profile_dir.is_none() && s.install.is_none());
    assert!(!s.gone);
}

#[test]
fn phase_names_are_lower_case() {
    assert_eq!(phase_name(Phase::Idle), "idle");
    assert_eq!(phase_name(Phase::External), "external");
    assert_eq!(phase_name(Phase::Stopped), "stopped");
}

#[test]
fn set_state_clears_the_error() {
    let mut s = error_status(&starting_status(3080, 42), "boom", Some(4));
    assert_eq!(s.error.as_deref(), Some("boom"));
    s.set_state("restarting");
    assert_eq!(s.state, "restarting");
    assert!(s.error.is_none());
    assert_eq!(s.port, Some(3080));
}

#[test]
fn statuses_of_each_stage() {
    let i = initial_status("C:/u/.dsh/profiles/web".to_string());
    assert_eq!(i.state, "idle");
    assert_eq!(i.profile_dir.as_deref(), Some("C:/u/.dsh/profiles/web"));
    let s = install_status("installing", "正在从 npmjs（官方） 安装 dsh…", 3);
    assert_eq!(s.state, "starting");
    let inst = s.install.unwrap();
    assert_eq!(inst.phase, "installing");
    assert_eq!(inst.fetched, 3);
    let r = running_status("http://127.0.0.1:3080".to_string(), 3080, 7);
    assert_eq!(r.state, "running");
    assert_eq!(r.url.as_deref(), Some("http://127.0.0.1:3080"));
    let e = external_status(3080, 99);
    assert_eq!(e.state, "external");
    assert_eq!(e.url.as_deref(), Some("http://127.0.0.1:3080"));
    assert!(!e.owned);
}

#[test]
fn errors_keep_what_is_known_of_the_process() {
    let mut base = starting_status(3080, 42);
    base.profile_dir = Some("p".to_string());
    let e = error_status(&base, "dsh 启动失败 (code=Some(1))", Some(1));
    assert_eq!(e.state, "error");
    assert_eq!(e.port, Some(3080));
    assert_eq!(e.pid, Some(42));
    assert_eq!(e.profile_dir.as_deref(), Some("p"));
    assert_eq!(e.next_retry_sec, Some(1));
    assert!(e.url.is_none());
    let s = stopped_status(&e);
    assert_eq!(s.state, "stopped");
    assert!(s.next_retry_sec.is_none());
    assert_eq!(s.error.as_deref(), Some("自动重试次数已用尽，请从标题栏 ⋯ 菜单手动「重启 Web 服务」"));
    assert_eq!(s.pid, Some(42));
}

#[test]
fn backoff_schedule() {
    let got: Vec<u64> = (0..8).map(retry_delay).collect();
    assert_eq!(got, vec![1, 2, 4, 8, 15, 30, 30, 30]);
    assert_eq!(backoff_step(0), Some(1));
    assert_eq!(backoff_step(10), Some(30));
    assert_eq!(backoff_step(11), None);
    // Non-decreasing, capped at thirty seconds.
    for n in 0..20u32 {
        assert!(retry_delay(n) <= retry_delay(n + 1));
        assert!(retry_delay(n) <= 30);
    }
}

#[test]
fn giving_up_after_the_last_attempt() {
    assert_eq!(after_attempt(0), (1, false));
    assert_eq!(after_attempt(99), (100, false));
    assert_eq!(after_attempt(100), (101, true));
}

#[test]
fn external_instance_health() {
    assert_eq!(health_step(2, true), (0, false));
    assert_eq!(health_step(0, false), (1, false));
    assert_eq!(health_step(1, false), (2, false));
    assert_eq!(health_step(2, false), (3, true));
}

#[test]
fn port_plans() {
    assert!(matches!(port_plan(3080, Some((true, true))), PortPlan::Adopt));
    assert!(matches!(port_plan(3080, Some((true, false))), PortPlan::Spawn(0)));
    assert!(matches!(port_plan(3080, Some((false, false))), PortPlan::Spawn(3080)));
    assert!(matches!(port_plan(3080, None), PortPlan::Spawn(3080)));
    assert!(matches!(port_plan(0, Some((true, true))), PortPlan::Spawn(0)));
}

#[test]
fn launch_arguments() {
    assert_eq!(
        launch_command("C:\\d\\bin.js", 3080),
        vec!["C:\\d\\bin.js", "web", "--no-open", "--port", "3080"]
    );
    assert_eq!(launch_command("b.js", 0)[4], "0");
}

#[test]
fn ready_line_gives_the_url_once() {
    assert_eq!(ready_line(&None, "dsh web: http://127.0.0.1:3080"), Some("http://127.0.0.1:3080".to_string()));
    assert_eq!(ready_line(&None, "starting..."), None);
    assert_eq!(ready_line(&Some("u".to_string()), "dsh web: http://127.0.0.1:1"), None);
}

#[test]
fn exit_messages() {
    assert_eq!(exit_message(true, Some(1)), "后端进程退出 (code=Some(1))，安排自动重启");
    assert_eq!(exit_message(false, None), "dsh 启动失败 (code=None)");
    assert_eq!(exit_message(false, Some(-1073741510)), "dsh 启动失败 (code=Some(-1073741510))");
}

#[test]
fn what_to_kill() {
    let mut s = starting_status(3080, 42);
    assert_eq!(kill_target(&s), Some(Ok(42)));
    s.pid = None;
    assert_eq!(kill_target(&s), Some(Err(3080)));
    s.port = None;
    assert_eq!(kill_target(&s), None);
    let e = external_status(3080, 5);
    assert_eq!(kill_target(&e), None);
}

#[test]
fn profile_shown() {
    assert_eq!(profile_display(&Some("D:\\h".to_string()), &None, "web"), "D:\\h/profiles/web");
    assert_eq!(profile_display(&None, &Some("C:\\Users\\me".to_string()), "web"), "C:/Users/me/.dsh/profiles/web");
    assert_eq!(profile_display(&None, &None, "x"), "./.dsh/profiles/x");
}

#[test]
fn probe_request_asks_for_the_root_and_closes() {
    assert_eq!(probe_request(3080), "GET / HTTP/1.1\r\nHost: 127.0.0.1:3080\r\nConnection: close\r\n\r\n");
}

#[test]
fn probe_verdict_tells_dsh_web_by_its_marker() {
    assert_eq!(probe_verdict("HTTP/1.1 200 OK\r\n\r\n<script>window.__DSH_BOOT__=1</script>"), (true, true));
    assert_eq!(probe_verdict("HTTP/1.1 200 ok\r\n\r\nhello"), (true, false));
    assert_eq!(probe_verdict("HTTP/1.1 404 Not Found\r\n\r\n<html><body>x</body></html>"), (true, false));
    assert_eq!(probe_verdict("HTTP/1.1 404 Not Found\r\n\r\n<!doctype html>"), (true, false));
    assert_eq!(probe_verdict("HTTP/1.1 500 Internal Server Error\r\n\r\noops"), (false, false));
    assert_eq!(probe_verdict(""), (false, false));
    assert_eq!(probe_verdict("HTTP/1.1 404 Not Found\r\n\r\n__DSH_BOOT__"), (true, true));
}

#[test]
fn netstat_finds_the_listener_of_the_port() {
    let out = "\r\nActive Connections\r\n\r\n  Proto  Local Address          Foreign Address        State           PID\r\n  TCP    0.0.0.0:135            0.0.0.0:0              LISTENING       1000\r\n  TCP    127.0.0.1:3080         127.0.0.1:51000        ESTABLISHED     7\r\n  TCP    127.0.0.1:3080         0.0.0.0:0              LISTENING       4242\r\n  TCP    127.0.0.1:3081         0.0.0.0:0              LISTENING       5000\r\n";
    assert_eq!(netstat_pid(out, 3080), Some(4242));
    assert_eq!(netstat_pid(out, 3081), Some(5000));
    assert_eq!(netstat_pid(out, 3082), None);
    assert_eq!(netstat_pid(out, 308), None);
    assert_eq!(netstat_pid("  TCP 127.0.0.1:9 0.0.0.0:0 LISTENING notapid\n  TCP 127.0.0.1:9 0.0.0.0:0 LISTENING +12\n", 9), Some(12));
    assert_eq!(netstat_pid("", 9), None);
}

#[test]
fn taskkill_ends_the_whole_tree_by_force() {
    assert_eq!(taskkill_args(4242), vec!["/PID", "4242", "/T", "/F"]);
}

#[test]
fn kill_follow_up_checks_the_port_either_way() {
    assert_eq!(kill_follow_up(true, Some(3080)), KillFollowUp::ProbeThenKill(3080));
    assert_eq!(kill_follow_up(false, Some(3080)), KillFollowUp::KillByPort(3080));
    assert_eq!(kill_follow_up(false, None), KillFollowUp::Done);
    assert_eq!(kill_follow_up(true, None), KillFollowUp::Done);
}

#[test]
fn reload_waits_for_a_serving_backend_with_an_address() {
    assert!(reload_ready(&running_status("http://127.0.0.1:3080".to_string(), 3080, 1)));
    assert!(reload_ready(&external_status(3080, 1)));
    assert!(!reload_ready(&starting_status(3080, 1)));
    let mut s = BackendStatus::new("running");
    assert!(!reload_ready(&s));
    s.url = Some("http://127.0.0.1:1".to_string());
    assert!(reload_ready(&s));
}

#[test]
fn adoption_ends_at_the_third_failure_in_a_row() {
    let checks = [false, false, true, false, true, false, false, false, true];
    let mut streak = 0u32;
    let mut stopped_at = None;
    for (i, ok) in checks.iter().enumerate() {
        let (n, stop) = health_step(streak, *ok);
        if stop {
            stopped_at = Some(i);
            break;
        }
        streak = n;
    }
    assert_eq!(stopped_at, Some(7));
}
