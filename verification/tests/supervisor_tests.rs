use harbor::app::{AppConfig, AppState, RestartPolicy, RuntimeKind};
use harbor::paths::HarborPaths;
use harbor::supervisor::{
    backoff_seconds, insert_sorted_unique, DesiredState, LaunchDecision, RestartSettings, RuntimeInfo, StartPlan,
    StopPlan, Supervisor, SupervisorError, SupervisionAction, SupervisionEvent, desired_after_spawn,
    orphan_step, OrphanStep,
};

fn strings(v: &[&str]) -> Vec<String> {
    v.iter().map(|s| s.to_string()).collect()
}

fn config(name: &str, port: Option<u16>, domain: Option<&str>, prefix: Option<&str>) -> AppConfig {
    AppConfig {
        name: name.to_string(),
        path: format!("/srv/{name}"),
        runtime: RuntimeKind::Python,
        command: strings(&["python3", "main.py", "--port", "9000"]),
        working_dir: None,
        port,
        domain: domain.map(|d| d.to_string()),
        path_prefix: prefix.map(|p| p.to_string()),
        env: vec![("MODE".to_string(), "prod".to_string())],
        restart_policy: RestartPolicy::OnFailure,
        restart_backoff_seconds: 2,
        restart_max_backoff_seconds: 60,
    }
}

fn supervisor() -> Supervisor {
    Supervisor::new(HarborPaths::at("/h".to_string()))
}

#[test]
fn add_get_remove() {
    let mut s = supervisor();
    assert_eq!(s.len(), 0);
    assert!(s.add_app(config("web", Some(3000), None, None)).is_ok());
    assert!(s.has_app("web"));
    assert_eq!(
        s.add_app(config("web", Some(3001), None, None)),
        Err(SupervisorError::AlreadyExists("web".to_string()))
    );
    assert_eq!(SupervisorError::AlreadyExists("web".to_string()).message(), "app 'web' already exists");
    assert_eq!(s.get_config("web").unwrap().port, Some(3000));
    assert!(s.get_config("nope").is_none());
    assert_eq!(s.remove_app("web"), Ok(()));
    assert!(!s.has_app("web"));
    assert_eq!(s.remove_app("web"), Err(SupervisorError::NotFound("web".to_string())));
    assert_eq!(SupervisorError::NotFound("web".to_string()).message(), "app 'web' not found");
    assert_eq!(s.len(), 0);
}

#[test]
fn status_of_a_fresh_app() {
    let mut s = supervisor();
    s.add_app(config("web", Some(3000), Some("web.example.com"), None)).unwrap();
    let st = s.status("web", 100).unwrap();
    assert_eq!(st.name, "web");
    assert_eq!(st.state, AppState::Stopped);
    assert_eq!(st.pid, None);
    assert_eq!(st.restart_count, 0);
    assert_eq!(st.uptime_seconds, None);
    assert_eq!(st.memory_bytes, None);
    assert_eq!(st.runtime, RuntimeKind::Python);
    assert_eq!(st.port, Some(3000));
    assert_eq!(st.domain, Some("web.example.com".to_string()));
    assert!(s.status("other", 100).is_none());
}

#[test]
fn status_all_is_sorted_by_name() {
    let mut s = supervisor();
    s.add_app(config("zeta", None, None, None)).unwrap();
    s.add_app(config("alpha", None, None, None)).unwrap();
    s.add_app(config("mid", None, None, None)).unwrap();
    let names: Vec<String> = s.status_all(0).into_iter().map(|st| st.name).collect();
    assert_eq!(names, strings(&["alpha", "mid", "zeta"]));
    assert_eq!(s.names(), strings(&["alpha", "mid", "zeta"]));
}

#[test]
fn update_and_reload() {
    let mut s = supervisor();
    s.add_app(config("web", Some(3000), None, None)).unwrap();
    assert_eq!(
        s.update_config(config("api", Some(1), None, None)),
        Err(SupervisorError::NotFound("api".to_string()))
    );
    s.record_spawned("web", Some(42), 10);
    assert_eq!(s.update_config(config("web", Some(4000), None, None)), Ok(()));
    let st = s.status("web", 15).unwrap();
    assert_eq!(st.port, Some(4000));
    assert_eq!(st.pid, Some(42));
    assert_eq!(st.uptime_seconds, Some(5));
    let n = s.reload_configs(vec![config("web", Some(5000), None, None), config("new", None, None, None)]);
    assert_eq!(n, 2);
    assert_eq!(s.names(), strings(&["new", "web"]));
    assert_eq!(s.status("web", 15).unwrap().state, AppState::Running);
    assert_eq!(s.status("web", 15).unwrap().port, Some(5000));
}

#[test]
fn recovery_picks_desired_running() {
    let mut s = supervisor();
    s.add_app(config("a", None, None, None)).unwrap();
    s.add_app(config("b", None, None, None)).unwrap();
    s.add_app(config("c", None, None, None)).unwrap();
    assert_eq!(s.names_with_desired_running(&vec![true, false, true]), strings(&["a", "c"]));
    assert_eq!(s.names_with_desired_running(&vec![false, false, false]), Vec::<String>::new());
}

#[test]
fn start_and_stop_plans() {
    let mut s = supervisor();
    s.add_app(config("web", None, None, None)).unwrap();
    let prev = DesiredState { running: false, pid: Some(77) };
    assert_eq!(
        s.start_app("web", prev),
        Ok(StartPlan { desired: DesiredState { running: true, pid: Some(77) }, spawn: true })
    );
    assert_eq!(
        s.stop_app("web"),
        Ok(StopPlan { desired: DesiredState { running: false, pid: None }, signal_stop: false })
    );
    s.record_spawned("web", Some(5), 0);
    assert!(s.is_supervised("web"));
    assert_eq!(s.start_app("web", DesiredState::default()).unwrap().spawn, false);
    assert_eq!(s.stop_app("web").unwrap().signal_stop, true);
    assert_eq!(
        s.start_app("nope", DesiredState::default()),
        Err(SupervisorError::NotFound("nope".to_string()))
    );
    assert_eq!(DesiredState::default(), DesiredState { running: false, pid: None });
}

#[test]
fn launch_spec_from_config() {
    let mut s = supervisor();
    s.add_app(config("web", None, None, None)).unwrap();
    match s.prepare_launch("web") {
        LaunchDecision::Launch(spec) => {
            assert_eq!(spec.program, "python3");
            assert_eq!(spec.args, strings(&["main.py", "--port", "9000"]));
            assert_eq!(spec.working_dir, "/srv/web");
            assert_eq!(spec.env, vec![("MODE".to_string(), "prod".to_string())]);
            assert_eq!(
                spec.restart,
                RestartSettings { policy: RestartPolicy::OnFailure, backoff_seconds: 2, max_backoff_seconds: 60 }
            );
        },
        _ => panic!("expected a launch"),
    }
    assert!(matches!(s.prepare_launch("gone"), LaunchDecision::Gone));
    let mut empty = config("empty", None, None, None);
    empty.command = vec![];
    s.add_app(empty).unwrap();
    assert!(matches!(s.prepare_launch("empty"), LaunchDecision::NoCommand));
    assert_eq!(s.status("empty", 0).unwrap().state, AppState::Crashed);
}

#[test]
fn exit_handling_follows_policy() {
    let mut s = supervisor();
    s.add_app(config("web", None, None, None)).unwrap();
    s.record_spawned("web", Some(9), 0);
    assert!(s.record_exit("web", RestartPolicy::OnFailure, Some(1), false));
    let st = s.status("web", 0).unwrap();
    assert_eq!(st.state, AppState::Restarting);
    assert_eq!(st.restart_count, 1);
    assert_eq!(st.last_exit_code, Some(1));
    assert_eq!(st.pid, None);
    assert!(!s.is_supervised("web"));
    assert_eq!(s.restart_delay("web", 2, 60), 2);

    s.record_spawned("web", Some(10), 0);
    assert!(!s.record_exit("web", RestartPolicy::OnFailure, Some(0), true));
    assert_eq!(s.status("web", 0).unwrap().state, AppState::Stopped);

    s.record_spawned("web", Some(11), 0);
    assert!(!s.record_exit("web", RestartPolicy::Never, Some(3), false));
    assert_eq!(s.status("web", 0).unwrap().state, AppState::Crashed);

    s.record_spawned("web", Some(12), 0);
    assert!(s.record_exit("web", RestartPolicy::Always, Some(0), true));
    assert_eq!(s.status("web", 0).unwrap().restart_count, 2);
    s.record_stop_during_backoff("web");
    assert_eq!(s.status("web", 0).unwrap().state, AppState::Stopped);

    s.record_spawned("web", Some(13), 0);
    s.record_deliberate_stop("web");
    let st = s.status("web", 0).unwrap();
    assert_eq!(st.state, AppState::Stopped);
    assert_eq!(st.pid, None);

    s.record_spawn_failure("web");
    assert_eq!(s.status("web", 0).unwrap().state, AppState::Crashed);
    assert!(!s.record_exit("absent", RestartPolicy::Always, None, false));
    assert_eq!(RuntimeInfo::default().state, AppState::Stopped);
}

#[test]
fn backoff_doubles_and_caps() {
    assert_eq!(backoff_seconds(1, 30, 1), 1);
    assert_eq!(backoff_seconds(1, 30, 2), 2);
    assert_eq!(backoff_seconds(1, 30, 3), 4);
    assert_eq!(backoff_seconds(1, 30, 5), 16);
    assert_eq!(backoff_seconds(1, 30, 6), 30);
    assert_eq!(backoff_seconds(3, 100, 1), 3);
    assert_eq!(backoff_seconds(3, 100, 2), 6);
    assert_eq!(backoff_seconds(1, 30, 0), 1);
    assert_eq!(backoff_seconds(0, 30, 1), 1);
    assert_eq!(backoff_seconds(5, 2, 3), 5);
    assert_eq!(backoff_seconds(1, u64::MAX, 11), 1024);
    assert_eq!(backoff_seconds(1, u64::MAX, 50), 1u64 << 49);
    assert_eq!(backoff_seconds(1, 4096, 12), 2048);
    assert_eq!(backoff_seconds(1, 4096, 13), 4096);
    assert_eq!(backoff_seconds(1, u64::MAX, 70), u64::MAX);
    assert_eq!(backoff_seconds(2, 60, u32::MAX), 60);
    assert_eq!(backoff_seconds(u64::MAX, u64::MAX, 3), u64::MAX);
}

#[test]
fn routing_by_domain_then_longest_prefix() {
    let mut s = supervisor();
    s.add_app(config("site", Some(3000), Some("Example.com"), None)).unwrap();
    s.add_app(config("api", Some(4000), None, Some("/api"))).unwrap();
    s.add_app(config("apiv2", Some(4002), None, Some("/api/v2"))).unwrap();
    s.add_app(config("noport", None, Some("noport.com"), Some("/np"))).unwrap();

    let r = s.resolve_route(Some("example.COM:8080"), "/api/x").unwrap();
    assert_eq!(r.app_name, "site");
    assert_eq!(r.target_port, 3000);
    assert_eq!(r.strip_prefix, None);

    let r = s.resolve_route(Some("other.com"), "/api/v2/users").unwrap();
    assert_eq!(r.app_name, "apiv2");
    assert_eq!(r.target_port, 4002);
    assert_eq!(r.strip_prefix, Some("/api/v2".to_string()));

    let r = s.resolve_route(None, "/api/v1").unwrap();
    assert_eq!(r.app_name, "api");

    assert!(s.resolve_route(Some("noport.com"), "/np").is_none());
    assert!(s.resolve_route(None, "/other").is_none());
    assert_eq!(s.configured_domains(), strings(&["Example.com", "noport.com"]));
}

#[test]
fn sorted_insert_keeps_order_and_uniqueness() {
    let mut v = strings(&["a", "c"]);
    insert_sorted_unique(&mut v, "b".to_string());
    insert_sorted_unique(&mut v, "c".to_string());
    insert_sorted_unique(&mut v, "0".to_string());
    assert_eq!(v, strings(&["0", "a", "b", "c"]));
}

#[test]
fn tail_of_logs() {
    let mut s = supervisor();
    s.add_app(config("web", None, None, None)).unwrap();
    let (out, err) = s.tail_logs("web", 2, Some("a\nb\nc\n"), None).unwrap();
    assert_eq!(out, strings(&["b", "c"]));
    assert_eq!(err, Vec::<String>::new());
    assert_eq!(
        s.tail_logs("none", 2, None, None),
        Err(SupervisorError::NotFound("none".to_string()))
    );
}

#[test]
fn supervision_cycle() {
    let mut s = supervisor();
    s.add_app(config("web", None, None, None)).unwrap();
    let on_failure = RestartSettings { policy: RestartPolicy::OnFailure, backoff_seconds: 1, max_backoff_seconds: 30 };
    assert_eq!(
        s.on_event("web", on_failure, SupervisionEvent::Spawned { pid: Some(7), now: 100 }),
        SupervisionAction::Wait
    );
    assert_eq!(s.status("web", 103).unwrap().uptime_seconds, Some(3));
    assert_eq!(
        s.on_event("web", on_failure, SupervisionEvent::Exited { code: Some(1), success: false }),
        SupervisionAction::Backoff(1)
    );
    assert_eq!(s.status("web", 0).unwrap().state, AppState::Restarting);
    assert_eq!(
        s.on_event("web", on_failure, SupervisionEvent::BackoffElapsed { desired_running: true }),
        SupervisionAction::Relaunch
    );
    s.on_event("web", on_failure, SupervisionEvent::Spawned { pid: Some(8), now: 200 });
    assert_eq!(
        s.on_event("web", on_failure, SupervisionEvent::Exited { code: Some(1), success: false }),
        SupervisionAction::Backoff(2)
    );
    assert_eq!(
        s.on_event("web", on_failure, SupervisionEvent::BackoffElapsed { desired_running: false }),
        SupervisionAction::Finish
    );
    assert_eq!(s.status("web", 0).unwrap().state, AppState::Stopped);
    s.on_event("web", on_failure, SupervisionEvent::Spawned { pid: Some(9), now: 300 });
    assert_eq!(s.on_event("web", on_failure, SupervisionEvent::Stopped), SupervisionAction::Finish);
    assert_eq!(s.status("web", 0).unwrap().pid, None);
    assert_eq!(
        s.on_event("web", on_failure, SupervisionEvent::Exited { code: Some(0), success: true }),
        SupervisionAction::Finish
    );
    assert_eq!(s.on_event("web", on_failure, SupervisionEvent::SpawnFailed), SupervisionAction::Finish);
    assert_eq!(s.status("web", 0).unwrap().state, AppState::Crashed);
    let never = RestartSettings { policy: RestartPolicy::Never, ..on_failure };
    s.on_event("web", never, SupervisionEvent::Spawned { pid: Some(10), now: 0 });
    assert_eq!(
        s.on_event("web", never, SupervisionEvent::Exited { code: Some(2), success: false }),
        SupervisionAction::Finish
    );
    let always = RestartSettings { policy: RestartPolicy::Always, ..on_failure };
    assert_eq!(
        s.on_event("gone", always, SupervisionEvent::Exited { code: Some(0), success: true }),
        SupervisionAction::Finish
    );
}

#[test]
fn start_and_stop_are_idempotent() {
    let mut s = supervisor();
    s.add_app(config("web", None, None, None)).unwrap();
    let restart = RestartSettings { policy: RestartPolicy::Always, backoff_seconds: 1, max_backoff_seconds: 30 };
    assert!(!s.stop_app("web").unwrap().signal_stop);
    s.on_event("web", restart, SupervisionEvent::Spawned { pid: Some(3), now: 0 });
    assert_eq!(s.status("web", 0).unwrap().state, AppState::Running);
    assert!(!s.start_app("web", DesiredState::default()).unwrap().spawn);
    s.on_event("web", restart, SupervisionEvent::Stopped);
    assert!(!s.stop_app("web").unwrap().signal_stop);
    assert!(s.start_app("web", DesiredState::default()).unwrap().spawn);
}

#[test]
fn persisted_state_and_restart_wait() {
    assert_eq!(desired_after_spawn(Some(12)), Some(DesiredState { running: true, pid: Some(12) }));
    assert_eq!(desired_after_spawn(None), None);
    assert_eq!(orphan_step(false, 0), OrphanStep::Done);
    assert_eq!(orphan_step(true, 0), OrphanStep::Wait);
    assert_eq!(orphan_step(true, 50), OrphanStep::ForceKill);
    assert_eq!(orphan_step(true, 51), OrphanStep::Wait);
    assert_eq!(orphan_step(false, 80), OrphanStep::Done);
}
