use harbor::app::{AppState, AppStatus, ConfigError, RestartPolicy, RuntimeKind};
use harbor::cli::{
    add_request, added_message, base_url, confirmation, daemon_error, logs_call, missing_token_message, pad_right,
    reloaded_message, request, split_command, status_table, table_row, unseen_lines, url, ApiCall, Method,
};
use harbor::service::{
    binary_in_dir, exit_failure_message, windows_removal_message, install, launchd_domain, locate_binary, plist_contents, plist_path, start,
    status, step_result, stop, uninstall, unit_contents, unit_path, Check, Platform, RunOutcome, ServiceError,
    ServiceStep,
};

fn strings(v: &[&str]) -> Vec<String> {
    v.iter().map(|s| s.to_string()).collect()
}

#[test]
fn command_lines_split_on_whitespace() {
    assert_eq!(split_command("python3  app.py --port\t8000 "), strings(&["python3", "app.py", "--port", "8000"]));
    assert_eq!(split_command(""), Vec::<String>::new());
    assert_eq!(split_command("   "), Vec::<String>::new());
    assert_eq!(split_command("one"), strings(&["one"]));
    assert_eq!(split_command("a\u{a0}b\nc"), strings(&["a", "b", "c"]));
}

#[test]
fn request_lines() {
    assert_eq!(request(&ApiCall::ListApps), (Method::Get, "/apps".to_string()));
    assert_eq!(request(&ApiCall::AddApp), (Method::Post, "/apps".to_string()));
    assert_eq!(request(&ApiCall::GetApp("web".to_string())), (Method::Get, "/apps/web".to_string()));
    assert_eq!(request(&ApiCall::RemoveApp("web".to_string())), (Method::Delete, "/apps/web".to_string()));
    assert_eq!(request(&ApiCall::StartApp("web".to_string())), (Method::Post, "/apps/web/start".to_string()));
    assert_eq!(request(&ApiCall::StopApp("web".to_string())), (Method::Post, "/apps/web/stop".to_string()));
    assert_eq!(request(&ApiCall::RestartApp("web".to_string())), (Method::Post, "/apps/web/restart".to_string()));
    assert_eq!(request(&ApiCall::Reload), (Method::Post, "/reload".to_string()));
    assert_eq!(
        request(&ApiCall::Logs("web".to_string(), 100)),
        (Method::Get, "/apps/web/logs?lines=100".to_string())
    );
    assert_eq!(logs_call("web".to_string(), 0), ApiCall::Logs("web".to_string(), 1));
    assert_eq!(logs_call("web".to_string(), 50), ApiCall::Logs("web".to_string(), 50));
    assert_eq!(base_url("127.0.0.1:4780"), "http://127.0.0.1:4780");
    assert_eq!(url("http://127.0.0.1:4780", "/apps"), "http://127.0.0.1:4780/apps");
}

#[test]
fn error_reports() {
    assert_eq!(
        daemon_error("404 Not Found", "{\"error\":\"app 'x' not found\"}", Some("app 'x' not found")),
        "daemon returned 404 Not Found: app 'x' not found"
    );
    assert_eq!(daemon_error("500 Internal Server Error", "boom", None), "daemon returned 500 Internal Server Error: boom");
    assert_eq!(
        missing_token_message("/h/token"),
        "no daemon token found at /h/token; is the harbor daemon running?"
    );
}

#[test]
fn add_requests_from_arguments() {
    let req = add_request(
        "/srv/api".to_string(),
        Some("api".to_string()),
        Some("Node"),
        Some("node  server.js"),
        Some(8000),
        Some("api.example.com".to_string()),
        Some("/api".to_string()),
        RestartPolicy::Always,
    )
    .unwrap();
    assert_eq!(req.path, "/srv/api");
    assert_eq!(req.name, Some("api".to_string()));
    assert_eq!(req.runtime, Some(RuntimeKind::Node));
    assert_eq!(req.command, Some(strings(&["node", "server.js"])));
    assert_eq!(req.port, Some(8000));
    assert_eq!(req.domain, Some("api.example.com".to_string()));
    assert_eq!(req.path_prefix, Some("/api".to_string()));
    assert!(req.env.is_empty());
    assert_eq!(req.restart_policy, Some(RestartPolicy::Always));

    let bare = add_request("/p".to_string(), None, None, None, None, None, None, RestartPolicy::OnFailure).unwrap();
    assert_eq!(bare.runtime, None);
    assert_eq!(bare.command, None);
    assert_eq!(bare.restart_policy, Some(RestartPolicy::OnFailure));

    let bad = add_request("/p".to_string(), None, Some("cobol"), None, None, None, None, RestartPolicy::Never);
    assert_eq!(bad.err(), Some(ConfigError::UnknownRuntime("cobol".to_string())));
}

fn app_status(name: &str) -> AppStatus {
    AppStatus {
        name: name.to_string(),
        state: AppState::Running,
        pid: Some(4242),
        restart_count: 3,
        uptime_seconds: Some(10),
        memory_bytes: Some(2048),
        runtime: RuntimeKind::Python,
        port: Some(8000),
        domain: None,
        path_prefix: None,
        last_exit_code: None,
    }
}

#[test]
fn status_table_layout() {
    assert_eq!(pad_right("ab", 5), "ab   ");
    assert_eq!(pad_right("abcdef", 3), "abcdef");
    assert_eq!(pad_right("é", 3), "é  ");
    let row = table_row(&strings(&["a", "b", "c", "d", "e", "f", "g", "h", "i"]));
    assert_eq!(row, format!("{:<20} {:<8} {:<11} {:<8} {:<7} {:<9} {:<6} {:<9} {:<20}", "a", "b", "c", "d", "e", "f", "g", "h", "i"));

    assert_eq!(status_table(&vec![], &vec![], &vec![]), strings(&["no apps registered"]));
    let lines = status_table(&vec![app_status("web")], &vec![None], &vec![Some("2.0KiB".to_string())]);
    assert_eq!(lines.len(), 2);
    assert_eq!(
        lines[0],
        format!(
            "{:<20} {:<8} {:<11} {:<8} {:<7} {:<9} {:<6} {:<9} {:<20}",
            "NAME", "RUNTIME", "STATE", "PID", "CPU%", "MEM", "PORT", "RESTARTS", "DOMAIN"
        )
    );
    assert_eq!(
        lines[1],
        format!(
            "{:<20} {:<8} {:<11} {:<8} {:<7} {:<9} {:<6} {:<9} {:<20}",
            "web", "python", "running", "4242", "-", "2.0KiB", "8000", 3, "-"
        )
    );
}

#[test]
fn polled_logs_show_only_new_lines() {
    let lines = strings(&["a", "b", "c"]);
    assert_eq!(unseen_lines(&lines, 0), lines);
    assert_eq!(unseen_lines(&lines, 2), strings(&["c"]));
    assert_eq!(unseen_lines(&lines, 3), Vec::<String>::new());
    assert_eq!(unseen_lines(&lines, 9), Vec::<String>::new());
}

#[test]
fn confirmations() {
    assert_eq!(confirmation(&ApiCall::StartApp("web".to_string())), Some("started 'web'".to_string()));
    assert_eq!(confirmation(&ApiCall::StopApp("web".to_string())), Some("stopped 'web'".to_string()));
    assert_eq!(confirmation(&ApiCall::RestartApp("web".to_string())), Some("restarted 'web'".to_string()));
    assert_eq!(confirmation(&ApiCall::RemoveApp("web".to_string())), Some("removed 'web'".to_string()));
    assert_eq!(confirmation(&ApiCall::ListApps), None);
    assert_eq!(added_message(&app_status("web")), "added app 'web' (runtime: python)");
    assert_eq!(reloaded_message(3), "reloaded 3 app config(s)");
}

fn run(program: &str, args: &[&str], check: Check) -> ServiceStep {
    ServiceStep::Run { program: program.to_string(), args: strings(args), check }
}

fn print(m: &str) -> ServiceStep {
    ServiceStep::Print(m.to_string())
}

#[test]
fn systemd_unit() {
    assert_eq!(unit_path(false, None), Ok("/etc/systemd/system/harbord.service".to_string()));
    assert_eq!(unit_path(true, Some("/home/u")), Ok("/home/u/.config/systemd/user/harbord.service".to_string()));
    assert_eq!(unit_path(true, None), Err(ServiceError::NoHomeDirectory));
    assert_eq!(
        unit_contents("/usr/bin/harbord", false),
        "[Unit]\nDescription=Harbor daemon\nAfter=network.target\n\n[Service]\nExecStart=/usr/bin/harbord\nRestart=on-failure\nRestartSec=2\n\n[Install]\nWantedBy=multi-user.target\n"
    );
    assert!(unit_contents("/b", true).ends_with("WantedBy=default.target\n"));
}

#[test]
fn systemd_install_steps() {
    let steps = install(Platform::Linux, true, "/bin/harbord", Some("/home/u"), "").unwrap();
    assert_eq!(
        steps,
        vec![
            ServiceStep::CreateDirAll("/home/u/.config/systemd/user".to_string()),
            ServiceStep::WriteFile {
                path: "/home/u/.config/systemd/user/harbord.service".to_string(),
                contents: unit_contents("/bin/harbord", true),
                needs_root: false,
            },
            run("systemctl", &["--user", "daemon-reload"], Check::Exit),
            run("systemctl", &["--user", "enable", "--now", "harbord"], Check::Exit),
            print("installed and started harbord (user unit at /home/u/.config/systemd/user/harbord.service)"),
            print("note: a user-level service only runs while you're logged in, unless you also run:"),
            print("  loginctl enable-linger $USER"),
        ]
    );
    let steps = uninstall(Platform::Linux, false, None, "").unwrap();
    assert_eq!(
        steps,
        vec![
            run("systemctl", &["disable", "--now", "harbord"], Check::Ignore),
            ServiceStep::RemoveFileIfExists("/etc/systemd/system/harbord.service".to_string()),
            run("systemctl", &["daemon-reload"], Check::Exit),
            print("uninstalled harbord"),
        ]
    );
    assert_eq!(
        start(Platform::Linux, false, "").unwrap(),
        vec![run("systemctl", &["start", "harbord"], Check::Exit), print("started harbord")]
    );
    assert_eq!(
        stop(Platform::Linux, true, "").unwrap(),
        vec![run("systemctl", &["--user", "stop", "harbord"], Check::Exit), print("stopped harbord")]
    );
    assert_eq!(
        status(Platform::Linux, false, "").unwrap(),
        vec![run("systemctl", &["status", "harbord", "--no-pager"], Check::Spawn)]
    );
    assert_eq!(install(Platform::Linux, true, "/b", None, ""), Err(ServiceError::NoHomeDirectory));
    assert_eq!(start(Platform::Other, false, ""), Err(ServiceError::Unsupported));
    assert_eq!(ServiceError::Unsupported.message(), "`harbor service` isn't supported on this platform");
}

#[test]
fn launchd_job() {
    assert_eq!(plist_path(false, None), Ok("/Library/LaunchDaemons/com.harbor.harbord.plist".to_string()));
    assert_eq!(
        plist_path(true, Some("/Users/u")),
        Ok("/Users/u/Library/LaunchAgents/com.harbor.harbord.plist".to_string())
    );
    let text = plist_contents("/usr/local/bin/harbord", true, Some("/Users/u")).unwrap();
    assert!(text.contains("<string>/usr/local/bin/harbord</string>"));
    assert!(text.contains("<string>/Users/u/.harbor/logs/harbord.stdout.log</string>"));
    assert!(text.contains("<string>/Users/u/.harbor/logs/harbord.stderr.log</string>"));
    assert!(text.starts_with("<?xml version=\"1.0\" encoding=\"UTF-8\"?>\n"));
    let sys = plist_contents("/b", false, None).unwrap();
    assert!(sys.contains("<string>/var/log/harbord.stdout.log</string>"));
    assert_eq!(launchd_domain(false, ""), Ok("system".to_string()));
    assert_eq!(launchd_domain(true, "501\n"), Ok("gui/501".to_string()));
    assert_eq!(launchd_domain(true, "  \n"), Err(ServiceError::NoUid));

    let steps = install(Platform::MacOs, false, "/b", None, "system").unwrap();
    assert_eq!(steps[0], ServiceStep::CreateDirAll("/Library/LaunchDaemons".to_string()));
    assert_eq!(steps[2], run("launchctl", &["bootout", "system/com.harbor.harbord"], Check::Ignore));
    assert_eq!(
        steps[3],
        run(
            "launchctl",
            &["bootstrap", "system", "/Library/LaunchDaemons/com.harbor.harbord.plist"],
            Check::Exit
        )
    );
    assert_eq!(steps[4], run("launchctl", &["enable", "system/com.harbor.harbord"], Check::Exit));
    assert_eq!(
        steps[5],
        print("installed and started harbord (system job at /Library/LaunchDaemons/com.harbor.harbord.plist)")
    );
    assert_eq!(
        start(Platform::MacOs, true, "gui/501").unwrap(),
        vec![run("launchctl", &["kickstart", "-k", "gui/501/com.harbor.harbord"], Check::Exit), print("started harbord")]
    );
    assert_eq!(
        status(Platform::MacOs, true, "gui/501").unwrap(),
        vec![run("launchctl", &["print", "gui/501/com.harbor.harbord"], Check::Ignore)]
    );
}

#[test]
fn step_outcomes() {
    let args = strings(&["--user", "enable", "--now", "harbord"]);
    let failed = RunOutcome::Exited { success: false, status: "exit status: 1".to_string() };
    let ok = RunOutcome::Exited { success: true, status: "exit status: 0".to_string() };
    assert_eq!(
        step_result("systemctl", &args, Check::Exit, &failed),
        Err("systemctl enable --now harbord exited with exit status: 1".to_string())
    );
    assert_eq!(step_result("systemctl", &args, Check::Exit, &ok), Ok(()));
    assert_eq!(step_result("systemctl", &args, Check::Spawn, &failed), Ok(()));
    assert_eq!(step_result("systemctl", &args, Check::Ignore, &failed), Ok(()));
    let missing = RunOutcome::SpawnFailed("No such file or directory".to_string());
    assert_eq!(
        step_result("systemctl", &args, Check::Spawn, &missing),
        Err("running `systemctl --user`: No such file or directory".to_string())
    );
    assert_eq!(
        step_result("systemctl", &strings(&["status"]), Check::Exit, &missing),
        Err("running `systemctl`: No such file or directory".to_string())
    );
    assert_eq!(
        step_result("launchctl", &strings(&["print", "x"]), Check::Exit, &missing),
        Err("running launchctl: No such file or directory".to_string())
    );
    assert_eq!(step_result("launchctl", &strings(&["print", "x"]), Check::Ignore, &missing), Ok(()));
    assert_eq!(
        exit_failure_message("launchctl", &strings(&["enable", "system/x"]), "exit status: 5"),
        "launchctl enable system/x exited with exit status: 5"
    );
}

#[test]
fn binary_location() {
    assert_eq!(binary_in_dir("/opt/harbor/bin", false), "/opt/harbor/bin/harbord");
    assert_eq!(binary_in_dir("C:/h", true), "C:/h/harbord.exe");
    assert_eq!(locate_binary(Some("/x/harbord"), true, "/d", false, false), Ok("/x/harbord".to_string()));
    assert_eq!(
        locate_binary(Some("/x/harbord"), false, "/d", true, false),
        Err("--binary /x/harbord does not exist".to_string())
    );
    assert_eq!(locate_binary(None, false, "/d", true, false), Ok("/d/harbord".to_string()));
    assert_eq!(
        locate_binary(None, false, "/d", false, false),
        Err("could not find 'harbord' next to this CLI binary at /d/harbord; pass --binary <path>".to_string())
    );
}

#[test]
fn windows_service_steps() {
    let steps = install(Platform::Windows, true, "C:/harbor/harbord.exe", None, "").unwrap();
    assert_eq!(
        steps,
        vec![
            ServiceStep::ScmCreate {
                name: "harbord".to_string(),
                display_name: "Harbor daemon".to_string(),
                description: "Harbor daemon — process supervision and reverse proxy".to_string(),
                binary: "C:/harbor/harbord.exe".to_string(),
                args: strings(&["--windows-service"]),
            },
            ServiceStep::ScmStart("harbord".to_string()),
            print("installed and started harbord"),
        ]
    );
    assert_eq!(uninstall(Platform::Windows, false, None, "").unwrap(), vec![ServiceStep::ScmDelete("harbord".to_string())]);
    assert_eq!(
        start(Platform::Windows, false, "").unwrap(),
        vec![ServiceStep::ScmStart("harbord".to_string()), print("started harbord")]
    );
    assert_eq!(
        stop(Platform::Windows, false, "").unwrap(),
        vec![ServiceStep::ScmStop("harbord".to_string()), print("stopped harbord")]
    );
    assert_eq!(status(Platform::Windows, false, "").unwrap(), vec![ServiceStep::ScmStatus("harbord".to_string())]);
    assert_eq!(windows_removal_message(true), "uninstalled harbord");
    assert_eq!(
        windows_removal_message(false),
        "harbord is marked for deletion and will be removed once fully stopped"
    );
}
