use harbor::api::{
    bearer_matches, check_update_name, config_from_request, failure_status, log_line_count, path_file_name,
    AddAppRequest, ApiError, Operation,
};
use harbor::app::{env_is_sorted, AppConfig, AppState, ConfigError, RestartPolicy, RuntimeKind};
use harbor::detect::{default_command, detect_runtime, extension_of, marker_files, DirEntry, ProjectDir};
use harbor::paths::{
    default_acme_directory, default_bind_addr, default_http_bind_addr, default_https_bind_addr, default_true, join,
    GlobalConfig, HarborPaths,
};
use harbor::text::{
    decimal_string, eq_ignore_ascii_case, join_strings, lines_of, starts_with, str_lt, tail_lines, to_ascii_lowercase,
    trim_str,
};

fn file(name: &str) -> DirEntry {
    DirEntry { name: name.to_string(), is_file: true }
}

fn dir_entry(name: &str) -> DirEntry {
    DirEntry { name: name.to_string(), is_file: false }
}

fn project(entries: Vec<DirEntry>) -> ProjectDir {
    ProjectDir { path: "/srv/proj".to_string(), entries, has_venv_python: false }
}

fn strings(v: &[&str]) -> Vec<String> {
    v.iter().map(|s| s.to_string()).collect()
}

#[test]
fn detects_python() {
    let dir = project(vec![file("requirements.txt")]);
    assert_eq!(detect_runtime(&dir), Some(RuntimeKind::Python));
}

#[test]
fn detects_node() {
    let dir = project(vec![file("package.json")]);
    assert_eq!(detect_runtime(&dir), Some(RuntimeKind::Node));
}

#[test]
fn detects_nothing_for_empty_dir() {
    let dir = project(vec![]);
    assert_eq!(detect_runtime(&dir), None);
}

#[test]
fn detection_order_prefers_rust_then_node() {
    let dir = project(vec![file("requirements.txt"), file("package.json"), file("Cargo.toml")]);
    assert_eq!(detect_runtime(&dir), Some(RuntimeKind::Rust));
    let dir = project(vec![file("requirements.txt"), file("package.json")]);
    assert_eq!(detect_runtime(&dir), Some(RuntimeKind::Node));
}

#[test]
fn detects_dotnet_by_extension_any_case() {
    let dir = project(vec![file("App.CSPROJ")]);
    assert_eq!(detect_runtime(&dir), Some(RuntimeKind::DotNet));
    let dir = project(vec![file("Thing.sln"), file("pom.xml")]);
    assert_eq!(detect_runtime(&dir), Some(RuntimeKind::DotNet));
}

#[test]
fn detects_java_markers() {
    assert_eq!(detect_runtime(&project(vec![file("build.gradle.kts")])), Some(RuntimeKind::Java));
    assert_eq!(detect_runtime(&project(vec![file("pom.xml")])), Some(RuntimeKind::Java));
}

#[test]
fn a_directory_named_like_a_marker_is_not_a_marker() {
    let dir = project(vec![dir_entry("package.json")]);
    assert_eq!(detect_runtime(&dir), None);
}

#[test]
fn extension_rules() {
    assert_eq!(extension_of("a.tar.gz"), Some("gz".to_string()));
    assert_eq!(extension_of(".bashrc"), None);
    assert_eq!(extension_of("noext"), None);
    assert_eq!(extension_of("x."), Some("".to_string()));
}

#[test]
fn default_commands() {
    let empty = project(vec![]);
    assert_eq!(default_command(RuntimeKind::Node, &empty), strings(&["npm", "start"]));
    assert_eq!(default_command(RuntimeKind::DotNet, &empty), strings(&["dotnet", "run"]));
    assert_eq!(default_command(RuntimeKind::Rust, &empty), strings(&["cargo", "run", "--release"]));
    assert_eq!(default_command(RuntimeKind::Custom, &empty), Vec::<String>::new());
    assert_eq!(default_command(RuntimeKind::Java, &empty), strings(&["./gradlew", "bootRun"]));
    let maven = project(vec![file("pom.xml")]);
    assert_eq!(default_command(RuntimeKind::Java, &maven), strings(&["mvn", "spring-boot:run"]));
    assert_eq!(default_command(RuntimeKind::Python, &empty), strings(&["python3", "main.py"]));
    let django = project(vec![file("manage.py")]);
    assert_eq!(default_command(RuntimeKind::Python, &django), strings(&["python3", "manage.py"]));
    let venv = ProjectDir { path: "/srv/p".to_string(), entries: vec![file("app.py")], has_venv_python: true };
    assert_eq!(default_command(RuntimeKind::Python, &venv), strings(&["/srv/p/.venv/bin/python", "app.py"]));
}

#[test]
fn runtime_names_and_parsing() {
    assert_eq!(RuntimeKind::DotNet.as_str(), "dotnet");
    assert_eq!(RuntimeKind::from_str("PY"), Ok(RuntimeKind::Python));
    assert_eq!(RuntimeKind::from_str("csharp"), Ok(RuntimeKind::DotNet));
    assert_eq!(RuntimeKind::from_str(".NET"), Ok(RuntimeKind::DotNet));
    assert_eq!(RuntimeKind::from_str("rs"), Ok(RuntimeKind::Rust));
    assert_eq!(RuntimeKind::from_str("Go"), Err(ConfigError::UnknownRuntime("go".to_string())));
    for k in [
        RuntimeKind::Python,
        RuntimeKind::Node,
        RuntimeKind::DotNet,
        RuntimeKind::Java,
        RuntimeKind::Rust,
        RuntimeKind::Custom,
    ] {
        assert_eq!(RuntimeKind::from_str(k.as_str()), Ok(k));
    }
    assert_eq!(ConfigError::UnknownRuntime("go".to_string()).message(), "unknown runtime 'go'");
}

#[test]
fn restart_policy_names_and_parsing() {
    assert_eq!(RestartPolicy::from_str("on_failure"), Ok(RestartPolicy::OnFailure));
    assert_eq!(RestartPolicy::from_str("ALWAYS"), Ok(RestartPolicy::Always));
    assert_eq!(
        RestartPolicy::from_str("sometimes"),
        Err(ConfigError::UnknownRestartPolicy("sometimes".to_string()))
    );
    assert_eq!(RestartPolicy::default(), RestartPolicy::OnFailure);
    for p in [RestartPolicy::Never, RestartPolicy::OnFailure, RestartPolicy::Always] {
        assert_eq!(RestartPolicy::from_str(p.as_str()), Ok(p));
    }
    assert_eq!(
        ConfigError::UnknownRestartPolicy("x".to_string()).message(),
        "unknown restart policy 'x'"
    );
    assert_eq!(AppState::Restarting.as_str(), "restarting");
}

fn config(name: &str) -> AppConfig {
    AppConfig {
        name: name.to_string(),
        path: "/srv/app".to_string(),
        runtime: RuntimeKind::Node,
        command: strings(&["npm", "start"]),
        working_dir: None,
        port: Some(3000),
        domain: None,
        path_prefix: None,
        env: vec![],
        restart_policy: RestartPolicy::OnFailure,
        restart_backoff_seconds: 1,
        restart_max_backoff_seconds: 30,
    }
}

#[test]
fn effective_working_dir_prefers_explicit() {
    let mut c = config("a");
    assert_eq!(c.effective_working_dir(), "/srv/app");
    c.working_dir = Some("/srv/app/sub".to_string());
    assert_eq!(c.effective_working_dir(), "/srv/app/sub");
}

#[test]
fn paths_layout() {
    let p = HarborPaths::at("/home/u/.harbor".to_string());
    assert_eq!(p.apps_dir, "/home/u/.harbor/apps");
    assert_eq!(p.state_dir, "/home/u/.harbor/state");
    assert_eq!(p.log_dir, "/home/u/.harbor/logs");
    assert_eq!(p.cert_dir, "/home/u/.harbor/certs");
    assert_eq!(p.global_config_file, "/home/u/.harbor/harbor.toml");
    assert_eq!(p.token_file, "/home/u/.harbor/token");
    assert_eq!(p.app_config_path("web"), "/home/u/.harbor/apps/web.toml");
    assert_eq!(p.app_log_path("web", "out"), "/home/u/.harbor/logs/web.out.log");
    assert_eq!(p.domain_cert_dir("example.com"), "/home/u/.harbor/certs/example.com");
    assert_eq!(p.desired_state_path("web"), "/home/u/.harbor/state/web.state.json");
    assert_eq!(p.acme_account_path(), "/home/u/.harbor/certs/acme-account.json");
    assert_eq!(
        p.dirs_to_create(),
        strings(&[
            "/home/u/.harbor",
            "/home/u/.harbor/apps",
            "/home/u/.harbor/state",
            "/home/u/.harbor/logs",
            "/home/u/.harbor/certs"
        ])
    );
}

#[test]
fn paths_discovery() {
    let p = HarborPaths::discover(Some("/opt/h".to_string()), Some("/home/u".to_string()));
    assert_eq!(p.home, "/opt/h");
    let p = HarborPaths::discover(None, Some("/home/u".to_string()));
    assert_eq!(p.home, "/home/u/.harbor");
    let p = HarborPaths::discover(None, None);
    assert_eq!(p.home, "./.harbor");
}

#[test]
fn join_follows_path_push() {
    assert_eq!(join("/a", "b"), "/a/b");
    assert_eq!(join("/a/", "b"), "/a/b");
    assert_eq!(join("/a", "/b"), "/b");
    assert_eq!(join("", "b"), "b");
}

#[test]
fn global_defaults() {
    let g = GlobalConfig::default();
    assert_eq!(g.bind_addr, "127.0.0.1:4780");
    assert!(g.proxy.enabled);
    assert_eq!(g.proxy.http_bind_addr, "0.0.0.0:8080");
    assert_eq!(g.proxy.https_bind_addr, "0.0.0.0:8443");
    assert!(g.proxy.https_redirect);
    assert!(!g.proxy.acme.enabled);
    assert_eq!(g.proxy.acme.email, None);
    assert_eq!(g.proxy.acme.directory_url, "https://acme-staging-v02.api.letsencrypt.org/directory");
    assert_eq!(default_bind_addr(), "127.0.0.1:4780");
    assert_eq!(default_http_bind_addr(), "0.0.0.0:8080");
    assert_eq!(default_https_bind_addr(), "0.0.0.0:8443");
    assert!(default_true());
    assert_eq!(default_acme_directory(), g.proxy.acme.directory_url);
}

#[test]
fn bearer_token_check() {
    assert!(bearer_matches(Some("Bearer abc"), "abc"));
    assert!(!bearer_matches(Some("Bearer abcd"), "abc"));
    assert!(!bearer_matches(Some("bearer abc"), "abc"));
    assert!(!bearer_matches(Some("abc"), "abc"));
    assert!(!bearer_matches(None, "abc"));
}

#[test]
fn file_names_of_paths() {
    assert_eq!(path_file_name("/srv/my-api"), Some("my-api".to_string()));
    assert_eq!(path_file_name("/srv/my-api/"), Some("my-api".to_string()));
    assert_eq!(path_file_name("/srv/my-api/."), Some("my-api".to_string()));
    assert_eq!(path_file_name("/"), None);
    assert_eq!(path_file_name("/srv/.."), None);
}

fn request(path: &str) -> AddAppRequest {
    AddAppRequest {
        path: path.to_string(),
        name: None,
        runtime: None,
        command: None,
        port: Some(8000),
        domain: Some("api.example.com".to_string()),
        path_prefix: None,
        env: vec![],
        restart_policy: None,
    }
}

#[test]
fn add_request_defaults() {
    let dir = project(vec![file("package.json")]);
    let c = config_from_request(request("/srv/my-api"), &dir).unwrap();
    assert_eq!(c.name, "my-api");
    assert_eq!(c.runtime, RuntimeKind::Node);
    assert_eq!(c.command, strings(&["npm", "start"]));
    assert_eq!(c.restart_policy, RestartPolicy::OnFailure);
    assert_eq!(c.restart_backoff_seconds, 1);
    assert_eq!(c.restart_max_backoff_seconds, 30);
    assert_eq!(c.port, Some(8000));
    assert_eq!(c.domain, Some("api.example.com".to_string()));
    assert_eq!(c.working_dir, None);
}

#[test]
fn add_request_without_runtime_is_refused() {
    let dir = project(vec![]);
    let r = config_from_request(request("/srv/x"), &dir);
    assert_eq!(r.err(), Some(ApiError::RuntimeUndetected));
    assert_eq!(
        ApiError::RuntimeUndetected.message(),
        "could not auto-detect runtime; pass --runtime explicitly"
    );
    let mut req = request("/");
    req.runtime = Some(RuntimeKind::Custom);
    req.command = Some(strings(&["./run.sh"]));
    let c = config_from_request(req, &dir).unwrap();
    assert_eq!(c.name, "app");
    assert_eq!(c.command, strings(&["./run.sh"]));
}

#[test]
fn update_must_keep_the_name() {
    let c = config("web");
    assert_eq!(check_update_name("web", &c), Ok(()));
    assert_eq!(check_update_name("api", &c), Err(ApiError::NameMismatch));
    assert_eq!(
        ApiError::NameMismatch.message(),
        "config 'name' must match the URL and cannot be changed here"
    );
}

#[test]
fn failure_statuses() {
    assert_eq!(failure_status(Operation::Authenticate, None), 401);
    assert_eq!(failure_status(Operation::AddApp, Some(ApiError::RuntimeUndetected)), 422);
    assert_eq!(failure_status(Operation::AddApp, None), 409);
    assert_eq!(failure_status(Operation::UpdateConfig, Some(ApiError::NameMismatch)), 400);
    assert_eq!(failure_status(Operation::UpdateConfig, None), 422);
    assert_eq!(failure_status(Operation::Reload, None), 500);
    assert_eq!(failure_status(Operation::StartApp, None), 404);
    assert_eq!(log_line_count(None), 100);
    assert_eq!(log_line_count(Some(7)), 7);
}

#[test]
fn text_helpers() {
    assert_eq!(trim_str("  a b \n"), "a b");
    assert_eq!(to_ascii_lowercase("HeLLo-É"), "hello-É");
    assert!(eq_ignore_ascii_case("WebSocket", "websocket"));
    assert!(starts_with("/api/x", "/api"));
    assert!(!starts_with("/ap", "/api"));
    assert_eq!(decimal_string(0), "0");
    assert_eq!(decimal_string(1234567890123), "1234567890123");
    assert!(str_lt("abc", "abd"));
    assert!(str_lt("ab", "abc"));
    assert!(!str_lt("b", "abc"));
    assert_eq!(join_strings(&strings(&["a", "b", "c"]), ", "), "a, b, c");
    assert_eq!(lines_of("a\r\nb\n\nc"), strings(&["a", "b", "", "c"]));
    assert_eq!(lines_of("a\n"), strings(&["a"]));
    assert_eq!(tail_lines("1\n2\n3\n4\n", 2), strings(&["3", "4"]));
    assert_eq!(tail_lines("1\n2\n", 10), strings(&["1", "2"]));
}

#[test]
fn removal_deletes_config_state_and_logs() {
    let p = HarborPaths::at("/h".to_string());
    assert_eq!(
        p.app_files("web"),
        strings(&["/h/apps/web.toml", "/h/state/web.state.json", "/h/logs/web.out.log", "/h/logs/web.err.log", "/h/logs/web.access.log"])
    );
}

#[test]
fn environment_order() {
    let pair = |k: &str| (k.to_string(), "v".to_string());
    assert!(env_is_sorted(&vec![]));
    assert!(env_is_sorted(&vec![pair("A"), pair("B"), pair("a")]));
    assert!(!env_is_sorted(&vec![pair("B"), pair("A")]));
    assert!(!env_is_sorted(&vec![pair("A"), pair("A")]));
}

#[test]
fn probed_markers() {
    let m = marker_files();
    assert_eq!(m.len(), 12);
    assert!(m.contains(&"Cargo.toml".to_string()));
    assert!(m.contains(&"manage.py".to_string()));
    // A marker the file system resolves (as on a case-insensitive one) is
    // detected even when the listing spells it differently.
    let dir = project(vec![file("cargo.toml"), file("Cargo.toml")]);
    assert_eq!(detect_runtime(&dir), Some(RuntimeKind::Rust));
}
