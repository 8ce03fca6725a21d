//! Registering the daemon as a native OS service: the systemd unit and
//! launchd job files, and the steps (files to write, commands to run,
//! messages to print) each service action consists of.
use vstd::prelude::*;

use crate::paths::{join, join_path};
use crate::text::{concat2, join_strings, joined, push_str, str_eq, trim, trim_str, views};

verus! {

/// The service managers a service can be registered with.
#[derive(Debug, Clone, Copy, PartialEq, Eq, Structural)]
pub enum Platform {
    /// systemd.
    Linux,
    /// launchd.
    MacOs,
    /// The Windows Service Control Manager.
    Windows,
    /// Anything without a supported service manager.
    Other,
}

/// Why a service action cannot proceed.
#[derive(Debug, Clone, PartialEq, Eq)]
pub enum ServiceError {
    NoHomeDirectory,
    NoUid,
    Unsupported,
}

impl ServiceError {
    pub fn message(&self) -> (r: &'static str)
        ensures
            r@ == match self {
                ServiceError::NoHomeDirectory => "could not determine home directory"@,
                ServiceError::NoUid => "could not determine the current user's UID"@,
                ServiceError::Unsupported => "`harbor service` isn't supported on this platform"@,
            },
    {
        match self {
            ServiceError::NoHomeDirectory => "could not determine home directory",
            ServiceError::NoUid => "could not determine the current user's UID",
            ServiceError::Unsupported => "`harbor service` isn't supported on this platform",
        }
    }
}

/// How a command's failure is treated.
#[derive(Debug, Clone, Copy, PartialEq, Eq, Structural)]
pub enum Check {
    /// Any failure is ignored.
    Ignore,
    /// Failing to run the command is an error; its exit status is not.
    Spawn,
    /// A non-zero exit status is an error too.
    Exit,
}

/// One step of a service action.
#[derive(Debug, Clone, PartialEq, Eq)]
pub enum ServiceStep {
    CreateDirAll(String),
    /// Write the file; `needs_root` marks a system-wide location, whose
    /// write failure hints at running with root privileges.
    WriteFile { path: String, contents: String, needs_root: bool },
    RemoveFileIfExists(String),
    Run { program: String, args: Vec<String>, check: Check },
    Print(String),
    /// Register a Windows service running `binary` with `args`, and set its
    /// description.
    ScmCreate { name: String, display_name: String, description: String, binary: String, args: Vec<String> },
    /// Start the Windows service.
    ScmStart(String),
    /// Stop the Windows service.
    ScmStop(String),
    /// Mark the Windows service for deletion, stopping it when it runs.
    ScmDelete(String),
    /// Report the Windows service's state.
    ScmStatus(String),
}

pub enum StepView {
    CreateDirAll(Seq<char>),
    WriteFile { path: Seq<char>, contents: Seq<char>, needs_root: bool },
    RemoveFileIfExists(Seq<char>),
    Run { program: Seq<char>, args: Seq<Seq<char>>, check: Check },
    Print(Seq<char>),
    ScmCreate {
        name: Seq<char>,
        display_name: Seq<char>,
        description: Seq<char>,
        binary: Seq<char>,
        args: Seq<Seq<char>>,
    },
    ScmStart(Seq<char>),
    ScmStop(Seq<char>),
    ScmDelete(Seq<char>),
    ScmStatus(Seq<char>),
}

impl View for ServiceStep {
    type V = StepView;

    open spec fn view(&self) -> StepView {
        match self {
            ServiceStep::CreateDirAll(p) => StepView::CreateDirAll(p@),
            ServiceStep::WriteFile { path, contents, needs_root } => StepView::WriteFile {
                path: path@,
                contents: contents@,
                needs_root: *needs_root,
            },
            ServiceStep::RemoveFileIfExists(p) => StepView::RemoveFileIfExists(p@),
            ServiceStep::Run { program, args, check } => StepView::Run {
                program: program@,
                args: views(args@),
                check: *check,
            },
            ServiceStep::Print(m) => StepView::Print(m@),
            ServiceStep::ScmCreate { name, display_name, description, binary, args } => StepView::ScmCreate {
                name: name@,
                display_name: display_name@,
                description: description@,
                binary: binary@,
                args: views(args@),
            },
            ServiceStep::ScmStart(n) => StepView::ScmStart(n@),
            ServiceStep::ScmStop(n) => StepView::ScmStop(n@),
            ServiceStep::ScmDelete(n) => StepView::ScmDelete(n@),
            ServiceStep::ScmStatus(n) => StepView::ScmStatus(n@),
        }
    }
}

pub open spec fn step_views(v: Seq<ServiceStep>) -> Seq<StepView> {
    v.map_values(|s: ServiceStep| s@)
}

/// Where the systemd unit lives.
pub open spec fn unit_path_of(user: bool, home: Seq<char>) -> Seq<char> {
    if user {
        join_path(join_path(home, ".config/systemd/user"@), "harbord.service"@)
    } else {
        join_path("/etc/systemd/system"@, "harbord.service"@)
    }
}

/// The systemd unit running `binary`.
pub open spec fn unit_text(binary: Seq<char>, user: bool) -> Seq<char> {
    "[Unit]\nDescription=Harbor daemon\nAfter=network.target\n\n[Service]\nExecStart="@ + binary
        + "\nRestart=on-failure\nRestartSec=2\n\n[Install]\nWantedBy="@ + (if user {
        "default.target"@
    } else {
        "multi-user.target"@
    }) + "\n"@
}

/// Where the launchd job definition lives.
pub open spec fn plist_path_of(user: bool, home: Seq<char>) -> Seq<char> {
    if user {
        join_path(join_path(home, "Library/LaunchAgents"@), "com.harbor.harbord.plist"@)
    } else {
        join_path("/Library/LaunchDaemons"@, "com.harbor.harbord.plist"@)
    }
}

/// Where the launchd job's output goes.
pub open spec fn plist_log_dir(user: bool, home: Seq<char>) -> Seq<char> {
    if user {
        join_path(home, ".harbor/logs"@)
    } else {
        "/var/log"@
    }
}

/// The launchd job definition running `binary`, logging to `log_dir`.
pub open spec fn plist_text(binary: Seq<char>, log_dir: Seq<char>) -> Seq<char> {
    "<?xml version=\"1.0\" encoding=\"UTF-8\"?>\n<!DOCTYPE plist PUBLIC \"-//Apple//DTD PLIST 1.0//EN\" \"http://www.apple.com/DTDs/PropertyList-1.0.dtd\">\n<plist version=\"1.0\">\n<dict>\n\t<key>Label</key>\n\t<string>com.harbor.harbord</string>\n\t<key>ProgramArguments</key>\n\t<array>\n\t\t<string>"@
        + binary
        + "</string>\n\t</array>\n\t<key>RunAtLoad</key>\n\t<true/>\n\t<key>KeepAlive</key>\n\t<true/>\n\t<key>StandardOutPath</key>\n\t<string>"@
        + join_path(log_dir, "harbord.stdout.log"@) + "</string>\n\t<key>StandardErrorPath</key>\n\t<string>"@
        + join_path(log_dir, "harbord.stderr.log"@) + "</string>\n</dict>\n</plist>\n"@
}

/// The path of the systemd unit; a per-user unit needs the home directory.
pub fn unit_path(user: bool, home: Option<&str>) -> (r: Result<String, ServiceError>)
    ensures
        match r {
            Ok(p) => (!user || home is Some) && p@ == unit_path_of(user, if user { home->0@ } else { seq![] }),
            Err(e) => user && home is None && e == ServiceError::NoHomeDirectory,
        },
{
    if user {
        match home {
            Some(h) => {
                let d = join(h, ".config/systemd/user");
                Ok(join(d.as_str(), "harbord.service"))
            },
            None => Err(ServiceError::NoHomeDirectory),
        }
    } else {
        Ok(join("/etc/systemd/system", "harbord.service"))
    }
}

/// The systemd unit text.
pub fn unit_contents(binary: &str, user: bool) -> (r: String)
    ensures
        r@ == unit_text(binary@, user),
{
    let mut s = "[Unit]\nDescription=Harbor daemon\nAfter=network.target\n\n[Service]\nExecStart=".to_string();
    push_str(&mut s, binary);
    push_str(&mut s, "\nRestart=on-failure\nRestartSec=2\n\n[Install]\nWantedBy=");
    if user {
        push_str(&mut s, "default.target");
    } else {
        push_str(&mut s, "multi-user.target");
    }
    push_str(&mut s, "\n");
    s
}

/// The path of the launchd job definition.
pub fn plist_path(user: bool, home: Option<&str>) -> (r: Result<String, ServiceError>)
    ensures
        match r {
            Ok(p) => (!user || home is Some) && p@ == plist_path_of(user, if user { home->0@ } else { seq![] }),
            Err(e) => user && home is None && e == ServiceError::NoHomeDirectory,
        },
{
    if user {
        match home {
            Some(h) => {
                let d = join(h, "Library/LaunchAgents");
                Ok(join(d.as_str(), "com.harbor.harbord.plist"))
            },
            None => Err(ServiceError::NoHomeDirectory),
        }
    } else {
        Ok(join("/Library/LaunchDaemons", "com.harbor.harbord.plist"))
    }
}

/// The launchd job definition text.
pub fn plist_contents(binary: &str, user: bool, home: Option<&str>) -> (r: Result<String, ServiceError>)
    ensures
        match r {
            Ok(t) => (!user || home is Some) && t@ == plist_text(
                binary@,
                plist_log_dir(user, if user { home->0@ } else { seq![] }),
            ),
            Err(e) => user && home is None && e == ServiceError::NoHomeDirectory,
        },
{
    let log_dir = if user {
        match home {
            Some(h) => join(h, ".harbor/logs"),
            None => return Err(ServiceError::NoHomeDirectory),
        }
    } else {
        "/var/log".to_string()
    };
    let out_path = join(log_dir.as_str(), "harbord.stdout.log");
    let err_path = join(log_dir.as_str(), "harbord.stderr.log");
    let mut s = "<?xml version=\"1.0\" encoding=\"UTF-8\"?>\n<!DOCTYPE plist PUBLIC \"-//Apple//DTD PLIST 1.0//EN\" \"http://www.apple.com/DTDs/PropertyList-1.0.dtd\">\n<plist version=\"1.0\">\n<dict>\n\t<key>Label</key>\n\t<string>com.harbor.harbord</string>\n\t<key>ProgramArguments</key>\n\t<array>\n\t\t<string>".to_string();
    push_str(&mut s, binary);
    push_str(
        &mut s,
        "</string>\n\t</array>\n\t<key>RunAtLoad</key>\n\t<true/>\n\t<key>KeepAlive</key>\n\t<true/>\n\t<key>StandardOutPath</key>\n\t<string>",
    );
    push_str(&mut s, out_path.as_str());
    push_str(&mut s, "</string>\n\t<key>StandardErrorPath</key>\n\t<string>");
    push_str(&mut s, err_path.as_str());
    push_str(&mut s, "</string>\n</dict>\n</plist>\n");
    Ok(s)
}

/// The launchd domain a job lives in: `system`, or `gui/<uid>` for a
/// per-user job, with the uid from the output of `id -u`.
pub open spec fn launchd_domain_of(user: bool, id_output: Seq<char>) -> Option<Seq<char>> {
    if !user {
        Some("system"@)
    } else if trim(id_output).len() == 0 {
        None
    } else {
        Some("gui/"@ + trim(id_output))
    }
}

/// The launchd domain of the job.
pub fn launchd_domain(user: bool, id_output: &str) -> (r: Result<String, ServiceError>)
    ensures
        match r {
            Ok(d) => launchd_domain_of(user, id_output@) == Some(d@),
            Err(e) => launchd_domain_of(user, id_output@) is None && e == ServiceError::NoUid,
        },
{
    if !user {
        return Ok("system".to_string());
    }
    let uid = trim_str(id_output);
    if uid.unicode_len() == 0 {
        return Err(ServiceError::NoUid);
    }
    Ok(concat2("gui/", uid.as_str()))
}

/// The message for a command that exited unsuccessfully.
pub open spec fn exit_failure_text(program: Seq<char>, args: Seq<Seq<char>>, status: Seq<char>) -> Seq<char> {
    program + " "@ + joined(args, " "@) + " exited with "@ + status
}

/// The error text for a command (`systemctl_checked`, `launchctl_checked`)
/// that exited unsuccessfully with the given status text.
pub fn exit_failure_message(program: &str, args: &Vec<String>, status: &str) -> (r: String)
    ensures
        r@ == exit_failure_text(program@, views(args@), status@),
{
    let mut m = program.to_string();
    push_str(&mut m, " ");
    let j = join_strings(args, " ");
    push_str(&mut m, j.as_str());
    push_str(&mut m, " exited with ");
    push_str(&mut m, status);
    m
}

} // verus!

verus! {

/// `systemctl`'s arguments: `--user` first for a per-user service.
pub open spec fn systemctl_argv(user: bool, args: Seq<Seq<char>>) -> Seq<Seq<char>> {
    if user {
        seq!["--user"@] + args
    } else {
        args
    }
}

pub open spec fn systemctl_step(user: bool, args: Seq<Seq<char>>, check: Check) -> StepView {
    StepView::Run { program: "systemctl"@, args: systemctl_argv(user, args), check }
}

pub open spec fn launchctl_step(args: Seq<Seq<char>>, check: Check) -> StepView {
    StepView::Run { program: "launchctl"@, args, check }
}

/// The directory holding the systemd unit.
pub open spec fn unit_dir(user: bool, home: Seq<char>) -> Seq<char> {
    if user {
        join_path(home, ".config/systemd/user"@)
    } else {
        "/etc/systemd/system"@
    }
}

/// The directory holding the launchd job definition.
pub open spec fn plist_dir(user: bool, home: Seq<char>) -> Seq<char> {
    if user {
        join_path(home, "Library/LaunchAgents"@)
    } else {
        "/Library/LaunchDaemons"@
    }
}

pub open spec fn scope_word(user: bool) -> Seq<char> {
    if user {
        "user"@
    } else {
        "system"@
    }
}

/// Steps of installing the systemd unit and starting it.
pub open spec fn systemd_install_steps(user: bool, binary: Seq<char>, home: Seq<char>) -> Seq<StepView> {
    let path = unit_path_of(user, home);
    let base = seq![
        StepView::CreateDirAll(unit_dir(user, home)),
        StepView::WriteFile { path, contents: unit_text(binary, user), needs_root: !user },
        systemctl_step(user, seq!["daemon-reload"@], Check::Exit),
        systemctl_step(user, seq!["enable"@, "--now"@, "harbord"@], Check::Exit),
        StepView::Print("installed and started harbord ("@ + scope_word(user) + " unit at "@ + path + ")"@),
    ];
    if user {
        base + seq![
            StepView::Print("note: a user-level service only runs while you're logged in, unless you also run:"@),
            StepView::Print("  loginctl enable-linger $USER"@),
        ]
    } else {
        base
    }
}

/// Steps of disabling and removing the systemd unit.
pub open spec fn systemd_uninstall_steps(user: bool, home: Seq<char>) -> Seq<StepView> {
    seq![
        systemctl_step(user, seq!["disable"@, "--now"@, "harbord"@], Check::Ignore),
        StepView::RemoveFileIfExists(unit_path_of(user, home)),
        systemctl_step(user, seq!["daemon-reload"@], Check::Exit),
        StepView::Print("uninstalled harbord"@),
    ]
}

/// `<domain>/com.harbor.harbord`.
pub open spec fn launchd_target(domain: Seq<char>) -> Seq<char> {
    domain + "/com.harbor.harbord"@
}

/// Steps of installing the launchd job and loading it.
pub open spec fn launchd_install_steps(user: bool, binary: Seq<char>, home: Seq<char>, domain: Seq<char>) -> Seq<StepView> {
    let path = plist_path_of(user, home);
    seq![
        StepView::CreateDirAll(plist_dir(user, home)),
        StepView::WriteFile {
            path,
            contents: plist_text(binary, plist_log_dir(user, home)),
            needs_root: !user,
        },
        launchctl_step(seq!["bootout"@, launchd_target(domain)], Check::Ignore),
        launchctl_step(seq!["bootstrap"@, domain, path], Check::Exit),
        launchctl_step(seq!["enable"@, launchd_target(domain)], Check::Exit),
        StepView::Print("installed and started harbord ("@ + scope_word(user) + " job at "@ + path + ")"@),
    ]
}

/// Steps of unloading and removing the launchd job.
pub open spec fn launchd_uninstall_steps(user: bool, home: Seq<char>, domain: Seq<char>) -> Seq<StepView> {
    seq![
        launchctl_step(seq!["bootout"@, launchd_target(domain)], Check::Ignore),
        StepView::RemoveFileIfExists(plist_path_of(user, home)),
        StepView::Print("uninstalled harbord"@),
    ]
}

/// Whether a platform's per-user service lives under the home directory
/// (Windows services are always system-wide).
pub open spec fn uses_home(platform: Platform) -> bool {
    platform == Platform::Linux || platform == Platform::MacOs
}

/// Steps of registering the daemon as a Windows service, which runs it in
/// service mode.
pub open spec fn windows_install_steps(binary: Seq<char>) -> Seq<StepView> {
    seq![
        StepView::ScmCreate {
            name: "harbord"@,
            display_name: "Harbor daemon"@,
            description: "Harbor daemon — process supervision and reverse proxy"@,
            binary,
            args: seq!["--windows-service"@],
        },
        StepView::ScmStart("harbord"@),
        StepView::Print("installed and started harbord"@),
    ]
}

/// Steps of removing the Windows service.
pub open spec fn windows_uninstall_steps() -> Seq<StepView> {
    seq![StepView::ScmDelete("harbord"@)]
}

/// The service actions.
#[derive(Debug, Clone, Copy, PartialEq, Eq, Structural)]
pub enum ServiceAction {
    Start,
    Stop,
    Status,
}

/// Steps of starting, stopping or querying the installed service.
pub open spec fn control_steps(platform: Platform, action: ServiceAction, user: bool, domain: Seq<char>) -> Seq<StepView> {
    match (platform, action) {
        (Platform::Linux, ServiceAction::Start) => seq![
            systemctl_step(user, seq!["start"@, "harbord"@], Check::Exit),
            StepView::Print("started harbord"@),
        ],
        (Platform::Linux, ServiceAction::Stop) => seq![
            systemctl_step(user, seq!["stop"@, "harbord"@], Check::Exit),
            StepView::Print("stopped harbord"@),
        ],
        (Platform::Windows, ServiceAction::Start) => seq![
            StepView::ScmStart("harbord"@),
            StepView::Print("started harbord"@),
        ],
        (Platform::Windows, ServiceAction::Stop) => seq![StepView::ScmStop("harbord"@), StepView::Print("stopped harbord"@)],
        (Platform::Windows, ServiceAction::Status) => seq![StepView::ScmStatus("harbord"@)],
        (Platform::Linux, ServiceAction::Status) => seq![
            systemctl_step(user, seq!["status"@, "harbord"@, "--no-pager"@], Check::Spawn),
        ],
        (_, ServiceAction::Start) => seq![
            launchctl_step(seq!["kickstart"@, "-k"@, launchd_target(domain)], Check::Exit),
            StepView::Print("started harbord"@),
        ],
        (_, ServiceAction::Stop) => seq![
            launchctl_step(seq!["stop"@, launchd_target(domain)], Check::Exit),
            StepView::Print("stopped harbord"@),
        ],
        (_, ServiceAction::Status) => seq![launchctl_step(seq!["print"@, launchd_target(domain)], Check::Ignore)],
    }
}

fn strs1(a: &str) -> (r: Vec<String>)
    ensures
        views(r@) == seq![a@],
{
    let mut v: Vec<String> = Vec::new();
    v.push(a.to_string());
    assert(views(v@) =~= seq![a@]);
    v
}

fn strs2(a: &str, b: &str) -> (r: Vec<String>)
    ensures
        views(r@) == seq![a@, b@],
{
    let mut v: Vec<String> = Vec::new();
    v.push(a.to_string());
    v.push(b.to_string());
    assert(views(v@) =~= seq![a@, b@]);
    v
}

fn strs3(a: &str, b: &str, c: &str) -> (r: Vec<String>)
    ensures
        views(r@) == seq![a@, b@, c@],
{
    let mut v: Vec<String> = Vec::new();
    v.push(a.to_string());
    v.push(b.to_string());
    v.push(c.to_string());
    assert(views(v@) =~= seq![a@, b@, c@]);
    v
}

fn systemctl_run(user: bool, args: Vec<String>, check: Check) -> (r: ServiceStep)
    ensures
        r@ == systemctl_step(user, views(args@), check),
{
    let mut argv: Vec<String> = Vec::new();
    if user {
        argv.push("--user".to_string());
    }
    let mut i: usize = 0;
    while i < args.len()
        invariant
            i <= args@.len(),
            views(argv@) == (if user {
                seq!["--user"@]
            } else {
                seq![]
            }) + views(args@).take(i as int),
        decreases args@.len() - i,
    {
        let ghost prev = argv@;
        argv.push(args[i].clone());
        assert(views(argv@) =~= views(prev).push(args@[i as int]@));
        assert(views(args@).take(i + 1) =~= views(args@).take(i as int).push(args@[i as int]@));
        i = i + 1;
    }
    assert(views(args@).take(args@.len() as int) =~= views(args@));
    assert(views(argv@) =~= systemctl_argv(user, views(args@)));
    ServiceStep::Run { program: "systemctl".to_string(), args: argv, check }
}

fn launchctl_run(args: Vec<String>, check: Check) -> (r: ServiceStep)
    ensures
        r@ == launchctl_step(views(args@), check),
{
    ServiceStep::Run { program: "launchctl".to_string(), args, check }
}

fn print_step(m: String) -> (r: ServiceStep)
    ensures
        r@ == StepView::Print(m@),
{
    ServiceStep::Print(m)
}

fn scope_text(user: bool) -> (r: &'static str)
    ensures
        r@ == scope_word(user),
{
    if user {
        "user"
    } else {
        "system"
    }
}

/// The steps of installing the service on `platform`: `home` is the
/// user's home directory, `domain` the launchd domain (for macOS).
pub fn install(platform: Platform, user: bool, binary: &str, home: Option<&str>, domain: &str) -> (r: Result<Vec<ServiceStep>, ServiceError>)
    ensures
        match r {
            Ok(steps) => (!uses_home(platform) || !user || home is Some) && step_views(steps@) == match platform {
                Platform::Linux => systemd_install_steps(user, binary@, if user { home->0@ } else { seq![] }),
                Platform::MacOs => launchd_install_steps(user, binary@, if user { home->0@ } else { seq![] }, domain@),
                Platform::Windows => windows_install_steps(binary@),
                Platform::Other => seq![],
            } && platform != Platform::Other,
            Err(e) => (platform == Platform::Other && e == ServiceError::Unsupported) || (uses_home(platform)
                && user && home is None && e == ServiceError::NoHomeDirectory),
        },
{
    let ghost h: Seq<char> = if user { home->0@ } else { seq![] };
    match platform {
        Platform::Other => Err(ServiceError::Unsupported),
        Platform::Windows => {
            let mut args: Vec<String> = Vec::new();
            args.push("--windows-service".to_string());
            let mut steps: Vec<ServiceStep> = Vec::new();
            steps.push(
                ServiceStep::ScmCreate {
                    name: "harbord".to_string(),
                    display_name: "Harbor daemon".to_string(),
                    description: "Harbor daemon — process supervision and reverse proxy".to_string(),
                    binary: binary.to_string(),
                    args,
                },
            );
            steps.push(ServiceStep::ScmStart("harbord".to_string()));
            steps.push(print_step("installed and started harbord".to_string()));
            proof {
                assert(views(args@) =~= seq!["--windows-service"@]);
            }
            assert(step_views(steps@) =~= windows_install_steps(binary@));
            Ok(steps)
        },
        Platform::Linux => {
            let path = match unit_path(user, home) {
                Ok(p) => p,
                Err(e) => return Err(e),
            };
            let dir = if user {
                join(home.unwrap(), ".config/systemd/user")
            } else {
                "/etc/systemd/system".to_string()
            };
            let mut steps: Vec<ServiceStep> = Vec::new();
            steps.push(ServiceStep::CreateDirAll(dir));
            steps.push(
                ServiceStep::WriteFile {
                    path: path.clone(),
                    contents: unit_contents(binary, user),
                    needs_root: !user,
                },
            );
            steps.push(systemctl_run(user, strs1("daemon-reload"), Check::Exit));
            steps.push(systemctl_run(user, strs3("enable", "--now", "harbord"), Check::Exit));
            let mut m = concat2("installed and started harbord (", scope_text(user));
            push_str(&mut m, " unit at ");
            push_str(&mut m, path.as_str());
            push_str(&mut m, ")");
            steps.push(print_step(m));
            if user {
                steps.push(
                    print_step(
                        "note: a user-level service only runs while you're logged in, unless you also run:".to_string(),
                    ),
                );
                steps.push(print_step("  loginctl enable-linger $USER".to_string()));
            }
            assert(step_views(steps@) =~= systemd_install_steps(user, binary@, h));
            Ok(steps)
        },
        Platform::MacOs => {
            let path = match plist_path(user, home) {
                Ok(p) => p,
                Err(e) => return Err(e),
            };
            let contents = match plist_contents(binary, user, home) {
                Ok(c) => c,
                Err(e) => return Err(e),
            };
            let dir = if user {
                join(home.unwrap(), "Library/LaunchAgents")
            } else {
                "/Library/LaunchDaemons".to_string()
            };
            let target = concat2(domain, "/com.harbor.harbord");
            let mut steps: Vec<ServiceStep> = Vec::new();
            steps.push(ServiceStep::CreateDirAll(dir));
            steps.push(ServiceStep::WriteFile { path: path.clone(), contents, needs_root: !user });
            steps.push(launchctl_run(strs2("bootout", target.as_str()), Check::Ignore));
            steps.push(launchctl_run(strs3("bootstrap", domain, path.as_str()), Check::Exit));
            steps.push(launchctl_run(strs2("enable", target.as_str()), Check::Exit));
            let mut m = concat2("installed and started harbord (", scope_text(user));
            push_str(&mut m, " job at ");
            push_str(&mut m, path.as_str());
            push_str(&mut m, ")");
            steps.push(print_step(m));
            assert(step_views(steps@) =~= launchd_install_steps(user, binary@, h, domain@));
            Ok(steps)
        },
    }
}

/// The steps of removing the service from `platform`.
pub fn uninstall(platform: Platform, user: bool, home: Option<&str>, domain: &str) -> (r: Result<Vec<ServiceStep>, ServiceError>)
    ensures
        match r {
            Ok(steps) => (!uses_home(platform) || !user || home is Some) && step_views(steps@) == match platform {
                Platform::Linux => systemd_uninstall_steps(user, if user { home->0@ } else { seq![] }),
                Platform::MacOs => launchd_uninstall_steps(user, if user { home->0@ } else { seq![] }, domain@),
                Platform::Windows => windows_uninstall_steps(),
                Platform::Other => seq![],
            } && platform != Platform::Other,
            Err(e) => (platform == Platform::Other && e == ServiceError::Unsupported) || (uses_home(platform)
                && user && home is None && e == ServiceError::NoHomeDirectory),
        },
{
    let ghost h: Seq<char> = if user { home->0@ } else { seq![] };
    match platform {
        Platform::Other => Err(ServiceError::Unsupported),
        Platform::Windows => {
            let mut steps: Vec<ServiceStep> = Vec::new();
            steps.push(ServiceStep::ScmDelete("harbord".to_string()));
            assert(step_views(steps@) =~= windows_uninstall_steps());
            Ok(steps)
        },
        Platform::Linux => {
            let path = match unit_path(user, home) {
                Ok(p) => p,
                Err(e) => return Err(e),
            };
            let mut steps: Vec<ServiceStep> = Vec::new();
            steps.push(systemctl_run(user, strs3("disable", "--now", "harbord"), Check::Ignore));
            steps.push(ServiceStep::RemoveFileIfExists(path));
            steps.push(systemctl_run(user, strs1("daemon-reload"), Check::Exit));
            steps.push(print_step("uninstalled harbord".to_string()));
            assert(step_views(steps@) =~= systemd_uninstall_steps(user, h));
            Ok(steps)
        },
        Platform::MacOs => {
            let path = match plist_path(user, home) {
                Ok(p) => p,
                Err(e) => return Err(e),
            };
            let target = concat2(domain, "/com.harbor.harbord");
            let mut steps: Vec<ServiceStep> = Vec::new();
            steps.push(launchctl_run(strs2("bootout", target.as_str()), Check::Ignore));
            steps.push(ServiceStep::RemoveFileIfExists(path));
            steps.push(print_step("uninstalled harbord".to_string()));
            assert(step_views(steps@) =~= launchd_uninstall_steps(user, h, domain@));
            Ok(steps)
        },
    }
}

/// The steps of starting, stopping or querying the service.
pub fn control(platform: Platform, action: ServiceAction, user: bool, domain: &str) -> (r: Result<Vec<ServiceStep>, ServiceError>)
    ensures
        match r {
            Ok(steps) => platform != Platform::Other && step_views(steps@) == control_steps(platform, action, user, domain@),
            Err(e) => platform == Platform::Other && e == ServiceError::Unsupported,
        },
{
    if platform == Platform::Other {
        return Err(ServiceError::Unsupported);
    }
    let mut steps: Vec<ServiceStep> = Vec::new();
    if platform == Platform::Windows {
        match action {
            ServiceAction::Start => {
                steps.push(ServiceStep::ScmStart("harbord".to_string()));
                steps.push(print_step("started harbord".to_string()));
            },
            ServiceAction::Stop => {
                steps.push(ServiceStep::ScmStop("harbord".to_string()));
                steps.push(print_step("stopped harbord".to_string()));
            },
            ServiceAction::Status => {
                steps.push(ServiceStep::ScmStatus("harbord".to_string()));
            },
        }
    } else if platform == Platform::Linux {
        match action {
            ServiceAction::Start => {
                steps.push(systemctl_run(user, strs2("start", "harbord"), Check::Exit));
                steps.push(print_step("started harbord".to_string()));
            },
            ServiceAction::Stop => {
                steps.push(systemctl_run(user, strs2("stop", "harbord"), Check::Exit));
                steps.push(print_step("stopped harbord".to_string()));
            },
            ServiceAction::Status => {
                steps.push(systemctl_run(user, strs3("status", "harbord", "--no-pager"), Check::Spawn));
            },
        }
    } else {
        let target = concat2(domain, "/com.harbor.harbord");
        match action {
            ServiceAction::Start => {
                steps.push(launchctl_run(strs3("kickstart", "-k", target.as_str()), Check::Exit));
                steps.push(print_step("started harbord".to_string()));
            },
            ServiceAction::Stop => {
                steps.push(launchctl_run(strs2("stop", target.as_str()), Check::Exit));
                steps.push(print_step("stopped harbord".to_string()));
            },
            ServiceAction::Status => {
                steps.push(launchctl_run(strs2("print", target.as_str()), Check::Ignore));
            },
        }
    }
    assert(step_views(steps@) =~= control_steps(platform, action, user, domain@));
    Ok(steps)
}

/// The daemon binary expected next to the CLI in `dir`.
pub fn binary_in_dir(dir: &str, windows: bool) -> (r: String)
    ensures
        r@ == join_path(dir@, if windows { "harbord.exe"@ } else { "harbord"@ }),
{
    if windows {
        join(dir, "harbord.exe")
    } else {
        join(dir, "harbord")
    }
}

/// The command each service action runs: on Linux `systemctl` (with
/// `--user` first for a per-user service) `start harbord`, `stop harbord`
/// or `status harbord --no-pager`; on macOS `launchctl kickstart -k`,
/// `stop` or `print` on the job `<domain>/com.harbor.harbord`; on Windows
/// the service manager's start, stop or status of `harbord`. Starting and
/// stopping fail when the command does, then report what they did; a
/// status query reports the manager's own output.
pub proof fn law_service_actions(user: bool, domain: Seq<char>)
    ensures
        ({
            let flag: Seq<Seq<char>> = if user {
                seq!["--user"@]
            } else {
                seq![]
            };
            let job = domain + "/com.harbor.harbord"@;
            &&& control_steps(Platform::Linux, ServiceAction::Start, user, domain) == seq![
                StepView::Run { program: "systemctl"@, args: flag + seq!["start"@, "harbord"@], check: Check::Exit },
                StepView::Print("started harbord"@),
            ]
            &&& control_steps(Platform::Linux, ServiceAction::Stop, user, domain) == seq![
                StepView::Run { program: "systemctl"@, args: flag + seq!["stop"@, "harbord"@], check: Check::Exit },
                StepView::Print("stopped harbord"@),
            ]
            &&& control_steps(Platform::Linux, ServiceAction::Status, user, domain) == seq![
                StepView::Run {
                    program: "systemctl"@,
                    args: flag + seq!["status"@, "harbord"@, "--no-pager"@],
                    check: Check::Spawn,
                },
            ]
            &&& control_steps(Platform::MacOs, ServiceAction::Start, user, domain) == seq![
                StepView::Run { program: "launchctl"@, args: seq!["kickstart"@, "-k"@, job], check: Check::Exit },
                StepView::Print("started harbord"@),
            ]
            &&& control_steps(Platform::MacOs, ServiceAction::Stop, user, domain) == seq![
                StepView::Run { program: "launchctl"@, args: seq!["stop"@, job], check: Check::Exit },
                StepView::Print("stopped harbord"@),
            ]
            &&& control_steps(Platform::MacOs, ServiceAction::Status, user, domain) == seq![
                StepView::Run { program: "launchctl"@, args: seq!["print"@, job], check: Check::Ignore },
            ]
            &&& control_steps(Platform::Windows, ServiceAction::Start, user, domain) == seq![
                StepView::ScmStart("harbord"@),
                StepView::Print("started harbord"@),
            ]
            &&& control_steps(Platform::Windows, ServiceAction::Stop, user, domain) == seq![
                StepView::ScmStop("harbord"@),
                StepView::Print("stopped harbord"@),
            ]
            &&& control_steps(Platform::Windows, ServiceAction::Status, user, domain) == seq![
                StepView::ScmStatus("harbord"@),
            ]
        }),
{
}

/// Installing and removing: on Linux the unit is written, systemd reloads,
/// and `enable --now harbord` starts it; removal disables it (ignoring
/// failure), deletes the unit and reloads. On macOS a stale job is booted
/// out (ignoring failure), the job file is bootstrapped into the domain and
/// the job enabled; removal boots it out and deletes the file. On Windows
/// the service is registered to run `harbord --windows-service` and
/// started; removal deletes it.
pub proof fn law_service_installation(user: bool, binary: Seq<char>, home: Seq<char>, domain: Seq<char>)
    ensures
        ({
            let flag: Seq<Seq<char>> = if user {
                seq!["--user"@]
            } else {
                seq![]
            };
            let job = domain + "/com.harbor.harbord"@;
            let unit = unit_path_of(user, home);
            let plist = plist_path_of(user, home);
            let si = systemd_install_steps(user, binary, home);
            let li = launchd_install_steps(user, binary, home, domain);
            &&& si[1] == StepView::WriteFile { path: unit, contents: unit_text(binary, user), needs_root: !user }
            &&& si[2] == StepView::Run { program: "systemctl"@, args: flag + seq!["daemon-reload"@], check: Check::Exit }
            &&& si[3] == StepView::Run {
                program: "systemctl"@,
                args: flag + seq!["enable"@, "--now"@, "harbord"@],
                check: Check::Exit,
            }
            &&& systemd_uninstall_steps(user, home) == seq![
                StepView::Run {
                    program: "systemctl"@,
                    args: flag + seq!["disable"@, "--now"@, "harbord"@],
                    check: Check::Ignore,
                },
                StepView::RemoveFileIfExists(unit),
                StepView::Run { program: "systemctl"@, args: flag + seq!["daemon-reload"@], check: Check::Exit },
                StepView::Print("uninstalled harbord"@),
            ]
            &&& li[1] == StepView::WriteFile {
                path: plist,
                contents: plist_text(binary, plist_log_dir(user, home)),
                needs_root: !user,
            }
            &&& li[2] == StepView::Run { program: "launchctl"@, args: seq!["bootout"@, job], check: Check::Ignore }
            &&& li[3] == StepView::Run {
                program: "launchctl"@,
                args: seq!["bootstrap"@, domain, plist],
                check: Check::Exit,
            }
            &&& li[4] == StepView::Run { program: "launchctl"@, args: seq!["enable"@, job], check: Check::Exit }
            &&& launchd_uninstall_steps(user, home, domain) == seq![
                StepView::Run { program: "launchctl"@, args: seq!["bootout"@, job], check: Check::Ignore },
                StepView::RemoveFileIfExists(plist),
                StepView::Print("uninstalled harbord"@),
            ]
            &&& windows_install_steps(binary)[0] == StepView::ScmCreate {
                name: "harbord"@,
                display_name: "Harbor daemon"@,
                description: "Harbor daemon — process supervision and reverse proxy"@,
                binary,
                args: seq!["--windows-service"@],
            }
            &&& windows_install_steps(binary)[1] == StepView::ScmStart("harbord"@)
            &&& windows_uninstall_steps() == seq![StepView::ScmDelete("harbord"@)]
        }),
{
    assert(seq!["--user"@] + seq!["daemon-reload"@] =~= seq!["--user"@, "daemon-reload"@]);
    assert(seq![] + seq!["daemon-reload"@] =~= seq!["daemon-reload"@]);
    assert(seq!["--user"@] + seq!["enable"@, "--now"@, "harbord"@] =~= seq!["--user"@, "enable"@, "--now"@, "harbord"@]);
    assert(seq![] + seq!["enable"@, "--now"@, "harbord"@] =~= seq!["enable"@, "--now"@, "harbord"@]);
    assert(seq!["--user"@] + seq!["disable"@, "--now"@, "harbord"@] =~= seq!["--user"@, "disable"@, "--now"@, "harbord"@]);
    assert(seq![] + seq!["disable"@, "--now"@, "harbord"@] =~= seq!["disable"@, "--now"@, "harbord"@]);
}

/// Starts the installed service.
pub fn start(platform: Platform, user: bool, domain: &str) -> (r: Result<Vec<ServiceStep>, ServiceError>)
    ensures
        match r {
            Ok(steps) => platform != Platform::Other && step_views(steps@) == control_steps(
                platform,
                ServiceAction::Start,
                user,
                domain@,
            ),
            Err(e) => platform == Platform::Other && e == ServiceError::Unsupported,
        },
{
    control(platform, ServiceAction::Start, user, domain)
}

/// Stops the installed service.
pub fn stop(platform: Platform, user: bool, domain: &str) -> (r: Result<Vec<ServiceStep>, ServiceError>)
    ensures
        match r {
            Ok(steps) => platform != Platform::Other && step_views(steps@) == control_steps(
                platform,
                ServiceAction::Stop,
                user,
                domain@,
            ),
            Err(e) => platform == Platform::Other && e == ServiceError::Unsupported,
        },
{
    control(platform, ServiceAction::Stop, user, domain)
}

/// Asks the service manager for the service's status.
pub fn status(platform: Platform, user: bool, domain: &str) -> (r: Result<Vec<ServiceStep>, ServiceError>)
    ensures
        match r {
            Ok(steps) => platform != Platform::Other && step_views(steps@) == control_steps(
                platform,
                ServiceAction::Status,
                user,
                domain@,
            ),
            Err(e) => platform == Platform::Other && e == ServiceError::Unsupported,
        },
{
    control(platform, ServiceAction::Status, user, domain)
}

/// How running a program ended.
#[derive(Debug, Clone, PartialEq, Eq)]
pub enum RunOutcome {
    /// It could not be started; the error text.
    SpawnFailed(String),
    /// It ran and exited; whether successfully, and the status text.
    Exited { success: bool, status: String },
}

/// The arguments a command is reported with: without the leading `--user`.
pub open spec fn reported_args(args: Seq<Seq<char>>) -> Seq<Seq<char>> {
    if args.len() > 0 && args[0] == "--user"@ {
        args.drop_first()
    } else {
        args
    }
}

/// The message for a program that could not be started.
pub open spec fn spawn_failure_text(program: Seq<char>, args: Seq<Seq<char>>, err: Seq<char>) -> Seq<char> {
    if program == "systemctl"@ {
        "running `systemctl"@ + (if args.len() > 0 && args[0] == "--user"@ {
            " --user"@
        } else {
            seq![]
        }) + "`: "@ + err
    } else {
        "running "@ + program + ": "@ + err
    }
}

/// What a run step's outcome means for the command: `Ignore` accepts any
/// outcome, `Spawn` fails only when the program could not be started, and
/// `Exit` also when it exited unsuccessfully.
pub open spec fn run_result(program: Seq<char>, args: Seq<Seq<char>>, check: Check, outcome: RunOutcome) -> Result<(), Seq<char>> {
    match outcome {
        RunOutcome::SpawnFailed(e) => if check == Check::Ignore {
            Ok(())
        } else {
            Err(spawn_failure_text(program, args, e@))
        },
        RunOutcome::Exited { success, status } => if check == Check::Exit && !success {
            Err(exit_failure_text(program, reported_args(args), status@))
        } else {
            Ok(())
        },
    }
}

/// Judges the outcome of a run step.
pub fn step_result(program: &str, args: &Vec<String>, check: Check, outcome: &RunOutcome) -> (r: Result<(), String>)
    ensures
        match (r, run_result(program@, views(args@), check, *outcome)) {
            (Ok(()), Ok(())) => true,
            (Err(m), Err(t)) => m@ == t,
            _ => false,
        },
{
    let user_first = args.len() > 0 && str_eq(args[0].as_str(), "--user");
    match outcome {
        RunOutcome::SpawnFailed(e) => {
            if check == Check::Ignore {
                return Ok(());
            }
            if str_eq(program, "systemctl") {
                let mut m = if user_first {
                    "running `systemctl --user".to_string()
                } else {
                    "running `systemctl".to_string()
                };
                push_str(&mut m, "`: ");
                push_str(&mut m, e.as_str());
                proof {
                    reveal_strlit("running `systemctl");
                    reveal_strlit("running `systemctl --user");
                    reveal_strlit(" --user");
                }
                Err(m)
            } else {
                let mut m = concat2("running ", program);
                push_str(&mut m, ": ");
                push_str(&mut m, e.as_str());
                Err(m)
            }
        },
        RunOutcome::Exited { success, status } => {
            if check == Check::Exit && !*success {
                let mut shown: Vec<String> = Vec::new();
                let mut i: usize = if user_first {
                    1
                } else {
                    0
                };
                let start = i;
                while i < args.len()
                    invariant
                        start <= i <= args@.len(),
                        start == (if user_first {
                            1int
                        } else {
                            0int
                        }),
                        views(shown@) == views(args@).subrange(start as int, i as int),
                    decreases args@.len() - i,
                {
                    let ghost prev = shown@;
                    let a = args[i].clone();
                    shown.push(a);
                    assert(views(shown@) =~= views(prev).push(a@));
                    assert(views(args@).subrange(start as int, i + 1) =~= views(args@).subrange(
                        start as int,
                        i as int,
                    ).push(args@[i as int]@));
                    i = i + 1;
                }
                proof {
                    if user_first {
                        assert(views(args@).subrange(1, args@.len() as int) =~= views(args@).drop_first());
                    } else {
                        assert(views(args@).subrange(0, args@.len() as int) =~= views(args@));
                    }
                }
                Err(exit_failure_message(program, &shown, status.as_str()))
            } else {
                Ok(())
            }
        },
    }
}

/// How a step's outcome is judged. An ignored step never fails. A step
/// checked for spawning fails exactly when its program could not be
/// started, with `running <program>: <error>` (for `systemctl`, the
/// command and its `--user` flag in backquotes). A step checked for its
/// exit also fails when the program exited unsuccessfully, naming the
/// command line without `--user` and the exit status.
pub proof fn law_run_outcomes(program: Seq<char>, args: Seq<Seq<char>>, err: String, success: bool, status: String)
    ensures
        run_result(program, args, Check::Ignore, RunOutcome::SpawnFailed(err)) is Ok,
        run_result(program, args, Check::Ignore, RunOutcome::Exited { success, status }) is Ok,
        run_result(program, args, Check::Spawn, RunOutcome::Exited { success, status }) is Ok,
        run_result(program, args, Check::Exit, RunOutcome::Exited { success, status }) is Ok <==> success,
        program != "systemctl"@ ==> run_result(program, args, Check::Spawn, RunOutcome::SpawnFailed(err))
            == Err::<(), Seq<char>>("running "@ + program + ": "@ + err@),
        program != "systemctl"@ ==> run_result(program, args, Check::Exit, RunOutcome::SpawnFailed(err))
            == Err::<(), Seq<char>>("running "@ + program + ": "@ + err@),
        run_result("systemctl"@, seq!["--user"@] + args, Check::Exit, RunOutcome::SpawnFailed(err))
            == Err::<(), Seq<char>>("running `systemctl --user`: "@ + err@),
        args.len() == 0 || args[0] != "--user"@ ==> run_result(
            "systemctl"@,
            args,
            Check::Spawn,
            RunOutcome::SpawnFailed(err),
        ) == Err::<(), Seq<char>>("running `systemctl`: "@ + err@),
        !success ==> run_result(program, seq!["--user"@] + args, Check::Exit, RunOutcome::Exited { success, status })
            == Err::<(), Seq<char>>(program + " "@ + joined(args, " "@) + " exited with "@ + status@),
        !success && (args.len() == 0 || args[0] != "--user"@) ==> run_result(
            program,
            args,
            Check::Exit,
            RunOutcome::Exited { success, status },
        ) == Err::<(), Seq<char>>(program + " "@ + joined(args, " "@) + " exited with "@ + status@),
{
    reveal_strlit("systemctl");
    reveal_strlit("--user");
    reveal_strlit(" --user");
    reveal_strlit("running `systemctl");
    reveal_strlit("running `systemctl --user`: ");
    reveal_strlit("running `systemctl`: ");
    reveal_strlit("`: ");
    let user_args = seq!["--user"@] + args;
    assert(user_args[0] == "--user"@);
    assert(user_args.drop_first() =~= args);
    assert("running `systemctl"@ + " --user"@ + "`: "@ =~= "running `systemctl --user`: "@);
    assert("running `systemctl"@ + seq![] + "`: "@ =~= "running `systemctl`: "@);
    assert(("running `systemctl"@ + " --user"@) + "`: "@ + err@ =~= "running `systemctl --user`: "@ + err@);
    assert(("running `systemctl"@ + Seq::<char>::empty()) + "`: "@ + err@ =~= "running `systemctl`: "@ + err@);
}

/// Where the daemon binary to register is: the path given, which must be
/// a file, else `harbord` in `exe_dir` (the CLI's own directory), which
/// must be a file too. The `*_is_file` flags are what the file system said.
pub fn locate_binary(
    override_path: Option<&str>,
    override_is_file: bool,
    exe_dir: &str,
    candidate_is_file: bool,
    windows: bool,
) -> (r: Result<String, String>)
    ensures
        match override_path {
            Some(p) => if override_is_file {
                r matches Ok(b) && b@ == p@
            } else {
                r matches Err(m) && m@ == "--binary "@ + p@ + " does not exist"@
            },
            None => {
                let name = if windows {
                    "harbord.exe"@
                } else {
                    "harbord"@
                };
                let candidate = join_path(exe_dir@, name);
                if candidate_is_file {
                    r matches Ok(b) && b@ == candidate
                } else {
                    r matches Err(m) && m@ == "could not find '"@ + name + "' next to this CLI binary at "@
                        + candidate + "; pass --binary <path>"@
                }
            },
        },
{
    match override_path {
        Some(p) => {
            if override_is_file {
                Ok(p.to_string())
            } else {
                let mut m = concat2("--binary ", p);
                push_str(&mut m, " does not exist");
                Err(m)
            }
        },
        None => {
            let candidate = binary_in_dir(exe_dir, windows);
            if candidate_is_file {
                Ok(candidate)
            } else {
                let name = if windows {
                    "harbord.exe"
                } else {
                    "harbord"
                };
                let mut m = concat2("could not find '", name);
                push_str(&mut m, "' next to this CLI binary at ");
                push_str(&mut m, candidate.as_str());
                push_str(&mut m, "; pass --binary <path>");
                Err(m)
            }
        },
    }
}

/// What removing the Windows service prints: whether the service manager
/// let go of it within the wait, or it is only marked for deletion until
/// it has fully stopped.
pub fn windows_removal_message(gone: bool) -> (r: &'static str)
    ensures
        r@ == if gone {
            "uninstalled harbord"@
        } else {
            "harbord is marked for deletion and will be removed once fully stopped"@
        },
{
    if gone {
        "uninstalled harbord"
    } else {
        "harbord is marked for deletion and will be removed once fully stopped"
    }
}

} // verus!
