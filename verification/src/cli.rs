//! The command-line client's own logic: which request each command sends,
//! how an add request is built from the arguments, how a refused request is
//! reported, and how the status table is laid out.
use vstd::prelude::*;

use crate::api::AddAppRequest;
use crate::app::{
    AppStatus, ConfigError, RestartPolicy, RuntimeKind, clone_opt_string, opt_view, parse_runtime,
    runtime_name, state_name,
};
use crate::text::{
    char_is_ws, chars_of, concat2, decimal, decimal_string, digits_value, is_ws, join_strings, joined, lower, push_decimal,
    push_str, string_of, views, law_decimal_denotes,
};

verus! {

/// The whitespace-separated words of `s`, as `str::split_whitespace`
/// yields them.
pub open spec fn words(s: Seq<char>) -> Seq<Seq<char>>
    decreases s.len(),
{
    if s.len() == 0 {
        seq![]
    } else {
        let rest = words(s.drop_last());
        if is_ws(s.last()) {
            rest
        } else if s.len() >= 2 && !is_ws(s[s.len() - 2]) {
            rest.update(rest.len() - 1, rest.last().push(s.last()))
        } else {
            rest.push(seq![s.last()])
        }
    }
}

/// A word of `s` ends at its last character or at whitespace.
proof fn lemma_words_nonempty(s: Seq<char>)
    requires
        s.len() > 0,
        !is_ws(s.last()),
    ensures
        words(s).len() > 0,
    decreases s.len(),
{
    if s.len() >= 2 && !is_ws(s[s.len() - 2]) {
        lemma_words_nonempty(s.drop_last());
    }
}

/// Splits a command line into its words.
pub fn split_command(c: &str) -> (r: Vec<String>)
    ensures
        views(r@) == words(c@),
{
    let v = chars_of(c);
    let mut out: Vec<String> = Vec::new();
    let mut cur: Vec<char> = Vec::new();
    let mut i: usize = 0;
    while i < v.len()
        invariant
            i <= v@.len(),
            v@ == c@,
            cur@.len() > 0 ==> i > 0 && !is_ws(v@[i - 1]),
            i > 0 && !is_ws(v@[i - 1]) ==> cur@.len() > 0,
            words(v@.take(i as int)) == if cur@.len() > 0 {
                views(out@).push(cur@)
            } else {
                views(out@)
            },
        decreases v@.len() - i,
    {
        let ch = v[i];
        let ghost s = v@.take(i + 1);
        assert(s.drop_last() =~= v@.take(i as int));
        if char_is_ws(ch) {
            if cur.len() > 0 {
                let w = string_of(cur.as_slice());
                out.push(w);
                cur = Vec::new();
                assert(views(out@) =~= views(out@.drop_last()).push(w@));
            }
        } else {
            let ghost before = cur@;
            if cur.len() > 0 {
                proof {
                    lemma_words_nonempty(v@.take(i as int));
                }
            }
            cur.push(ch);
            proof {
                if before.len() > 0 {
                    assert(s[s.len() - 2] == v@[i - 1]);
                    let rest = words(s.drop_last());
                    assert(rest == views(out@).push(before));
                    assert(rest.update(rest.len() - 1, rest.last().push(ch)) =~= views(out@).push(cur@));
                } else {
                    assert(cur@ =~= seq![ch]);
                }
            }
        }
        i = i + 1;
    }
    assert(v@.take(v@.len() as int) =~= v@);
    if cur.len() > 0 {
        let w = string_of(cur.as_slice());
        out.push(w);
        assert(views(out@) =~= views(out@.drop_last()).push(w@));
    }
    out
}

/// HTTP methods the client sends.
#[derive(Debug, Clone, Copy, PartialEq, Eq, Structural)]
pub enum Method {
    Get,
    Post,
    Delete,
}

/// A call of the daemon's management API.
#[derive(Debug, Clone, PartialEq, Eq)]
pub enum ApiCall {
    ListApps,
    GetApp(String),
    AddApp,
    StartApp(String),
    StopApp(String),
    RestartApp(String),
    RemoveApp(String),
    Reload,
    /// An app's logs, with the number of lines asked for.
    Logs(String, usize),
}

/// The method a call is sent with.
pub open spec fn call_method(c: ApiCall) -> Method {
    match c {
        ApiCall::ListApps | ApiCall::GetApp(_) | ApiCall::Logs(_, _) => Method::Get,
        ApiCall::RemoveApp(_) => Method::Delete,
        _ => Method::Post,
    }
}

/// The path (and query) a call is sent to.
pub open spec fn call_path(c: ApiCall) -> Seq<char> {
    match c {
        ApiCall::ListApps | ApiCall::AddApp => "/apps"@,
        ApiCall::GetApp(n) | ApiCall::RemoveApp(n) => "/apps/"@ + n@,
        ApiCall::StartApp(n) => "/apps/"@ + n@ + "/start"@,
        ApiCall::StopApp(n) => "/apps/"@ + n@ + "/stop"@,
        ApiCall::RestartApp(n) => "/apps/"@ + n@ + "/restart"@,
        ApiCall::Reload => "/reload"@,
        ApiCall::Logs(n, lines) => "/apps/"@ + n@ + "/logs?lines="@ + decimal(lines as nat),
    }
}

/// The request line of a call: its method and its path.
pub fn request(c: &ApiCall) -> (r: (Method, String))
    ensures
        r.0 == call_method(*c),
        r.1@ == call_path(*c),
{
    match c {
        ApiCall::ListApps => (Method::Get, "/apps".to_string()),
        ApiCall::AddApp => (Method::Post, "/apps".to_string()),
        ApiCall::GetApp(n) => (Method::Get, concat2("/apps/", n.as_str())),
        ApiCall::RemoveApp(n) => (Method::Delete, concat2("/apps/", n.as_str())),
        ApiCall::StartApp(n) => {
            let mut p = concat2("/apps/", n.as_str());
            push_str(&mut p, "/start");
            (Method::Post, p)
        },
        ApiCall::StopApp(n) => {
            let mut p = concat2("/apps/", n.as_str());
            push_str(&mut p, "/stop");
            (Method::Post, p)
        },
        ApiCall::RestartApp(n) => {
            let mut p = concat2("/apps/", n.as_str());
            push_str(&mut p, "/restart");
            (Method::Post, p)
        },
        ApiCall::Reload => (Method::Post, "/reload".to_string()),
        ApiCall::Logs(n, lines) => {
            let mut p = concat2("/apps/", n.as_str());
            push_str(&mut p, "/logs?lines=");
            push_decimal(&mut p, *lines as u128);
            (Method::Get, p)
        },
    }
}

/// The request line of each management call: the app list and a new app
/// at `/apps`, one app at `/apps/<name>` (read with GET, removed with
/// DELETE), its start, stop and restart as POSTs to `/apps/<name>/<action>`,
/// a reload as a POST to `/reload`, and its logs as a GET whose `lines`
/// query is the decimal number of lines asked for.
pub proof fn law_request_lines(n: String, lines: usize)
    ensures
        call_method(ApiCall::ListApps) == Method::Get && call_path(ApiCall::ListApps) == "/apps"@,
        call_method(ApiCall::AddApp) == Method::Post && call_path(ApiCall::AddApp) == "/apps"@,
        call_method(ApiCall::GetApp(n)) == Method::Get && call_path(ApiCall::GetApp(n)) == "/apps/"@ + n@,
        call_method(ApiCall::RemoveApp(n)) == Method::Delete && call_path(ApiCall::RemoveApp(n)) == "/apps/"@
            + n@,
        call_method(ApiCall::StartApp(n)) == Method::Post && call_path(ApiCall::StartApp(n)) == "/apps/"@ + n@
            + "/start"@,
        call_method(ApiCall::StopApp(n)) == Method::Post && call_path(ApiCall::StopApp(n)) == "/apps/"@ + n@
            + "/stop"@,
        call_method(ApiCall::RestartApp(n)) == Method::Post && call_path(ApiCall::RestartApp(n)) == "/apps/"@
            + n@ + "/restart"@,
        call_method(ApiCall::Reload) == Method::Post && call_path(ApiCall::Reload) == "/reload"@,
        call_method(ApiCall::Logs(n, lines)) == Method::Get,
        call_path(ApiCall::Logs(n, lines)).take(("/apps/"@ + n@ + "/logs?lines="@).len() as int) == "/apps/"@
            + n@ + "/logs?lines="@,
        digits_value(call_path(ApiCall::Logs(n, lines)).skip(("/apps/"@ + n@ + "/logs?lines="@).len() as int))
            == lines,
{
    let pre = "/apps/"@ + n@ + "/logs?lines="@;
    let p = call_path(ApiCall::Logs(n, lines));
    law_decimal_denotes(lines as nat);
    assert(p.take(pre.len() as int) =~= pre);
    assert(p.skip(pre.len() as int) =~= decimal(lines as nat));
}

/// Each row of the status table shows, in order, the app's name, runtime,
/// state, PID, CPU and memory readings, port, restart count and domain,
/// with `-` for what it lacks; each cell is padded with spaces to its
/// column's width (and kept whole when longer), and the cells are
/// separated by single spaces.
pub proof fn law_status_row(a: crate::app::AppStatusView, cpu: Option<Seq<char>>, mem: Option<Seq<char>>, s: Seq<char>, width: nat)
    ensures
        status_cells(a, cpu, mem) == seq![
            a.name,
            runtime_name(a.runtime),
            state_name(a.state),
            match a.pid {
                Some(p) => decimal(p as nat),
                None => "-"@,
            },
            match cpu {
                Some(c) => c,
                None => "-"@,
            },
            match mem {
                Some(m) => m,
                None => "-"@,
            },
            match a.port {
                Some(p) => decimal(p as nat),
                None => "-"@,
            },
            decimal(a.restart_count as nat),
            match a.domain {
                Some(d) => d,
                None => "-"@,
            },
        ],
        header_cells() == seq!["NAME"@, "RUNTIME"@, "STATE"@, "PID"@, "CPU%"@, "MEM"@, "PORT"@, "RESTARTS"@, "DOMAIN"@],
        column_widths() == seq![20nat, 8, 11, 8, 7, 9, 6, 9, 20],
        padded(s, width).len() == if s.len() < width {
            width
        } else {
            s.len()
        },
        padded(s, width).take(s.len() as int) == s,
        forall|i: int| s.len() <= i < padded(s, width).len() ==> #[trigger] padded(s, width)[i] == ' ',
{
    assert(padded(s, width).take(s.len() as int) =~= s);
}

/// The logs call of `harbor logs`: at least one line is always asked for.
pub fn logs_call(app: String, lines: usize) -> (r: ApiCall)
    ensures
        r matches ApiCall::Logs(n, k) && n@ == app@ && k == if lines == 0 {
            1
        } else {
            lines
        },
{
    if lines == 0 {
        ApiCall::Logs(app, 1)
    } else {
        ApiCall::Logs(app, lines)
    }
}

/// The daemon's base URL for the address it listens on.
pub fn base_url(bind_addr: &str) -> (r: String)
    ensures
        r@ == "http://"@ + bind_addr@,
{
    concat2("http://", bind_addr)
}

/// The full URL of `path` under `base`.
pub fn url(base: &str, path: &str) -> (r: String)
    ensures
        r@ == base@ + path@,
{
    concat2(base, path)
}

/// The error reported for a refused request: the daemon's `error` field
/// when the body carried one, else the raw body.
pub fn daemon_error(status: &str, body: &str, error_field: Option<&str>) -> (r: String)
    ensures
        r@ == "daemon returned "@ + status@ + ": "@ + match error_field {
            Some(e) => e@,
            None => body@,
        },
{
    let mut m = concat2("daemon returned ", status);
    push_str(&mut m, ": ");
    match error_field {
        Some(e) => push_str(&mut m, e),
        None => push_str(&mut m, body),
    }
    m
}

/// The error reported when the daemon's token file cannot be read.
pub fn missing_token_message(token_file: &str) -> (r: String)
    ensures
        r@ == "no daemon token found at "@ + token_file@ + "; is the harbor daemon running?"@,
{
    let mut m = concat2("no daemon token found at ", token_file);
    push_str(&mut m, "; is the harbor daemon running?");
    m
}

/// The runtime an add request names: none, or a parsed spelling.
pub open spec fn requested_runtime(runtime: Option<Seq<char>>) -> Option<Option<RuntimeKind>> {
    match runtime {
        None => Some(None),
        Some(r) => match parse_runtime(r) {
            Some(k) => Some(Some(k)),
            None => None,
        },
    }
}

/// The add request that `harbor add` sends for its arguments (`path`
/// already made absolute). Fails when `runtime` is not a known spelling.
pub fn add_request(
    path: String,
    name: Option<String>,
    runtime: Option<&str>,
    command: Option<&str>,
    port: Option<u16>,
    domain: Option<String>,
    path_prefix: Option<String>,
    restart: RestartPolicy,
) -> (r: Result<AddAppRequest, ConfigError>)
    ensures
        match r {
            Ok(req) => {
                &&& requested_runtime(opt_str(runtime)) == Some(req.runtime)
                &&& req.path@ == path@
                &&& opt_view(req.name) == opt_view(name)
                &&& match command {
                    Some(c) => req.command matches Some(v) && views(v@) == words(c@),
                    None => req.command is None,
                }
                &&& req.port == port
                &&& opt_view(req.domain) == opt_view(domain)
                &&& opt_view(req.path_prefix) == opt_view(path_prefix)
                &&& req.env@.len() == 0
                &&& req.restart_policy == Some(restart)
            },
            Err(e) => {
                &&& requested_runtime(opt_str(runtime)) is None
                &&& runtime matches Some(s)
                &&& e matches ConfigError::UnknownRuntime(v)
                &&& v@ == lower(s@)
            },
        },
{
    let kind = match runtime {
        None => None,
        Some(s) => match RuntimeKind::from_str(s) {
            Ok(k) => Some(k),
            Err(e) => return Err(e),
        },
    };
    let command = match command {
        Some(c) => Some(split_command(c)),
        None => None,
    };
    Ok(
        AddAppRequest {
            path,
            name,
            runtime: kind,
            command,
            port,
            domain,
            path_prefix,
            env: Vec::new(),
            restart_policy: Some(restart),
        },
    )
}

/// The view of an optional string slice.
pub open spec fn opt_str(o: Option<&str>) -> Option<Seq<char>> {
    match o {
        Some(s) => Some(s@),
        None => None,
    }
}

/// `s` padded with spaces to `width` characters (as `{:<width}` does).
pub open spec fn padded(s: Seq<char>, width: nat) -> Seq<char> {
    if s.len() < width {
        s + Seq::new((width - s.len()) as nat, |_i: int| ' ')
    } else {
        s
    }
}

/// The widths of the status table's columns.
pub open spec fn column_widths() -> Seq<nat> {
    seq![20, 8, 11, 8, 7, 9, 6, 9, 20]
}

/// One line of the status table: each cell padded to its column's width,
/// the cells separated by one space.
pub open spec fn table_line(cells: Seq<Seq<char>>) -> Seq<char> {
    joined(Seq::new(cells.len(), |i: int| padded(cells[i], column_widths()[i])), " "@)
}

/// The status table's header cells.
pub open spec fn header_cells() -> Seq<Seq<char>> {
    seq!["NAME"@, "RUNTIME"@, "STATE"@, "PID"@, "CPU%"@, "MEM"@, "PORT"@, "RESTARTS"@, "DOMAIN"@]
}

/// A cell's text, or `-` when there is no value.
pub open spec fn or_dash(o: Option<Seq<char>>) -> Seq<char> {
    match o {
        Some(s) => s,
        None => "-"@,
    }
}

/// A number's cell, or `-` when there is none.
pub open spec fn num_or_dash(o: Option<nat>) -> Seq<char> {
    match o {
        Some(n) => decimal(n),
        None => "-"@,
    }
}

/// The cells of one app's row; `cpu` and `mem` are already rendered.
pub open spec fn status_cells(
    a: crate::app::AppStatusView,
    cpu: Option<Seq<char>>,
    mem: Option<Seq<char>>,
) -> Seq<Seq<char>> {
    seq![
        a.name,
        runtime_name(a.runtime),
        state_name(a.state),
        num_or_dash(
            match a.pid {
                Some(p) => Some(p as nat),
                None => None,
            },
        ),
        or_dash(cpu),
        or_dash(mem),
        num_or_dash(
            match a.port {
                Some(p) => Some(p as nat),
                None => None,
            },
        ),
        decimal(a.restart_count as nat),
        or_dash(a.domain),
    ]
}

/// `s` padded with spaces to `width` characters.
pub fn pad_right(s: &str, width: usize) -> (r: String)
    ensures
        r@ == padded(s@, width as nat),
{
    let mut out = s.to_string();
    let n = s.unicode_len();
    if n < width {
        let mut k: usize = n;
        while k < width
            invariant
                n <= k <= width,
                n == s@.len(),
                out@ == s@ + Seq::new((k - n) as nat, |_i: int| ' '),
            decreases width - k,
        {
            out.push(' ');
            assert(s@ + Seq::new((k + 1 - n) as nat, |_i: int| ' ') =~= (s@ + Seq::new(
                (k - n) as nat,
                |_i: int| ' ',
            )).push(' '));
            k = k + 1;
        }
    }
    out
}

/// One line of the status table from its nine cells.
pub fn table_row(cells: &Vec<String>) -> (r: String)
    requires
        cells@.len() == 9,
    ensures
        r@ == table_line(views(cells@)),
{
    let widths: [usize; 9] = [20, 8, 11, 8, 7, 9, 6, 9, 20];
    let mut padded_cells: Vec<String> = Vec::new();
    let mut i: usize = 0;
    while i < 9
        invariant
            i <= 9,
            cells@.len() == 9,
            widths@ == seq![20usize, 8, 11, 8, 7, 9, 6, 9, 20],
            padded_cells@.len() == i,
            forall|j: int|
                0 <= j < i ==> #[trigger] padded_cells@[j]@ == padded(cells@[j]@, column_widths()[j]),
        decreases 9 - i,
    {
        padded_cells.push(pad_right(cells[i].as_str(), widths[i]));
        i = i + 1;
    }
    assert(views(padded_cells@) =~= Seq::new(
        views(cells@).len(),
        |j: int| padded(views(cells@)[j], column_widths()[j]),
    ));
    join_strings(&padded_cells, " ")
}

/// A number's cell text.
fn num_cell(o: Option<u32>) -> (r: String)
    ensures
        r@ == num_or_dash(
            match o {
                Some(p) => Some(p as nat),
                None => None,
            },
        ),
{
    match o {
        Some(p) => decimal_string(p as u128),
        None => "-".to_string(),
    }
}

/// An optional cell's text.
fn text_cell(o: &Option<String>) -> (r: String)
    ensures
        r@ == or_dash(opt_view(*o)),
{
    match o {
        Some(s) => s.clone(),
        None => "-".to_string(),
    }
}

/// The lines `harbor status` prints for `apps`; `cpu[i]` and `mem[i]` are
/// the rendered CPU and memory readings of `apps[i]`, when sampled.
pub fn status_table(apps: &Vec<AppStatus>, cpu: &Vec<Option<String>>, mem: &Vec<Option<String>>) -> (r: Vec<String>)
    requires
        cpu@.len() == apps@.len(),
        mem@.len() == apps@.len(),
    ensures
        apps@.len() == 0 ==> views(r@) == seq!["no apps registered"@],
        apps@.len() > 0 ==> {
            &&& r@.len() == apps@.len() + 1
            &&& r@[0]@ == table_line(header_cells())
            &&& forall|i: int|
                0 <= i < apps@.len() ==> #[trigger] r@[i + 1]@ == table_line(
                    status_cells(apps@[i]@, opt_view(cpu@[i]), opt_view(mem@[i])),
                )
        },
{
    let mut out: Vec<String> = Vec::new();
    if apps.len() == 0 {
        out.push("no apps registered".to_string());
        assert(views(out@) =~= seq!["no apps registered"@]);
        return out;
    }
    let mut header: Vec<String> = Vec::new();
    header.push("NAME".to_string());
    header.push("RUNTIME".to_string());
    header.push("STATE".to_string());
    header.push("PID".to_string());
    header.push("CPU%".to_string());
    header.push("MEM".to_string());
    header.push("PORT".to_string());
    header.push("RESTARTS".to_string());
    header.push("DOMAIN".to_string());
    assert(views(header@) =~= header_cells());
    out.push(table_row(&header));
    let mut i: usize = 0;
    while i < apps.len()
        invariant
            i <= apps@.len(),
            cpu@.len() == apps@.len(),
            mem@.len() == apps@.len(),
            out@.len() == i + 1,
            out@[0]@ == table_line(header_cells()),
            forall|j: int|
                0 <= j < i ==> #[trigger] out@[j + 1]@ == table_line(
                    status_cells(apps@[j]@, opt_view(cpu@[j]), opt_view(mem@[j])),
                ),
        decreases apps@.len() - i,
    {
        let a = &apps[i];
        let mut cells: Vec<String> = Vec::new();
        cells.push(a.name.clone());
        cells.push(a.runtime.as_str().to_string());
        cells.push(a.state.as_str().to_string());
        cells.push(num_cell(a.pid));
        cells.push(text_cell(&cpu[i]));
        cells.push(text_cell(&mem[i]));
        cells.push(
            num_cell(
                match a.port {
                    Some(p) => Some(p as u32),
                    None => None,
                },
            ),
        );
        cells.push(decimal_string(a.restart_count as u128));
        cells.push(text_cell(&a.domain));
        assert(views(cells@) =~= status_cells(apps@[i as int]@, opt_view(cpu@[i as int]), opt_view(mem@[i as int])));
        out.push(table_row(&cells));
        i = i + 1;
    }
    out
}

/// The lines of a polled log window not yet shown, `seen` being how many
/// were shown before.
pub fn unseen_lines(lines: &Vec<String>, seen: usize) -> (r: Vec<String>)
    ensures
        views(r@) == if seen < lines@.len() {
            views(lines@).skip(seen as int)
        } else {
            seq![]
        },
{
    let mut out: Vec<String> = Vec::new();
    let mut i: usize = seen;
    while i < lines.len()
        invariant
            seen <= i,
            seen < lines@.len() ==> i <= lines@.len(),
            seen >= lines@.len() ==> out@.len() == 0,
            seen < lines@.len() ==> views(out@) == views(lines@).subrange(seen as int, i as int),
        decreases lines@.len() - i,
    {
        out.push(lines[i].clone());
        assert(views(out@) =~= views(lines@).subrange(seen as int, i + 1));
        i = i + 1;
    }
    proof {
        if seen >= lines@.len() {
            assert(views(out@) =~= seq![]);
        }
    }
    out
}

/// What the client prints once a call on an app succeeded (`None` for the
/// calls that print their result instead).
pub fn confirmation(call: &ApiCall) -> (r: Option<String>)
    ensures
        r matches Some(m) ==> match *call {
            ApiCall::StartApp(n) => m@ == "started '"@ + n@ + "'"@,
            ApiCall::StopApp(n) => m@ == "stopped '"@ + n@ + "'"@,
            ApiCall::RestartApp(n) => m@ == "restarted '"@ + n@ + "'"@,
            ApiCall::RemoveApp(n) => m@ == "removed '"@ + n@ + "'"@,
            _ => false,
        },
        r is None <==> !(call is StartApp || call is StopApp || call is RestartApp || call is RemoveApp),
{
    let (verb, n) = match call {
        ApiCall::StartApp(n) => ("started '", n),
        ApiCall::StopApp(n) => ("stopped '", n),
        ApiCall::RestartApp(n) => ("restarted '", n),
        ApiCall::RemoveApp(n) => ("removed '", n),
        _ => return None,
    };
    let mut m = concat2(verb, n.as_str());
    push_str(&mut m, "'");
    Some(m)
}

/// What `harbor add` prints for the app the daemon registered.
pub fn added_message(status: &AppStatus) -> (r: String)
    ensures
        r@ == "added app '"@ + status@.name + "' (runtime: "@ + runtime_name(status@.runtime) + ")"@,
{
    let mut m = concat2("added app '", status.name.as_str());
    push_str(&mut m, "' (runtime: ");
    push_str(&mut m, status.runtime.as_str());
    push_str(&mut m, ")");
    m
}

/// What `harbor apply` prints for the number of configs the daemon loaded.
pub fn reloaded_message(apps_loaded: usize) -> (r: String)
    ensures
        r@ == "reloaded "@ + decimal(apps_loaded as nat) + " app config(s)"@,
{
    let mut m = "reloaded ".to_string();
    push_decimal(&mut m, apps_loaded as u128);
    push_str(&mut m, " app config(s)");
    m
}

} // verus!
