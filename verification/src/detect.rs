//! Runtime auto-detection from a project directory's marker files, and the
//! default launch command for each runtime.
//!
//! The directory is described by a listing taken by the caller: the names
//! of its entries, which of them are regular files, and whether the
//! project has a virtualenv interpreter at `.venv/bin/python`.
use vstd::prelude::*;

use crate::app::RuntimeKind;
use crate::paths::{join, join_path};
use crate::text::{chars_of, eq_ignore_ascii_case, lower, push_chars, str_eq, views};

verus! {

/// One entry of a directory listing.
pub struct DirEntry {
    pub name: String,
    /// The entry is (or links to) a regular file.
    pub is_file: bool,
}

/// A project directory: its path and what the file system reports of it.
pub struct ProjectDir {
    pub path: String,
    /// The directory's entries, and each name of `marker_files` that the
    /// file system resolves to a regular file in the directory (on a
    /// case-insensitive file system a marker can resolve to an entry
    /// spelled differently).
    pub entries: Vec<DirEntry>,
    /// `.venv/bin/python` exists as a regular file.
    pub has_venv_python: bool,
}

/// Index of the last `c` in `s`, or -1.
pub open spec fn last_index(s: Seq<char>, c: char) -> int
    decreases s.len(),
{
    if s.len() == 0 {
        -1
    } else if s.last() == c {
        s.len() - 1
    } else {
        last_index(s.drop_last(), c)
    }
}

proof fn lemma_last_index_at(s: Seq<char>, c: char, k: int)
    requires
        -1 <= k < s.len(),
        k >= 0 ==> s[k] == c,
        forall|i: int| k < i < s.len() ==> s[i] != c,
    ensures
        last_index(s, c) == k,
    decreases s.len(),
{
    if s.len() > 0 && k < s.len() - 1 {
        lemma_last_index_at(s.drop_last(), c, k);
    }
}

/// The extension of a file name: what follows its last dot, when that dot
/// is not the name's first character.
pub open spec fn extension(name: Seq<char>) -> Option<Seq<char>> {
    let p = last_index(name, '.');
    if name == ".."@ || p <= 0 {
        None
    } else {
        Some(name.subrange(p + 1, name.len() as int))
    }
}

/// The directory holds a regular file named `name`.
pub open spec fn has_file(d: ProjectDir, name: Seq<char>) -> bool {
    exists|i: int| 0 <= i < d.entries@.len() && #[trigger] d.entries@[i].name@ == name && d.entries@[i].is_file
}

/// The directory holds an entry whose extension is `ext`, ignoring ASCII
/// case.
pub open spec fn has_ext(d: ProjectDir, ext: Seq<char>) -> bool {
    exists|i: int|
        0 <= i < d.entries@.len() && (#[trigger] extension(d.entries@[i].name@) matches Some(e) && lower(e)
            == lower(ext))
}

/// The runtime that a directory's markers indicate, checked in order:
/// Rust, Node, .NET, Java, then Python.
pub open spec fn detected(d: ProjectDir) -> Option<RuntimeKind> {
    if has_file(d, "Cargo.toml"@) {
        Some(RuntimeKind::Rust)
    } else if has_file(d, "package.json"@) {
        Some(RuntimeKind::Node)
    } else if has_ext(d, "csproj"@) || has_ext(d, "sln"@) {
        Some(RuntimeKind::DotNet)
    } else if has_file(d, "pom.xml"@) || has_file(d, "build.gradle"@) || has_file(d, "build.gradle.kts"@) {
        Some(RuntimeKind::Java)
    } else if has_file(d, "requirements.txt"@) || has_file(d, "pyproject.toml"@) || has_file(d, "setup.py"@)
        || has_file(d, "Pipfile"@) {
        Some(RuntimeKind::Python)
    } else {
        None
    }
}

/// The Python interpreter to launch with: the project's virtualenv one when
/// present, else `python3`.
pub open spec fn python_for(d: ProjectDir) -> Seq<char> {
    if d.has_venv_python {
        join_path(join_path(join_path(d.path@, ".venv"@), "bin"@), "python"@)
    } else {
        "python3"@
    }
}

/// The default launch command for a runtime.
pub open spec fn default_command_for(runtime: RuntimeKind, d: ProjectDir) -> Seq<Seq<char>> {
    match runtime {
        RuntimeKind::Python => {
            let py = python_for(d);
            if has_file(d, "main.py"@) {
                seq![py, "main.py"@]
            } else if has_file(d, "app.py"@) {
                seq![py, "app.py"@]
            } else if has_file(d, "manage.py"@) {
                seq![py, "manage.py"@]
            } else {
                seq![py, "main.py"@]
            }
        },
        RuntimeKind::Node => seq!["npm"@, "start"@],
        RuntimeKind::DotNet => seq!["dotnet"@, "run"@],
        RuntimeKind::Java => if has_file(d, "pom.xml"@) {
            seq!["mvn"@, "spring-boot:run"@]
        } else {
            seq!["./gradlew"@, "bootRun"@]
        },
        RuntimeKind::Rust => seq!["cargo"@, "run"@, "--release"@],
        RuntimeKind::Custom => seq![],
    }
}

/// The extension of a file name.
pub fn extension_of(name: &str) -> (r: Option<String>)
    ensures
        match r {
            Some(e) => extension(name@) == Some(e@),
            None => extension(name@) is None,
        },
{
    let v = chars_of(name);
    let n = v.len();
    let mut k: usize = n;
    while k > 0 && v[k - 1] != '.'
        invariant
            k <= n == v@.len(),
            v@ == name@,
            forall|i: int| k <= i < n ==> v@[i] != '.',
        decreases k,
    {
        k = k - 1;
    }
    proof {
        lemma_last_index_at(name@, '.', k - 1);
    }
    if str_eq(name, "..") || k <= 1 {
        return None;
    }
    let mut e = String::new();
    push_chars(&mut e, v.as_slice(), k, n);
    Some(e)
}

/// Whether the directory holds a regular file named `name`.
pub fn dir_has_file(d: &ProjectDir, name: &str) -> (r: bool)
    ensures
        r == has_file(*d, name@),
{
    let mut i: usize = 0;
    while i < d.entries.len()
        invariant
            i <= d.entries@.len(),
            forall|j: int| 0 <= j < i ==> !(#[trigger] d.entries@[j].name@ == name@ && d.entries@[j].is_file),
        decreases d.entries@.len() - i,
    {
        if d.entries[i].is_file && str_eq(d.entries[i].name.as_str(), name) {
            return true;
        }
        i = i + 1;
    }
    false
}

/// Whether some entry's extension is `ext`, ignoring ASCII case.
pub fn dir_has_ext(d: &ProjectDir, ext: &str) -> (r: bool)
    ensures
        r == has_ext(*d, ext@),
{
    let mut i: usize = 0;
    while i < d.entries.len()
        invariant
            i <= d.entries@.len(),
            forall|j: int|
                0 <= j < i ==> !(#[trigger] extension(d.entries@[j].name@) matches Some(e) && lower(e) == lower(
                    ext@,
                )),
        decreases d.entries@.len() - i,
    {
        match extension_of(d.entries[i].name.as_str()) {
            Some(e) => {
                if eq_ignore_ascii_case(e.as_str(), ext) {
                    return true;
                }
            },
            None => {},
        }
        i = i + 1;
    }
    false
}

/// Auto-detects a project's runtime from the marker files in its root
/// directory. Order matters only when a directory has markers of more than
/// one runtime.
pub fn detect_runtime(d: &ProjectDir) -> (r: Option<RuntimeKind>)
    ensures
        r == detected(*d),
{
    if dir_has_file(d, "Cargo.toml") {
        return Some(RuntimeKind::Rust);
    }
    if dir_has_file(d, "package.json") {
        return Some(RuntimeKind::Node);
    }
    if dir_has_ext(d, "csproj") || dir_has_ext(d, "sln") {
        return Some(RuntimeKind::DotNet);
    }
    if dir_has_file(d, "pom.xml") || dir_has_file(d, "build.gradle") || dir_has_file(d, "build.gradle.kts") {
        return Some(RuntimeKind::Java);
    }
    if dir_has_file(d, "requirements.txt") || dir_has_file(d, "pyproject.toml") || dir_has_file(d, "setup.py")
        || dir_has_file(d, "Pipfile") {
        return Some(RuntimeKind::Python);
    }
    None
}

fn pair(a: &str, b: &str) -> (r: Vec<String>)
    ensures
        views(r@) == seq![a@, b@],
{
    let mut v: Vec<String> = Vec::new();
    v.push(a.to_string());
    v.push(b.to_string());
    assert(views(v@) =~= seq![a@, b@]);
    v
}

/// Best-effort default launch command for a runtime; users override it
/// when it does not fit the project's entry point.
pub fn default_command(runtime: RuntimeKind, d: &ProjectDir) -> (r: Vec<String>)
    ensures
        views(r@) == default_command_for(runtime, *d),
{
    match runtime {
        RuntimeKind::Python => {
            let python = if d.has_venv_python {
                let a = join(d.path.as_str(), ".venv");
                let b = join(a.as_str(), "bin");
                join(b.as_str(), "python")
            } else {
                "python3".to_string()
            };
            let candidate = if dir_has_file(d, "main.py") {
                "main.py"
            } else if dir_has_file(d, "app.py") {
                "app.py"
            } else if dir_has_file(d, "manage.py") {
                "manage.py"
            } else {
                "main.py"
            };
            pair(python.as_str(), candidate)
        },
        RuntimeKind::Node => pair("npm", "start"),
        RuntimeKind::DotNet => pair("dotnet", "run"),
        RuntimeKind::Java => {
            if dir_has_file(d, "pom.xml") {
                pair("mvn", "spring-boot:run")
            } else {
                pair("./gradlew", "bootRun")
            }
        },
        RuntimeKind::Rust => {
            let mut v: Vec<String> = Vec::new();
            v.push("cargo".to_string());
            v.push("run".to_string());
            v.push("--release".to_string());
            assert(views(v@) =~= seq!["cargo"@, "run"@, "--release"@]);
            v
        },
        RuntimeKind::Custom => {
            let v: Vec<String> = Vec::new();
            assert(views(v@) =~= Seq::<Seq<char>>::empty());
            v
        },
    }
}

/// Detection order: a Rust marker wins over every other marker, a Node
/// marker over .NET, Java and Python markers, and so on down the list.
pub proof fn law_detection_priority(d: ProjectDir)
    ensures
        has_file(d, "Cargo.toml"@) ==> detected(d) == Some(RuntimeKind::Rust),
        !has_file(d, "Cargo.toml"@) && has_file(d, "package.json"@) ==> detected(d) == Some(
            RuntimeKind::Node,
        ),
        detected(d) == Some(RuntimeKind::Python) ==> !has_file(d, "Cargo.toml"@) && !has_file(
            d,
            "package.json"@,
        ) && !has_file(d, "pom.xml"@),
        detected(d) is None ==> !has_file(d, "requirements.txt"@) && !has_file(d, "Cargo.toml"@),
{
}

/// Which runtime each marker file indicates: a Rust manifest means Rust; a
/// Node manifest, without one, means Node; a .NET project or solution file,
/// without those, means .NET; a Maven or Gradle build file (`pom.xml`,
/// `build.gradle`, `build.gradle.kts`), without those, means Java; and a
/// Python project file (`requirements.txt`, `pyproject.toml`, `setup.py`,
/// `Pipfile`), without any of those, means Python. A directory with none of
/// these markers has no detected runtime.
pub proof fn law_marker_runtimes(d: ProjectDir)
    ensures
        has_file(d, "Cargo.toml"@) ==> detected(d) == Some(RuntimeKind::Rust),
        !has_file(d, "Cargo.toml"@) && has_file(d, "package.json"@) ==> detected(d) == Some(RuntimeKind::Node),
        !has_file(d, "Cargo.toml"@) && !has_file(d, "package.json"@) && (has_ext(d, "csproj"@) || has_ext(
            d,
            "sln"@,
        )) ==> detected(d) == Some(RuntimeKind::DotNet),
        !has_file(d, "Cargo.toml"@) && !has_file(d, "package.json"@) && !has_ext(d, "csproj"@) && !has_ext(
            d,
            "sln"@,
        ) && (has_file(d, "pom.xml"@) || has_file(d, "build.gradle"@) || has_file(d, "build.gradle.kts"@))
            ==> detected(d) == Some(RuntimeKind::Java),
        !has_file(d, "Cargo.toml"@) && !has_file(d, "package.json"@) && !has_ext(d, "csproj"@) && !has_ext(
            d,
            "sln"@,
        ) && !has_file(d, "pom.xml"@) && !has_file(d, "build.gradle"@) && !has_file(d, "build.gradle.kts"@)
            && (has_file(d, "requirements.txt"@) || has_file(d, "pyproject.toml"@) || has_file(d, "setup.py"@)
            || has_file(d, "Pipfile"@)) ==> detected(d) == Some(RuntimeKind::Python),
        !has_file(d, "Cargo.toml"@) && !has_file(d, "package.json"@) && !has_ext(d, "csproj"@) && !has_ext(
            d,
            "sln"@,
        ) && !has_file(d, "pom.xml"@) && !has_file(d, "build.gradle"@) && !has_file(d, "build.gradle.kts"@)
            && !has_file(d, "requirements.txt"@) && !has_file(d, "pyproject.toml"@) && !has_file(d, "setup.py"@)
            && !has_file(d, "Pipfile"@) ==> detected(d) is None,
{
}

/// The default launch commands: `npm start` for Node, `dotnet run` for
/// .NET, `cargo run --release` for Rust, nothing for a custom runtime;
/// Maven's `spring-boot:run` when a `pom.xml` is present, else the Gradle
/// wrapper's `bootRun`; and for Python the project's interpreter (its
/// virtualenv's, else `python3`) on the first of `main.py`, `app.py`,
/// `manage.py` present, defaulting to `main.py`.
pub proof fn law_default_commands(d: ProjectDir)
    ensures
        default_command_for(RuntimeKind::Node, d) == seq!["npm"@, "start"@],
        default_command_for(RuntimeKind::DotNet, d) == seq!["dotnet"@, "run"@],
        default_command_for(RuntimeKind::Rust, d) == seq!["cargo"@, "run"@, "--release"@],
        default_command_for(RuntimeKind::Custom, d).len() == 0,
        has_file(d, "pom.xml"@) ==> default_command_for(RuntimeKind::Java, d) == seq!["mvn"@, "spring-boot:run"@],
        !has_file(d, "pom.xml"@) ==> default_command_for(RuntimeKind::Java, d) == seq!["./gradlew"@, "bootRun"@],
        default_command_for(RuntimeKind::Python, d).len() == 2,
        default_command_for(RuntimeKind::Python, d)[0] == if d.has_venv_python {
            join_path(join_path(join_path(d.path@, ".venv"@), "bin"@), "python"@)
        } else {
            "python3"@
        },
        default_command_for(RuntimeKind::Python, d)[1] == if has_file(d, "main.py"@) {
            "main.py"@
        } else if has_file(d, "app.py"@) {
            "app.py"@
        } else if has_file(d, "manage.py"@) {
            "manage.py"@
        } else {
            "main.py"@
        },
{
}

/// The file names that detection and the default commands look up.
pub open spec fn marker_names() -> Seq<Seq<char>> {
    seq![
        "Cargo.toml"@,
        "package.json"@,
        "pom.xml"@,
        "build.gradle"@,
        "build.gradle.kts"@,
        "requirements.txt"@,
        "pyproject.toml"@,
        "setup.py"@,
        "Pipfile"@,
        "main.py"@,
        "app.py"@,
        "manage.py"@,
    ]
}

/// The file names that detection and the default commands look up, to be
/// probed in the project directory.
pub fn marker_files() -> (r: Vec<String>)
    ensures
        crate::text::views(r@) == marker_names(),
{
    let mut v: Vec<String> = Vec::new();
    v.push("Cargo.toml".to_string());
    v.push("package.json".to_string());
    v.push("pom.xml".to_string());
    v.push("build.gradle".to_string());
    v.push("build.gradle.kts".to_string());
    v.push("requirements.txt".to_string());
    v.push("pyproject.toml".to_string());
    v.push("setup.py".to_string());
    v.push("Pipfile".to_string());
    v.push("main.py".to_string());
    v.push("app.py".to_string());
    v.push("manage.py".to_string());
    assert(crate::text::views(v@) =~= marker_names());
    v
}

} // verus!
