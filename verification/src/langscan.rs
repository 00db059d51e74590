//! The language runtimes and tools looked for on this machine.
use vstd::prelude::*;
use crate::text;

verus! {

/// A language runtime or tool, the command that runs it, and the
/// environment variable its installation usually sets.
#[derive(Clone, Copy)]
pub struct LangInfo {
    pub icon: &'static str,
    pub name: &'static str,
    pub cmd: &'static str,
    pub version_arg: &'static str,
    /// A well-known "home" environment variable this toolchain sets (e.g.
    /// JAVA_HOME), shown as an extra detection signal when present.
    pub home_env: Option<&'static str>,
}

pub struct LangView {
    pub icon: Seq<char>,
    pub name: Seq<char>,
    pub cmd: Seq<char>,
    pub version_arg: Seq<char>,
    pub home_env: Option<Seq<char>>,
}

pub open spec fn str_opt_view(o: Option<&str>) -> Option<Seq<char>> {
    match o {
        Some(s) => Some(s@),
        None => None,
    }
}

pub open spec fn lang_view(l: LangInfo) -> LangView {
    LangView {
        icon: l.icon@,
        name: l.name@,
        cmd: l.cmd@,
        version_arg: l.version_arg@,
        home_env: str_opt_view(l.home_env),
    }
}

/// Every language runtime and tool that the scan looks for, in order.
pub open spec fn language_table() -> Seq<LangView> {
    seq![
        LangView { icon: "🟨"@, name: "Node.js / npm"@, cmd: "node"@, version_arg: "--version"@, home_env: Some("NVM_DIR"@) },
        LangView { icon: "🦕"@, name: "Deno"@, cmd: "deno"@, version_arg: "--version"@, home_env: Some("DENO_INSTALL"@) },
        LangView { icon: "🥟"@, name: "Bun"@, cmd: "bun"@, version_arg: "--version"@, home_env: Some("BUN_INSTALL"@) },
        LangView { icon: "🐍"@, name: "Python"@, cmd: "python"@, version_arg: "--version"@, home_env: Some("PYENV_ROOT"@) },
        LangView { icon: "🦀"@, name: "Rust / Cargo"@, cmd: "cargo"@, version_arg: "--version"@, home_env: Some("CARGO_HOME"@) },
        LangView { icon: "🔷"@, name: ".NET / C#"@, cmd: "dotnet"@, version_arg: "--version"@, home_env: Some("DOTNET_ROOT"@) },
        LangView { icon: "☕"@, name: "Java (JDK)"@, cmd: "java"@, version_arg: "-version"@, home_env: Some("JAVA_HOME"@) },
        LangView { icon: "🟣"@, name: "Kotlin"@, cmd: "kotlin"@, version_arg: "-version"@, home_env: None },
        LangView { icon: "⚙ "@, name: "Gradle"@, cmd: "gradle"@, version_arg: "--version"@, home_env: Some("GRADLE_USER_HOME"@) },
        LangView { icon: "🅼 "@, name: "Maven"@, cmd: "mvn"@, version_arg: "--version"@, home_env: Some("M2_HOME"@) },
        LangView { icon: "🌀"@, name: "Scala"@, cmd: "scala"@, version_arg: "-version"@, home_env: None },
        LangView { icon: "🐹"@, name: "Go"@, cmd: "go"@, version_arg: "version"@, home_env: Some("GOROOT"@) },
        LangView { icon: "💎"@, name: "Ruby"@, cmd: "ruby"@, version_arg: "--version"@, home_env: Some("RBENV_ROOT"@) },
        LangView { icon: "🐘"@, name: "PHP"@, cmd: "php"@, version_arg: "--version"@, home_env: None },
        LangView { icon: "🎼"@, name: "Composer"@, cmd: "composer"@, version_arg: "--version"@, home_env: Some("COMPOSER_HOME"@) },
        LangView { icon: "🎯"@, name: "Flutter / Dart"@, cmd: "flutter"@, version_arg: "--version"@, home_env: Some("FLUTTER_ROOT"@) },
        LangView { icon: "🍎"@, name: "Swift"@, cmd: "swift"@, version_arg: "--version"@, home_env: None },
        LangView { icon: "🅲 "@, name: "C / GCC"@, cmd: "gcc"@, version_arg: "--version"@, home_env: None },
        LangView { icon: "🅲+"@, name: "C++ / Clang"@, cmd: "clang"@, version_arg: "--version"@, home_env: None },
        LangView { icon: "🅑 "@, name: "Ballerina"@, cmd: "bal"@, version_arg: "version"@, home_env: Some("BALLERINA_HOME"@) },
        LangView { icon: "💧"@, name: "Elixir"@, cmd: "elixir"@, version_arg: "--version"@, home_env: None },
        LangView { icon: "⚗ "@, name: "Erlang"@, cmd: "erl"@, version_arg: "-version"@, home_env: None },
        LangView { icon: "🐪"@, name: "Perl"@, cmd: "perl"@, version_arg: "--version"@, home_env: None },
        LangView { icon: "🌙"@, name: "Lua"@, cmd: "lua"@, version_arg: "-v"@, home_env: None },
        LangView { icon: "📊"@, name: "R"@, cmd: "Rscript"@, version_arg: "--version"@, home_env: Some("R_HOME"@) },
        LangView { icon: "λ "@, name: "Haskell / GHC"@, cmd: "ghc"@, version_arg: "--version"@, home_env: Some("STACK_ROOT"@) },
        LangView { icon: "🔬"@, name: "Julia"@, cmd: "julia"@, version_arg: "--version"@, home_env: Some("JULIA_DEPOT_PATH"@) },
        LangView { icon: "⚡"@, name: "Zig"@, cmd: "zig"@, version_arg: "version"@, home_env: None },
        LangView { icon: "🔷"@, name: "PowerShell"@, cmd: "pwsh"@, version_arg: "--version"@, home_env: None },
        LangView { icon: "🔧"@, name: "Git"@, cmd: "git"@, version_arg: "--version"@, home_env: None },
        LangView { icon: "🐳"@, name: "Docker"@, cmd: "docker"@, version_arg: "--version"@, home_env: Some("DOCKER_HOST"@) },
    ]
}

/// The table of languages (`LANGUAGES`).
pub fn languages() -> (r: Vec<LangInfo>)
    ensures
        r@.map_values(|l: LangInfo| lang_view(l)) == language_table(),
{
    let mut v: Vec<LangInfo> = Vec::new();
    v.push(LangInfo { icon: "🟨", name: "Node.js / npm", cmd: "node", version_arg: "--version", home_env: Some("NVM_DIR") });
    v.push(LangInfo { icon: "🦕", name: "Deno", cmd: "deno", version_arg: "--version", home_env: Some("DENO_INSTALL") });
    v.push(LangInfo { icon: "🥟", name: "Bun", cmd: "bun", version_arg: "--version", home_env: Some("BUN_INSTALL") });
    v.push(LangInfo { icon: "🐍", name: "Python", cmd: "python", version_arg: "--version", home_env: Some("PYENV_ROOT") });
    v.push(LangInfo { icon: "🦀", name: "Rust / Cargo", cmd: "cargo", version_arg: "--version", home_env: Some("CARGO_HOME") });
    v.push(LangInfo { icon: "🔷", name: ".NET / C#", cmd: "dotnet", version_arg: "--version", home_env: Some("DOTNET_ROOT") });
    v.push(LangInfo { icon: "☕", name: "Java (JDK)", cmd: "java", version_arg: "-version", home_env: Some("JAVA_HOME") });
    v.push(LangInfo { icon: "🟣", name: "Kotlin", cmd: "kotlin", version_arg: "-version", home_env: None });
    v.push(LangInfo { icon: "⚙ ", name: "Gradle", cmd: "gradle", version_arg: "--version", home_env: Some("GRADLE_USER_HOME") });
    v.push(LangInfo { icon: "🅼 ", name: "Maven", cmd: "mvn", version_arg: "--version", home_env: Some("M2_HOME") });
    v.push(LangInfo { icon: "🌀", name: "Scala", cmd: "scala", version_arg: "-version", home_env: None });
    v.push(LangInfo { icon: "🐹", name: "Go", cmd: "go", version_arg: "version", home_env: Some("GOROOT") });
    v.push(LangInfo { icon: "💎", name: "Ruby", cmd: "ruby", version_arg: "--version", home_env: Some("RBENV_ROOT") });
    v.push(LangInfo { icon: "🐘", name: "PHP", cmd: "php", version_arg: "--version", home_env: None });
    v.push(LangInfo { icon: "🎼", name: "Composer", cmd: "composer", version_arg: "--version", home_env: Some("COMPOSER_HOME") });
    v.push(LangInfo { icon: "🎯", name: "Flutter / Dart", cmd: "flutter", version_arg: "--version", home_env: Some("FLUTTER_ROOT") });
    v.push(LangInfo { icon: "🍎", name: "Swift", cmd: "swift", version_arg: "--version", home_env: None });
    v.push(LangInfo { icon: "🅲 ", name: "C / GCC", cmd: "gcc", version_arg: "--version", home_env: None });
    v.push(LangInfo { icon: "🅲+", name: "C++ / Clang", cmd: "clang", version_arg: "--version", home_env: None });
    v.push(LangInfo { icon: "🅑 ", name: "Ballerina", cmd: "bal", version_arg: "version", home_env: Some("BALLERINA_HOME") });
    v.push(LangInfo { icon: "💧", name: "Elixir", cmd: "elixir", version_arg: "--version", home_env: None });
    v.push(LangInfo { icon: "⚗ ", name: "Erlang", cmd: "erl", version_arg: "-version", home_env: None });
    v.push(LangInfo { icon: "🐪", name: "Perl", cmd: "perl", version_arg: "--version", home_env: None });
    v.push(LangInfo { icon: "🌙", name: "Lua", cmd: "lua", version_arg: "-v", home_env: None });
    v.push(LangInfo { icon: "📊", name: "R", cmd: "Rscript", version_arg: "--version", home_env: Some("R_HOME") });
    v.push(LangInfo { icon: "λ ", name: "Haskell / GHC", cmd: "ghc", version_arg: "--version", home_env: Some("STACK_ROOT") });
    v.push(LangInfo { icon: "🔬", name: "Julia", cmd: "julia", version_arg: "--version", home_env: Some("JULIA_DEPOT_PATH") });
    v.push(LangInfo { icon: "⚡", name: "Zig", cmd: "zig", version_arg: "version", home_env: None });
    v.push(LangInfo { icon: "🔷", name: "PowerShell", cmd: "pwsh", version_arg: "--version", home_env: None });
    v.push(LangInfo { icon: "🔧", name: "Git", cmd: "git", version_arg: "--version", home_env: None });
    v.push(LangInfo { icon: "🐳", name: "Docker", cmd: "docker", version_arg: "--version", home_env: Some("DOCKER_HOST") });
    assert(v@.map_values(|l: LangInfo| lang_view(l)) =~= language_table());
    v
}

/// The default `PATHEXT` of Windows.
pub open spec fn default_pathext() -> Seq<char> {
    ".EXE;.CMD;.BAT;.COM"@
}

/// `cmd` followed by each non-empty extension of `exts`, lower-cased.
pub open spec fn with_extensions(cmd: Seq<char>, exts: Seq<Seq<char>>) -> Seq<Seq<char>>
    decreases exts.len(),
{
    if exts.len() == 0 {
        Seq::empty()
    } else {
        with_extensions(cmd, exts.drop_last()) + if exts.last().len() > 0 {
            seq![cmd + text::lowercase(exts.last())]
        } else {
            Seq::empty()
        }
    }
}

/// The file names under which a command is looked for on `PATH`: on Windows
/// the command with each extension of `PATHEXT` (lower-cased), then the bare
/// command; elsewhere the bare command.
pub open spec fn exe_names(cmd: Seq<char>, windows: bool, pathext: Option<Seq<char>>) -> Seq<
    Seq<char>,
> {
    if windows {
        let p = match pathext {
            Some(p) => p,
            None => default_pathext(),
        };
        with_extensions(cmd, text::split_on(p, ';')).push(cmd)
    } else {
        seq![cmd]
    }
}

/// The file names under which `cmd` is looked for on `PATH`, for the
/// platform and `PATHEXT` given.
pub fn exe_candidates(cmd: &str, windows: bool, pathext: &Option<String>) -> (r: Vec<String>)
    ensures
        text::views(r@) == exe_names(
            cmd@,
            windows,
            match pathext {
                Some(p) => Some(p@),
                None => None,
            },
        ),
{
    let mut out: Vec<String> = Vec::new();
    if !windows {
        out.push(String::from_str(cmd));
        assert(text::views(out@) =~= seq![cmd@]);
        return out;
    }
    let p = match pathext {
        Some(p) => p.clone(),
        None => String::from_str(".EXE;.CMD;.BAT;.COM"),
    };
    let exts = text::split_char(p.as_str(), ';');
    let ghost ev = text::views(exts@);
    let mut i: usize = 0;
    assert(ev.take(0) =~= Seq::<Seq<char>>::empty());
    assert(text::views(out@) =~= Seq::<Seq<char>>::empty());
    while i < exts.len()
        invariant
            i <= exts.len(),
            ev == text::views(exts@),
            text::views(out@) == with_extensions(cmd@, ev.take(i as int)),
        decreases exts.len() - i,
    {
        let ghost before = text::views(out@);
        assert(ev.take(i + 1).drop_last() =~= ev.take(i as int));
        assert(ev.take(i + 1).last() == exts@[i as int]@);
        if !text::is_empty(exts[i].as_str()) {
            let name = String::from_str(cmd).concat(text::to_lowercase(exts[i].as_str()).as_str());
            out.push(name);
            assert(text::views(out@) =~= before.push(cmd@ + text::lowercase(exts@[i as int]@)));
        }
        i = i + 1;
    }
    assert(ev.take(i as int) =~= ev);
    let ghost before = text::views(out@);
    out.push(String::from_str(cmd));
    assert(text::views(out@) =~= before.push(cmd@));
    out
}

/// The version line of a tool: the first line, trimmed, of what it printed
/// on stdout, or on stderr where stdout is empty; empty where it printed
/// nothing.
pub open spec fn version_of(stdout: Seq<char>, stderr: Seq<char>) -> Seq<char> {
    let raw = if stdout.len() > 0 {
        stdout
    } else {
        stderr
    };
    let ls = text::lines(raw);
    if ls.len() > 0 {
        text::trim(ls[0])
    } else {
        Seq::empty()
    }
}

pub fn version_line(stdout: &str, stderr: &str) -> (r: String)
    ensures
        r@ == version_of(stdout@, stderr@),
{
    let raw = if !text::is_empty(stdout) {
        stdout
    } else {
        stderr
    };
    let ls = text::lines_of(raw);
    if ls.len() > 0 {
        assert(text::views(ls@)[0] == ls@[0]@);
        text::trim_str(ls[0].as_str())
    } else {
        String::new()
    }
}

/// What was observed of one tool on this machine.
pub struct Probe {
    /// Whether its command was found on `PATH`.
    pub on_path: bool,
    /// The value of its home environment variable, where that is set.
    pub env_value: Option<String>,
    /// What running it with its version argument printed on stdout and
    /// stderr, where it could be run.
    pub output: Option<(String, String)>,
}

/// A tool and whether and in which version it is installed.
pub struct Detected {
    pub info: LangInfo,
    pub installed: bool,
    pub version: String,
    /// The home variable's name and value, where it is set.
    pub env_hint: Option<(&'static str, String)>,
}

pub struct DetectedView {
    pub info: LangView,
    pub installed: bool,
    pub version: Seq<char>,
    pub env_hint: Option<(Seq<char>, Seq<char>)>,
}

pub open spec fn detected_view(d: Detected) -> DetectedView {
    DetectedView {
        info: lang_view(d.info),
        installed: d.installed,
        version: d.version@,
        env_hint: match d.env_hint {
            Some((k, v)) => Some((k@, v@)),
            None => None,
        },
    }
}

/// What a probe tells of a tool: installed where found on `PATH`; its
/// version only then; the home variable where the tool has one and it is
/// set.
pub open spec fn probed(info: LangView, p: Probe) -> DetectedView {
    DetectedView {
        info,
        installed: p.on_path,
        version: if p.on_path {
            match p.output {
                Some((o, e)) => version_of(o@, e@),
                None => Seq::empty(),
            }
        } else {
            Seq::empty()
        },
        env_hint: match (info.home_env, p.env_value) {
            (Some(var), Some(val)) => Some((var, val@)),
            _ => None,
        },
    }
}

/// What was found of a tool, from what was observed of it.
pub fn probe(info: LangInfo, p: &Probe) -> (d: Detected)
    ensures
        detected_view(d) == probed(lang_view(info), *p),
{
    let version = if p.on_path {
        match &p.output {
            Some((o, e)) => version_line(o.as_str(), e.as_str()),
            None => String::new(),
        }
    } else {
        String::new()
    };
    let env_hint = match (info.home_env, &p.env_value) {
        (Some(var), Some(val)) => Some((var, val.clone())),
        _ => None,
    };
    Detected { info, installed: p.on_path, version, env_hint }
}

/// What was found of every tool of the table, from what was observed of
/// each, in the table's order.
pub fn scan_languages(probes: &Vec<Probe>) -> (r: Vec<Detected>)
    requires
        probes.len() == language_table().len(),
    ensures
        r.len() == probes.len(),
        forall|i: int|
            0 <= i < r.len() ==> #[trigger] detected_view(r@[i]) == probed(
                language_table()[i],
                probes@[i],
            ),
{
    let table = languages();
    assert(table.len() == language_table().len());
    let mut out: Vec<Detected> = Vec::new();
    let mut i: usize = 0;
    while i < table.len()
        invariant
            i <= table.len(),
            table.len() == probes.len(),
            table@.map_values(|l: LangInfo| lang_view(l)) == language_table(),
            out.len() == i,
            forall|j: int|
                0 <= j < i ==> #[trigger] detected_view(out@[j]) == probed(
                    language_table()[j],
                    probes@[j],
                ),
        decreases table.len() - i,
    {
        assert(lang_view(table@[i as int]) == language_table()[i as int]);
        out.push(probe(table[i], &probes[i]));
        i = i + 1;
    }
    out
}

pub open spec fn count_installed(ds: Seq<Detected>) -> nat
    decreases ds.len(),
{
    if ds.len() == 0 {
        0
    } else {
        count_installed(ds.drop_last()) + if ds.last().installed {
            1nat
        } else {
            0nat
        }
    }
}

/// How many tools are installed.
pub fn installed_count(ds: &Vec<Detected>) -> (n: usize)
    ensures
        n == count_installed(ds@),
{
    let mut n: usize = 0;
    let mut i: usize = 0;
    assert(ds@.take(0) =~= Seq::<Detected>::empty());
    while i < ds.len()
        invariant
            i <= ds.len(),
            n == count_installed(ds@.take(i as int)),
            n <= i,
        decreases ds.len() - i,
    {
        assert(ds@.take(i + 1).drop_last() =~= ds@.take(i as int));
        if ds[i].installed {
            n = n + 1;
        }
        i = i + 1;
    }
    assert(ds@.take(i as int) =~= ds@);
    n
}

/// Each of `names` joined under the directory `dir`, in order.
pub open spec fn under_dir(dir: Seq<char>, names: Seq<Seq<char>>, windows: bool) -> Seq<Seq<char>> {
    names.map_values(|n: Seq<char>| crate::paths::join_path(dir, n, windows))
}

/// The paths tried, in order, when a command is looked for on `PATH`: each
/// directory with each of the command's file names.
pub open spec fn lookup_paths(dirs: Seq<Seq<char>>, names: Seq<Seq<char>>, windows: bool) -> Seq<
    Seq<char>,
>
    decreases dirs.len(),
{
    if dirs.len() == 0 {
        Seq::empty()
    } else {
        lookup_paths(dirs.drop_last(), names, windows) + under_dir(dirs.last(), names, windows)
    }
}

/// The order in which paths are tried when a command is looked for on `PATH`.
pub fn lookup_order(dirs: &Vec<String>, names: &Vec<String>, windows: bool) -> (r: Vec<String>)
    ensures
        text::views(r@) == lookup_paths(text::views(dirs@), text::views(names@), windows),
{
    let ghost dv = text::views(dirs@);
    let ghost nv = text::views(names@);
    let mut out: Vec<String> = Vec::new();
    let mut i: usize = 0;
    assert(dv.take(0) =~= Seq::<Seq<char>>::empty());
    assert(text::views(out@) =~= Seq::<Seq<char>>::empty());
    while i < dirs.len()
        invariant
            i <= dirs.len(),
            dv == text::views(dirs@),
            nv == text::views(names@),
            text::views(out@) == lookup_paths(dv.take(i as int), nv, windows),
        decreases dirs.len() - i,
    {
        let ghost before = text::views(out@);
        let ghost d = dirs@[i as int]@;
        assert(dv.take(i + 1).drop_last() =~= dv.take(i as int));
        assert(dv.take(i + 1).last() == d);
        assert(nv.take(0) =~= Seq::<Seq<char>>::empty());
        assert(before + under_dir(d, nv.take(0), windows) =~= before);
        let mut k: usize = 0;
        while k < names.len()
            invariant
                k <= names.len(),
                i < dirs.len(),
                d == dirs@[i as int]@,
                nv == text::views(names@),
                text::views(out@) == before + under_dir(d, nv.take(k as int), windows),
            decreases names.len() - k,
        {
            let ghost prev = out@;
            let p = crate::paths::join(dirs[i].as_str(), names[k].as_str(), windows);
            out.push(p);
            assert(text::views(out@) =~= text::views(prev).push(p@));
            assert(nv.take(k + 1) =~= nv.take(k as int).push(nv[k as int]));
            assert(under_dir(d, nv.take(k + 1), windows) =~= under_dir(
                d,
                nv.take(k as int),
                windows,
            ).push(crate::paths::join_path(d, nv[k as int], windows)));
            assert(text::views(out@) =~= before + under_dir(d, nv.take(k + 1), windows));
            k = k + 1;
        }
        assert(nv.take(k as int) =~= nv);
        i = i + 1;
    }
    assert(dv.take(i as int) =~= dv);
    out
}

/// The machine's description: operating system and architecture.
pub fn os_summary_line(os: &str, arch: &str) -> (r: String)
    ensures
        r@ == os@ + " / "@ + arch@,
{
    String::from_str(os).concat(" / ").concat(arch)
}

} // verus!
