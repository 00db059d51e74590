//! Guessing, from the files in a directory, which kind of project it holds
//! and which command runs it.
use vstd::prelude::*;
use crate::json::{self, JsonValue, JsonView};
use crate::paths;
use crate::text;

verus! {

/// A project found in a directory, with the command suggested to run it.
pub struct Candidate {
    pub suggested_name: String,
    /// "simple" or "multistep-mobile".
    pub kind: String,
    pub cmd: Option<String>,
    pub args: Vec<String>,
    /// Relative to the scanned root.
    pub cwd: String,
    pub language: String,
    pub notes: String,
    pub available_scripts: Vec<String>,
}

pub struct CandidateView {
    pub suggested_name: Seq<char>,
    pub kind: Seq<char>,
    pub cmd: Option<Seq<char>>,
    pub args: Seq<Seq<char>>,
    pub cwd: Seq<char>,
    pub language: Seq<char>,
    pub notes: Seq<char>,
    pub available_scripts: Seq<Seq<char>>,
}

pub open spec fn opt_view(o: Option<String>) -> Option<Seq<char>> {
    match o {
        Some(s) => Some(s@),
        None => None,
    }
}

impl View for Candidate {
    type V = CandidateView;

    open spec fn view(&self) -> CandidateView {
        CandidateView {
            suggested_name: self.suggested_name@,
            kind: self.kind@,
            cmd: opt_view(self.cmd),
            args: text::views(self.args@),
            cwd: self.cwd@,
            language: self.language@,
            notes: self.notes@,
            available_scripts: text::views(self.available_scripts@),
        }
    }
}

/// What detection reads of a directory.
pub struct DirListing {
    /// The directory's own path.
    pub path: String,
    /// The names of its entries, in the order the file system lists them.
    pub entries: Vec<String>,
    /// The text of its `package.json`, where one could be read.
    pub package_json: Option<String>,
    /// The text of its `pubspec.yaml`, empty where none could be read.
    pub pubspec: String,
    /// Whether `config/environment.rb` exists in it.
    pub rails_environment: bool,
}

pub struct ListingView {
    pub path: Seq<char>,
    pub entries: Seq<Seq<char>>,
    pub package_json: Option<Seq<char>>,
    pub pubspec: Seq<char>,
    pub rails_environment: bool,
}

impl View for DirListing {
    type V = ListingView;

    open spec fn view(&self) -> ListingView {
        ListingView {
            path: self.path@,
            entries: text::views(self.entries@),
            package_json: opt_view(self.package_json),
            pubspec: self.pubspec@,
            rails_environment: self.rails_environment,
        }
    }
}

/// The label of a directory: its own name for the root (`.`), else the last
/// component of its relative path.
pub open spec fn dir_label(path: Seq<char>, rel_dir: Seq<char>, windows: bool) -> Seq<char> {
    if rel_dir == "."@ {
        match paths::file_name(path, windows) {
            Some(n) => n,
            None => "."@,
        }
    } else {
        match paths::file_name(rel_dir, windows) {
            Some(n) => n,
            None => rel_dir,
        }
    }
}

/// The index of the first entry ending in `.csproj` or `.sln`, or the
/// number of entries.
pub open spec fn first_dotnet(entries: Seq<Seq<char>>) -> int
    decreases entries.len(),
{
    if entries.len() == 0 || text::ends_with(entries[0], ".csproj"@) || text::ends_with(
        entries[0],
        ".sln"@,
    ) {
        0
    } else {
        1 + first_dotnet(entries.drop_first())
    }
}

/// A single-command candidate.
pub open spec fn simple(
    name: Seq<char>,
    cmd: Seq<char>,
    args: Seq<Seq<char>>,
    rel_dir: Seq<char>,
    language: Seq<char>,
    notes: Seq<char>,
) -> CandidateView {
    CandidateView {
        suggested_name: name,
        kind: "simple"@,
        cmd: Some(cmd),
        args,
        cwd: rel_dir,
        language,
        notes,
        available_scripts: Seq::empty(),
    }
}

/// The parsed `package.json`, `null` where it is missing or is no JSON.
pub open spec fn package_value(text: Option<Seq<char>>) -> JsonView {
    match text {
        Some(t) => match json::json_parse(t) {
            Some(v) => v,
            None => JsonView::Null,
        },
        None => JsonView::Null,
    }
}

/// The script names of a package: the member names of its `scripts` object.
pub open spec fn package_scripts(pkg: JsonView) -> Seq<Seq<char>> {
    match json::member(pkg, "scripts"@) {
        Some(JsonView::Object(names, _)) => names,
        _ => Seq::empty(),
    }
}

/// The package's `name` where it is a string, else the directory label.
pub open spec fn package_name(pkg: JsonView, label: Seq<char>) -> Seq<char> {
    match json::member(pkg, "name"@) {
        Some(JsonView::Str(n)) => n,
        _ => label,
    }
}

/// `npm` arguments: the first of `dev`, `start`, `serve` that is a script,
/// else the first script, else `start`.
pub open spec fn npm_args(scripts: Seq<Seq<char>>) -> Seq<Seq<char>> {
    if scripts.contains("dev"@) {
        seq!["run"@, "dev"@]
    } else if scripts.contains("start"@) {
        seq!["run"@, "start"@]
    } else if scripts.contains("serve"@) {
        seq!["run"@, "serve"@]
    } else if scripts.len() > 0 {
        seq!["run"@, scripts[0]]
    } else {
        seq!["start"@]
    }
}

pub open spec fn npm_notes(scripts: Seq<Seq<char>>) -> Seq<char> {
    if scripts.len() == 0 {
        "package.json has no scripts defined"@
    } else {
        "package.json scripts: "@ + text::join(scripts, ", "@)
    }
}

/// Whether a `pubspec.yaml` describes a Flutter project.
pub open spec fn is_flutter_pubspec(content: Seq<char>) -> bool {
    text::contains(content, "sdk: flutter"@) || exists|i: int|
        0 <= i < text::lines(content).len() && text::trim(#[trigger] text::lines(content)[i])
            == "flutter:"@
}

/// The project found in a directory, by the first rule that applies.
pub open spec fn detect(l: ListingView, rel_dir: Seq<char>, windows: bool) -> Option<
    CandidateView,
> {
    let label = dir_label(l.path, rel_dir, windows);
    let has = |n: Seq<char>| l.entries.contains(n);
    if has("package.json"@) {
        let pkg = package_value(l.package_json);
        let scripts = package_scripts(pkg);
        Some(
            CandidateView {
                suggested_name: package_name(pkg, label),
                kind: "simple"@,
                cmd: Some("npm"@),
                args: npm_args(scripts),
                cwd: rel_dir,
                language: "node"@,
                notes: npm_notes(scripts),
                available_scripts: scripts,
            },
        )
    } else if first_dotnet(l.entries) < l.entries.len() {
        Some(
            simple(
                label,
                "dotnet"@,
                seq!["run"@],
                rel_dir,
                "dotnet"@,
                "found "@ + l.entries[first_dotnet(l.entries)],
            ),
        )
    } else if has("pubspec.yaml"@) {
        if is_flutter_pubspec(l.pubspec) {
            Some(
                CandidateView {
                    suggested_name: label,
                    kind: "multistep-mobile"@,
                    cmd: None,
                    args: Seq::empty(),
                    cwd: rel_dir,
                    language: "flutter"@,
                    notes: "Flutter project - will prompt for an emulator at setup time"@,
                    available_scripts: Seq::empty(),
                },
            )
        } else {
            Some(simple(label, "dart"@, seq!["run"@], rel_dir, "dart"@, "Dart project"@))
        }
    } else if has("Cargo.toml"@) {
        Some(simple(label, "cargo"@, seq!["run"@], rel_dir, "rust"@, "found Cargo.toml"@))
    } else if has("go.mod"@) {
        Some(simple(label, "go"@, seq!["run"@, "."@], rel_dir, "go"@, "found go.mod"@))
    } else if has("manage.py"@) {
        Some(
            simple(
                label,
                "python"@,
                seq!["manage.py"@, "runserver"@],
                rel_dir,
                "python-django"@,
                "found manage.py (Django guess - please confirm the command)"@,
            ),
        )
    } else if has("pyproject.toml"@) {
        Some(
            simple(
                label,
                "poetry"@,
                seq!["run"@, "start"@],
                rel_dir,
                "python"@,
                "found pyproject.toml (guessed poetry command - please confirm)"@,
            ),
        )
    } else if has("requirements.txt"@) {
        Some(
            simple(
                label,
                "python"@,
                seq!["main.py"@],
                rel_dir,
                "python"@,
                "found requirements.txt (best-guess entry point - please confirm)"@,
            ),
        )
    } else if has("Gemfile"@) {
        Some(
            simple(
                label,
                "bundle"@,
                if l.rails_environment {
                    seq!["exec"@, "rails"@, "server"@]
                } else {
                    seq!["exec"@, "ruby"@, "app.rb"@]
                },
                rel_dir,
                "ruby"@,
                "found Gemfile (please confirm the command)"@,
            ),
        )
    } else if has("gradlew"@) || has("build.gradle"@) || has("build.gradle.kts"@) {
        Some(
            simple(
                label,
                if windows {
                    "gradlew.bat"@
                } else {
                    "./gradlew"@
                },
                seq!["bootRun"@],
                rel_dir,
                "java-gradle"@,
                "found Gradle project (please confirm the task, e.g. bootRun)"@,
            ),
        )
    } else if has("pom.xml"@) {
        Some(
            simple(
                label,
                "mvn"@,
                seq!["spring-boot:run"@],
                rel_dir,
                "java-maven"@,
                "found pom.xml (please confirm the goal)"@,
            ),
        )
    } else {
        None
    }
}

/// Every candidate runs in the directory it was found in; a `simple` one
/// names a command, a `multistep-mobile` one (a Flutter app) names none.
pub proof fn law_candidate_shape(l: ListingView, rel_dir: Seq<char>, windows: bool)
    ensures
        detect(l, rel_dir, windows) matches Some(c) ==> {
            &&& c.cwd == rel_dir
            &&& (c.kind == "simple"@ && c.cmd is Some) || (c.kind == "multistep-mobile"@
                && c.cmd is None && c.language == "flutter"@)
        },
{
}

/// Whether `name` is among `list`.
pub fn has(list: &Vec<String>, name: &str) -> (r: bool)
    ensures
        r == text::views(list@).contains(name@),
{
    let mut i: usize = 0;
    while i < list.len()
        invariant
            i <= list.len(),
            forall|j: int| 0 <= j < i ==> list@[j]@ != name@,
        decreases list.len() - i,
    {
        if text::str_eq(list[i].as_str(), name) {
            assert(text::views(list@)[i as int] == name@);
            return true;
        }
        i = i + 1;
    }
    assert forall|j: int| 0 <= j < text::views(list@).len() implies text::views(list@)[j]
        != name@ by {
        assert(text::views(list@)[j] == list@[j]@);
    }
    false
}

fn strings1(a: &str) -> (r: Vec<String>)
    ensures
        text::views(r@) == seq![a@],
{
    let mut v: Vec<String> = Vec::new();
    v.push(String::from_str(a));
    assert(text::views(v@) =~= seq![a@]);
    v
}

fn strings2(a: &str, b: &str) -> (r: Vec<String>)
    ensures
        text::views(r@) == seq![a@, b@],
{
    let mut v: Vec<String> = Vec::new();
    v.push(String::from_str(a));
    v.push(String::from_str(b));
    assert(text::views(v@) =~= seq![a@, b@]);
    v
}

fn strings3(a: &str, b: &str, c: &str) -> (r: Vec<String>)
    ensures
        text::views(r@) == seq![a@, b@, c@],
{
    let mut v: Vec<String> = Vec::new();
    v.push(String::from_str(a));
    v.push(String::from_str(b));
    v.push(String::from_str(c));
    assert(text::views(v@) =~= seq![a@, b@, c@]);
    v
}

fn simple_candidate(
    name: String,
    cmd: &str,
    args: Vec<String>,
    rel_dir: &str,
    language: &str,
    notes: String,
) -> (c: Candidate)
    ensures
        c@ == simple(name@, cmd@, text::views(args@), rel_dir@, language@, notes@),
{
    let c = Candidate {
        suggested_name: name,
        kind: String::from_str("simple"),
        cmd: Some(String::from_str(cmd)),
        args,
        cwd: String::from_str(rel_dir),
        language: String::from_str(language),
        notes,
        available_scripts: Vec::new(),
    };
    assert(text::views(c.available_scripts@) =~= Seq::<Seq<char>>::empty());
    c
}

fn label_of(path: &str, rel_dir: &str, windows: bool) -> (r: String)
    ensures
        r@ == dir_label(path@, rel_dir@, windows),
{
    if text::str_eq(rel_dir, ".") {
        match paths::file_name_of(path, windows) {
            Some(n) => n,
            None => String::from_str("."),
        }
    } else {
        match paths::file_name_of(rel_dir, windows) {
            Some(n) => n,
            None => String::from_str(rel_dir),
        }
    }
}

fn find_dotnet(entries: &Vec<String>) -> (k: usize)
    ensures
        k == first_dotnet(text::views(entries@)),
        k <= entries.len(),
{
    let ghost es = text::views(entries@);
    let mut k: usize = 0;
    assert(es.skip(0) =~= es);
    while k < entries.len() && !(text::ends_with_str(entries[k].as_str(), ".csproj")
        || text::ends_with_str(entries[k].as_str(), ".sln"))
        invariant
            k <= entries.len(),
            es == text::views(entries@),
            first_dotnet(es) == k + first_dotnet(es.skip(k as int)),
        decreases entries.len() - k,
    {
        assert(es.skip(k as int).drop_first() =~= es.skip(k + 1));
        assert(es.skip(k as int)[0] == entries@[k as int]@);
        k = k + 1;
    }
    if k < entries.len() {
        assert(es.skip(k as int)[0] == entries@[k as int]@);
    } else {
        assert(es.skip(k as int).len() == 0);
    }
    k
}

/// `package.json` as parsed, `null` where it is missing or is no JSON.
fn package_of(text_opt: &Option<String>) -> (v: JsonValue)
    ensures
        v@ == package_value(opt_view(*text_opt)),
{
    match text_opt {
        Some(t) => match json::parse_json(t.as_str()) {
            Some(v) => v,
            None => JsonValue::Null,
        },
        None => JsonValue::Null,
    }
}

fn scripts_of(pkg: &JsonValue) -> (r: Vec<String>)
    ensures
        text::views(r@) == package_scripts(pkg@),
{
    match pkg.get("scripts") {
        Some(s) => match s.object_keys() {
            Some(keys) => keys,
            None => {
                let r: Vec<String> = Vec::new();
                assert(text::views(r@) =~= Seq::<Seq<char>>::empty());
                r
            },
        },
        None => {
            let r: Vec<String> = Vec::new();
            assert(text::views(r@) =~= Seq::<Seq<char>>::empty());
            r
        },
    }
}

fn npm_args_of(scripts: &Vec<String>) -> (r: Vec<String>)
    ensures
        text::views(r@) == npm_args(text::views(scripts@)),
{
    if has(scripts, "dev") {
        strings2("run", "dev")
    } else if has(scripts, "start") {
        strings2("run", "start")
    } else if has(scripts, "serve") {
        strings2("run", "serve")
    } else if scripts.len() > 0 {
        let mut v: Vec<String> = Vec::new();
        v.push(String::from_str("run"));
        v.push(scripts[0].clone());
        assert(text::views(v@) =~= seq!["run"@, text::views(scripts@)[0]]);
        v
    } else {
        strings1("start")
    }
}

fn flutter_pubspec(content: &str) -> (r: bool)
    ensures
        r == is_flutter_pubspec(content@),
{
    if text::contains_str(content, "sdk: flutter") {
        return true;
    }
    let ls = text::lines_of(content);
    let ghost lv = text::views(ls@);
    let mut i: usize = 0;
    while i < ls.len()
        invariant
            i <= ls.len(),
            lv == text::views(ls@),
            lv == text::lines(content@),
            forall|j: int| 0 <= j < i ==> text::trim(lv[j]) != "flutter:"@,
        decreases ls.len() - i,
    {
        let t = text::trim_str(ls[i].as_str());
        if text::str_eq(t.as_str(), "flutter:") {
            assert(text::trim(lv[i as int]) == "flutter:"@);
            return true;
        }
        i = i + 1;
    }
    false
}

/// The project found in a directory, from what was read of it.
pub fn detect_in_dir(listing: &DirListing, rel_dir: &str, windows: bool) -> (r: Option<
    Candidate,
>)
    ensures
        match detect(listing@, rel_dir@, windows) {
            Some(c) => r is Some && r->0@ == c,
            None => r is None,
        },
{
    let label = label_of(listing.path.as_str(), rel_dir, windows);
    let entries = &listing.entries;
    if has(entries, "package.json") {
        let pkg = package_of(&listing.package_json);
        let scripts = scripts_of(&pkg);
        let name = match pkg.get("name") {
            Some(n) => match n.as_str() {
                Some(s) => String::from_str(s),
                None => label,
            },
            None => label,
        };
        let args = npm_args_of(&scripts);
        let notes = if scripts.len() == 0 {
            String::from_str("package.json has no scripts defined")
        } else {
            String::from_str("package.json scripts: ").concat(
                text::join_strings(&scripts, ", ").as_str(),
            )
        };
        return Some(
            Candidate {
                suggested_name: name,
                kind: String::from_str("simple"),
                cmd: Some(String::from_str("npm")),
                args,
                cwd: String::from_str(rel_dir),
                language: String::from_str("node"),
                notes,
                available_scripts: scripts,
            },
        );
    }
    let k = find_dotnet(entries);
    if k < entries.len() {
        let notes = String::from_str("found ").concat(entries[k].as_str());
        return Some(
            simple_candidate(label, "dotnet", strings1("run"), rel_dir, "dotnet", notes),
        );
    }
    if has(entries, "pubspec.yaml") {
        if flutter_pubspec(listing.pubspec.as_str()) {
            let c = Candidate {
                suggested_name: label,
                kind: String::from_str("multistep-mobile"),
                cmd: None,
                args: Vec::new(),
                cwd: String::from_str(rel_dir),
                language: String::from_str("flutter"),
                notes: String::from_str(
                    "Flutter project - will prompt for an emulator at setup time",
                ),
                available_scripts: Vec::new(),
            };
            assert(text::views(c.args@) =~= Seq::<Seq<char>>::empty());
            assert(text::views(c.available_scripts@) =~= Seq::<Seq<char>>::empty());
            return Some(c);
        } else {
            return Some(
                simple_candidate(
                    label,
                    "dart",
                    strings1("run"),
                    rel_dir,
                    "dart",
                    String::from_str("Dart project"),
                ),
            );
        }
    }
    if has(entries, "Cargo.toml") {
        return Some(
            simple_candidate(
                label,
                "cargo",
                strings1("run"),
                rel_dir,
                "rust",
                String::from_str("found Cargo.toml"),
            ),
        );
    }
    if has(entries, "go.mod") {
        return Some(
            simple_candidate(
                label,
                "go",
                strings2("run", "."),
                rel_dir,
                "go",
                String::from_str("found go.mod"),
            ),
        );
    }
    if has(entries, "manage.py") {
        return Some(
            simple_candidate(
                label,
                "python",
                strings2("manage.py", "runserver"),
                rel_dir,
                "python-django",
                String::from_str("found manage.py (Django guess - please confirm the command)"),
            ),
        );
    }
    if has(entries, "pyproject.toml") {
        return Some(
            simple_candidate(
                label,
                "poetry",
                strings2("run", "start"),
                rel_dir,
                "python",
                String::from_str("found pyproject.toml (guessed poetry command - please confirm)"),
            ),
        );
    }
    if has(entries, "requirements.txt") {
        return Some(
            simple_candidate(
                label,
                "python",
                strings1("main.py"),
                rel_dir,
                "python",
                String::from_str(
                    "found requirements.txt (best-guess entry point - please confirm)",
                ),
            ),
        );
    }
    if has(entries, "Gemfile") {
        let args = if listing.rails_environment {
            strings3("exec", "rails", "server")
        } else {
            strings3("exec", "ruby", "app.rb")
        };
        return Some(
            simple_candidate(
                label,
                "bundle",
                args,
                rel_dir,
                "ruby",
                String::from_str("found Gemfile (please confirm the command)"),
            ),
        );
    }
    if has(entries, "gradlew") || has(entries, "build.gradle") || has(entries, "build.gradle.kts") {
        let cmd = if windows {
            "gradlew.bat"
        } else {
            "./gradlew"
        };
        return Some(
            simple_candidate(
                label,
                cmd,
                strings1("bootRun"),
                rel_dir,
                "java-gradle",
                String::from_str("found Gradle project (please confirm the task, e.g. bootRun)"),
            ),
        );
    }
    if has(entries, "pom.xml") {
        return Some(
            simple_candidate(
                label,
                "mvn",
                strings1("spring-boot:run"),
                rel_dir,
                "java-maven",
                String::from_str("found pom.xml (please confirm the goal)"),
            ),
        );
    }
    None
}

/// Directories never looked into for projects.
pub open spec fn ignore_dirs() -> Seq<Seq<char>> {
    seq![
        "node_modules"@,
        ".git"@,
        "bin"@,
        "obj"@,
        "dist"@,
        "build"@,
        ".idea"@,
        ".vscode"@,
        "target"@,
        "__pycache__"@,
        ".venv"@,
        "venv"@,
    ]
}

/// Whether a subdirectory of the root is left out of the scan: it is one of
/// `ignore_dirs` or its name starts with a dot.
pub open spec fn skipped_dir(name: Seq<char>) -> bool {
    ignore_dirs().contains(name) || (name.len() > 0 && name[0] == '.')
}

/// Whether the subdirectory `name` of the root is scanned.
pub fn scans_subdir(name: &str) -> (r: bool)
    ensures
        r == !skipped_dir(name@),
{
    let mut ignore: Vec<String> = Vec::new();
    ignore.push(String::from_str("node_modules"));
    ignore.push(String::from_str(".git"));
    ignore.push(String::from_str("bin"));
    ignore.push(String::from_str("obj"));
    ignore.push(String::from_str("dist"));
    ignore.push(String::from_str("build"));
    ignore.push(String::from_str(".idea"));
    ignore.push(String::from_str(".vscode"));
    ignore.push(String::from_str("target"));
    ignore.push(String::from_str("__pycache__"));
    ignore.push(String::from_str(".venv"));
    ignore.push(String::from_str("venv"));
    assert(text::views(ignore@) =~= ignore_dirs());
    if has(&ignore, name) {
        return false;
    }
    let v = text::chars_of(name);
    !(v.len() > 0 && v[0] == '.')
}

/// A subdirectory of the scanned root: its name and what it holds.
pub struct Subdir {
    pub name: String,
    pub listing: DirListing,
}

/// The candidates found in the scanned subdirectories, in order.
pub open spec fn detect_subdirs(subs: Seq<Subdir>, windows: bool) -> Seq<CandidateView>
    decreases subs.len(),
{
    if subs.len() == 0 {
        Seq::empty()
    } else {
        let last = subs.last();
        let found = if skipped_dir(last.name@) {
            None
        } else {
            detect(last.listing@, last.name@, windows)
        };
        detect_subdirs(subs.drop_last(), windows) + match found {
            Some(c) => seq![c],
            None => Seq::empty(),
        }
    }
}

/// The candidates of the root and then of each scanned subdirectory.
pub open spec fn detect_all(root: ListingView, subs: Seq<Subdir>, windows: bool) -> Seq<
    CandidateView,
> {
    let own = match detect(root, "."@, windows) {
        Some(c) => seq![c],
        None => Seq::empty(),
    };
    own + detect_subdirs(subs, windows)
}

pub open spec fn candidate_views(cs: Seq<Candidate>) -> Seq<CandidateView> {
    cs.map_values(|c: Candidate| c@)
}

/// The projects found in a root directory and its direct subdirectories,
/// from what was read of them.
pub fn detect_frameworks(root: &DirListing, subdirs: &Vec<Subdir>, windows: bool) -> (r: Vec<
    Candidate,
>)
    ensures
        candidate_views(r@) == detect_all(root@, subdirs@, windows),
{
    let mut out: Vec<Candidate> = Vec::new();
    match detect_in_dir(root, ".", windows) {
        Some(c) => out.push(c),
        None => {},
    }
    let ghost own = candidate_views(out@);
    assert(own =~= match detect(root@, "."@, windows) {
        Some(c) => seq![c],
        None => Seq::empty(),
    });
    let mut i: usize = 0;
    assert(subdirs@.take(0) =~= Seq::<Subdir>::empty());
    assert(own + detect_subdirs(subdirs@.take(0), windows) =~= own);
    while i < subdirs.len()
        invariant
            i <= subdirs.len(),
            candidate_views(out@) == own + detect_subdirs(subdirs@.take(i as int), windows),
        decreases subdirs.len() - i,
    {
        let sub = &subdirs[i];
        let ghost before = candidate_views(out@);
        assert(subdirs@.take(i + 1).drop_last() =~= subdirs@.take(i as int));
        assert(subdirs@.take(i + 1).last() == subdirs@[i as int]);
        if scans_subdir(sub.name.as_str()) {
            match detect_in_dir(&sub.listing, sub.name.as_str(), windows) {
                Some(c) => {
                    out.push(c);
                    assert(candidate_views(out@) =~= before.push(out@.last()@));
                },
                None => {},
            }
        }
        assert(candidate_views(out@) =~= own + detect_subdirs(subdirs@.take(i + 1), windows));
        i = i + 1;
    }
    assert(subdirs@.take(i as int) =~= subdirs@);
    out
}


proof fn lemma_no_dotnet(entries: Seq<Seq<char>>)
    requires
        forall|i: int|
            0 <= i < entries.len() ==> !text::ends_with(#[trigger] entries[i], ".csproj"@)
                && !text::ends_with(entries[i], ".sln"@),
    ensures
        first_dotnet(entries) == entries.len(),
    decreases entries.len(),
{
    if entries.len() > 0 {
        assert(!text::ends_with(entries[0], ".csproj"@));
        assert forall|i: int| 0 <= i < entries.drop_first().len() implies !text::ends_with(
            #[trigger] entries.drop_first()[i],
            ".csproj"@,
        ) && !text::ends_with(entries.drop_first()[i], ".sln"@) by {
            assert(entries.drop_first()[i] == entries[i + 1]);
        }
        lemma_no_dotnet(entries.drop_first());
    }
}

/// A Ruby project (a `Gemfile`, and none of the files that the rules before
/// it look for) is run with `bundle exec`: as a Rails server exactly where
/// `config/environment.rb` exists, else as `ruby app.rb`.
pub proof fn law_ruby_command(l: ListingView, rel_dir: Seq<char>, windows: bool)
    requires
        l.entries.contains("Gemfile"@),
        !l.entries.contains("package.json"@),
        !l.entries.contains("pubspec.yaml"@),
        !l.entries.contains("Cargo.toml"@),
        !l.entries.contains("go.mod"@),
        !l.entries.contains("manage.py"@),
        !l.entries.contains("pyproject.toml"@),
        !l.entries.contains("requirements.txt"@),
        forall|i: int|
            0 <= i < l.entries.len() ==> !text::ends_with(#[trigger] l.entries[i], ".csproj"@)
                && !text::ends_with(l.entries[i], ".sln"@),
    ensures
        detect(l, rel_dir, windows) is Some,
        detect(l, rel_dir, windows)->0.cmd == Some("bundle"@),
        detect(l, rel_dir, windows)->0.language == "ruby"@,
        l.rails_environment <==> detect(l, rel_dir, windows)->0.args == seq![
            "exec"@,
            "rails"@,
            "server"@,
        ],
        !l.rails_environment <==> detect(l, rel_dir, windows)->0.args == seq![
            "exec"@,
            "ruby"@,
            "app.rb"@,
        ],
{
    lemma_no_dotnet(l.entries);
    reveal_strlit("rails");
    reveal_strlit("ruby");
    let rails = seq!["exec"@, "rails"@, "server"@];
    let ruby = seq!["exec"@, "ruby"@, "app.rb"@];
    assert("rails"@[1] != "ruby"@[1]);
    assert(rails[1] != ruby[1]);
    assert(rails != ruby);
}

} // verus!
