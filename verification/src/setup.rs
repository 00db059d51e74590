//! The setup wizard's dialogue about one process: the questions it asks, one
//! at a time, and how each answer moves it on, up to the process
//! configuration the answers make (or none, where the process is left out).
use vstd::prelude::*;
use crate::config::{ProcessConfig, ReadyWhen};
use crate::detect::{has, Candidate, CandidateView};
use crate::text;
use crate::wizard::{
    delay_seconds, emulator_label, flutter_config, flutter_process, name_list, parse_depends,
    parse_port, simple_config, simple_process, split_command, split_line, Emulator,
};

verus! {

/// Where the dialogue stands: the question it asks next, or `Done`.
#[derive(PartialEq, Eq, Structural, Clone, Copy)]
pub enum Stage {
    Include,
    Name,
    Rename,
    Cwd,
    Emulators,
    PickEmulator,
    EmulatorId,
    Script,
    Command,
    Port,
    Color,
    Depends,
    WantsReady,
    ReadyKind,
    Pattern,
    Url,
    Seconds,
    Done,
}

/// What is asked of the user.
pub enum Prompt {
    /// A yes/no question, with the answer taken on a blank line.
    YesNo { question: String, default_answer: bool },
    /// A line of text, with the answer taken on a blank line.
    Text { question: String, default_answer: String },
    /// A pick from a numbered list.
    Pick { question: String, items: Vec<String> },
    /// No question: the Flutter emulators are to be listed.
    ListEmulators,
}

/// A question, and the lines printed before it.
pub struct Question {
    pub notice: Vec<String>,
    pub prompt: Prompt,
}

/// The answer to a question.
pub enum Reply {
    YesNo(bool),
    /// The line answered, or the default where it was blank.
    Text(String),
    /// The index of the item picked.
    Pick(usize),
    Emulators(Vec<Emulator>),
}

/// The dialogue about one process: a detected project (`candidate`), or a
/// process of the user's own (`candidate` is `None`).
pub struct Setup {
    pub candidate: Option<Candidate>,
    /// The number offered after a name that is taken.
    pub index: usize,
    /// The names of the processes configured before this one.
    pub existing: Vec<String>,
    pub stage: Stage,
    pub name: String,
    pub cwd: String,
    /// The arguments suggested for the command.
    pub args: Vec<String>,
    pub emulators: Vec<Emulator>,
    /// The process configured so far; at `Done`, the result.
    pub process: Option<ProcessConfig>,
}

/// A question as plain values.
pub enum Asked {
    YesNo(Seq<char>, bool),
    Text(Seq<char>, Seq<char>),
    Pick(Seq<char>, Seq<Seq<char>>),
    ListEmulators,
}

pub open spec fn prompt_view(p: Prompt) -> Asked {
    match p {
        Prompt::YesNo { question, default_answer } => Asked::YesNo(question@, default_answer),
        Prompt::Text { question, default_answer } => Asked::Text(question@, default_answer@),
        Prompt::Pick { question, items } => Asked::Pick(question@, text::views(items@)),
        Prompt::ListEmulators => Asked::ListEmulators,
    }
}

pub open spec fn question_view(q: Question) -> (Seq<Seq<char>>, Asked) {
    (text::views(q.notice@), prompt_view(q.prompt))
}

/// The lines that introduce a detected project.
pub open spec fn intro(c: CandidateView) -> Seq<Seq<char>> {
    seq!["\nDetected: "@ + c.language + " project in \""@ + c.cwd + "\""@] + if c.notes.len() > 0 {
        seq!["  "@ + c.notes]
    } else {
        Seq::empty()
    }
}

/// How the emulators are offered.
pub open spec fn emulator_labels(es: Seq<Emulator>) -> Seq<Seq<char>> {
    es.map_values(|e: Emulator| e.name@ + " ("@ + e.id@ + ")"@)
}

/// The ways readiness can be detected, in the order offered.
pub open spec fn readiness_options() -> Seq<Seq<char>> {
    seq![
        "A line of output matches a pattern"@,
        "An HTTP endpoint responds OK"@,
        "Just wait a fixed number of seconds"@,
    ]
}

/// The names listed in the `depends on` question.
pub open spec fn names_listed(existing: Seq<Seq<char>>) -> Seq<char> {
    if existing.len() == 0 {
        "none"@
    } else {
        text::join(existing, ", "@)
    }
}

/// The command line offered for a detected project.
pub open spec fn offered_line(c: CandidateView, args: Seq<Seq<char>>) -> Seq<char> {
    crate::wizard::default_line(
        match c.cmd {
            Some(x) => x,
            None => Seq::empty(),
        },
        args,
    )
}

/// The question asked at each stage.
pub open spec fn asked(s: Setup) -> (Seq<Seq<char>>, Asked) {
    let c = s.candidate.unwrap()@;
    let none = Seq::<Seq<char>>::empty();
    match s.stage {
        Stage::Include => (intro(c), Asked::YesNo("Include \""@ + c.suggested_name + "\"?"@, true)),
        Stage::Name => (
            none,
            Asked::Text(
                "  Name:"@,
                if s.candidate is Some {
                    c.suggested_name
                } else {
                    "custom-"@ + text::decimal(s.index as nat)
                },
            ),
        ),
        Stage::Rename => (
            none,
            Asked::Text(
                "  \""@ + s.name@ + "\" is already used. Pick another name:"@,
                s.name@ + "-"@ + text::decimal(s.index as nat),
            ),
        ),
        Stage::Cwd => (
            none,
            Asked::Text(
                "  Working directory (relative to project root):"@,
                if s.candidate is Some {
                    c.cwd
                } else {
                    "."@
                },
            ),
        ),
        Stage::Emulators => (none, Asked::ListEmulators),
        Stage::PickEmulator => (
            none,
            Asked::Pick("Available Flutter emulators:"@, emulator_labels(s.emulators@)),
        ),
        Stage::EmulatorId => (
            seq![
                "  No emulators found via `flutter emulators` - you can edit tui.config.json later."@,
            ],
            Asked::Text("  Emulator id to launch:"@, Seq::empty()),
        ),
        Stage::Script => (
            none,
            Asked::Pick("  Which npm script should this run?"@, c.available_scripts),
        ),
        Stage::Command => (
            none,
            Asked::Text(
                "  Command to run:"@,
                if s.candidate is Some {
                    offered_line(c, text::views(s.args@))
                } else {
                    Seq::empty()
                },
            ),
        ),
        Stage::Port => (
            none,
            Asked::Text("  Port to free before starting (blank = none):"@, Seq::empty()),
        ),
        Stage::Color => (none, Asked::Text("  Pane color (blank = auto):"@, Seq::empty())),
        Stage::Depends => (
            none,
            Asked::Text(
                "  Depends on (comma-separated names, currently: "@ + names_listed(
                    text::views(s.existing@),
                ) + "; blank = none):"@,
                Seq::empty(),
            ),
        ),
        Stage::WantsReady => (
            none,
            Asked::YesNo(
                "  Should other processes be able to wait for this one to be ready?"@,
                false,
            ),
        ),
        Stage::ReadyKind => (
            none,
            Asked::Pick("  How should readiness be detected?"@, readiness_options()),
        ),
        Stage::Pattern => (
            none,
            Asked::Text("  Regex pattern to watch for in the output:"@, "ready|listening"@),
        ),
        Stage::Url => (none, Asked::Text("  URL to poll:"@, "http://localhost:3000"@)),
        Stage::Seconds => (none, Asked::Text("  Seconds to wait:"@, "5"@)),
        Stage::Done => (none, Asked::ListEmulators),
    }
}

/// The stages at which the process has been built.
pub open spec fn built(st: Stage) -> bool {
    st == Stage::Port || st == Stage::Color || st == Stage::Depends || st == Stage::WantsReady
        || st == Stage::ReadyKind || st == Stage::Pattern || st == Stage::Url || st
        == Stage::Seconds
}

/// The stages that only a detected project reaches.
pub open spec fn detected_only(st: Stage) -> bool {
    st == Stage::Include || st == Stage::Emulators || st == Stage::PickEmulator || st
        == Stage::EmulatorId || st == Stage::Script || st == Stage::Color || st == Stage::Depends
        || st == Stage::WantsReady || st == Stage::ReadyKind || st == Stage::Pattern || st
        == Stage::Url || st == Stage::Seconds
}

impl Setup {
    /// What holds of the dialogue at every stage.
    pub open spec fn wf(self) -> bool {
        &&& self.candidate is None ==> !detected_only(self.stage)
        &&& self.stage == Stage::PickEmulator ==> self.emulators.len() > 0
        &&& self.stage == Stage::Script ==> self.candidate.unwrap().available_scripts.len() > 1
        &&& built(self.stage) ==> self.process is Some
        &&& !built(self.stage) && self.stage != Stage::Done ==> self.process is None
        &&& self.process matches Some(p) ==> p.name@ == self.name@
        &&& self.stage == Stage::Done ==> (self.process is Some || self.candidate is Some)
        &&& (built(self.stage) || self.stage == Stage::Cwd || self.stage == Stage::Emulators
            || self.stage == Stage::PickEmulator || self.stage == Stage::EmulatorId || self.stage
            == Stage::Script || self.stage == Stage::Command || self.process is Some)
            ==> !text::views(self.existing@).contains(self.name@)
    }
}

/// The port an answer gives (`u16` parse).
pub open spec fn port_of(answer: Seq<char>) -> Option<u16> {
    match text::parse_unsigned(answer, 65535) {
        Some(p) => Some(p as u16),
        None => None,
    }
}

/// Whether `r` is an answer to the question asked at `s`'s stage.
pub open spec fn answers(s: Setup, r: Reply) -> bool {
    match s.stage {
        Stage::Include => r is YesNo,
        Stage::WantsReady => r is YesNo,
        Stage::Emulators => r is Emulators,
        Stage::PickEmulator => r matches Reply::Pick(i) && i < s.emulators.len(),
        Stage::Script => r matches Reply::Pick(i) && i < s.candidate.unwrap().available_scripts.len(),
        Stage::ReadyKind => r matches Reply::Pick(i) && i < 3,
        Stage::Seconds => r matches Reply::Text(x) && delay_seconds(x@) * 1000 <= u64::MAX,
        Stage::Done => false,
        _ => r is Text,
    }
}

/// The stage after the working directory: the emulators of a Flutter app,
/// the script of a project with several, else the command.
pub open spec fn after_cwd(c: Option<Candidate>) -> Stage {
    match c {
        Some(c) => if c.kind@ == "multistep-mobile"@ {
            Stage::Emulators
        } else if c.available_scripts.len() > 1 {
            Stage::Script
        } else {
            Stage::Command
        },
        None => Stage::Command,
    }
}

/// The command used where the command line answered is blank.
pub open spec fn fallback_command(c: Option<Candidate>) -> Seq<char> {
    if c is Some {
        ""@
    } else {
        "echo"@
    }
}

/// `t` is `s` moved on to `st` with the process `t.process`, which is set.
pub open spec fn built_into(s: Setup, t: Setup, st: Stage) -> bool {
    &&& t.process is Some
    &&& t == (Setup { stage: st, process: t.process, ..s })
}

/// `t` is `s` moved on to `st`, with the process `q`.
pub open spec fn process_set(s: Setup, t: Setup, st: Stage, q: ProcessConfig) -> bool {
    t == (Setup { stage: st, process: Some(q), ..s })
}

/// How the answer `r` to the question asked at `s` moves the dialogue on
/// to `t`.
pub open spec fn step(s: Setup, r: Reply, t: Setup) -> bool {
    let p = s.process.unwrap();
    match (s.stage, r) {
        (Stage::Include, Reply::YesNo(b)) => t == (Setup {
            stage: if b {
                Stage::Name
            } else {
                Stage::Done
            },
            ..s
        }),
        (Stage::Name, Reply::Text(x)) => t == (Setup {
            stage: if text::views(s.existing@).contains(x@) {
                Stage::Rename
            } else {
                Stage::Cwd
            },
            name: x,
            ..s
        }),
        (Stage::Rename, Reply::Text(x)) => t == (Setup {
            stage: if text::views(s.existing@).contains(x@) {
                Stage::Rename
            } else {
                Stage::Cwd
            },
            name: x,
            ..s
        }),
        (Stage::Cwd, Reply::Text(x)) => t == (Setup { stage: after_cwd(s.candidate), cwd: x, ..s }),
        (Stage::Emulators, Reply::Emulators(es)) => t == (Setup {
            stage: if es.len() > 0 {
                Stage::PickEmulator
            } else {
                Stage::EmulatorId
            },
            emulators: es,
            ..s
        }),
        (Stage::PickEmulator, Reply::Pick(i)) => built_into(s, t, Stage::Port) && flutter_config(
            t.process.unwrap(),
            s.name@,
            s.cwd@,
            s.emulators@[i as int].id@,
        ),
        (Stage::EmulatorId, Reply::Text(x)) => built_into(s, t, Stage::Port) && flutter_config(
            t.process.unwrap(),
            s.name@,
            s.cwd@,
            x@,
        ),
        (Stage::Script, Reply::Pick(i)) => t == (Setup { stage: Stage::Command, args: t.args, ..s })
            && text::views(t.args@) == seq![
            "run"@,
            s.candidate.unwrap().available_scripts@[i as int]@,
        ],
        (Stage::Command, Reply::Text(x)) => {
            let (cmd, args) = split_line(x@, fallback_command(s.candidate));
            built_into(s, t, Stage::Port) && simple_config(
                t.process.unwrap(),
                s.name@,
                cmd,
                args,
                s.cwd@,
            )
        },
        (Stage::Port, Reply::Text(x)) => process_set(
            s,
            t,
            if s.candidate is Some {
                Stage::Color
            } else {
                Stage::Done
            },
            if x@.len() == 0 {
                p
            } else {
                ProcessConfig { port: port_of(x@), ..p }
            },
        ),
        (Stage::Color, Reply::Text(x)) => process_set(
            s,
            t,
            Stage::Depends,
            if x@.len() == 0 {
                p
            } else {
                ProcessConfig { color: Some(x), ..p }
            },
        ),
        (Stage::Depends, Reply::Text(x)) => if x@.len() == 0 {
            t == (Setup { stage: Stage::WantsReady, ..s })
        } else {
            let q = t.process.unwrap();
            &&& process_set(s, t, Stage::WantsReady, q)
            &&& q == (ProcessConfig { depends_on: q.depends_on, ..p })
            &&& text::views(q.depends_on@) == name_list(text::split_on(x@, ','))
        },
        (Stage::WantsReady, Reply::YesNo(b)) => t == (Setup {
            stage: if b {
                Stage::ReadyKind
            } else {
                Stage::Done
            },
            ..s
        }),
        (Stage::ReadyKind, Reply::Pick(i)) => t == (Setup {
            stage: if i == 0 {
                Stage::Pattern
            } else if i == 1 {
                Stage::Url
            } else {
                Stage::Seconds
            },
            ..s
        }),
        (Stage::Pattern, Reply::Text(x)) => {
            let q = t.process.unwrap();
            &&& process_set(s, t, Stage::Done, q)
            &&& q == (ProcessConfig { ready_when: q.ready_when, ..p })
            &&& q.ready_when matches Some(ReadyWhen::Regex { pattern, flags: Some(f) })
            &&& pattern == x
            &&& f@ == "i"@
        },
        (Stage::Url, Reply::Text(x)) => process_set(
            s,
            t,
            Stage::Done,
            ProcessConfig {
                ready_when: Some(
                    ReadyWhen::Http { url: x, timeout_ms: Some(60000), interval_ms: Some(1000) },
                ),
                ..p
            },
        ),
        (Stage::Seconds, Reply::Text(x)) => process_set(
            s,
            t,
            Stage::Done,
            ProcessConfig {
                ready_when: Some(ReadyWhen::Delay { ms: (delay_seconds(x@) * 1000) as u64 }),
                ..p
            },
        ),
        _ => false,
    }
}

/// A process the dialogue has finished with is named unlike every process
/// configured before it.
pub proof fn law_new_name(s: Setup)
    requires
        s.wf(),
        s.stage == Stage::Done,
        s.process is Some,
    ensures
        !text::views(s.existing@).contains(s.process.unwrap().name@),
{
}

/// An answer never changes what the dialogue is about: the project, the
/// number offered after a taken name, and the names taken.
pub proof fn law_subject_kept(s: Setup, r: Reply, t: Setup)
    requires
        step(s, r, t),
    ensures
        t.candidate == s.candidate,
        t.index == s.index,
        t.existing == s.existing,
{
}

/// The names of the processes configured so far.
pub open spec fn names(ps: Seq<ProcessConfig>) -> Seq<Seq<char>> {
    ps.map_values(|p: ProcessConfig| p.name@)
}

pub fn names_of(ps: &Vec<ProcessConfig>) -> (r: Vec<String>)
    ensures
        text::views(r@) == names(ps@),
{
    let mut out: Vec<String> = Vec::new();
    let mut i: usize = 0;
    while i < ps.len()
        invariant
            i <= ps.len(),
            text::views(out@) == names(ps@.take(i as int)),
        decreases ps.len() - i,
    {
        let ghost before = text::views(out@);
        out.push(ps[i].name.clone());
        assert(names(ps@.take(i + 1)) =~= names(ps@.take(i as int)).push(ps@[i as int].name@));
        assert(text::views(out@) =~= before.push(ps@[i as int].name@));
        i = i + 1;
    }
    assert(ps@.take(i as int) =~= ps@);
    out
}

/// The colour a process added as the `n`-th gets: its own, or else the
/// palette's `n`-th (in turn).
pub open spec fn color_given(p: ProcessConfig, n: nat) -> Seq<char> {
    match p.color {
        Some(c) => c@,
        None => crate::ui::palette()[(n % 7) as int],
    }
}

/// Adds a configured process to the list; one that names no colour gets
/// the palette's next.
pub fn add_process(ps: &mut Vec<ProcessConfig>, p: ProcessConfig)
    ensures
        final(ps)@.len() == old(ps)@.len() + 1,
        final(ps)@.take(old(ps)@.len() as int) == old(ps)@,
        final(ps)@.last() == (ProcessConfig { color: final(ps)@.last().color, ..p }),
        final(ps)@.last().color matches Some(c) && c@ == color_given(p, old(ps)@.len()),
{
    let mut p = p;
    if p.color.is_none() {
        p.color = Some(crate::wizard::default_color(ps.len()));
    }
    let ghost before = ps@;
    ps.push(p);
    assert(ps@.take(before.len() as int) =~= before);
}

/// The wizard's processes have distinct names: adding (`add_process`) the
/// process that a finished dialogue made, asked after the names of `ps`
/// (`names_of`), to processes of distinct names gives processes of distinct
/// names.
pub proof fn law_names_distinct(ps: Seq<ProcessConfig>, s: Setup, qs: Seq<ProcessConfig>)
    requires
        names(ps).no_duplicates(),
        s.wf(),
        s.stage == Stage::Done,
        s.process is Some,
        text::views(s.existing@) == names(ps),
        qs.len() == ps.len() + 1,
        qs.take(ps.len() as int) == ps,
        qs.last().name == s.process.unwrap().name,
    ensures
        names(qs).no_duplicates(),
{
    let p = s.process.unwrap();
    law_new_name(s);
    assert(names(qs) =~= names(ps).push(p.name@));
    assert forall|i: int, j: int|
        0 <= i < names(qs).len() && 0 <= j < names(qs).len() && i != j implies names(qs)[i]
        != names(qs)[j] by {
        if i < ps.len() && j < ps.len() {
            assert(names(qs)[i] == names(ps)[i]);
            assert(names(qs)[j] == names(ps)[j]);
        } else if i < ps.len() {
            assert(names(qs)[i] == names(ps)[i]);
        } else if j < ps.len() {
            assert(names(qs)[j] == names(ps)[j]);
        }
    }
}

fn copy_strings(v: &Vec<String>) -> (r: Vec<String>)
    ensures
        r@ == v@,
{
    let mut out: Vec<String> = Vec::new();
    let mut i: usize = 0;
    while i < v.len()
        invariant
            i <= v.len(),
            out@ == v@.take(i as int),
        decreases v.len() - i,
    {
        out.push(v[i].clone());
        assert(out@ =~= v@.take(i + 1));
        i = i + 1;
    }
    assert(v@.take(i as int) =~= v@);
    out
}

impl Setup {
    /// The dialogue about a detected project, the `index`-th, after the
    /// processes named `existing`.
    pub fn for_candidate(candidate: Candidate, index: usize, existing: Vec<String>) -> (s: Setup)
        ensures
            s.wf(),
            s.candidate == Some(candidate),
            s.index == index,
            s.existing == existing,
            s.stage == Stage::Include,
            s.args@ == candidate.args@,
            s.emulators.len() == 0,
            s.process is None,
    {
        let args = copy_strings(&candidate.args);
        Setup {
            candidate: Some(candidate),
            index,
            existing,
            stage: Stage::Include,
            name: String::new(),
            cwd: String::new(),
            args,
            emulators: Vec::new(),
            process: None,
        }
    }

    /// The dialogue about a process of the user's own, the `index`-th, after
    /// the processes named `existing`.
    pub fn custom(index: usize, existing: Vec<String>) -> (s: Setup)
        ensures
            s.wf(),
            s.candidate is None,
            s.index == index,
            s.existing == existing,
            s.stage == Stage::Name,
            s.args.len() == 0,
            s.emulators.len() == 0,
            s.process is None,
    {
        Setup {
            candidate: None,
            index,
            existing,
            stage: Stage::Name,
            name: String::new(),
            cwd: String::new(),
            args: Vec::new(),
            emulators: Vec::new(),
            process: None,
        }
    }
}

fn lines0() -> (r: Vec<String>)
    ensures
        text::views(r@) == Seq::<Seq<char>>::empty(),
{
    let r: Vec<String> = Vec::new();
    assert(text::views(r@) =~= Seq::<Seq<char>>::empty());
    r
}

fn line1(a: String) -> (r: Vec<String>)
    ensures
        text::views(r@) == seq![a@],
{
    let mut r: Vec<String> = Vec::new();
    r.push(a);
    assert(text::views(r@) =~= seq![a@]);
    r
}

fn text_question(question: &str, default: String) -> (q: Question)
    ensures
        question_view(q) == (Seq::<Seq<char>>::empty(), Asked::Text(question@, default@)),
{
    Question {
        notice: lines0(),
        prompt: Prompt::Text { question: String::from_str(question), default_answer: default },
    }
}

fn labels(es: &Vec<Emulator>) -> (r: Vec<String>)
    ensures
        text::views(r@) == emulator_labels(es@),
{
    let mut out: Vec<String> = Vec::new();
    let mut i: usize = 0;
    while i < es.len()
        invariant
            i <= es.len(),
            text::views(out@) == emulator_labels(es@.take(i as int)),
        decreases es.len() - i,
    {
        let ghost before = text::views(out@);
        out.push(emulator_label(&es[i]));
        assert(emulator_labels(es@.take(i + 1)) =~= emulator_labels(es@.take(i as int)).push(
            es@[i as int].name@ + " ("@ + es@[i as int].id@ + ")"@,
        ));
        assert(text::views(out@) =~= before.push(
            es@[i as int].name@ + " ("@ + es@[i as int].id@ + ")"@,
        ));
        i = i + 1;
    }
    assert(es@.take(i as int) =~= es@);
    out
}

fn options() -> (r: Vec<String>)
    ensures
        text::views(r@) == readiness_options(),
{
    let mut r: Vec<String> = Vec::new();
    r.push(String::from_str("A line of output matches a pattern"));
    r.push(String::from_str("An HTTP endpoint responds OK"));
    r.push(String::from_str("Just wait a fixed number of seconds"));
    assert(text::views(r@) =~= readiness_options());
    r
}

impl Setup {
    /// The question to ask next.
    pub fn question(&self) -> (q: Question)
        requires
            self.wf(),
            self.stage != Stage::Done,
        ensures
            question_view(q) == asked(*self),
    {
        match self.stage {
            Stage::Include => {
                let c = match &self.candidate {
                    Some(c) => c,
                    None => {
                        return text_question("", String::new());
                    },
                };
                let mut notice = line1(
                    String::from_str("\nDetected: ").concat(c.language.as_str()).concat(
                        " project in \"",
                    ).concat(c.cwd.as_str()).concat("\""),
                );
                if !text::is_empty(c.notes.as_str()) {
                    let ghost before = text::views(notice@);
                    notice.push(String::from_str("  ").concat(c.notes.as_str()));
                    assert(text::views(notice@) =~= before.push("  "@ + c.notes@));
                } else {
                    assert(text::views(notice@) =~= intro(c@));
                }
                Question {
                    notice,
                    prompt: Prompt::YesNo {
                        question: String::from_str("Include \"").concat(
                            c.suggested_name.as_str(),
                        ).concat("\"?"),
                        default_answer: true,
                    },
                }
            },
            Stage::Name => {
                let default = match &self.candidate {
                    Some(c) => c.suggested_name.clone(),
                    None => String::from_str("custom-").concat(
                        text::decimal_string(self.index as u64).as_str(),
                    ),
                };
                text_question("  Name:", default)
            },
            Stage::Rename => text_question(
                String::from_str("  \"").concat(self.name.as_str()).concat(
                    "\" is already used. Pick another name:",
                ).as_str(),
                crate::wizard::renamed(self.name.as_str(), self.index),
            ),
            Stage::Cwd => {
                let default = match &self.candidate {
                    Some(c) => c.cwd.clone(),
                    None => String::from_str("."),
                };
                text_question("  Working directory (relative to project root):", default)
            },
            Stage::Emulators => Question { notice: lines0(), prompt: Prompt::ListEmulators },
            Stage::PickEmulator => Question {
                notice: lines0(),
                prompt: Prompt::Pick {
                    question: String::from_str("Available Flutter emulators:"),
                    items: labels(&self.emulators),
                },
            },
            Stage::EmulatorId => {
                let q = text_question("  Emulator id to launch:", String::new());
                Question {
                    notice: line1(
                        String::from_str(
                            "  No emulators found via `flutter emulators` - you can edit tui.config.json later.",
                        ),
                    ),
                    prompt: q.prompt,
                }
            },
            Stage::Script => {
                let items = match &self.candidate {
                    Some(c) => copy_strings(&c.available_scripts),
                    None => Vec::new(),
                };
                Question {
                    notice: lines0(),
                    prompt: Prompt::Pick {
                        question: String::from_str("  Which npm script should this run?"),
                        items,
                    },
                }
            },
            Stage::Command => {
                let default = match &self.candidate {
                    Some(c) => {
                        let cmd = match &c.cmd {
                            Some(x) => x.clone(),
                            None => String::new(),
                        };
                        crate::wizard::default_command_line(cmd.as_str(), &self.args)
                    },
                    None => String::new(),
                };
                text_question("  Command to run:", default)
            },
            Stage::Port => text_question(
                "  Port to free before starting (blank = none):",
                String::new(),
            ),
            Stage::Color => text_question("  Pane color (blank = auto):", String::new()),
            Stage::Depends => {
                let listed = if self.existing.len() == 0 {
                    String::from_str("none")
                } else {
                    text::join_strings(&self.existing, ", ")
                };
                assert(self.existing.len() == 0 ==> text::views(self.existing@).len() == 0);
                text_question(
                    String::from_str("  Depends on (comma-separated names, currently: ").concat(
                        listed.as_str(),
                    ).concat("; blank = none):").as_str(),
                    String::new(),
                )
            },
            Stage::WantsReady => Question {
                notice: lines0(),
                prompt: Prompt::YesNo {
                    question: String::from_str(
                        "  Should other processes be able to wait for this one to be ready?",
                    ),
                    default_answer: false,
                },
            },
            Stage::ReadyKind => Question {
                notice: lines0(),
                prompt: Prompt::Pick {
                    question: String::from_str("  How should readiness be detected?"),
                    items: options(),
                },
            },
            Stage::Pattern => text_question(
                "  Regex pattern to watch for in the output:",
                String::from_str("ready|listening"),
            ),
            Stage::Url => text_question("  URL to poll:", String::from_str("http://localhost:3000")),
            Stage::Seconds => text_question("  Seconds to wait:", String::from_str("5")),
            Stage::Done => Question { notice: lines0(), prompt: Prompt::ListEmulators },
        }
    }
}

impl Setup {
    /// Takes the answer to the question asked (`question`) and moves on.
    pub fn answer(&mut self, reply: Reply)
        requires
            old(self).wf(),
            answers(*old(self), reply),
        ensures
            step(*old(self), reply, *final(self)),
            final(self).wf(),
    {
        let ghost s = *self;
        match reply {
            Reply::YesNo(b) => {
                if self.stage == Stage::Include {
                    self.stage = if b {
                        Stage::Name
                    } else {
                        Stage::Done
                    };
                } else {
                    self.stage = if b {
                        Stage::ReadyKind
                    } else {
                        Stage::Done
                    };
                }
            },
            Reply::Emulators(es) => {
                self.stage = if es.len() > 0 {
                    Stage::PickEmulator
                } else {
                    Stage::EmulatorId
                };
                self.emulators = es;
            },
            Reply::Pick(i) => {
                if self.stage == Stage::PickEmulator {
                    let id = self.emulators[i].id.clone();
                    self.process = Some(flutter_process(self.name.clone(), self.cwd.clone(), id));
                    self.stage = Stage::Port;
                } else if self.stage == Stage::Script {
                    let script = match &self.candidate {
                        Some(c) => c.available_scripts[i].clone(),
                        None => String::new(),
                    };
                    let mut args: Vec<String> = Vec::new();
                    args.push(String::from_str("run"));
                    args.push(script);
                    assert(text::views(args@) =~= seq![
                        "run"@,
                        s.candidate.unwrap().available_scripts@[i as int]@,
                    ]);
                    self.args = args;
                    self.stage = Stage::Command;
                } else {
                    self.stage = if i == 0 {
                        Stage::Pattern
                    } else if i == 1 {
                        Stage::Url
                    } else {
                        Stage::Seconds
                    };
                }
            },
            Reply::Text(x) => {
                self.answer_text(x);
            },
        }
    }

    fn answer_text(&mut self, x: String)
        requires
            old(self).wf(),
            answers(*old(self), Reply::Text(x)),
        ensures
            step(*old(self), Reply::Text(x), *final(self)),
            final(self).wf(),
    {
        match self.stage {
            Stage::Name => {
                self.stage = if has(&self.existing, x.as_str()) {
                    Stage::Rename
                } else {
                    Stage::Cwd
                };
                self.name = x;
            },
            Stage::Rename => {
                self.stage = if has(&self.existing, x.as_str()) {
                    Stage::Rename
                } else {
                    Stage::Cwd
                };
                self.name = x;
            },
            Stage::Cwd => {
                let next = match &self.candidate {
                    Some(c) => if text::str_eq(c.kind.as_str(), "multistep-mobile") {
                        Stage::Emulators
                    } else if c.available_scripts.len() > 1 {
                        Stage::Script
                    } else {
                        Stage::Command
                    },
                    None => Stage::Command,
                };
                self.stage = next;
                self.cwd = x;
            },
            Stage::EmulatorId => {
                self.process = Some(flutter_process(self.name.clone(), self.cwd.clone(), x));
                self.stage = Stage::Port;
            },
            Stage::Command => {
                let fallback = if self.candidate.is_some() {
                    ""
                } else {
                    "echo"
                };
                let (cmd, args) = split_command(x.as_str(), fallback);
                self.process = Some(simple_process(self.name.clone(), cmd, args, self.cwd.clone()));
                self.stage = Stage::Port;
            },
            Stage::Port => {
                let next = if self.candidate.is_some() {
                    Stage::Color
                } else {
                    Stage::Done
                };
                if !text::is_empty(x.as_str()) {
                    let mut p = self.process.take().unwrap();
                    p.port = parse_port(x.as_str());
                    self.process = Some(p);
                }
                self.stage = next;
            },
            Stage::Color => {
                if !text::is_empty(x.as_str()) {
                    let mut p = self.process.take().unwrap();
                    p.color = Some(x);
                    self.process = Some(p);
                }
                self.stage = Stage::Depends;
            },
            Stage::Depends => {
                if !text::is_empty(x.as_str()) {
                    let mut p = self.process.take().unwrap();
                    p.depends_on = parse_depends(x.as_str());
                    self.process = Some(p);
                }
                self.stage = Stage::WantsReady;
            },
            Stage::Pattern => {
                let mut p = self.process.take().unwrap();
                p.ready_when = Some(crate::wizard::regex_ready(x));
                self.process = Some(p);
                self.stage = Stage::Done;
            },
            Stage::Url => {
                let mut p = self.process.take().unwrap();
                p.ready_when = Some(crate::wizard::http_ready(x));
                self.process = Some(p);
                self.stage = Stage::Done;
            },
            Stage::Seconds => {
                assert(delay_seconds(x@) * 1000 == (delay_seconds(x@) * 1000) as u64);
                let mut p = self.process.take().unwrap();
                p.ready_when = Some(crate::wizard::delay_ready(x.as_str()));
                self.process = Some(p);
                self.stage = Stage::Done;
            },
            _ => {},
        }
    }
}

} // verus!
