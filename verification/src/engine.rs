//! What the process engine decides: the commands to launch, where, how to
//! tell that a process is ready, and which processes wait on which.
use vstd::prelude::*;
use crate::config::{ProcessConfig, ReadyWhen, Step};
use crate::detect::opt_view;
use crate::json::{self, JsonValue, JsonView};
use crate::paths;
use crate::pattern::{self, CompiledRegex};
use crate::text;
use crate::vars::{self, VarMap};

verus! {

/// Where a log line came from.
#[derive(PartialEq, Eq, Structural)]
pub enum LogKind {
    Stdout,
    Stderr,
    System,
}

/// A line of output for one pane.
pub struct LogEvent {
    pub pane: usize,
    pub kind: LogKind,
    pub line: String,
}

/// The directory a process runs in: `cwd` joined to the root, or the root.
pub open spec fn resolved_dir(root: Seq<char>, cwd: Option<Seq<char>>, windows: bool) -> Seq<
    char,
> {
    match cwd {
        Some(c) => paths::join_path(root, c, windows),
        None => root,
    }
}

/// The directory a process runs in: `cwd` joined to `root` (an absolute
/// `cwd` replaces it), or `root`.
pub fn resolve_cwd(root: &str, cwd: &Option<String>, windows: bool) -> (r: String)
    ensures
        r@ == resolved_dir(root@, opt_view(*cwd), windows),
{
    match cwd {
        Some(c) => paths::join(root, c.as_str(), windows),
        None => String::from_str(root),
    }
}

/// A command to start: program, arguments and working directory.
pub struct Launch {
    pub cmd: String,
    pub args: Vec<String>,
    pub cwd: String,
}

/// The arguments with their placeholders replaced.
pub open spec fn subst_all(args: Seq<String>, vars: Map<Seq<char>, Seq<char>>) -> Seq<Seq<char>> {
    args.map_values(|a: String| vars::subst(a@, vars))
}

/// How a simple process is started: its command (empty where it names none)
/// and arguments with the process's variables substituted, in its directory.
pub fn simple_launch(process: &ProcessConfig, root: &str, windows: bool) -> (l: Launch)
    ensures
        l.cmd@ == vars::subst(
            match process.cmd {
                Some(c) => c@,
                None => Seq::empty(),
            },
            process.vars@,
        ),
        text::views(l.args@) == subst_all(process.args@, process.vars@),
        l.cwd@ == resolved_dir(root@, opt_view(process.cwd), windows),
{
    let cwd = resolve_cwd(root, &process.cwd, windows);
    let cmd = match &process.cmd {
        Some(c) => vars::subst_str(c.as_str(), &process.vars),
        None => {
            let r = vars::subst_str("", &process.vars);
            proof {
                reveal_strlit("");
            }
            assert(""@ =~= Seq::<char>::empty());
            r
        },
    };
    let args = vars::subst_args(&process.args, &process.vars);
    assert(text::views(args@) =~= subst_all(process.args@, process.vars@));
    Launch { cmd, args, cwd }
}

/// How a step of a multistep process is started, with the variables known
/// so far.
pub fn step_launch(step: &Step, vars: &VarMap, cwd: &str) -> (l: Launch)
    ensures
        l.cmd@ == vars::subst(step.cmd@, vars@),
        text::views(l.args@) == subst_all(step.args@, vars@),
        l.cwd@ == cwd@,
{
    let args = vars::subst_args(&step.args, vars);
    assert(text::views(args@) =~= subst_all(step.args@, vars@));
    Launch { cmd: vars::subst_str(step.cmd.as_str(), vars), args, cwd: String::from_str(cwd) }
}

/// `l` starts `step` with the variables `vars`, in `cwd`.
pub open spec fn launches(l: Launch, step: Step, vars: Map<Seq<char>, Seq<char>>, cwd: Seq<char>) -> bool {
    &&& l.cmd@ == vars::subst(step.cmd@, vars)
    &&& text::views(l.args@) == subst_all(step.args@, vars)
    &&& l.cwd@ == cwd
}

/// The line logged when a command cannot be started.
pub fn failed_line(error: &str) -> (r: String)
    ensures
        r@ == "Failed to start: "@ + error@,
{
    String::from_str("Failed to start: ").concat(error)
}

/// Where a multistep process stands: the step running (or next to run) and
/// the variables known so far.
pub struct MultistepState {
    pub next: usize,
    pub vars: VarMap,
}

/// What happened to a multistep process, as the caller saw it.
pub enum StepEvent {
    /// The process is about to start; `killed` is whether it was stopped
    /// already.
    Start { killed: bool },
    /// The running step is ready, having captured these variables; `killed`
    /// is whether the process was stopped meanwhile.
    StepReady { captured: VarMap, killed: bool },
    /// The running step's command could not be started, for this reason.
    SpawnFailed(String),
}

/// What the caller is to do next.
pub enum StepAction {
    /// Start step `step` as `launch` (`last` where it is the last step, whose
    /// process is then the one that is kept and stopped), and wait for it to
    /// be ready.
    Launch { launch: Launch, step: usize, last: bool },
    /// Log the line and stop.
    Fail(String),
    /// Signal that the process is ready, then wait for the last step's
    /// process to exit.
    SignalReady,
    /// Stop.
    Stop,
}

/// The action that starts step `k` of `proc`, with the variables `vars`.
pub open spec fn launch_step(
    a: StepAction,
    proc: ProcessConfig,
    k: int,
    vars: Map<Seq<char>, Seq<char>>,
    cwd: Seq<char>,
) -> bool {
    a matches StepAction::Launch { launch, step, last } && step == k && last == (k + 1
        == proc.steps.len()) && launches(launch, proc.steps@[k], vars, cwd)
}

impl MultistepState {
    /// The state before the first step: the process's own variables.
    pub fn new(proc: &ProcessConfig) -> (s: MultistepState)
        ensures
            s.next == 0,
            s.vars@ == proc.vars@,
    {
        let mut vars = VarMap::new();
        vars.extend(&proc.vars);
        assert(Map::<Seq<char>, Seq<char>>::empty().union_prefer_right(proc.vars@) =~= proc.vars@);
        MultistepState { next: 0, vars }
    }
}

/// The decisions of a multistep process (`kind` "multistep"), run in
/// `cwd`: its steps start one after another, each once the one before is
/// ready, with the variables captured so far; the process is ready once its
/// last step is (or at once where it has none); it stops where it was
/// stopped before a step starts, or where a step's command cannot start.
pub fn multistep_next(proc: &ProcessConfig, cwd: &str, s: MultistepState, ev: StepEvent) -> (r: (
    MultistepState,
    StepAction,
))
    requires
        ev is StepReady ==> s.next < proc.steps.len(),
    ensures
        match ev {
            StepEvent::Start { killed } => {
                &&& r.0.vars@ == s.vars@
                &&& if proc.steps.len() == 0 {
                    r.0.next == s.next && r.1 is SignalReady
                } else if killed {
                    r.0.next == s.next && r.1 is Stop
                } else {
                    r.0.next == 0 && launch_step(r.1, *proc, 0, s.vars@, cwd@)
                }
            },
            StepEvent::StepReady { captured, killed } => {
                &&& r.0.vars@ == s.vars@.union_prefer_right(captured@)
                &&& r.0.next == s.next + 1
                &&& if s.next + 1 == proc.steps.len() {
                    r.1 is SignalReady
                } else if killed {
                    r.1 is Stop
                } else {
                    launch_step(r.1, *proc, s.next + 1, r.0.vars@, cwd@)
                }
            },
            StepEvent::SpawnFailed(e) => {
                &&& r.0.next == s.next
                &&& r.0.vars@ == s.vars@
                &&& r.1 matches StepAction::Fail(l) && l@ == "Failed to start: "@ + e@
            },
        },
{
    let n = proc.steps.len();
    match ev {
        StepEvent::Start { killed } => {
            if n == 0 {
                (s, StepAction::SignalReady)
            } else if killed {
                (s, StepAction::Stop)
            } else {
                let launch = step_launch(&proc.steps[0], &s.vars, cwd);
                (MultistepState { next: 0, vars: s.vars }, StepAction::Launch {
                    launch,
                    step: 0,
                    last: n == 1,
                })
            }
        },
        StepEvent::StepReady { captured, killed } => {
            let MultistepState { next, mut vars } = s;
            vars.extend(&captured);
            let k = next + 1;
            if k == n {
                (MultistepState { next: k, vars }, StepAction::SignalReady)
            } else if killed {
                (MultistepState { next: k, vars }, StepAction::Stop)
            } else {
                let launch = step_launch(&proc.steps[k], &vars, cwd);
                (MultistepState { next: k, vars }, StepAction::Launch {
                    launch,
                    step: k,
                    last: k + 1 == n,
                })
            }
        },
        StepEvent::SpawnFailed(e) => (s, StepAction::Fail(failed_line(e.as_str()))),
    }
}

/// The line that announces a launch.
pub open spec fn launch_text(cmd: Seq<char>, args: Seq<Seq<char>>, cwd: Seq<char>) -> Seq<char> {
    "$ "@ + cmd + " "@ + text::join(args, " "@) + "  (cwd: "@ + cwd + ")"@
}

/// `$ cmd args  (cwd: dir)`.
pub fn launch_line(l: &Launch) -> (r: String)
    ensures
        r@ == launch_text(l.cmd@, text::views(l.args@), l.cwd@),
{
    let mut s = String::from_str("$ ");
    s.append(l.cmd.as_str());
    s.append(" ");
    s.append(text::join_strings(&l.args, " ").as_str());
    s.append("  (cwd: ");
    s.append(l.cwd.as_str());
    s.append(")");
    s
}

/// `host:port` to connect to for a URL: `http://` and `https://` prefixes
/// are removed, then everything from the first `/`; `:80` is added where
/// no port is given.
pub open spec fn connect_addr(url: Seq<char>) -> Seq<char> {
    let a = text::strip_prefixes(text::strip_prefixes(url, "http://"@), "https://"@);
    let host = text::split_on(a, '/')[0];
    if text::contains(host, ":"@) {
        host
    } else {
        host + ":80"@
    }
}

/// The address to wait on for an HTTP readiness check.
pub fn connect_address(url: &str) -> (r: String)
    ensures
        r@ == connect_addr(url@),
{
    let a = text::strip_prefixes_str(url, "http://");
    let b = text::strip_prefixes_str(a.as_str(), "https://");
    let parts = text::split_char(b.as_str(), '/');
    let host = parts[0].clone();
    assert(text::views(parts@)[0] == parts@[0]@);
    if text::contains_str(host.as_str(), ":") {
        host
    } else {
        host.concat(":80")
    }
}

/// How to wait for a process to be ready.
pub enum ReadyPlan {
    /// Ready at once: no condition, or a pattern that does not compile.
    Now,
    /// After `ms` milliseconds.
    Delay { ms: u64 },
    /// When a line of output matches.
    Pattern { regex: CompiledRegex },
    /// When a TCP connection to `addr` succeeds, trying every `interval_ms`
    /// and giving up after `timeout_ms`.
    Connect { target: String, addr: String, timeout_ms: u64, interval_ms: u64 },
    /// When `command` prints a matching item, run every `interval_ms` and
    /// given up after `timeout_ms`.
    Poll {
        command: String,
        args: Vec<String>,
        cwd: String,
        timeout_ms: u64,
        interval_ms: u64,
        want: Option<String>,
    },
}

pub open spec fn or_default(o: Option<u64>, d: u64) -> u64 {
    match o {
        Some(x) => x,
        None => d,
    }
}

/// Whether regex flags ask for case-insensitive matching: they contain `i`.
pub open spec fn flags_case_insensitive(flags: Option<Seq<char>>) -> bool {
    match flags {
        Some(f) => text::contains(f, "i"@),
        None => false,
    }
}

/// The plan for a readiness condition, with placeholders replaced from
/// `vars`; a poll command runs in `poll_cwd` joined to `cwd`, or in `cwd`.
pub fn plan_ready(ready_when: &Option<ReadyWhen>, vars: &VarMap, cwd: &str, windows: bool) -> (p:
    ReadyPlan)
    ensures
        match *ready_when {
            None => p is Now,
            Some(ReadyWhen::Delay { ms }) => p == (ReadyPlan::Delay { ms }),
            Some(ReadyWhen::Regex { pattern, flags }) => {
                let ci = flags_case_insensitive(opt_view(flags));
                if pattern::regex_builds(pattern@, ci) {
                    p matches ReadyPlan::Pattern { regex } && regex.pattern() == pattern@
                        && regex.case_insensitive() == ci
                } else {
                    p is Now
                }
            },
            Some(ReadyWhen::Http { url, timeout_ms, interval_ms }) => p matches ReadyPlan::Connect {
                target,
                addr,
                timeout_ms: t,
                interval_ms: i,
            } && target@ == vars::subst(url@, vars@) && addr@ == connect_addr(
                vars::subst(url@, vars@),
            ) && t == or_default(timeout_ms, 60000) && i == or_default(interval_ms, 1000),
            Some(
                ReadyWhen::Poll {
                    command,
                    args,
                    cwd: poll_cwd,
                    timeout_ms,
                    interval_ms,
                    match_value,
                    ..
                },
            ) => p matches ReadyPlan::Poll {
                command: c,
                args: a,
                cwd: d,
                timeout_ms: t,
                interval_ms: i,
                want,
            } && c@ == vars::subst(command@, vars@) && text::views(a@) == subst_all(args@, vars@)
                && d@ == resolved_dir(cwd@, opt_view(poll_cwd), windows) && t == or_default(
                timeout_ms,
                90000,
            ) && i == or_default(interval_ms, 2000) && opt_view(want) == match match_value {
                Some(m) => Some(vars::subst(m@, vars@)),
                None => None,
            },
        },
{
    match ready_when {
        None => ReadyPlan::Now,
        Some(ReadyWhen::Delay { ms }) => ReadyPlan::Delay { ms: *ms },
        Some(ReadyWhen::Regex { pattern, flags }) => {
            let ci = match flags {
                Some(f) => text::contains_str(f.as_str(), "i"),
                None => false,
            };
            match CompiledRegex::build(pattern.as_str(), ci) {
                Some(regex) => ReadyPlan::Pattern { regex },
                None => ReadyPlan::Now,
            }
        },
        Some(ReadyWhen::Http { url, timeout_ms, interval_ms }) => {
            let target = vars::subst_str(url.as_str(), vars);
            let addr = connect_address(target.as_str());
            ReadyPlan::Connect {
                target,
                addr,
                timeout_ms: match timeout_ms {
                    Some(t) => *t,
                    None => 60000,
                },
                interval_ms: match interval_ms {
                    Some(i) => *i,
                    None => 1000,
                },
            }
        },
        Some(
            ReadyWhen::Poll {
                command,
                args,
                cwd: poll_cwd,
                timeout_ms,
                interval_ms,
                match_value,
                ..
            },
        ) => {
            let args = vars::subst_args(args, vars);
            let want = match match_value {
                Some(m) => Some(vars::subst_str(m.as_str(), vars)),
                None => None,
            };
            ReadyPlan::Poll {
                command: vars::subst_str(command.as_str(), vars),
                args,
                cwd: resolve_cwd(cwd, poll_cwd, windows),
                timeout_ms: match timeout_ms {
                    Some(t) => *t,
                    None => 90000,
                },
                interval_ms: match interval_ms {
                    Some(i) => *i,
                    None => 2000,
                },
                want,
            }
        },
    }
}

/// Whether a line of output makes a process with this plan ready.
pub fn line_signals_ready(plan: &ReadyPlan, line: &str) -> (r: bool)
    requires
        plan is Pattern,
    ensures
        r == pattern::regex_matches(plan->regex.pattern(), plan->regex.case_insensitive(), line@),
{
    match plan {
        ReadyPlan::Pattern { regex } => regex.is_match(line),
        _ => false,
    }
}

/// The items of a poll command's output: those of a JSON array, else none.
pub open spec fn poll_items(output: Option<Seq<char>>) -> Seq<JsonView> {
    match output {
        Some(t) => match json::json_parse(t) {
            Some(JsonView::Array(items)) => items,
            _ => Seq::empty(),
        },
        None => Seq::empty(),
    }
}

/// Whether member `field` of `item` prints as `want`.
pub open spec fn field_text_is(item: JsonView, field: Seq<char>, want: Seq<char>) -> bool {
    match json::member(item, field) {
        Some(v) => json::value_text(v) == want,
        None => false,
    }
}

/// The index of the first item whose `field` prints as `want`, or the
/// number of items.
pub open spec fn first_text_match(items: Seq<JsonView>, field: Seq<char>, want: Seq<char>) -> int
    decreases items.len(),
{
    if items.len() == 0 || field_text_is(items[0], field, want) {
        0
    } else {
        1 + first_text_match(items.drop_first(), field, want)
    }
}

/// Whether member `field` of `item` exists and equals `value` (as
/// `serde_json::Value`'s `==` has it).
pub open spec fn member_equals(item: JsonView, field: Seq<char>, value: JsonView) -> bool {
    match json::member(item, field) {
        Some(m) => json::value_eq(m, value),
        None => false,
    }
}

/// The index of the first item whose `field` equals `value`, or the number
/// of items.
pub open spec fn first_equal(items: Seq<JsonView>, field: Seq<char>, value: JsonView) -> int
    decreases items.len(),
{
    if items.len() == 0 || member_equals(items[0], field, value) {
        0
    } else {
        1 + first_equal(items.drop_first(), field, value)
    }
}

/// The item a poll looks for: the first whose `match_field` prints as the
/// wanted value, else the first that meets the fallback match.
pub open spec fn poll_match(
    items: Seq<JsonView>,
    match_field: Option<Seq<char>>,
    want: Option<Seq<char>>,
    fallback: Option<(Seq<char>, JsonView)>,
) -> Option<JsonView> {
    let primary = match (match_field, want) {
        (Some(f), Some(w)) => {
            let k = first_text_match(items, f, w);
            if k < items.len() {
                Some(items[k])
            } else {
                None
            }
        },
        _ => None,
    };
    match primary {
        Some(x) => Some(x),
        None => match fallback {
            Some((f, v)) => {
                let k = first_equal(items, f, v);
                if k < items.len() {
                    Some(items[k])
                } else {
                    None
                }
            },
            None => None,
        },
    }
}

/// The variable a found item sets: `capture_as` to the printed member
/// `capture_field`, where both are given and the member exists.
pub open spec fn captured(
    item: JsonView,
    capture_field: Option<Seq<char>>,
    capture_as: Option<Seq<char>>,
) -> Map<Seq<char>, Seq<char>> {
    match (capture_field, capture_as) {
        (Some(f), Some(a)) => match json::member(item, f) {
            Some(v) => Map::empty().insert(a, json::value_text(v)),
            None => Map::empty(),
        },
        _ => Map::empty(),
    }
}

proof fn lemma_first_text_match(items: Seq<JsonView>, f: Seq<char>, w: Seq<char>, i: int)
    requires
        0 <= i <= items.len(),
        i < items.len() ==> field_text_is(items[i], f, w),
        forall|j: int| 0 <= j < i ==> !field_text_is(#[trigger] items[j], f, w),
    ensures
        first_text_match(items, f, w) == i,
    decreases i,
{
    if i > 0 {
        assert(!field_text_is(items[0], f, w));
        assert forall|j: int| 0 <= j < i - 1 implies !field_text_is(
            #[trigger] items.drop_first()[j],
            f,
            w,
        ) by {
            assert(items.drop_first()[j] == items[j + 1]);
        }
        lemma_first_text_match(items.drop_first(), f, w, i - 1);
    }
}

proof fn lemma_first_equal(items: Seq<JsonView>, f: Seq<char>, v: JsonView, i: int)
    requires
        0 <= i <= items.len(),
        i < items.len() ==> member_equals(items[i], f, v),
        forall|j: int| 0 <= j < i ==> !member_equals(#[trigger] items[j], f, v),
    ensures
        first_equal(items, f, v) == i,
    decreases i,
{
    if i > 0 {
        assert(!member_equals(items[0], f, v));
        assert forall|j: int| 0 <= j < i - 1 implies !member_equals(
            #[trigger] items.drop_first()[j],
            f,
            v,
        ) by {
            assert(items.drop_first()[j] == items[j + 1]);
        }
        lemma_first_equal(items.drop_first(), f, v, i - 1);
    }
}

/// The index of the first item whose `field` prints as `want`.
fn find_text_match(items: &Vec<JsonValue>, field: &str, want: &str) -> (k: usize)
    ensures
        k <= items.len(),
        k == first_text_match(items@.map_values(|x: JsonValue| x@), field@, want@),
{
    let ghost xs = items@.map_values(|x: JsonValue| x@);
    let mut i: usize = 0;
    while i < items.len()
        invariant
            i <= items.len(),
            xs == items@.map_values(|x: JsonValue| x@),
            forall|j: int| 0 <= j < i ==> !field_text_is(#[trigger] xs[j], field@, want@),
        decreases items.len() - i,
    {
        let hit = match items[i].get(field) {
            Some(v) => text::str_eq(v.to_text().as_str(), want),
            None => false,
        };
        assert(xs[i as int] == items@[i as int]@);
        if hit {
            proof {
                lemma_first_text_match(xs, field@, want@, i as int);
            }
            return i;
        }
        i = i + 1;
    }
    proof {
        lemma_first_text_match(xs, field@, want@, i as int);
    }
    i
}

/// The index of the first item whose `field` equals `value`.
fn find_equal(items: &Vec<JsonValue>, field: &str, value: &JsonValue) -> (k: usize)
    ensures
        k <= items.len(),
        k == first_equal(items@.map_values(|x: JsonValue| x@), field@, value@),
{
    let ghost xs = items@.map_values(|x: JsonValue| x@);
    let mut i: usize = 0;
    while i < items.len()
        invariant
            i <= items.len(),
            xs == items@.map_values(|x: JsonValue| x@),
            forall|j: int| 0 <= j < i ==> !member_equals(#[trigger] xs[j], field@, value@),
        decreases items.len() - i,
    {
        let hit = match items[i].get(field) {
            Some(v) => json::json_eq(v, value),
            None => false,
        };
        assert(xs[i as int] == items@[i as int]@);
        if hit {
            proof {
                lemma_first_equal(xs, field@, value@, i as int);
            }
            return i;
        }
        i = i + 1;
    }
    proof {
        lemma_first_equal(xs, field@, value@, i as int);
    }
    i
}

pub open spec fn fallback_view(ready_when: ReadyWhen) -> Option<(Seq<char>, JsonView)> {
    match ready_when {
        ReadyWhen::Poll { fallback_match: Some(fb), .. } => Some((fb.field@, fb.value@)),
        _ => None,
    }
}

/// One poll: looks in the command's output (`None` where it could not be
/// run or printed no text) for the item the readiness condition wants.
/// `Some` with the captured variable where it is found, `None` where not.
pub fn poll_check(output: &Option<String>, ready_when: &ReadyWhen, want: &Option<String>) -> (r:
    Option<VarMap>)
    requires
        ready_when is Poll,
    ensures
        match poll_match(
            poll_items(opt_view(*output)),
            opt_view(ready_when->match_field),
            opt_view(*want),
            fallback_view(*ready_when),
        ) {
            Some(item) => r is Some && r->0@ == captured(
                item,
                opt_view(ready_when->capture_field),
                opt_view(ready_when->capture_as),
            ),
            None => r is None,
        },
{
    let empty: Vec<JsonValue> = Vec::new();
    let parsed = match output {
        Some(t) => json::parse_json(t.as_str()),
        None => None,
    };
    let items: &Vec<JsonValue> = match &parsed {
        Some(v) => match v.as_array() {
            Some(a) => a,
            None => &empty,
        },
        None => &empty,
    };
    let ghost xs = items@.map_values(|x: JsonValue| x@);
    assert(xs =~= poll_items(opt_view(*output)));
    match ready_when {
        ReadyWhen::Poll { match_field, fallback_match, capture_field, capture_as, .. } => {
            let mut found: Option<usize> = None;
            match (match_field, want) {
                (Some(f), Some(w)) => {
                    let k = find_text_match(items, f.as_str(), w.as_str());
                    if k < items.len() {
                        found = Some(k);
                    }
                },
                _ => {},
            }
            if found.is_none() {
                match fallback_match {
                    Some(fb) => {
                        let k = find_equal(items, fb.field.as_str(), &fb.value);
                        if k < items.len() {
                            found = Some(k);
                        }
                    },
                    None => {},
                }
            }
            match found {
                Some(k) => {
                    let item = &items[k];
                    assert(xs[k as int] == item@);
                    let mut caught = VarMap::new();
                    match (capture_field, capture_as) {
                        (Some(cf), Some(ca)) => match item.get(cf.as_str()) {
                            Some(v) => {
                                caught.insert(ca.clone(), v.to_text());
                            },
                            None => {},
                        },
                        _ => {},
                    }
                    Some(caught)
                },
                None => None,
            }
        },
        _ => None,
    }
}

/// The line logged when a connection check gives up.
pub fn connect_timeout_line(target: &str) -> (r: String)
    ensures
        r@ == "Timed out waiting on "@ + target@,
{
    String::from_str("Timed out waiting on ").concat(target)
}

/// The line logged before each further poll.
pub fn poll_waiting_line(want: &Option<String>) -> (r: String)
    ensures
        r@ == "Still waiting for \""@ + match opt_view(*want) {
            Some(w) => w,
            None => Seq::empty(),
        } + "\"..."@,
{
    let mut s = String::from_str("Still waiting for \"");
    match want {
        Some(w) => s.append(w.as_str()),
        None => {},
    }
    s.append("\"...");
    s
}

/// The text that `format!("{:?}", ..)` prints for an optional string
/// (`None`, or `Some("..")` with the string's `Debug` escapes).
pub uninterp spec fn debug_text(s: Option<Seq<char>>) -> Seq<char>;

/// Calls `format!("{:?}", ..)` on an optional string; the result is
/// `debug_text` of it.
#[verifier::external_body]
fn debug_of(s: &Option<String>) -> (r: String)
    ensures
        r@ == debug_text(opt_view(*s)),
        s is None ==> r@ == "None"@,
{
    format!("{:?}", s)
}

/// The line logged when a poll gives up.
pub open spec fn poll_timeout_text(want: Option<Seq<char>>) -> Seq<char> {
    "Timed out waiting for "@ + debug_text(want)
}

/// What a wait for readiness does after one try.
pub enum WaitStep {
    /// The condition holds: ready, with the variables captured.
    Ready(VarMap),
    /// The time is up: log the line and go on as if ready.
    GiveUp(String),
    /// Wait the interval and try again, logging the line where there is one.
    Retry(Option<String>),
}

/// One try of a connection check: ready where the connection succeeded;
/// else, past the deadline, give up with the timeout line; else try again.
pub fn connect_step(connected: bool, past_deadline: bool, target: &str) -> (w: WaitStep)
    ensures
        connected ==> (w matches WaitStep::Ready(c) && c@ == Map::<Seq<char>, Seq<char>>::empty()),
        !connected && past_deadline ==> (w matches WaitStep::GiveUp(l) && l@
            == "Timed out waiting on "@ + target@),
        !connected && !past_deadline ==> w == WaitStep::Retry(None),
{
    if connected {
        WaitStep::Ready(VarMap::new())
    } else if past_deadline {
        WaitStep::GiveUp(connect_timeout_line(target))
    } else {
        WaitStep::Retry(None)
    }
}

/// One try of a poll, given what the command printed: ready with the
/// captured variable where the wanted item is found (`poll_check`); else,
/// past the deadline, give up with the timeout line; else try again after
/// logging that it still waits.
pub fn poll_step(
    output: &Option<String>,
    ready_when: &ReadyWhen,
    want: &Option<String>,
    past_deadline: bool,
) -> (w: WaitStep)
    requires
        ready_when is Poll,
    ensures
        match poll_match(
            poll_items(opt_view(*output)),
            opt_view(ready_when->match_field),
            opt_view(*want),
            fallback_view(*ready_when),
        ) {
            Some(item) => w matches WaitStep::Ready(c) && c@ == captured(
                item,
                opt_view(ready_when->capture_field),
                opt_view(ready_when->capture_as),
            ),
            None => if past_deadline {
                w matches WaitStep::GiveUp(l) && l@ == poll_timeout_text(opt_view(*want))
            } else {
                w matches WaitStep::Retry(Some(l)) && l@ == "Still waiting for \""@ + match opt_view(
                    *want,
                ) {
                    Some(x) => x,
                    None => Seq::empty(),
                } + "\"..."@
            },
        },
{
    match poll_check(output, ready_when, want) {
        Some(c) => WaitStep::Ready(c),
        None => if past_deadline {
            WaitStep::GiveUp(String::from_str("Timed out waiting for ").concat(debug_of(want).as_str()))
        } else {
            WaitStep::Retry(Some(poll_waiting_line(want)))
        },
    }
}

/// The index of the last process named `name`, or `-1`.
pub open spec fn last_named(procs: Seq<ProcessConfig>, name: Seq<char>) -> int
    decreases procs.len(),
{
    if procs.len() == 0 {
        -1
    } else if procs.last().name@ == name {
        procs.len() - 1
    } else {
        last_named(procs.drop_last(), name)
    }
}

proof fn lemma_last_named(procs: Seq<ProcessConfig>, name: Seq<char>)
    ensures
        -1 <= last_named(procs, name) < procs.len(),
        last_named(procs, name) >= 0 ==> procs[last_named(procs, name)].name@ == name,
        forall|j: int|
            last_named(procs, name) < j < procs.len() ==> #[trigger] procs[j].name@ != name,
    decreases procs.len(),
{
    if procs.len() > 0 && procs.last().name@ != name {
        lemma_last_named(procs.drop_last(), name);
        assert forall|j: int| last_named(procs, name) < j < procs.len() implies #[trigger] procs[
            j
        ].name@ != name by {
            if j < procs.len() - 1 {
                assert(procs.drop_last()[j] == procs[j]);
            }
        }
    }
}

/// The index of the last process named `name`: where names repeat, the
/// last process of a name stands for it.
fn find_last_named(procs: &Vec<ProcessConfig>, name: &str) -> (r: Option<usize>)
    ensures
        match r {
            Some(j) => j == last_named(procs@, name@),
            None => last_named(procs@, name@) == -1,
        },
{
    let mut n = procs.len();
    assert(procs@.take(n as int) =~= procs@);
    while n > 0
        invariant
            n <= procs.len(),
            last_named(procs@, name@) == last_named(procs@.take(n as int), name@),
        decreases n,
    {
        assert(procs@.take(n as int).last() == procs@[n - 1]);
        if text::str_eq(procs[n - 1].name.as_str(), name) {
            return Some(n - 1);
        }
        assert(procs@.take(n as int).drop_last() =~= procs@.take(n - 1));
        n = n - 1;
    }
    None
}

/// The readiness signal that a process raises: that of the last process of
/// its name.
pub fn ready_signal(procs: &Vec<ProcessConfig>, i: usize) -> (r: usize)
    requires
        i < procs.len(),
    ensures
        r == last_named(procs@, procs@[i as int].name@),
        i <= r < procs.len(),
        procs@[r as int].name@ == procs@[i as int].name@,
{
    proof {
        lemma_last_named(procs@, procs@[i as int].name@);
    }
    match find_last_named(procs, procs[i].name.as_str()) {
        Some(j) => j,
        None => i,
    }
}

/// The readiness signals a process waits for, in the order of its
/// `depends_on`: for each name that some process has, that of the last
/// such process; names no process has are passed over.
pub open spec fn dependency_signals(procs: Seq<ProcessConfig>, deps: Seq<Seq<char>>) -> Seq<int>
    decreases deps.len(),
{
    if deps.len() == 0 {
        Seq::empty()
    } else {
        let j = last_named(procs, deps.last());
        dependency_signals(procs, deps.drop_last()) + if j >= 0 {
            seq![j]
        } else {
            Seq::empty()
        }
    }
}

/// The readiness signals process `i` waits for before it starts.
pub fn waits_for(procs: &Vec<ProcessConfig>, i: usize) -> (r: Vec<usize>)
    requires
        i < procs.len(),
    ensures
        r@.map_values(|j: usize| j as int) == dependency_signals(
            procs@,
            text::views(procs@[i as int].depends_on@),
        ),
        forall|k: int|
            0 <= k < r.len() ==> #[trigger] r@[k] < procs.len() && text::views(
                procs@[i as int].depends_on@,
            ).contains(procs@[r@[k] as int].name@),
{
    let deps = &procs[i].depends_on;
    let ghost ds = text::views(deps@);
    let mut out: Vec<usize> = Vec::new();
    let mut k: usize = 0;
    assert(ds.take(0) =~= Seq::<Seq<char>>::empty());
    while k < deps.len()
        invariant
            k <= deps.len(),
            ds == text::views(deps@),
            out@.map_values(|j: usize| j as int) == dependency_signals(procs@, ds.take(k as int)),
            forall|m: int|
                0 <= m < out.len() ==> #[trigger] out@[m] < procs.len() && ds.contains(
                    procs@[out@[m] as int].name@,
                ),
        decreases deps.len() - k,
    {
        let ghost before = out@;
        assert(ds.take(k + 1).drop_last() =~= ds.take(k as int));
        assert(ds.take(k + 1).last() == deps@[k as int]@);
        proof {
            lemma_last_named(procs@, deps@[k as int]@);
        }
        match find_last_named(procs, deps[k].as_str()) {
            Some(j) => {
                out.push(j);
                assert(out@.map_values(|j: usize| j as int) =~= before.map_values(
                    |j: usize| j as int,
                ).push(j as int));
                assert(ds[k as int] == deps@[k as int]@);
                assert(ds[k as int] == procs@[j as int].name@);
                assert(ds.contains(procs@[j as int].name@));
            },
            None => {
                assert(out@ == before);
            },
        }
        k = k + 1;
    }
    assert(ds.take(k as int) =~= ds);
    out
}

/// The line logged while a process waits for others.
pub fn waiting_line(deps: &Vec<String>) -> (r: String)
    ensures
        r@ == "Waiting on: "@ + text::join(text::views(deps@), ", "@) + "..."@,
{
    String::from_str("Waiting on: ").concat(text::join_strings(deps, ", ").as_str()).concat("...")
}


proof fn lemma_first_text_match_found(items: Seq<JsonView>, f: Seq<char>, w: Seq<char>)
    ensures
        0 <= first_text_match(items, f, w) <= items.len(),
        first_text_match(items, f, w) < items.len() ==> field_text_is(
            items[first_text_match(items, f, w)],
            f,
            w,
        ),
        forall|j: int|
            0 <= j < first_text_match(items, f, w) ==> !field_text_is(#[trigger] items[j], f, w),
    decreases items.len(),
{
    if items.len() > 0 && !field_text_is(items[0], f, w) {
        lemma_first_text_match_found(items.drop_first(), f, w);
        assert forall|j: int| 0 <= j < first_text_match(items, f, w) implies !field_text_is(
            #[trigger] items[j],
            f,
            w,
        ) by {
            if j > 0 {
                assert(items[j] == items.drop_first()[j - 1]);
            }
        }
        let k = first_text_match(items.drop_first(), f, w);
        if k < items.drop_first().len() {
            assert(items[k + 1] == items.drop_first()[k]);
        }
    }
}

proof fn lemma_first_equal_found(items: Seq<JsonView>, f: Seq<char>, v: JsonView)
    ensures
        0 <= first_equal(items, f, v) <= items.len(),
        first_equal(items, f, v) < items.len() ==> member_equals(
            items[first_equal(items, f, v)],
            f,
            v,
        ),
        forall|j: int| 0 <= j < first_equal(items, f, v) ==> !member_equals(#[trigger] items[j], f, v),
    decreases items.len(),
{
    if items.len() > 0 && !member_equals(items[0], f, v) {
        lemma_first_equal_found(items.drop_first(), f, v);
        assert forall|j: int| 0 <= j < first_equal(items, f, v) implies !member_equals(
            #[trigger] items[j],
            f,
            v,
        ) by {
            if j > 0 {
                assert(items[j] == items.drop_first()[j - 1]);
            }
        }
        let k = first_equal(items.drop_first(), f, v);
        if k < items.drop_first().len() {
            assert(items[k + 1] == items.drop_first()[k]);
        }
    }
}

/// A poll with a wanted value finds the first item whose `match_field`
/// prints as that value, wherever there is one, whatever the fallback match
/// would pick: the wanted device wins over any other.
pub proof fn law_poll_prefers_wanted(
    items: Seq<JsonView>,
    f: Seq<char>,
    w: Seq<char>,
    fallback: Option<(Seq<char>, JsonView)>,
    i: int,
)
    requires
        0 <= i < items.len(),
        field_text_is(items[i], f, w),
    ensures
        exists|k: int|
            0 <= k <= i && poll_match(items, Some(f), Some(w), fallback) == Some(items[k])
                && field_text_is(items[k], f, w) && forall|j: int|
                0 <= j < k ==> !field_text_is(#[trigger] items[j], f, w),
{
    lemma_first_text_match_found(items, f, w);
    let k = first_text_match(items, f, w);
    assert(k <= i);
    assert(poll_match(items, Some(f), Some(w), fallback) == Some(items[k]));
}

/// The fallback match is used only where no item prints as the wanted
/// value (or none is wanted): the poll then finds the first item that
/// meets it, or nothing.
pub proof fn law_poll_falls_back(
    items: Seq<JsonView>,
    match_field: Option<Seq<char>>,
    want: Option<Seq<char>>,
    f: Seq<char>,
    v: JsonView,
)
    requires
        match (match_field, want) {
            (Some(mf), Some(w)) => forall|j: int|
                0 <= j < items.len() ==> !field_text_is(#[trigger] items[j], mf, w),
            _ => true,
        },
    ensures
        match poll_match(items, match_field, want, Some((f, v))) {
            Some(x) => exists|k: int|
                0 <= k < items.len() && x == items[k] && member_equals(items[k], f, v) && forall|
                    j: int,
                | 0 <= j < k ==> !member_equals(#[trigger] items[j], f, v),
            None => forall|j: int| 0 <= j < items.len() ==> !member_equals(#[trigger] items[j], f, v),
        },
{
    match (match_field, want) {
        (Some(mf), Some(w)) => {
            lemma_first_text_match_found(items, mf, w);
            let k = first_text_match(items, mf, w);
            if k < items.len() {
                assert(field_text_is(items[k], mf, w));
                assert(!field_text_is(items[k], mf, w));
            }
        },
        _ => {},
    }
    lemma_first_equal_found(items, f, v);
}

proof fn lemma_no_scheme(h: Seq<char>, r: Seq<char>, p: Seq<char>)
    requires
        forall|i: int| 0 <= i < h.len() ==> h[i] != '/',
        h.len() == 0 || h.last() != ':',
        r.len() == 0 || r[0] == '/',
        p.len() >= 3,
        p[p.len() - 1] == '/',
        p[p.len() - 2] == '/',
        p[p.len() - 3] == ':',
        forall|i: int| 0 <= i < p.len() - 3 ==> p[i] != '/' && p[i] != ':',
    ensures
        !text::starts_with(h + r, p),
{
    let s = h + r;
    if text::starts_with(s, p) {
        let l = p.len() as int;
        assert(s.take(l) == p);
        if h.len() >= l - 1 {
            assert(s[l - 2] == p[l - 2]);
            assert(s[l - 2] == h[l - 2]);
        } else if h.len() == l - 2 {
            assert(s[l - 3] == p[l - 3]);
            assert(s[l - 3] == h[l - 3]);
        } else {
            let m = h.len() as int;
            assert(s[m] == p[m]);
            assert(s[m] == r[0]);
        }
    }
}

proof fn lemma_host_piece(h: Seq<char>, r: Seq<char>)
    requires
        forall|i: int| 0 <= i < h.len() ==> h[i] != '/',
        r.len() == 0 || r[0] == '/',
    ensures
        text::split_on(h + r, '/')[0] == h,
    decreases h.len(),
{
    lemma_count_until_over(h, r);
    let s = h + r;
    if text::count_until(s, '/') >= s.len() {
        assert(s =~= h);
    } else {
        assert(s.take(h.len() as int) =~= h);
    }
}

proof fn lemma_count_until_over(h: Seq<char>, r: Seq<char>)
    requires
        forall|i: int| 0 <= i < h.len() ==> h[i] != '/',
        r.len() == 0 || r[0] == '/',
    ensures
        text::count_until(h + r, '/') == h.len(),
    decreases h.len(),
{
    if h.len() > 0 {
        assert((h + r).drop_first() =~= h.drop_first() + r);
        lemma_count_until_over(h.drop_first(), r);
    } else {
        assert(h + r =~= r);
    }
}

/// The address waited on for `http://` or `https://`, a host and
/// optionally a path: the host as it is where it names a port (holds a
/// `:`), whether or not a path follows; else the host with `:80`.
pub proof fn law_connect_addr_port(scheme: Seq<char>, h: Seq<char>, r: Seq<char>)
    requires
        scheme == "http://"@ || scheme == "https://"@,
        forall|i: int| 0 <= i < h.len() ==> h[i] != '/',
        h.len() == 0 || h.last() != ':',
        r.len() == 0 || r[0] == '/',
    ensures
        text::contains(h, ":"@) ==> connect_addr(scheme + h + r) == h,
        !text::contains(h, ":"@) ==> connect_addr(scheme + h + r) == h + ":80"@,
{
    reveal_strlit("http://");
    reveal_strlit("https://");
    let http = "http://"@;
    let https = "https://"@;
    assert(http =~= seq!['h', 't', 't', 'p', ':', '/', '/']);
    assert(https =~= seq!['h', 't', 't', 'p', 's', ':', '/', '/']);
    lemma_no_scheme(h, r, http);
    lemma_no_scheme(h, r, https);
    let hr = h + r;
    assert(text::strip_prefixes(hr, http) == hr);
    assert(text::strip_prefixes(hr, https) == hr);
    let u = scheme + h + r;
    assert(u =~= scheme + hr);
    if scheme == http {
        assert(u.take(7) =~= http);
        assert(u.skip(7) =~= hr);
        assert(text::strip_prefixes(u, http) == hr);
    } else {
        assert(u[4] == 's');
        assert(!text::starts_with(u, http)) by {
            if text::starts_with(u, http) {
                assert(u.take(7)[4] == http[4]);
            }
        }
        assert(text::strip_prefixes(u, http) == u);
        assert(u.take(8) =~= https);
        assert(u.skip(8) =~= hr);
        assert(text::strip_prefixes(u, https) == hr);
    }
    lemma_host_piece(h, r);
}

} // verus!
