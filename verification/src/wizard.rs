//! The decisions of the setup wizard: how answers are read, and the
//! process configurations they make.
use vstd::prelude::*;
use crate::config::{FallbackMatch, ProcessConfig, ReadyWhen, Step};
use crate::json::JsonValue;
use crate::paths;
use crate::text;
use crate::vars::VarMap;

verus! {

/// An answer: the trimmed input, or the default where that is blank.
pub open spec fn answer(input: Seq<char>, default: Seq<char>) -> Seq<char> {
    if text::trim(input).len() == 0 {
        default
    } else {
        text::trim(input)
    }
}

pub fn answer_or_default(input: &str, default: &str) -> (r: String)
    ensures
        r@ == answer(input@, default@),
{
    let t = text::trim_str(input);
    if text::is_empty(t.as_str()) {
        String::from_str(default)
    } else {
        t
    }
}

/// The hint shown after a yes/no question.
pub fn yes_no_hint(default: bool) -> (r: &'static str)
    ensures
        r@ == if default {
            "Y/n"@
        } else {
            "y/N"@
        },
{
    if default {
        "Y/n"
    } else {
        "y/N"
    }
}

/// A yes/no answer: the default where blank, else yes for `y` or `yes` in
/// any case.
pub open spec fn yes_no(answer: Seq<char>, default: bool) -> bool {
    let l = text::lowercase(answer);
    if l.len() == 0 {
        default
    } else {
        l == "y"@ || l == "yes"@
    }
}

/// How the answer to a yes/no question is read.
pub fn yes_no_answer(answer: &str, default: bool) -> (r: bool)
    ensures
        r == yes_no(answer@, default),
{
    let l = text::to_lowercase(answer);
    if text::is_empty(l.as_str()) {
        return default;
    }
    text::str_eq(l.as_str(), "y") || text::str_eq(l.as_str(), "yes")
}

/// The pick of a numbered list of `n` items: the answer's number counted
/// from 1, where it is one of the list's; otherwise the first item, flagged
/// as a fallback.
pub open spec fn choice(answer: Seq<char>, n: usize) -> (usize, bool) {
    match text::parse_unsigned(answer, usize::MAX as nat) {
        Some(k) => if 1 <= k <= n {
            ((k - 1) as usize, false)
        } else {
            (0, true)
        },
        None => (0, true),
    }
}

/// How the answer to a pick from a numbered list of `n` items is read.
pub fn choice_answer(answer: &str, n: usize) -> (r: (usize, bool))
    requires
        n > 0,
    ensures
        r == choice(answer@, n),
        r.0 < n,
{
    match text::parse_unsigned_str(answer, usize::MAX as u64) {
        Some(k) => if 1 <= k && k <= n as u64 {
            ((k - 1) as usize, false)
        } else {
            (0, true)
        },
        None => (0, true),
    }
}

/// A Flutter emulator: its id and its name.
pub struct Emulator {
    pub id: String,
    pub name: String,
}

/// Whether a line of `flutter emulators` output is a header line.
pub open spec fn header_line(l: Seq<char>) -> bool {
    let low = text::lowercase(l);
    text::contains(low, "available emulator"@) || (text::starts_with(low, "id"@)
        && text::contains(low, "name"@))
}

/// The emulator a line describes: fields split at `•` and trimmed, the
/// first the id (which must not be empty), the second the name (the id
/// where there is none).
pub open spec fn emulator_of(l: Seq<char>) -> Option<(Seq<char>, Seq<char>)> {
    let parts = text::split_on(l, '\u{2022}');
    let id = text::trim(parts[0]);
    if id.len() == 0 {
        None
    } else if parts.len() > 1 {
        Some((id, text::trim(parts[1])))
    } else {
        Some((id, id))
    }
}

/// The emulators listed in `flutter emulators` output: of each trimmed,
/// non-blank line that is no header line, the emulator it describes.
pub open spec fn emulators_in(lines: Seq<Seq<char>>) -> Seq<(Seq<char>, Seq<char>)>
    decreases lines.len(),
{
    if lines.len() == 0 {
        Seq::empty()
    } else {
        let l = text::trim(lines.last());
        emulators_in(lines.drop_last()) + if l.len() > 0 && !header_line(l) {
            match emulator_of(l) {
                Some(e) => seq![e],
                None => Seq::empty(),
            }
        } else {
            Seq::empty()
        }
    }
}

pub open spec fn emulator_views(es: Seq<Emulator>) -> Seq<(Seq<char>, Seq<char>)> {
    es.map_values(|e: Emulator| (e.id@, e.name@))
}

fn is_header_line(l: &str) -> (r: bool)
    ensures
        r == header_line(l@),
{
    let low = text::to_lowercase(l);
    text::contains_str(low.as_str(), "available emulator") || (text::starts_with_str(
        low.as_str(),
        "id",
    ) && text::contains_str(low.as_str(), "name"))
}

/// The emulators in the output of `flutter emulators`.
pub fn parse_emulators(output: &str) -> (r: Vec<Emulator>)
    ensures
        emulator_views(r@) == emulators_in(text::lines(output@)),
{
    let ls = text::lines_of(output);
    let ghost lv = text::views(ls@);
    let mut out: Vec<Emulator> = Vec::new();
    let mut i: usize = 0;
    assert(lv.take(0) =~= Seq::<Seq<char>>::empty());
    assert(emulator_views(out@) =~= Seq::<(Seq<char>, Seq<char>)>::empty());
    while i < ls.len()
        invariant
            i <= ls.len(),
            lv == text::views(ls@),
            lv == text::lines(output@),
            emulator_views(out@) == emulators_in(lv.take(i as int)),
        decreases ls.len() - i,
    {
        let ghost before = emulator_views(out@);
        assert(lv.take(i + 1).drop_last() =~= lv.take(i as int));
        assert(lv.take(i + 1).last() == ls@[i as int]@);
        let l = text::trim_str(ls[i].as_str());
        if !text::is_empty(l.as_str()) && !is_header_line(l.as_str()) {
            let parts = text::split_char(l.as_str(), '\u{2022}');
            assert(text::views(parts@)[0] == parts@[0]@);
            let id = text::trim_str(parts[0].as_str());
            if !text::is_empty(id.as_str()) {
                let name = if parts.len() > 1 {
                    assert(text::views(parts@)[1] == parts@[1]@);
                    text::trim_str(parts[1].as_str())
                } else {
                    id.clone()
                };
                let ghost e = (id@, name@);
                out.push(Emulator { id, name });
                assert(emulator_views(out@) =~= before.push(e));
            }
        }
        i = i + 1;
    }
    assert(lv.take(i as int) =~= lv);
    out
}

/// How an emulator is offered: `name (id)`.
pub fn emulator_label(e: &Emulator) -> (r: String)
    ensures
        r@ == e.name@ + " ("@ + e.id@ + ")"@,
{
    e.name.clone().concat(" (").concat(e.id.as_str()).concat(")")
}

fn strings(a: &str, b: &str, c: &str, n: usize) -> (r: Vec<String>)
    requires
        2 <= n <= 3,
    ensures
        n == 2 ==> text::views(r@) == seq![a@, b@],
        n == 3 ==> text::views(r@) == seq![a@, b@, c@],
{
    let mut v: Vec<String> = Vec::new();
    v.push(String::from_str(a));
    v.push(String::from_str(b));
    if n == 3 {
        v.push(String::from_str(c));
        assert(text::views(v@) =~= seq![a@, b@, c@]);
    } else {
        assert(text::views(v@) =~= seq![a@, b@]);
    }
    v
}

/// The readiness check of the emulator launch step: poll
/// `flutter devices --machine` every 2 s for up to 90 s, for the device whose
/// `emulatorId` is the emulator's (or else any emulator), and capture its
/// `id` as `deviceId`.
pub open spec fn flutter_launch_ready(rw: Option<ReadyWhen>) -> bool {
    match rw {
        Some(
            ReadyWhen::Poll {
                command,
                args,
                cwd,
                timeout_ms,
                interval_ms,
                match_field: Some(f),
                match_value: Some(v),
                fallback_match: Some(fb),
                capture_field: Some(cf),
                capture_as: Some(ca),
            },
        ) => {
            &&& command@ == "flutter"@
            &&& text::views(args@) == seq!["devices"@, "--machine"@]
            &&& cwd is None
            &&& timeout_ms == Some(90000u64)
            &&& interval_ms == Some(2000u64)
            &&& f@ == "emulatorId"@
            &&& v@ == "{emulatorId}"@
            &&& fb.field@ == "emulator"@
            &&& fb.value@ == crate::json::JsonView::Bool(true)
            &&& cf@ == "id"@
            &&& ca@ == "deviceId"@
        },
        _ => false,
    }
}

/// `p` is the multistep Flutter process named `name`, run in `cwd`, that
/// launches the emulator `emulator_id`.
pub open spec fn flutter_config(
    p: ProcessConfig,
    name: Seq<char>,
    cwd: Seq<char>,
    emulator_id: Seq<char>,
) -> bool {
    &&& p.name@ == name
    &&& p.kind@ == "multistep"@
    &&& p.cmd is None
    &&& p.args.len() == 0
    &&& p.cwd matches Some(c) && c@ == cwd
    &&& p.color is None && p.port is None && p.ready_when is None
    &&& p.depends_on.len() == 0
    &&& p.vars@ == Map::<Seq<char>, Seq<char>>::empty().insert("emulatorId"@, emulator_id)
    &&& p.steps.len() == 2
    &&& p.steps@[0].cmd@ == "flutter"@
    &&& text::views(p.steps@[0].args@) == seq!["emulators"@, "--launch"@, "{emulatorId}"@]
    &&& flutter_launch_ready(p.steps@[0].ready_when)
    &&& p.steps@[1].cmd@ == "flutter"@
    &&& text::views(p.steps@[1].args@) == seq!["run"@, "-d"@, "{deviceId}"@]
    &&& p.steps@[1].ready_when is None
}

/// The multistep process of a Flutter app, once the emulator is known:
/// launch the emulator and poll `flutter devices` until
/// it shows up, capturing its device id; then run the app on that device.
pub fn flutter_process(name: String, cwd: String, emulator_id: String) -> (p: ProcessConfig)
    ensures
        flutter_config(p, name@, cwd@, emulator_id@),
{
    let mut vars = VarMap::new();
    vars.insert(String::from_str("emulatorId"), emulator_id);
    let launch = Step {
        cmd: String::from_str("flutter"),
        args: strings("emulators", "--launch", "{emulatorId}", 3),
        ready_when: Some(
            ReadyWhen::Poll {
                command: String::from_str("flutter"),
                args: strings("devices", "--machine", "", 2),
                cwd: None,
                timeout_ms: Some(90000),
                interval_ms: Some(2000),
                match_field: Some(String::from_str("emulatorId")),
                match_value: Some(String::from_str("{emulatorId}")),
                fallback_match: Some(
                    FallbackMatch { field: String::from_str("emulator"), value: JsonValue::Bool(true) },
                ),
                capture_field: Some(String::from_str("id")),
                capture_as: Some(String::from_str("deviceId")),
            },
        ),
    };
    let run = Step {
        cmd: String::from_str("flutter"),
        args: strings("run", "-d", "{deviceId}", 3),
        ready_when: None,
    };
    let mut steps: Vec<Step> = Vec::new();
    steps.push(launch);
    steps.push(run);
    ProcessConfig {
        name,
        kind: String::from_str("multistep"),
        cmd: None,
        args: Vec::new(),
        cwd: Some(cwd),
        color: None,
        port: None,
        ready_when: None,
        depends_on: Vec::new(),
        vars,
        steps,
    }
}

/// The command line suggested for a candidate: command and arguments,
/// trimmed.
pub open spec fn default_line(cmd: Seq<char>, args: Seq<Seq<char>>) -> Seq<char> {
    text::trim(cmd + " "@ + text::join(args, " "@))
}

pub fn default_command_line(cmd: &str, args: &Vec<String>) -> (r: String)
    ensures
        r@ == default_line(cmd@, text::views(args@)),
{
    let line = String::from_str(cmd).concat(" ").concat(text::join_strings(args, " ").as_str());
    text::trim_str(line.as_str())
}

/// A command line split into the command (its first word, or `fallback`
/// where it has none) and the arguments (the other words).
pub open spec fn split_line(line: Seq<char>, fallback: Seq<char>) -> (Seq<char>, Seq<Seq<char>>) {
    let w = text::words(line);
    if w.len() > 0 {
        (w[0], w.skip(1))
    } else {
        (fallback, Seq::empty())
    }
}

pub fn split_command(line: &str, fallback: &str) -> (r: (String, Vec<String>))
    ensures
        (r.0@, text::views(r.1@)) == split_line(line@, fallback@),
{
    let mut w = text::split_whitespace(line);
    let ghost wv = text::views(w@);
    if w.len() == 0 {
        let args: Vec<String> = Vec::new();
        assert(text::views(args@) =~= Seq::<Seq<char>>::empty());
        return (String::from_str(fallback), args);
    }
    let cmd = w.remove(0);
    assert(cmd@ == wv[0]);
    assert(text::views(w@) =~= wv.skip(1));
    (cmd, w)
}

/// The name offered instead of one already taken: `name-index`.
pub fn renamed(name: &str, index: usize) -> (r: String)
    ensures
        r@ == name@ + "-"@ + text::decimal(index as nat),
{
    String::from_str(name).concat("-").concat(text::decimal_string(index as u64).as_str())
}

/// The port an answer gives (`u16` parse), `None` where it gives none.
pub fn parse_port(answer: &str) -> (r: Option<u16>)
    ensures
        match text::parse_unsigned(answer@, 65535) {
            Some(p) => r == Some(p as u16),
            None => r is None,
        },
{
    match text::parse_unsigned_str(answer, 65535) {
        Some(p) => Some(p as u16),
        None => None,
    }
}

/// The names of a comma-separated list, trimmed, without blank ones.
pub open spec fn name_list(parts: Seq<Seq<char>>) -> Seq<Seq<char>>
    decreases parts.len(),
{
    if parts.len() == 0 {
        Seq::empty()
    } else {
        name_list(parts.drop_last()) + if text::trim(parts.last()).len() > 0 {
            seq![text::trim(parts.last())]
        } else {
            Seq::empty()
        }
    }
}

/// The processes named in a `depends on` answer.
pub fn parse_depends(line: &str) -> (r: Vec<String>)
    ensures
        text::views(r@) == name_list(text::split_on(line@, ',')),
{
    let parts = text::split_char(line, ',');
    let ghost pv = text::views(parts@);
    let mut out: Vec<String> = Vec::new();
    let mut i: usize = 0;
    assert(pv.take(0) =~= Seq::<Seq<char>>::empty());
    assert(text::views(out@) =~= Seq::<Seq<char>>::empty());
    while i < parts.len()
        invariant
            i <= parts.len(),
            pv == text::views(parts@),
            text::views(out@) == name_list(pv.take(i as int)),
        decreases parts.len() - i,
    {
        let ghost before = text::views(out@);
        assert(pv.take(i + 1).drop_last() =~= pv.take(i as int));
        assert(pv.take(i + 1).last() == parts@[i as int]@);
        let t = text::trim_str(parts[i].as_str());
        if !text::is_empty(t.as_str()) {
            out.push(t);
            assert(text::views(out@) =~= before.push(text::trim(parts@[i as int]@)));
        }
        i = i + 1;
    }
    assert(pv.take(i as int) =~= pv);
    out
}

/// Ready when a line of output matches `pattern`, ignoring case.
pub fn regex_ready(pattern: String) -> (r: ReadyWhen)
    ensures
        r matches ReadyWhen::Regex { pattern: p, flags: Some(f) } && p == pattern && f@ == "i"@,
{
    ReadyWhen::Regex { pattern, flags: Some(String::from_str("i")) }
}

/// Ready when `url` accepts a connection, checked every second for a minute.
pub fn http_ready(url: String) -> (r: ReadyWhen)
    ensures
        r matches ReadyWhen::Http { url: u, timeout_ms, interval_ms } && u == url && timeout_ms
            == Some(60000u64) && interval_ms == Some(1000u64),
{
    ReadyWhen::Http { url, timeout_ms: Some(60000), interval_ms: Some(1000) }
}

/// The seconds an answer gives, 5 where it gives none.
pub open spec fn delay_seconds(answer: Seq<char>) -> nat {
    match text::parse_unsigned(answer, u64::MAX as nat) {
        Some(s) => s,
        None => 5,
    }
}

/// Ready after the number of seconds answered (5 where it is no number).
pub fn delay_ready(seconds: &str) -> (r: ReadyWhen)
    requires
        delay_seconds(seconds@) * 1000 <= u64::MAX,
    ensures
        r matches ReadyWhen::Delay { ms } && ms == delay_seconds(seconds@) * 1000,
{
    let s = match text::parse_unsigned_str(seconds, u64::MAX) {
        Some(s) => s,
        None => 5,
    };
    ReadyWhen::Delay { ms: s * 1000 }
}

/// Whether `delay_ready` can take this answer: its seconds, in
/// milliseconds, fit in a `u64`.
pub fn delay_fits(seconds: &str) -> (r: bool)
    ensures
        r == (delay_seconds(seconds@) * 1000 <= u64::MAX),
{
    match text::parse_unsigned_str(seconds, u64::MAX) {
        Some(s) => s <= u64::MAX / 1000,
        None => true,
    }
}

/// `p` is the simple process named `name` that runs `cmd args` in `cwd`,
/// with nothing else set.
pub open spec fn simple_config(
    p: ProcessConfig,
    name: Seq<char>,
    cmd: Seq<char>,
    args: Seq<Seq<char>>,
    cwd: Seq<char>,
) -> bool {
    &&& p.name@ == name
    &&& p.kind@ == "simple"@
    &&& p.cmd matches Some(c) && c@ == cmd
    &&& text::views(p.args@) == args
    &&& p.cwd matches Some(c) && c@ == cwd
    &&& p.color is None && p.port is None && p.ready_when is None
    &&& p.depends_on.len() == 0
    &&& p.vars@ == Map::<Seq<char>, Seq<char>>::empty()
    &&& p.steps.len() == 0
}

/// A simple process running `cmd args` in `cwd`, with nothing else set.
pub fn simple_process(name: String, cmd: String, args: Vec<String>, cwd: String) -> (p:
    ProcessConfig)
    ensures
        simple_config(p, name@, cmd@, text::views(args@), cwd@),
        p.args@ == args@,
{
    ProcessConfig {
        name,
        kind: String::from_str("simple"),
        cmd: Some(cmd),
        args,
        cwd: Some(cwd),
        color: None,
        port: None,
        ready_when: None,
        depends_on: Vec::new(),
        vars: VarMap::new(),
        steps: Vec::new(),
    }
}

/// The colour given to the `n`-th process configured without one.
pub fn default_color(n: usize) -> (r: String)
    ensures
        r@ == crate::ui::palette()[(n % 7) as int],
{
    String::from_str(crate::ui::palette_color(n))
}

/// The title offered for a project: its folder's name upper-cased, or
/// `TUI RUNNER`.
pub open spec fn title_for(root: Seq<char>, windows: bool) -> Seq<char> {
    match paths::file_name(root, windows) {
        Some(n) => text::uppercase(n),
        None => "TUI RUNNER"@,
    }
}

pub fn default_title(root: &str, windows: bool) -> (r: String)
    ensures
        r@ == title_for(root@, windows),
{
    match paths::file_name_of(root, windows) {
        Some(n) => text::to_uppercase(n.as_str()),
        None => String::from_str("TUI RUNNER"),
    }
}


/// An answer that is the number of an item of the list, written in
/// decimal, picks that item (counted from 1) and is no fallback; a number
/// outside the list falls back to the first item.
pub proof fn law_choice_picks_numbered_item(k: nat, n: usize)
    requires
        n > 0,
    ensures
        1 <= k <= n ==> choice(text::decimal(k), n) == ((k - 1) as usize, false),
        (k == 0 || (n < k <= usize::MAX)) ==> choice(text::decimal(k), n) == (0usize, true),
{
    if k <= usize::MAX {
        text::law_parse_decimal(k, usize::MAX as nat);
    }
}

} // verus!
