use tui_runner::config::ReadyWhen;
use tui_runner::detect::Candidate;
use tui_runner::setup::{add_process, names_of, Prompt, Question, Reply, Setup, Stage};
use tui_runner::wizard::{simple_process, Emulator};

fn s(x: &str) -> String {
    x.to_string()
}

fn text_prompt(q: &Question) -> (String, String) {
    match &q.prompt {
        Prompt::Text { question, default_answer } => (question.clone(), default_answer.clone()),
        _ => panic!("expected a text question"),
    }
}

fn node_candidate() -> Candidate {
    Candidate {
        suggested_name: s("web"),
        kind: s("simple"),
        cmd: Some(s("npm")),
        args: vec![s("run"), s("dev")],
        cwd: s("web"),
        language: s("node"),
        notes: s("vite app"),
        available_scripts: vec![s("dev"), s("start")],
    }
}

#[test]
fn detected_project_dialogue() {
    let mut d = Setup::for_candidate(node_candidate(), 0, vec![s("api")]);
    let q = d.question();
    assert_eq!(q.notice, vec![s("\nDetected: node project in \"web\""), s("  vite app")]);
    match &q.prompt {
        Prompt::YesNo { question, default_answer } => {
            assert_eq!(question, "Include \"web\"?");
            assert!(*default_answer);
        }
        _ => panic!("expected a yes/no question"),
    }
    d.answer(Reply::YesNo(true));
    assert_eq!(text_prompt(&d.question()), (s("  Name:"), s("web")));
    d.answer(Reply::Text(s("api")));
    assert!(d.stage == Stage::Rename);
    assert_eq!(
        text_prompt(&d.question()),
        (s("  \"api\" is already used. Pick another name:"), s("api-0"))
    );
    d.answer(Reply::Text(s("api-0")));
    assert_eq!(
        text_prompt(&d.question()),
        (s("  Working directory (relative to project root):"), s("web"))
    );
    d.answer(Reply::Text(s("web")));
    match d.question().prompt {
        Prompt::Pick { question, items } => {
            assert_eq!(question, "  Which npm script should this run?");
            assert_eq!(items, vec![s("dev"), s("start")]);
        }
        _ => panic!("expected a pick"),
    }
    d.answer(Reply::Pick(1));
    assert_eq!(text_prompt(&d.question()), (s("  Command to run:"), s("npm run start")));
    d.answer(Reply::Text(s("npm run start")));
    d.answer(Reply::Text(s("5173")));
    d.answer(Reply::Text(s("")));
    assert_eq!(
        text_prompt(&d.question()).0,
        "  Depends on (comma-separated names, currently: api; blank = none):"
    );
    d.answer(Reply::Text(s("api, ,db")));
    d.answer(Reply::YesNo(true));
    match d.question().prompt {
        Prompt::Pick { items, .. } => assert_eq!(items.len(), 3),
        _ => panic!("expected a pick"),
    }
    d.answer(Reply::Pick(1));
    assert_eq!(text_prompt(&d.question()), (s("  URL to poll:"), s("http://localhost:3000")));
    d.answer(Reply::Text(s("http://localhost:5173")));
    assert!(d.stage == Stage::Done);
    let p = d.process.unwrap();
    assert_eq!(p.name, "api-0");
    assert_eq!(p.kind, "simple");
    assert_eq!(p.cmd, Some(s("npm")));
    assert_eq!(p.args, vec![s("run"), s("start")]);
    assert_eq!(p.cwd, Some(s("web")));
    assert_eq!(p.port, Some(5173));
    assert_eq!(p.color, None);
    assert_eq!(p.depends_on, vec![s("api"), s("db")]);
    match p.ready_when {
        Some(ReadyWhen::Http { url, timeout_ms, interval_ms }) => {
            assert_eq!(url, "http://localhost:5173");
            assert_eq!((timeout_ms, interval_ms), (Some(60000), Some(1000)));
        }
        _ => panic!("expected an http check"),
    }
}

#[test]
fn declined_project_is_left_out() {
    let mut d = Setup::for_candidate(node_candidate(), 3, vec![]);
    d.answer(Reply::YesNo(false));
    assert!(d.stage == Stage::Done);
    assert!(d.process.is_none());
}

#[test]
fn custom_process_dialogue() {
    let mut d = Setup::custom(1, vec![]);
    assert_eq!(text_prompt(&d.question()), (s("  Name:"), s("custom-1")));
    d.answer(Reply::Text(s("worker")));
    assert_eq!(
        text_prompt(&d.question()),
        (s("  Working directory (relative to project root):"), s("."))
    );
    d.answer(Reply::Text(s(".")));
    assert_eq!(text_prompt(&d.question()), (s("  Command to run:"), s("")));
    d.answer(Reply::Text(s("")));
    assert_eq!(
        text_prompt(&d.question()),
        (s("  Port to free before starting (blank = none):"), s(""))
    );
    d.answer(Reply::Text(s("not a port")));
    assert!(d.stage == Stage::Done);
    let p = d.process.unwrap();
    assert_eq!(p.cmd, Some(s("echo")));
    assert!(p.args.is_empty());
    assert_eq!(p.port, None);
}

#[test]
fn flutter_dialogue_without_emulators() {
    let c = Candidate {
        suggested_name: s("mobile"),
        kind: s("multistep-mobile"),
        cmd: None,
        args: vec![],
        cwd: s("app"),
        language: s("flutter"),
        notes: s(""),
        available_scripts: vec![],
    };
    let mut d = Setup::for_candidate(c, 0, vec![]);
    assert_eq!(d.question().notice.len(), 1);
    d.answer(Reply::YesNo(true));
    d.answer(Reply::Text(s("mobile")));
    d.answer(Reply::Text(s("app")));
    assert!(matches!(d.question().prompt, Prompt::ListEmulators));
    d.answer(Reply::Emulators(vec![]));
    let q = d.question();
    assert_eq!(
        q.notice,
        vec![s("  No emulators found via `flutter emulators` - you can edit tui.config.json later.")]
    );
    assert_eq!(text_prompt(&q), (s("  Emulator id to launch:"), s("")));
    d.answer(Reply::Text(s("Pixel_7")));
    d.answer(Reply::Text(s("")));
    d.answer(Reply::Text(s("teal")));
    d.answer(Reply::Text(s("")));
    d.answer(Reply::YesNo(true));
    d.answer(Reply::Pick(2));
    assert_eq!(text_prompt(&d.question()), (s("  Seconds to wait:"), s("5")));
    d.answer(Reply::Text(s("7")));
    let p = d.process.unwrap();
    assert_eq!(p.kind, "multistep");
    assert_eq!(p.color, Some(s("teal")));
    assert_eq!(p.vars.get("emulatorId"), Some(s("Pixel_7")));
    assert_eq!(p.steps.len(), 2);
    assert!(matches!(p.ready_when, Some(ReadyWhen::Delay { ms: 7000 })));
}

#[test]
fn flutter_dialogue_picks_an_emulator() {
    let c = Candidate {
        suggested_name: s("mobile"),
        kind: s("multistep-mobile"),
        cmd: None,
        args: vec![],
        cwd: s("app"),
        language: s("flutter"),
        notes: s(""),
        available_scripts: vec![],
    };
    let mut d = Setup::for_candidate(c, 0, vec![]);
    d.answer(Reply::YesNo(true));
    d.answer(Reply::Text(s("mobile")));
    d.answer(Reply::Text(s("app")));
    d.answer(Reply::Emulators(vec![
        Emulator { id: s("a1"), name: s("Pixel") },
        Emulator { id: s("b2"), name: s("Nexus") },
    ]));
    match d.question().prompt {
        Prompt::Pick { question, items } => {
            assert_eq!(question, "Available Flutter emulators:");
            assert_eq!(items, vec![s("Pixel (a1)"), s("Nexus (b2)")]);
        }
        _ => panic!("expected a pick"),
    }
    d.answer(Reply::Pick(1));
    assert!(d.stage == Stage::Port);
    assert_eq!(d.process.as_ref().unwrap().vars.get("emulatorId"), Some(s("b2")));
}

#[test]
fn added_processes_get_palette_colours() {
    let mut ps = Vec::new();
    add_process(&mut ps, simple_process(s("a"), s("x"), vec![], s(".")));
    let mut own = simple_process(s("b"), s("y"), vec![], s("."));
    own.color = Some(s("red"));
    add_process(&mut ps, own);
    add_process(&mut ps, simple_process(s("c"), s("z"), vec![], s(".")));
    assert_eq!(ps[0].color, Some(s("green")));
    assert_eq!(ps[1].color, Some(s("red")));
    assert_eq!(ps[2].color, Some(s("magenta")));
    assert_eq!(names_of(&ps), vec![s("a"), s("b"), s("c")]);
}

#[test]
fn wizard_names_stay_distinct() {
    let mut ps = Vec::new();
    for round in 0..2 {
        let mut d = Setup::custom(1, names_of(&ps));
        d.answer(Reply::Text(s("svc")));
        if round == 0 {
            assert!(d.stage == Stage::Cwd);
        } else {
            assert!(d.stage == Stage::Rename);
            assert_eq!(text_prompt(&d.question()).1, "svc-1");
            d.answer(Reply::Text(s("svc")));
            assert!(d.stage == Stage::Rename);
            d.answer(Reply::Text(s("svc-1")));
        }
        d.answer(Reply::Text(s(".")));
        d.answer(Reply::Text(s("run it")));
        d.answer(Reply::Text(s("")));
        assert!(d.stage == Stage::Done);
        add_process(&mut ps, d.process.unwrap());
    }
    assert_eq!(names_of(&ps), vec![s("svc"), s("svc-1")]);
    assert_eq!(ps[1].cmd, Some(s("run")));
    assert_eq!(ps[1].args, vec![s("it")]);
    assert_eq!(ps[1].color, Some(s("cyan")));
}
