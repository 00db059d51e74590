use tui_runner::config::{config_path, default_type, FallbackMatch, ProcessConfig, ReadyWhen, Step};
use tui_runner::detect::{detect_frameworks, detect_in_dir, has, scans_subdir, DirListing, Subdir};
use tui_runner::engine::{
    connect_address, connect_step, multistep_next, poll_step, MultistepState, StepAction, StepEvent,
    WaitStep, launch_line, line_signals_ready, plan_ready, poll_check, poll_waiting_line,
    ready_signal, resolve_cwd, simple_launch, step_launch, waiting_line, waits_for, ReadyPlan,
};
use tui_runner::json::JsonValue;
use tui_runner::vars::VarMap;

fn s(x: &str) -> String {
    x.to_string()
}

fn listing(path: &str, entries: &[&str]) -> DirListing {
    DirListing {
        path: s(path),
        entries: entries.iter().map(|e| s(e)).collect(),
        package_json: None,
        pubspec: String::new(),
        rails_environment: false,
    }
}

fn process(name: &str, deps: &[&str]) -> ProcessConfig {
    ProcessConfig {
        name: s(name),
        kind: s("simple"),
        cmd: Some(s("npm")),
        args: vec![s("run"), s("{script}")],
        cwd: Some(s("web")),
        color: None,
        port: None,
        ready_when: None,
        depends_on: deps.iter().map(|d| s(d)).collect(),
        vars: VarMap::from_pairs(vec![(s("script"), s("dev"))]),
        steps: vec![],
    }
}

#[test]
fn config_file_location_and_default_kind() {
    assert_eq!(config_path("/proj", false), "/proj/tui.config.json");
    assert_eq!(default_type(), "simple");
}

#[test]
fn detects_node_with_preferred_script() {
    let mut l = listing("/p/web", &["src", "package.json"]);
    l.package_json = Some(s(r#"{"name":"shop","scripts":{"build":"x","start":"y","dev":"z"}}"#));
    let c = detect_in_dir(&l, "web", false).unwrap();
    assert_eq!(c.suggested_name, "shop");
    assert_eq!(c.cmd, Some(s("npm")));
    assert_eq!(c.args, vec![s("run"), s("dev")]);
    assert_eq!(c.available_scripts, vec![s("build"), s("dev"), s("start")]);
    assert_eq!(c.notes, "package.json scripts: build, dev, start");
    assert_eq!(c.cwd, "web");
    assert_eq!(c.language, "node");
}

#[test]
fn detects_node_without_scripts_or_valid_json() {
    let mut l = listing("/p/api", &["package.json"]);
    l.package_json = Some(s("not json"));
    let c = detect_in_dir(&l, ".", false).unwrap();
    assert_eq!(c.suggested_name, "api");
    assert_eq!(c.args, vec![s("start")]);
    assert_eq!(c.notes, "package.json has no scripts defined");
    let mut l2 = listing("/p/api", &["package.json"]);
    l2.package_json = Some(s(r#"{"scripts":{"lint":"x","test":"y"}}"#));
    let c2 = detect_in_dir(&l2, "api", false).unwrap();
    assert_eq!(c2.args, vec![s("run"), s("lint")]);
}

#[test]
fn detects_dotnet_flutter_and_others() {
    let c = detect_in_dir(&listing("/p/svc", &["README.md", "Svc.csproj"]), "svc", false).unwrap();
    assert_eq!(c.cmd, Some(s("dotnet")));
    assert_eq!(c.notes, "found Svc.csproj");
    let mut f = listing("/p/mobile", &["pubspec.yaml"]);
    f.pubspec = s("name: app\ndependencies:\n  flutter:\n    sdk: flutter\n");
    let c = detect_in_dir(&f, "mobile", false).unwrap();
    assert_eq!(c.kind, "multistep-mobile");
    assert_eq!(c.cmd, None);
    assert_eq!(c.language, "flutter");
    let mut d = listing("/p/tool", &["pubspec.yaml"]);
    d.pubspec = s("name: tool\n");
    let c = detect_in_dir(&d, "tool", false).unwrap();
    assert_eq!(c.cmd, Some(s("dart")));
    let c = detect_in_dir(&listing("/p/rs", &["Cargo.toml"]), "rs", false).unwrap();
    assert_eq!((c.cmd, c.args), (Some(s("cargo")), vec![s("run")]));
    let c = detect_in_dir(&listing("/p/g", &["go.mod"]), "g", false).unwrap();
    assert_eq!(c.args, vec![s("run"), s(".")]);
    let mut r = listing("/p/rb", &["Gemfile"]);
    r.rails_environment = true;
    let c = detect_in_dir(&r, "rb", false).unwrap();
    assert_eq!(c.args, vec![s("exec"), s("rails"), s("server")]);
    let c = detect_in_dir(&listing("/p/j", &["build.gradle"]), "j", true).unwrap();
    assert_eq!(c.cmd, Some(s("gradlew.bat")));
    let c = detect_in_dir(&listing("/p/j", &["gradlew"]), "j", false).unwrap();
    assert_eq!(c.cmd, Some(s("./gradlew")));
    let c = detect_in_dir(&listing("/p/m", &["pom.xml"]), "m", false).unwrap();
    assert_eq!(c.args, vec![s("spring-boot:run")]);
    let c = detect_in_dir(&listing("/p/py", &["manage.py", "requirements.txt"]), "py", false).unwrap();
    assert_eq!(c.language, "python-django");
    assert!(detect_in_dir(&listing("/p/x", &["notes.txt"]), "x", false).is_none());
}

#[test]
fn scans_root_then_subdirectories() {
    assert!(!scans_subdir("node_modules"));
    assert!(!scans_subdir(".cache"));
    assert!(scans_subdir("backend"));
    let root = listing("/p", &["README.md"]);
    let subs = vec![
        Subdir { name: s("backend"), listing: listing("/p/backend", &["go.mod"]) },
        Subdir { name: s("node_modules"), listing: listing("/p/node_modules", &["Cargo.toml"]) },
        Subdir { name: s("api"), listing: listing("/p/api", &["Cargo.toml"]) },
    ];
    let found = detect_frameworks(&root, &subs, false);
    assert_eq!(found.len(), 2);
    assert_eq!(found[0].suggested_name, "backend");
    assert_eq!(found[1].cwd, "api");
    assert!(has(&vec![s("a"), s("b")], "b"));
}

#[test]
fn launches_with_variables_and_directory() {
    let p = process("web", &[]);
    let l = simple_launch(&p, "/proj", false);
    assert_eq!(l.cmd, "npm");
    assert_eq!(l.args, vec![s("run"), s("dev")]);
    assert_eq!(l.cwd, "/proj/web");
    assert_eq!(launch_line(&l), "$ npm run dev  (cwd: /proj/web)");
    assert_eq!(resolve_cwd("/proj", &None, false), "/proj");
    assert_eq!(resolve_cwd("C:\\proj", &Some(s("D:\\data")), true), "D:\\data");
    assert_eq!(resolve_cwd("C:\\proj", &Some(s("web")), true), "C:\\proj\\web");
    let shop = listing("C:\\work\\shop", &["Cargo.toml"]);
    assert_eq!(detect_in_dir(&shop, ".", true).unwrap().suggested_name, "shop");
    let step = Step { cmd: s("flutter"), args: vec![s("run"), s("-d"), s("{deviceId}")], ready_when: None };
    let vars = VarMap::from_pairs(vec![(s("deviceId"), s("emulator-5554"))]);
    let l = step_launch(&step, &vars, "/proj/mobile");
    assert_eq!(l.args, vec![s("run"), s("-d"), s("emulator-5554")]);
}

#[test]
fn plans_readiness_checks() {
    let vars = VarMap::from_pairs(vec![(s("port"), s("3000"))]);
    assert!(matches!(plan_ready(&None, &vars, "/p", false), ReadyPlan::Now));
    match plan_ready(&Some(ReadyWhen::Delay { ms: 250 }), &vars, "/p", false) {
        ReadyPlan::Delay { ms } => assert_eq!(ms, 250),
        _ => panic!("expected a delay"),
    }
    let http = ReadyWhen::Http { url: s("http://localhost:{port}/health"), timeout_ms: None, interval_ms: Some(5) };
    match plan_ready(&Some(http), &vars, "/p", false) {
        ReadyPlan::Connect { target, addr, timeout_ms, interval_ms } => {
            assert_eq!(target, "http://localhost:3000/health");
            assert_eq!(addr, "localhost:3000");
            assert_eq!((timeout_ms, interval_ms), (60000, 5));
        }
        _ => panic!("expected a connection check"),
    }
    assert_eq!(connect_address("https://example.com/x"), "example.com:80");
    let re = ReadyWhen::Regex { pattern: s("ready|listening"), flags: Some(s("i")) };
    let plan = plan_ready(&Some(re), &vars, "/p", false);
    assert!(line_signals_ready(&plan, "Server LISTENING on 3000"));
    assert!(!line_signals_ready(&plan, "compiling"));
    let bad = ReadyWhen::Regex { pattern: s("(unclosed"), flags: None };
    assert!(matches!(plan_ready(&Some(bad), &vars, "/p", false), ReadyPlan::Now));
    let case = ReadyWhen::Regex { pattern: s("ready"), flags: None };
    let plan = plan_ready(&Some(case), &vars, "/p", false);
    assert!(!line_signals_ready(&plan, "READY"));
}

fn flutter_poll() -> ReadyWhen {
    ReadyWhen::Poll {
        command: s("flutter"),
        args: vec![s("devices"), s("--machine")],
        cwd: Some(s("sub")),
        timeout_ms: None,
        interval_ms: None,
        match_field: Some(s("emulatorId")),
        match_value: Some(s("{emulatorId}")),
        fallback_match: Some(FallbackMatch { field: s("emulator"), value: JsonValue::Bool(true) }),
        capture_field: Some(s("id")),
        capture_as: Some(s("deviceId")),
    }
}

#[test]
fn polls_for_the_wanted_device() {
    let vars = VarMap::from_pairs(vec![(s("emulatorId"), s("Pixel_7"))]);
    let rw = flutter_poll();
    let want = match plan_ready(&Some(flutter_poll()), &vars, "/p", false) {
        ReadyPlan::Poll { command, args, cwd, timeout_ms, interval_ms, want } => {
            assert_eq!(command, "flutter");
            assert_eq!(args, vec![s("devices"), s("--machine")]);
            assert_eq!(cwd, "/p/sub");
            assert_eq!((timeout_ms, interval_ms), (90000, 2000));
            want
        }
        _ => panic!("expected a poll"),
    };
    assert_eq!(want, Some(s("Pixel_7")));
    let out = s(r#"[{"id":"chrome","emulator":false},{"id":"emulator-5554","emulatorId":"Pixel_7","emulator":true}]"#);
    let caught = poll_check(&Some(out), &rw, &want).unwrap();
    assert_eq!(caught.get("deviceId"), Some(s("emulator-5554")));
    let fallback = s(r#"[{"id":"emulator-5556","emulatorId":"Other","emulator":true}]"#);
    let caught = poll_check(&Some(fallback), &rw, &want).unwrap();
    assert_eq!(caught.get("deviceId"), Some(s("emulator-5556")));
    assert!(poll_check(&Some(s(r#"[{"id":"chrome"}]"#)), &rw, &want).is_none());
    assert!(poll_check(&Some(s("oops")), &rw, &want).is_none());
    assert!(poll_check(&None, &rw, &want).is_none());
    assert_eq!(poll_waiting_line(&want), "Still waiting for \"Pixel_7\"...");
}

#[test]
fn captured_compound_values_print_as_json() {
    let rw = ReadyWhen::Poll {
        command: s("x"),
        args: vec![],
        cwd: None,
        timeout_ms: None,
        interval_ms: None,
        match_field: Some(s("k")),
        match_value: None,
        fallback_match: Some(FallbackMatch { field: s("k"), value: JsonValue::Number(s("1")) }),
        capture_field: Some(s("info")),
        capture_as: Some(s("info")),
    };
    let out = s(r#"[{"k":1,"info":{"b":[1,2],"a":null}}]"#);
    let caught = poll_check(&Some(out), &rw, &None).unwrap();
    assert_eq!(caught.get("info"), Some(s(r#"{"a":null,"b":[1,2]}"#)));
}

#[test]
fn dependencies_name_the_last_process_of_each_name() {
    let procs = vec![process("api", &[]), process("web", &["api", "missing", "db"]), process("db", &[]), process("api", &[])];
    assert_eq!(ready_signal(&procs, 0), 3);
    assert_eq!(ready_signal(&procs, 1), 1);
    assert_eq!(waits_for(&procs, 1), vec![3, 2]);
    assert!(waits_for(&procs, 0).is_empty());
    assert_eq!(waiting_line(&procs[1].depends_on), "Waiting on: api, missing, db...");
    assert!(!procs[0].is_multistep());
}

#[test]
fn waiting_decisions() {
    assert!(matches!(connect_step(true, true, "http://x"), WaitStep::Ready(_)));
    match connect_step(false, true, "http://x") {
        WaitStep::GiveUp(line) => assert_eq!(line, "Timed out waiting on http://x"),
        _ => panic!("expected to give up"),
    }
    assert!(matches!(connect_step(false, false, "http://x"), WaitStep::Retry(None)));

    let rw = flutter_poll();
    let want = Some(s("Pixel_7"));
    let out = s(r#"[{"id":"emulator-5554","emulatorId":"Pixel_7"}]"#);
    match poll_step(&Some(out), &rw, &want, true) {
        WaitStep::Ready(c) => assert_eq!(c.get("deviceId"), Some(s("emulator-5554"))),
        _ => panic!("expected ready"),
    }
    match poll_step(&None, &rw, &want, false) {
        WaitStep::Retry(Some(line)) => assert_eq!(line, "Still waiting for \"Pixel_7\"..."),
        _ => panic!("expected a retry"),
    }
    match poll_step(&None, &rw, &want, true) {
        WaitStep::GiveUp(line) => assert_eq!(line, "Timed out waiting for Some(\"Pixel_7\")"),
        _ => panic!("expected to give up"),
    }
    match poll_step(&None, &rw, &None, true) {
        WaitStep::GiveUp(line) => assert_eq!(line, "Timed out waiting for None"),
        _ => panic!("expected to give up"),
    }
}

#[test]
fn json_numbers_compare_as_values() {
    let rw = ReadyWhen::Poll {
        command: s("x"),
        args: vec![],
        cwd: None,
        timeout_ms: None,
        interval_ms: None,
        match_field: None,
        match_value: None,
        fallback_match: Some(FallbackMatch { field: s("v"), value: JsonValue::Number(s("0.0")) }),
        capture_field: Some(s("id")),
        capture_as: Some(s("id")),
    };
    let caught = poll_check(&Some(s(r#"[{"v":0,"id":"a"},{"v":-0.0,"id":"b"}]"#)), &rw, &None).unwrap();
    assert_eq!(caught.get("id"), Some(s("b")));
    let rw = ReadyWhen::Poll {
        command: s("x"),
        args: vec![],
        cwd: None,
        timeout_ms: None,
        interval_ms: None,
        match_field: None,
        match_value: None,
        fallback_match: Some(FallbackMatch {
            field: s("v"),
            value: JsonValue::Object(vec![(s("b"), JsonValue::Null), (s("a"), JsonValue::Bool(true))]),
        }),
        capture_field: Some(s("id")),
        capture_as: Some(s("id")),
    };
    let caught = poll_check(&Some(s(r#"[{"v":{"a":false},"id":"x"},{"v":{"a":true,"b":null},"id":"y"}]"#)), &rw, &None).unwrap();
    assert_eq!(caught.get("id"), Some(s("y")));
}

fn multistep_process(n: usize) -> ProcessConfig {
    let mut p = process("mobile", &[]);
    p.kind = s("multistep");
    p.vars = VarMap::from_pairs(vec![(s("emulatorId"), s("Pixel_7"))]);
    let all = vec![
        Step { cmd: s("flutter"), args: vec![s("emulators"), s("--launch"), s("{emulatorId}")], ready_when: Some(flutter_poll()) },
        Step { cmd: s("flutter"), args: vec![s("run"), s("-d"), s("{deviceId}")], ready_when: None },
    ];
    p.steps = all.into_iter().take(n).collect();
    p
}

#[test]
fn multistep_runs_steps_in_order() {
    let p = multistep_process(2);
    let (st, a) = multistep_next(&p, "/p", MultistepState::new(&p), StepEvent::Start { killed: false });
    match a {
        StepAction::Launch { launch, step, last } => {
            assert_eq!((step, last), (0, false));
            assert_eq!(launch.args, vec![s("emulators"), s("--launch"), s("Pixel_7")]);
            assert_eq!(launch.cwd, "/p");
        }
        _ => panic!("expected the first step"),
    }
    let captured = VarMap::from_pairs(vec![(s("deviceId"), s("emulator-5554"))]);
    let (st, a) = multistep_next(&p, "/p", st, StepEvent::StepReady { captured, killed: false });
    assert_eq!(st.next, 1);
    assert_eq!(st.vars.get("emulatorId"), Some(s("Pixel_7")));
    match a {
        StepAction::Launch { launch, step, last } => {
            assert_eq!((step, last), (1, true));
            assert_eq!(launch.args, vec![s("run"), s("-d"), s("emulator-5554")]);
        }
        _ => panic!("expected the last step"),
    }
    let (_, a) = multistep_next(&p, "/p", st, StepEvent::StepReady { captured: VarMap::new(), killed: true });
    assert!(matches!(a, StepAction::SignalReady));
}

#[test]
fn multistep_stops_and_fails() {
    let p = multistep_process(2);
    let (_, a) = multistep_next(&p, "/p", MultistepState::new(&p), StepEvent::Start { killed: true });
    assert!(matches!(a, StepAction::Stop));
    let (st, _) = multistep_next(&p, "/p", MultistepState::new(&p), StepEvent::Start { killed: false });
    let (_, a) = multistep_next(&p, "/p", st, StepEvent::StepReady { captured: VarMap::new(), killed: true });
    assert!(matches!(a, StepAction::Stop));
    let (_, a) = multistep_next(&p, "/p", MultistepState::new(&p), StepEvent::SpawnFailed(s("no such file")));
    match a {
        StepAction::Fail(line) => assert_eq!(line, "Failed to start: no such file"),
        _ => panic!("expected a failure"),
    }
    let empty = multistep_process(0);
    let (_, a) = multistep_next(&empty, "/p", MultistepState::new(&empty), StepEvent::Start { killed: true });
    assert!(matches!(a, StepAction::SignalReady));
    let one = multistep_process(1);
    match multistep_next(&one, "/p", MultistepState::new(&one), StepEvent::Start { killed: false }).1 {
        StepAction::Launch { step, last, .. } => assert_eq!((step, last), (0, true)),
        _ => panic!("expected the only step"),
    }
}
