use tui_runner::langscan::{
    exe_candidates, installed_count, languages, lookup_order, os_summary_line, probe, scan_languages, version_line,
    Probe,
};
use tui_runner::ports::{freed_line, kill_command, kill_port, kill_ports, pids_to_kill, port_query_command};
use tui_runner::project_creator::{available_frameworks, command_line, frameworks, required_tool, scaffold_plan};
use tui_runner::wizard::{
    answer_or_default, choice_answer, default_color, default_command_line, default_title, delay_fits,
    delay_ready, emulator_label, flutter_process, http_ready, parse_depends, parse_emulators,
    parse_port, regex_ready, renamed, simple_process, split_command, yes_no_answer, yes_no_hint,
};
use tui_runner::config::ReadyWhen;

fn s(x: &str) -> String {
    x.to_string()
}

#[test]
fn language_table_and_probes() {
    let langs = languages();
    assert_eq!(langs.len(), 31);
    assert_eq!(langs[0].cmd, "node");
    assert_eq!(langs[6].home_env, Some("JAVA_HOME"));
    assert_eq!(version_line("v20.1.0\nmore", "x"), "v20.1.0");
    assert_eq!(version_line("", "  openjdk 21  \n"), "openjdk 21");
    assert_eq!(version_line("", ""), "");
    let java = langs[6];
    let d = probe(java, &Probe { on_path: true, env_value: Some(s("/jdk")), output: Some((s(""), s("java 21\n"))) });
    assert!(d.installed);
    assert_eq!(d.version, "java 21");
    assert_eq!(d.env_hint, Some(("JAVA_HOME", s("/jdk"))));
    let d = probe(java, &Probe { on_path: false, env_value: None, output: Some((s("x"), s(""))) });
    assert!(!d.installed);
    assert_eq!(d.version, "");
    let probes: Vec<Probe> = (0..31).map(|i| Probe { on_path: i % 10 == 0, env_value: None, output: None }).collect();
    let all = scan_languages(&probes);
    assert_eq!(all.len(), 31);
    assert_eq!(installed_count(&all), 4);
}

#[test]
fn executable_names() {
    assert_eq!(exe_candidates("npm", false, &None), vec![s("npm")]);
    assert_eq!(exe_candidates("npm", true, &Some(s(".EXE;;.CMD"))), vec![s("npm.exe"), s("npm.cmd"), s("npm")]);
    assert_eq!(exe_candidates("go", true, &None).len(), 5);
}

#[test]
fn path_lookup_order_and_summary() {
    let dirs = vec![s("/usr/bin"), s("/opt/tools/"), s("")];
    let names = vec![s("npm.cmd"), s("npm")];
    assert_eq!(
        lookup_order(&dirs, &names, false),
        vec![s("/usr/bin/npm.cmd"), s("/usr/bin/npm"), s("/opt/tools/npm.cmd"), s("/opt/tools/npm"), s("npm.cmd"), s("npm")]
    );
    assert!(lookup_order(&vec![], &names, false).is_empty());
    assert_eq!(os_summary_line("linux", "x86_64"), "linux / x86_64");
}

#[test]
fn freeing_one_port() {
    let cmds = kill_port(3000, false, "12\n\n 34\n");
    assert_eq!(cmds.len(), 2);
    assert_eq!(cmds[0].0, "12");
    assert_eq!((cmds[0].1.program.clone(), cmds[0].1.args.clone()), (s("kill"), vec![s("-9"), s("12")]));
    assert_eq!(cmds[1].0, "34");
    assert_eq!(cmds[1].1.args, vec![s("-9"), s("34")]);
    let cmds = kill_port(3000, true, "TCP 0.0.0.0:3000 x LISTENING 4242\nTCP 0.0.0.0:3001 x LISTENING 5\n");
    assert_eq!(cmds.len(), 1);
    assert_eq!(cmds[0].0, "4242");
    assert_eq!(cmds[0].1.args, vec![s("/PID"), s("4242"), s("/F")]);
    assert!(kill_port(3000, false, "").is_empty());
}

#[test]
fn port_cleanup_commands() {
    assert_eq!(kill_ports(&vec![Some(3000), None, Some(8080)]), vec![3000, 8080]);
    let q = port_query_command(3000, false);
    assert_eq!((q.program, q.args), (s("lsof"), vec![s("-ti:3000")]));
    let q = port_query_command(3000, true);
    assert_eq!((q.program, q.args), (s("netstat"), vec![s("-ano")]));
    assert_eq!(pids_to_kill("123\n\n 456 \n", 3000, false), vec![s("123"), s("456")]);
    let netstat = "  Proto  Local Address          Foreign Address        State           PID\n  \
                   TCP    0.0.0.0:3000           0.0.0.0:0              LISTENING       4242\n  \
                   TCP    [::]:3000              [::]:0                 LISTENING       77\n  \
                   TCP    0.0.0.0:30001          0.0.0.0:0              LISTENING       99\n";
    assert_eq!(pids_to_kill(netstat, 3000, true), vec![s("4242"), s("77")]);
    assert!(pids_to_kill("0.0.0.0:3000 x LISTENING 4242\r\n", 3000, true).is_empty());
    assert_eq!(pids_to_kill("  TCP 0.0.0.0:3000 x LISTENING 4242\r\n", 3000, true), vec![s("4242")]);
    assert!(pids_to_kill("  TCP 0.0.0.0:3000 x ESTABLISHED 4242\n", 3000, true).is_empty());
    let k = kill_command("4242", true);
    assert_eq!((k.program, k.args), (s("taskkill"), vec![s("/PID"), s("4242"), s("/F")]));
    let k = kill_command("17", false);
    assert_eq!((k.program, k.args), (s("kill"), vec![s("-9"), s("17")]));
    assert_eq!(freed_line(3000, "17"), "Freed port 3000 (killed stale PID 17)");
}

#[test]
fn scaffolds_offered_and_planned() {
    let fws = frameworks();
    assert_eq!(fws.len(), 19);
    assert_eq!(required_tool(&fws[1]), "npm");
    assert_eq!(required_tool(&fws[9]), "cargo");
    assert_eq!(available_frameworks(&vec![s("npm")]), vec![0, 1, 2, 3, 4, 7]);
    assert_eq!(available_frameworks(&vec![s("cargo"), s("go")]), vec![9, 11]);
    assert!(available_frameworks(&vec![]).is_empty());
    let p = scaffold_plan(15, "/work/demo", false);
    assert_eq!(p.project_name, "demo");
    assert!(!p.create_dir);
    assert_eq!(p.run_dir, "/work");
    assert_eq!(p.cmd, "mvn");
    assert_eq!(p.args[2], "-DartifactId=demo");
    assert!(p.install.is_none());
    let p = scaffold_plan(11, "/work/svc/", false);
    assert!(p.create_dir);
    assert_eq!(p.run_dir, "/work/svc/");
    assert_eq!(p.args, vec![s("mod"), s("init"), s("svc")]);
    assert_eq!(p.install, Some((s("go"), vec![s("mod"), s("tidy")])));
    assert_eq!(command_line("go", &p.args), "go mod init svc");
    let p = scaffold_plan(11, "C:\\Users\\me\\demo", true);
    assert_eq!(p.project_name, "demo");
    assert_eq!(p.args, vec![s("mod"), s("init"), s("demo")]);
    let p = scaffold_plan(15, "C:\\Users\\me\\demo", true);
    assert_eq!(p.run_dir, "C:\\Users\\me");
}

#[test]
fn wizard_answers() {
    assert_eq!(answer_or_default("   ", "dflt"), "dflt");
    assert_eq!(answer_or_default("  x y ", "dflt"), "x y");
    assert_eq!(yes_no_hint(true), "Y/n");
    assert!(yes_no_answer("YES", false));
    assert!(yes_no_answer("Y", false));
    assert!(!yes_no_answer("no", true));
    assert!(yes_no_answer("", true));
    assert!(!yes_no_answer("yep", true));
    assert_eq!(choice_answer("2", 3), (1, false));
    assert_eq!(choice_answer("0", 3), (0, true));
    assert_eq!(choice_answer("abc", 3), (0, true));
    assert_eq!(choice_answer("4", 3), (0, true));
    assert_eq!(parse_port("8080"), Some(8080));
    assert_eq!(parse_port("70000"), None);
    assert_eq!(parse_depends(" api , ,db"), vec![s("api"), s("db")]);
    assert!(parse_depends("").is_empty());
    assert_eq!(renamed("web", 2), "web-2");
    assert_eq!(split_command("  npm  run dev ", ""), (s("npm"), vec![s("run"), s("dev")]));
    assert_eq!(split_command("   ", "echo"), (s("echo"), vec![]));
    assert_eq!(default_command_line("npm", &vec![s("run"), s("dev")]), "npm run dev");
    assert_eq!(default_command_line("", &vec![]), "");
    assert_eq!(default_color(9), "magenta");
    assert_eq!(default_title("/home/me/shop", false), "SHOP");
    assert_eq!(default_title("/", false), "TUI RUNNER");
    assert_eq!(default_title("C:\\work\\shop", true), "SHOP");
    assert_eq!(default_title("C:\\", true), "TUI RUNNER");
}

#[test]
fn wizard_readiness_choices() {
    match regex_ready(s("ready|listening")) {
        ReadyWhen::Regex { pattern, flags } => assert_eq!((pattern, flags), (s("ready|listening"), Some(s("i")))),
        _ => panic!("expected a regex"),
    }
    match http_ready(s("http://localhost:3000")) {
        ReadyWhen::Http { timeout_ms, interval_ms, .. } => assert_eq!((timeout_ms, interval_ms), (Some(60000), Some(1000))),
        _ => panic!("expected http"),
    }
    match delay_ready("7") {
        ReadyWhen::Delay { ms } => assert_eq!(ms, 7000),
        _ => panic!("expected a delay"),
    }
    match delay_ready("soon") {
        ReadyWhen::Delay { ms } => assert_eq!(ms, 5000),
        _ => panic!("expected a delay"),
    }
    assert!(delay_fits("18446744073709551"));
    assert!(!delay_fits("18446744073709552"));
}

#[test]
fn flutter_emulators_and_process() {
    let out = "2 available emulators:\n\nId          • Name    • Manufacturer • Platform\n\
               Pixel_7     • Pixel 7 • Google       • android\nbare_id\n•nameless\n";
    let emus = parse_emulators(out);
    assert_eq!(emus.len(), 2);
    assert_eq!((emus[0].id.as_str(), emus[0].name.as_str()), ("Pixel_7", "Pixel 7"));
    assert_eq!((emus[1].id.as_str(), emus[1].name.as_str()), ("bare_id", "bare_id"));
    assert_eq!(emulator_label(&emus[0]), "Pixel 7 (Pixel_7)");
    let p = flutter_process(s("mobile"), s("app"), s("Pixel_7"));
    assert_eq!(p.kind, "multistep");
    assert!(p.is_multistep());
    assert_eq!(p.steps.len(), 2);
    assert_eq!(p.vars.get("emulatorId"), Some(s("Pixel_7")));
    assert_eq!(p.steps[1].args, vec![s("run"), s("-d"), s("{deviceId}")]);
    let c = simple_process(s("api"), s("go"), vec![s("run"), s(".")], s("api"));
    assert_eq!(c.cmd, Some(s("go")));
    assert_eq!(c.kind, "simple");
}
