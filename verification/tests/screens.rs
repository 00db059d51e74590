use tui_runner::engine::{LogEvent, LogKind};
use tui_runner::filebrowser::{sort_entries, BrowserAction, DirEntry, FileBrowser, InputMode};
use tui_runner::menus::{framework_step, home_step, move_down, move_up, report_step, HomeChoice, Key, MenuStep};
use tui_runner::config::ProcessConfig;
use tui_runner::ui::{color_from_name, pane_percent, palette_color, visible_window, Dashboard, PaneColor};
use tui_runner::vars::VarMap;

fn s(x: &str) -> String {
    x.to_string()
}

fn entry(name: &str, is_dir: bool) -> DirEntry {
    DirEntry { name: s(name), is_dir }
}

#[test]
fn list_navigation_wraps() {
    assert_eq!(move_up(Some(0), 3), 2);
    assert_eq!(move_up(Some(2), 3), 1);
    assert_eq!(move_up(None, 3), 2);
    assert_eq!(move_down(Some(2), 3), 0);
    assert_eq!(move_down(None, 3), 1);
    for i in 0..5 {
        assert_eq!(move_up(Some(move_down(Some(i), 5)), 5), i);
    }
}

#[test]
fn home_menu_keys() {
    assert!(matches!(home_step(Some(0), &Key::Down), MenuStep::Select(1)));
    assert!(matches!(home_step(Some(0), &Key::Up), MenuStep::Select(1)));
    assert!(matches!(home_step(Some(1), &Key::Enter), MenuStep::Done(Some(HomeChoice::BrowsePC))));
    assert!(matches!(home_step(Some(0), &Key::Enter), MenuStep::Done(Some(HomeChoice::CreateProject))));
    assert!(matches!(home_step(Some(0), &Key::Char('q', false)), MenuStep::Done(None)));
    assert!(matches!(home_step(Some(0), &Key::Char('c', true)), MenuStep::Done(None)));
    assert!(matches!(home_step(Some(0), &Key::Char('c', false)), MenuStep::Stay));
    assert!(matches!(report_step(Some(0), 4, &Key::Enter), MenuStep::Done(true)));
    assert!(matches!(report_step(Some(0), 4, &Key::Esc), MenuStep::Done(false)));
    assert!(matches!(report_step(Some(0), 4, &Key::Up), MenuStep::Select(3)));
    let rows = vec![3, 7, 9];
    assert!(matches!(framework_step(Some(1), &rows, &Key::Enter), MenuStep::Done(Some(7))));
    assert!(matches!(framework_step(Some(2), &rows, &Key::Down), MenuStep::Select(0)));
    assert!(matches!(framework_step(Some(2), &rows, &Key::Esc), MenuStep::Done(None)));
}

#[test]
fn listing_is_sorted_dirs_first() {
    let sorted = sort_entries(vec![entry("b", false), entry("a", true), entry("C", false), entry("a2", false)]);
    let names: Vec<String> = sorted.iter().map(|e| e.name.clone()).collect();
    assert_eq!(names, vec![s("C"), s("a"), s("a2"), s("b")]);
    let b = FileBrowser::new(s("/home/me"), vec![entry("zeta.txt", false), entry("src", true), entry("alpha", true)], false);
    let rows: Vec<String> = b.entries().iter().map(|e| e.name.clone()).collect();
    assert_eq!(rows, vec![s("../"), s("alpha/"), s("src/"), s("zeta.txt")]);
    assert!(b.entries()[0].is_parent);
    assert_eq!(b.selected(), Some(0));
    assert_eq!(b.selected_path(), "/home");
    let root = FileBrowser::new(s("/"), vec![], false);
    assert!(root.entries().is_empty());
    assert_eq!(root.selected(), None);
    assert_eq!(root.selected_path(), "/");
    let drive = FileBrowser::new(s("C:\\"), vec![entry("Users", true)], true);
    assert_eq!(drive.entries().len(), 1);
    assert_eq!(drive.entries()[0].name, "Users/");
    assert_eq!(drive.selected_path(), "C:\\Users");
    let sub = FileBrowser::new(s("C:\\Users"), vec![], true);
    assert_eq!(sub.entries()[0].name, "../");
    assert_eq!(sub.selected_path(), "C:\\");
}

#[test]
fn browser_navigates_and_confirms() {
    let mut b = FileBrowser::new(s("/home/me"), vec![entry("src", true), entry("a.txt", false)], false);
    b.handle_key(&Key::Down);
    assert_eq!(b.selected(), Some(1));
    assert_eq!(b.selected_path(), "/home/me/src");
    assert!(matches!(b.handle_key(&Key::Enter), BrowserAction::Reload));
    assert_eq!(b.current_dir(), "/home/me/src");
    b.refresh(vec![entry("main.rs", false)]);
    assert_eq!(b.entries().len(), 2);
    b.handle_key(&Key::Down);
    assert!(matches!(b.handle_key(&Key::Enter), BrowserAction::Nothing));
    match b.handle_key(&Key::Char(' ', false)) {
        BrowserAction::Confirm(p) => assert_eq!(p, "/home/me/src"),
        _ => panic!("expected the folder to be confirmed"),
    }
    b.handle_key(&Key::Up);
    assert!(matches!(b.handle_key(&Key::Enter), BrowserAction::Reload));
    assert_eq!(b.current_dir(), "/home/me");
    assert!(matches!(b.handle_key(&Key::Esc), BrowserAction::Cancel));
    assert!(matches!(b.handle_key(&Key::Char('c', true)), BrowserAction::Cancel));
}

#[test]
fn browser_creates_folders() {
    let mut b = FileBrowser::new(s("/w"), vec![], false);
    b.handle_key(&Key::Char('n', false));
    assert!(b.mode() == InputMode::CreatingFolder);
    assert!(matches!(b.handle_key(&Key::Enter), BrowserAction::Nothing));
    assert_eq!(b.error(), &Some(s("Folder name cannot be empty.")));
    for c in " newx".chars() {
        b.handle_key(&Key::Char(c, false));
    }
    b.handle_key(&Key::Backspace);
    assert_eq!(b.input(), " new");
    match b.handle_key(&Key::Enter) {
        BrowserAction::CreateFolder(p) => assert_eq!(p, "/w/new"),
        _ => panic!("expected a folder to create"),
    }
    b.folder_created(s("/w/new"));
    assert!(b.mode() == InputMode::Normal);
    assert_eq!(b.current_dir(), "/w/new");
    b.handle_key(&Key::Char('n', false));
    b.handle_key(&Key::Char('x', false));
    b.folder_failed("permission denied");
    assert_eq!(b.error(), &Some(s("Error: permission denied")));
    assert_eq!(b.input(), "");
    b.handle_key(&Key::Char('n', false));
    b.handle_key(&Key::Esc);
    assert!(b.mode() == InputMode::Normal);
    assert_eq!(b.error(), &None);
    b.handle_key(&Key::Char('n', false));
    b.handle_key(&Key::Char('c', false));
    assert_eq!(b.input(), "c");
    assert!(matches!(b.handle_key(&Key::Char('c', true)), BrowserAction::Cancel));
    assert_eq!(b.input(), "c");
    assert!(b.mode() == InputMode::CreatingFolder);
}

fn process(name: &str, color: Option<&str>) -> ProcessConfig {
    ProcessConfig {
        name: s(name),
        kind: s("simple"),
        cmd: None,
        args: vec![],
        cwd: None,
        color: color.map(s),
        port: None,
        ready_when: None,
        depends_on: vec![],
        vars: VarMap::new(),
        steps: vec![],
    }
}

#[test]
fn dashboard_panes_and_keys() {
    assert!(color_from_name("magenta") == PaneColor::Magenta);
    assert!(color_from_name("purple") == PaneColor::White);
    assert_eq!(palette_color(8), "cyan");
    let procs = vec![process("api", None), process("web", Some("red")), process("db", None)];
    let mut d = Dashboard::new(&procs);
    assert!(d.panes()[0].color == PaneColor::Green);
    assert!(d.panes()[1].color == PaneColor::Red);
    assert!(d.panes()[2].color == PaneColor::Magenta);
    assert!(!d.handle_key(&Key::Tab));
    assert_eq!(d.focus(), 1);
    d.handle_key(&Key::PageUp);
    d.handle_key(&Key::Down);
    assert_eq!(d.panes()[1].scroll_from_bottom, 9);
    d.handle_key(&Key::PageDown);
    d.handle_key(&Key::PageDown);
    assert_eq!(d.panes()[1].scroll_from_bottom, 0);
    d.handle_key(&Key::Tab);
    d.handle_key(&Key::Tab);
    assert_eq!(d.focus(), 0);
    assert!(d.handle_key(&Key::Char('q', false)));
    assert!(d.handle_key(&Key::Char('c', true)));
}

#[test]
fn dashboard_keeps_the_newest_lines() {
    let procs = vec![process("api", None)];
    let mut d = Dashboard::new(&procs);
    for i in 0..2005 {
        d.push_event(LogEvent { pane: 0, kind: LogKind::Stdout, line: format!("line {}", i) });
    }
    d.push_event(LogEvent { pane: 7, kind: LogKind::Stderr, line: s("lost") });
    let lines = &d.panes()[0].lines;
    assert_eq!(lines.len(), 2000);
    assert_eq!(lines[0].text, "line 5");
    assert_eq!(lines[1999].text, "line 2004");
    assert_eq!(visible_window(100, 10, 20), (70, 90));
    assert_eq!(visible_window(5, 10, 20), (0, 0));
    assert_eq!(pane_percent(3), 33);
    assert_eq!(pane_percent(0), 100);
}
