//! The project configuration: the processes to run and how to tell that
//! each is ready.
use vstd::prelude::*;
use crate::json::JsonValue;
use crate::paths;
use crate::text;
use crate::vars::VarMap;

verus! {

/// A process configuration as read from `tui.config.json`.
pub struct Config {
    pub title: String,
    pub processes: Vec<ProcessConfig>,
}

/// One process to run: a single command, or (`kind` "multistep") an ordered
/// list of steps.
pub struct ProcessConfig {
    pub name: String,
    /// "simple" or "multistep".
    pub kind: String,
    pub cmd: Option<String>,
    pub args: Vec<String>,
    pub cwd: Option<String>,
    pub color: Option<String>,
    pub port: Option<u16>,
    pub ready_when: Option<ReadyWhen>,
    pub depends_on: Vec<String>,
    pub vars: VarMap,
    pub steps: Vec<Step>,
}

/// One step of a multistep process.
pub struct Step {
    pub cmd: String,
    pub args: Vec<String>,
    pub ready_when: Option<ReadyWhen>,
}

/// How to tell that a process (or step) is ready.
pub enum ReadyWhen {
    /// After a fixed delay.
    Delay { ms: u64 },
    /// When a line of its output matches a regular expression.
    Regex { pattern: String, flags: Option<String> },
    /// When a TCP connection to the URL's host and port succeeds.
    Http { url: String, timeout_ms: Option<u64>, interval_ms: Option<u64> },
    /// When a command's JSON output holds a matching item.
    Poll {
        command: String,
        args: Vec<String>,
        cwd: Option<String>,
        timeout_ms: Option<u64>,
        interval_ms: Option<u64>,
        match_field: Option<String>,
        match_value: Option<String>,
        fallback_match: Option<FallbackMatch>,
        capture_field: Option<String>,
        capture_as: Option<String>,
    },
}

/// An item matches when its member `field` equals `value`.
pub struct FallbackMatch {
    pub field: String,
    pub value: JsonValue,
}

/// The name of the configuration file.
pub open spec fn config_file_name() -> Seq<char> {
    "tui.config.json"@
}

/// The process kind used when the configuration names none.
pub fn default_type() -> (r: String)
    ensures
        r@ == "simple"@,
{
    String::from_str("simple")
}

/// Where the configuration of the project at `root` is kept, on Windows
/// (`windows`) or Unix.
pub fn config_path(root: &str, windows: bool) -> (r: String)
    ensures
        r@ == paths::join_path(root@, config_file_name(), windows),
{
    paths::join(root, "tui.config.json", windows)
}

impl ProcessConfig {
    /// Whether the process runs an ordered list of steps.
    pub fn is_multistep(&self) -> (r: bool)
        ensures
            r == (self.kind@ == "multistep"@),
    {
        text::str_eq(self.kind.as_str(), "multistep")
    }
}

} // verus!
