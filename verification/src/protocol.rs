//! The option values the session logic reads, and the per-cell result.
use vstd::prelude::*;
use vstd::string::StringExecFns;

verus! {

/// How a cell's source is echoed: `true`/`false`, or a named mode
/// (`"terminal"`, `"source"`, `"false"`).
#[derive(Debug, PartialEq)]
pub enum EchoMode {
    Bool(bool),
    Mode(String),
}

/// A line selector: a 1-based (negative: from the end) line number, or an
/// expression (a number, a `start:end` range, or a regular expression).
#[derive(Debug)]
pub enum LineSpec {
    Index(i32),
    Expr(String),
}

/// Source highlighting: on/off, or a language name.
#[derive(Debug)]
pub enum HighlightSpec {
    Bool(bool),
    Language(String),
}

/// Settings for running the shell inside a container.
#[derive(Debug)]
pub struct DockerConfig {
    pub image: String,
    pub pull: String,
    pub platform: Option<String>,
    pub workdir: Option<String>,
    pub user: Option<String>,
    pub network: Option<String>,
    pub memory: Option<String>,
    pub cpus: Option<String>,
    pub name: Option<String>,
    pub ports: Vec<String>,
    pub volumes: Vec<String>,
    pub env: Vec<(String, String)>,
    pub args: Vec<String>,
}

/// Output recorded for a line that carries an assertion.
#[derive(Debug)]
pub struct RecordedAssertion {
    pub line_index: u32,
    pub output: String,
}

/// The result of executing one cell.
#[derive(Debug)]
pub struct CellResult {
    pub id: u32,
    pub html: String,
    pub error: Option<String>,
    pub recorded_assertions: Vec<RecordedAssertion>,
}

/// Default shell.
pub fn default_shell() -> (r: String)
    ensures
        r@ == "bash"@,
{
    String::from_str("bash")
}

/// Default prompt string.
pub fn default_prompt() -> (r: String)
    ensures
        r@ == "$"@,
{
    String::from_str("$")
}

/// Default terminal width.
pub fn default_cols() -> (r: u16)
    ensures
        r == 80,
{
    80
}

/// Default terminal height.
pub fn default_rows() -> (r: u16)
    ensures
        r == 24,
{
    24
}

/// Default of the flags that are on unless turned off.
pub fn default_true() -> (r: bool)
    ensures
        r,
{
    true
}

/// Default output format.
pub fn default_format() -> (r: String)
    ensures
        r@ == "html"@,
{
    String::from_str("html")
}

/// Default echo mode: the terminal shows the typed command.
pub fn default_echo() -> (r: EchoMode)
    ensures
        r matches EchoMode::Mode(m) && m@ == "terminal"@,
{
    EchoMode::Mode(String::from_str("terminal"))
}

/// Default highlighting language.
pub fn default_highlight() -> (r: HighlightSpec)
    ensures
        r matches HighlightSpec::Language(l) && l@ == "bash"@,
{
    HighlightSpec::Language(String::from_str("bash"))
}

/// Default image pull policy.
pub fn default_pull_policy() -> (r: String)
    ensures
        r@ == "missing"@,
{
    String::from_str("missing")
}

} // verus!
