//! Shell commands.
use vstd::prelude::*;

use crate::agent::error::AgentError;
use crate::agent::request::{LlmTool, ToolModel};
use crate::agent::tool::{builtin, ToolOutput};
use crate::json::{Json, JsonModel};
use crate::{json, text};

verus! {

/// Has a shell command executed.
pub struct BashTool;

impl BashTool {
    /// The arguments of the tool.
    pub open spec fn properties() -> Seq<(Seq<char>, JsonModel)> {
        seq![
                ("command"@, builtin::property("string"@, "The shell command to execute"@)),
                (
                    "timeout_ms"@,
                    JsonModel::Object(
                        seq![
                            ("type"@, JsonModel::Text("integer"@)),
                            ("description"@, JsonModel::Text("Timeout in milliseconds (default 30000)"@)),
                            ("default"@, json::number_model(30000)),
                        ],
                    ),
                ),
                ("cwd"@, builtin::property("string"@, "Working directory for the command (optional)"@)),
            ]
    }

    /// How the tool is described to a model.
    pub open spec fn model() -> ToolModel {
        builtin::described(
            "bash"@,
            "Execute a shell command. Use cmd /C on Windows. Returns stdout/stderr."@,
            builtin::schema(BashTool::properties(), seq!["command"@]),
        )
    }

    pub fn name(&self) -> (r: &'static str)
        ensures
            r@ == BashTool::model().name,
    {
        "bash"
    }

    pub fn description(&self) -> (r: &'static str)
        ensures
            r@ == BashTool::model().description,
    {
        "Execute a shell command. Use cmd /C on Windows. Returns stdout/stderr."
    }

    pub fn parameters(&self) -> (r: Json)
        ensures
            r@ == BashTool::model().parameters,
    {
        let mut properties: Vec<(String, Json)> = Vec::new();
        json::add_member(
            &mut properties,
            "command",
            builtin::property_value("string", "The shell command to execute"),
        );
        json::add_member(
            &mut properties,
            "timeout_ms",
            json::object3(
                "type",
                json::text_value("integer"),
                "description",
                json::text_value("Timeout in milliseconds (default 30000)"),
                "default",
                json::number(30000),
            ),
        );
        json::add_member(
            &mut properties,
            "cwd",
            builtin::property_value("string", "Working directory for the command (optional)"),
        );
        assert(json::member_views(properties@) =~= BashTool::properties());
        builtin::schema_value(properties, builtin::one("command"))
    }

    pub fn spec(&self) -> (r: LlmTool)
        ensures
            r@ == BashTool::model(),
    {
        LlmTool::new(self.name(), self.description(), self.parameters())
    }
}

/// A command that is to be executed.
pub struct BashCommand {
    pub command: String,
    pub timeout_ms: u64,
    /// Where it is executed; the current directory where nothing is said.
    pub cwd: Option<String>,
}

/// What a command put out: both outputs, the second one marked, and the exit code.
pub open spec fn report(stdout: Seq<char>, stderr: Seq<char>, exit_code: int) -> Seq<char> {
    let errors = if stderr.len() == 0 {
        seq![]
    } else if stdout.len() == 0 {
        "[stderr] "@ + stderr
    } else {
        "\n"@ + "[stderr] "@ + stderr
    };
    text::trim(stdout + errors + "\n[exit code: "@ + text::signed_decimal(exit_code) + "]"@)
}

impl BashTool {
    /// The command that the arguments ask for.
    pub fn command(&self, args: &Json) -> (r: BashCommand)
        ensures
            r.command@ == json::text_or_empty(args@, "command"@),
            r.timeout_ms == (match json::as_number(json::member_or_null(args@, "timeout_ms"@)) {
                Some(n) => n,
                None => 30_000,
            }),
            crate::text::opt_text(r.cwd) == json::text_member(args@, "cwd"@),
    {
        let timeout_ms: u64 = match args.get("timeout_ms") {
            Some(v) => match v.as_u64() {
                Some(n) => n,
                None => 30_000,
            },
            None => 30_000,
        };
        let cwd = match args.get_str("cwd") {
            Some(d) => Some(d.to_string()),
            None => None,
        };
        BashCommand { command: args.get_text("command"), timeout_ms, cwd }
    }

    /// What came of a command that ended. Without an exit code it was ended from outside.
    pub fn output(&self, stdout: &str, stderr: &str, exit_code: Option<i32>, success: bool) -> (r:
        ToolOutput)
        ensures
            ({
                let code = match exit_code {
                    Some(c) => c as int,
                    None => -1,
                };
                match r {
                    ToolOutput::Text(t) => success && t@ == report(stdout@, stderr@, code),
                    ToolOutput::Error(t) => !success && t@ == report(stdout@, stderr@, code),
                }
            }),
    {
        let mut result = String::new();
        result.append(stdout);
        if !stderr.is_empty() {
            if !stdout.is_empty() {
                result.push('\n');
            }
            result.append("[stderr] ");
            result.append(stderr);
        }
        let code: i32 = match exit_code {
            Some(c) => c,
            None => -1,
        };
        let number = text::to_signed_decimal(code);
        result.append("\n[exit code: ");
        result.append(number.as_str());
        result.append("]");
        proof {
            reveal_strlit("\n");
            assert("\n"@ =~= seq!['\n']);
            let code = code as int;
            let errors = if stderr@.len() == 0 {
                seq![]
            } else if stdout@.len() == 0 {
                "[stderr] "@ + stderr@
            } else {
                "\n"@ + "[stderr] "@ + stderr@
            };
            assert(result@ =~= stdout@ + errors + "\n[exit code: "@ + text::signed_decimal(code)
                + "]"@);
        }
        let text = text::trim_str(result.as_str()).to_string();
        if success {
            ToolOutput::Text(text)
        } else {
            ToolOutput::Error(text)
        }
    }

    /// The error for a command that took too long.
    pub fn timed_out(&self, timeout_ms: u64) -> (r: AgentError)
        ensures
            r matches AgentError::Tool(m) && m@ == "Command timed out after "@ + text::decimal(
                timeout_ms as nat,
            ) + "ms"@,
    {
        let n = text::to_decimal(timeout_ms);
        AgentError::Tool(text::concat3("Command timed out after ", n.as_str(), "ms"))
    }

    /// The error for a command that could not be executed.
    pub fn not_executed(&self, cause: &str) -> (r: AgentError)
        ensures
            r matches AgentError::Tool(m) && m@ == "Failed to execute command: "@ + cause@,
    {
        builtin::tool_failure("Failed to execute command: ", cause)
    }
}

/// The report of a command begins with what it put out and ends with its exit code; what it
/// put out as errors stands between, marked as such. Nothing of it is lost but white space at
/// the start.
pub proof fn law_a_report_holds_all_output(stdout: Seq<char>, stderr: Seq<char>, exit_code: int)
    requires
        stdout.len() > 0,
        !text::is_whitespace(stdout[0]),
    ensures
        ({
            let r = report(stdout, stderr, exit_code);
            &&& stdout.is_prefix_of(r)
            &&& (text::signed_decimal(exit_code).push(']')).is_suffix_of(r)
            &&& stderr.len() > 0 ==> ("[stderr] "@ + stderr).is_prefix_of(
                r.skip(stdout.len() as int + 1),
            )
        }),
{
    reveal_strlit("\n");
    reveal_strlit("[stderr] ");
    reveal_strlit("\n[exit code: ");
    reveal_strlit("]");
    assert("]"@ =~= seq![']']);
    let errors = if stderr.len() == 0 {
        seq![]
    } else {
        "\n"@ + "[stderr] "@ + stderr
    };
    let code = text::signed_decimal(exit_code);
    let whole = stdout + errors + "\n[exit code: "@ + code + "]"@;
    assert(whole[0] == stdout[0]);
    assert(whole.last() == ']');
    text::lemma_leading_is(whole, text::CharClass::Space, 0);
    assert(whole.skip(0) =~= whole);
    text::lemma_trailing_is(whole, text::CharClass::Space, 0);
    assert(whole.take(whole.len() as int) =~= whole);
    assert(report(stdout, stderr, exit_code) == whole);
    assert(whole.take(stdout.len() as int) =~= stdout);
    let end = code.push(']');
    assert(whole.skip(whole.len() - end.len()) =~= end);
    if stderr.len() > 0 {
        let marked = "[stderr] "@ + stderr;
        let rest = whole.skip(stdout.len() as int + 1);
        assert(rest.take(marked.len() as int) =~= marked);
    }
}

} // verus!
