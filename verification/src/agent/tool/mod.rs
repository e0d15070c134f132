//! Tools, and how their calls are carried out.
pub mod builtin;
pub mod hooks;

use vstd::prelude::*;

use crate::json;
use crate::json::Json;
use crate::text;

use super::error::AgentError;
use super::message::{ToolCall, ToolResult};
use super::request;
use super::request::LlmTool;

verus! {

/// What a tool has come up with.
pub enum ToolOutput {
    Text(String),
    Error(String),
}

/// How several tool calls are carried out.
#[derive(Clone, Copy, Debug, PartialEq, Eq, Structural)]
pub enum ExecutionMode {
    Parallel,
    Sequential,
}

impl Default for ExecutionMode {
    fn default() -> (r: Self)
        ensures
            r == ExecutionMode::Sequential,
    {
        ExecutionMode::Sequential
    }
}

/// What a hook says about a call before it is carried out.
pub enum HookDecision {
    Allow,
    Block { reason: String },
    ModifyArgs { args: Json },
}

/// What the hooks say about a call together.
pub enum HookResult {
    Allowed { modified_args: Option<Json> },
    Blocked { reason: String },
}

/// The first decision of the hooks that is more than a consent.
pub open spec fn first_objection(decisions: Seq<HookDecision>) -> Option<HookDecision>
    decreases decisions.len(),
{
    if decisions.len() == 0 {
        None
    } else if decisions[0] is Allow {
        first_objection(decisions.drop_first())
    } else {
        Some(decisions[0])
    }
}

/// What the decisions of the hooks, in their order, amount to: the first that is more
/// than a consent counts.
pub fn run_before_hooks(decisions: Vec<HookDecision>) -> (r: HookResult)
    ensures
        match first_objection(decisions@) {
            Some(HookDecision::Block { reason }) => r == (HookResult::Blocked { reason }),
            Some(HookDecision::ModifyArgs { args }) => r == (HookResult::Allowed {
                modified_args: Some(args),
            }),
            _ => r == (HookResult::Allowed { modified_args: None }),
        },
{
    let ghost all = decisions@;
    let mut rest = decisions;
    assert(all.skip(0) =~= all);
    let n: usize = rest.len();
    for i in 0..n
        invariant
            all == decisions@,
            n == all.len(),
            rest@ == all.skip(i as int),
            first_objection(all) == first_objection(all.skip(i as int)),
    {
        let decision = rest.remove(0);
        assert(decision == all.skip(i as int)[0]);
        assert(all.skip(i as int).drop_first() =~= all.skip(i + 1));
        assert(rest@ =~= all.skip(i + 1));
        match decision {
            HookDecision::Allow => {},
            HookDecision::Block { reason } => {
                return HookResult::Blocked { reason };
            },
            HookDecision::ModifyArgs { args } => {
                return HookResult::Allowed { modified_args: Some(args) };
            },
        }
    }
    HookResult::Allowed { modified_args: None }
}

/// `r` answers `call` with the given content.
pub open spec fn answers(
    r: ToolResult,
    call: ToolCall,
    content: Seq<char>,
    is_error: bool,
) -> bool {
    r.call_id == call.id && r.tool_name == call.name && r.content@ == content && r.is_error
        == is_error
}

fn answer(call: &ToolCall, content: String, is_error: bool) -> (r: ToolResult)
    ensures
        answers(r, *call, content@, is_error),
{
    ToolResult { call_id: call.id.clone(), tool_name: call.name.clone(), content, is_error }
}

/// What is done about a call.
pub enum CallStep {
    /// Ask the hooks, and go on with `hooks_answered`.
    AskHooks,
    /// Call the tool with these arguments, and go on with `tool_answered`.
    Run { args: Json },
    /// The call is answered.
    Done { result: ToolResult },
}

/// The tools that can be called.
pub struct ToolExecutor {
    pub tools: Vec<LlmTool>,
    pub mode: ExecutionMode,
}

/// A tool is called `name`.
pub open spec fn has_tool(tools: Seq<LlmTool>, name: Seq<char>) -> bool {
    exists|i: int| 0 <= i < tools.len() && (#[trigger] tools[i]).function.name@ == name
}

/// No two tools have the same name.
pub open spec fn distinct_names(tools: Seq<LlmTool>) -> bool {
    forall|i: int, j: int|
        0 <= i < j < tools.len() ==> (#[trigger] tools[i]).function.name@ != (
        #[trigger] tools[j]).function.name@
}

impl ToolExecutor {
    pub open spec fn wf(self) -> bool {
        distinct_names(self.tools@)
    }

    pub fn new() -> (r: Self)
        ensures
            r.wf(),
            r.tools@ == Seq::<LlmTool>::empty(),
            r.mode == ExecutionMode::Sequential,
    {
        ToolExecutor { tools: Vec::new(), mode: ExecutionMode::Sequential }
    }

    pub fn set_mode(&mut self, mode: ExecutionMode)
        ensures
            *final(self) == (ToolExecutor { mode, ..*old(self) }),
    {
        self.mode = mode;
    }

    fn position(&self, name: &str) -> (r: Option<usize>)
        ensures
            r matches Some(i) ==> i < self.tools@.len() && self.tools@[i as int].function.name@
                == name@,
            r is Some <==> has_tool(self.tools@, name@),
    {
        for i in 0..self.tools.len()
            invariant
                forall|j: int| 0 <= j < i ==> (#[trigger] self.tools@[j]).function.name@ != name@,
        {
            if text::str_eq(self.tools[i].function.name.as_str(), name) {
                return Some(i);
            }
        }
        None
    }

    /// Adds a tool. It takes the place of one with the same name.
    pub fn register(&mut self, tool: LlmTool)
        requires
            old(self).wf(),
        ensures
            final(self).wf(),
            final(self).mode == old(self).mode,
            if has_tool(old(self).tools@, tool.function.name@) {
                exists|i: int|
                    0 <= i < old(self).tools@.len() && (#[trigger] old(
                        self,
                    ).tools@[i]).function.name@ == tool.function.name@ && final(self).tools@
                        == old(self).tools@.update(i, tool)
            } else {
                final(self).tools@ == old(self).tools@.push(tool)
            },
    {
        match self.position(tool.function.name.as_str()) {
            Some(i) => {
                let ghost before = self.tools@;
                assert(before[i as int].function.name@ == tool.function.name@);
                self.tools.set(i, tool);
                assert(self.tools@ == before.update(i as int, tool));
            },
            None => {
                self.tools.push(tool);
            },
        }
    }

    /// Whether there is a tool called `name`.
    pub fn knows(&self, name: &str) -> (r: bool)
        ensures
            r == has_tool(self.tools@, name@),
    {
        self.position(name).is_some()
    }

    /// The descriptions of the tools, as a model gets them.
    pub fn tool_specs(&self) -> (r: Vec<LlmTool>)
        ensures
            request::tool_views(r@) == request::tool_views(self.tools@),
    {
        let ghost all = request::tool_views(self.tools@);
        let mut out: Vec<LlmTool> = Vec::new();
        for i in 0..self.tools.len()
            invariant
                all == request::tool_views(self.tools@),
                request::tool_views(out@) == all.take(i as int),
        {
            let ghost before = request::tool_views(out@);
            let tool = self.tools[i].clone();
            out.push(tool);
            assert(request::tool_views(out@) =~= before.push(all[i as int]));
            assert(all.take(i + 1) =~= before.push(all[i as int]));
        }
        assert(all.take(all.len() as int) =~= all);
        out
    }

    /// The first step of a call: an unknown tool is answered at once.
    pub fn begin_call(&self, call: &ToolCall) -> (r: CallStep)
        ensures
            if has_tool(self.tools@, call.name@) {
                r is AskHooks
            } else {
                r matches CallStep::Done { result } && answers(
                    result,
                    *call,
                    "Unknown tool: "@ + call.name@,
                    true,
                )
            },
    {
        if self.knows(call.name.as_str()) {
            CallStep::AskHooks
        } else {
            let content = text::concat2("Unknown tool: ", call.name.as_str());
            CallStep::Done { result: answer(call, content, true) }
        }
    }
}

/// The step after the hooks have decided: a block answers the call, and otherwise the
/// tool is called with the arguments of the hooks, or else those of the call. Arguments
/// that are no JSON count as none.
pub fn hooks_answered(call: &ToolCall, decisions: Vec<HookDecision>) -> (r: CallStep)
    ensures
        match first_objection(decisions@) {
            Some(HookDecision::Block { reason }) => r matches CallStep::Done { result } && answers(
                result,
                *call,
                reason@,
                true,
            ),
            Some(HookDecision::ModifyArgs { args }) => r == (CallStep::Run { args }),
            _ => r matches CallStep::Run { args } && args@ == json::parsed_or_empty(
                call.arguments@,
            ),
        },
{
    match run_before_hooks(decisions) {
        HookResult::Blocked { reason } => CallStep::Done { result: answer(call, reason, true) },
        HookResult::Allowed { modified_args } => match modified_args {
            Some(args) => CallStep::Run { args },
            None => {
                let (args, _) = json::parse_or_empty(call.arguments.as_str());
                CallStep::Run { args }
            },
        },
    }
}

/// The answer to a call once its tool has been called.
pub fn tool_answered(call: &ToolCall, outcome: Result<ToolOutput, AgentError>) -> (r: ToolResult)
    ensures
        match outcome {
            Ok(ToolOutput::Text(t)) => answers(r, *call, t@, false),
            Ok(ToolOutput::Error(m)) => answers(r, *call, m@, true),
            Err(e) => answers(r, *call, e.text(), true),
        },
{
    match outcome {
        Ok(ToolOutput::Text(t)) => answer(call, t, false),
        Ok(ToolOutput::Error(m)) => answer(call, m, true),
        Err(e) => answer(call, e.message(), true),
    }
}

/// Every hook is heard: a call passes as it is only where all consent, and where some do not,
/// the first of them counts. So a block stands unless another hook before it changed the
/// arguments, and no consent behind it lifts it.
pub proof fn law_one_block_is_enough(decisions: Seq<HookDecision>, i: int)
    requires
        0 <= i < decisions.len(),
    ensures
        first_objection(decisions) is None <==> forall|j: int|
            0 <= j < decisions.len() ==> (#[trigger] decisions[j]) is Allow,
        !(decisions[i] is Allow) && (forall|j: int|
            0 <= j < i ==> (#[trigger] decisions[j]) is Allow) ==> first_objection(decisions)
            == Some(decisions[i]),
        decisions[i] is Block && (forall|j: int|
            0 <= j < decisions.len() ==> !((#[trigger] decisions[j]) is ModifyArgs)) ==> (
        first_objection(decisions) matches Some(d) && d is Block),
    decreases decisions.len(),
{
    let t = decisions.drop_first();
    assert forall|j: int| 0 <= j < t.len() implies t[j] == #[trigger] decisions[j + 1] by {}
    if decisions[0] is Allow {
        if t.len() > 0 {
            law_one_block_is_enough(
                t,
                if i > 0 {
                    i - 1
                } else {
                    0
                },
            );
            if forall|j: int| 0 <= j < t.len() ==> (#[trigger] t[j]) is Allow {
                assert forall|j: int| 0 <= j < decisions.len() implies (
                #[trigger] decisions[j]) is Allow by {
                    if j > 0 {
                        assert(t[j - 1] == decisions[j]);
                    }
                }
            } else {
                let j = choose|j: int| 0 <= j < t.len() && !((#[trigger] t[j]) is Allow);
                assert(decisions[j + 1] == t[j]);
            }
            if i > 0 {
                assert(t[i - 1] == decisions[i]);
                if forall|j: int| 0 <= j < i ==> (#[trigger] decisions[j]) is Allow {
                    assert forall|j: int| 0 <= j < i - 1 implies (#[trigger] t[j]) is Allow by {
                        assert(t[j] == decisions[j + 1]);
                    }
                }
                if forall|j: int|
                    0 <= j < decisions.len() ==> !((#[trigger] decisions[j]) is ModifyArgs) {
                    assert forall|j: int| 0 <= j < t.len() implies !(
                    (#[trigger] t[j]) is ModifyArgs) by {
                        assert(t[j] == decisions[j + 1]);
                    }
                }
            }
        }
    }
}

} // verus!
