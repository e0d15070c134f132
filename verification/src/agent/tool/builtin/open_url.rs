//! Opening addresses.
use vstd::prelude::*;

use crate::agent::error::AgentError;
use crate::agent::request::{LlmTool, ToolModel};
use crate::agent::tool::{builtin, ToolOutput};
use crate::json::{Json, JsonModel};
use crate::{json, text};

use super::app;
use super::app::Launch;

verus! {

/// Has an address opened in the browser.
pub struct OpenUrlTool;

impl OpenUrlTool {
    /// The arguments of the tool.
    pub open spec fn properties() -> Seq<(Seq<char>, JsonModel)> {
        seq![
                ("url"@, builtin::property("string"@, "The URL to open"@)),
            ]
    }

    /// How the tool is described to a model.
    pub open spec fn model() -> ToolModel {
        builtin::described(
            "open_url"@,
            "Open a URL in the default browser."@,
            builtin::schema(OpenUrlTool::properties(), seq!["url"@]),
        )
    }

    pub fn name(&self) -> (r: &'static str)
        ensures
            r@ == OpenUrlTool::model().name,
    {
        "open_url"
    }

    pub fn description(&self) -> (r: &'static str)
        ensures
            r@ == OpenUrlTool::model().description,
    {
        "Open a URL in the default browser."
    }

    pub fn parameters(&self) -> (r: Json)
        ensures
            r@ == OpenUrlTool::model().parameters,
    {
        let mut properties: Vec<(String, Json)> = Vec::new();
        json::add_member(
            &mut properties,
            "url",
            builtin::property_value("string", "The URL to open"),
        );
        assert(json::member_views(properties@) =~= OpenUrlTool::properties());
        builtin::schema_value(properties, builtin::one("url"))
    }

    pub fn spec(&self) -> (r: LlmTool)
        ensures
            r@ == OpenUrlTool::model(),
    {
        LlmTool::new(self.name(), self.description(), self.parameters())
    }
}

impl OpenUrlTool {
    /// The program that is to be started.
    pub fn launch(&self, args: &Json) -> (r: Launch)
        ensures
            app::starts(r, "cmd"@, app::open_args(json::text_or_empty(args@, "url"@))),
    {
        let url = args.get_text("url");
        app::open_with_shell(url.as_str())
    }

    /// What to say of the outcome.
    pub fn output(&self, args: &Json, outcome: Result<bool, String>) -> (r: Result<
        ToolOutput,
        AgentError,
    >)
        ensures
            app::launch_result(
                r,
                outcome,
                "Opened "@ + json::text_or_empty(args@, "url"@),
                "Failed to open URL"@,
            ),
    {
        let url = args.get_text("url");
        let success = text::concat2("Opened ", url.as_str());
        app::launched(outcome, success.as_str(), "Failed to open URL")
    }
}

} // verus!
