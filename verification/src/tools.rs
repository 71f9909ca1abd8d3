//! The built-in tool capabilities and the startup bootstrap that
//! registers them.
//!
//! Tools are registered explicitly, one `register` call per capability;
//! a duplicate name is fatal before the server starts serving.

use crate::auth::AuthenticatedUser;
use crate::json::{entries_view, lemma_entries_view, Json, JsonV};
use crate::registry::{Registry, ToolDefinition, ToolDefinitionV};
use crate::validate::{opt_view, spec_validate};
use vstd::prelude::*;
use vstd::string::StringExecFns;

pub use crate::validate::validate_tool_args;

verus! {

/// Relies on chrono's `Utc::now` and `DateTime::to_rfc3339`: the current
/// wall-clock time, printed in RFC 3339 (ISO 8601) form. Nothing is
/// assumed of the value, which depends on the clock; `Utc::now` itself
/// panics if the system clock stands before the Unix epoch, an
/// environmental condition no argument could exclude.
#[verifier::external_body]
fn current_time_rfc3339() -> (r: String) {
    chrono::Utc::now().to_rfc3339()
}

/// A tool that reports the current server time.
#[derive(Debug)]
pub struct GetTimeTool;

/// The schema `get_current_time` declares: an object with no properties
/// and nothing beyond them allowed.
pub open spec fn spec_get_time_schema() -> JsonV {
    JsonV::Obj(
        seq![
            ("type"@, JsonV::Str("object"@)),
            ("properties"@, JsonV::Obj(Seq::empty())),
            ("additionalProperties"@, JsonV::Bool(false)),
            ("required"@, JsonV::Arr(Seq::empty())),
        ],
    )
}

impl GetTimeTool {
    /// The tool's unique, stable name.
    pub fn name(&self) -> (r: &'static str)
        ensures
            r@ == "get_current_time"@,
    {
        "get_current_time"
    }

    /// A human-readable description.
    pub fn description(&self) -> (r: &'static str)
        ensures
            r@ == "Returns the current server time as an ISO 8601 string."@,
    {
        "Returns the current server time as an ISO 8601 string."
    }

    /// The schema the tool's arguments must meet.
    pub fn parameters_schema(&self) -> (r: Json)
        ensures
            r@ == spec_get_time_schema(),
    {
        let mut entries: Vec<(String, Json)> = Vec::new();
        entries.push((String::from_str("type"), Json::Str(String::from_str("object"))));
        entries.push((String::from_str("properties"), Json::Obj(Vec::new())));
        entries.push((String::from_str("additionalProperties"), Json::Bool(false)));
        entries.push((String::from_str("required"), Json::Arr(Vec::new())));
        proof {
            lemma_entries_view(entries@);
            assert(entries_view(entries@) =~= spec_get_time_schema()->Obj_0);
        }
        Json::Obj(entries)
    }

    /// Validates the arguments against the tool's schema, then reports
    /// the current time as `{"current_time": <RFC 3339 string>}`. Fails
    /// exactly when validation fails, with validation's message.
    pub fn execute(&self, args: Option<Json>, _user: &AuthenticatedUser) -> (r: Result<
        Json,
        String,
    >)
        ensures
            match r {
                Ok(v) => spec_validate(spec_get_time_schema(), opt_view(args)) is None && (
                match v@ {
                    JsonV::Obj(entries) => entries.len() == 1 && entries[0].0 == "current_time"@
                        && entries[0].1 is Str,
                    _ => false,
                }),
                Err(m) => spec_validate(spec_get_time_schema(), opt_view(args)) == Some(m@),
            },
    {
        let schema = self.parameters_schema();
        match validate_tool_args(&schema, &args) {
            Err(m) => Err(m),
            Ok(_) => {
                let now = current_time_rfc3339();
                let mut entries: Vec<(String, Json)> = Vec::new();
                entries.push((String::from_str("current_time"), Json::Str(now)));
                proof {
                    lemma_entries_view(entries@);
                }
                Ok(Json::Obj(entries))
            },
        }
    }
}

/// Builds the registry from the statically known capabilities, one
/// explicit `register` call each. With the single built-in tool the
/// build cannot collide, so it always succeeds.
pub fn initialize_all_tools() -> (r: Registry)
    ensures
        r@.len() == 1,
        r@[0] == (ToolDefinitionV {
            name: "get_current_time"@,
            description: "Returns the current server time as an ISO 8601 string."@,
            parameters: spec_get_time_schema(),
        }),
        r.wf(),
{
    let mut registry = Registry::new();
    let tool = GetTimeTool;
    let def = ToolDefinition {
        name: String::from_str(tool.name()),
        description: String::from_str(tool.description()),
        parameters: tool.parameters_schema(),
    };
    let outcome = registry.register(def);
    match outcome {
        Ok(_) => registry,
        Err(_) => vstd::pervasive::unreached(),
    }
}

} // verus!
