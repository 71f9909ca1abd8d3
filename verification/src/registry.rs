//! The tool registry: the ordered list of tool descriptors, built once at
//! startup. A duplicate tool name is refused at build time; lookups and
//! the descriptor list are read-only afterwards.

use crate::json::{json_clone, Json, JsonV};
use crate::text::str_eq;
use vstd::prelude::*;
use vstd::string::StringExecFns;

verus! {

/// The discovery-facing description of one tool: its unique name, a
/// human-readable description, and the schema its arguments must meet.
#[derive(Debug)]
pub struct ToolDefinition {
    pub name: String,
    pub description: String,
    pub parameters: Json,
}

/// The value of a `ToolDefinition`.
pub struct ToolDefinitionV {
    pub name: Seq<char>,
    pub description: Seq<char>,
    pub parameters: JsonV,
}

impl View for ToolDefinition {
    type V = ToolDefinitionV;

    open spec fn view(&self) -> ToolDefinitionV {
        ToolDefinitionV {
            name: self.name@,
            description: self.description@,
            parameters: self.parameters@,
        }
    }
}

impl Clone for ToolDefinition {
    /// A copy with the same value.
    fn clone(&self) -> (r: Self)
        ensures
            r@ == self@,
    {
        ToolDefinition {
            name: self.name.clone(),
            description: self.description.clone(),
            parameters: json_clone(&self.parameters),
        }
    }
}

/// The values of a sequence of tool definitions.
pub open spec fn defs_view(s: Seq<ToolDefinition>) -> Seq<ToolDefinitionV>
    decreases s.len(),
{
    if s.len() == 0 {
        Seq::empty()
    } else {
        defs_view(s.drop_last()).push(s.last()@)
    }
}

/// `defs_view` maps the view over the sequence, element by element.
pub broadcast proof fn lemma_defs_view(s: Seq<ToolDefinition>)
    ensures
        (#[trigger] defs_view(s)).len() == s.len(),
        forall|i: int| 0 <= i < s.len() ==> defs_view(s)[i] == s[i]@,
    decreases s.len(),
{
    if s.len() > 0 {
        lemma_defs_view(s.drop_last());
        assert forall|i: int| 0 <= i < s.len() implies defs_view(s)[i] == s[i]@ by {
            if i < s.len() - 1 {
                assert(s.drop_last()[i] == s[i]);
            } else {
                assert(s.last() == s[i]);
            }
        }
    }
}

/// The position of the first definition named `name`, from `i` on.
pub open spec fn spec_tool_index(defs: Seq<ToolDefinitionV>, name: Seq<char>, i: int) -> Option<
    int,
>
    decreases defs.len() - i,
{
    if i < 0 || defs.len() <= i {
        None
    } else if defs[i].name == name {
        Some(i)
    } else {
        spec_tool_index(defs, name, i + 1)
    }
}

/// Whether some definition carries `name`.
pub open spec fn spec_has_tool(defs: Seq<ToolDefinitionV>, name: Seq<char>) -> bool {
    spec_tool_index(defs, name, 0) is Some
}

/// The registry: tool descriptors in registration order, names unique.
#[derive(Debug)]
pub struct Registry {
    defs: Vec<ToolDefinition>,
}

impl View for Registry {
    type V = Seq<ToolDefinitionV>;

    closed spec fn view(&self) -> Seq<ToolDefinitionV> {
        defs_view(self.defs@)
    }
}

impl Registry {
    /// Names are pairwise distinct.
    pub open spec fn wf(&self) -> bool {
        forall|i: int, j: int|
            0 <= i < j < self@.len() ==> (#[trigger] self@[i]).name != (#[trigger] self@[j]).name
    }

    /// An empty registry.
    pub fn new() -> (r: Self)
        ensures
            r@ =~= Seq::<ToolDefinitionV>::empty(),
            r.wf(),
    {
        let r = Registry { defs: Vec::new() };
        proof {
            lemma_defs_view(r.defs@);
        }
        r
    }

    /// Adds a descriptor at the end. A name already registered is fatal
    /// for startup: the registry is left unchanged and the error names
    /// the duplicate.
    pub fn register(&mut self, def: ToolDefinition) -> (r: Result<(), String>)
        ensures
            match r {
                Ok(_) => !spec_has_tool(old(self)@, def@.name) && final(self)@ == old(self)@.push(
                    def@,
                ),
                Err(m) => spec_has_tool(old(self)@, def@.name) && final(self)@ == old(self)@ && m@
                    == "Duplicate tool name detected: '"@ + def@.name
                    + "'. Each tool must have a unique name."@,
            },
            old(self).wf() ==> final(self).wf(),
    {
        proof {
            lemma_defs_view(self.defs@);
        }
        let n: usize = self.defs.len();
        let mut i: usize = 0;
        while i < n
            invariant
                n == self.defs@.len(),
                0 <= i <= n,
                forall|m: int| 0 <= m < i ==> (#[trigger] self.defs@[m]).name@ != def.name@,
                defs_view(self.defs@).len() == n,
                forall|m: int| 0 <= m < n ==> defs_view(self.defs@)[m] == self.defs@[m]@,
                spec_tool_index(defs_view(self.defs@), def.name@, 0) == spec_tool_index(
                    defs_view(self.defs@),
                    def.name@,
                    i as int,
                ),
            decreases n - i,
        {
            if str_eq(self.defs[i].name.as_str(), def.name.as_str()) {
                let mut msg = String::from_str("Duplicate tool name detected: '");
                msg.append(def.name.as_str());
                msg.append("'. Each tool must have a unique name.");
                return Err(msg);
            }
            i = i + 1;
        }
        let ghost prev = self.defs@;
        self.defs.push(def);
        proof {
            assert(self.defs@.drop_last() =~= prev);
            assert(defs_view(self.defs@) =~= defs_view(prev).push(self.defs@.last()@));
            lemma_defs_view(self.defs@);
        }
        Ok(())
    }

    /// The descriptor list, in registration order.
    pub fn definitions(&self) -> (r: &Vec<ToolDefinition>)
        ensures
            defs_view(r@) == self@,
    {
        &self.defs
    }

    /// How many tools are registered.
    pub fn len(&self) -> (r: usize)
        ensures
            r == self@.len(),
    {
        proof {
            lemma_defs_view(self.defs@);
        }
        self.defs.len()
    }

    /// Looks a tool up by name: the position of its descriptor, usable
    /// as a dispatch handle.
    pub fn dispatch(&self, name: &String) -> (r: Option<usize>)
        ensures
            match r {
                Some(i) => spec_tool_index(self@, name@, 0) == Some(i as int) && i < self@.len(),
                None => spec_tool_index(self@, name@, 0) is None,
            },
    {
        proof {
            lemma_defs_view(self.defs@);
        }
        let n: usize = self.defs.len();
        let mut i: usize = 0;
        while i < n
            invariant
                n == self.defs@.len(),
                0 <= i <= n,
                defs_view(self.defs@).len() == n,
                forall|m: int| 0 <= m < n ==> defs_view(self.defs@)[m] == self.defs@[m]@,
                spec_tool_index(defs_view(self.defs@), name@, 0) == spec_tool_index(
                    defs_view(self.defs@),
                    name@,
                    i as int,
                ),
            decreases n - i,
        {
            if str_eq(self.defs[i].name.as_str(), name.as_str()) {
                return Some(i);
            }
            i = i + 1;
        }
        None
    }

    /// A descriptor by position.
    pub fn definition_at(&self, i: usize) -> (r: &ToolDefinition)
        requires
            i < self@.len(),
        ensures
            r@ == self@[i as int],
    {
        proof {
            lemma_defs_view(self.defs@);
        }
        &self.defs[i]
    }
}

} // verus!
