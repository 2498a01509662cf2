//! What tools receive and return: the execution context, tool outputs,
//! parameter schemas, and the built-in echo and calculator tools.
use vstd::prelude::*;
use crate::json::{
    get_member, json_str, lemma_lookup_set_entry, lookup, member_views, push_member, set_entry,
    set_member, str_member, Json, JsonView,
};
use crate::text::{join, join_strings, owned, push_str};
use crate::types::AgentId;

verus! {

/// Context given to a tool when it runs.
#[derive(Debug)]
pub struct ToolContext {
    /// Agent running the tool.
    pub agent_id: AgentId,
    /// Extra data, each key once.
    pub data: Vec<(String, Json)>,
}

impl ToolContext {
    /// A context with no data.
    pub fn new(agent_id: AgentId) -> (c: ToolContext)
        ensures
            c.agent_id == agent_id,
            member_views(c.data@) == Seq::<(Seq<char>, JsonView)>::empty(),
    {
        let c = ToolContext { agent_id, data: Vec::new() };
        assert(member_views(c.data@) =~= Seq::<(Seq<char>, JsonView)>::empty());
        c
    }

    /// The context with `key` set to `value` (replacing an earlier value).
    pub fn with_data(self, key: String, value: Json) -> (c: ToolContext)
        ensures
            c.agent_id == self.agent_id,
            member_views(c.data@) == set_entry(member_views(self.data@), key@, value@),
    {
        let mut c = self;
        set_member(&mut c.data, key, value);
        c
    }

    /// The value stored under `key`, if any.
    pub fn get(&self, key: &str) -> (r: Option<&Json>)
        ensures
            match r {
                Some(j) => lookup(member_views(self.data@), key@) == Some(j@),
                None => lookup(member_views(self.data@), key@) is None,
            },
    {
        get_member(&self.data, key)
    }
}

/// A value stored in a context is the one read back under its key, and
/// storing it leaves the other keys as they were.
pub proof fn lemma_context_read_after_write(
    before: ToolContext,
    after: ToolContext,
    key: Seq<char>,
    value: JsonView,
    other: Seq<char>,
)
    requires
        member_views(after.data@) == set_entry(member_views(before.data@), key, value),
    ensures
        lookup(member_views(after.data@), key) == Some(value),
        other != key ==> lookup(member_views(after.data@), other) == lookup(
            member_views(before.data@),
            other,
        ),
{
    lemma_lookup_set_entry(member_views(before.data@), key, value, other);
}

/// What a tool returns.
#[derive(Debug)]
pub struct ToolOutput {
    /// The tool succeeded.
    pub success: bool,
    /// Text output.
    pub content: String,
    /// Structured data.
    pub data: Option<Json>,
    /// Error message.
    pub error: Option<String>,
}

impl ToolOutput {
    /// A success with this text.
    pub fn success(content: String) -> (o: ToolOutput)
        ensures
            o.success && o.content@ == content@ && o.data is None && o.error is None,
    {
        ToolOutput { success: true, content, data: None, error: None }
    }

    /// A success with text and data.
    pub fn success_with_data(content: String, data: Json) -> (o: ToolOutput)
        ensures
            o.success,
            o.content@ == content@,
            o.data matches Some(d) && d@ == data@,
            o.error is None,
    {
        ToolOutput { success: true, content, data: Some(data), error: None }
    }

    /// A failure with this error and no text.
    pub fn failure(error: String) -> (o: ToolOutput)
        ensures
            !o.success,
            o.content@ == Seq::<char>::empty(),
            o.data is None,
            o.error matches Some(e) && e@ == error@,
    {
        ToolOutput { success: false, content: String::new(), data: None, error: Some(error) }
    }

    /// A failure with text and an error.
    pub fn failure_with_content(content: String, error: String) -> (o: ToolOutput)
        ensures
            !o.success,
            o.content@ == content@,
            o.data is None,
            o.error matches Some(e) && e@ == error@,
    {
        ToolOutput { success: false, content, data: None, error: Some(error) }
    }
}

/// JSON Schema of a tool's parameters.
#[derive(Debug)]
pub struct JsonSchema {
    /// Schema type.
    pub schema_type: String,
    /// Properties, each name once.
    pub properties: Option<Vec<(String, Json)>>,
    /// Required properties.
    pub required: Option<Vec<String>>,
    /// Further entries.
    pub additional: Vec<(String, Json)>,
}

impl JsonSchema {
    /// An object schema with no properties.
    pub fn empty() -> (s: JsonSchema)
        ensures
            s.schema_type@ == "object"@,
            s.properties is None,
            s.required is None,
            s.additional@.len() == 0,
    {
        JsonSchema {
            schema_type: owned("object"),
            properties: None,
            required: None,
            additional: Vec::new(),
        }
    }

    /// An object schema with these properties.
    pub fn object(properties: Vec<(String, Json)>) -> (s: JsonSchema)
        ensures
            s.schema_type@ == "object"@,
            s.properties matches Some(p) && member_views(p@) == member_views(properties@),
            s.required is None,
            s.additional@.len() == 0,
    {
        JsonSchema {
            schema_type: owned("object"),
            properties: Some(properties),
            required: None,
            additional: Vec::new(),
        }
    }

    /// Sets the required properties.
    pub fn with_required(self, required: Vec<String>) -> (s: JsonSchema)
        ensures
            s.schema_type@ == self.schema_type@,
            s.properties == self.properties,
            s.required == Some(required),
            s.additional == self.additional,
    {
        let mut s = self;
        s.required = Some(required);
        s
    }
}

/// A property of type `ty` with a description.
pub open spec fn property(ty: Seq<char>, description: Seq<char>) -> JsonView {
    JsonView::Object(seq![("type"@, JsonView::Str(ty)), ("description"@, JsonView::Str(description))])
}

/// Builds a property of type `ty` with a description.
pub fn make_property(ty: &str, description: &str) -> (j: Json)
    ensures
        j@ == property(ty@, description@),
{
    let mut m: Vec<(String, Json)> = Vec::new();
    assert(member_views(m@) =~= Seq::<(Seq<char>, JsonView)>::empty());
    push_member(&mut m, "type", json_str(ty));
    push_member(&mut m, "description", json_str(description));
    assert(member_views(m@) =~= seq![
        ("type"@, JsonView::Str(ty@)),
        ("description"@, JsonView::Str(description@)),
    ]);
    Json::Object(m)
}

/// The echo tool: answers with the message it is given.
#[derive(Debug, Clone, Copy)]
pub struct EchoTool;

/// What the echo tool answers to parameters `params`.
pub open spec fn echo_text(params: JsonView) -> Seq<char> {
    "Echo: "@ + match str_member(params, "message"@) {
        Some(m) => m,
        None => "(no message)"@,
    }
}

impl EchoTool {
    /// Tool id.
    pub fn id(&self) -> (s: &'static str)
        ensures
            s@ == "echo"@,
    {
        "echo"
    }

    /// Tool name.
    pub fn name(&self) -> (s: &'static str)
        ensures
            s@ == "Echo"@,
    {
        "Echo"
    }

    /// Tool description.
    pub fn description(&self) -> (s: &'static str)
        ensures
            s@ == "Echoes back the input message"@,
    {
        "Echoes back the input message"
    }

    /// Parameters: a required string `message`.
    pub fn input_schema(&self) -> (s: JsonSchema)
        ensures
            s.schema_type@ == "object"@,
            s.properties matches Some(p) && member_views(p@) == seq![
                ("message"@, property("string"@, "The message to echo back"@)),
            ],
            s.required matches Some(r) && r@.len() == 1 && r@[0]@ == "message"@,
    {
        let mut props: Vec<(String, Json)> = Vec::new();
        assert(member_views(props@) =~= Seq::<(Seq<char>, JsonView)>::empty());
        push_member(&mut props, "message", make_property("string", "The message to echo back"));
        let mut req: Vec<String> = Vec::new();
        req.push(owned("message"));
        let s = JsonSchema::object(props).with_required(req);
        assert(member_views(props@) =~= seq![
            ("message"@, property("string"@, "The message to echo back"@)),
        ]);
        s
    }

    /// Answers `Echo: ` followed by the `message` parameter, or by
    /// `(no message)` when there is no string message.
    pub fn execute(&self, params: &Json) -> (o: ToolOutput)
        ensures
            o.success && o.content@ == echo_text(params@) && o.data is None && o.error is None,
    {
        let mut s = owned("Echo: ");
        match params.get_str("message") {
            Some(m) => push_str(&mut s, m.as_str()),
            None => push_str(&mut s, "(no message)"),
        }
        ToolOutput::success(s)
    }
}

/// The calculator tool: adds, subtracts, multiplies and divides two numbers.
#[derive(Debug, Clone, Copy)]
pub struct CalculatorTool;

impl CalculatorTool {
    /// Tool id.
    pub fn id(&self) -> (s: &'static str)
        ensures
            s@ == "calculator"@,
    {
        "calculator"
    }

    /// Tool name.
    pub fn name(&self) -> (s: &'static str)
        ensures
            s@ == "Calculator"@,
    {
        "Calculator"
    }

    /// Tool description.
    pub fn description(&self) -> (s: &'static str)
        ensures
            s@ == "Performs basic arithmetic operations (add, subtract, multiply, divide)"@,
    {
        "Performs basic arithmetic operations (add, subtract, multiply, divide)"
    }
}

/// A piece of content returned by an MCP tool.
#[derive(Debug)]
pub enum McpPart {
    /// Text.
    Text(String),
    /// An image of this MIME type.
    Image(String),
    /// A resource, in its debug rendering.
    Resource(String),
    /// Audio.
    Audio,
    /// A resource link, in its debug rendering.
    ResourceLink(String),
}

/// The text standing for a piece of MCP content.
pub open spec fn part_text(p: McpPart) -> Seq<char> {
    match p {
        McpPart::Text(t) => t@,
        McpPart::Image(m) => "MCP tool returned an image (mime: "@ + m@ + ")"@,
        McpPart::Resource(r) => "MCP tool returned a resource: "@ + r@,
        McpPart::Audio => "MCP tool returned audio content"@,
        McpPart::ResourceLink(l) => "MCP tool returned resource link: "@ + l@,
    }
}

/// The text of an MCP result: its parts' texts on separate lines.
pub open spec fn mcp_content(parts: Seq<McpPart>) -> Seq<char> {
    if parts.len() == 0 {
        "MCP tool completed without textual output"@
    } else {
        join(parts.map_values(|p: McpPart| part_text(p)), "\n"@)
    }
}

/// The output of an MCP tool call: a failure when the tool reported an
/// error, otherwise a success carrying `data`.
pub fn convert_mcp_result(parts: &Vec<McpPart>, is_error: bool, data: Option<Json>) -> (o: ToolOutput)
    ensures
        o.content@ == mcp_content(parts@),
        is_error ==> !o.success && o.data is None,
        is_error ==> (o.error matches Some(e) && e@ == "MCP tool reported an error"@),
        !is_error ==> o.success && o.data == data && o.error is None,
{
    let ghost pv = parts@.map_values(|p: McpPart| part_text(p));
    let mut texts: Vec<String> = Vec::new();
    let mut i: usize = 0;
    while i < parts.len()
        invariant
            i <= parts@.len(),
            pv == parts@.map_values(|p: McpPart| part_text(p)),
            texts@.map_values(|t: String| t@) == pv.take(i as int),
        decreases parts@.len() - i,
    {
        let t = match &parts[i] {
            McpPart::Text(t) => t.clone(),
            McpPart::Image(m) => {
                let mut s = owned("MCP tool returned an image (mime: ");
                push_str(&mut s, m.as_str());
                push_str(&mut s, ")");
                s
            },
            McpPart::Resource(r) => {
                let mut s = owned("MCP tool returned a resource: ");
                push_str(&mut s, r.as_str());
                s
            },
            McpPart::Audio => owned("MCP tool returned audio content"),
            McpPart::ResourceLink(l) => {
                let mut s = owned("MCP tool returned resource link: ");
                push_str(&mut s, l.as_str());
                s
            },
        };
        let ghost before = texts@.map_values(|t: String| t@);
        texts.push(t);
        assert(texts@.map_values(|t: String| t@) =~= before.push(pv[i as int]));
        assert(pv.take(i + 1) =~= pv.take(i as int).push(pv[i as int]));
        i = i + 1;
    }
    assert(pv.take(pv.len() as int) =~= pv);
    let content = if parts.len() == 0 {
        owned("MCP tool completed without textual output")
    } else {
        join_strings(&texts, "\n")
    };
    if is_error {
        ToolOutput::failure_with_content(content, owned("MCP tool reported an error"))
    } else {
        ToolOutput { success: true, content, data, error: None }
    }
}

} // verus!
