//! The Solid Pod tool: what it advertises, how it reads a request, and what it
//! answers. The authenticated HTTP exchanges themselves happen around it.
use crate::json::{json_str, push_member, str_member, Json, JsonView};
use crate::solid::identity::{parse_url, url_parse, ParsedUrl};
use crate::text::{owned, push_str};
use crate::tools::ToolOutput;
use vstd::prelude::*;

verus! {

/// What a request asks of the Pod.
#[derive(Debug, Clone, Copy, PartialEq, Eq, Structural)]
pub enum PodOperation {
    /// Read a resource.
    Read,
    /// Write a resource.
    Write,
    /// Run a SPARQL query.
    Query,
    /// List an LDP container.
    List,
}

/// A request the tool can carry out: the operation, the resource, and the
/// Turtle data to write or the SPARQL query to run.
#[derive(Debug)]
pub struct PodRequest {
    pub operation: PodOperation,
    pub resource: ParsedUrl,
    pub payload: Option<String>,
}

/// A request as plain values.
pub type PodRequestView = (PodOperation, (Seq<char>, Option<Seq<char>>), Option<Seq<char>>);

impl View for PodRequest {
    type V = PodRequestView;

    open spec fn view(&self) -> PodRequestView {
        (
            self.operation,
            self.resource@,
            match self.payload {
                Some(p) => Some(p@),
                None => None,
            },
        )
    }
}

/// The request that `params` describe, or the message of what is wrong with
/// them: `operation` and `resourceUri` are required, the URI must parse, a
/// write needs `data` and a query needs `sparql`.
pub open spec fn pod_request(params: JsonView) -> Result<PodRequestView, Seq<char>> {
    match str_member(params, "operation"@) {
        None => Err("Missing 'operation' parameter"@),
        Some(op) => match str_member(params, "resourceUri"@) {
            None => Err("Missing 'resourceUri' parameter"@),
            Some(uri) => match url_parse(uri) {
                None => Err("Invalid resource URI"@),
                Some(u) => if op == "read"@ {
                    Ok((PodOperation::Read, u, None))
                } else if op == "write"@ {
                    match str_member(params, "data"@) {
                        Some(d) => Ok((PodOperation::Write, u, Some(d))),
                        None => Err("Missing 'data' parameter for write operation"@),
                    }
                } else if op == "query"@ {
                    match str_member(params, "sparql"@) {
                        Some(q) => Ok((PodOperation::Query, u, Some(q))),
                        None => Err("Missing 'sparql' parameter for query operation"@),
                    }
                } else if op == "list"@ {
                    Ok((PodOperation::List, u, None))
                } else {
                    Err("Unknown operation: "@ + op)
                },
            },
        },
    }
}

/// The view of a parsed request or its error message.
pub open spec fn request_result(r: Result<PodRequest, String>) -> Result<PodRequestView, Seq<char>> {
    match r {
        Ok(q) => Ok(q@),
        Err(e) => Err(e@),
    }
}

/// A string property of a schema: its extra members, then description and type
/// (members in key order).
pub open spec fn schema_property(extra: Seq<(Seq<char>, JsonView)>, description: Seq<char>) -> JsonView {
    JsonView::Object(
        extra + seq![
            ("description"@, JsonView::Str(description)),
            ("type"@, JsonView::Str("string"@)),
        ],
    )
}

/// The tool's input schema, its members in key order.
pub open spec fn pod_input_schema() -> JsonView {
    JsonView::Object(
        seq![
            (
                "properties"@,
                JsonView::Object(
                    seq![
                        (
                            "contentType"@,
                            schema_property(
                                seq![("default"@, JsonView::Str("text/turtle"@))],
                                "Content-Type for the resource"@,
                            ),
                        ),
                        (
                            "data"@,
                            schema_property(
                                seq![],
                                "Data to write (for write operations, RDF/Turtle format)"@,
                            ),
                        ),
                        (
                            "operation"@,
                            JsonView::Object(
                                seq![
                                    ("description"@, JsonView::Str("Operation to perform on the Pod"@)),
                                    (
                                        "enum"@,
                                        JsonView::Array(
                                            seq![
                                                JsonView::Str("read"@),
                                                JsonView::Str("write"@),
                                                JsonView::Str("query"@),
                                                JsonView::Str("list"@),
                                            ],
                                        ),
                                    ),
                                    ("type"@, JsonView::Str("string"@)),
                                ],
                            ),
                        ),
                        (
                            "resourceUri"@,
                            JsonView::Object(
                                seq![
                                    ("description"@, JsonView::Str("IRI of the Pod resource to access"@)),
                                    ("format"@, JsonView::Str("uri"@)),
                                    ("type"@, JsonView::Str("string"@)),
                                ],
                            ),
                        ),
                        (
                            "sparql"@,
                            schema_property(seq![], "SPARQL query (for query operations)"@),
                        ),
                    ],
                ),
            ),
            (
                "required"@,
                JsonView::Array(seq![JsonView::Str("operation"@), JsonView::Str("resourceUri"@)]),
            ),
            ("type"@, JsonView::Str("object"@)),
        ],
    )
}

/// A string property: the given members, then description and type.
fn string_property(extra: Vec<(String, Json)>, description: &str) -> (j: Json)
    ensures
        j@ == schema_property(crate::json::member_views(extra@), description@),
{
    let ghost before = crate::json::member_views(extra@);
    let mut m = extra;
    push_member(&mut m, "description", json_str(description));
    push_member(&mut m, "type", json_str("string"));
    let j = Json::Object(m);
    assert(crate::json::member_views(m@) =~= before + seq![
        ("description"@, JsonView::Str(description@)),
        ("type"@, JsonView::Str("string"@)),
    ]);
    j
}

/// Tool for reading and writing a user's Solid Pod.
#[derive(Debug)]
pub struct SolidPodTool {
    tool_id: String,
}

/// The description the tool advertises.
pub open spec fn pod_tool_description() -> Seq<char> {
    "Read and write data to the user's Solid Pod with proper authentication and ACL respect. Supports operations: read, write, query (SPARQL), list (LDP containers)."@
}

impl SolidPodTool {
    /// The tool's ID.
    pub closed spec fn id_spec(&self) -> Seq<char> {
        self.tool_id@
    }

    /// The Pod tool, with ID `solid_pod`.
    pub fn new() -> (t: SolidPodTool)
        ensures
            t.id_spec() == "solid_pod"@,
    {
        SolidPodTool { tool_id: owned("solid_pod") }
    }

    /// The tool's ID.
    pub fn id(&self) -> (s: &str)
        ensures
            s@ == self.id_spec(),
    {
        self.tool_id.as_str()
    }

    /// The tool's display name.
    pub fn name(&self) -> (s: &'static str)
        ensures
            s@ == "Solid Pod Access"@,
    {
        "Solid Pod Access"
    }

    /// What the tool does.
    pub fn description(&self) -> (s: &'static str)
        ensures
            s@ == pod_tool_description(),
    {
        "Read and write data to the user's Solid Pod with proper authentication and ACL respect. Supports operations: read, write, query (SPARQL), list (LDP containers)."
    }

    /// The JSON schema of the tool's parameters.
    pub fn input_schema(&self) -> (j: Json)
        ensures
            j@ == pod_input_schema(),
    {
        let mut default_member: Vec<(String, Json)> = Vec::new();
        push_member(&mut default_member, "default", json_str("text/turtle"));
        let content_type = string_property(default_member, "Content-Type for the resource");
        let no_members: Vec<(String, Json)> = Vec::new();
        assert(crate::json::member_views(no_members@) =~= Seq::<(Seq<char>, JsonView)>::empty());
        let data = string_property(
            no_members,
            "Data to write (for write operations, RDF/Turtle format)",
        );
        let mut ops: Vec<Json> = Vec::new();
        ops.push(json_str("read"));
        ops.push(json_str("write"));
        ops.push(json_str("query"));
        ops.push(json_str("list"));
        let mut operation_members: Vec<(String, Json)> = Vec::new();
        push_member(&mut operation_members, "description", json_str("Operation to perform on the Pod"));
        push_member(&mut operation_members, "enum", Json::Array(ops));
        push_member(&mut operation_members, "type", json_str("string"));
        let mut uri_members: Vec<(String, Json)> = Vec::new();
        push_member(&mut uri_members, "description", json_str("IRI of the Pod resource to access"));
        push_member(&mut uri_members, "format", json_str("uri"));
        push_member(&mut uri_members, "type", json_str("string"));
        let no_members2: Vec<(String, Json)> = Vec::new();
        assert(crate::json::member_views(no_members2@) =~= Seq::<(Seq<char>, JsonView)>::empty());
        let sparql = string_property(no_members2, "SPARQL query (for query operations)");
        let mut props: Vec<(String, Json)> = Vec::new();
        push_member(&mut props, "contentType", content_type);
        push_member(&mut props, "data", data);
        push_member(&mut props, "operation", Json::Object(operation_members));
        push_member(&mut props, "resourceUri", Json::Object(uri_members));
        push_member(&mut props, "sparql", sparql);
        let mut required: Vec<Json> = Vec::new();
        required.push(json_str("operation"));
        required.push(json_str("resourceUri"));
        let mut top: Vec<(String, Json)> = Vec::new();
        push_member(&mut top, "properties", Json::Object(props));
        push_member(&mut top, "required", Json::Array(required));
        push_member(&mut top, "type", json_str("object"));
        let j = Json::Object(top);
        proof {
            crate::json::lemma_json_views_len(ops@);
            crate::json::lemma_json_views_len(required@);
            assert forall|i: int| 0 <= i < ops@.len() implies crate::json::json_views(ops@)[i]
                == crate::json::json_view(ops@[i]) by {
                crate::json::lemma_json_view_at(ops@, i);
            }
            assert forall|i: int| 0 <= i < required@.len() implies crate::json::json_views(
                required@,
            )[i] == crate::json::json_view(required@[i]) by {
                crate::json::lemma_json_view_at(required@, i);
            }
            assert(crate::json::json_views(ops@) =~= seq![
                JsonView::Str("read"@),
                JsonView::Str("write"@),
                JsonView::Str("query"@),
                JsonView::Str("list"@),
            ]);
            assert(crate::json::json_views(required@) =~= seq![
                JsonView::Str("operation"@),
                JsonView::Str("resourceUri"@),
            ]);
            assert(crate::json::member_views(operation_members@) =~= seq![
                ("description"@, JsonView::Str("Operation to perform on the Pod"@)),
                ("enum"@, JsonView::Array(crate::json::json_views(ops@))),
                ("type"@, JsonView::Str("string"@)),
            ]);
            assert(crate::json::member_views(uri_members@) =~= seq![
                ("description"@, JsonView::Str("IRI of the Pod resource to access"@)),
                ("format"@, JsonView::Str("uri"@)),
                ("type"@, JsonView::Str("string"@)),
            ]);
            assert(crate::json::member_views(default_member@) =~= seq![
                ("default"@, JsonView::Str("text/turtle"@)),
            ]);
            assert(crate::json::member_views(props@) =~= seq![
                ("contentType"@, content_type@),
                ("data"@, data@),
                ("operation"@, Json::Object(operation_members)@),
                ("resourceUri"@, Json::Object(uri_members)@),
                ("sparql"@, sparql@),
            ]);
            assert(crate::json::member_views(top@) =~= seq![
                ("properties"@, Json::Object(props)@),
                ("required"@, Json::Array(required)@),
                ("type"@, JsonView::Str("object"@)),
            ]);
        }
        j
    }

    /// Reads the tool's parameters into a request, or the message of what is
    /// wrong with them.
    pub fn parse_request(&self, params: &Json) -> (r: Result<PodRequest, String>)
        ensures
            request_result(r) == pod_request(params@),
    {
        let op = match params.get_str("operation") {
            Some(op) => op,
            None => return Err(owned("Missing 'operation' parameter")),
        };
        let uri = match params.get_str("resourceUri") {
            Some(u) => u,
            None => return Err(owned("Missing 'resourceUri' parameter")),
        };
        let resource = match parse_url(uri.as_str()) {
            Some(u) => u,
            None => return Err(owned("Invalid resource URI")),
        };
        if crate::text::str_eq(op.as_str(), "read") {
            Ok(PodRequest { operation: PodOperation::Read, resource, payload: None })
        } else if crate::text::str_eq(op.as_str(), "write") {
            match params.get_str("data") {
                Some(d) => Ok(PodRequest { operation: PodOperation::Write, resource, payload: Some(d) }),
                None => Err(owned("Missing 'data' parameter for write operation")),
            }
        } else if crate::text::str_eq(op.as_str(), "query") {
            match params.get_str("sparql") {
                Some(q) => Ok(PodRequest { operation: PodOperation::Query, resource, payload: Some(q) }),
                None => Err(owned("Missing 'sparql' parameter for query operation")),
            }
        } else if crate::text::str_eq(op.as_str(), "list") {
            Ok(PodRequest { operation: PodOperation::List, resource, payload: None })
        } else {
            let mut e = owned("Unknown operation: ");
            push_str(&mut e, op.as_str());
            Err(e)
        }
    }
}

/// The message for an HTTP exchange that did not succeed, as in
/// `Failed to read resource: HTTP 404 Not Found`.
pub fn http_failure(action: &str, status: &str) -> (s: String)
    ensures
        s@ == "Failed to "@ + action@ + ": HTTP "@ + status@,
{
    let mut s = owned("Failed to ");
    push_str(&mut s, action);
    push_str(&mut s, ": HTTP ");
    push_str(&mut s, status);
    s
}

/// The content type named by the server, or `application/octet-stream`.
pub open spec fn content_type_or_default(t: Option<&str>) -> Seq<char> {
    match t {
        Some(t) => t@,
        None => "application/octet-stream"@,
    }
}

/// The answer to a read: the content, its type (`application/octet-stream`
/// when the server named none) and the URL, as JSON text.
pub fn read_output(content: &str, content_type: Option<&str>, url: &str) -> (o: ToolOutput)
    ensures
        o.success,
        o.data is None,
        o.error is None,
        o.content@ == crate::json::json_text(
            JsonView::Object(
                seq![
                    ("content"@, JsonView::Str(content@)),
                    ("contentType"@, JsonView::Str(content_type_or_default(content_type))),
                    ("url"@, JsonView::Str(url@)),
                ],
            ),
        ),
{
    let ct = match content_type {
        Some(t) => t,
        None => "application/octet-stream",
    };
    assert(ct@ == content_type_or_default(content_type));
    let mut m: Vec<(String, Json)> = Vec::new();
    push_member(&mut m, "content", json_str(content));
    push_member(&mut m, "contentType", json_str(ct));
    push_member(&mut m, "url", json_str(url));
    let j = Json::Object(m);
    assert(crate::json::member_views(m@) =~= seq![
        ("content"@, JsonView::Str(content@)),
        ("contentType"@, JsonView::Str(ct@)),
        ("url"@, JsonView::Str(url@)),
    ]);
    ToolOutput::success(j.to_text())
}

/// The answer to a write that succeeded.
pub fn write_output(url: &str) -> (o: ToolOutput)
    ensures
        o.success,
        o.data is None,
        o.error is None,
        o.content@ == crate::json::json_text(
            JsonView::Object(
                seq![
                    ("message"@, JsonView::Str("Resource updated successfully"@)),
                    ("success"@, JsonView::Bool(true)),
                    ("url"@, JsonView::Str(url@)),
                ],
            ),
        ),
{
    let mut m: Vec<(String, Json)> = Vec::new();
    push_member(&mut m, "message", json_str("Resource updated successfully"));
    push_member(&mut m, "success", Json::Bool(true));
    push_member(&mut m, "url", json_str(url));
    let j = Json::Object(m);
    assert(crate::json::member_views(m@) =~= seq![
        ("message"@, JsonView::Str("Resource updated successfully"@)),
        ("success"@, JsonView::Bool(true)),
        ("url"@, JsonView::Str(url@)),
    ]);
    ToolOutput::success(j.to_text())
}

/// The answer to a SPARQL query: the endpoint, the query and its results.
pub fn query_output(results: Json, query: &str, endpoint: &str) -> (o: ToolOutput)
    ensures
        o.success,
        o.data is None,
        o.error is None,
        o.content@ == crate::json::json_text(
            JsonView::Object(
                seq![
                    ("endpoint"@, JsonView::Str(endpoint@)),
                    ("query"@, JsonView::Str(query@)),
                    ("results"@, results@),
                ],
            ),
        ),
{
    let ghost rv = results@;
    let mut m: Vec<(String, Json)> = Vec::new();
    push_member(&mut m, "endpoint", json_str(endpoint));
    push_member(&mut m, "query", json_str(query));
    push_member(&mut m, "results", results);
    let j = Json::Object(m);
    assert(crate::json::member_views(m@) =~= seq![
        ("endpoint"@, JsonView::Str(endpoint@)),
        ("query"@, JsonView::Str(query@)),
        ("results"@, rv),
    ]);
    ToolOutput::success(j.to_text())
}

/// The answer to a container listing: the container and its raw Turtle.
pub fn list_output(container: &str, turtle: &str) -> (o: ToolOutput)
    ensures
        o.success,
        o.data is None,
        o.error is None,
        o.content@ == crate::json::json_text(
            JsonView::Object(
                seq![
                    ("container"@, JsonView::Str(container@)),
                    ("content"@, JsonView::Str(turtle@)),
                    (
                        "message"@,
                        JsonView::Str(
                            "Container listed successfully. Parse Turtle content for resources."@,
                        ),
                    ),
                ],
            ),
        ),
{
    let mut m: Vec<(String, Json)> = Vec::new();
    push_member(&mut m, "container", json_str(container));
    push_member(&mut m, "content", json_str(turtle));
    push_member(
        &mut m,
        "message",
        json_str("Container listed successfully. Parse Turtle content for resources."),
    );
    let j = Json::Object(m);
    assert(crate::json::member_views(m@) =~= seq![
        ("container"@, JsonView::Str(container@)),
        ("content"@, JsonView::Str(turtle@)),
        (
            "message"@,
            JsonView::Str("Container listed successfully. Parse Turtle content for resources."@),
        ),
    ]);
    ToolOutput::success(j.to_text())
}

} // verus!
