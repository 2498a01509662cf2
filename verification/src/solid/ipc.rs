//! The JSON-RPC exchange with the identity bridge: request numbering, the
//! request line, and what a reply amounts to. The pipe itself is not here.
use crate::json::{json_str, json_text, push_member, Json, JsonView};
use crate::text::{owned, push_str};
use vstd::prelude::*;

verus! {

/// Numbers the requests of one channel, from 1 on.
#[derive(Debug)]
pub struct RequestIds {
    next: u64,
}

impl RequestIds {
    /// The number the next request gets.
    pub closed spec fn next_spec(&self) -> u64 {
        self.next
    }

    /// Numbering that starts at 1.
    pub fn new() -> (r: RequestIds)
        ensures
            r.next_spec() == 1,
    {
        RequestIds { next: 1 }
    }

    /// Takes the next number; the count wraps around after `u64::MAX`.
    pub fn take(&mut self) -> (id: u64)
        ensures
            id == old(self).next_spec(),
            final(self).next_spec() == (if old(self).next_spec() == u64::MAX {
                0
            } else {
                (old(self).next_spec() + 1) as u64
            }),
    {
        let id = self.next;
        self.next = if self.next == u64::MAX {
            0
        } else {
            self.next + 1
        };
        id
    }
}

/// The request object of one call, members in the order they are written.
pub open spec fn request_view(id: u64, method: Seq<char>, params: JsonView) -> JsonView {
    JsonView::Object(
        seq![
            ("jsonrpc"@, JsonView::Str("2.0"@)),
            ("id"@, JsonView::UInt(id)),
            ("method"@, JsonView::Str(method)),
            ("params"@, params),
        ],
    )
}

/// The JSON text of a request (without the line break that ends it).
pub fn request_text(id: u64, method: &str, params: Json) -> (s: String)
    ensures
        s@ == json_text(request_view(id, method@, params@)),
{
    let ghost pv = params@;
    let mut m: Vec<(String, Json)> = Vec::new();
    push_member(&mut m, "jsonrpc", json_str("2.0"));
    push_member(&mut m, "id", Json::UInt(id));
    push_member(&mut m, "method", json_str(method));
    push_member(&mut m, "params", params);
    let j = Json::Object(m);
    assert(crate::json::member_views(m@) =~= seq![
        ("jsonrpc"@, JsonView::Str("2.0"@)),
        ("id"@, JsonView::UInt(id)),
        ("method"@, JsonView::Str(method@)),
        ("params"@, pv),
    ]);
    j.to_text()
}

/// The message of an error reply.
pub open spec fn bridge_error_text(code: i32, message: Seq<char>) -> Seq<char> {
    "Bridge error (code "@ + json_text(JsonView::Int(code as i64)) + "): "@ + message
}

/// What a reply amounts to: its error when it carries one, else its result,
/// else the complaint that it has none.
pub fn reply_outcome(result: Option<Json>, error: Option<(i32, String)>) -> (r: Result<Json, String>)
    ensures
        match error {
            Some(e) => r matches Err(m) && m@ == bridge_error_text(e.0, e.1@),
            None => match result {
                Some(j) => r matches Ok(v) && v@ == j@,
                None => r matches Err(m) && m@ == "No result in response"@,
            },
        },
{
    match error {
        Some((code, message)) => {
            let mut m = owned("Bridge error (code ");
            let c = Json::Int(code as i64).to_text();
            push_str(&mut m, c.as_str());
            push_str(&mut m, "): ");
            push_str(&mut m, message.as_str());
            Err(m)
        },
        None => match result {
            Some(j) => Ok(j),
            None => Err(owned("No result in response")),
        },
    }
}

} // verus!
