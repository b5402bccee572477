//! The lookup service's side: its items, the addresses of its endpoints, and
//! the link found in the answer to a task lookup.

use vstd::prelude::*;
use vstd::string::*;

verus! {

/// One item of a search answer.
#[derive(Debug)]
pub struct SearchTasksData {
    gid: String,
    pub name: String,
    resource_type: String,
}

/// A search answer: its items in the order the service gave them.
#[derive(Debug)]
pub struct SearchTasks {
    pub data: Vec<SearchTasksData>,
}

impl SearchTasksData {
    /// The item's identifier, used to look it up.
    pub closed spec fn spec_gid(&self) -> Seq<char> {
        self.gid@
    }

    /// The item's title.
    pub closed spec fn spec_name(&self) -> Seq<char> {
        self.name@
    }

    /// The kind of resource the service says the item is.
    pub closed spec fn spec_resource_type(&self) -> Seq<char> {
        self.resource_type@
    }

    pub fn new(gid: String, name: String, resource_type: String) -> (r: SearchTasksData)
        ensures
            r.spec_gid() == gid@,
            r.spec_name() == name@,
            r.spec_resource_type() == resource_type@,
    {
        SearchTasksData { gid, name, resource_type }
    }

    pub fn gid(&self) -> (r: &str)
        ensures
            r@ == self.spec_gid(),
    {
        self.gid.as_str()
    }

    /// A copy of the item's title.
    pub fn name_string(&self) -> (r: String)
        ensures
            r@ == self.spec_name(),
    {
        self.name.clone()
    }

    pub fn resource_type(&self) -> (r: &str)
        ensures
            r@ == self.spec_resource_type(),
    {
        self.resource_type.as_str()
    }
}

/// Address of the lookup of one task.
pub fn task_url(gid: &str) -> (r: String)
    ensures
        r@ == "https://app.asana.com/api/1.0/tasks/"@ + gid@,
{
    let mut r = String::from_str("https://app.asana.com/api/1.0/tasks/");
    r.append(gid);
    r
}

/// Address of the workspace itself, asked for to check access.
pub fn workspace_url(workspace_gid: &str) -> (r: String)
    ensures
        r@ == "https://app.asana.com/api/1.0/workspaces/"@ + workspace_gid@,
{
    let mut r = String::from_str("https://app.asana.com/api/1.0/workspaces/");
    r.append(workspace_gid);
    r
}

/// Address of a text search over the tasks of a workspace.
pub fn search_url(workspace_gid: &str, text: &str) -> (r: String)
    ensures
        r@ == "https://app.asana.com/api/1.0/workspaces/"@ + workspace_gid@
            + "/tasks/search?text="@ + text@,
{
    let mut r = workspace_url(workspace_gid);
    r.append("/tasks/search?text=");
    r.append(text);
    r
}

/// The string that stands at JSON Pointer `pointer` in the JSON document `text`,
/// if the text parses and a string stands there.
pub uninterp spec fn json_string_at(text: Seq<char>, pointer: Seq<char>) -> Option<Seq<char>>;

/// Relies on `serde_json::from_str` into a `serde_json::Value`, then
/// `Value::pointer` and `Value::as_str`: the string at a JSON Pointer of a JSON
/// document, which depends on the two texts alone.
#[verifier::external_body]
fn string_at_pointer(text: &str, pointer: &str) -> (r: Option<String>)
    ensures
        r is Some <==> json_string_at(text@, pointer@) is Some,
        r matches Some(s) ==> json_string_at(text@, pointer@) == Some(s@),
{
    let root: serde_json::Value = serde_json::from_str(text).ok()?;
    root.pointer(pointer).and_then(|v| v.as_str()).map(|s| s.to_string())
}

/// Where the task lookup answer holds the task's link.
pub open spec fn permalink_pointer() -> Seq<char> {
    "/data/permalink_url"@
}

/// The link to hand out for a task link: the link followed by `/f`.
pub fn with_link_suffix(link: &str) -> (r: String)
    ensures
        r@ == link@ + "/f"@,
{
    let mut r = String::from_str(link);
    r.append("/f");
    r
}

/// The link to hand out, read from the answer to a task lookup: the string at
/// `/data/permalink_url`, followed by `/f`; `None` where the answer holds no
/// such string.
pub fn permalink_url_from_json(body: &str) -> (r: Option<String>)
    ensures
        r is Some <==> json_string_at(body@, permalink_pointer()) is Some,
        r matches Some(u) ==> u@ == json_string_at(body@, permalink_pointer())->0 + "/f"@,
{
    let pointer = "/data/permalink_url";
    proof {
        reveal_strlit("/data/permalink_url");
    }
    assert(pointer@ == permalink_pointer());
    match string_at_pointer(body, pointer) {
        Some(link) => Some(with_link_suffix(link.as_str())),
        None => None,
    }
}

} // verus!
