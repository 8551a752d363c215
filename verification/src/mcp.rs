//! Servers of the Model Context Protocol: which headers are sent, what a
//! server's replies mean, and which server a tool call goes to.
use vstd::prelude::*;

use crate::json::{
    json_array, json_as_array, json_as_bool, json_as_object, json_as_str, json_bool, json_get,
    json_member, json_object, json_str,
};
use crate::text::{chars_of, join_strings, join_with, string_views, str_eq};
use crate::types::{ToolDefinition, ToolResult, ToolSource};

verus! {

/// A character allowed in a header name: an ASCII letter or digit, or one
/// of ``!#$%&'*+-.^_`|~``.
pub open spec fn is_token_char(c: char) -> bool {
    ||| ('a' <= c && c <= 'z')
    ||| ('A' <= c && c <= 'Z')
    ||| ('0' <= c && c <= '9')
    ||| c == '!' || c == '#' || c == '$' || c == '%' || c == '&' || c == '\''
    ||| c == '*' || c == '+' || c == '-' || c == '.' || c == '^' || c == '_'
    ||| c == '`' || c == '|' || c == '~'
}

/// A header name is accepted when it has 1 to 65535 characters, each a
/// token character (upper case is folded to lower case).
pub open spec fn valid_header_name(name: Seq<char>) -> bool {
    &&& 1 <= name.len() <= 65535
    &&& forall|i: int| 0 <= i < name.len() ==> #[trigger] is_token_char(name[i])
}

/// `HeaderName::from_bytes(name.as_bytes()).is_ok()`: its source maps each
/// byte through a table of the token characters and refuses any other byte,
/// the empty name and names longer than 65535 bytes. A character beyond
/// ASCII has only bytes that the table refuses.
#[verifier::external_body]
fn header_name_ok(name: &str) -> (r: bool)
    ensures
        r == valid_header_name(name@),
{
    reqwest::header::HeaderName::from_bytes(name.as_bytes()).is_ok()
}

/// A header value is accepted when each of its bytes is a tab or at least
/// a space and not DEL; the bytes of a character beyond ASCII all are.
pub open spec fn valid_header_value(value: Seq<char>) -> bool {
    forall|i: int|
        0 <= i < value.len() ==> (#[trigger] value[i] == '\t' || (value[i] >= ' ' && value[i]
            != '\u{7f}'))
}

/// `HeaderValue::from_str(value).is_ok()`: its source accepts exactly the
/// values whose bytes are all tab, or 32 or more and not 127.
#[verifier::external_body]
fn header_value_ok(value: &str) -> (r: bool)
    ensures
        r == valid_header_value(value@),
{
    reqwest::header::HeaderValue::from_str(value).is_ok()
}

/// The headers of a server's configuration that are sent: those whose name
/// and value are both valid, in their order (the others are skipped).
pub open spec fn accepted_headers_spec(hs: Seq<(Seq<char>, Seq<char>)>) -> Seq<(Seq<char>, Seq<char>)>
    decreases hs.len(),
{
    if hs.len() == 0 {
        Seq::empty()
    } else {
        let r = accepted_headers_spec(hs.drop_last());
        let h = hs.last();
        if valid_header_name(h.0) && valid_header_value(h.1) {
            r.push(h)
        } else {
            r
        }
    }
}

pub open spec fn pair_views(hs: Seq<(String, String)>) -> Seq<(Seq<char>, Seq<char>)> {
    hs.map_values(|h: (String, String)| (h.0@, h.1@))
}

/// The configured headers that can be sent.
pub fn accepted_headers(headers: &Vec<(String, String)>) -> (r: Vec<(String, String)>)
    ensures
        pair_views(r@) == accepted_headers_spec(pair_views(headers@)),
{
    let ghost hv = pair_views(headers@);
    let mut out: Vec<(String, String)> = Vec::new();
    let n = headers.len();
    assert(hv.take(0) =~= Seq::<(Seq<char>, Seq<char>)>::empty());
    assert(pair_views(out@) =~= Seq::<(Seq<char>, Seq<char>)>::empty());
    for i in 0..n
        invariant
            n == headers@.len(),
            hv == pair_views(headers@),
            pair_views(out@) == accepted_headers_spec(hv.take(i as int)),
    {
        assert(hv.take(i + 1).drop_last() =~= hv.take(i as int));
        let (k, v) = &headers[i];
        let ghost before = out@;
        if header_name_ok(k.as_str()) && header_value_ok(v.as_str()) {
            out.push((k.clone(), v.clone()));
            assert(pair_views(out@) =~= pair_views(before).push((k@, v@)));
        }
    }
    assert(hv.take(n as int) =~= hv);
    out
}

/// `s` with every trailing `/sse` removed (`trim_end_matches("/sse")`).
pub open spec fn trim_sse(s: Seq<char>) -> Seq<char>
    decreases s.len(),
{
    if s.len() >= 4 && s.skip(s.len() - 4) == "/sse"@ {
        trim_sse(s.take(s.len() - 4))
    } else {
        s
    }
}

/// The address requests go to: the configured URL without trailing `/sse`.
pub fn mcp_base_url(url: &str) -> (r: String)
    ensures
        r@ == trim_sse(url@),
{
    let cs = chars_of(url);
    let sse = chars_of("/sse");
    proof {
        reveal_strlit("/sse");
    }
    let mut end = cs.len();
    assert(cs@.take(end as int) =~= cs@);
    while end >= 4 && cs[end - 4] == sse[0] && cs[end - 3] == sse[1] && cs[end - 2] == sse[2]
        && cs[end - 1] == sse[3]
        invariant
            end <= cs@.len(),
            sse@ == "/sse"@,
            sse@.len() == 4,
            trim_sse(cs@) == trim_sse(cs@.take(end as int)),
        decreases end,
    {
        assert(cs@.take(end as int).skip(end - 4) =~= "/sse"@);
        assert(cs@.take(end as int).take(end - 4) =~= cs@.take(end - 4));
        end = end - 4;
    }
    let ghost t = cs@.take(end as int);
    assert(!(t.len() >= 4 && t.skip(t.len() - 4) == "/sse"@)) by {
        if t.len() >= 4 && t.skip(t.len() - 4) == "/sse"@ {
            assert(t.skip(t.len() - 4)[0] == cs@[end - 4]);
            assert(t.skip(t.len() - 4)[1] == cs@[end - 3]);
            assert(t.skip(t.len() - 4)[2] == cs@[end - 2]);
            assert(t.skip(t.len() - 4)[3] == cs@[end - 1]);
        }
    }
    let kept = crate::text::slice_chars(&cs, 0, end);
    assert(kept@ =~= t);
    crate::text::string_from_chars(&kept)
}

/// The text at `v[key]`, or empty when it is not a string.
pub open spec fn str_or_empty(v: serde_json::Value, key: Seq<char>) -> Seq<char> {
    match json_str(json_get(v, key)) {
        Some(s) => s,
        None => Seq::empty(),
    }
}

/// The tool entries of a `tools/list` reply (`result.tools`); none when the
/// reply has no such array.
pub open spec fn listed_tools(resp: serde_json::Value) -> Seq<serde_json::Value> {
    match json_array(json_get(json_get(resp, "result"@), "tools"@)) {
        Some(a) => a,
        None => Seq::empty(),
    }
}

/// The tool that a `tools/list` entry describes.
pub open spec fn tool_of_entry(t: ToolDefinition, e: serde_json::Value) -> bool {
    &&& t.name@ == str_or_empty(e, "name"@)
    &&& t.description@ == str_or_empty(e, "description"@)
    &&& t.parameters == json_get(e, "inputSchema"@)
    &&& t.source == ToolSource::Mcp
}

fn str_or_empty_of(v: &serde_json::Value, key: &str) -> (r: String)
    ensures
        r@ == str_or_empty(*v, key@),
{
    match json_as_str(&json_member(v, key)) {
        Some(s) => s,
        None => String::new(),
    }
}

/// The tools a server offers, read from its `tools/list` reply.
pub fn tools_from_list(resp: &serde_json::Value) -> (r: Vec<ToolDefinition>)
    ensures
        r@.len() == listed_tools(*resp).len(),
        forall|i: int| 0 <= i < r@.len() ==> tool_of_entry(#[trigger] r@[i], listed_tools(*resp)[i]),
{
    proof {
        reveal_strlit("result");
        reveal_strlit("tools");
    }
    let arr = match json_as_array(&json_member(&json_member(resp, "result"), "tools")) {
        Some(a) => a,
        None => Vec::new(),
    };
    let ghost es = listed_tools(*resp);
    assert(arr@ == es);
    let mut out: Vec<ToolDefinition> = Vec::new();
    let n = arr.len();
    for i in 0..n
        invariant
            n == arr@.len(),
            arr@ == es,
            out@.len() == i,
            forall|q: int| 0 <= q < i ==> tool_of_entry(#[trigger] out@[q], es[q]),
    {
        let e = &arr[i];
        let t = ToolDefinition {
            name: str_or_empty_of(e, "name"),
            description: str_or_empty_of(e, "description"),
            parameters: json_member(e, "inputSchema"),
            source: ToolSource::Mcp,
        };
        out.push(t);
    }
    out
}

/// Whether a JSON object has a member named `key` (`Value::get(key).is_some()`).
pub open spec fn has_member(v: serde_json::Value, key: Seq<char>) -> bool {
    json_object(v) is Some && exists|i: int|
        0 <= i < json_object(v)->Some_0.len() && (#[trigger] json_object(v)->Some_0[i]).0 == key
}

fn has_member_of(v: &serde_json::Value, key: &str) -> (r: bool)
    ensures
        r == has_member(*v, key@),
{
    match json_as_object(v) {
        None => false,
        Some(ms) => {
            let ghost m = json_object(*v)->Some_0;
            let n = ms.len();
            for i in 0..n
                invariant
                    n == ms@.len(),
                    json_object(*v) == Some(m),
                    m.len() == n,
                    forall|q: int| 0 <= q < n ==> (#[trigger] ms@[q]).0@ == m[q].0,
                    forall|q: int| 0 <= q < i ==> (#[trigger] m[q]).0 != key@,
            {
                if str_eq(ms[i].0.as_str(), key) {
                    assert(m[i as int].0 == key@);
                    assert(json_object(*v)->Some_0[i as int].0 == key@);
                    return true;
                }
                assert(ms@[i as int].0@ == m[i as int].0);
            }
            false
        },
    }
}

/// The texts of the `text` items of a tool reply's content, in order.
pub open spec fn content_texts(items: Seq<serde_json::Value>) -> Seq<Seq<char>>
    decreases items.len(),
{
    if items.len() == 0 {
        Seq::empty()
    } else {
        let r = content_texts(items.drop_last());
        let c = items.last();
        if json_str(json_get(c, "type"@)) == Some("text"@) && json_str(json_get(c, "text"@)) is Some {
            r.push(json_str(json_get(c, "text"@))->Some_0)
        } else {
            r
        }
    }
}

/// The content items of a tool reply (`result.content`); none when absent.
pub open spec fn reply_content(resp: serde_json::Value) -> Seq<serde_json::Value> {
    match json_array(json_get(json_get(resp, "result"@), "content"@)) {
        Some(a) => a,
        None => Seq::empty(),
    }
}

/// What a `tools/call` reply means: a JSON-RPC error gives its message; a
/// result flagged `isError` gives the text of its first content item; else
/// the texts of the content's text items, one per line.
pub open spec fn call_outcome(resp: serde_json::Value) -> Result<Seq<char>, Seq<char>> {
    if has_member(resp, "error"@) {
        Err(
            match json_str(json_get(json_get(resp, "error"@), "message"@)) {
                Some(m) => m,
                None => "unknown MCP error"@,
            },
        )
    } else if json_bool(json_get(json_get(resp, "result"@), "isError"@)) == Some(true) {
        Err(
            match json_array(json_get(json_get(resp, "result"@), "content"@)) {
                Some(a) => if a.len() > 0 && json_str(json_get(a[0], "text"@)) is Some {
                    json_str(json_get(a[0], "text"@))->Some_0
                } else {
                    "tool reported error"@
                },
                None => "tool reported error"@,
            },
        )
    } else {
        Ok(join_with(content_texts(reply_content(resp)), "\n"@))
    }
}

/// Reads a server's reply to a tool call.
pub fn reply_outcome(resp: &serde_json::Value) -> (r: Result<String, String>)
    ensures
        match call_outcome(*resp) {
            Ok(t) => r matches Ok(s) && s@ == t,
            Err(e) => r matches Err(s) && s@ == e,
        },
{
    proof {
        reveal_strlit("error");
        reveal_strlit("message");
        reveal_strlit("result");
        reveal_strlit("isError");
        reveal_strlit("content");
        reveal_strlit("text");
        reveal_strlit("type");
        reveal_strlit("unknown MCP error");
        reveal_strlit("tool reported error");
        reveal_strlit("\n");
    }
    if has_member_of(resp, "error") {
        let msg = match json_as_str(&json_member(&json_member(resp, "error"), "message")) {
            Some(m) => m,
            None => "unknown MCP error".to_string(),
        };
        return Err(msg);
    }
    let result = json_member(resp, "result");
    if json_as_bool(&json_member(&result, "isError")) == Some(true) {
        let msg = match json_as_array(&json_member(&result, "content")) {
            Some(a) => {
                if a.len() > 0 {
                    match json_as_str(&json_member(&a[0], "text")) {
                        Some(t) => t,
                        None => "tool reported error".to_string(),
                    }
                } else {
                    "tool reported error".to_string()
                }
            },
            None => "tool reported error".to_string(),
        };
        return Err(msg);
    }
    let items = match json_as_array(&json_member(&result, "content")) {
        Some(a) => a,
        None => Vec::new(),
    };
    let ghost iv = reply_content(*resp);
    assert(items@ == iv);
    let mut texts: Vec<String> = Vec::new();
    let n = items.len();
    assert(iv.take(0) =~= Seq::<serde_json::Value>::empty());
    assert(string_views(texts@) =~= Seq::<Seq<char>>::empty());
    for i in 0..n
        invariant
            n == items@.len(),
            items@ == iv,
            string_views(texts@) == content_texts(iv.take(i as int)),
    {
        assert(iv.take(i + 1).drop_last() =~= iv.take(i as int));
        let c = &items[i];
        let ghost before = texts@;
        let is_text = match json_as_str(&json_member(c, "type")) {
            Some(t) => str_eq(t.as_str(), "text"),
            None => false,
        };
        if is_text {
            match json_as_str(&json_member(c, "text")) {
                Some(t) => {
                    let ghost tv = t@;
                    texts.push(t);
                    assert(string_views(texts@) =~= string_views(before).push(tv));
                },
                None => {},
            }
        }
    }
    assert(iv.take(n as int) =~= iv);
    Ok(join_strings(&texts, "\n"))
}

/// Whether a server can be used.
pub enum McpStatus {
    Connected,
    Unavailable(String),
}

/// One configured server: its name, address, headers, the tools it offers
/// and whether it is reachable. A server that could not be reached offers
/// no tools until it is reached again.
pub struct McpClient {
    server_name: String,
    base_url: String,
    headers: Vec<(String, String)>,
    tools: Vec<ToolDefinition>,
    status: McpStatus,
}

impl McpClient {
    pub closed spec fn name_view(&self) -> Seq<char> {
        self.server_name@
    }

    pub closed spec fn url_view(&self) -> Seq<char> {
        self.base_url@
    }

    pub closed spec fn headers_view(&self) -> Seq<(Seq<char>, Seq<char>)> {
        pair_views(self.headers@)
    }

    pub closed spec fn tools_view(&self) -> Seq<ToolDefinition> {
        self.tools@
    }

    pub closed spec fn connected(&self) -> bool {
        self.status is Connected
    }

    /// The reason the server is unreachable, when it is.
    pub closed spec fn failure(&self) -> Option<Seq<char>> {
        match self.status {
            McpStatus::Connected => None,
            McpStatus::Unavailable(r) => Some(r@),
        }
    }

    /// The server after a first connection attempt: on success it offers
    /// the tools listed and is reached at the address used; on failure it
    /// keeps the base address, offers nothing and records why.
    pub fn from_connect(
        server_name: String,
        base_url: String,
        headers: Vec<(String, String)>,
        outcome: Result<(Vec<ToolDefinition>, String), String>,
    ) -> (r: Self)
        ensures
            r.name_view() == server_name@,
            r.headers_view() == pair_views(headers@),
            match outcome {
                Ok((tools, url)) => r.connected() && r.tools_view() == tools@ && r.url_view()
                    == url@ && r.failure() is None,
                Err(e) => !r.connected() && r.tools_view().len() == 0 && r.url_view() == base_url@
                    && r.failure() == Some(e@),
            },
    {
        match outcome {
            Ok((tools, url)) => McpClient {
                server_name,
                base_url: url,
                headers,
                tools,
                status: McpStatus::Connected,
            },
            Err(e) => McpClient {
                server_name,
                base_url,
                headers,
                tools: Vec::new(),
                status: McpStatus::Unavailable(e),
            },
        }
    }

    /// Records a new connection attempt: success replaces the tools and the
    /// address; failure only records why (the tools are kept).
    pub fn apply_reconnect(&mut self, outcome: Result<(Vec<ToolDefinition>, String), String>)
        ensures
            final(self).name_view() == old(self).name_view(),
            final(self).headers_view() == old(self).headers_view(),
            match outcome {
                Ok((tools, url)) => final(self).connected() && final(self).tools_view() == tools@
                    && final(self).url_view() == url@,
                Err(e) => !final(self).connected() && final(self).failure() == Some(e@)
                    && final(self).tools_view() == old(self).tools_view()
                    && final(self).url_view() == old(self).url_view(),
            },
    {
        match outcome {
            Ok((tools, url)) => {
                self.tools = tools;
                self.base_url = url;
                self.status = McpStatus::Connected;
            },
            Err(e) => {
                self.status = McpStatus::Unavailable(e);
            },
        }
    }

    pub fn tools(&self) -> (r: &Vec<ToolDefinition>)
        ensures
            r@ == self.tools_view(),
    {
        &self.tools
    }

    pub fn server_name(&self) -> (r: &str)
        ensures
            r@ == self.name_view(),
    {
        self.server_name.as_str()
    }

    pub fn base_url(&self) -> (r: &str)
        ensures
            r@ == self.url_view(),
    {
        self.base_url.as_str()
    }

    pub fn headers(&self) -> (r: &Vec<(String, String)>)
        ensures
            pair_views(r@) == self.headers_view(),
    {
        &self.headers
    }

    pub fn status(&self) -> (r: &McpStatus)
        ensures
            (r is Connected) == self.connected(),
            match self.failure() {
                Some(e) => r matches McpStatus::Unavailable(s) && s@ == e,
                None => r is Connected,
            },
    {
        &self.status
    }

    pub fn is_connected(&self) -> (r: bool)
        ensures
            r == self.connected(),
    {
        match self.status {
            McpStatus::Connected => true,
            McpStatus::Unavailable(_) => false,
        }
    }

    /// Whether the server lists a tool of this name.
    pub fn has_tool(&self, name: &str) -> (r: bool)
        ensures
            r == offers(self.tools_view(), name@),
    {
        let n = self.tools.len();
        for i in 0..n
            invariant
                n == self.tools@.len(),
                forall|q: int| 0 <= q < i ==> (#[trigger] self.tools@[q]).name@ != name@,
        {
            if str_eq(self.tools[i].name.as_str(), name) {
                return true;
            }
        }
        false
    }
}

/// Whether a list of tools holds one named `name`.
pub open spec fn offers(tools: Seq<ToolDefinition>, name: Seq<char>) -> bool {
    exists|i: int| 0 <= i < tools.len() && (#[trigger] tools[i]).name@ == name
}

/// The first server at or after `from` that lists the tool `name`.
pub open spec fn first_handler(clients: Seq<McpClient>, name: Seq<char>, from: int) -> Option<int>
    decreases clients.len() - from,
{
    if from < 0 || from >= clients.len() {
        None
    } else if offers(clients[from].tools_view(), name) {
        Some(from)
    } else {
        first_handler(clients, name, from + 1)
    }
}

/// What executing a tool call through the servers does next.
pub enum McpStep {
    /// Send the call to this server.
    Execute(usize),
    /// This server lists the tool but is unreachable: try to reach it again.
    Reconnect(usize),
    /// No server handles the tool.
    NoHandler,
}

/// The step for the first server at or after `from` that lists the tool.
pub open spec fn route_spec(clients: Seq<McpClient>, name: Seq<char>, from: int) -> McpStep {
    match first_handler(clients, name, from) {
        None => McpStep::NoHandler,
        Some(k) => if clients[k].connected() {
            McpStep::Execute(k as usize)
        } else {
            McpStep::Reconnect(k as usize)
        },
    }
}

proof fn lemma_first_handler(clients: Seq<McpClient>, name: Seq<char>, from: int)
    requires
        from >= 0,
    ensures
        first_handler(clients, name, from) matches Some(k) ==> from <= k < clients.len() && offers(
            clients[k].tools_view(),
            name,
        ) && forall|q: int| from <= q < k ==> !offers(#[trigger] clients[q].tools_view(), name),
        first_handler(clients, name, from) is None ==> forall|q: int|
            from <= q < clients.len() ==> !offers(#[trigger] clients[q].tools_view(), name),
    decreases clients.len() - from,
{
    if 0 <= from < clients.len() && !offers(clients[from].tools_view(), name) {
        lemma_first_handler(clients, name, from + 1);
    }
}

/// A tool call goes to the first server, in configured order, that lists
/// the tool; when no server lists it, no server gets it.
pub proof fn law_route_first_listing(clients: Seq<McpClient>, name: Seq<char>)
    requires
        clients.len() <= usize::MAX,
    ensures
        match route_spec(clients, name, 0) {
            McpStep::Execute(k) => k < clients.len() && clients[k as int].connected() && offers(
                clients[k as int].tools_view(),
                name,
            ) && forall|q: int| 0 <= q < k ==> !offers(#[trigger] clients[q].tools_view(), name),
            McpStep::Reconnect(k) => k < clients.len() && !clients[k as int].connected() && offers(
                clients[k as int].tools_view(),
                name,
            ) && forall|q: int| 0 <= q < k ==> !offers(#[trigger] clients[q].tools_view(), name),
            McpStep::NoHandler => forall|q: int|
                0 <= q < clients.len() ==> !offers(#[trigger] clients[q].tools_view(), name),
        },
{
    lemma_first_handler(clients, name, 0);
}

/// The configured servers.
pub struct McpRegistry {
    pub clients: Vec<McpClient>,
}

impl McpRegistry {
    /// No servers.
    pub fn empty() -> (r: Self)
        ensures
            r.clients@.len() == 0,
    {
        McpRegistry { clients: Vec::new() }
    }

    /// The servers, in their configured order.
    pub fn from_clients(clients: Vec<McpClient>) -> (r: Self)
        ensures
            r.clients@ == clients@,
    {
        McpRegistry { clients }
    }

    /// The tools of the reachable servers, server by server.
    pub fn all_tools(&self) -> (r: Vec<ToolDefinition>)
        ensures
            r@ == reachable_tools(self.clients@),
    {
        let mut out: Vec<ToolDefinition> = Vec::new();
        let n = self.clients.len();
        assert(self.clients@.take(0) =~= Seq::<McpClient>::empty());
        for i in 0..n
            invariant
                n == self.clients@.len(),
                out@ == reachable_tools(self.clients@.take(i as int)),
        {
            assert(self.clients@.take(i + 1).drop_last() =~= self.clients@.take(i as int));
            let c = &self.clients[i];
            if c.is_connected() {
                let ts = c.tools();
                let m = ts.len();
                let ghost start = out@;
                for j in 0..m
                    invariant
                        m == ts@.len(),
                        out@ == start + ts@.take(j as int),
                {
                    out.push(ts[j].duplicate());
                    assert(out@ =~= start + ts@.take(j + 1));
                }
                assert(ts@.take(m as int) =~= ts@);
            }
        }
        assert(self.clients@.take(n as int) =~= self.clients@);
        out
    }

    /// The names of the reachable servers.
    pub fn connected_servers(&self) -> (r: Vec<String>)
        ensures
            string_views(r@) == reachable_names(self.clients@),
    {
        let mut out: Vec<String> = Vec::new();
        let n = self.clients.len();
        assert(self.clients@.take(0) =~= Seq::<McpClient>::empty());
        assert(string_views(out@) =~= Seq::<Seq<char>>::empty());
        for i in 0..n
            invariant
                n == self.clients@.len(),
                string_views(out@) == reachable_names(self.clients@.take(i as int)),
        {
            assert(self.clients@.take(i + 1).drop_last() =~= self.clients@.take(i as int));
            let c = &self.clients[i];
            let ghost before = out@;
            if c.is_connected() {
                out.push(c.server_name().to_string());
                assert(string_views(out@) =~= string_views(before).push(c.name_view()));
            }
        }
        assert(self.clients@.take(n as int) =~= self.clients@);
        out
    }

    /// The unreachable servers with the reason of each.
    pub fn failed_servers(&self) -> (r: Vec<(String, String)>)
        ensures
            pair_views(r@) == failures(self.clients@),
    {
        let mut out: Vec<(String, String)> = Vec::new();
        let n = self.clients.len();
        assert(self.clients@.take(0) =~= Seq::<McpClient>::empty());
        assert(pair_views(out@) =~= Seq::<(Seq<char>, Seq<char>)>::empty());
        for i in 0..n
            invariant
                n == self.clients@.len(),
                pair_views(out@) == failures(self.clients@.take(i as int)),
        {
            assert(self.clients@.take(i + 1).drop_last() =~= self.clients@.take(i as int));
            let c = &self.clients[i];
            let ghost before = out@;
            match c.status() {
                McpStatus::Unavailable(reason) => {
                    out.push((c.server_name().to_string(), reason.clone()));
                    assert(pair_views(out@) =~= pair_views(before).push(
                        (c.name_view(), c.failure()->Some_0),
                    ));
                },
                McpStatus::Connected => {},
            }
        }
        assert(self.clients@.take(n as int) =~= self.clients@);
        out
    }

    /// Where a call of the tool `name` goes, looking at the servers from
    /// `from` on: the first that lists it, to be reached again first if it
    /// is unreachable.
    pub fn route_from(&self, name: &str, from: usize) -> (r: McpStep)
        ensures
            r == route_spec(self.clients@, name@, from as int),
    {
        proof {
            lemma_first_handler(self.clients@, name@, from as int);
        }
        let n = self.clients.len();
        let mut k = from;
        while k < n
            invariant
                n == self.clients@.len(),
                from <= k,
                first_handler(self.clients@, name@, from as int) == first_handler(
                    self.clients@,
                    name@,
                    k as int,
                ),
            decreases n - k,
        {
            if self.clients[k].has_tool(name) {
                if self.clients[k].is_connected() {
                    return McpStep::Execute(k);
                } else {
                    return McpStep::Reconnect(k);
                }
            }
            k = k + 1;
        }
        McpStep::NoHandler
    }

    /// The step after server `k` was reached again (or not): a reachable
    /// server gets the call; otherwise the search goes on after it.
    pub fn after_reconnect(&self, name: &str, k: usize) -> (r: McpStep)
        requires
            k < self.clients.len(),
        ensures
            self.clients@[k as int].connected() ==> r == McpStep::Execute(k),
            !self.clients@[k as int].connected() ==> r == route_spec(self.clients@, name@, k + 1),
    {
        if self.clients[k].is_connected() {
            McpStep::Execute(k)
        } else {
            self.route_from(name, k + 1)
        }
    }
}

/// The tools of the reachable servers, in order.
pub open spec fn reachable_tools(cs: Seq<McpClient>) -> Seq<ToolDefinition>
    decreases cs.len(),
{
    if cs.len() == 0 {
        Seq::empty()
    } else if cs.last().connected() {
        reachable_tools(cs.drop_last()) + cs.last().tools_view()
    } else {
        reachable_tools(cs.drop_last())
    }
}

/// The names of the reachable servers, in order.
pub open spec fn reachable_names(cs: Seq<McpClient>) -> Seq<Seq<char>>
    decreases cs.len(),
{
    if cs.len() == 0 {
        Seq::empty()
    } else if cs.last().connected() {
        reachable_names(cs.drop_last()).push(cs.last().name_view())
    } else {
        reachable_names(cs.drop_last())
    }
}

/// The unreachable servers and their reasons, in order.
pub open spec fn failures(cs: Seq<McpClient>) -> Seq<(Seq<char>, Seq<char>)>
    decreases cs.len(),
{
    if cs.len() == 0 {
        Seq::empty()
    } else {
        match cs.last().failure() {
            Some(e) => failures(cs.drop_last()).push((cs.last().name_view(), e)),
            None => failures(cs.drop_last()),
        }
    }
}

/// The result given back when no server handles the tool.
pub fn no_handler_result(call_id: String, name: &str) -> (r: ToolResult)
    ensures
        r.call_id == call_id,
        r.is_error,
        r.output@ == "no MCP server handles tool: "@ + name@,
        r.images@.len() == 0,
{
    let mut msg = String::new();
    crate::text::push_str_chars(&mut msg, "no MCP server handles tool: ");
    crate::text::push_str_chars(&mut msg, name);
    proof {
        reveal_strlit("no MCP server handles tool: ");
    }
    ToolResult { call_id, output: msg, is_error: true, images: Vec::new() }
}

} // verus!
