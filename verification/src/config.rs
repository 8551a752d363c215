//! The MCP servers a project names in its `.mcp.json`.
use vstd::prelude::*;

use crate::json::{json_as_object, json_as_str, json_get, json_member, json_object, json_str};
use crate::ollama::stream::{json_parse, parse_json};
use crate::text::{chars_of, trim, trim_chars};

verus! {

/// One MCP server: its name, its URL and the headers its requests carry.
pub struct McpServerConfig {
    pub name: String,
    pub url: String,
    /// Header names and values, each name once.
    pub headers: Vec<(String, String)>,
}

pub struct Config {
    pub servers: Vec<McpServerConfig>,
}

/// A server, as text.
pub struct ServerSpec {
    pub name: Seq<char>,
    pub url: Seq<char>,
    pub headers: Seq<(Seq<char>, Seq<char>)>,
}

pub open spec fn server_view(s: McpServerConfig) -> ServerSpec {
    ServerSpec {
        name: s.name@,
        url: s.url@,
        headers: s.headers@.map_values(|h: (String, String)| (h.0@, h.1@)),
    }
}

pub open spec fn servers_view(v: Seq<McpServerConfig>) -> Seq<ServerSpec> {
    v.map_values(|s: McpServerConfig| server_view(s))
}

/// The members of an object whose values are strings, as pairs of texts.
pub open spec fn string_members(m: Seq<(Seq<char>, serde_json::Value)>) -> Seq<(Seq<char>, Seq<char>)>
    decreases m.len(),
{
    if m.len() == 0 {
        Seq::empty()
    } else {
        let rest = string_members(m.drop_last());
        match json_str(m.last().1) {
            Some(s) => rest.push((m.last().0, s)),
            None => rest,
        }
    }
}

/// The servers of the `mcpServers` object: entries without a `url` string
/// are skipped; `headers` keeps the members whose values are strings.
pub open spec fn servers_of(entries: Seq<(Seq<char>, serde_json::Value)>) -> Seq<ServerSpec>
    decreases entries.len(),
{
    if entries.len() == 0 {
        Seq::empty()
    } else {
        let rest = servers_of(entries.drop_last());
        let (name, entry) = entries.last();
        match json_str(json_get(entry, "url"@)) {
            Some(url) => rest.push(
                ServerSpec {
                    name,
                    url,
                    headers: match json_object(json_get(entry, "headers"@)) {
                        Some(h) => string_members(h),
                        None => Seq::empty(),
                    },
                },
            ),
            None => rest,
        }
    }
}

/// The servers a `.mcp.json` text names: none when it is blank or not
/// JSON, or has no `mcpServers` object.
pub open spec fn config_spec(text: Seq<char>) -> Seq<ServerSpec> {
    if trim(text).len() == 0 {
        Seq::empty()
    } else {
        match json_parse(text) {
            None => Seq::empty(),
            Some(v) => match json_object(json_get(v, "mcpServers"@)) {
                Some(entries) => servers_of(entries),
                None => Seq::empty(),
            },
        }
    }
}

fn headers_of(entry: &serde_json::Value) -> (r: Vec<(String, String)>)
    ensures
        r@.map_values(|h: (String, String)| (h.0@, h.1@)) == match json_object(
            json_get(*entry, "headers"@),
        ) {
            Some(h) => string_members(h),
            None => Seq::empty(),
        },
{
    let hv = json_member(entry, "headers");
    let mut out: Vec<(String, String)> = Vec::new();
    match json_as_object(&hv) {
        Some(members) => {
            let ghost m = json_object(hv).unwrap();
            let n = members.len();
            assert(m.take(0) =~= Seq::<(Seq<char>, serde_json::Value)>::empty());
            for i in 0..n
                invariant
                    n == members@.len(),
                    json_object(hv) == Some(m),
                    m.len() == n,
                    forall|q: int|
                        0 <= q < m.len() ==> (#[trigger] members@[q]).0@ == m[q].0 && members@[q].1
                            == m[q].1,
                    out@.map_values(|h: (String, String)| (h.0@, h.1@)) == string_members(
                        m.take(i as int),
                    ),
            {
                assert(m.take(i + 1).drop_last() =~= m.take(i as int));
                assert(m.take(i + 1).last() == m[i as int]);
                let (k, x) = &members[i];
                if let Some(s) = json_as_str(x) {
                    let ghost before = out@;
                    out.push((k.clone(), s));
                    assert(out@.map_values(|h: (String, String)| (h.0@, h.1@)) =~= before.map_values(
                        |h: (String, String)| (h.0@, h.1@),
                    ).push((m[i as int].0, json_str(m[i as int].1).unwrap())));
                }
            }
            assert(m.take(n as int) =~= m);
        },
        None => {
            assert(out@.map_values(|h: (String, String)| (h.0@, h.1@)) =~= Seq::<
                (Seq<char>, Seq<char>),
            >::empty());
        },
    }
    out
}

/// Reads the text of a `.mcp.json`.
pub fn config_from_text(text: &str) -> (r: Config)
    ensures
        servers_view(r.servers@) == config_spec(text@),
{
    let empty: Vec<McpServerConfig> = Vec::new();
    assert(servers_view(empty@) =~= Seq::<ServerSpec>::empty());
    let cs = chars_of(text);
    let t = trim_chars(&cs);
    if t.len() == 0 {
        return Config { servers: empty };
    }
    let value = match parse_json(text) {
        Some(v) => v,
        None => {
            return Config { servers: empty };
        },
    };
    let entries = match json_as_object(&json_member(&value, "mcpServers")) {
        Some(e) => e,
        None => {
            return Config { servers: empty };
        },
    };
    let ghost es = json_object(json_get(value, "mcpServers"@)).unwrap();
    let n = entries.len();
    let mut servers: Vec<McpServerConfig> = Vec::new();
    assert(es.take(0) =~= Seq::<(Seq<char>, serde_json::Value)>::empty());
    for i in 0..n
        invariant
            n == entries@.len(),
            es.len() == n,
            forall|q: int|
                0 <= q < es.len() ==> (#[trigger] entries@[q]).0@ == es[q].0 && entries@[q].1
                    == es[q].1,
            servers_view(servers@) == servers_of(es.take(i as int)),
    {
        assert(es.take(i + 1).drop_last() =~= es.take(i as int));
        assert(es.take(i + 1).last() == es[i as int]);
        let (name, entry) = &entries[i];
        let url_value = json_member(entry, "url");
        if let Some(url) = json_as_str(&url_value) {
            let headers = headers_of(entry);
            let s = McpServerConfig { name: name.clone(), url, headers };
            let ghost before = servers@;
            servers.push(s);
            assert(servers_view(servers@) =~= servers_view(before).push(server_view(s)));
        }
    }
    assert(es.take(n as int) =~= es);
    Config { servers }
}

} // verus!
