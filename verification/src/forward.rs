//! How a request is forwarded to its backend: the routing path that is
//! logged, the backend URI, which headers the forwarded request sets and
//! which of the client's headers it leaves out, and which conversions a
//! request between different protocols needs.

use crate::protocol::{converter_for, ConverterKind, Protocol};
use vstd::prelude::*;

verus! {

/// `items` joined with `sep` between neighbours.
pub open spec fn join_spec(items: Seq<Seq<char>>, sep: Seq<char>) -> Seq<char>
    decreases items.len(),
{
    if items.len() == 0 {
        Seq::empty()
    } else if items.len() == 1 {
        items[0]
    } else {
        join_spec(items.drop_last(), sep) + sep + items.last()
    }
}

/// The routing path as logged: the route's nodes from the last to the
/// first, joined with " -> ".
pub open spec fn routing_path_spec(nodes: Seq<Seq<char>>) -> Seq<char> {
    join_spec(nodes.reverse(), " -> "@)
}

/// The route's nodes, by their names.
pub open spec fn names(nodes: Seq<String>) -> Seq<Seq<char>> {
    nodes.map_values(|s: String| s@)
}

/// The routing path of a route, for the log: its nodes from the last to the
/// first, joined with " -> ".
pub fn routing_path(nodes: &Vec<String>) -> (p: String)
    ensures
        p@ == routing_path_spec(names(nodes@)),
{
    let ghost rev = names(nodes@).reverse();
    let n = nodes.len();
    let mut out = String::new();
    let mut k: usize = 0;
    while k < n
        invariant
            n == nodes@.len(),
            rev == names(nodes@).reverse(),
            rev.len() == n,
            k <= n,
            out@ == join_spec(rev.take(k as int), " -> "@),
        decreases n - k,
    {
        let item = nodes[n - 1 - k].as_str();
        assert(rev[k as int] == item@);
        if k > 0 {
            out.append(" -> ");
        }
        out.append(item);
        proof {
            let t = rev.take(k + 1);
            assert(t.drop_last() =~= rev.take(k as int));
            assert(t.last() == item@);
            if k == 0 {
                assert(out@ =~= t[0]);
            }
        }
        k = k + 1;
    }
    assert(rev.take(n as int) =~= rev);
    out
}

/// The name of the environment variable an API key refers to: `NAME` for a
/// key written `${NAME}` or `$NAME`; none for any other key.
pub open spec fn env_var_name(key: Seq<char>) -> Option<Seq<char>> {
    if key.len() >= 3 && key[0] == '$' && key[1] == '{' && key[key.len() - 1] == '}' {
        Some(key.subrange(2, key.len() - 1))
    } else if key.len() > 0 && key[0] == '$' {
        Some(key.subrange(1, key.len() as int))
    } else {
        None
    }
}

/// The value an API key stands for: a key that names an environment
/// variable (`${NAME}` or `$NAME`) stands for that variable when it is set
/// (`value` is what it holds), any other key for itself.
pub open spec fn env_key_spec(key: Seq<char>, value: Option<Seq<char>>) -> Seq<char> {
    if env_var_name(key) is Some && value is Some {
        value->0
    } else {
        key
    }
}

/// The name of the environment variable a key refers to: the part between
/// the braces of `${NAME}`, or the rest of `$NAME`.
pub fn env_key_name(key: &str) -> (name: Option<&str>)
    ensures
        match name {
            Some(n) => env_var_name(key@) == Some(n@),
            None => env_var_name(key@) == None::<Seq<char>>,
        },
{
    let len = key.unicode_len();
    if len >= 3 && key.get_char(0) == '$' && key.get_char(1) == '{' && key.get_char(len - 1)
        == '}' {
        Some(key.substring_char(2, len - 1))
    } else if len > 0 && key.get_char(0) == '$' {
        Some(key.substring_char(1, len))
    } else {
        None
    }
}

/// The value an API key stands for, given what the environment holds for
/// the variable it names (`None` when unset or when the key names none).
pub fn env_key(key: &str, value: Option<String>) -> (v: String)
    ensures
        v@ == env_key_spec(key@, match value {
            Some(s) => Some(s@),
            None => None,
        }),
{
    match env_key_name(key) {
        Some(_) => match value {
            Some(s) => s,
            None => key.to_owned(),
        },
        None => key.to_owned(),
    }
}

/// The URI of a request forwarded to `base_url`: the base followed by the
/// path.
pub fn backend_uri(base_url: &str, path: &str) -> (u: String)
    ensures
        u@ == base_url@ + path@,
{
    String::from_str(base_url).concat(path)
}

/// The header that carries the API key for a protocol.
pub open spec fn auth_header_spec(p: Protocol) -> Seq<char> {
    match p {
        Protocol::OpenAI => "authorization"@,
        Protocol::Anthropic => "x-api-key"@,
    }
}

/// The headers a forwarded request sets, and the client headers it leaves
/// out; every other client header is copied.
pub struct HeaderPlan {
    /// Headers set on the forwarded request, in order: name and value.
    pub set: Vec<(String, String)>,
    /// Names of client headers that are not copied.
    pub skip: Vec<String>,
}

/// Pairs of strings, by their characters.
pub open spec fn pairs_view(v: Seq<(String, String)>) -> Seq<(Seq<char>, Seq<char>)> {
    v.map_values(|p: (String, String)| (p.0@, p.1@))
}

/// The headers set when forwarding in the client's own protocol. The
/// content type is JSON. With an API key, the key replaces each of the
/// client's `x-api-key` and `authorization` headers; when the client sent
/// neither, the key's value goes into the protocol's own key header.
pub open spec fn direct_set_spec(
    protocol: Protocol,
    api_key: Option<Seq<char>>,
    env_value: Option<Seq<char>>,
    has_x_api_key: bool,
    has_authorization: bool,
) -> Seq<(Seq<char>, Seq<char>)> {
    let base = seq![("content-type"@, "application/json"@)];
    match api_key {
        None => base,
        Some(k) => base + (if has_x_api_key {
            seq![("x-api-key"@, k)]
        } else {
            Seq::empty()
        }) + (if has_authorization {
            seq![("authorization"@, k)]
        } else {
            Seq::empty()
        }) + (if !has_x_api_key && !has_authorization {
            seq![(auth_header_spec(protocol), env_key_spec(k, env_value))]
        } else {
            Seq::empty()
        }),
    }
}

/// The client headers left out when forwarding in the client's own
/// protocol: host, content type and length, and any key header the API key
/// replaced.
pub open spec fn direct_skip_spec(
    api_key: Option<Seq<char>>,
    has_x_api_key: bool,
    has_authorization: bool,
) -> Seq<Seq<char>> {
    let base = seq!["host"@, "content-type"@, "content-length"@];
    match api_key {
        None => base,
        Some(_) => base + (if has_x_api_key {
            seq!["x-api-key"@]
        } else {
            Seq::empty()
        }) + (if has_authorization {
            seq!["authorization"@]
        } else {
            Seq::empty()
        }),
    }
}

/// The headers set when forwarding to a backend of another protocol: JSON
/// content, and the key's value in the backend protocol's key header.
pub open spec fn foreign_set_spec(
    backend: Protocol,
    api_key: Option<Seq<char>>,
    env_value: Option<Seq<char>>,
) -> Seq<(Seq<char>, Seq<char>)> {
    let base = seq![("content-type"@, "application/json"@)];
    match api_key {
        None => base,
        Some(k) => base + seq![(auth_header_spec(backend), env_key_spec(k, env_value))],
    }
}

/// The client headers left out when forwarding to a backend of another
/// protocol: host, content type and length, both key headers, and
/// `anthropic-version` when the backend speaks OpenAI.
pub open spec fn foreign_skip_spec(backend: Protocol) -> Seq<Seq<char>> {
    seq!["host"@, "content-type"@, "content-length"@, "authorization"@, "x-api-key"@] + (
    if backend == Protocol::OpenAI {
        seq!["anthropic-version"@]
    } else {
        Seq::empty()
    })
}

/// An optional string, by its characters.
pub open spec fn opt_view(s: Option<&str>) -> Option<Seq<char>> {
    match s {
        Some(x) => Some(x@),
        None => None,
    }
}

/// An optional owned string, by its characters.
pub open spec fn opt_string_view(s: Option<String>) -> Option<Seq<char>> {
    match s {
        Some(x) => Some(x@),
        None => None,
    }
}

fn pair(name: &str, value: &str) -> (p: (String, String))
    ensures
        p.0@ == name@,
        p.1@ == value@,
{
    (name.to_owned(), value.to_owned())
}

/// The name of the header that carries the API key for a protocol.
pub fn auth_header(p: Protocol) -> (h: &'static str)
    ensures
        h@ == auth_header_spec(p),
{
    proof {
        reveal_strlit("authorization");
        reveal_strlit("x-api-key");
    }
    match p {
        Protocol::OpenAI => "authorization",
        Protocol::Anthropic => "x-api-key",
    }
}

/// The header plan for forwarding in the client's own protocol.
/// `env_value` is what the environment holds for the variable the key
/// names, if it names one.
pub fn plan_direct_headers(
    protocol: Protocol,
    api_key: Option<&str>,
    env_value: Option<String>,
    has_x_api_key: bool,
    has_authorization: bool,
) -> (plan: HeaderPlan)
    ensures
        pairs_view(plan.set@) == direct_set_spec(
            protocol,
            opt_view(api_key),
            opt_string_view(env_value),
            has_x_api_key,
            has_authorization,
        ),
        plan.skip@.map_values(|s: String| s@) == direct_skip_spec(
            opt_view(api_key),
            has_x_api_key,
            has_authorization,
        ),
{
    proof {
        reveal_strlit("content-type");
        reveal_strlit("application/json");
        reveal_strlit("host");
        reveal_strlit("content-length");
        reveal_strlit("x-api-key");
        reveal_strlit("authorization");
    }
    let mut set: Vec<(String, String)> = Vec::new();
    set.push(pair("content-type", "application/json"));
    let mut skip: Vec<String> = Vec::new();
    skip.push("host".to_owned());
    skip.push("content-type".to_owned());
    skip.push("content-length".to_owned());
    let ghost set0 = pairs_view(set@);
    let ghost skip0 = skip@.map_values(|s: String| s@);
    assert(set0 =~= seq![("content-type"@, "application/json"@)]);
    assert(skip0 =~= seq!["host"@, "content-type"@, "content-length"@]);
    match api_key {
        Some(k) => {
            let mut added = false;
            let ghost mut exp_set = set0;
            let ghost mut exp_skip = skip0;
            if has_x_api_key {
                set.push(pair("x-api-key", k));
                skip.push("x-api-key".to_owned());
                added = true;
                proof {
                    exp_set = exp_set + seq![("x-api-key"@, k@)];
                    exp_skip = exp_skip + seq!["x-api-key"@];
                }
            }
            assert(pairs_view(set@) =~= exp_set);
            assert(skip@.map_values(|s: String| s@) =~= exp_skip);
            if has_authorization {
                set.push(pair("authorization", k));
                skip.push("authorization".to_owned());
                added = true;
                proof {
                    exp_set = exp_set + seq![("authorization"@, k@)];
                    exp_skip = exp_skip + seq!["authorization"@];
                }
            }
            assert(pairs_view(set@) =~= exp_set);
            assert(skip@.map_values(|s: String| s@) =~= exp_skip);
            if !added {
                let value = env_key(k, env_value);
                set.push(pair(auth_header(protocol), value.as_str()));
                proof {
                    exp_set = exp_set + seq![(auth_header_spec(protocol), value@)];
                }
            }
            assert(pairs_view(set@) =~= exp_set);
            assert(exp_set =~= direct_set_spec(
                protocol,
                opt_view(api_key),
                opt_string_view(env_value),
                has_x_api_key,
                has_authorization,
            ));
            assert(exp_skip =~= direct_skip_spec(opt_view(api_key), has_x_api_key, has_authorization));
        },
        None => {},
    }
    HeaderPlan { set, skip }
}

/// The header plan for forwarding to a backend of another protocol.
/// `env_value` is what the environment holds for the variable the key
/// names, if it names one.
pub fn plan_foreign_headers(backend: Protocol, api_key: Option<&str>, env_value: Option<String>) -> (plan:
    HeaderPlan)
    ensures
        pairs_view(plan.set@) == foreign_set_spec(
            backend,
            opt_view(api_key),
            opt_string_view(env_value),
        ),
        plan.skip@.map_values(|s: String| s@) == foreign_skip_spec(backend),
{
    proof {
        reveal_strlit("content-type");
        reveal_strlit("application/json");
        reveal_strlit("host");
        reveal_strlit("content-length");
        reveal_strlit("x-api-key");
        reveal_strlit("authorization");
        reveal_strlit("anthropic-version");
    }
    let mut set: Vec<(String, String)> = Vec::new();
    set.push(pair("content-type", "application/json"));
    let mut skip: Vec<String> = Vec::new();
    skip.push("host".to_owned());
    skip.push("content-type".to_owned());
    skip.push("content-length".to_owned());
    skip.push("authorization".to_owned());
    skip.push("x-api-key".to_owned());
    if backend == Protocol::OpenAI {
        skip.push("anthropic-version".to_owned());
    }
    assert(skip@.map_values(|s: String| s@) =~= foreign_skip_spec(backend));
    match api_key {
        Some(k) => {
            let value = env_key(k, env_value);
            set.push(pair(auth_header(backend), value.as_str()));
        },
        None => {},
    }
    assert(pairs_view(set@) =~= foreign_set_spec(
        backend,
        opt_view(api_key),
        opt_string_view(env_value),
    ));
    HeaderPlan { set, skip }
}

impl HeaderPlan {
    /// Whether the client header `name` is left out.
    pub fn skips(&self, name: &str) -> (b: bool)
        ensures
            b == self.skip@.map_values(|s: String| s@).contains(name@),
    {
        let owned = name.to_owned();
        let ghost names = self.skip@.map_values(|s: String| s@);
        let mut i: usize = 0;
        while i < self.skip.len()
            invariant
                i <= self.skip@.len(),
                names == self.skip@.map_values(|s: String| s@),
                owned@ == name@,
                forall|j: int| 0 <= j < i ==> names[j] != name@,
            decreases self.skip.len() - i,
        {
            if self.skip[i] == owned {
                assert(names[i as int] == name@);
                return true;
            }
            i = i + 1;
        }
        false
    }
}

/// The conversions a request between different protocols needs: its body
/// goes from the client's protocol to the backend's, and the response
/// stream from the backend's back to the client's.
pub fn foreign_conversions(client: Protocol, backend: Protocol) -> (c: (ConverterKind, ConverterKind))
    requires
        client != backend,
    ensures
        Some(c.0) == converter_for(client, backend),
        Some(c.1) == converter_for(backend, client),
{
    match client {
        Protocol::OpenAI => (ConverterKind::OpenaiToAnthropic, ConverterKind::AnthropicToOpenai),
        Protocol::Anthropic => (ConverterKind::AnthropicToOpenai, ConverterKind::OpenaiToAnthropic),
    }
}

/// How a routed request is forwarded.
#[derive(Debug, Clone, Copy, PartialEq, Eq, Structural)]
pub enum Dispatch {
    /// As it is, to a backend of the client's protocol.
    Direct,
    /// Converted, to a backend of the other protocol.
    Foreign,
    /// Not at all: no backend is available for the model, and the client
    /// gets 503 with `no_route_message`.
    Unavailable,
}

/// How a request from a client speaking `client` is forwarded, given the
/// protocol of the backend its route ends at (`None` when there is no
/// route).
pub fn dispatch(client: Protocol, backend: Option<Protocol>) -> (d: Dispatch)
    ensures
        d == match backend {
            None => Dispatch::Unavailable,
            Some(b) => if b == client {
                Dispatch::Direct
            } else {
                Dispatch::Foreign
            },
        },
{
    match backend {
        None => Dispatch::Unavailable,
        Some(b) => if b == client {
            Dispatch::Direct
        } else {
            Dispatch::Foreign
        },
    }
}

/// The body of the 503 answer to a request with no route.
pub fn no_route_message() -> (m: &'static str)
    ensures
        m@ == "No available backend for this model"@,
{
    proof {
        reveal_strlit("No available backend for this model");
    }
    "No available backend for this model"
}

/// The client headers that are copied onto the forwarded request, by name
/// and value, in order: every one whose name the plan does not skip,
/// repeated headers included.
pub open spec fn copied_headers(
    plan_skip: Seq<Seq<char>>,
    incoming: Seq<(Seq<char>, Seq<char>)>,
) -> Seq<(Seq<char>, Seq<char>)> {
    incoming.filter(|p: (Seq<char>, Seq<char>)| !plan_skip.contains(p.0))
}

/// The headers of a forwarded request: those the plan sets, then every
/// client header (each value of a repeated one) whose name the plan does
/// not skip.
pub fn forwarded_headers(plan: &HeaderPlan, incoming: &Vec<(String, String)>) -> (h: Vec<
    (String, String),
>)
    ensures
        pairs_view(h@) == pairs_view(plan.set@) + copied_headers(
            plan.skip@.map_values(|s: String| s@),
            pairs_view(incoming@),
        ),
{
    let ghost skip = plan.skip@.map_values(|s: String| s@);
    let ghost pred = |p: (Seq<char>, Seq<char>)| !skip.contains(p.0);
    let mut out: Vec<(String, String)> = Vec::new();
    let mut i: usize = 0;
    while i < plan.set.len()
        invariant
            i <= plan.set@.len(),
            out@ == plan.set@.take(i as int),
        decreases plan.set.len() - i,
    {
        let n = &plan.set[i].0;
        let v = &plan.set[i].1;
        out.push((n.clone(), v.clone()));
        i = i + 1;
        assert(out@ =~= plan.set@.take(i as int));
    }
    assert(plan.set@.take(plan.set@.len() as int) =~= plan.set@);
    let ghost base = pairs_view(out@);
    let mut j: usize = 0;
    while j < incoming.len()
        invariant
            j <= incoming@.len(),
            skip == plan.skip@.map_values(|s: String| s@),
            pred == (|p: (Seq<char>, Seq<char>)| !skip.contains(p.0)),
            pairs_view(out@) == base + pairs_view(incoming@.take(j as int)).filter(pred),
        decreases incoming.len() - j,
    {
        let n = &incoming[j].0;
        let v = &incoming[j].1;
        let ghost item = (n@, v@);
        proof {
            assert(pairs_view(incoming@.take(j + 1)) =~= pairs_view(incoming@.take(j as int)).push(
                item,
            ));
            pairs_view(incoming@.take(j as int)).lemma_filter_push(item, pred);
        }
        if !plan.skips(n.as_str()) {
            let ghost before = out@;
            out.push((n.clone(), v.clone()));
            assert(pairs_view(out@) =~= pairs_view(before).push(item));
        }
        j = j + 1;
    }
    assert(incoming@.take(incoming@.len() as int) =~= incoming@);
    out
}

/// The client sent a header named `name`.
pub open spec fn has_header(incoming: Seq<(Seq<char>, Seq<char>)>, name: Seq<char>) -> bool {
    exists|i: int| 0 <= i < incoming.len() && #[trigger] incoming[i].0 == name
}

/// Whether the client sent a header named `name`.
pub fn has_header_named(incoming: &Vec<(String, String)>, name: &str) -> (b: bool)
    ensures
        b == has_header(pairs_view(incoming@), name@),
{
    let owned = name.to_owned();
    let ghost pv = pairs_view(incoming@);
    let mut i: usize = 0;
    while i < incoming.len()
        invariant
            i <= incoming@.len(),
            pv == pairs_view(incoming@),
            owned@ == name@,
            forall|j: int| 0 <= j < i ==> pv[j].0 != name@,
        decreases incoming.len() - i,
    {
        if incoming[i].0 == owned {
            assert(pv[i as int].0 == name@);
            return true;
        }
        i = i + 1;
    }
    false
}

/// The headers of a request forwarded in the client's own protocol: the
/// plan made from whether the client sent its own key headers, then every
/// client header the plan does not skip.
pub open spec fn direct_request_headers_spec(
    protocol: Protocol,
    api_key: Option<Seq<char>>,
    env_value: Option<Seq<char>>,
    incoming: Seq<(Seq<char>, Seq<char>)>,
) -> Seq<(Seq<char>, Seq<char>)> {
    let hx = has_header(incoming, "x-api-key"@);
    let ha = has_header(incoming, "authorization"@);
    direct_set_spec(protocol, api_key, env_value, hx, ha) + copied_headers(
        direct_skip_spec(api_key, hx, ha),
        incoming,
    )
}

/// The headers of a request forwarded to a backend of another protocol.
pub open spec fn foreign_request_headers_spec(
    backend: Protocol,
    api_key: Option<Seq<char>>,
    env_value: Option<Seq<char>>,
    incoming: Seq<(Seq<char>, Seq<char>)>,
) -> Seq<(Seq<char>, Seq<char>)> {
    foreign_set_spec(backend, api_key, env_value) + copied_headers(
        foreign_skip_spec(backend),
        incoming,
    )
}

/// The headers of a request forwarded in the client's own protocol, from the
/// client's headers.
pub fn direct_request_headers(
    protocol: Protocol,
    api_key: Option<&str>,
    env_value: Option<String>,
    incoming: &Vec<(String, String)>,
) -> (h: Vec<(String, String)>)
    ensures
        pairs_view(h@) == direct_request_headers_spec(
            protocol,
            opt_view(api_key),
            opt_string_view(env_value),
            pairs_view(incoming@),
        ),
{
    proof {
        reveal_strlit("x-api-key");
        reveal_strlit("authorization");
    }
    let hx = has_header_named(incoming, "x-api-key");
    let ha = has_header_named(incoming, "authorization");
    let plan = plan_direct_headers(protocol, api_key, env_value, hx, ha);
    forwarded_headers(&plan, incoming)
}

/// The headers of a request forwarded to a backend of another protocol,
/// from the client's headers.
pub fn foreign_request_headers(
    backend: Protocol,
    api_key: Option<&str>,
    env_value: Option<String>,
    incoming: &Vec<(String, String)>,
) -> (h: Vec<(String, String)>)
    ensures
        pairs_view(h@) == foreign_request_headers_spec(
            backend,
            opt_view(api_key),
            opt_string_view(env_value),
            pairs_view(incoming@),
        ),
{
    let plan = plan_foreign_headers(backend, api_key, env_value);
    forwarded_headers(&plan, incoming)
}

/// Distinct header names are distinct.
proof fn lemma_header_names_distinct()
    ensures
        "content-type"@ != "x-api-key"@,
        "content-type"@ != "authorization"@,
        "x-api-key"@ != "authorization"@,
{
    reveal_strlit("x-api-key");
    reveal_strlit("authorization");
    reveal_strlit("content-type");
    assert("content-type"@[0] != "x-api-key"@[0]);
    assert("content-type"@[1] != "authorization"@[1]);
    assert("x-api-key"@[0] != "authorization"@[0]);
}

/// What an API key is sent as: a key starting with `$` whose variable is
/// set is sent as the variable's value; a key not starting with `$`, or
/// whose variable is unset, is sent as written.
pub proof fn lemma_env_key_value(k: Seq<char>, env_value: Option<Seq<char>>)
    ensures
        (k.len() > 0 && k[0] == '$' && env_value is Some) ==> env_key_spec(k, env_value)
            == env_value->0,
        !(k.len() > 0 && k[0] == '$') ==> env_key_spec(k, env_value) == k,
        env_value is None ==> env_key_spec(k, env_value) == k,
{
}

/// The key header of a request forwarded to a backend of the other
/// protocol: after the JSON content type comes exactly one header, named
/// `authorization` for an OpenAI backend and `x-api-key` for an Anthropic
/// one, carrying the variable's value for a `$`-key whose variable is set
/// and the key as written otherwise.
pub proof fn lemma_foreign_key_header(backend: Protocol, k: Seq<char>, env_value: Option<Seq<char>>)
    ensures
        foreign_set_spec(backend, Some(k), env_value).len() == 2,
        foreign_set_spec(backend, Some(k), env_value)[0] == ("content-type"@, "application/json"@),
        foreign_set_spec(backend, Some(k), env_value)[1].0 == (if backend == Protocol::OpenAI {
            "authorization"@
        } else {
            "x-api-key"@
        }),
        (k.len() > 0 && k[0] == '$' && env_value is Some) ==> foreign_set_spec(
            backend,
            Some(k),
            env_value,
        )[1].1 == env_value->0,
        (!(k.len() > 0 && k[0] == '$') || env_value is None) ==> foreign_set_spec(
            backend,
            Some(k),
            env_value,
        )[1].1 == k,
        foreign_set_spec(backend, None, env_value) == seq![("content-type"@, "application/json"@)],
{
}

/// The key headers of a request forwarded in the client's own protocol with
/// a key `k` configured: each key header the client sent is present and
/// carries `k` (every header of that name does); and when the client sent
/// neither, the protocol's own key header (`authorization` for OpenAI,
/// `x-api-key` for Anthropic) carries the key's value, resolved from the
/// environment for a `$`-key whose variable is set.
pub proof fn lemma_direct_key_headers(
    protocol: Protocol,
    k: Seq<char>,
    env_value: Option<Seq<char>>,
    has_x_api_key: bool,
    has_authorization: bool,
)
    ensures
        has_authorization ==> direct_set_spec(
            protocol,
            Some(k),
            env_value,
            has_x_api_key,
            has_authorization,
        ).contains(("authorization"@, k)),
        has_x_api_key ==> direct_set_spec(
            protocol,
            Some(k),
            env_value,
            has_x_api_key,
            has_authorization,
        ).contains(("x-api-key"@, k)),
        forall|j: int|
            #![trigger direct_set_spec(protocol, Some(k), env_value, has_x_api_key, has_authorization)[j]]
            0 <= j < direct_set_spec(
                protocol,
                Some(k),
                env_value,
                has_x_api_key,
                has_authorization,
            ).len() ==> {
                let h = direct_set_spec(
                    protocol,
                    Some(k),
                    env_value,
                    has_x_api_key,
                    has_authorization,
                )[j];
                &&& (has_authorization && h.0 == "authorization"@) ==> h.1 == k
                &&& (has_x_api_key && h.0 == "x-api-key"@) ==> h.1 == k
            },
        (!has_x_api_key && !has_authorization) ==> direct_set_spec(
            protocol,
            Some(k),
            env_value,
            false,
            false,
        ).contains(
            (
                if protocol == Protocol::OpenAI {
                    "authorization"@
                } else {
                    "x-api-key"@
                },
                if k.len() > 0 && k[0] == '$' && env_value is Some {
                    env_value->0
                } else {
                    k
                },
            ),
        ),
{
    lemma_header_names_distinct();
    let set = direct_set_spec(protocol, Some(k), env_value, has_x_api_key, has_authorization);
    let base = seq![("content-type"@, "application/json"@)];
    let xs = if has_x_api_key {
        seq![("x-api-key"@, k)]
    } else {
        Seq::empty()
    };
    let az = if has_authorization {
        seq![("authorization"@, k)]
    } else {
        Seq::empty()
    };
    let own = if !has_x_api_key && !has_authorization {
        seq![(auth_header_spec(protocol), env_key_spec(k, env_value))]
    } else {
        Seq::empty()
    };
    assert(set == base + xs + az + own);
    if has_authorization {
        assert(set[1 + xs.len() as int] == ("authorization"@, k));
    }
    if has_x_api_key {
        assert(set[1] == ("x-api-key"@, k));
    }
    if !has_x_api_key && !has_authorization {
        assert(set[1] == (auth_header_spec(protocol), env_key_spec(k, env_value)));
    }
}

/// With an API key configured, no client key header is forwarded: every
/// `x-api-key` or `authorization` header of a request forwarded in the
/// client's protocol is set by the gateway. It carries the key itself where
/// the client sent that header, and the key's value in the protocol's own
/// key header where the client sent neither.
pub proof fn lemma_configured_key_replaces_client_keys(
    protocol: Protocol,
    k: Seq<char>,
    env_value: Option<Seq<char>>,
    incoming: Seq<(Seq<char>, Seq<char>)>,
)
    ensures
        ({
            let hx = has_header(incoming, "x-api-key"@);
            let ha = has_header(incoming, "authorization"@);
            let h = direct_request_headers_spec(protocol, Some(k), env_value, incoming);
            forall|j: int|
                0 <= j < h.len() ==> {
                    &&& h[j].0 == "x-api-key"@ ==> (if hx {
                        h[j].1 == k
                    } else {
                        !ha && protocol == Protocol::Anthropic && h[j].1 == env_key_spec(
                            k,
                            env_value,
                        )
                    })
                    &&& h[j].0 == "authorization"@ ==> (if ha {
                        h[j].1 == k
                    } else {
                        !hx && protocol == Protocol::OpenAI && h[j].1 == env_key_spec(
                            k,
                            env_value,
                        )
                    })
                }
        }),
{
    reveal_strlit("x-api-key");
    reveal_strlit("authorization");
    reveal_strlit("content-type");
    let hx = has_header(incoming, "x-api-key"@);
    let ha = has_header(incoming, "authorization"@);
    let skip = direct_skip_spec(Some(k), hx, ha);
    let pred = |p: (Seq<char>, Seq<char>)| !skip.contains(p.0);
    let set = direct_set_spec(protocol, Some(k), env_value, hx, ha);
    let copied = copied_headers(skip, incoming);
    assert(copied == incoming.filter(pred));
    let h = set + copied;
    assert forall|j: int| 0 <= j < copied.len() implies copied[j].0 != "x-api-key"@
        && copied[j].0 != "authorization"@ by {
        incoming.lemma_filter_pred(pred, j);
        assert(incoming.filter(pred).contains(copied[j]));
        incoming.lemma_filter_contains_rev(pred, copied[j]);
        let i = choose|i: int| 0 <= i < incoming.len() && incoming[i] == copied[j];
        assert(incoming[i].0 == copied[j].0);
        if copied[j].0 == "x-api-key"@ {
            assert(hx);
            assert(skip.contains("x-api-key"@)) by {
                if ha {
                    assert(skip[3] == "x-api-key"@);
                } else {
                    assert(skip[3] == "x-api-key"@);
                }
            }
        }
        if copied[j].0 == "authorization"@ {
            assert(ha);
            if hx {
                assert(skip[4] == "authorization"@);
            } else {
                assert(skip[3] == "authorization"@);
            }
        }
    }
    assert forall|j: int| 0 <= j < h.len() implies {
        &&& h[j].0 == "x-api-key"@ ==> (if hx {
            h[j].1 == k
        } else {
            !ha && protocol == Protocol::Anthropic && h[j].1 == env_key_spec(k, env_value)
        })
        &&& h[j].0 == "authorization"@ ==> (if ha {
            h[j].1 == k
        } else {
            !hx && protocol == Protocol::OpenAI && h[j].1 == env_key_spec(k, env_value)
        })
    } by {
        if j >= set.len() {
            assert(h[j] == copied[j - set.len()]);
        } else {
            assert(h[j] == set[j]);
            assert("content-type"@ != "x-api-key"@) by {
                assert("content-type"@[0] != "x-api-key"@[0]);
            }
            assert("content-type"@ != "authorization"@) by {
                assert("content-type"@[1] != "authorization"@[1]);
            }
            assert("x-api-key"@ != "authorization"@) by {
                assert("x-api-key"@[0] != "authorization"@[0]);
            }
        }
    }
}

/// The request URI type of the `http` crate.
#[verifier::external_type_specification]
#[verifier::external_body]
pub struct ExUri(http::Uri);

/// What parsing `s` as an `http::Uri` gives: the URI, or the text of the
/// parse error.
pub uninterp spec fn parsed_uri(s: Seq<char>) -> Result<http::Uri, Seq<char>>;

/// Parses `s` with `<http::Uri as FromStr>::from_str`, turning a failure
/// into its message (`InvalidUri`'s `Display`). The contract names the
/// outcome `parsed_uri(s)`, URI or message; which strings are valid URIs,
/// and what URI a string gives, is not restated here. Parsing never panics.
#[verifier::external_body]
fn parse_uri(s: &str) -> (r: Result<http::Uri, String>)
    ensures
        match r {
            Ok(u) => parsed_uri(s@) == Ok::<http::Uri, Seq<char>>(u),
            Err(m) => parsed_uri(s@) == Err::<http::Uri, Seq<char>>(m@),
        },
{
    match s.parse::<http::Uri>() {
        Ok(u) => Ok(u),
        Err(e) => Err(e.to_string()),
    }
}

/// Why a request could not be forwarded.
#[derive(Debug)]
pub enum ForwardError {
    /// The request to the backend could not be made; the message says why.
    BackendRequestFailed(String),
}

/// The parsed URI, or the parse failure as a failed backend request with
/// the parse error's message.
pub fn uri_or_request_failed(parsed: Result<http::Uri, String>) -> (r: Result<
    http::Uri,
    ForwardError,
>)
    ensures
        match parsed {
            Ok(u) => r matches Ok(v) && v == u,
            Err(m) => r matches Err(ForwardError::BackendRequestFailed(e)) && e == m,
        },
{
    match parsed {
        Ok(u) => Ok(u),
        Err(m) => Err(ForwardError::BackendRequestFailed(m)),
    }
}

/// The URI of a request forwarded to `base_url` for `path`: the two joined
/// and parsed; a string that does not parse fails the backend request with
/// the parse error's message.
pub fn backend_request_uri(base_url: &str, path: &str) -> (r: Result<http::Uri, ForwardError>)
    ensures
        match parsed_uri(base_url@ + path@) {
            Ok(u) => r matches Ok(v) && v == u,
            Err(m) => r matches Err(ForwardError::BackendRequestFailed(e)) && e@ == m,
        },
{
    let joined = backend_uri(base_url, path);
    uri_or_request_failed(parse_uri(joined.as_str()))
}

/// The message of a request whose backend could not be reached.
pub open spec fn connect_failed_message() -> Seq<char> {
    "Failed to connect to backend"@
}

/// The outcome of sending a forwarded request: the backend's response is
/// passed on as it came; a request that could not be sent fails with
/// "Failed to connect to backend".
pub fn forward_result<R, E>(sent: Result<R, E>) -> (r: Result<R, ForwardError>)
    ensures
        match sent {
            Ok(resp) => r matches Ok(x) && x == resp,
            Err(_) => r matches Err(ForwardError::BackendRequestFailed(m)) && m@
                == connect_failed_message(),
        },
{
    proof {
        reveal_strlit("Failed to connect to backend");
    }
    match sent {
        Ok(resp) => Ok(resp),
        Err(_) => Err(ForwardError::BackendRequestFailed(String::from_str("Failed to connect to backend"))),
    }
}

} // verus!
