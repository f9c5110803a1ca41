//! Builds the wire request that sends one message to an agent server from
//! the server's stored settings.

use vstd::prelude::*;
use crate::json::{empty_object, entries_view, json_object_entries, parse_object_entries};
use crate::model::{
    A2ADataPart, A2AMessage, A2AMessageParams, A2AMessagePart, A2ARequest, A2ATextPart,
    JSONRPCRequest, SettingA2AServer,
};
use crate::server_store::{shows_server, SettingA2AServerDbManager, server_id_present};
use crate::text::{chars_of, has_prefix, replace_all, replace_all_chars, starts_with_text, string_from_chars};

verus! {

broadcast use vstd::seq_lib::group_seq_properties;

/// Parsed entries: a key and, when the value is a string, its text.
pub type Entries = Seq<(Seq<char>, Option<Seq<char>>)>;

/// The value of the first entry under `key`.
pub open spec fn first_value(entries: Entries, key: Seq<char>) -> Option<Option<Seq<char>>>
    decreases entries.len(),
{
    if entries.len() == 0 {
        None
    } else if entries[0].0 == key {
        Some(entries[0].1)
    } else {
        first_value(entries.skip(1), key)
    }
}

pub open spec fn placeholder() -> Seq<char> {
    "{{USER_PROMPT}}"@
}

/// Settings whose "kind" is the string "data" ask for a data part.
pub open spec fn is_data_mode(settings: Option<Entries>) -> bool {
    match settings {
        Some(e) => first_value(e, "kind"@) == Some(Some("data"@)),
        None => false,
    }
}

/// The "data" string of the settings, empty when there is none.
pub open spec fn data_template(settings: Option<Entries>) -> Seq<char> {
    match settings {
        Some(e) => match first_value(e, "data"@) {
            Some(Some(t)) => t,
            _ => Seq::empty(),
        },
        None => Seq::empty(),
    }
}

pub open spec fn is_text_part(p: A2AMessagePart, text: Seq<char>) -> bool {
    p matches A2AMessagePart::Text(t) && t.kind@ == "text"@ && t.text@ == text
}

pub open spec fn is_data_part(p: A2AMessagePart, data: Seq<char>) -> bool {
    p matches A2AMessagePart::Data(d) && d.kind@ == "data"@ && d.data@ == data
}

/// Exactly one part: a data part with the template's placeholder replaced by
/// the text in data mode, the text itself otherwise.
pub open spec fn parts_for(parts: Seq<A2AMessagePart>, settings: Option<Entries>, text: Seq<char>) -> bool {
    &&& parts.len() == 1
    &&& is_data_mode(settings) ==> is_data_part(
        parts[0],
        replace_all(data_template(settings), placeholder(), text),
    )
    &&& !is_data_mode(settings) ==> is_text_part(parts[0], text)
}

/// The parsed form of an optional stored JSON object.
pub open spec fn stored_entries(stored: Option<String>) -> Option<Entries> {
    match stored {
        Some(s) => json_object_entries(s@),
        None => None,
    }
}

pub open spec fn opt_entries_view(e: Option<Vec<(String, Option<String>)>>) -> Option<Entries> {
    match e {
        Some(v) => Some(entries_view(v@)),
        None => None,
    }
}

/// The entries whose value is a string, as key/value pairs, in order.
pub open spec fn string_entries(e: Entries) -> Seq<(Seq<char>, Seq<char>)>
    decreases e.len(),
{
    if e.len() == 0 {
        Seq::empty()
    } else {
        let init = string_entries(e.drop_last());
        match e.last().1 {
            Some(v) => init.push((e.last().0, v)),
            None => init,
        }
    }
}

/// The request headers: JSON content type, the skill routing header, then
/// every custom header whose value is a string.
pub open spec fn headers_for(skill_id: Seq<char>, custom: Option<Entries>) -> Seq<(Seq<char>, Seq<char>)> {
    seq![("Content-Type"@, "application/json"@), ("X-A2A-Skill-Id"@, skill_id)] + match custom {
        Some(e) => string_entries(e),
        None => Seq::empty(),
    }
}

pub open spec fn headers_view(h: Seq<(String, String)>) -> Seq<(Seq<char>, Seq<char>)> {
    h.map_values(|p: (String, String)| (p.0@, p.1@))
}

/// A URL without an explicit http or https scheme gets the plain one.
pub open spec fn with_scheme(url: Seq<char>) -> Seq<char> {
    if has_prefix(url, "http://"@) || has_prefix(url, "https://"@) {
        url
    } else {
        "http://"@ + url
    }
}

/// The value of the first entry under `key`.
fn lookup(entries: &Vec<(String, Option<String>)>, key: &str) -> (r: Option<String>)
    ensures
        match first_value(entries_view(entries@), key@) {
            Some(Some(v)) => r matches Some(s) && s@ == v,
            _ => r is None,
        },
{
    let ghost e = entries_view(entries@);
    let wanted = String::from_str(key);
    let mut i: usize = 0;
    assert(e.skip(0) =~= e);
    while i < entries.len()
        invariant
            i <= entries@.len(),
            e == entries_view(entries@),
            wanted@ == key@,
            first_value(e, key@) == first_value(e.skip(i as int), key@),
        decreases entries.len() - i,
    {
        assert(e.skip(i as int)[0] == e[i as int]);
        assert(e.skip(i as int).skip(1) =~= e.skip(i + 1));
        if entries[i].0 == wanted {
            return match &entries[i].1 {
                Some(v) => Some(v.clone()),
                None => None,
            };
        }
        i += 1;
    }
    None
}

/// The single message part for `text` under the parsed settings.
pub fn message_parts(settings: &Option<Vec<(String, Option<String>)>>, text: String) -> (r: Vec<A2AMessagePart>)
    ensures
        parts_for(r@, opt_entries_view(*settings), text@),
{
    let data_mode = match settings {
        Some(e) => match lookup(e, "kind") {
            Some(k) => k == String::from_str("data"),
            None => false,
        },
        None => false,
    };
    if data_mode {
        let template = match settings {
            Some(e) => match lookup(e, "data") {
                Some(t) => t,
                None => String::new(),
            },
            None => String::new(),
        };
        let pat = chars_of("{{USER_PROMPT}}");
        proof {
            reveal_strlit("{{USER_PROMPT}}");
        }
        let replaced = replace_all_chars(&chars_of(template.as_str()), &pat, &chars_of(text.as_str()));
        let data = string_from_chars(&replaced);
        let mut parts: Vec<A2AMessagePart> = Vec::new();
        parts.push(A2AMessagePart::Data(A2ADataPart::new(data)));
        parts
    } else {
        let mut parts: Vec<A2AMessagePart> = Vec::new();
        parts.push(A2AMessagePart::Text(A2ATextPart::new(text)));
        parts
    }
}

/// Parses an optional stored JSON object into its entries.
fn parse_stored(stored: &Option<String>) -> (r: Option<Vec<(String, Option<String>)>>)
    ensures
        opt_entries_view(r) == stored_entries(*stored),
{
    match stored {
        Some(s) => parse_object_entries(s.as_str()),
        None => None,
    }
}

/// The single message part for `text` under the stored protocol settings:
/// plain text unless the settings parse and ask for a data part.
pub fn compose_parts(settings: &Option<String>, text: String) -> (r: Vec<A2AMessagePart>)
    ensures
        parts_for(r@, stored_entries(*settings), text@),
{
    let parsed = parse_stored(settings);
    message_parts(&parsed, text)
}

/// The request headers for a send routed to `skill_id`, given the parsed
/// custom header object.
pub fn header_list(skill_id: String, custom: &Option<Vec<(String, Option<String>)>>) -> (r: Vec<(String, String)>)
    ensures
        headers_view(r@) == headers_for(skill_id@, opt_entries_view(*custom)),
{
    let mut out: Vec<(String, String)> = Vec::new();
    out.push((String::from_str("Content-Type"), String::from_str("application/json")));
    out.push((String::from_str("X-A2A-Skill-Id"), skill_id));
    let ghost head = headers_view(out@);
    assert(head =~= seq![("Content-Type"@, "application/json"@), ("X-A2A-Skill-Id"@, skill_id@)]);
    match custom {
        None => {
            assert(headers_view(out@) =~= head + Seq::empty());
        },
        Some(entries) => {
            let ghost e = entries_view(entries@);
            let mut i: usize = 0;
            assert(e.take(0) =~= Seq::<(Seq<char>, Option<Seq<char>>)>::empty());
            while i < entries.len()
                invariant
                    i <= entries@.len(),
                    e == entries_view(entries@),
                    headers_view(out@) == head + string_entries(e.take(i as int)),
                decreases entries.len() - i,
            {
                let ghost before = out@;
                assert(e.take(i + 1).drop_last() =~= e.take(i as int));
                assert(e.take(i + 1).last() == e[i as int]);
                match &entries[i].1 {
                    Some(v) => {
                        out.push((entries[i].0.clone(), v.clone()));
                        assert(headers_view(out@) =~= headers_view(before).push(
                            (e[i as int].0, v@),
                        ));
                    },
                    None => {},
                }
                i += 1;
            }
            assert(e.take(entries@.len() as int) =~= e);
        },
    }
    out
}

/// `url`, given the plain http scheme when it names none.
pub fn resolve_url(url: &str) -> (r: String)
    ensures
        r@ == with_scheme(url@),
{
    if starts_with_text(url, "http://") || starts_with_text(url, "https://") {
        String::from_str(url)
    } else {
        String::from_str("http://").concat(url)
    }
}

/// Everything needed to send one message: where, with which headers, and
/// the JSON-RPC body.
pub struct OutboundRequest {
    pub url: String,
    pub headers: Vec<(String, String)>,
    pub body: JSONRPCRequest<A2ARequest>,
}

/// The request `compose_a2a_request` builds for `server` and `params`.
pub open spec fn is_request_for(r: OutboundRequest, server: SettingA2AServer, params: A2AMessageParams) -> bool {
    &&& r.url@ == with_scheme(server.agent_card_url@)
    &&& headers_view(r.headers@) == headers_for(
        params.header_skill_id@,
        stored_entries(server.custom_header_json),
    )
    &&& r.body.jsonrpc@ == "2.0"@
    &&& r.body.id@ == params.message_id@
    &&& r.body.method@ == "message/send"@
    &&& r.body.params.id@ == params.task_id@
    &&& r.body.params.message.message_id@ == params.message_id@
    &&& r.body.params.message.kind@ == "message"@
    &&& r.body.params.message.role@ == "user"@
    &&& parts_for(
        r.body.params.message.parts@,
        stored_entries(server.protocol_data_object_settings),
        params.text@,
    )
}

/// Composes the request that sends `params.text` to `server`.
pub fn compose_a2a_request(server: &SettingA2AServer, params: A2AMessageParams) -> (r: OutboundRequest)
    ensures
        is_request_for(r, *server, params),
{
    let parts = compose_parts(&server.protocol_data_object_settings, params.text);
    let custom = parse_stored(&server.custom_header_json);
    let headers = header_list(params.header_skill_id, &custom);
    let url = resolve_url(server.agent_card_url.as_str());
    let message_id = params.message_id.clone();
    let request_body = A2ARequest {
        id: params.task_id,
        message: A2AMessage {
            message_id: params.message_id,
            kind: String::from_str("message"),
            role: String::from_str("user"),
            parts,
        },
        metadata: empty_object(),
    };
    let body = JSONRPCRequest {
        jsonrpc: String::from_str("2.0"),
        id: message_id,
        method: String::from_str("message/send"),
        params: request_body,
    };
    OutboundRequest { url, headers, body }
}

/// Looks up the target server in `store` and composes the request; a server
/// that is not stored is refused before anything is sent.
pub fn prepare_a2a_message(store: &SettingA2AServerDbManager, params: A2AMessageParams) -> (r: Result<OutboundRequest, String>)
    ensures
        !server_id_present(store@, params.a2a_server_id) ==> (r matches Err(m) && m@
            == "A2A server not found"@),
        server_id_present(store@, params.a2a_server_id) ==> (r matches Ok(req) && exists|
            i: int,
            server: SettingA2AServer,
        |
            0 <= i < store@.len() && store@[i].id == params.a2a_server_id && #[trigger] shows_server(
                server,
                store@[i],
            ) && is_request_for(req, server, params)),
{
    match store.get_by_id(params.a2a_server_id) {
        None => Err(String::from_str("A2A server not found")),
        Some(server) => Ok(compose_a2a_request(&server, params)),
    }
}

} // verus!
