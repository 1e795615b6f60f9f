use crate::text::{eq_ignore_ascii_case, eq_lower, seq_contains, starts_with_ignore_ascii_case, starts_with_lower, str_contains};
use vstd::prelude::*;
use vstd::string::StringExecFns;

verus! {

/// Per-process settings of the gateway.
pub struct Config {
    /// The region chat requests go to unless a request asks for the newest
    /// model family.
    pub location: String,
    pub endpoint_id: String,
    pub project_id: String,
}

/// Why the settings could not be formed.
pub enum ConfigError {
    /// No backend project id, or an empty one.
    MissingProjectId,
}

/// Why a chat request could not be forwarded.
pub enum ChatError {
    /// The request body is not a JSON object.
    MalformedInput,
}

impl Default for Config {
    fn default() -> (r: Config)
        ensures
            r.location@ == "us-central1"@,
            r.endpoint_id@ == "openapi"@,
            r.project_id@ == ""@,
    {
        Config {
            location: String::from_str("us-central1"),
            endpoint_id: String::from_str("openapi"),
            project_id: String::from_str(""),
        }
    }
}

impl Config {
    /// The settings for a region override and a project id as the
    /// environment gives them: the region defaults to `global`, and the
    /// project id must be present and not empty.
    pub fn from_settings(location: Option<String>, project_id: Option<String>) -> (r: Result<
        Config,
        ConfigError,
    >)
        ensures
            r is Err <==> (project_id is None || project_id->Some_0@.len() == 0),
            r matches Ok(c) ==> {
                &&& c.project_id@ == project_id->Some_0@
                &&& c.endpoint_id@ == "openapi"@
                &&& c.location@ == (match location {
                    Some(l) => l@,
                    None => "global"@,
                })
            },
    {
        match project_id {
            None => Err(ConfigError::MissingProjectId),
            Some(p) => {
                if p.as_str().unicode_len() == 0 {
                    return Err(ConfigError::MissingProjectId);
                }
                let loc = match location {
                    Some(l) => l,
                    None => String::from_str("global"),
                };
                Ok(Config { location: loc, endpoint_id: String::from_str("openapi"), project_id: p })
            },
        }
    }
}

/// The member `key` of a JSON document, read as a string: `None` for a
/// document that is no JSON object, `Some(None)` where the member is absent
/// or not a string.
pub uninterp spec fn json_string_member(body: Seq<char>, key: Seq<char>) -> Option<Option<Seq<char>>>;

pub open spec fn string_opt_view(o: Option<String>) -> Option<Seq<char>> {
    match o {
        Some(s) => Some(s@),
        None => None,
    }
}

/// Relies on `serde_json::from_str` into a JSON object
/// (`serde_json::Map<String, Value>`), then on `Map::get` and `Value::as_str`
/// for the member `key`: a document that does not parse as an object gives
/// `None`.
#[verifier::external_body]
fn string_member(body: &str, key: &str) -> (r: Option<Option<String>>)
    ensures
        r is None <==> json_string_member(body@, key@) is None,
        r matches Some(m) ==> json_string_member(body@, key@) == Some(string_opt_view(m)),
{
    serde_json::from_str::<serde_json::Map<String, serde_json::Value>>(body).ok().map(
        |m| m.get(key).and_then(|v| v.as_str()).map(|s| s.to_string()),
    )
}

/// What a chat body's `model` member says.
pub open spec fn body_model_field(body: Seq<char>) -> Option<Option<Seq<char>>> {
    json_string_member(body, "model"@)
}

/// The substring of a model name that marks the newest model family, which
/// is served from the global endpoint only.
pub open spec fn newest_family_marker() -> Seq<char> {
    "gemini-3"@
}

/// The region a chat request goes to.
pub open spec fn chat_location(default: Seq<char>, model: Option<Seq<char>>) -> Seq<char> {
    match model {
        Some(m) => if seq_contains(m, newest_family_marker()) {
            "global"@
        } else {
            default
        },
        None => default,
    }
}

/// The backend's chat URL for a region, project and endpoint: the global
/// host for `global`, a region-prefixed host otherwise.
pub open spec fn chat_url(location: Seq<char>, project: Seq<char>, endpoint: Seq<char>) -> Seq<char> {
    let path = "/v1beta1/projects/"@ + project + "/locations/"@ + location + "/endpoints/"@ + endpoint
        + "/chat/completions"@;
    if location == "global"@ {
        "https://aiplatform.googleapis.com"@ + path
    } else {
        "https://"@ + location + "-aiplatform.googleapis.com"@ + path
    }
}

/// The region for a chat request whose `model` member is `model`.
pub fn select_location(default: &String, model: &Option<String>) -> (r: String)
    ensures
        r@ == chat_location(default@, string_opt_view(*model)),
{
    match model {
        Some(m) => {
            if str_contains(m.as_str(), "gemini-3") {
                String::from_str("global")
            } else {
                default.clone()
            }
        },
        None => default.clone(),
    }
}

/// The backend's chat URL for a region, project and endpoint.
pub fn build_chat_url(location: &String, project: &String, endpoint: &String) -> (r: String)
    ensures
        r@ == chat_url(location@, project@, endpoint@),
{
    let path = String::from_str("/v1beta1/projects/").concat(project.as_str()).concat(
        "/locations/",
    ).concat(location.as_str()).concat("/endpoints/").concat(endpoint.as_str()).concat(
        "/chat/completions",
    );
    let global = String::from_str("global");
    if location.eq(&global) {
        String::from_str("https://aiplatform.googleapis.com").concat(path.as_str())
    } else {
        String::from_str("https://").concat(location.as_str()).concat(
            "-aiplatform.googleapis.com",
        ).concat(path.as_str())
    }
}

/// The backend URL for a chat request whose `model` member is `model`.
pub fn chat_url_for_model(config: &Config, model: &Option<String>) -> (r: String)
    ensures
        r@ == chat_url(
            chat_location(config.location@, string_opt_view(*model)),
            config.project_id@,
            config.endpoint_id@,
        ),
{
    let location = select_location(&config.location, model);
    build_chat_url(&location, &config.project_id, &config.endpoint_id)
}

/// The backend URL for a chat request with body `body`; a body that is not a
/// JSON object is refused.
pub fn chat_target(config: &Config, body: &str) -> (r: Result<String, ChatError>)
    ensures
        r is Err <==> body_model_field(body@) is None,
        r matches Ok(u) ==> u@ == chat_url(
            chat_location(config.location@, body_model_field(body@)->Some_0),
            config.project_id@,
            config.endpoint_id@,
        ),
{
    match string_member(body, "model") {
        None => Err(ChatError::MalformedInput),
        Some(model) => Ok(chat_url_for_model(config, &model)),
    }
}

/// A request whose model carries the newest-family marker goes to the
/// global host whatever the configured region; any other goes to the
/// configured region's host.
pub proof fn lemma_region_override(
    default: Seq<char>,
    model: Seq<char>,
    project: Seq<char>,
    endpoint: Seq<char>,
)
    ensures
        seq_contains(model, newest_family_marker()) ==> chat_url(
            chat_location(default, Some(model)),
            project,
            endpoint,
        ) == chat_url("global"@, project, endpoint),
        !seq_contains(model, newest_family_marker()) ==> chat_url(
            chat_location(default, Some(model)),
            project,
            endpoint,
        ) == chat_url(default, project, endpoint),
        chat_url(chat_location(default, None), project, endpoint) == chat_url(default, project, endpoint),
{
}

/// An inbound header that the gateway passes on to the backend: all but
/// `host`, `authorization`, `content-length`, `content-type` and the
/// `x-goog-` family, in any ASCII case.
pub open spec fn header_forwarded(name: Seq<char>) -> bool {
    !(eq_lower(name, "host"@) || eq_lower(name, "authorization"@) || eq_lower(name, "content-length"@)
        || eq_lower(name, "content-type"@) || starts_with_lower(name, "x-goog-"@))
}

/// Whether an inbound header with this name is passed on to the backend.
pub fn should_forward_header(name: &str) -> (r: bool)
    ensures
        r == header_forwarded(name@),
{
    !(eq_ignore_ascii_case(name, "host") || eq_ignore_ascii_case(name, "authorization")
        || eq_ignore_ascii_case(name, "content-length") || eq_ignore_ascii_case(name, "content-type")
        || starts_with_ignore_ascii_case(name, "x-goog-"))
}

/// Headers as pairs of plain values.
pub open spec fn header_views(hs: Seq<(String, String)>) -> Seq<(Seq<char>, Seq<char>)> {
    hs.map_values(|h: (String, String)| (h.0@, h.1@))
}

/// The headers among `hs` that are passed on, in their order.
pub open spec fn forwarded(hs: Seq<(Seq<char>, Seq<char>)>) -> Seq<(Seq<char>, Seq<char>)>
    decreases hs.len(),
{
    if hs.len() == 0 {
        Seq::empty()
    } else {
        let prev = forwarded(hs.drop_last());
        if header_forwarded(hs.last().0) {
            prev.push(hs.last())
        } else {
            prev
        }
    }
}

/// The headers the gateway sets itself on every backend request.
pub open spec fn own_headers(auth: Seq<char>, project: Seq<char>) -> Seq<(Seq<char>, Seq<char>)> {
    seq![
        ("authorization"@, auth),
        ("x-goog-user-project"@, project),
        ("content-type"@, "application/json"@),
    ]
}

/// The headers of a backend request: the gateway's own authorization,
/// project and content-type headers, then the inbound headers that are
/// passed on, in their order.
pub fn outbound_headers(auth: &str, project: &str, inbound: &Vec<(String, String)>) -> (r: Vec<
    (String, String),
>)
    ensures
        header_views(r@) == own_headers(auth@, project@) + forwarded(header_views(inbound@)),
{
    let mut out: Vec<(String, String)> = Vec::new();
    out.push((String::from_str("authorization"), String::from_str(auth)));
    out.push((String::from_str("x-goog-user-project"), String::from_str(project)));
    out.push((String::from_str("content-type"), String::from_str("application/json")));
    assert(header_views(out@) =~= own_headers(auth@, project@));
    assert(header_views(inbound@).subrange(0, 0) =~= Seq::<(Seq<char>, Seq<char>)>::empty());
    let mut i: usize = 0;
    while i < inbound.len()
        invariant
            i <= inbound@.len(),
            header_views(out@) == own_headers(auth@, project@) + forwarded(
                header_views(inbound@).subrange(0, i as int),
            ),
        decreases inbound@.len() - i,
    {
        let ghost pre = header_views(inbound@).subrange(0, i as int);
        let ghost next = header_views(inbound@).subrange(0, i + 1);
        assert(next.drop_last() =~= pre);
        assert(next.last() == (inbound@[i as int].0@, inbound@[i as int].1@));
        let (name, value) = &inbound[i];
        if should_forward_header(name.as_str()) {
            let ghost before = out@;
            out.push((name.clone(), value.clone()));
            assert(header_views(out@) =~= header_views(before).push(next.last()));
            assert(header_views(out@) =~= own_headers(auth@, project@) + forwarded(next));
        }
        i = i + 1;
        assert(next == header_views(inbound@).subrange(0, i as int));
    }
    assert(header_views(inbound@).subrange(0, i as int) =~= header_views(inbound@));
    out
}

} // verus!
