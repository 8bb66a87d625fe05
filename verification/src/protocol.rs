//! The server's side of the protocol: JSON-RPC 2.0, one message to a line.

use vstd::prelude::*;

use crate::catalogue;
use crate::catalogue::{EntryView, McpIconEntry};
use crate::json;
use crate::json::{Items, Json, JsonView, Members};
use crate::overview;
use crate::schema;
use crate::search;
use crate::text;

verus! {

/// The version of the protocol that the server speaks.
pub const PROTOCOL_VERSION: &'static str = "2024-11-05";

/// The name that the server gives itself.
pub const SERVER_NAME: &'static str = "fluent-icons-mcp";

/// A server over an icon catalogue.
pub struct Server {
    /// The version that the server gives itself.
    pub version: String,
    /// The icons of the catalogue.
    pub icons: Vec<McpIconEntry>,
}

/// A server, as text.
pub struct ServerView {
    pub version: Seq<char>,
    pub icons: Seq<EntryView>,
}

impl View for Server {
    type V = ServerView;

    open spec fn view(&self) -> ServerView {
        ServerView { version: self.version@, icons: catalogue::catalogue_view(self.icons@) }
    }
}

/// An optional JSON value.
pub open spec fn optional_json(j: Option<&Json>) -> Option<JsonView> {
    match j {
        Some(v) => Some(v@),
        None => None,
    }
}

/// An outcome: a result, or an error.
pub open spec fn outcome_view(r: Result<Json, Json>) -> Result<JsonView, JsonView> {
    match r {
        Ok(v) => Ok(v@),
        Err(e) => Err(e@),
    }
}

/// A JSON-RPC error with its code and its message.
pub open spec fn error_view(code: int, message: Seq<char>) -> JsonView {
    JsonView::Object(
        map!["code"@ => JsonView::Integer(code), "message"@ => JsonView::Text(message)],
    )
}

/// The reply that carries a result.
pub open spec fn result_reply(id: JsonView, result: JsonView) -> JsonView {
    JsonView::Object(
        map!["jsonrpc"@ => JsonView::Text("2.0"@), "id"@ => id, "result"@ => result],
    )
}

/// The reply that carries an error.
pub open spec fn error_reply(id: JsonView, error: JsonView) -> JsonView {
    JsonView::Object(map!["jsonrpc"@ => JsonView::Text("2.0"@), "id"@ => id, "error"@ => error])
}

/// Builds [`error_view`].
fn error_object(code: i64, message: &str) -> (r: Json)
    ensures
        r@ == error_view(code as int, message@),
{
    let mut m: Members = Members::new();
    m.set("code", Json::Signed(code));
    m.set("message", Json::text(message));
    m.object()
}

/// The reply to `id` with the given error code and message.
pub fn json_error(id: Json, code: i64, msg: &str) -> (r: Json)
    ensures
        r@ == error_reply(id@, error_view(code as int, msg@)),
{
    let mut m: Members = Members::new();
    m.set("jsonrpc", Json::text("2.0"));
    m.set("id", id);
    m.set("error", error_object(code, msg));
    m.object()
}

/// What the server says of itself when a session begins.
pub open spec fn initialize_view(version: Seq<char>) -> JsonView {
    JsonView::Object(
        map![
            "protocolVersion"@ => JsonView::Text(PROTOCOL_VERSION@),
            "capabilities"@ => JsonView::Object(map!["tools"@ => JsonView::Object(Map::empty())]),
            "serverInfo"@ => JsonView::Object(
                map!["name"@ => JsonView::Text(SERVER_NAME@), "version"@ => JsonView::Text(version)],
            ),
        ],
    )
}

/// Answers `initialize`, whatever its parameters.
pub fn handle_initialize(server: &Server, _params: Option<&Json>) -> (r: Result<Json, Json>)
    ensures
        outcome_view(r) == Ok::<JsonView, JsonView>(initialize_view(server@.version)),
{
    let mut capabilities: Members = Members::new();
    capabilities.set("tools", Members::new().object());
    let mut info: Members = Members::new();
    info.set("name", Json::text(SERVER_NAME));
    info.set("version", Json::text(server.version.as_str()));
    let mut m: Members = Members::new();
    m.set("protocolVersion", Json::text(PROTOCOL_VERSION));
    m.set("capabilities", capabilities.object());
    m.set("serverInfo", info.object());
    Ok(m.object())
}

/// The answer to `tools/list`.
pub open spec fn tools_list_view() -> JsonView {
    JsonView::Object(map!["tools"@ => schema::tools_view()])
}

/// Answers `tools/list`.
pub fn handle_tools_list() -> (r: Result<Json, Json>)
    ensures
        outcome_view(r) == Ok::<JsonView, JsonView>(tools_list_view()),
{
    let mut m: Members = Members::new();
    m.set("tools", schema::tools_schema());
    Ok(m.object())
}

/// The text member `name` of `args`.
pub open spec fn text_argument(args: JsonView, name: Seq<char>) -> Option<Seq<char>> {
    match json::member(args, name) {
        Some(v) => json::text_of(v),
        None => None,
    }
}

/// The member `name` of `args` as an unsigned integer, or `default` where it is none.
pub open spec fn unsigned_argument(args: JsonView, name: Seq<char>, default: u64) -> u64 {
    match json::member(args, name) {
        Some(v) => match json::unsigned_of(v) {
            Some(u) => u,
            None => default,
        },
        None => default,
    }
}

/// Reads [`text_argument`].
fn read_text_argument<'a>(args: &'a Json, name: &str) -> (r: Option<&'a str>)
    ensures
        search::optional_view(r) == text_argument(args@, name@),
{
    match args.get(name) {
        Some(v) => v.as_str(),
        None => None,
    }
}

/// Reads [`unsigned_argument`].
fn read_unsigned_argument(args: &Json, name: &str, default: u64) -> (r: u64)
    ensures
        r == unsigned_argument(args@, name@, default),
{
    match args.get(name) {
        Some(v) => match v.as_u64() {
            Some(u) => u,
            None => default,
        },
        None => default,
    }
}

/// The lower-case form of an optional text.
pub open spec fn optional_lowercased(s: Option<Seq<char>>) -> Option<Seq<char>> {
    match s {
        Some(t) => Some(search::lowercased(t)),
        None => None,
    }
}

/// The number of icons on a page where `asked` are asked for: never more than five hundred.
pub open spec fn page_limit(asked: u64) -> u64 {
    if asked < 500 {
        asked
    } else {
        500
    }
}

/// The answer of the `list_icons` tool.
pub open spec fn list_answer(icons: Seq<EntryView>, args: JsonView) -> Seq<char> {
    search::list_text(
        search::listed(
            icons,
            search::lowered_bases(icons),
            text_argument(args, "variant"@),
            optional_lowercased(text_argument(args, "search"@)),
        ),
        (unsigned_argument(args, "offset"@, 0) as usize) as nat,
        (page_limit(unsigned_argument(args, "limit"@, 100)) as usize) as nat,
    )
}

/// The `list_icons` tool: one page of the icons that have the asked variant and hold the
/// asked text.
pub fn tool_list_icons(icons: &Vec<McpIconEntry>, args: &Json) -> (r: String)
    ensures
        r@ == list_answer(catalogue::catalogue_view(icons@), args@),
{
    let variant: Option<&str> = read_text_argument(args, "variant");
    let offset: u64 = read_unsigned_argument(args, "offset", 0);
    let asked: u64 = read_unsigned_argument(args, "limit", 100);
    let limit: u64 = if asked < 500 {
        asked
    } else {
        500
    };
    let lowered: Vec<String> = search::lower_base_names(icons);
    assert(search::strings_view(lowered@).len() == lowered.len());
    match read_text_argument(args, "search") {
        Some(s) => {
            let query: String = search::to_lowercase(s);
            search::list_page(
                icons,
                &lowered,
                variant,
                Some(query.as_str()),
                #[verifier::truncate]
                (offset as usize),
                limit as usize,
            )
        },
        None => search::list_page(
            icons,
            &lowered,
            variant,
            None,
            #[verifier::truncate]
            (offset as usize),
            limit as usize,
        ),
    }
}

/// The answer of the `get_icon` tool.
pub open spec fn get_answer(icons: Seq<EntryView>, args: JsonView) -> Seq<char> {
    match text_argument(args, "name"@) {
        Some(name) => search::found_text(
            search::listed(
                icons,
                search::lowered_bases(icons),
                None,
                Some(search::lowercased(name)),
            ),
            search::lowercased(name),
        ),
        None => "Error: `name` parameter is required."@,
    }
}

/// The `get_icon` tool: the icons whose function name or base name holds the asked name,
/// grouped by base name.
pub fn tool_get_icon(icons: &Vec<McpIconEntry>, args: &Json) -> (r: String)
    ensures
        r@ == get_answer(catalogue::catalogue_view(icons@), args@),
{
    match read_text_argument(args, "name") {
        Some(s) => {
            let name: String = search::to_lowercase(s);
            let lowered: Vec<String> = search::lower_base_names(icons);
            assert(search::strings_view(lowered@).len() == lowered.len());
            search::describe_matches(icons, &lowered, name.as_str())
        },
        None => "Error: `name` parameter is required.".to_owned(),
    }
}

/// What the named tool answers, or `None` where there is no such tool.
pub open spec fn tool_answer(icons: Seq<EntryView>, tool: Seq<char>, args: JsonView) -> Option<
    Seq<char>,
> {
    if tool == "list_icons"@ {
        Some(list_answer(icons, args))
    } else if tool == "get_icon"@ {
        Some(get_answer(icons, args))
    } else if tool == "describe_features"@ {
        Some(overview::features_text(overview::counts_of(icons)))
    } else if tool == "get_crate_info"@ {
        Some(overview::crate_info_text(overview::counts_of(icons)))
    } else {
        None
    }
}

/// The result that carries a text.
pub open spec fn content_view(answer: Seq<char>) -> JsonView {
    JsonView::Object(
        map![
            "content"@ => JsonView::Array(
                seq![
                    JsonView::Object(
                        map!["type"@ => JsonView::Text("text"@), "text"@ => JsonView::Text(answer)],
                    ),
                ],
            ),
        ],
    )
}

/// The outcome of `tools/call`.
pub open spec fn tools_call_outcome(icons: Seq<EntryView>, params: Option<JsonView>) -> Result<
    JsonView,
    JsonView,
> {
    match params {
        None => Err(error_view(-32602, "Missing params"@)),
        Some(p) => match text_argument(p, "name"@) {
            None => Err(error_view(-32602, "Missing tool name"@)),
            Some(tool) => {
                let args = match json::member(p, "arguments"@) {
                    Some(a) => a,
                    None => JsonView::Object(Map::empty()),
                };
                match tool_answer(icons, tool, args) {
                    Some(answer) => Ok(content_view(answer)),
                    None => Err(error_view(-32601, "Unknown tool: "@ + tool)),
                }
            },
        },
    }
}

/// Answers `tools/call`: runs the named tool on its arguments.
pub fn handle_tools_call(server: &Server, params: Option<&Json>) -> (r: Result<Json, Json>)
    ensures
        outcome_view(r) == tools_call_outcome(server@.icons, optional_json(params)),
{
    let params: &Json = match params {
        Some(p) => p,
        None => return Err(error_object(-32602, "Missing params")),
    };
    let tool: &str = match read_text_argument(params, "name") {
        Some(n) => n,
        None => return Err(error_object(-32602, "Missing tool name")),
    };
    let empty: Json = Members::new().object();
    let args: &Json = match params.get("arguments") {
        Some(a) => a,
        None => &empty,
    };
    let answer: String = if text::same_text(tool, "list_icons") {
        tool_list_icons(&server.icons, args)
    } else if text::same_text(tool, "get_icon") {
        tool_get_icon(&server.icons, args)
    } else if text::same_text(tool, "describe_features") {
        overview::tool_describe_features(&server.icons)
    } else if text::same_text(tool, "get_crate_info") {
        overview::tool_get_crate_info(&server.icons)
    } else {
        let mut message: String = "Unknown tool: ".to_owned();
        message.append(tool);
        return Err(error_object(-32601, message.as_str()));
    };
    let mut part: Members = Members::new();
    part.set("type", Json::text("text"));
    part.set("text", Json::Text(answer));
    let mut content: Items = Items::new();
    content.push(part.object());
    let mut m: Members = Members::new();
    m.set("content", content.array());
    proof {
        let only = JsonView::Object(
            map!["type"@ => JsonView::Text("text"@), "text"@ => JsonView::Text(answer@)],
        );
        assert(Seq::<JsonView>::empty().push(only) =~= seq![only]);
    }
    Ok(m.object())
}

/// The outcome of a request.
pub open spec fn outcome(server: ServerView, method: Seq<char>, params: Option<JsonView>) -> Result<
    JsonView,
    JsonView,
> {
    if method == "initialize"@ {
        Ok(initialize_view(server.version))
    } else if method == "tools/list"@ {
        Ok(tools_list_view())
    } else if method == "tools/call"@ {
        tools_call_outcome(server.icons, params)
    } else if method == "ping"@ {
        Ok(JsonView::Object(Map::empty()))
    } else {
        Err(error_view(-32601, "Method not found: "@ + method))
    }
}

/// The reply to a message. A message without a method or without an `id` gets none.
pub open spec fn reply(server: ServerView, msg: JsonView) -> Option<JsonView> {
    match text_argument(msg, "method"@) {
        None => None,
        Some(method) => match json::member(msg, "id"@) {
            None => None,
            Some(id) => Some(
                match outcome(server, method, json::member(msg, "params"@)) {
                    Ok(result) => result_reply(id, result),
                    Err(error) => error_reply(id, error),
                },
            ),
        },
    }
}

/// Answers a message, where it asks for an answer.
pub fn dispatch(server: &Server, msg: &Json) -> (r: Option<Json>)
    ensures
        (match r {
            Some(j) => Some(j@),
            None => None,
        }) == reply(server@, msg@),
{
    let method: &str = match read_text_argument(msg, "method") {
        Some(m) => m,
        None => return None,
    };
    let id: Json = match msg.get("id") {
        Some(id) => id.clone(),
        None => return None,
    };
    let result: Result<Json, Json> = if text::same_text(method, "initialize") {
        handle_initialize(server, msg.get("params"))
    } else if text::same_text(method, "tools/list") {
        handle_tools_list()
    } else if text::same_text(method, "tools/call") {
        handle_tools_call(server, msg.get("params"))
    } else if text::same_text(method, "ping") {
        Ok(Members::new().object())
    } else {
        let mut message: String = "Method not found: ".to_owned();
        message.append(method);
        Err(error_object(-32601, message.as_str()))
    };
    let mut m: Members = Members::new();
    m.set("jsonrpc", Json::text("2.0"));
    m.set("id", id);
    match result {
        Ok(v) => m.set("result", v),
        Err(e) => m.set("error", e),
    }
    Some(m.object())
}

/// Whether `char::is_whitespace` holds of a character.
pub uninterp spec fn is_white_space(c: char) -> bool;

/// `char::is_whitespace`: whether the character has Unicode's `White_Space` property. Among
/// the ASCII characters these are the space and the characters from tab to carriage return.
#[verifier::external_body]
fn is_whitespace(c: char) -> (r: bool)
    ensures
        r == is_white_space(c),
        c <= '\x7f' ==> r == (c == ' ' || '\t' <= c <= '\r'),
{
    c.is_whitespace()
}

/// A line that holds nothing but white space.
pub open spec fn blank(line: Seq<char>) -> bool {
    forall|i: int| 0 <= i < line.len() ==> is_white_space(#[trigger] line[i])
}

/// Decides [`blank`].
pub fn is_blank(line: &str) -> (r: bool)
    ensures
        r == blank(line@),
        text::all_ascii(line@) ==> r == (forall|i: int|
            0 <= i < line@.len() ==> #[trigger] line@[i] == ' ' || '\t' <= line@[i] <= '\r'),
{
    let chars: Vec<char> = text::chars_of(line);
    let mut i: usize = 0;
    while i < chars.len()
        invariant
            i <= chars.len(),
            chars@ == line@,
            forall|k: int| 0 <= k < i ==> is_white_space(#[trigger] line@[k]),
            text::all_ascii(line@) ==> forall|k: int|
                0 <= k < i ==> #[trigger] line@[k] == ' ' || '\t' <= line@[k] <= '\r',
        decreases chars.len() - i,
    {
        let c: char = chars[i];
        assert(line@[i as int] == c);
        if !is_whitespace(c) {
            return false;
        }
        i += 1;
    }
    true
}

/// The reply to what was read from a line: a message, or the reason why it is none.
pub open spec fn reply_to_parsed(
    server: ServerView,
    parsed: Result<JsonView, Seq<char>>,
) -> Option<JsonView> {
    match parsed {
        Ok(msg) => reply(server, msg),
        Err(reason) => Some(
            error_reply(JsonView::Null, error_view(-32700, "Parse error: "@ + reason)),
        ),
    }
}

/// Answers what was read from a line. Where that is no message, the answer says why, and goes
/// to nobody in particular.
pub fn answer(server: &Server, parsed: Result<Json, String>) -> (r: Option<Json>)
    ensures
        (match r {
            Some(j) => Some(j@),
            None => None,
        }) == reply_to_parsed(
            server@,
            match parsed {
                Ok(msg) => Ok(msg@),
                Err(reason) => Err(reason@),
            },
        ),
{
    match parsed {
        Ok(msg) => dispatch(server, &msg),
        Err(reason) => {
            let mut message: String = "Parse error: ".to_owned();
            message.append(reason.as_str());
            Some(json_error(Json::Null, -32700, message.as_str()))
        },
    }
}

/// The line that answers a line. A blank line gets none, and neither does a message that asks
/// for no reply.
pub open spec fn line_reply(server: ServerView, line: Seq<char>) -> Option<Seq<char>> {
    if blank(line) {
        None
    } else {
        match reply_to_parsed(server, json::parsed_json(line)) {
            Some(v) => Some(json::rendered_json(v)),
            None => None,
        }
    }
}

/// Answers one line of input. The answer holds no line break and no other control character
/// below the space, so that it is one line of output.
pub fn handle_line(server: &Server, line: &str) -> (r: Option<String>)
    ensures
        (match r {
            Some(s) => Some(s@),
            None => None,
        }) == line_reply(server@, line@),
        r matches Some(s) ==> forall|i: int| 0 <= i < s@.len() ==> #[trigger] s@[i] >= ' ',
{
    if is_blank(line) {
        return None;
    }
    match answer(server, json::parse_json(line)) {
        Some(response) => json::render_json(&response),
        None => None,
    }
}

/// A notification, that is a message without an `id`, is never answered.
pub proof fn law_notifications_are_not_answered(server: ServerView, msg: JsonView)
    requires
        json::member(msg, "id"@) is None,
    ensures
        reply(server, msg) is None,
{
}

/// A message that names a method and has an `id`, be it null, is always answered.
pub proof fn law_requests_are_answered(server: ServerView, msg: JsonView)
    requires
        text_argument(msg, "method"@) is Some,
        json::member(msg, "id"@) is Some,
    ensures
        reply(server, msg) is Some,
{
}

/// The names of a reply's members differ from one another.
proof fn lemma_reply_names_differ()
    ensures
        "jsonrpc"@ != "id"@,
        "jsonrpc"@ != "result"@,
        "jsonrpc"@ != "error"@,
        "id"@ != "result"@,
        "id"@ != "error"@,
        "result"@ != "error"@,
{
    reveal_strlit("jsonrpc");
    reveal_strlit("id");
    reveal_strlit("result");
    reveal_strlit("error");
    assert("jsonrpc"@.len() == 7 && "id"@.len() == 2);
    assert("result"@.len() == 6 && "error"@.len() == 5);
}

/// Every reply is marked as JSON-RPC 2.0, goes back to the `id` of the message, and carries
/// either the result or the error of the request, never both.
pub proof fn law_replies_are_well_formed(server: ServerView, msg: JsonView)
    requires
        reply(server, msg) is Some,
    ensures
        ({
            let r = reply(server, msg)->0;
            let method = text_argument(msg, "method"@)->0;
            let found = outcome(server, method, json::member(msg, "params"@));
            &&& json::member(r, "jsonrpc"@) == Some(JsonView::Text("2.0"@))
            &&& json::member(r, "id"@) == json::member(msg, "id"@)
            &&& json::member(r, "result"@) == (match found {
                Ok(v) => Some(v),
                Err(_) => None,
            })
            &&& json::member(r, "error"@) == (match found {
                Ok(_) => None,
                Err(e) => Some(e),
            })
        }),
{
    lemma_reply_names_differ();
}

/// A method that the server does not have is refused as not found, by name.
pub proof fn law_unknown_methods_are_refused(
    server: ServerView,
    method: Seq<char>,
    params: Option<JsonView>,
)
    requires
        method != "initialize"@,
        method != "tools/list"@,
        method != "tools/call"@,
        method != "ping"@,
    ensures
        outcome(server, method, params) == Err::<JsonView, JsonView>(
            error_view(-32601, "Method not found: "@ + method),
        ),
{
}

/// `tools/call` fails only for want of parameters, for want of a tool name, or because there
/// is no such tool. A tool that runs always has a result.
pub proof fn law_tool_calls_fail_only_before_the_tool_runs(
    icons: Seq<EntryView>,
    params: Option<JsonView>,
)
    ensures
        tools_call_outcome(icons, params) is Err <==> {
            ||| params is None
            ||| text_argument(params->0, "name"@) is None
            ||| {
                let tool = text_argument(params->0, "name"@)->0;
                &&& tool != "list_icons"@
                &&& tool != "get_icon"@
                &&& tool != "describe_features"@
                &&& tool != "get_crate_info"@
            }
        },
{
}

/// Every tool that the server offers can be called: the names in the list of tools are the
/// names that `tools/call` knows.
pub proof fn law_offered_tools_can_be_called(icons: Seq<EntryView>, i: int, args: JsonView)
    requires
        0 <= i < schema::tools_view()->Array_0.len(),
    ensures
        text_argument(schema::tools_view()->Array_0[i], "name"@) is Some,
        tool_answer(
            icons,
            text_argument(schema::tools_view()->Array_0[i], "name"@)->0,
            args,
        ) is Some,
{
    reveal_strlit("name");
    reveal_strlit("description");
    reveal_strlit("inputSchema");
    assert("name"@.len() == 4 && "description"@.len() == 11 && "inputSchema"@.len() == 11);
    assert(i == 0 || i == 1 || i == 2 || i == 3);
}

/// The `list_icons` tool never shows more than five hundred icons at once, whatever is asked.
pub proof fn law_list_pages_are_bounded(found: Seq<EntryView>, offset: nat, asked: u64)
    ensures
        search::page(found, offset, (page_limit(asked) as usize) as nat).len() <= 500,
        search::page(found, offset, (page_limit(asked) as usize) as nat).len() <= asked,
{
}

/// A text argument is read only where the member of that name is a text, and then it is that
/// text. An unsigned argument is read only where the member is an integer that fits; else the
/// default stands. Arguments that are no object give none.
pub proof fn law_arguments_are_read_by_name(
    members: Map<Seq<char>, JsonView>,
    name: Seq<char>,
    t: Seq<char>,
    u: u64,
    default: u64,
    other: JsonView,
)
    ensures
        text_argument(JsonView::Object(members), name) == Some(t) <==> members.contains_key(name)
            && members[name] == JsonView::Text(t),
        members.contains_key(name) && members[name] == JsonView::Integer(u as int)
            ==> unsigned_argument(JsonView::Object(members), name, default) == u,
        !members.contains_key(name) || !(members[name] is Integer) || members[name]->Integer_0 < 0
            || members[name]->Integer_0 > u64::MAX ==> unsigned_argument(
            JsonView::Object(members),
            name,
            default,
        ) == default,
        !(other is Object) ==> text_argument(other, name) is None && unsigned_argument(
            other,
            name,
            default,
        ) == default,
{
}

/// The `list_icons` tool shows the page of the listing that its arguments name: `variant` as it
/// is written, `search` in lower case, the offset as asked and the limit as asked up to five
/// hundred. What is not given, or given as another kind of value, is not asked for; then the
/// offset is 0 and the limit 100.
pub proof fn law_list_icons_heeds_its_arguments(
    icons: Seq<EntryView>,
    args: JsonView,
    v: Seq<char>,
    s: Seq<char>,
    offset: nat,
    limit: nat,
)
    requires
        offset <= usize::MAX,
        offset <= u64::MAX,
        limit <= u64::MAX,
    ensures
        ({
            let low = search::lowered_bases(icons);
            let few = if limit > 500 {
                500
            } else {
                limit
            };
            let has_variant = json::member(args, "variant"@) == Some(JsonView::Text(v));
            let has_search = json::member(args, "search"@) == Some(JsonView::Text(s));
            let no_variant = json::member(args, "variant"@) is None || !(json::member(
                args,
                "variant"@,
            )->0 is Text);
            let no_search = json::member(args, "search"@) is None || !(json::member(
                args,
                "search"@,
            )->0 is Text);
            let paged = json::member(args, "offset"@) == Some(JsonView::Integer(offset as int))
                && json::member(args, "limit"@) == Some(JsonView::Integer(limit as int));
            let unpaged = (json::member(args, "offset"@) is None || !(json::member(
                args,
                "offset"@,
            )->0 is Integer)) && (json::member(args, "limit"@) is None || !(json::member(
                args,
                "limit"@,
            )->0 is Integer));
            let both = search::listed(icons, low, Some(v), Some(search::lowercased(s)));
            let of_variant = search::listed(icons, low, Some(v), None);
            let of_text = search::listed(icons, low, None, Some(search::lowercased(s)));
            &&& paged && has_variant && has_search ==> list_answer(icons, args)
                == search::list_text(both, offset, few)
            &&& paged && has_variant && no_search ==> list_answer(icons, args)
                == search::list_text(of_variant, offset, few)
            &&& paged && no_variant && has_search ==> list_answer(icons, args)
                == search::list_text(of_text, offset, few)
            &&& paged && no_variant && no_search ==> list_answer(icons, args)
                == search::list_text(icons, offset, few)
            &&& unpaged && has_variant && has_search ==> list_answer(icons, args)
                == search::list_text(both, 0, 100)
            &&& unpaged && has_variant && no_search ==> list_answer(icons, args)
                == search::list_text(of_variant, 0, 100)
            &&& unpaged && no_variant && has_search ==> list_answer(icons, args)
                == search::list_text(of_text, 0, 100)
            &&& unpaged && no_variant && no_search ==> list_answer(icons, args)
                == search::list_text(icons, 0, 100)
        }),
{
    search::law_everything_is_listed_by_default(icons, search::lowered_bases(icons));
}

/// The offset and the limit are read apart from one another, and neither depends on what is
/// searched for.
pub proof fn law_page_arguments_are_independent(icons: Seq<EntryView>, args: JsonView, n: nat)
    requires
        n <= usize::MAX,
        n <= u64::MAX,
        json::member(args, "variant"@) is None,
        json::member(args, "search"@) is None,
    ensures
        json::member(args, "offset"@) == Some(JsonView::Integer(n as int)) && json::member(
            args,
            "limit"@,
        ) is None ==> list_answer(icons, args) == search::list_text(icons, n, 100),
        json::member(args, "offset"@) is None && json::member(args, "limit"@) == Some(
            JsonView::Integer(n as int),
        ) && n <= 500 ==> list_answer(icons, args) == search::list_text(icons, 0, n),
        json::member(args, "offset"@) is None && json::member(args, "limit"@) == Some(
            JsonView::Integer(n as int),
        ) && n > 500 ==> list_answer(icons, args) == search::list_text(icons, 0, 500),
{
    search::law_everything_is_listed_by_default(icons, search::lowered_bases(icons));
}

/// Asked for any part of an icon's lower-case base name or of its function name, in any case
/// that lowers to it, the `get_icon` tool shows the icon: its function name, its variant and
/// a call.
pub proof fn law_get_icon_finds_by_any_part(
    icons: Seq<EntryView>,
    i: int,
    args: JsonView,
    name: Seq<char>,
    before: Seq<char>,
    after: Seq<char>,
)
    requires
        0 <= i < icons.len(),
        json::member(args, "name"@) == Some(JsonView::Text(name)),
        search::lowercased(icons[i].base_name) == before + search::lowercased(name) + after
            || icons[i].fn_name == before + search::lowercased(name) + after,
    ensures
        text::has_substring(
            get_answer(icons, args),
            "- **`"@ + icons[i].fn_name + "`** — "@ + icons[i].variant
                + " variant\n  ```rust\n  "@ + icons[i].fn_name + "()\n  ```\n"@,
        ),
{
    let low = search::lowered_bases(icons);
    let part = search::lowercased(name);
    let found = search::listed(icons, low, None, Some(part));
    assert(low[i] == search::lowercased(icons[i].base_name));
    search::law_every_part_of_a_name_finds_the_icon(icons, low, i, before, part, after);
    let k = choose|k: int| 0 <= k < found.len() && found[k] == icons[i];
    search::law_found_icons_are_shown(found, part, k);
    let group = search::group_text(icons[i].base_name, found);
    let (front, back) = text::law_substrings_are_parts(search::found_text(found, part), group);
    text::lemma_substring_within(front, group, back, search::variant_text(icons[i]));
}

/// The `get_icon` tool answers with the icons found for the name in lower case, and with a
/// complaint where no name is given or the name is no text. Where the lower-case name stands in
/// no icon's function name or lower-case base name, it answers that none was found.
pub proof fn law_get_icon_answers(icons: Seq<EntryView>, args: JsonView, name: Seq<char>)
    ensures
        json::member(args, "name"@) is None || !(json::member(args, "name"@)->0 is Text)
            ==> get_answer(icons, args) == "Error: `name` parameter is required."@,
        json::member(args, "name"@) == Some(JsonView::Text(name)) && (forall|i: int|
            0 <= i < icons.len() ==> !text::has_substring(
                #[trigger] icons[i].fn_name,
                search::lowercased(name),
            ) && !text::has_substring(
                search::lowercased(icons[i].base_name),
                search::lowercased(name),
            )) ==> get_answer(icons, args) == "No icons found matching `"@ + search::lowercased(
            name,
        ) + "`.\n\nTip: use `list_icons` with `search` parameter to browse icons."@,
{
    let low = search::lowered_bases(icons);
    let part = search::lowercased(name);
    let found = search::listed(icons, low, None, Some(part));
    if found.len() > 0 && forall|i: int|
        0 <= i < icons.len() ==> !text::has_substring(#[trigger] icons[i].fn_name, part)
            && !text::has_substring(search::lowercased(icons[i].base_name), part) {
        search::law_listed_icons_hold_the_text(icons, None, part, found[0]);
        assert(found.contains(found[0]));
        let i = choose|i: int| 0 <= i < icons.len() && icons[i] == found[0];
        assert(icons[i].fn_name == found[0].fn_name);
    }
}

/// An error carries its code and its message, each under its name.
pub proof fn law_errors_carry_code_and_message(code: int, message: Seq<char>)
    ensures
        json::member(error_view(code, message), "code"@) == Some(JsonView::Integer(code)),
        json::member(error_view(code, message), "message"@) == Some(JsonView::Text(message)),
{
    reveal_strlit("code");
    reveal_strlit("message");
    assert("code"@.len() == 4 && "message"@.len() == 7);
}

/// A reply with a result has no error, and a reply with an error has no result. Both go to the
/// given `id` and are marked as JSON-RPC 2.0.
pub proof fn law_replies_carry_what_they_are_given(id: JsonView, v: JsonView)
    ensures
        json::member(result_reply(id, v), "jsonrpc"@) == Some(JsonView::Text("2.0"@)),
        json::member(result_reply(id, v), "id"@) == Some(id),
        json::member(result_reply(id, v), "result"@) == Some(v),
        json::member(result_reply(id, v), "error"@) is None,
        json::member(error_reply(id, v), "jsonrpc"@) == Some(JsonView::Text("2.0"@)),
        json::member(error_reply(id, v), "id"@) == Some(id),
        json::member(error_reply(id, v), "error"@) == Some(v),
        json::member(error_reply(id, v), "result"@) is None,
{
    lemma_reply_names_differ();
}

/// A tool's answer comes back as the one text in the content of the result.
pub proof fn law_answers_are_one_text(answer: Seq<char>)
    ensures
        json::member(content_view(answer), "content"@) is Some,
        ({
            let content = json::member(content_view(answer), "content"@)->0;
            &&& content is Array
            &&& content->Array_0.len() == 1
            &&& json::member(content->Array_0[0], "type"@) == Some(JsonView::Text("text"@))
            &&& json::member(content->Array_0[0], "text"@) == Some(JsonView::Text(answer))
        }),
{
    reveal_strlit("type");
    reveal_strlit("text");
    assert("type"@[1] == 'y' && "text"@[1] == 'e');
}

/// Each method has its own outcome: `initialize` tells the protocol's version, the name and the
/// version of the server and that it has tools; `tools/list` tells the tools; `tools/call`
/// calls one; `ping` gets an empty object. None but `tools/call` looks at the parameters.
pub proof fn law_methods_have_their_outcomes(server: ServerView, params: Option<JsonView>)
    ensures
        outcome(server, "initialize"@, params) is Ok,
        ({
            let told = outcome(server, "initialize"@, params)->Ok_0;
            let info = json::member(told, "serverInfo"@);
            let capabilities = json::member(told, "capabilities"@);
            &&& json::member(told, "protocolVersion"@) == Some(JsonView::Text("2024-11-05"@))
            &&& info is Some
            &&& json::member(info->0, "name"@) == Some(JsonView::Text("fluent-icons-mcp"@))
            &&& json::member(info->0, "version"@) == Some(JsonView::Text(server.version))
            &&& capabilities is Some
            &&& json::member(capabilities->0, "tools"@) == Some(JsonView::Object(Map::empty()))
        }),
        outcome(server, "tools/list"@, params) is Ok,
        json::member(outcome(server, "tools/list"@, params)->Ok_0, "tools"@) == Some(
            schema::tools_view(),
        ),
        outcome(server, "tools/call"@, params) == tools_call_outcome(server.icons, params),
        outcome(server, "ping"@, params) == Ok::<JsonView, JsonView>(
            JsonView::Object(Map::empty()),
        ),
{
    reveal_strlit("initialize");
    reveal_strlit("tools/list");
    reveal_strlit("tools/call");
    reveal_strlit("ping");
    assert("initialize"@[0] == 'i' && "tools/list"@[0] == 't' && "tools/call"@[0] == 't'
        && "ping"@[0] == 'p');
    assert("tools/list"@[6] == 'l' && "tools/call"@[6] == 'c');
    reveal_strlit("protocolVersion");
    reveal_strlit("capabilities");
    reveal_strlit("serverInfo");
    assert("protocolVersion"@.len() == 15 && "capabilities"@.len() == 12 && "serverInfo"@.len()
        == 10);
    reveal_strlit("name");
    reveal_strlit("version");
    assert("name"@.len() == 4 && "version"@.len() == 7);
}

/// `tools/call` runs the tool that `name` names, on `arguments` or, where there are none, on an
/// empty object. Without parameters, without a tool's name or with the name of no tool it is
/// refused, each with its own code and message.
pub proof fn law_tool_calls_run_the_named_tool(
    icons: Seq<EntryView>,
    params: JsonView,
    args: JsonView,
    tool: Seq<char>,
)
    ensures
        tools_call_outcome(icons, None) == Err::<JsonView, JsonView>(
            error_view(-32602, "Missing params"@),
        ),
        json::member(params, "name"@) is None || !(json::member(params, "name"@)->0 is Text)
            ==> tools_call_outcome(icons, Some(params)) == Err::<JsonView, JsonView>(
            error_view(-32602, "Missing tool name"@),
        ),
        (json::member(params, "arguments"@) == Some(args) || (json::member(params, "arguments"@)
            is None && args == JsonView::Object(Map::empty()))) ==> {
            let called = tools_call_outcome(icons, Some(params));
            let n = overview::counts_of(icons);
            &&& json::member(params, "name"@) == Some(JsonView::Text("list_icons"@)) ==> called
                == Ok::<JsonView, JsonView>(content_view(list_answer(icons, args)))
            &&& json::member(params, "name"@) == Some(JsonView::Text("get_icon"@)) ==> called
                == Ok::<JsonView, JsonView>(content_view(get_answer(icons, args)))
            &&& json::member(params, "name"@) == Some(JsonView::Text("describe_features"@))
                ==> called == Ok::<JsonView, JsonView>(content_view(overview::features_text(n)))
            &&& json::member(params, "name"@) == Some(JsonView::Text("get_crate_info"@))
                ==> called == Ok::<JsonView, JsonView>(content_view(overview::crate_info_text(n)))
        },
        json::member(params, "name"@) == Some(JsonView::Text(tool)) && tool != "list_icons"@
            && tool != "get_icon"@ && tool != "describe_features"@ && tool != "get_crate_info"@
            ==> tools_call_outcome(icons, Some(params)) == Err::<JsonView, JsonView>(
            error_view(-32601, "Unknown tool: "@ + tool),
        ),
{
    reveal_strlit("list_icons");
    reveal_strlit("get_icon");
    reveal_strlit("describe_features");
    reveal_strlit("get_crate_info");
    assert("list_icons"@.len() == 10 && "get_icon"@.len() == 8 && "describe_features"@.len() == 17
        && "get_crate_info"@.len() == 14);
}

/// A message is answered exactly if it has a text as its `method` and has an `id`, of whatever
/// kind.
pub proof fn law_messages_that_are_answered(server: ServerView, msg: JsonView)
    ensures
        reply(server, msg) is Some <==> {
            &&& json::member(msg, "id"@) is Some
            &&& json::member(msg, "method"@) is Some
            &&& json::member(msg, "method"@)->0 is Text
        },
        !(msg is Object) ==> reply(server, msg) is None,
{
}

/// What cannot be read is answered with the error for it, which says why, under a null `id`.
pub proof fn law_unreadable_lines_are_told(server: ServerView, reason: Seq<char>)
    ensures
        reply_to_parsed(server, Err(reason)) is Some,
        ({
            let r = reply_to_parsed(server, Err(reason))->0;
            let error = json::member(r, "error"@);
            &&& json::member(r, "jsonrpc"@) == Some(JsonView::Text("2.0"@))
            &&& json::member(r, "id"@) == Some(JsonView::Null)
            &&& json::member(r, "result"@) is None
            &&& error is Some
            &&& json::member(error->0, "code"@) == Some(JsonView::Integer(-32700))
            &&& json::member(error->0, "message"@) == Some(
                JsonView::Text("Parse error: "@ + reason),
            )
        }),
{
    lemma_reply_names_differ();
    law_errors_carry_code_and_message(-32700, "Parse error: "@ + reason);
}

/// A line of white space alone gets no answer. Any other line gets one exactly if it cannot be
/// read or is a message that asks for a reply.
pub proof fn law_lines_that_are_answered(server: ServerView, line: Seq<char>)
    ensures
        (forall|i: int| 0 <= i < line.len() ==> is_white_space(#[trigger] line[i])) ==> line_reply(
            server,
            line,
        ) is None,
        (exists|i: int| 0 <= i < line.len() && !is_white_space(#[trigger] line[i])) ==> {
            &&& json::parsed_json(line) matches Err(reason) ==> line_reply(server, line) == Some(
                json::rendered_json(
                    error_reply(JsonView::Null, error_view(-32700, "Parse error: "@ + reason)),
                ),
            )
            &&& json::parsed_json(line) matches Ok(msg) ==> (line_reply(server, line) is Some
                <==> reply(server, msg) is Some)
            &&& json::parsed_json(line) matches Ok(msg) ==> (reply(server, msg) matches Some(v)
                ==> line_reply(server, line) == Some(json::rendered_json(v)))
        },
{
}

}
