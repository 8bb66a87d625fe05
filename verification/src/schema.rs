//! The tools that the server offers, with the shape of their arguments.

use vstd::prelude::*;

use crate::json;
use crate::json::{Items, Json, JsonView, Members};

verus! {

/// What the `list_icons` tool is for.
pub const LIST_ICONS_DESCRIPTION: &'static str = "List and search all Fluent UI icons available in the iced-fluent-icons crate. Returns icon Rust function names (snake_case), variants, and base names. Use this to discover icons and find their exact fn names before writing code. Supports filtering by variant (Filled/Color/Regular/Light), full-text search, and pagination.";

/// What the `variant` parameter is for.
pub const VARIANT_DESCRIPTION: &'static str = "Only return icons of this variant.";

/// What the `search` parameter is for.
pub const SEARCH_DESCRIPTION: &'static str = "Case-insensitive substring to match against fn_name or base_name.";

/// What the `offset` parameter is for.
pub const OFFSET_DESCRIPTION: &'static str = "Pagination offset (default: 0).";

/// What the `limit` parameter is for.
pub const LIMIT_DESCRIPTION: &'static str = "Max results per page (default: 100, max: 500).";

/// What the `get_icon` tool is for.
pub const GET_ICON_DESCRIPTION: &'static str = "Look up a specific icon (or icon family) by name. Accepts the base name (e.g. 'Dismiss'), the fn_name (e.g. 'dismiss_filled'), or a partial match. Returns all matching variants with their exact Rust fn names and short code snippets.";

/// What the `name` parameter is for.
pub const NAME_DESCRIPTION: &'static str = "Icon name to search for (base name, fn_name, or partial).";

/// What the `describe_features` tool is for.
pub const FEATURES_DESCRIPTION: &'static str = "Describe all Cargo feature flags for iced-fluent-icons. Shows which icon variants are included/excluded by each feature flag, with exact Cargo.toml examples. Also lists icon counts per variant.";

/// What the `get_crate_info` tool is for.
pub const CRATE_INFO_DESCRIPTION: &'static str = "Full overview of the iced-fluent-icons crate: what it does, the two-macro workflow (declare!/inventory), naming conventions, variant guide, feature flag summary, and ready-to-paste code examples.";

/// A parameter of the given type, with its description.
pub open spec fn parameter_members(kind: Seq<char>, description: Seq<char>) -> Map<
    Seq<char>,
    JsonView,
> {
    map!["type"@ => JsonView::Text(kind), "description"@ => JsonView::Text(description)]
}

/// Arguments with the given parameters, all optional.
pub open spec fn arguments_members(parameters: Map<Seq<char>, JsonView>) -> Map<
    Seq<char>,
    JsonView,
> {
    map!["type"@ => JsonView::Text("object"@), "properties"@ => JsonView::Object(parameters)]
}

/// A tool with its name, its description and the shape of its arguments.
pub open spec fn tool_view(
    name: Seq<char>,
    description: Seq<char>,
    arguments: Map<Seq<char>, JsonView>,
) -> JsonView {
    JsonView::Object(
        map![
            "name"@ => JsonView::Text(name),
            "description"@ => JsonView::Text(description),
            "inputSchema"@ => JsonView::Object(arguments),
        ],
    )
}

/// The parameters of the `list_icons` tool.
pub open spec fn list_parameters() -> Map<Seq<char>, JsonView> {
    map![
        "variant"@ => JsonView::Object(
            parameter_members("string"@, VARIANT_DESCRIPTION@).insert(
                "enum"@,
                JsonView::Array(
                    seq![
                        JsonView::Text("Filled"@),
                        JsonView::Text("Color"@),
                        JsonView::Text("Regular"@),
                        JsonView::Text("Light"@),
                    ],
                ),
            ),
        ),
        "search"@ => JsonView::Object(parameter_members("string"@, SEARCH_DESCRIPTION@)),
        "offset"@ => JsonView::Object(
            parameter_members("integer"@, OFFSET_DESCRIPTION@).insert(
                "minimum"@,
                JsonView::Integer(0),
            ),
        ),
        "limit"@ => JsonView::Object(
            parameter_members("integer"@, LIMIT_DESCRIPTION@).insert(
                "minimum"@,
                JsonView::Integer(1),
            ).insert("maximum"@, JsonView::Integer(500)),
        ),
    ]
}

/// The parameters of the `get_icon` tool.
pub open spec fn get_parameters() -> Map<Seq<char>, JsonView> {
    map!["name"@ => JsonView::Object(parameter_members("string"@, NAME_DESCRIPTION@))]
}

/// The tools that the server offers.
pub open spec fn tools_view() -> JsonView {
    JsonView::Array(
        seq![
            tool_view("list_icons"@, LIST_ICONS_DESCRIPTION@, arguments_members(list_parameters())),
            tool_view(
                "get_icon"@,
                GET_ICON_DESCRIPTION@,
                arguments_members(get_parameters()).insert(
                    "required"@,
                    JsonView::Array(seq![JsonView::Text("name"@)]),
                ),
            ),
            tool_view("describe_features"@, FEATURES_DESCRIPTION@, arguments_members(Map::empty())),
            tool_view("get_crate_info"@, CRATE_INFO_DESCRIPTION@, arguments_members(Map::empty())),
        ],
    )
}

/// Builds [`parameter_members`].
fn parameter(kind: &str, description: &str) -> (r: Members)
    ensures
        r@ == parameter_members(kind@, description@),
{
    let mut m: Members = Members::new();
    m.set("type", Json::text(kind));
    m.set("description", Json::text(description));
    m
}

/// Builds [`arguments_members`].
fn arguments(parameters: Members) -> (r: Members)
    ensures
        r@ == arguments_members(parameters@),
{
    let mut m: Members = Members::new();
    m.set("type", Json::text("object"));
    m.set("properties", parameters.object());
    m
}

/// Builds [`tool_view`].
fn tool(name: &str, description: &str, arguments: Members) -> (r: Json)
    ensures
        r@ == tool_view(name@, description@, arguments@),
{
    let mut m: Members = Members::new();
    m.set("name", Json::text(name));
    m.set("description", Json::text(description));
    m.set("inputSchema", arguments.object());
    m.object()
}

/// The tools that the server offers, each with its name, its description and the shape of its
/// arguments.
pub fn tools_schema() -> (r: Json)
    ensures
        r@ == tools_view(),
{
    let mut variants: Items = Items::new();
    variants.push(Json::text("Filled"));
    variants.push(Json::text("Color"));
    variants.push(Json::text("Regular"));
    variants.push(Json::text("Light"));
    assert(variants@ =~= seq![
        JsonView::Text("Filled"@),
        JsonView::Text("Color"@),
        JsonView::Text("Regular"@),
        JsonView::Text("Light"@),
    ]);
    let mut variant: Members = parameter("string", VARIANT_DESCRIPTION);
    variant.set("enum", variants.array());
    let search: Members = parameter("string", SEARCH_DESCRIPTION);
    let mut offset: Members = parameter("integer", OFFSET_DESCRIPTION);
    offset.set("minimum", Json::Unsigned(0));
    let mut limit: Members = parameter("integer", LIMIT_DESCRIPTION);
    limit.set("minimum", Json::Unsigned(1));
    limit.set("maximum", Json::Unsigned(500));
    let mut list: Members = Members::new();
    list.set("variant", variant.object());
    list.set("search", search.object());
    list.set("offset", offset.object());
    list.set("limit", limit.object());

    let mut get: Members = Members::new();
    get.set("name", parameter("string", NAME_DESCRIPTION).object());
    let mut get_arguments: Members = arguments(get);
    let mut required: Items = Items::new();
    required.push(Json::text("name"));
    assert(required@ =~= seq![JsonView::Text("name"@)]);
    get_arguments.set("required", required.array());

    let mut tools: Items = Items::new();
    tools.push(tool("list_icons", LIST_ICONS_DESCRIPTION, arguments(list)));
    tools.push(tool("get_icon", GET_ICON_DESCRIPTION, get_arguments));
    tools.push(tool("describe_features", FEATURES_DESCRIPTION, arguments(Members::new())));
    tools.push(tool("get_crate_info", CRATE_INFO_DESCRIPTION, arguments(Members::new())));
    assert(tools@ =~= tools_view()->Array_0);
    tools.array()
}

/// The names in what is said of a tool differ from one another.
proof fn lemma_schema_names_differ()
    ensures
        "type"@ != "description"@,
        "type"@ != "enum"@,
        "type"@ != "minimum"@,
        "type"@ != "maximum"@,
        "type"@ != "properties"@,
        "type"@ != "required"@,
        "description"@ != "enum"@,
        "description"@ != "minimum"@,
        "description"@ != "maximum"@,
        "description"@ != "name"@,
        "description"@ != "inputSchema"@,
        "name"@ != "inputSchema"@,
        "minimum"@ != "maximum"@,
        "properties"@ != "required"@,
        "variant"@ != "search"@,
        "variant"@ != "offset"@,
        "variant"@ != "limit"@,
        "search"@ != "offset"@,
        "search"@ != "limit"@,
        "offset"@ != "limit"@,
{
    reveal_strlit("type");
    reveal_strlit("description");
    reveal_strlit("enum");
    reveal_strlit("minimum");
    reveal_strlit("maximum");
    reveal_strlit("properties");
    reveal_strlit("required");
    reveal_strlit("name");
    reveal_strlit("inputSchema");
    reveal_strlit("variant");
    reveal_strlit("search");
    reveal_strlit("offset");
    reveal_strlit("limit");
    assert("type"@.len() == 4 && "enum"@.len() == 4 && "name"@.len() == 4);
    assert("type"@[0] == 't' && "enum"@[0] == 'e');
    assert("description"@.len() == 11 && "inputSchema"@.len() == 11);
    assert("description"@[0] == 'd' && "inputSchema"@[0] == 'i');
    assert("minimum"@.len() == 7 && "maximum"@.len() == 7);
    assert("minimum"@[1] == 'i' && "maximum"@[1] == 'a');
    assert("properties"@.len() == 10 && "required"@.len() == 8);
    assert("variant"@.len() == 7 && "limit"@.len() == 5);
    assert("search"@.len() == 6 && "offset"@.len() == 6);
    assert("search"@[0] == 's' && "offset"@[0] == 'o');
}

/// Four tools are offered, in a fixed order, each with its name and an object for its
/// arguments. `name` is required of `get_icon`, and nothing of the others.
pub proof fn law_tools_are_offered_by_name()
    ensures
        tools_view() is Array,
        ({
            let tools = tools_view()->Array_0;
            &&& tools.len() == 4
            &&& json::member(tools[0], "name"@) == Some(JsonView::Text("list_icons"@))
            &&& json::member(tools[1], "name"@) == Some(JsonView::Text("get_icon"@))
            &&& json::member(tools[2], "name"@) == Some(JsonView::Text("describe_features"@))
            &&& json::member(tools[3], "name"@) == Some(JsonView::Text("get_crate_info"@))
            &&& json::member(tools[0], "description"@) == Some(
                JsonView::Text(LIST_ICONS_DESCRIPTION@),
            )
            &&& json::member(tools[1], "description"@) == Some(
                JsonView::Text(GET_ICON_DESCRIPTION@),
            )
            &&& json::member(tools[2], "description"@) == Some(
                JsonView::Text(FEATURES_DESCRIPTION@),
            )
            &&& json::member(tools[3], "description"@) == Some(
                JsonView::Text(CRATE_INFO_DESCRIPTION@),
            )
            &&& forall|i: int|
                0 <= i < 4 ==> {
                    let shape = json::member(#[trigger] tools[i], "inputSchema"@);
                    &&& shape is Some
                    &&& json::member(shape->0, "type"@) == Some(JsonView::Text("object"@))
                    &&& json::member(shape->0, "required"@) == if i == 1 {
                        Some(JsonView::Array(seq![JsonView::Text("name"@)]))
                    } else {
                        None
                    }
                    &&& json::member(shape->0, "properties"@) is Some
                    &&& i >= 2 ==> json::member(shape->0, "properties"@) == Some(
                        JsonView::Object(Map::empty()),
                    )
                }
        }),
{
    lemma_schema_names_differ();
    let tools = tools_view()->Array_0;
    assert forall|i: int| 0 <= i < 4 implies {
        let shape = json::member(#[trigger] tools[i], "inputSchema"@);
        &&& shape is Some
        &&& json::member(shape->0, "type"@) == Some(JsonView::Text("object"@))
        &&& json::member(shape->0, "required"@) == if i == 1 {
            Some(JsonView::Array(seq![JsonView::Text("name"@)]))
        } else {
            None
        }
        &&& json::member(shape->0, "properties"@) is Some
        &&& i >= 2 ==> json::member(shape->0, "properties"@) == Some(
            JsonView::Object(Map::empty()),
        )
    } by {
        assert(i == 0 || i == 1 || i == 2 || i == 3);
    }
}

/// The parameters of `list_icons` and `get_icon`: `variant`, one of the four variants' names;
/// `search`, a text; `offset`, an integer from 0 on; `limit`, an integer from 1 to 500; `name`,
/// a text. There are no others.
pub proof fn law_parameters_are_described(other: Seq<char>)
    ensures
        ({
            let list = json::member(
                json::member(tools_view()->Array_0[0], "inputSchema"@)->0,
                "properties"@,
            )->0;
            let get = json::member(
                json::member(tools_view()->Array_0[1], "inputSchema"@)->0,
                "properties"@,
            )->0;
            let variant = json::member(list, "variant"@);
            let search = json::member(list, "search"@);
            let offset = json::member(list, "offset"@);
            let limit = json::member(list, "limit"@);
            let name = json::member(get, "name"@);
            &&& variant is Some && search is Some && offset is Some && limit is Some
            &&& json::member(variant->0, "type"@) == Some(JsonView::Text("string"@))
            &&& json::member(variant->0, "enum"@) == Some(
                JsonView::Array(
                    seq![
                        JsonView::Text("Filled"@),
                        JsonView::Text("Color"@),
                        JsonView::Text("Regular"@),
                        JsonView::Text("Light"@),
                    ],
                ),
            )
            &&& json::member(variant->0, "description"@) == Some(
                JsonView::Text("Only return icons of this variant."@),
            )
            &&& json::member(search->0, "type"@) == Some(JsonView::Text("string"@))
            &&& json::member(search->0, "description"@) == Some(
                JsonView::Text(
                    "Case-insensitive substring to match against fn_name or base_name."@,
                ),
            )
            &&& json::member(offset->0, "type"@) == Some(JsonView::Text("integer"@))
            &&& json::member(offset->0, "minimum"@) == Some(JsonView::Integer(0))
            &&& json::member(offset->0, "maximum"@) is None
            &&& json::member(offset->0, "description"@) == Some(
                JsonView::Text("Pagination offset (default: 0)."@),
            )
            &&& json::member(limit->0, "type"@) == Some(JsonView::Text("integer"@))
            &&& json::member(limit->0, "minimum"@) == Some(JsonView::Integer(1))
            &&& json::member(limit->0, "maximum"@) == Some(JsonView::Integer(500))
            &&& json::member(limit->0, "description"@) == Some(
                JsonView::Text("Max results per page (default: 100, max: 500)."@),
            )
            &&& name is Some
            &&& json::member(name->0, "type"@) == Some(JsonView::Text("string"@))
            &&& json::member(name->0, "description"@) == Some(
                JsonView::Text("Icon name to search for (base name, fn_name, or partial)."@),
            )
            &&& other != "variant"@ && other != "search"@ && other != "offset"@ && other
                != "limit"@ ==> json::member(list, other) is None
            &&& other != "name"@ ==> json::member(get, other) is None
        }),
{
    lemma_schema_names_differ();
}

}
