use fluentui_icons::catalogue::{variant_counts, McpIconEntry};
use fluentui_icons::json::{parse_json, render_json, Json};
use fluentui_icons::overview::{tool_describe_features, tool_get_crate_info};
use fluentui_icons::protocol::{
    answer, dispatch, handle_line, is_blank, tool_get_icon, tool_list_icons, Server,
};
use fluentui_icons::schema::tools_schema;
use fluentui_icons::search::{describe_matches, list_page};
use fluentui_icons::text::{comes_before, contains_text, decimal_text};
use fluentui_icons::variant::catalogue_entry;

fn icons() -> Vec<McpIconEntry> {
    [
        "AddFilled",
        "AddRegular",
        "DismissCircleColor",
        "DismissFilled",
        "HomeLight",
        "HomeFilled",
    ]
    .iter()
    .map(|stem| catalogue_entry(stem))
    .collect()
}

fn server() -> Server {
    Server { version: "1.2.3".to_owned(), icons: icons() }
}

fn json(text: &str) -> Json {
    parse_json(text).unwrap()
}

fn reply(line: &str) -> Option<String> {
    handle_line(&server(), line)
}

#[test]
fn variants_are_counted() {
    assert_eq!(variant_counts(&icons()), (3, 1, 1, 1));
    let odd = vec![McpIconEntry {
        fn_name: "x".to_owned(),
        variant: "filled".to_owned(),
        base_name: "X".to_owned(),
    }];
    assert_eq!(variant_counts(&odd), (0, 0, 0, 0));
}

#[test]
fn overviews_carry_the_counts() {
    let features = tool_describe_features(&icons());
    assert!(features.starts_with("# iced-fluent-icons \u{2014} Cargo Feature Flags\n"));
    assert!(features.contains("| Filled   | 3  |\n| Color    | 1   |\n"));
    assert!(features.contains("| **Total**| **6** |"));
    assert!(features.contains("| `no-filled`  | `*Filled.svg` icons    | 3       |"));
    assert!(features.contains("| `only-light`   | `*Light.svg` icons     | 1     |"));
    assert!(features
        .contains("iced-fluent-icons = { version = \"1.0\", features = [\"no-light\", \"no-color\"] }"));
    assert!(features.ends_with("*inclusion* wins over exclusion when they agree.\n"));
    let info = tool_get_crate_info(&icons());
    assert!(info.starts_with("# iced-fluent-icons\n"));
    assert!(info.contains("| Filled   | 3   |"));
    assert!(info.contains("| **Total**| **6** |"));
    assert!(info.contains("fn toolbar() -> iced::Element<'_, Message> {\n"));
    assert!(info.ends_with("Call the **`describe_features`** tool for full details and examples.\n"));
}

#[test]
fn requests_are_answered_in_kind() {
    assert_eq!(
        reply(r#"{"jsonrpc":"2.0","id":1,"method":"ping"}"#).unwrap(),
        r#"{"id":1,"jsonrpc":"2.0","result":{}}"#
    );
    assert_eq!(
        reply(r#"{"id":"a","method":"initialize","params":{"x":[1,2]}}"#).unwrap(),
        r#"{"id":"a","jsonrpc":"2.0","result":{"capabilities":{"tools":{}},"protocolVersion":"2024-11-05","serverInfo":{"name":"fluent-icons-mcp","version":"1.2.3"}}}"#
    );
    assert_eq!(
        reply(r#"{"id":2,"method":"nope"}"#).unwrap(),
        r#"{"error":{"code":-32601,"message":"Method not found: nope"},"id":2,"jsonrpc":"2.0"}"#
    );
}

#[test]
fn every_kind_of_id_comes_back() {
    for id in ["null", "true", "-7", "0.5", "18446744073709551615", "[1,{\"a\":\"b\"}]", "\"x\\ny\""] {
        let line = format!("{{\"id\":{id},\"method\":\"ping\"}}");
        let expected = format!("{{\"id\":{id},\"jsonrpc\":\"2.0\",\"result\":{{}}}}");
        assert_eq!(reply(&line).unwrap(), expected);
    }
}

#[test]
fn notifications_and_strays_get_no_answer() {
    assert!(reply(r#"{"method":"notifications/initialized"}"#).is_none());
    assert!(reply(r#"{"id":1}"#).is_none());
    assert!(reply(r#"{"id":1,"method":5}"#).is_none());
    assert!(reply("[1,2]").is_none());
    assert!(reply("7").is_none());
    assert!(reply("").is_none());
    assert!(reply(" \t\u{a0}").is_none());
    assert!(is_blank("\r\n"));
    assert!(!is_blank(" x "));
}

#[test]
fn what_is_no_json_is_refused() {
    assert_eq!(
        reply("{").unwrap(),
        r#"{"error":{"code":-32700,"message":"Parse error: EOF while parsing an object at line 1 column 1"},"id":null,"jsonrpc":"2.0"}"#
    );
    let given = answer(&server(), Err("why".to_owned())).unwrap();
    assert_eq!(
        render_json(&given).unwrap(),
        r#"{"error":{"code":-32700,"message":"Parse error: why"},"id":null,"jsonrpc":"2.0"}"#
    );
    assert!(answer(&server(), Ok(json("{}"))).is_none());
}

#[test]
fn tool_calls_are_checked() {
    let call = |params: &str| {
        let msg = json(&format!("{{\"id\":1,\"method\":\"tools/call\"{params}}}"));
        let response = dispatch(&server(), &msg).unwrap();
        render_json(response.get("error").unwrap()).unwrap()
    };
    assert_eq!(call(""), r#"{"code":-32602,"message":"Missing params"}"#);
    assert_eq!(call(",\"params\":{}"), r#"{"code":-32602,"message":"Missing tool name"}"#);
    assert_eq!(call(",\"params\":{\"name\":3}"), r#"{"code":-32602,"message":"Missing tool name"}"#);
    assert_eq!(
        call(",\"params\":{\"name\":\"zap\"}"),
        r#"{"code":-32601,"message":"Unknown tool: zap"}"#
    );
}

#[test]
fn tool_answers_come_as_text_content() {
    let msg = json(
        r#"{"id":1,"method":"tools/call","params":{"name":"get_icon","arguments":{"name":"HOMEL"}}}"#,
    );
    let response = dispatch(&server(), &msg).unwrap();
    let result = render_json(response.get("result").unwrap()).unwrap();
    assert_eq!(
        result,
        r#"{"content":[{"text":"No icons found matching `homel`.\n\nTip: use `list_icons` with `search` parameter to browse icons.","type":"text"}]}"#
    );
    for tool in ["list_icons", "get_icon", "describe_features", "get_crate_info"] {
        let line = format!("{{\"id\":1,\"method\":\"tools/call\",\"params\":{{\"name\":\"{tool}\"}}}}");
        let response = dispatch(&server(), &json(&line)).unwrap();
        assert!(response.get("error").is_none());
        let text = reply(&line).unwrap();
        assert!(text.contains("\"content\":[{\"text\":\""));
        assert!(!text.contains('\n'));
    }
}

#[test]
fn the_tools_are_listed() {
    let listed = render_json(&tools_schema()).unwrap();
    for name in ["list_icons", "get_icon", "describe_features", "get_crate_info"] {
        assert!(listed.contains(&format!("\"name\":\"{name}\"")));
    }
    assert!(listed.contains(
        r#""limit":{"description":"Max results per page (default: 100, max: 500).","maximum":500,"minimum":1,"type":"integer"}"#
    ));
    assert!(listed.contains(
        r#""variant":{"description":"Only return icons of this variant.","enum":["Filled","Color","Regular","Light"],"type":"string"}"#
    ));
    assert!(listed.contains(r#""required":["name"]"#));
    let all = reply(r#"{"id":0,"method":"tools/list"}"#).unwrap();
    assert_eq!(all, format!("{{\"id\":0,\"jsonrpc\":\"2.0\",\"result\":{{\"tools\":{listed}}}}}"));
}

#[test]
fn icons_are_listed_by_page() {
    assert_eq!(
        tool_list_icons(&icons(), &json(r#"{"limit":2,"offset":1}"#)),
        "Showing 2/6 icons (offset=1, limit=2)\n\nfn_name | variant | base_name\n--- | --- | ---\n\
         `add_regular` | Regular | Add\n`dismiss_circle_color` | Color | DismissCircle\n\
         \n*3 more icons not shown. Fetch next page with `offset=3`.*\n"
    );
    assert_eq!(
        tool_list_icons(&icons(), &json(r#"{"variant":"FILLED","search":"MISS"}"#)),
        "Showing 1/1 icons (offset=0, limit=100)\n\nfn_name | variant | base_name\n--- | --- | ---\n\
         `dismiss_filled` | Filled | Dismiss\n"
    );
    assert_eq!(
        tool_list_icons(&icons(), &json(r#"{"search":"zebra"}"#)),
        "Showing 0/0 icons (offset=0, limit=100)\n\nNo icons matched your query.\n"
    );
    assert_eq!(
        tool_list_icons(&icons(), &json(r#"{"offset":18446744073709551615,"limit":501}"#)),
        "Showing 0/6 icons (offset=18446744073709551615, limit=500)\n\nfn_name | variant | base_name\n--- | --- | ---\n"
    );
    assert_eq!(
        tool_list_icons(&icons(), &json(r#"{"limit":0,"offset":-1}"#)),
        "Showing 0/6 icons (offset=0, limit=0)\n\nfn_name | variant | base_name\n--- | --- | ---\n\
         \n*6 more icons not shown. Fetch next page with `offset=0`.*\n"
    );
}

#[test]
fn pages_follow_on() {
    let all = icons();
    let lowered: Vec<String> = all.iter().map(|i| i.base_name.to_lowercase()).collect();
    let rows = |text: String| -> Vec<String> {
        text.lines().filter(|l| l.starts_with('`')).map(|l| l.to_owned()).collect()
    };
    let mut joined = rows(list_page(&all, &lowered, None, None, 0, 4));
    joined.extend(rows(list_page(&all, &lowered, None, None, 4, 4)));
    assert_eq!(joined, rows(list_page(&all, &lowered, None, None, 0, 8)));
    assert_eq!(joined.len(), 6);
}

#[test]
fn icons_are_grouped_by_base_name() {
    assert_eq!(
        tool_get_icon(&icons(), &json(r#"{"name":"Dismiss"}"#)),
        "Found 2 icon(s) matching `dismiss`:\n\n### Dismiss\n\n- **`dismiss_filled`** \u{2014} Filled variant\n  \
         ```rust\n  dismiss_filled()\n  ```\n\n### DismissCircle\n\n- **`dismiss_circle_color`** \u{2014} Color \
         variant\n  ```rust\n  dismiss_circle_color()\n  ```\n\n"
    );
    assert_eq!(
        tool_get_icon(&icons(), &json("{}")),
        "Error: `name` parameter is required."
    );
    let lowered: Vec<String> = icons().iter().map(|i| i.base_name.to_lowercase()).collect();
    let filled = describe_matches(&icons(), &lowered, "_filled");
    let at = |s: &str| filled.find(s).unwrap();
    assert!(at("### Add\n") < at("### Dismiss\n") && at("### Dismiss\n") < at("### Home\n"));
}

#[test]
fn every_icon_is_found_by_either_name() {
    for icon in icons() {
        for name in [&icon.base_name, &icon.fn_name] {
            let args = json(&format!("{{\"name\":\"{name}\"}}"));
            let text = tool_get_icon(&icons(), &args);
            assert!(text.contains(&format!("- **`{}`**", icon.fn_name)));
        }
    }
}

#[test]
fn lower_case_goes_beyond_ascii() {
    let icons = vec![McpIconEntry {
        fn_name: "x".to_owned(),
        variant: "Filled".to_owned(),
        base_name: "\u{c9}TOILE".to_owned(),
    }];
    let text = tool_list_icons(&icons, &json("{\"search\":\"\u{c9}toile\"}"));
    assert!(text.starts_with("Showing 1/1 icons"));
}

#[test]
fn later_members_count() {
    assert_eq!(json(r#"{"a":1,"a":2}"#).get("a").unwrap().as_u64(), Some(2));
    let twice = Json::Object(vec![
        ("a".to_owned(), Json::Unsigned(1)),
        ("a".to_owned(), Json::Signed(2)),
    ]);
    assert_eq!(twice.get("a").unwrap().as_u64(), Some(2));
    assert_eq!(render_json(&twice).unwrap(), r#"{"a":2}"#);
    assert!(twice.get("b").is_none());
}

#[test]
fn numbers_are_read_as_unsigned_where_they_are() {
    assert_eq!(json("18446744073709551615").as_u64(), Some(u64::MAX));
    assert_eq!(json("-1").as_u64(), None);
    assert_eq!(json("1.0").as_u64(), None);
    assert_eq!(json("\"1\"").as_u64(), None);
    assert_eq!(Json::Number(serde_json::Number::from(5u64)).as_u64(), Some(5));
    assert_eq!(Json::Signed(-3).as_u64(), None);
    assert_eq!(json("\"t\"").as_str(), Some("t"));
    assert_eq!(json("null").as_str(), None);
}

#[test]
fn json_is_read_and_written() {
    let text = r#"{"a":[null,true,false,-9223372036854775808,2.5,"q\"\\\n"],"b":{}}"#;
    assert_eq!(render_json(&json(text)).unwrap(), text);
    assert_eq!(render_json(&json(text).clone()).unwrap(), text);
}

#[test]
fn text_operations() {
    assert_eq!(decimal_text(0), "0");
    assert_eq!(decimal_text(1230), "1230");
    assert_eq!(decimal_text(usize::MAX), usize::MAX.to_string());
    assert!(contains_text("dismiss", "miss"));
    assert!(contains_text("", ""));
    assert!(!contains_text("ab", "abc"));
    assert!(comes_before("Add", "AddRegular"));
    assert!(comes_before("Z", "a"));
    assert!(!comes_before("a", "a"));
    assert!(!comes_before("b", "a"));
}
