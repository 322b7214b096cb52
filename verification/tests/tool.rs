use oben::config::{ConfiguredProvider, SearchConfig, SearchProviderKind};
use oben::json::Json;
use oben::protocol::{IoAction, SearchError, SearchEvent, SearchResult};
use oben::providers::{BraveProvider, DisabledProvider, DuckDuckGoProvider};
use oben::web_search::{
    execute_web_search, is_valid_result, make_search_tool_def, register, register_default, render,
    CallStep, SearchCall, ToolParameters, ToolRegistry, ToolResult, ToolStep, WebSearchTool,
};

fn call(query: &str) -> SearchCall {
    SearchCall { call_id: "call-1".to_string(), query: Ok(query.to_string()), max_results: None }
}

fn answer(step: ToolStep) -> ToolResult {
    match step {
        ToolStep::Finish(answer) => answer,
        other => panic!("no answer: {:?}", other),
    }
}

fn item(title: &str, url: &str) -> Json {
    Json::Object(vec![
        ("title".to_string(), Json::Text(title.to_string())),
        ("url".to_string(), Json::Text(url.to_string())),
        ("description".to_string(), Json::Text("d".to_string())),
    ])
}

fn reply(items: Vec<Json>) -> SearchEvent {
    let results = Json::Object(vec![("results".to_string(), Json::Array(items))]);
    SearchEvent::Reply(Json::Object(vec![("web".to_string(), results)]))
}

fn brave_tool() -> WebSearchTool<BraveProvider> {
    WebSearchTool::new_with_provider(Box::new(BraveProvider::new("k".to_string())))
}

#[test]
fn definition_names_the_parameters() {
    let def = make_search_tool_def();
    assert_eq!(def.name, "web_search");
    assert_eq!(def.description, "Search the web for information");
    let ToolParameters::Flat(parameters) = def.parameters;
    let shown: Vec<(String, String, String, bool)> = parameters
        .into_iter()
        .map(|p| (p.name, p.description, p.param_type, p.required))
        .collect();
    assert_eq!(
        shown,
        vec![
            ("query".to_string(), "Search query".to_string(), "string".to_string(), true),
            (
                "max_results".to_string(),
                "Maximum number of results".to_string(),
                "number".to_string(),
                false
            ),
        ]
    );
    assert_eq!(brave_tool().name(), "web_search");
    assert_eq!(brave_tool().description(), "Search the web for information");
}

#[test]
fn call_without_query_is_refused() {
    let call = SearchCall {
        call_id: "call-1".to_string(),
        query: Err("missing parameter: query".to_string()),
        max_results: Some(3),
    };
    let refused = answer(brave_tool().execute(&call, SearchEvent::Start));
    assert_eq!(refused.call_id, "call-1");
    assert_eq!(refused.output, "");
    assert_eq!(refused.error.as_deref(), Some("missing parameter: query"));
    let tool: WebSearchTool<BraveProvider> = WebSearchTool::new();
    assert!(matches!(
        execute_web_search(&tool, &call, SearchEvent::Start),
        CallStep::Finish(Err(SearchError::InvalidCall(_)))
    ));
}

#[test]
fn tool_without_provider_reports_it() {
    let tool: WebSearchTool<BraveProvider> = WebSearchTool::new();
    let refused = answer(tool.execute(&call("q"), SearchEvent::Start));
    assert_eq!(
        refused.error.as_deref(),
        Some("Error: web_search No search provider configured. Add to config: `tools.search.provider`")
    );
    assert_eq!(refused.output, "");
}

#[test]
fn copied_tool_has_no_provider() {
    let copy = brave_tool().clone_tool();
    assert!(matches!(
        execute_web_search(&copy, &call("q"), SearchEvent::Start),
        CallStep::Finish(Err(SearchError::NoProvider))
    ));
}

#[test]
fn disabled_search_reports_it() {
    let tool = WebSearchTool::new_with_provider(Box::new(DisabledProvider));
    let refused = answer(tool.execute(&call("q"), SearchEvent::Start));
    assert!(refused.error.unwrap().starts_with("Search provider is disabled in config."));
}

#[test]
fn five_results_are_asked_for_by_default() {
    match brave_tool().execute(&call("q"), SearchEvent::Start) {
        ToolStep::Perform(IoAction::Send(request)) => assert!(request.url.ends_with("&count=5")),
        other => panic!("no request: {:?}", other),
    }
    let mut seven = call("q");
    seven.max_results = Some(7);
    match brave_tool().execute(&seven, SearchEvent::Start) {
        ToolStep::Perform(IoAction::Send(request)) => assert!(request.url.ends_with("&count=7")),
        other => panic!("no request: {:?}", other),
    }
}

#[test]
fn results_are_shown_as_numbered_links() {
    let items = vec![item("A", "https://a"), item("", "https://b"), item("C", ""), item("D", "https://d")];
    let shown = answer(brave_tool().execute(&call("q"), reply(items)));
    assert_eq!(shown.call_id, "call-1");
    assert_eq!(shown.output, "1. [A](https://a)\n2. [D](https://d)");
    assert!(shown.error.is_none());
}

#[test]
fn nothing_to_show_is_an_error() {
    let empty = answer(brave_tool().execute(&call("cats"), reply(vec![item("", "u")])));
    assert_eq!(empty.output, "");
    assert_eq!(
        empty.error.as_deref(),
        Some("Error: web_search cannot get results for query: cats")
    );
}

#[test]
fn search_errors_are_reported() {
    let tool = WebSearchTool::new_with_provider(Box::new(DuckDuckGoProvider::new()));
    let event = SearchEvent::Response { success: false, status: "404 Not Found".to_string() };
    let failed = answer(tool.execute(&call("q"), event));
    assert_eq!(
        failed.error.as_deref(),
        Some("Error: web_search DuckDuckGo search failed: HTTP 404 Not Found")
    );
    let event = SearchEvent::Response { success: true, status: "200 OK".to_string() };
    assert!(matches!(
        tool.execute(&call("q"), event),
        ToolStep::Perform(IoAction::ReadJson)
    ));
}

#[test]
fn lines_are_numbered_in_decimal() {
    let results: Vec<SearchResult> = (0..101)
        .map(|i| SearchResult {
            title: format!("t{}", i),
            url: format!("u{}", i),
            snippet: String::new(),
        })
        .collect();
    let lines: Vec<String> =
        results.iter().enumerate().map(|(i, r)| format!("{}. [{}]({})", i + 1, r.title, r.url)).collect();
    assert_eq!(render(&results), lines.join("\n"));
    assert_eq!(render(&vec![]), "");
}

#[test]
fn validity_needs_title_and_address() {
    let result = |title: &str, url: &str| SearchResult {
        title: title.to_string(),
        url: url.to_string(),
        snippet: String::new(),
    };
    assert!(is_valid_result(&result("t", "u")));
    assert!(!is_valid_result(&result("", "u")));
    assert!(!is_valid_result(&result("t", "")));
}

#[test]
fn registration_pairs_tool_and_definition() {
    let mut registry = ToolRegistry::new();
    assert!(registry.entries().is_empty());
    let config =
        SearchConfig { provider: SearchProviderKind::Bing, api_key: Some("k".to_string()) };
    register(&mut registry, &config);
    register_default(
        &mut registry,
        &SearchConfig { provider: SearchProviderKind::Disabled, api_key: None },
    );
    let entries = registry.entries();
    assert_eq!(entries.len(), 2);
    assert_eq!(entries[0].def.name, entries[0].tool.name());
    match entries[0].tool.execute(&call("q"), SearchEvent::Start) {
        ToolStep::Perform(IoAction::Send(request)) => {
            assert_eq!(request.headers[0].1, "k");
        }
        other => panic!("no request: {:?}", other),
    }
    let refused = answer(entries[1].tool.execute(&call("q"), SearchEvent::Start));
    assert!(refused.error.is_some());
    assert_eq!(registry.into_entries().len(), 2);
    let unset: WebSearchTool<ConfiguredProvider> = WebSearchTool::new();
    assert!(answer(unset.execute(&call("q"), SearchEvent::Start)).error.is_some());
}
