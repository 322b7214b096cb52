use oben::config::{create_search_provider, ConfiguredProvider, SearchConfig, SearchProviderKind};
use oben::ddg::{extract_ddg_title_from_json, extract_ddg_url_from_json, parse_ddg_results, seen_url};
use oben::json::Json;
use oben::protocol::{IoAction, SearchError, SearchEvent, SearchResult, SearchStep, Service};
use oben::providers::{
    BingProvider, BraveProvider, DisabledProvider, DuckDuckGoProvider, GoogleProvider,
    SearchProvider,
};

fn text(s: &str) -> Json {
    Json::Text(s.to_string())
}

fn object(entries: Vec<(&str, Json)>) -> Json {
    Json::Object(entries.into_iter().map(|(k, v)| (k.to_string(), v)).collect())
}

fn topic(url: &str, markup: &str, snippet: &str) -> Json {
    object(vec![("FirstURL", text(url)), ("Result", text(markup)), ("Text", text(snippet))])
}

fn result(title: &str, url: &str, snippet: &str) -> SearchResult {
    SearchResult { title: title.to_string(), url: url.to_string(), snippet: snippet.to_string() }
}

fn triples(results: &[SearchResult]) -> Vec<(&str, &str, &str)> {
    results.iter().map(|r| (r.title.as_str(), r.url.as_str(), r.snippet.as_str())).collect()
}

fn request_of(step: SearchStep) -> (String, Vec<(String, String)>) {
    match step {
        SearchStep::Perform(IoAction::Send(request)) => (request.url, request.headers),
        other => panic!("no request: {:?}", other),
    }
}

fn error_of(step: SearchStep) -> SearchError {
    match step {
        SearchStep::Finish(Err(error)) => error,
        other => panic!("no error: {:?}", other),
    }
}

fn results_of(step: SearchStep) -> Vec<SearchResult> {
    match step {
        SearchStep::Finish(Ok(results)) => results,
        other => panic!("no results: {:?}", other),
    }
}

fn response(success: bool) -> SearchEvent {
    SearchEvent::Response { success, status: "500 Internal Server Error".to_string() }
}

#[test]
fn test_create_duckduckgo_provider() {
    let config = SearchConfig { provider: SearchProviderKind::DuckDuckGo, api_key: None };
    let provider = create_search_provider(&config);
    assert!(matches!(*provider, ConfiguredProvider::DuckDuckGo(_)));
}

#[test]
fn test_create_brave_provider_with_key() {
    let config =
        SearchConfig { provider: SearchProviderKind::Brave, api_key: Some("test-key".to_string()) };
    let provider = create_search_provider(&config);
    let (_, headers) = request_of(provider.search("q", 1, SearchEvent::Start));
    assert_eq!(headers[0].1, "test-key");
}

#[test]
fn test_create_bing_provider_with_key() {
    let config =
        SearchConfig { provider: SearchProviderKind::Bing, api_key: Some("test-key".to_string()) };
    let provider = create_search_provider(&config);
    let (_, headers) = request_of(provider.search("q", 1, SearchEvent::Start));
    assert_eq!(headers[0].1, "test-key");
}

#[test]
fn test_create_google_provider_with_key() {
    let config =
        SearchConfig { provider: SearchProviderKind::Google, api_key: Some("test-key".to_string()) };
    let provider = create_search_provider(&config);
    let (url, headers) = request_of(provider.search("q", 1, SearchEvent::Start));
    assert!(headers.is_empty());
    assert_eq!(
        url,
        "https://www.googleapis.com/customsearch/v1?key=test-key&cx=test-key&q=q&num=1"
    );
}

#[test]
fn test_create_disabled_provider() {
    let config = SearchConfig { provider: SearchProviderKind::Disabled, api_key: None };
    let provider = create_search_provider(&config);
    let provider_ref: &dyn SearchProvider = provider.as_ref();
    let error = error_of(provider_ref.search("q", 1, SearchEvent::Start));
    assert!(matches!(error, SearchError::Disabled));
}

#[test]
fn test_duckduckgo_provider_new() {
    let _provider = DuckDuckGoProvider::new();
}

#[test]
fn test_brave_provider_search_url() {
    let query = "test query";
    let max_results: usize = 10;

    let url = format!(
        "https://api.search.brave.com/res/v1/web/search?q={}&count={}",
        query,
        max_results.min(50)
    );
    let built = BraveProvider::new("key".to_string()).search_url(query, max_results);
    assert_eq!(built, url);

    assert!(built.contains("test"));
    assert!(built.contains("query"));
    assert!(built.contains("count=10"));
}

#[test]
fn test_bing_search_url() {
    let query = "test query";
    let max_results: usize = 10;

    let url = format!(
        "https://api.bing.microsoft.com/v7.0/search?q={}&count={}",
        urlencoding::encode(query),
        max_results.min(50)
    );
    let built = BingProvider::new("key".to_string()).search_url(query, max_results);
    assert_eq!(built, url);

    assert!(built.contains("test"));
    assert!(built.contains("query"));
    assert!(built.contains("count=10"));
}

#[test]
fn test_google_search_url() {
    let query = "test query";
    let max_results: usize = 10;

    let url = format!(
        "https://www.googleapis.com/customsearch/v1?key={}&cx={}&q={}&num={}",
        urlencoding::encode("test-key"),
        urlencoding::encode("test-cx"),
        urlencoding::encode(query),
        max_results.min(10)
    );
    let built = GoogleProvider::new("test-key".to_string(), "test-cx".to_string())
        .search_url(query, max_results);
    assert_eq!(built, url);

    assert!(built.contains("test"));
    assert!(built.contains("query"));
    assert!(built.contains("num=10"));
}

#[test]
fn test_search_result_clone() {
    let result = SearchResult {
        title: "Test Title".to_string(),
        url: "https://example.com".to_string(),
        snippet: "Test snippet".to_string(),
    };

    let cloned = result.clone();
    assert_eq!(cloned.title, result.title);
    assert_eq!(cloned.url, result.url);
    assert_eq!(cloned.snippet, result.snippet);
}

#[test]
fn query_is_percent_encoded() {
    let url = DuckDuckGoProvider::new().search_url("a&b=c/ü~-._Z9\u{1f30d}");
    assert_eq!(
        url,
        "https://api.duckduckgo.com/?q=a%26b%3Dc%2F%C3%BC~-._Z9%F0%9F%8C%8D&format=json&no_html=1"
    );
    assert!(DuckDuckGoProvider::new().search_url("%41").contains("?q=%2541&"));
    assert_eq!(
        DuckDuckGoProvider::new().search_url("plain"),
        "https://api.duckduckgo.com/?q=plain&format=json&no_html=1"
    );
}

#[test]
fn counts_are_capped() {
    let brave = BraveProvider::new("k".to_string());
    assert!(brave.search_url("q", 0).ends_with("&count=0"));
    assert!(brave.search_url("q", 50).ends_with("&count=50"));
    assert!(brave.search_url("q", 12345).ends_with("&count=50"));
    let bing = BingProvider::new("k".to_string());
    assert!(bing.search_url("q", usize::MAX).ends_with("&count=50"));
    let google = GoogleProvider::new("k".to_string(), "c".to_string());
    assert!(google.search_url("q", 9).ends_with("&num=9"));
    assert!(google.search_url("q", 11).ends_with("&num=10"));
}

#[test]
fn requests_carry_their_headers() {
    let (url, headers) = request_of(
        BraveProvider::new("secret".to_string()).search("a b", 3, SearchEvent::Start),
    );
    assert_eq!(url, "https://api.search.brave.com/res/v1/web/search?q=a b&count=3");
    assert_eq!(
        headers,
        vec![
            ("X-Subscription-Token".to_string(), "secret".to_string()),
            ("Accept".to_string(), "application/json".to_string()),
        ]
    );
    let (url, headers) =
        request_of(BingProvider::new("secret".to_string()).search("a b", 3, SearchEvent::Start));
    assert_eq!(url, "https://api.bing.microsoft.com/v7.0/search?q=a%20b&count=3");
    assert_eq!(headers, vec![("Ocp-Apim-Subscription-Key".to_string(), "secret".to_string())]);
    let (_, headers) = request_of(DuckDuckGoProvider::new().search("a", 3, SearchEvent::Start));
    assert!(headers.is_empty());
}

#[test]
fn missing_key_is_empty() {
    let config = SearchConfig { provider: SearchProviderKind::Brave, api_key: None };
    let provider = create_search_provider(&config);
    let (_, headers) = request_of(provider.search("q", 1, SearchEvent::Start));
    assert_eq!(headers[0].1, "");
}

#[test]
fn services_read_what_the_response_allows() {
    let brave = BraveProvider::new("k".to_string());
    assert!(matches!(
        brave.search("q", 1, response(true)),
        SearchStep::Perform(IoAction::ReadJson)
    ));
    assert!(matches!(
        brave.search("q", 1, response(false)),
        SearchStep::Perform(IoAction::ReadBody)
    ));
    let ddg = DuckDuckGoProvider::new();
    assert!(matches!(ddg.search("q", 1, response(true)), SearchStep::Perform(IoAction::ReadJson)));
    let error = error_of(ddg.search("q", 1, response(false)));
    assert_eq!(
        error.message(),
        "Error: web_search DuckDuckGo search failed: HTTP 500 Internal Server Error"
    );
}

#[test]
fn service_errors_report_status_and_body() {
    let event = |body: Option<&str>| SearchEvent::ErrorBody {
        status: "403 Forbidden".to_string(),
        body: body.map(|b| b.to_string()),
    };
    let brave = error_of(BraveProvider::new("k".to_string()).search("q", 1, event(Some("no"))));
    assert!(matches!(brave, SearchError::Api { service: Service::Brave, .. }));
    assert_eq!(brave.message(), "Brave API error: 403 Forbidden - no");
    let bing = error_of(BingProvider::new("k".to_string()).search("q", 1, event(Some("no"))));
    assert_eq!(bing.message(), "Bing API error: 403 Forbidden - no");
    let google = error_of(
        GoogleProvider::new("k".to_string(), "c".to_string()).search("q", 1, event(None)),
    );
    assert_eq!(google.message(), "Google API error: 403 Forbidden - ");
    let ddg = error_of(DuckDuckGoProvider::new().search("q", 1, event(Some("no"))));
    assert_eq!(ddg.message(), "Error: web_search DuckDuckGo search failed: HTTP 403 Forbidden");
}

#[test]
fn transport_failures_pass_through() {
    for kind in [
        SearchProviderKind::DuckDuckGo,
        SearchProviderKind::Brave,
        SearchProviderKind::Bing,
        SearchProviderKind::Google,
    ] {
        let provider = create_search_provider(&SearchConfig { provider: kind, api_key: None });
        let error =
            error_of(provider.search("q", 1, SearchEvent::Failed("connection reset".to_string())));
        assert!(matches!(error, SearchError::Transport(_)));
        assert_eq!(error.message(), "connection reset");
    }
}

#[test]
fn disabled_provider_never_searches() {
    for event in [SearchEvent::Start, response(true), SearchEvent::Reply(Json::Other)] {
        let error = error_of(DisabledProvider.search("q", 1, event));
        assert_eq!(
            error.message(),
            "Search provider is disabled in config. Set search.provider to 'disabled' to disable web search."
        );
    }
}

#[test]
fn brave_results_are_read() {
    let item = |title: &str| {
        object(vec![("title", text(title)), ("url", text("u")), ("description", text("d"))])
    };
    let json = || {
        object(vec![(
            "web",
            object(vec![(
                "results",
                Json::Array(vec![item("a"), object(vec![("title", text("x"))]), item("b"), item("c")]),
            )]),
        )])
    };
    let brave = BraveProvider::new("k".to_string());
    let all = results_of(brave.search("q", 10, SearchEvent::Reply(json())));
    assert_eq!(triples(&all), vec![("a", "u", "d"), ("b", "u", "d"), ("c", "u", "d")]);
    let some = results_of(brave.search("q", 3, SearchEvent::Reply(json())));
    assert_eq!(triples(&some), vec![("a", "u", "d"), ("b", "u", "d")]);
    assert!(results_of(brave.search("q", 0, SearchEvent::Reply(json()))).is_empty());
    assert!(results_of(brave.search("q", 5, SearchEvent::Reply(Json::Other))).is_empty());
}

#[test]
fn bing_and_google_results_are_read() {
    let bing = object(vec![(
        "webPages",
        object(vec![(
            "value",
            Json::Array(vec![object(vec![
                ("name", text("n")),
                ("url", text("u")),
                ("snippet", text("s")),
            ])]),
        )]),
    )]);
    let results =
        results_of(BingProvider::new("k".to_string()).search("q", 5, SearchEvent::Reply(bing)));
    assert_eq!(triples(&results), vec![("n", "u", "s")]);
    let google = object(vec![(
        "items",
        Json::Array(vec![
            object(vec![("title", text("t")), ("link", text("l")), ("snippet", text("s"))]),
            object(vec![("title", text("t")), ("link", Json::Other), ("snippet", text("s"))]),
        ]),
    )]);
    let results = results_of(
        GoogleProvider::new("k".to_string(), "c".to_string())
            .search("q", 5, SearchEvent::Reply(google)),
    );
    assert_eq!(triples(&results), vec![("t", "l", "s")]);
}

#[test]
fn titles_lose_their_tags() {
    assert_eq!(extract_ddg_title_from_json("<a href=\"x\">Rust</a> language"), "Rust language");
    assert_eq!(extract_ddg_title_from_json("  plain \n"), "plain");
    assert_eq!(extract_ddg_title_from_json("a <> b < c"), "a <> b < c");
    assert_eq!(extract_ddg_title_from_json("<<a>b>"), "b>");
    assert_eq!(extract_ddg_title_from_json("x<a\nb>y"), "xy");
    assert_eq!(extract_ddg_title_from_json("<><b>z"), "<>z");
    assert_eq!(extract_ddg_title_from_json("<b></b>"), "");
    assert_eq!(extract_ddg_title_from_json("\u{3000}<i>世界</i>\u{a0}"), "世界");
    assert_eq!(extract_ddg_url_from_json(" https://e.org "), " https://e.org ");
}

#[test]
fn titles_without_tags_are_kept() {
    for title in ["<>", "a < b", "a <> b > c", "> x <", ""] {
        assert_eq!(extract_ddg_title_from_json(title), title);
    }
    for markup in [" <b> x </b> ", "<<a>b>", "<> <i>y"] {
        let title = extract_ddg_title_from_json(markup);
        assert_eq!(extract_ddg_title_from_json(&title), title);
    }
}

#[test]
fn ddg_limit_without_a_list_of_results() {
    let json = |results: Vec<(&str, Json)>| {
        let mut entries = vec![
            ("Heading", text("H")),
            ("AbstractText", text("t")),
            ("AbstractURL", text("https://h")),
            (
                "RelatedTopics",
                Json::Array(vec![
                    topic("https://a", "A", ""),
                    topic("https://b", "B", ""),
                    topic("https://c", "C", ""),
                ]),
            ),
        ];
        entries.extend(results);
        object(entries)
    };
    for limit in 0..3 {
        assert_eq!(parse_ddg_results(&json(vec![]), limit).len(), 2);
        assert_eq!(parse_ddg_results(&json(vec![("Results", Json::Array(vec![]))]), limit).len(), 2);
    }
    assert_eq!(parse_ddg_results(&json(vec![]), 3).len(), 3);
}

#[test]
fn ddg_reply_is_read_in_order() {
    let json = object(vec![
        ("Heading", text("Rust")),
        ("AbstractText", text("A language")),
        ("AbstractURL", text("https://rust")),
        (
            "RelatedTopics",
            Json::Array(vec![
                topic("https://a", "<a>A</a>", "about a"),
                topic("https://a", "<a>again</a>", "same address"),
                topic("https://rust", "<a>R</a>", "same as abstract"),
                topic("https://b", "<br>", "no title"),
                topic("", "<a>C</a>", "no address"),
                object(vec![("Name", text("group"))]),
                object(vec![("FirstURL", text("https://d")), ("Result", text("D"))]),
            ]),
        ),
        ("Results", Json::Array(vec![topic("https://e", "E", "about e")])),
    ]);
    let results = parse_ddg_results(&json, 10);
    assert_eq!(
        triples(&results),
        vec![
            ("Rust", "https://rust", "A language"),
            ("A", "https://a", "about a"),
            ("D", "https://d", ""),
            ("E", "https://e", "about e"),
        ]
    );
    let first = parse_ddg_results(&json, 2);
    assert_eq!(
        triples(&first),
        vec![
            ("Rust", "https://rust", "A language"),
            ("A", "https://a", "about a"),
            ("E", "https://e", "about e"),
        ]
    );
    assert_eq!(parse_ddg_results(&json, 0).len(), 3);
}

#[test]
fn ddg_abstract_needs_all_its_parts() {
    let json = object(vec![("Heading", text("H")), ("AbstractText", text("t"))]);
    assert!(parse_ddg_results(&json, 5).is_empty());
    let json = object(vec![
        ("Heading", text("")),
        ("AbstractText", text("t")),
        ("AbstractURL", text("u")),
    ]);
    assert!(parse_ddg_results(&json, 5).is_empty());
    let json = object(vec![
        ("Heading", text("H")),
        ("AbstractText", text("")),
        ("AbstractURL", text("")),
    ]);
    assert_eq!(triples(&parse_ddg_results(&json, 5)), vec![("H", "", "")]);
    let error = error_of(DuckDuckGoProvider::new().search("cats", 5, SearchEvent::Reply(Json::Other)));
    assert!(matches!(error, SearchError::NoResults { .. }));
    assert_eq!(error.message(), "Error: web_search cannot get results for query: cats");
    assert_eq!(
        results_of(DuckDuckGoProvider::new().search("cats", 5, SearchEvent::Reply(json))).len(),
        1
    );
}

#[test]
fn seen_addresses_are_found() {
    let results = vec![result("a", "u1", ""), result("b", "u2", "")];
    assert!(seen_url(&results, "u2"));
    assert!(!seen_url(&results, "u3"));
    assert!(!seen_url(&[], "u1"));
}

#[test]
fn json_members_are_found_by_key() {
    let json = object(vec![("a", text("1")), ("a", text("2")), ("b", Json::Array(vec![]))]);
    assert_eq!(json.get_text("a"), Some("1"));
    assert_eq!(json.get_text("b"), None);
    assert_eq!(json.get_text_or_empty("c"), "");
    assert!(json.get_array("b").is_some());
    assert!(json.get_array("a").is_none());
    assert!(text("x").get("a").is_none());
}
