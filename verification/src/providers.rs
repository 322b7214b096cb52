//! Search providers: which requests they make and how they read the replies.
//!
//! A provider does no input or output itself. Its `search` is told what has happened and says what
//! is to be done next.

use vstd::prelude::*;
use vstd::string::*;

use crate::ddg::{ddg_results, parse_ddg_results};
use crate::json::{array_member, member, text_member, Json};
use crate::percent::{percent_encode, percent_encoded};
use crate::protocol::{
    ErrorModel, HttpRequest, IoAction, IoModel, RequestModel, ResultModel, SearchError,
    SearchEvent, SearchResult, SearchStep, Service, StepModel,
};
use crate::text::{append_decimal, decimal};

verus! {

/// A source of search results.
pub trait SearchProvider: Send + Sync {
    /// The step that follows an event.
    spec fn next_step(&self, query: Seq<char>, max_results: usize, event: SearchEvent) -> StepModel;

    /// Says what is to be done after an event of a search for `query`.
    fn search(&self, query: &str, max_results: usize, event: SearchEvent) -> (step: SearchStep)
        ensures
            step.deep_view() == self.next_step(query@, max_results, event),
    ;
}

/// The smaller of two counts.
pub open spec fn capped(n: nat, limit: nat) -> nat {
    if n < limit {
        n
    } else {
        limit
    }
}

fn at_most(n: usize, limit: usize) -> (out: usize)
    ensures
        out == capped(n as nat, limit as nat),
{
    if n < limit {
        n
    } else {
        limit
    }
}

/// The body of a response without success; empty where it could not be read.
pub open spec fn body_text(body: Option<String>) -> Seq<char> {
    match body {
        Some(text) => text@,
        None => Seq::empty(),
    }
}

/// The steps that every service takes between its request and its reply: a failed request ends the
/// search; a successful response is read as JSON; the body of any other response is read and
/// reported as the service's error.
pub open spec fn service_step(
    service: Service,
    request: RequestModel,
    results: spec_fn(Json) -> Seq<ResultModel>,
    event: SearchEvent,
) -> StepModel {
    match event {
        SearchEvent::Start => StepModel::Perform(IoModel::Send(request)),
        SearchEvent::Failed(message) => StepModel::Finish(Err(ErrorModel::Transport(message@))),
        SearchEvent::Response { success, status } => StepModel::Perform(
            if success {
                IoModel::ReadJson
            } else {
                IoModel::ReadBody
            },
        ),
        SearchEvent::ErrorBody { status, body } => StepModel::Finish(
            Err(ErrorModel::Api { service, status: status@, body: body_text(body) }),
        ),
        SearchEvent::Reply(json) => StepModel::Finish(Ok(results(json))),
    }
}

/// The step of a service after an event that is neither the start nor a reply.
fn step_between(service: Service, event: SearchEvent) -> (step: SearchStep)
    requires
        !(event is Start),
        !(event is Reply),
    ensures
        forall|request: RequestModel, results: spec_fn(Json) -> Seq<ResultModel>|
            step.deep_view() == #[trigger] service_step(service, request, results, event),
{
    match event {
        SearchEvent::Failed(message) => SearchStep::Finish(Err(SearchError::Transport(message))),
        SearchEvent::Response { success, .. } => {
            if success {
                SearchStep::Perform(IoAction::ReadJson)
            } else {
                SearchStep::Perform(IoAction::ReadBody)
            }
        },
        SearchEvent::ErrorBody { status, body } => {
            let body = match body {
                Some(text) => text,
                None => String::new(),
            };
            SearchStep::Finish(Err(SearchError::Api { service, status, body }))
        },
        SearchEvent::Start | SearchEvent::Reply(_) => vstd::pervasive::unreached(),
    }
}

/// The result that an item gives: it needs a title, an address and a snippet under the given keys.
pub open spec fn item_result(
    item: Json,
    title_key: Seq<char>,
    url_key: Seq<char>,
    snippet_key: Seq<char>,
) -> Option<ResultModel> {
    match (text_member(item, title_key), text_member(item, url_key), text_member(item, snippet_key)) {
        (Some(title), Some(url), Some(snippet)) => Some(ResultModel { title, url, snippet }),
        _ => None,
    }
}

/// The results of the first `limit` items.
pub open spec fn item_results(
    items: Seq<Json>,
    title_key: Seq<char>,
    url_key: Seq<char>,
    snippet_key: Seq<char>,
    limit: nat,
) -> Seq<ResultModel> {
    items.take(capped(items.len(), limit) as int).filter_map(
        |item: Json| item_result(item, title_key, url_key, snippet_key),
    )
}

fn read_items(
    items: &Vec<Json>,
    title_key: &str,
    url_key: &str,
    snippet_key: &str,
    max_results: usize,
) -> (results: Vec<SearchResult>)
    ensures
        results.deep_view() == item_results(
            items@,
            title_key@,
            url_key@,
            snippet_key@,
            max_results as nat,
        ),
{
    let count = at_most(items.len(), max_results);
    let ghost pick = |item: Json| item_result(item, title_key@, url_key@, snippet_key@);
    let ghost taken = items@.take(count as int);
    let mut results: Vec<SearchResult> = Vec::new();
    let mut i: usize = 0;
    assert(results.deep_view() =~= taken.take(0).filter_map(pick));
    while i < count
        invariant
            i <= count <= items.len(),
            taken == items@.take(count as int),
            pick == |item: Json| item_result(item, title_key@, url_key@, snippet_key@),
            results.deep_view() == taken.take(i as int).filter_map(pick),
        decreases count - i,
    {
        let ghost before = results.deep_view();
        let item = &items[i];
        proof {
            taken.lemma_filter_map_take_succ(pick, i as int);
            assert(taken[i as int] == *item);
        }
        if let Some(title) = item.get_text(title_key) {
            if let Some(url) = item.get_text(url_key) {
                if let Some(snippet) = item.get_text(snippet_key) {
                    results.push(
                        SearchResult {
                            title: title.to_owned(),
                            url: url.to_owned(),
                            snippet: snippet.to_owned(),
                        },
                    );
                    assert(results.deep_view() =~= before.push(pick(*item)->0));
                    assert(results.deep_view() =~= taken.take(i + 1).filter_map(pick));
                }
            }
        }
        i = i + 1;
    }
    assert(taken.take(count as int) =~= taken);
    results
}

/// The items under two nested keys; none where either is missing.
pub open spec fn nested_items(json: Json, outer: Seq<char>, inner: Seq<char>) -> Seq<Json> {
    match member(json, outer) {
        Some(value) => match array_member(value, inner) {
            Some(items) => items,
            None => Seq::empty(),
        },
        None => Seq::empty(),
    }
}

/// The provider of switched-off search.
#[derive(Clone, Copy, Debug)]
pub struct DisabledProvider;

impl SearchProvider for DisabledProvider {
    open spec fn next_step(
        &self,
        query: Seq<char>,
        max_results: usize,
        event: SearchEvent,
    ) -> StepModel {
        StepModel::Finish(Err(ErrorModel::Disabled))
    }

    fn search(&self, query: &str, max_results: usize, event: SearchEvent) -> (step: SearchStep) {
        SearchStep::Finish(Err(SearchError::Disabled))
    }
}

/// Search by DuckDuckGo's public API.
pub struct DuckDuckGoProvider {}

/// The address of a DuckDuckGo search.
pub open spec fn ddg_url(query: Seq<char>) -> Seq<char> {
    "https://api.duckduckgo.com/?q="@ + percent_encoded(query) + "&format=json&no_html=1"@
}

impl DuckDuckGoProvider {
    pub fn new() -> (provider: Self)
        ensures
            provider == (DuckDuckGoProvider {  }),
    {
        DuckDuckGoProvider {  }
    }

    /// The address of a search.
    pub fn search_url(&self, query: &str) -> (url: String)
        ensures
            url@ == ddg_url(query@),
    {
        let mut url = "https://api.duckduckgo.com/?q=".to_owned();
        url.append(percent_encode(query).as_str());
        url.append("&format=json&no_html=1");
        url
    }
}

impl SearchProvider for DuckDuckGoProvider {
    open spec fn next_step(
        &self,
        query: Seq<char>,
        max_results: usize,
        event: SearchEvent,
    ) -> StepModel {
        match event {
            SearchEvent::Start => StepModel::Perform(
                IoModel::Send(RequestModel { url: ddg_url(query), headers: Seq::empty() }),
            ),
            SearchEvent::Failed(message) => StepModel::Finish(Err(ErrorModel::Transport(message@))),
            SearchEvent::Response { success, status } => if success {
                StepModel::Perform(IoModel::ReadJson)
            } else {
                StepModel::Finish(Err(ErrorModel::Status { status: status@ }))
            },
            SearchEvent::ErrorBody { status, body } => StepModel::Finish(
                Err(ErrorModel::Status { status: status@ }),
            ),
            SearchEvent::Reply(json) => {
                let results = ddg_results(json, max_results as nat);
                if results.len() == 0 {
                    StepModel::Finish(Err(ErrorModel::NoResults { query }))
                } else {
                    StepModel::Finish(Ok(results))
                }
            },
        }
    }

    fn search(&self, query: &str, max_results: usize, event: SearchEvent) -> (step: SearchStep) {
        match event {
            SearchEvent::Start => {
                let request = HttpRequest { url: self.search_url(query), headers: Vec::new() };
                assert(request.deep_view() =~= (RequestModel {
                    url: ddg_url(query@),
                    headers: Seq::empty(),
                }));
                SearchStep::Perform(IoAction::Send(request))
            },
            SearchEvent::Failed(message) => SearchStep::Finish(
                Err(SearchError::Transport(message)),
            ),
            SearchEvent::Response { success, status } => {
                if success {
                    SearchStep::Perform(IoAction::ReadJson)
                } else {
                    SearchStep::Finish(Err(SearchError::Status { status }))
                }
            },
            SearchEvent::ErrorBody { status, .. } => SearchStep::Finish(
                Err(SearchError::Status { status }),
            ),
            SearchEvent::Reply(json) => {
                let results = parse_ddg_results(&json, max_results);
                assert(results.deep_view().len() == results.len());
                if results.is_empty() {
                    SearchStep::Finish(Err(SearchError::NoResults { query: query.to_owned() }))
                } else {
                    SearchStep::Finish(Ok(results))
                }
            },
        }
    }
}

/// Search by Brave's API.
pub struct BraveProvider {
    api_key: String,
}

impl DeepView for BraveProvider {
    type V = Seq<char>;

    closed spec fn deep_view(&self) -> Seq<char> {
        self.api_key@
    }
}

/// The address of a Brave search. The query stands in it as it is.
pub open spec fn brave_url(query: Seq<char>, max_results: nat) -> Seq<char> {
    "https://api.search.brave.com/res/v1/web/search?q="@ + query + "&count="@ + decimal(
        capped(max_results, 50),
    )
}

/// The request of a Brave search.
pub open spec fn brave_request(
    api_key: Seq<char>,
    query: Seq<char>,
    max_results: nat,
) -> RequestModel {
    RequestModel {
        url: brave_url(query, max_results),
        headers: seq![("X-Subscription-Token"@, api_key), ("Accept"@, "application/json"@)],
    }
}

/// The results of a reply of Brave.
pub open spec fn brave_results(json: Json, max_results: nat) -> Seq<ResultModel> {
    item_results(
        nested_items(json, "web"@, "results"@),
        "title"@,
        "url"@,
        "description"@,
        max_results,
    )
}

/// The steps of a Brave search.
pub open spec fn brave_step(
    api_key: Seq<char>,
    query: Seq<char>,
    max_results: nat,
    event: SearchEvent,
) -> StepModel {
    service_step(
        Service::Brave,
        brave_request(api_key, query, max_results),
        |json: Json| brave_results(json, max_results),
        event,
    )
}

impl BraveProvider {
    pub fn new(api_key: String) -> (provider: Self)
        ensures
            provider.deep_view() == api_key@,
    {
        BraveProvider { api_key }
    }

    /// The address of a search.
    pub fn search_url(&self, query: &str, max_results: usize) -> (url: String)
        ensures
            url@ == brave_url(query@, max_results as nat),
    {
        let mut url = "https://api.search.brave.com/res/v1/web/search?q=".to_owned();
        url.append(query);
        url.append("&count=");
        append_decimal(&mut url, at_most(max_results, 50));
        url
    }

    /// Says what is to be done after an event of a search for `query`.
    pub fn search(&self, query: &str, max_results: usize, event: SearchEvent) -> (step: SearchStep)
        ensures
            step.deep_view() == brave_step(self.deep_view(), query@, max_results as nat, event),
    {
        match event {
            SearchEvent::Start => {
                let request = HttpRequest {
                    url: self.search_url(query, max_results),
                    headers: vec![
                        ("X-Subscription-Token".to_owned(), self.api_key.clone()),
                        ("Accept".to_owned(), "application/json".to_owned()),
                    ],
                };
                assert(request.deep_view() =~= brave_request(
                    self.deep_view(),
                    query@,
                    max_results as nat,
                ));
                SearchStep::Perform(IoAction::Send(request))
            },
            SearchEvent::Reply(json) => {
                let none: Vec<Json> = Vec::new();
                let items = match json.get("web") {
                    Some(web) => match web.get_array("results") {
                        Some(items) => items,
                        None => &none,
                    },
                    None => &none,
                };
                assert(items@ =~= nested_items(json, "web"@, "results"@));
                SearchStep::Finish(
                    Ok(read_items(items, "title", "url", "description", max_results)),
                )
            },
            other => step_between(Service::Brave, other),
        }
    }
}

impl SearchProvider for BraveProvider {
    open spec fn next_step(
        &self,
        query: Seq<char>,
        max_results: usize,
        event: SearchEvent,
    ) -> StepModel {
        brave_step(self.deep_view(), query, max_results as nat, event)
    }

    fn search(&self, query: &str, max_results: usize, event: SearchEvent) -> (step: SearchStep) {
        BraveProvider::search(self, query, max_results, event)
    }
}

/// Search by Bing's API.
pub struct BingProvider {
    api_key: String,
}

impl DeepView for BingProvider {
    type V = Seq<char>;

    closed spec fn deep_view(&self) -> Seq<char> {
        self.api_key@
    }
}

/// The address of a Bing search.
pub open spec fn bing_url(query: Seq<char>, max_results: nat) -> Seq<char> {
    "https://api.bing.microsoft.com/v7.0/search?q="@ + percent_encoded(query) + "&count="@
        + decimal(capped(max_results, 50))
}

/// The request of a Bing search.
pub open spec fn bing_request(
    api_key: Seq<char>,
    query: Seq<char>,
    max_results: nat,
) -> RequestModel {
    RequestModel {
        url: bing_url(query, max_results),
        headers: seq![("Ocp-Apim-Subscription-Key"@, api_key)],
    }
}

/// The results of a reply of Bing.
pub open spec fn bing_results(json: Json, max_results: nat) -> Seq<ResultModel> {
    item_results(
        nested_items(json, "webPages"@, "value"@),
        "name"@,
        "url"@,
        "snippet"@,
        max_results,
    )
}

/// The steps of a Bing search.
pub open spec fn bing_step(
    api_key: Seq<char>,
    query: Seq<char>,
    max_results: nat,
    event: SearchEvent,
) -> StepModel {
    service_step(
        Service::Bing,
        bing_request(api_key, query, max_results),
        |json: Json| bing_results(json, max_results),
        event,
    )
}

impl BingProvider {
    pub fn new(api_key: String) -> (provider: Self)
        ensures
            provider.deep_view() == api_key@,
    {
        BingProvider { api_key }
    }

    /// The address of a search.
    pub fn search_url(&self, query: &str, max_results: usize) -> (url: String)
        ensures
            url@ == bing_url(query@, max_results as nat),
    {
        let mut url = "https://api.bing.microsoft.com/v7.0/search?q=".to_owned();
        url.append(percent_encode(query).as_str());
        url.append("&count=");
        append_decimal(&mut url, at_most(max_results, 50));
        url
    }

    /// Says what is to be done after an event of a search for `query`.
    pub fn search(&self, query: &str, max_results: usize, event: SearchEvent) -> (step: SearchStep)
        ensures
            step.deep_view() == bing_step(self.deep_view(), query@, max_results as nat, event),
    {
        match event {
            SearchEvent::Start => {
                let request = HttpRequest {
                    url: self.search_url(query, max_results),
                    headers: vec![("Ocp-Apim-Subscription-Key".to_owned(), self.api_key.clone())],
                };
                assert(request.deep_view() =~= bing_request(
                    self.deep_view(),
                    query@,
                    max_results as nat,
                ));
                SearchStep::Perform(IoAction::Send(request))
            },
            SearchEvent::Reply(json) => {
                let none: Vec<Json> = Vec::new();
                let items = match json.get("webPages") {
                    Some(pages) => match pages.get_array("value") {
                        Some(items) => items,
                        None => &none,
                    },
                    None => &none,
                };
                assert(items@ =~= nested_items(json, "webPages"@, "value"@));
                SearchStep::Finish(Ok(read_items(items, "name", "url", "snippet", max_results)))
            },
            other => step_between(Service::Bing, other),
        }
    }
}

impl SearchProvider for BingProvider {
    open spec fn next_step(
        &self,
        query: Seq<char>,
        max_results: usize,
        event: SearchEvent,
    ) -> StepModel {
        bing_step(self.deep_view(), query, max_results as nat, event)
    }

    fn search(&self, query: &str, max_results: usize, event: SearchEvent) -> (step: SearchStep) {
        BingProvider::search(self, query, max_results, event)
    }
}

/// Search by Google's custom search API.
pub struct GoogleProvider {
    api_key: String,
    cx: String,
}

/// Model of a [`GoogleProvider`].
#[verifier::ext_equal]
pub struct GoogleModel {
    pub api_key: Seq<char>,
    pub cx: Seq<char>,
}

impl DeepView for GoogleProvider {
    type V = GoogleModel;

    closed spec fn deep_view(&self) -> GoogleModel {
        GoogleModel { api_key: self.api_key@, cx: self.cx@ }
    }
}

/// The address of a Google search.
pub open spec fn google_url(provider: GoogleModel, query: Seq<char>, max_results: nat) -> Seq<
    char,
> {
    "https://www.googleapis.com/customsearch/v1?key="@ + percent_encoded(provider.api_key) + "&cx="@
        + percent_encoded(provider.cx) + "&q="@ + percent_encoded(query) + "&num="@ + decimal(
        capped(max_results, 10),
    )
}

/// The items of a reply of Google.
pub open spec fn google_items(json: Json) -> Seq<Json> {
    match array_member(json, "items"@) {
        Some(items) => items,
        None => Seq::empty(),
    }
}

/// The results of a reply of Google.
pub open spec fn google_results(json: Json, max_results: nat) -> Seq<ResultModel> {
    item_results(google_items(json), "title"@, "link"@, "snippet"@, max_results)
}

/// The steps of a Google search.
pub open spec fn google_step(
    provider: GoogleModel,
    query: Seq<char>,
    max_results: nat,
    event: SearchEvent,
) -> StepModel {
    service_step(
        Service::Google,
        RequestModel { url: google_url(provider, query, max_results), headers: Seq::empty() },
        |json: Json| google_results(json, max_results),
        event,
    )
}

impl GoogleProvider {
    pub fn new(api_key: String, cx: String) -> (provider: Self)
        ensures
            provider.deep_view() == (GoogleModel { api_key: api_key@, cx: cx@ }),
    {
        GoogleProvider { api_key, cx }
    }

    /// The address of a search.
    pub fn search_url(&self, query: &str, max_results: usize) -> (url: String)
        ensures
            url@ == google_url(self.deep_view(), query@, max_results as nat),
    {
        let mut url = "https://www.googleapis.com/customsearch/v1?key=".to_owned();
        url.append(percent_encode(self.api_key.as_str()).as_str());
        url.append("&cx=");
        url.append(percent_encode(self.cx.as_str()).as_str());
        url.append("&q=");
        url.append(percent_encode(query).as_str());
        url.append("&num=");
        append_decimal(&mut url, at_most(max_results, 10));
        url
    }

    /// Says what is to be done after an event of a search for `query`.
    pub fn search(&self, query: &str, max_results: usize, event: SearchEvent) -> (step: SearchStep)
        ensures
            step.deep_view() == google_step(self.deep_view(), query@, max_results as nat, event),
    {
        match event {
            SearchEvent::Start => {
                let request = HttpRequest {
                    url: self.search_url(query, max_results),
                    headers: Vec::new(),
                };
                assert(request.deep_view() =~= (RequestModel {
                    url: google_url(self.deep_view(), query@, max_results as nat),
                    headers: Seq::empty(),
                }));
                SearchStep::Perform(IoAction::Send(request))
            },
            SearchEvent::Reply(json) => {
                let none: Vec<Json> = Vec::new();
                let items = match json.get_array("items") {
                    Some(items) => items,
                    None => &none,
                };
                assert(items@ =~= google_items(json));
                SearchStep::Finish(Ok(read_items(items, "title", "link", "snippet", max_results)))
            },
            other => step_between(Service::Google, other),
        }
    }
}

impl SearchProvider for GoogleProvider {
    open spec fn next_step(
        &self,
        query: Seq<char>,
        max_results: usize,
        event: SearchEvent,
    ) -> StepModel {
        google_step(self.deep_view(), query, max_results as nat, event)
    }

    fn search(&self, query: &str, max_results: usize, event: SearchEvent) -> (step: SearchStep) {
        GoogleProvider::search(self, query, max_results, event)
    }
}


proof fn lemma_item_results_len(
    items: Seq<Json>,
    title_key: Seq<char>,
    url_key: Seq<char>,
    snippet_key: Seq<char>,
    limit: nat,
)
    ensures
        item_results(items, title_key, url_key, snippet_key, limit).len() <= limit,
{
    lemma_filter_map_len(
        items.take(capped(items.len(), limit) as int),
        |item: Json| item_result(item, title_key, url_key, snippet_key),
    );
}

proof fn lemma_filter_map_len(items: Seq<Json>, pick: spec_fn(Json) -> Option<ResultModel>)
    ensures
        items.filter_map(pick).len() <= items.len(),
    decreases items.len(),
{
    reveal(Seq::filter_map);
    if items.len() > 0 {
        lemma_filter_map_len(items.drop_last(), pick);
    }
}

/// Brave, Bing and Google never give more results than were asked for.
pub proof fn law_results_limited(json: Json, max_results: nat)
    ensures
        brave_results(json, max_results).len() <= max_results,
        bing_results(json, max_results).len() <= max_results,
        google_results(json, max_results).len() <= max_results,
{
    lemma_item_results_len(
        nested_items(json, "web"@, "results"@),
        "title"@,
        "url"@,
        "description"@,
        max_results,
    );
    lemma_item_results_len(
        nested_items(json, "webPages"@, "value"@),
        "name"@,
        "url"@,
        "snippet"@,
        max_results,
    );
    lemma_item_results_len(google_items(json), "title"@, "link"@, "snippet"@, max_results);
}

} // verus!
