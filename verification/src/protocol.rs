//! What a search exchanges with the outside: results, errors, and the steps of a search.

use vstd::prelude::*;
use vstd::string::*;

use crate::json::Json;

verus! {

/// One search result.
#[derive(Debug)]
pub struct SearchResult {
    pub title: String,
    pub url: String,
    pub snippet: String,
}

impl Clone for SearchResult {
    fn clone(&self) -> (copy: Self)
        ensures
            copy == *self,
    {
        SearchResult {
            title: self.title.clone(),
            url: self.url.clone(),
            snippet: self.snippet.clone(),
        }
    }
}

/// Model of a [`SearchResult`].
#[verifier::ext_equal]
pub struct ResultModel {
    pub title: Seq<char>,
    pub url: Seq<char>,
    pub snippet: Seq<char>,
}

impl DeepView for SearchResult {
    type V = ResultModel;

    open spec fn deep_view(&self) -> ResultModel {
        ResultModel { title: self.title@, url: self.url@, snippet: self.snippet@ }
    }
}

/// A search service that answers a failed request with a body worth reporting.
#[derive(Clone, Copy, Debug, PartialEq, Eq, Structural)]
pub enum Service {
    Brave,
    Bing,
    Google,
}

/// Why a search gave no results.
#[derive(Debug)]
pub enum SearchError {
    /// Search is switched off.
    Disabled,
    /// The request could not be sent or its reply could not be read; the message says why.
    Transport(String),
    /// DuckDuckGo answered with a status that is no success.
    Status { status: String },
    /// A service answered with a status that is no success.
    Api { service: Service, status: String, body: String },
    /// The search gave nothing for the query.
    NoResults { query: String },
    /// The call lacks what the tool requires; the message says what.
    InvalidCall(String),
    /// The tool has no provider to ask.
    NoProvider,
}

/// Model of a [`SearchError`].
#[verifier::ext_equal]
pub enum ErrorModel {
    Disabled,
    Transport(Seq<char>),
    Status { status: Seq<char> },
    Api { service: Service, status: Seq<char>, body: Seq<char> },
    NoResults { query: Seq<char> },
    InvalidCall(Seq<char>),
    NoProvider,
}

impl DeepView for SearchError {
    type V = ErrorModel;

    open spec fn deep_view(&self) -> ErrorModel {
        match self {
            SearchError::Disabled => ErrorModel::Disabled,
            SearchError::Transport(message) => ErrorModel::Transport(message@),
            SearchError::Status { status } => ErrorModel::Status { status: status@ },
            SearchError::Api { service, status, body } => ErrorModel::Api {
                service: *service,
                status: status@,
                body: body@,
            },
            SearchError::NoResults { query } => ErrorModel::NoResults { query: query@ },
            SearchError::InvalidCall(message) => ErrorModel::InvalidCall(message@),
            SearchError::NoProvider => ErrorModel::NoProvider,
        }
    }
}

/// What a service's error messages start with.
pub open spec fn service_prefix(service: Service) -> Seq<char> {
    match service {
        Service::Brave => "Brave API error: "@,
        Service::Bing => "Bing API error: "@,
        Service::Google => "Google API error: "@,
    }
}

/// The message of an error.
pub open spec fn error_message(error: ErrorModel) -> Seq<char> {
    match error {
        ErrorModel::Disabled =>
            "Search provider is disabled in config. Set search.provider to 'disabled' to disable web search."@,
        ErrorModel::Transport(message) => message,
        ErrorModel::Status { status } => "Error: web_search DuckDuckGo search failed: HTTP "@
            + status,
        ErrorModel::Api { service, status, body } => service_prefix(service) + status + " - "@
            + body,
        ErrorModel::NoResults { query } => "Error: web_search cannot get results for query: "@
            + query,
        ErrorModel::InvalidCall(message) => message,
        ErrorModel::NoProvider =>
            "Error: web_search No search provider configured. Add to config: `tools.search.provider`"@,
    }
}

impl SearchError {
    /// The message of the error.
    pub fn message(&self) -> (message: String)
        ensures
            message@ == error_message(self.deep_view()),
    {
        match self {
            SearchError::Disabled => {
                "Search provider is disabled in config. Set search.provider to 'disabled' to disable web search.".to_owned()
            },
            SearchError::Transport(message) => message.clone(),
            SearchError::Status { status } => {
                let mut out = "Error: web_search DuckDuckGo search failed: HTTP ".to_owned();
                out.append(status.as_str());
                out
            },
            SearchError::Api { service, status, body } => {
                let mut out = match service {
                    Service::Brave => "Brave API error: ".to_owned(),
                    Service::Bing => "Bing API error: ".to_owned(),
                    Service::Google => "Google API error: ".to_owned(),
                };
                out.append(status.as_str());
                out.append(" - ");
                out.append(body.as_str());
                out
            },
            SearchError::NoResults { query } => {
                let mut out = "Error: web_search cannot get results for query: ".to_owned();
                out.append(query.as_str());
                out
            },
            SearchError::InvalidCall(message) => message.clone(),
            SearchError::NoProvider => {
                "Error: web_search No search provider configured. Add to config: `tools.search.provider`".to_owned()
            },
        }
    }
}

/// A GET request to send.
#[derive(Debug)]
pub struct HttpRequest {
    pub url: String,
    pub headers: Vec<(String, String)>,
}

/// Model of an [`HttpRequest`].
#[verifier::ext_equal]
pub struct RequestModel {
    pub url: Seq<char>,
    pub headers: Seq<(Seq<char>, Seq<char>)>,
}

impl DeepView for HttpRequest {
    type V = RequestModel;

    open spec fn deep_view(&self) -> RequestModel {
        RequestModel { url: self.url@, headers: self.headers.deep_view() }
    }
}

/// Outside work that a search asks for.
#[derive(Debug)]
pub enum IoAction {
    /// Send the request and report its response.
    Send(HttpRequest),
    /// Read the body of the response as JSON.
    ReadJson,
    /// Read the body of the response as text.
    ReadBody,
}

/// Model of an [`IoAction`].
#[verifier::ext_equal]
pub enum IoModel {
    Send(RequestModel),
    ReadJson,
    ReadBody,
}

impl DeepView for IoAction {
    type V = IoModel;

    open spec fn deep_view(&self) -> IoModel {
        match self {
            IoAction::Send(request) => IoModel::Send(request.deep_view()),
            IoAction::ReadJson => IoModel::ReadJson,
            IoAction::ReadBody => IoModel::ReadBody,
        }
    }
}

/// What has happened since the last step of a search.
pub enum SearchEvent {
    /// Nothing yet: the search begins.
    Start,
    /// The outside work failed; the message says why.
    Failed(String),
    /// The request was answered.
    Response { success: bool, status: String },
    /// The body of a response without success was read, or could not be read.
    ErrorBody { status: String, body: Option<String> },
    /// The body of a successful response was read.
    Reply(Json),
}

/// The next step of a search.
#[derive(Debug)]
pub enum SearchStep {
    Perform(IoAction),
    Finish(Result<Vec<SearchResult>, SearchError>),
}

/// Model of a [`SearchStep`].
#[verifier::ext_equal]
pub enum StepModel {
    Perform(IoModel),
    Finish(Result<Seq<ResultModel>, ErrorModel>),
}

impl DeepView for SearchStep {
    type V = StepModel;

    open spec fn deep_view(&self) -> StepModel {
        match self {
            SearchStep::Perform(action) => StepModel::Perform(action.deep_view()),
            SearchStep::Finish(Ok(results)) => StepModel::Finish(Ok(results.deep_view())),
            SearchStep::Finish(Err(error)) => StepModel::Finish(Err(error.deep_view())),
        }
    }
}

} // verus!
