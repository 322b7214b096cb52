//! What a search and the tool around it do, event by event, and what their models hold.

use vstd::prelude::*;

use crate::config::{
    configured_provider, provider_step, ConfiguredProvider, ProviderModel, SearchConfig,
    SearchProviderKind,
};
use crate::ddg::ddg_results;
use crate::message_laws::optional_text;
use crate::protocol::{
    error_message, ErrorModel, HttpRequest, IoAction, IoModel, ResultModel, SearchError,
    SearchEvent, SearchResult, SearchStep, Service, StepModel,
};
use crate::providers::{
    bing_results, bing_url, brave_results, brave_url, ddg_url, google_results, google_url,
    BingProvider, BraveProvider, DisabledProvider, DuckDuckGoProvider, GoogleModel, GoogleProvider,
    SearchProvider,
};
use crate::request_laws::{law_decimal, writes};
use crate::selection::{chosen, lemma_chosen_same, lemma_filter_chosen};
use crate::text::decimal;
use crate::web_search::{
    call_step, rendered, result_line, result_lines, search_registration, search_tool_def,
    tool_step, valid_result, valid_results, wanted_results, AnswerModel, CallStep, CallStepModel,
    Registration, SearchCall, ToolMeta, ToolParameter, ToolParameters, ToolResult, ToolStep,
    ToolStepModel,
};

verus! {

/// The model of a result holds the result's own title, address and snippet.
pub proof fn law_result_model(result: SearchResult)
    ensures
        result.deep_view().title == result.title@,
        result.deep_view().url == result.url@,
        result.deep_view().snippet == result.snippet@,
{
}

/// The model of an error is of the same kind and holds the same texts.
pub proof fn law_error_model(error: SearchError)
    ensures
        match error {
            SearchError::Disabled => error.deep_view() is Disabled,
            SearchError::Transport(message) => error.deep_view() == ErrorModel::Transport(message@),
            SearchError::Status { status } => error.deep_view() == (ErrorModel::Status {
                status: status@,
            }),
            SearchError::Api { service, status, body } => error.deep_view() == (ErrorModel::Api {
                service,
                status: status@,
                body: body@,
            }),
            SearchError::NoResults { query } => error.deep_view() == (ErrorModel::NoResults {
                query: query@,
            }),
            SearchError::InvalidCall(message) => error.deep_view() == ErrorModel::InvalidCall(
                message@,
            ),
            SearchError::NoProvider => error.deep_view() is NoProvider,
        },
{
}

/// The model of a request holds the request's own address and headers, in order.
pub proof fn law_request_model(request: HttpRequest)
    ensures
        request.deep_view().url == request.url@,
        request.deep_view().headers == request.headers@.map_values(
            |header: (String, String)| (header.0@, header.1@),
        ),
{
    assert(request.headers.deep_view() =~= request.headers@.map_values(
        |header: (String, String)| (header.0@, header.1@),
    ));
}

/// The model of outside work is of the same kind and holds the same request.
pub proof fn law_action_model(action: IoAction)
    ensures
        match action {
            IoAction::Send(request) => action.deep_view() == IoModel::Send(request.deep_view()),
            IoAction::ReadJson => action.deep_view() is ReadJson,
            IoAction::ReadBody => action.deep_view() is ReadBody,
        },
{
}

/// The model of a step of a search is of the same kind and holds the same work, results or error.
pub proof fn law_step_model(step: SearchStep)
    ensures
        match step {
            SearchStep::Perform(action) => step.deep_view() == StepModel::Perform(
                action.deep_view(),
            ),
            SearchStep::Finish(Ok(results)) => step.deep_view() == StepModel::Finish(
                Ok(results@.map_values(|result: SearchResult| result.deep_view())),
            ),
            SearchStep::Finish(Err(error)) => step.deep_view() == StepModel::Finish(
                Err(error.deep_view()),
            ),
        },
{
    if let SearchStep::Finish(Ok(results)) = step {
        assert(results.deep_view() =~= results@.map_values(
            |result: SearchResult| result.deep_view(),
        ));
    }
}

/// The model of an answer holds the answer's own id, output and error.
pub proof fn law_answer_model(answer: ToolResult)
    ensures
        answer.deep_view().call_id == answer.call_id@,
        answer.deep_view().output == answer.output@,
        answer.deep_view().error == optional_text(answer.error),
{
}

/// The models of a call's steps are of the same kind and hold the same work, answer or error.
pub proof fn law_call_step_model(step: CallStep, tool_step: ToolStep)
    ensures
        match step {
            CallStep::Perform(action) => step.deep_view() == CallStepModel::Perform(
                action.deep_view(),
            ),
            CallStep::Finish(Ok(answer)) => step.deep_view() == CallStepModel::Finish(
                Ok(answer.deep_view()),
            ),
            CallStep::Finish(Err(error)) => step.deep_view() == CallStepModel::Finish(
                Err(error.deep_view()),
            ),
        },
        match tool_step {
            ToolStep::Perform(action) => tool_step.deep_view() == ToolStepModel::Perform(
                action.deep_view(),
            ),
            ToolStep::Finish(answer) => tool_step.deep_view() == ToolStepModel::Finish(
                answer.deep_view(),
            ),
        },
{
}

/// The model of a definition holds the definition's own name, description and parameters.
pub proof fn law_definition_model(def: ToolMeta, parameter: ToolParameter)
    ensures
        def.deep_view().name == def.name@,
        def.deep_view().description == def.description@,
        def.parameters matches ToolParameters::Flat(parameters) ==> def.deep_view().parameters
            == parameters@.map_values(|parameter: ToolParameter| parameter.deep_view()),
        parameter.deep_view().name == parameter.name@,
        parameter.deep_view().description == parameter.description@,
        parameter.deep_view().param_type == parameter.param_type@,
        parameter.deep_view().required == parameter.required,
{
    if let ToolParameters::Flat(parameters) = def.parameters {
        assert(parameters.deep_view() =~= parameters@.map_values(
            |parameter: ToolParameter| parameter.deep_view(),
        ));
    }
}

/// The model of a registration holds the tool's own provider and definition.
pub proof fn law_registration_model(registration: Registration)
    ensures
        registration.deep_view().provider is Some <==> registration.tool@ is Some,
        registration.tool@ matches Some(provider) ==> registration.deep_view().provider == Some(
            provider.deep_view(),
        ),
        registration.deep_view().def == registration.def.deep_view(),
{
}

/// The model of a provider is of the same kind and holds what the provider holds.
pub proof fn law_provider_model(provider: ConfiguredProvider)
    ensures
        match provider {
            ConfiguredProvider::Disabled(_) => provider.deep_view() is Disabled,
            ConfiguredProvider::DuckDuckGo(_) => provider.deep_view() is DuckDuckGo,
            ConfiguredProvider::Brave(brave) => provider.deep_view() == (ProviderModel::Brave {
                api_key: brave.deep_view(),
            }),
            ConfiguredProvider::Bing(bing) => provider.deep_view() == (ProviderModel::Bing {
                api_key: bing.deep_view(),
            }),
            ConfiguredProvider::Google(google) => provider.deep_view() == ProviderModel::Google(
                google.deep_view(),
            ),
        },
{
}

/// What each error says.
pub proof fn law_error_message(text: Seq<char>, status: Seq<char>, body: Seq<char>)
    ensures
        error_message(ErrorModel::Disabled)
            == "Search provider is disabled in config. Set search.provider to 'disabled' to disable web search."@,
        error_message(ErrorModel::Transport(text)) == text,
        error_message(ErrorModel::InvalidCall(text)) == text,
        error_message(ErrorModel::Status { status })
            == "Error: web_search DuckDuckGo search failed: HTTP "@ + status,
        error_message(ErrorModel::Api { service: Service::Brave, status, body })
            == "Brave API error: "@ + status + " - "@ + body,
        error_message(ErrorModel::Api { service: Service::Bing, status, body })
            == "Bing API error: "@ + status + " - "@ + body,
        error_message(ErrorModel::Api { service: Service::Google, status, body })
            == "Google API error: "@ + status + " - "@ + body,
        error_message(ErrorModel::NoResults { query: text })
            == "Error: web_search cannot get results for query: "@ + text,
        error_message(ErrorModel::NoProvider)
            == "Error: web_search No search provider configured. Add to config: `tools.search.provider`"@,
{
}

/// Whether a step sends a request to the given address with the given headers.
pub open spec fn sends(
    step: StepModel,
    url: Seq<char>,
    headers: Seq<(Seq<char>, Seq<char>)>,
) -> bool {
    step matches StepModel::Perform(IoModel::Send(request)) && request.url == url && request.headers
        == headers
}

/// Whether a step ends a search with the given error.
pub open spec fn fails(step: StepModel, error: ErrorModel) -> bool {
    step matches StepModel::Finish(Err(reason)) && reason == error
}

/// Whether a step ends a search with the given results.
pub open spec fn finds(step: StepModel, results: Seq<ResultModel>) -> bool {
    step matches StepModel::Finish(Ok(found)) && found == results
}

/// A switched-off search fails at once, whatever happens.
pub proof fn law_disabled_steps(query: Seq<char>, max_results: usize, event: SearchEvent)
    ensures
        fails(
            provider_step(ProviderModel::Disabled, query, max_results, event),
            ErrorModel::Disabled,
        ),
        DisabledProvider.next_step(query, max_results, event) == provider_step(
            ProviderModel::Disabled,
            query,
            max_results,
            event,
        ),
{
}

/// A DuckDuckGo search, event by event.
pub proof fn law_ddg_steps(query: Seq<char>, max_results: usize, event: SearchEvent)
    ensures
        ({
            let step = provider_step(ProviderModel::DuckDuckGo, query, max_results, event);
            match event {
                SearchEvent::Start => sends(step, ddg_url(query), Seq::empty()),
                SearchEvent::Failed(message) => fails(step, ErrorModel::Transport(message@)),
                SearchEvent::Response { success, status } => if success {
                    step == StepModel::Perform(IoModel::ReadJson)
                } else {
                    fails(step, ErrorModel::Status { status: status@ })
                },
                SearchEvent::ErrorBody { status, .. } => fails(
                    step,
                    ErrorModel::Status { status: status@ },
                ),
                SearchEvent::Reply(json) => if ddg_results(json, max_results as nat).len() == 0 {
                    fails(step, ErrorModel::NoResults { query })
                } else {
                    finds(step, ddg_results(json, max_results as nat))
                },
            }
        }),
        (DuckDuckGoProvider {  }).next_step(query, max_results, event) == provider_step(
            ProviderModel::DuckDuckGo,
            query,
            max_results,
            event,
        ),
{
}

/// Whether a step of a service answers an event as every service does that has nothing to send and
/// no reply to read: a failure ends the search; a success is read as JSON and anything else as
/// text, which is then reported together with the status.
pub open spec fn serves(step: StepModel, service: Service, event: SearchEvent) -> bool {
    match event {
        SearchEvent::Failed(message) => fails(step, ErrorModel::Transport(message@)),
        SearchEvent::Response { success, .. } => if success {
            step == StepModel::Perform(IoModel::ReadJson)
        } else {
            step == StepModel::Perform(IoModel::ReadBody)
        },
        SearchEvent::ErrorBody { status, body } => match body {
            Some(body) => fails(step, ErrorModel::Api { service, status: status@, body: body@ }),
            None => fails(
                step,
                ErrorModel::Api { service, status: status@, body: Seq::empty() },
            ),
        },
        SearchEvent::Start | SearchEvent::Reply(_) => false,
    }
}

/// A Brave search, event by event.
pub proof fn law_brave_steps(
    api_key: Seq<char>,
    query: Seq<char>,
    max_results: usize,
    event: SearchEvent,
)
    ensures
        ({
            let step = provider_step(ProviderModel::Brave { api_key }, query, max_results, event);
            match event {
                SearchEvent::Start => sends(
                    step,
                    brave_url(query, max_results as nat),
                    seq![
                        ("X-Subscription-Token"@, api_key),
                        ("Accept"@, "application/json"@),
                    ],
                ),
                SearchEvent::Reply(json) => finds(step, brave_results(json, max_results as nat)),
                _ => serves(step, Service::Brave, event),
            }
        }),
        forall|provider: BraveProvider|
            provider.deep_view() == api_key ==> #[trigger] provider.next_step(
                query,
                max_results,
                event,
            ) == provider_step(ProviderModel::Brave { api_key }, query, max_results, event),
{
}

/// A Bing search, event by event.
pub proof fn law_bing_steps(
    api_key: Seq<char>,
    query: Seq<char>,
    max_results: usize,
    event: SearchEvent,
)
    ensures
        ({
            let step = provider_step(ProviderModel::Bing { api_key }, query, max_results, event);
            match event {
                SearchEvent::Start => sends(
                    step,
                    bing_url(query, max_results as nat),
                    seq![("Ocp-Apim-Subscription-Key"@, api_key)],
                ),
                SearchEvent::Reply(json) => finds(step, bing_results(json, max_results as nat)),
                _ => serves(step, Service::Bing, event),
            }
        }),
        forall|provider: BingProvider|
            provider.deep_view() == api_key ==> #[trigger] provider.next_step(
                query,
                max_results,
                event,
            ) == provider_step(ProviderModel::Bing { api_key }, query, max_results, event),
{
}

/// A Google search, event by event.
pub proof fn law_google_steps(
    google: GoogleModel,
    query: Seq<char>,
    max_results: usize,
    event: SearchEvent,
)
    ensures
        ({
            let step = provider_step(ProviderModel::Google(google), query, max_results, event);
            match event {
                SearchEvent::Start => sends(
                    step,
                    google_url(google, query, max_results as nat),
                    Seq::empty(),
                ),
                SearchEvent::Reply(json) => finds(step, google_results(json, max_results as nat)),
                _ => serves(step, Service::Google, event),
            }
        }),
        forall|provider: GoogleProvider|
            provider.deep_view() == google ==> #[trigger] provider.next_step(
                query,
                max_results,
                event,
            ) == provider_step(ProviderModel::Google(google), query, max_results, event),
{
}

/// A configured provider searches as its model says.
pub proof fn law_configured_steps(
    provider: ConfiguredProvider,
    query: Seq<char>,
    max_results: usize,
    event: SearchEvent,
)
    ensures
        provider.next_step(query, max_results, event) == provider_step(
            provider.deep_view(),
            query,
            max_results,
            event,
        ),
{
}

/// A configuration gives a provider of its own kind, with its own key. Without a key the key is
/// empty. Google gets the key as its engine id too.
pub proof fn law_configured(config: SearchConfig)
    ensures
        ({
            let provider = configured_provider(config);
            let key = match config.api_key {
                Some(key) => key@,
                None => Seq::empty(),
            };
            match config.provider {
                SearchProviderKind::Disabled => provider is Disabled,
                SearchProviderKind::DuckDuckGo => provider is DuckDuckGo,
                SearchProviderKind::Brave => provider is Brave && provider->Brave_api_key == key,
                SearchProviderKind::Bing => provider is Bing && provider->Bing_api_key == key,
                SearchProviderKind::Google => {
                    &&& provider is Google
                    &&& provider->Google_0.api_key == key
                    &&& provider->Google_0.cx == key
                },
            }
        }),
{
}

/// The results that are shown are exactly those with a title and an address, in order.
pub proof fn law_valid_results(results: Seq<ResultModel>)
    ensures
        chosen(
            valid_results(results),
            results.len() as int,
            |i: int| results[i].title.len() > 0 && results[i].url.len() > 0,
            |i: int| results[i],
        ),
{
    let keep = |result: ResultModel| valid_result(result);
    lemma_filter_chosen(results, keep);
    lemma_chosen_same(
        valid_results(results),
        results.len() as int,
        |i: int| keep(results[i]),
        |i: int| results[i],
        |i: int| results[i].title.len() > 0 && results[i].url.len() > 0,
        |i: int| results[i],
    );
}

/// No results give no text. One more result gives one more line: its number, its title in square
/// brackets and its address in round ones.
pub proof fn law_rendered(results: Seq<ResultModel>, next: ResultModel)
    ensures
        rendered(Seq::empty()).len() == 0,
        exists|number: Seq<char>|
            {
                let line = number + seq!['.', ' ', '['] + next.title + seq![']', '('] + next.url
                    + seq![')'];
                &&& #[trigger] writes(number, results.push(next).len() as int)
                &&& rendered(results.push(next)) == if results.len() == 0 {
                    line
                } else {
                    rendered(results) + seq!['\n'] + line
                }
            },
{
    reveal_strlit(". [");
    reveal_strlit("](");
    reveal_strlit(")");
    reveal_strlit("\n");
    let number = decimal(results.len() + 1);
    let line = number + seq!['.', ' ', '['] + next.title + seq![']', '('] + next.url + seq![')'];
    law_decimal(results.len() + 1);
    let more = results.push(next);
    let lines = result_lines(more);
    assert(". ["@ =~= seq!['.', ' ', '[']);
    assert("]("@ =~= seq![']', '(']);
    assert(")"@ =~= seq![')']);
    assert("\n"@ =~= seq!['\n']);
    assert(lines.last() == result_line(results.len() + 1, next));
    assert(lines.drop_last() =~= result_lines(results));
    assert(writes(number, more.len() as int));
}

/// Whether an answer to the given call reports the given message and shows nothing.
pub open spec fn reports(answer: AnswerModel, call: SearchCall, message: Seq<char>) -> bool {
    &&& answer.call_id == call.call_id@
    &&& answer.output.len() == 0
    &&& answer.error == Some(message)
}

/// The number of results that a call asks for: what it says, or five.
pub proof fn law_wanted_results(call: SearchCall)
    ensures
        call.max_results is None ==> wanted_results(call) == 5,
        call.max_results matches Some(n) ==> n <= usize::MAX ==> wanted_results(call) == n,
        call.max_results matches Some(n) ==> wanted_results(call) == n as usize,
{
}

/// A call, event by event. Without a query, or without a provider, it is answered with an error
/// at once. Otherwise the provider is asked, for the wanted number of results. Its outside work is
/// passed on and its errors are reported; of its results, those with a title and an address are
/// shown, and where there are none the call is answered with an error.
pub proof fn law_tool_steps<P: SearchProvider>(
    provider: Option<P>,
    call: SearchCall,
    event: SearchEvent,
)
    ensures
        ({
            let step = tool_step(provider, call, event);
            match (call.query, provider) {
                (Err(message), _) => step matches ToolStepModel::Finish(answer) && reports(
                    answer,
                    call,
                    message@,
                ),
                (Ok(_), None) => step matches ToolStepModel::Finish(answer) && reports(
                    answer,
                    call,
                    "Error: web_search No search provider configured. Add to config: `tools.search.provider`"@,
                ),
                (Ok(query), Some(provider)) => match provider.next_step(
                    query@,
                    wanted_results(call),
                    event,
                ) {
                    StepModel::Perform(action) => step == ToolStepModel::Perform(action),
                    StepModel::Finish(Err(error)) => {
                        step matches ToolStepModel::Finish(answer) && reports(
                            answer,
                            call,
                            error_message(error),
                        )
                    },
                    StepModel::Finish(Ok(results)) => {
                        let shown = valid_results(results);
                        step matches ToolStepModel::Finish(answer) && if shown.len() == 0 {
                            reports(
                                answer,
                                call,
                                "Error: web_search cannot get results for query: "@ + query@,
                            )
                        } else {
                            &&& answer.call_id == call.call_id@
                            &&& answer.output == rendered(shown)
                            &&& answer.error is None
                        }
                    },
                },
            }
        }),
{
}

/// A call that is answered in any case takes the steps of one that can fail, and answers where the
/// other fails.
pub proof fn law_call_steps<P: SearchProvider>(
    provider: Option<P>,
    call: SearchCall,
    event: SearchEvent,
)
    ensures
        match call_step(provider, call, event) {
            CallStepModel::Perform(action) => tool_step(provider, call, event)
                == ToolStepModel::Perform(action),
            CallStepModel::Finish(Ok(answer)) => {
                &&& answer.error is None
                &&& tool_step(provider, call, event) == ToolStepModel::Finish(answer)
            },
            CallStepModel::Finish(Err(error)) => {
                &&& tool_step(provider, call, event) matches ToolStepModel::Finish(answer)
                &&& reports(answer, call, error_message(error))
            },
        },
        call.query matches Err(message) ==> call_step(provider, call, event)
            == CallStepModel::Finish(Err(ErrorModel::InvalidCall(message@))),
        call.query is Ok && provider is None ==> call_step(provider, call, event)
            == CallStepModel::Finish(Err(ErrorModel::NoProvider)),
        call.query is Ok && provider is Some ==> {
            let query = call.query->Ok_0@;
            match provider->0.next_step(query, wanted_results(call), event) {
                StepModel::Perform(action) => call_step(provider, call, event)
                    == CallStepModel::Perform(action),
                StepModel::Finish(Err(error)) => call_step(provider, call, event)
                    == CallStepModel::Finish(Err(error)),
                StepModel::Finish(Ok(results)) => valid_results(results).len() == 0 ==> call_step(
                    provider,
                    call,
                    event,
                ) == CallStepModel::Finish(Err(ErrorModel::NoResults { query })),
            }
        },
{
}

/// The tool is called `web_search`. It requires a query and takes a number of results.
pub proof fn law_tool_definition()
    ensures
        search_tool_def().name == "web_search"@,
        search_tool_def().description == "Search the web for information"@,
        search_tool_def().parameters.len() == 2,
        search_tool_def().parameters[0].name == "query"@,
        search_tool_def().parameters[0].description == "Search query"@,
        search_tool_def().parameters[0].param_type == "string"@,
        search_tool_def().parameters[0].required,
        search_tool_def().parameters[1].name == "max_results"@,
        search_tool_def().parameters[1].description == "Maximum number of results"@,
        search_tool_def().parameters[1].param_type == "number"@,
        !search_tool_def().parameters[1].required,
{
}

/// The tool is registered under its own definition, with the provider that the configuration asks
/// for.
pub proof fn law_registration(config: SearchConfig)
    ensures
        search_registration(config).def == search_tool_def(),
        search_registration(config).provider == Some(configured_provider(config)),
{
}

} // verus!
