//! The web search tool: its definition, its registration and its answers.

use vstd::prelude::*;
use vstd::string::*;

use crate::config::{
    configured_provider, create_search_provider, ConfiguredProvider, ProviderModel, SearchConfig,
};
use crate::protocol::{
    error_message, ErrorModel, IoAction, IoModel, ResultModel, SearchError, SearchEvent,
    SearchResult, SearchStep, StepModel,
};
use crate::providers::SearchProvider;
use crate::text::{append_decimal, decimal, joined};

verus! {

/// A parameter of a tool.
#[derive(Debug)]
pub struct ToolParameter {
    pub name: String,
    pub description: String,
    pub param_type: String,
    pub required: bool,
}

/// Model of a [`ToolParameter`].
#[verifier::ext_equal]
pub struct ParameterModel {
    pub name: Seq<char>,
    pub description: Seq<char>,
    pub param_type: Seq<char>,
    pub required: bool,
}

impl DeepView for ToolParameter {
    type V = ParameterModel;

    open spec fn deep_view(&self) -> ParameterModel {
        ParameterModel {
            name: self.name@,
            description: self.description@,
            param_type: self.param_type@,
            required: self.required,
        }
    }
}

impl ToolParameter {
    /// A parameter that every call has to give.
    pub fn required(name: &str, description: &str, param_type: &str) -> (parameter: Self)
        ensures
            parameter.deep_view() == (ParameterModel {
                name: name@,
                description: description@,
                param_type: param_type@,
                required: true,
            }),
    {
        ToolParameter {
            name: name.to_owned(),
            description: description.to_owned(),
            param_type: param_type.to_owned(),
            required: true,
        }
    }

    /// A parameter that a call can leave out.
    pub fn optional(name: &str, description: &str, param_type: &str) -> (parameter: Self)
        ensures
            parameter.deep_view() == (ParameterModel {
                name: name@,
                description: description@,
                param_type: param_type@,
                required: false,
            }),
    {
        ToolParameter {
            name: name.to_owned(),
            description: description.to_owned(),
            param_type: param_type.to_owned(),
            required: false,
        }
    }
}

/// The parameters of a tool.
#[derive(Debug)]
pub enum ToolParameters {
    Flat(Vec<ToolParameter>),
}

/// The definition of a tool.
#[derive(Debug)]
pub struct ToolMeta {
    pub name: String,
    pub description: String,
    pub parameters: ToolParameters,
}

/// Model of a [`ToolMeta`].
#[verifier::ext_equal]
pub struct MetaModel {
    pub name: Seq<char>,
    pub description: Seq<char>,
    pub parameters: Seq<ParameterModel>,
}

impl DeepView for ToolMeta {
    type V = MetaModel;

    open spec fn deep_view(&self) -> MetaModel {
        MetaModel {
            name: self.name@,
            description: self.description@,
            parameters: match self.parameters {
                ToolParameters::Flat(parameters) => parameters.deep_view(),
            },
        }
    }
}

/// The definition of the web search tool.
pub open spec fn search_tool_def() -> MetaModel {
    MetaModel {
        name: "web_search"@,
        description: "Search the web for information"@,
        parameters: seq![
            ParameterModel {
                name: "query"@,
                description: "Search query"@,
                param_type: "string"@,
                required: true,
            },
            ParameterModel {
                name: "max_results"@,
                description: "Maximum number of results"@,
                param_type: "number"@,
                required: false,
            },
        ],
    }
}

/// The definition of the web search tool.
pub fn make_search_tool_def() -> (def: ToolMeta)
    ensures
        def.deep_view() == search_tool_def(),
{
    let def = ToolMeta {
        name: "web_search".to_owned(),
        description: "Search the web for information".to_owned(),
        parameters: ToolParameters::Flat(
            vec![
                ToolParameter::required("query", "Search query", "string"),
                ToolParameter::optional("max_results", "Maximum number of results", "number"),
            ],
        ),
    };
    assert(def.deep_view() =~= search_tool_def());
    def
}

/// A call of the web search tool, with its arguments as they were read.
#[derive(Debug)]
pub struct SearchCall {
    pub call_id: String,
    /// The argument `query`, or what is wrong with it.
    pub query: Result<String, String>,
    /// The argument `max_results`, where it is given.
    pub max_results: Option<u64>,
}

/// The number of results that a call asks for: five where it does not say.
pub open spec fn wanted_results(call: SearchCall) -> usize {
    match call.max_results {
        Some(n) => n as usize,
        None => 5,
    }
}

/// The answer to a call.
#[derive(Debug)]
pub struct ToolResult {
    pub call_id: String,
    pub output: String,
    pub error: Option<String>,
}

/// Model of a [`ToolResult`].
#[verifier::ext_equal]
pub struct AnswerModel {
    pub call_id: Seq<char>,
    pub output: Seq<char>,
    pub error: Option<Seq<char>>,
}

impl DeepView for ToolResult {
    type V = AnswerModel;

    open spec fn deep_view(&self) -> AnswerModel {
        AnswerModel {
            call_id: self.call_id@,
            output: self.output@,
            error: self.error.deep_view(),
        }
    }
}

/// The next step of a call that can fail.
#[derive(Debug)]
pub enum CallStep {
    Perform(IoAction),
    Finish(Result<ToolResult, SearchError>),
}

/// Model of a [`CallStep`].
#[verifier::ext_equal]
pub enum CallStepModel {
    Perform(IoModel),
    Finish(Result<AnswerModel, ErrorModel>),
}

impl DeepView for CallStep {
    type V = CallStepModel;

    open spec fn deep_view(&self) -> CallStepModel {
        match self {
            CallStep::Perform(action) => CallStepModel::Perform(action.deep_view()),
            CallStep::Finish(Ok(answer)) => CallStepModel::Finish(Ok(answer.deep_view())),
            CallStep::Finish(Err(error)) => CallStepModel::Finish(Err(error.deep_view())),
        }
    }
}

/// The next step of a call that is answered in any case.
#[derive(Debug)]
pub enum ToolStep {
    Perform(IoAction),
    Finish(ToolResult),
}

/// Model of a [`ToolStep`].
#[verifier::ext_equal]
pub enum ToolStepModel {
    Perform(IoModel),
    Finish(AnswerModel),
}

impl DeepView for ToolStep {
    type V = ToolStepModel;

    open spec fn deep_view(&self) -> ToolStepModel {
        match self {
            ToolStep::Perform(action) => ToolStepModel::Perform(action.deep_view()),
            ToolStep::Finish(answer) => ToolStepModel::Finish(answer.deep_view()),
        }
    }
}

/// Whether a result can be shown: it needs a title and an address.
pub open spec fn valid_result(result: ResultModel) -> bool {
    result.title.len() > 0 && result.url.len() > 0
}

/// Whether a result can be shown: it needs a title and an address.
pub fn is_valid_result(r: &SearchResult) -> (yes: bool)
    ensures
        yes == valid_result(r.deep_view()),
        yes == (r.title@.len() > 0 && r.url@.len() > 0),
{
    !r.title.as_str().is_empty() && !r.url.as_str().is_empty()
}

/// The results that can be shown.
pub open spec fn valid_results(results: Seq<ResultModel>) -> Seq<ResultModel> {
    results.filter(|result: ResultModel| valid_result(result))
}

fn keep_valid(results: Vec<SearchResult>) -> (kept: Vec<SearchResult>)
    ensures
        kept.deep_view() == valid_results(results.deep_view()),
{
    let ghost model = results.deep_view();
    let ghost keep = |result: ResultModel| valid_result(result);
    let mut kept: Vec<SearchResult> = Vec::new();
    proof {
        reveal(Seq::filter);
        assert(kept.deep_view() =~= model.take(0).filter(keep));
    }
    for result in it: results
        invariant
            it.seq() == results@,
            model == results.deep_view(),
            keep == |result: ResultModel| valid_result(result),
            kept.deep_view() == model.take(it.index()).filter(keep),
    {
        let ghost before = kept.deep_view();
        let ghost next = result.deep_view();
        proof {
            assert(model[it.index()] == next);
            model.take(it.index()).lemma_filter_push(next, keep);
            assert(model.take(it.index() + 1) =~= model.take(it.index()).push(next));
        }
        if is_valid_result(&result) {
            kept.push(result);
            assert(kept.deep_view() =~= before.push(next));
        }
    }
    assert(model.take(model.len() as int) =~= model);
    kept
}

/// The line that shows a result: its number, and its title as a link to its address.
pub open spec fn result_line(number: nat, result: ResultModel) -> Seq<char> {
    decimal(number) + ". ["@ + result.title + "]("@ + result.url + ")"@
}

/// The lines that show the results, numbered from one.
pub open spec fn result_lines(results: Seq<ResultModel>) -> Seq<Seq<char>> {
    Seq::new(results.len(), |i: int| result_line((i + 1) as nat, results[i]))
}

/// The text that shows the results, one line for each.
pub open spec fn rendered(results: Seq<ResultModel>) -> Seq<char> {
    joined(result_lines(results), "\n"@)
}

fn append_line(out: &mut String, number: usize, result: &SearchResult)
    ensures
        final(out)@ == old(out)@ + result_line(number as nat, result.deep_view()),
{
    append_decimal(out, number);
    out.append(". [");
    out.append(result.title.as_str());
    out.append("](");
    out.append(result.url.as_str());
    out.append(")");
    assert(out@ =~= old(out)@ + result_line(number as nat, result.deep_view()));
}

/// The text that shows the results, one line for each.
pub fn render(results: &Vec<SearchResult>) -> (out: String)
    ensures
        out@ == rendered(results.deep_view()),
{
    let ghost lines = result_lines(results.deep_view());
    let mut out = String::new();
    let mut i: usize = 0;
    while i < results.len()
        invariant
            i <= results.len(),
            lines == result_lines(results.deep_view()),
            out@ == joined(lines.take(i as int), "\n"@),
        decreases results.len() - i,
    {
        let ghost before = out@;
        if i > 0 {
            out.append("\n");
        }
        append_line(&mut out, i + 1, &results[i]);
        proof {
            let shown = lines.take(i + 1);
            assert(shown.drop_last() =~= lines.take(i as int));
            assert(shown.last() == result_line((i + 1) as nat, results[i as int].deep_view()));
            assert(out@ =~= joined(shown, "\n"@));
        }
        i = i + 1;
    }
    assert(lines.take(i as int) =~= lines);
    out
}

/// The answer that the results of a search give.
pub open spec fn answer_of(
    call_id: Seq<char>,
    query: Seq<char>,
    results: Seq<ResultModel>,
) -> Result<AnswerModel, ErrorModel> {
    let valid = valid_results(results);
    if valid.len() == 0 {
        Err(ErrorModel::NoResults { query })
    } else {
        Ok(AnswerModel { call_id, output: rendered(valid), error: None })
    }
}

/// The tool that searches the web.
pub struct WebSearchTool<P: SearchProvider> {
    provider: Option<P>,
}

impl<P: SearchProvider> View for WebSearchTool<P> {
    type V = Option<P>;

    closed spec fn view(&self) -> Option<P> {
        self.provider
    }
}

/// The steps of a call. The call has to name a query and the tool has to have a provider; the
/// provider's search then decides.
pub open spec fn call_step<P: SearchProvider>(
    provider: Option<P>,
    call: SearchCall,
    event: SearchEvent,
) -> CallStepModel {
    match (call.query, provider) {
        (Err(message), _) => CallStepModel::Finish(Err(ErrorModel::InvalidCall(message@))),
        (Ok(_), None) => CallStepModel::Finish(Err(ErrorModel::NoProvider)),
        (Ok(query), Some(provider)) => match provider.next_step(
            query@,
            wanted_results(call),
            event,
        ) {
            StepModel::Perform(action) => CallStepModel::Perform(action),
            StepModel::Finish(Ok(results)) => CallStepModel::Finish(
                answer_of(call.call_id@, query@, results),
            ),
            StepModel::Finish(Err(error)) => CallStepModel::Finish(Err(error)),
        },
    }
}

/// The answer that reports an error.
pub open spec fn error_answer(call_id: Seq<char>, error: ErrorModel) -> AnswerModel {
    AnswerModel { call_id, output: Seq::empty(), error: Some(error_message(error)) }
}

/// The steps of a call that is answered in any case: an error becomes an answer.
pub open spec fn tool_step<P: SearchProvider>(
    provider: Option<P>,
    call: SearchCall,
    event: SearchEvent,
) -> ToolStepModel {
    match call_step(provider, call, event) {
        CallStepModel::Perform(action) => ToolStepModel::Perform(action),
        CallStepModel::Finish(Ok(answer)) => ToolStepModel::Finish(answer),
        CallStepModel::Finish(Err(error)) => ToolStepModel::Finish(
            error_answer(call.call_id@, error),
        ),
    }
}

/// Says what is to be done after an event of a call.
pub fn execute_web_search<P: SearchProvider>(
    tool: &WebSearchTool<P>,
    call: &SearchCall,
    event: SearchEvent,
) -> (step: CallStep)
    ensures
        step.deep_view() == call_step(tool@, *call, event),
{
    let query = match &call.query {
        Ok(query) => query,
        Err(message) => {
            return CallStep::Finish(Err(SearchError::InvalidCall(message.clone())));
        },
    };
    let max_results: usize = match call.max_results {
        Some(n) => n as usize,
        None => 5,
    };
    match &tool.provider {
        Some(provider) => match provider.search(query.as_str(), max_results, event) {
            SearchStep::Perform(action) => CallStep::Perform(action),
            SearchStep::Finish(Ok(results)) => {
                let valid = keep_valid(results);
                assert(valid.deep_view().len() == valid.len());
                if valid.is_empty() {
                    CallStep::Finish(Err(SearchError::NoResults { query: query.clone() }))
                } else {
                    CallStep::Finish(
                        Ok(
                            ToolResult {
                                call_id: call.call_id.clone(),
                                output: render(&valid),
                                error: None,
                            },
                        ),
                    )
                }
            },
            SearchStep::Finish(Err(error)) => CallStep::Finish(Err(error)),
        },
        None => CallStep::Finish(Err(SearchError::NoProvider)),
    }
}

impl<P: SearchProvider> WebSearchTool<P> {
    /// A tool that asks the given provider.
    pub fn new_with_provider(provider: Box<P>) -> (tool: Self)
        ensures
            tool@ == Some(*provider),
    {
        WebSearchTool { provider: Some(*provider) }
    }

    /// A tool without a provider.
    pub fn new() -> (tool: Self)
        ensures
            tool@ == None::<P>,
    {
        WebSearchTool { provider: None }
    }

    /// The name of the tool.
    pub fn name(&self) -> (name: &str)
        ensures
            name@ == search_tool_def().name,
            name@ == "web_search"@,
    {
        "web_search"
    }

    /// What the tool does.
    pub fn description(&self) -> (description: &str)
        ensures
            description@ == search_tool_def().description,
            description@ == "Search the web for information"@,
    {
        "Search the web for information"
    }

    /// Says what is to be done after an event of a call, up to its answer.
    pub fn execute(&self, call: &SearchCall, event: SearchEvent) -> (step: ToolStep)
        ensures
            step.deep_view() == tool_step(self@, *call, event),
    {
        match execute_web_search(self, call, event) {
            CallStep::Perform(action) => ToolStep::Perform(action),
            CallStep::Finish(Ok(answer)) => ToolStep::Finish(answer),
            CallStep::Finish(Err(error)) => ToolStep::Finish(
                ToolResult {
                    call_id: call.call_id.clone(),
                    output: String::new(),
                    error: Some(error.message()),
                },
            ),
        }
    }

    /// Another tool of the same kind. It has no provider.
    pub fn clone_tool(&self) -> (tool: Box<Self>)
        ensures
            tool@ == None::<P>,
    {
        Box::new(Self::new())
    }
}

/// A tool together with its definition.
pub struct Registration {
    pub tool: Box<WebSearchTool<ConfiguredProvider>>,
    pub def: ToolMeta,
}

/// Model of a [`Registration`].
#[verifier::ext_equal]
pub struct RegistrationModel {
    pub provider: Option<ProviderModel>,
    pub def: MetaModel,
}

impl DeepView for Registration {
    type V = RegistrationModel;

    open spec fn deep_view(&self) -> RegistrationModel {
        RegistrationModel {
            provider: match self.tool@ {
                Some(provider) => Some(provider.deep_view()),
                None => None,
            },
            def: self.def.deep_view(),
        }
    }
}

/// The tools registered so far, in order.
pub struct ToolRegistry {
    entries: Vec<Registration>,
}

impl View for ToolRegistry {
    type V = Seq<RegistrationModel>;

    closed spec fn view(&self) -> Seq<RegistrationModel> {
        self.entries.deep_view()
    }
}

impl ToolRegistry {
    /// A registry without tools.
    pub fn new() -> (registry: Self)
        ensures
            registry@ == Seq::<RegistrationModel>::empty(),
    {
        let registry = ToolRegistry { entries: Vec::new() };
        assert(registry@ =~= Seq::<RegistrationModel>::empty());
        registry
    }

    /// Adds a tool with its definition.
    pub fn register_with_def(
        &mut self,
        tool: Box<WebSearchTool<ConfiguredProvider>>,
        def: ToolMeta,
    )
        ensures
            final(self)@ == old(self)@.push((Registration { tool, def }).deep_view()),
    {
        let ghost before = self@;
        let entry = Registration { tool, def };
        let ghost added = entry.deep_view();
        self.entries.push(entry);
        assert(self@ =~= before.push(added));
    }

    /// The tools registered so far, in order.
    pub fn entries(&self) -> (entries: &Vec<Registration>)
        ensures
            entries.deep_view() == self@,
    {
        &self.entries
    }

    /// Hands out the tools registered so far, in order.
    pub fn into_entries(self) -> (entries: Vec<Registration>)
        ensures
            entries.deep_view() == self@,
    {
        self.entries
    }
}

/// The registration that a configuration gives.
pub open spec fn search_registration(config: SearchConfig) -> RegistrationModel {
    RegistrationModel { provider: Some(configured_provider(config)), def: search_tool_def() }
}

/// Registers the web search tool with the provider that a configuration asks for.
pub fn register(registry: &mut ToolRegistry, config: &SearchConfig)
    ensures
        final(registry)@ == old(registry)@.push(search_registration(*config)),
{
    let provider = create_search_provider(config);
    let tool = Box::new(WebSearchTool::new_with_provider(provider));
    registry.register_with_def(tool, make_search_tool_def());
}

/// Registers the web search tool with the host's default configuration.
pub fn register_default(registry: &mut ToolRegistry, default_config: &SearchConfig)
    ensures
        final(registry)@ == old(registry)@.push(search_registration(*default_config)),
{
    register(registry, default_config);
}

} // verus!
