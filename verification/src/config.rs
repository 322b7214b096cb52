//! Which search provider to use.

use vstd::prelude::*;
use vstd::string::*;

use crate::protocol::{SearchEvent, SearchStep, StepModel};
use crate::providers::{
    bing_step, brave_step, google_step, BingProvider, BraveProvider, DisabledProvider,
    DuckDuckGoProvider, GoogleModel, GoogleProvider, SearchProvider,
};

verus! {

/// The kinds of search providers.
#[derive(Clone, Copy, Debug, PartialEq, Eq, Structural)]
pub enum SearchProviderKind {
    Disabled,
    DuckDuckGo,
    Brave,
    Bing,
    Google,
}

/// The search section of a configuration.
#[derive(Debug)]
pub struct SearchConfig {
    pub provider: SearchProviderKind,
    pub api_key: Option<String>,
}

/// A configured search provider.
pub enum ConfiguredProvider {
    Disabled(DisabledProvider),
    DuckDuckGo(DuckDuckGoProvider),
    Brave(BraveProvider),
    Bing(BingProvider),
    Google(GoogleProvider),
}

/// Model of a [`ConfiguredProvider`].
#[verifier::ext_equal]
pub enum ProviderModel {
    Disabled,
    DuckDuckGo,
    Brave { api_key: Seq<char> },
    Bing { api_key: Seq<char> },
    Google(GoogleModel),
}

impl DeepView for ConfiguredProvider {
    type V = ProviderModel;

    open spec fn deep_view(&self) -> ProviderModel {
        match self {
            ConfiguredProvider::Disabled(_) => ProviderModel::Disabled,
            ConfiguredProvider::DuckDuckGo(_) => ProviderModel::DuckDuckGo,
            ConfiguredProvider::Brave(provider) => ProviderModel::Brave {
                api_key: provider.deep_view(),
            },
            ConfiguredProvider::Bing(provider) => ProviderModel::Bing {
                api_key: provider.deep_view(),
            },
            ConfiguredProvider::Google(provider) => ProviderModel::Google(provider.deep_view()),
        }
    }
}

/// The steps of a search by the provider that a model stands for.
pub open spec fn provider_step(
    provider: ProviderModel,
    query: Seq<char>,
    max_results: usize,
    event: SearchEvent,
) -> StepModel {
    match provider {
        ProviderModel::Disabled => DisabledProvider.next_step(query, max_results, event),
        ProviderModel::DuckDuckGo => (DuckDuckGoProvider {  }).next_step(query, max_results, event),
        ProviderModel::Brave { api_key } => brave_step(api_key, query, max_results as nat, event),
        ProviderModel::Bing { api_key } => bing_step(api_key, query, max_results as nat, event),
        ProviderModel::Google(google) => google_step(google, query, max_results as nat, event),
    }
}

impl SearchProvider for ConfiguredProvider {
    open spec fn next_step(
        &self,
        query: Seq<char>,
        max_results: usize,
        event: SearchEvent,
    ) -> StepModel {
        provider_step(self.deep_view(), query, max_results, event)
    }

    fn search(&self, query: &str, max_results: usize, event: SearchEvent) -> (step: SearchStep) {
        match self {
            ConfiguredProvider::Disabled(provider) => provider.search(query, max_results, event),
            ConfiguredProvider::DuckDuckGo(provider) => provider.search(query, max_results, event),
            ConfiguredProvider::Brave(provider) => provider.search(query, max_results, event),
            ConfiguredProvider::Bing(provider) => provider.search(query, max_results, event),
            ConfiguredProvider::Google(provider) => provider.search(query, max_results, event),
        }
    }
}

/// The configured key; empty where there is none.
pub open spec fn configured_key(config: SearchConfig) -> Seq<char> {
    match config.api_key {
        Some(key) => key@,
        None => Seq::empty(),
    }
}

/// The provider that a configuration asks for. Google takes the key as its engine id too.
pub open spec fn configured_provider(config: SearchConfig) -> ProviderModel {
    match config.provider {
        SearchProviderKind::Disabled => ProviderModel::Disabled,
        SearchProviderKind::DuckDuckGo => ProviderModel::DuckDuckGo,
        SearchProviderKind::Brave => ProviderModel::Brave { api_key: configured_key(config) },
        SearchProviderKind::Bing => ProviderModel::Bing { api_key: configured_key(config) },
        SearchProviderKind::Google => ProviderModel::Google(
            GoogleModel { api_key: configured_key(config), cx: configured_key(config) },
        ),
    }
}

fn key_or_empty(config: &SearchConfig) -> (key: String)
    ensures
        key@ == configured_key(*config),
{
    match &config.api_key {
        Some(key) => key.clone(),
        None => String::new(),
    }
}

/// Creates the provider that a configuration asks for.
pub fn create_search_provider(config: &SearchConfig) -> (provider: Box<ConfiguredProvider>)
    ensures
        provider.deep_view() == configured_provider(*config),
{
    let provider = match config.provider {
        SearchProviderKind::Disabled => ConfiguredProvider::Disabled(DisabledProvider),
        SearchProviderKind::DuckDuckGo => ConfiguredProvider::DuckDuckGo(DuckDuckGoProvider::new()),
        SearchProviderKind::Brave => ConfiguredProvider::Brave(
            BraveProvider::new(key_or_empty(config)),
        ),
        SearchProviderKind::Bing => ConfiguredProvider::Bing(
            BingProvider::new(key_or_empty(config)),
        ),
        SearchProviderKind::Google => ConfiguredProvider::Google(
            GoogleProvider::new(key_or_empty(config), key_or_empty(config)),
        ),
    };
    Box::new(provider)
}

} // verus!
