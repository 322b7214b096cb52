//! Parts of an agent, verified: the sanitization of conversations before they are sent to a model,
//! and the web search tool.

pub mod config;
pub mod ddg;
pub mod json;
pub mod merge_laws;
pub mod message;
pub mod message_laws;
pub mod percent;
pub mod protocol;
pub mod providers;
pub mod reply_laws;
pub mod request_laws;
pub mod sanitize;
pub mod sanitize_laws;
pub mod search_laws;
pub mod selection;
pub mod text;
pub mod tool_laws;
pub mod web_search;
