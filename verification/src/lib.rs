//! GitHub Copilot provider rules.

pub mod catalog;
pub mod catalog_laws;
pub mod catalog_store;
pub mod chat_laws;
pub mod chat_messages;
pub mod chat_request;
pub mod content_laws;
pub mod context_limit_sync;
pub mod context_limits;
pub mod copilot_catalog;
pub mod copilot_catalog_pricing;
pub mod copilot_enterprise;
pub mod credentials;
pub mod enterprise_laws;
pub mod errors;
pub mod event_laws;
pub mod failure_laws;
pub mod herdr;
pub mod herdr_laws;
pub mod herdr_sync;
pub mod json;
pub mod keyed;
pub mod message;
pub mod messages_request;
pub mod multi_provider;
pub mod operation_laws;
pub mod provider;
pub mod provider_laws;
pub mod record_laws;
pub mod records;
pub mod request_laws;
pub mod responses_request;
pub mod route_cost;
pub mod selection_laws;
pub mod service_laws;
pub mod session_provider;
pub mod spawn_provider;
pub mod sse;
pub mod sse_laws;
pub mod startup;
pub mod startup_laws;
pub mod stream;
pub mod stream_chat;
pub mod stream_laws;
pub mod stream_messages;
pub mod stream_request;
pub mod stream_responses;
pub mod text;
pub mod text_laws;
pub mod turn_laws;
pub mod update_laws;
pub mod update_nightly;
pub mod wire;
pub mod wire_laws;
