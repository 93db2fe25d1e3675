//! Runtime host: connector runtimes, their wire protocols, their bounded event
//! streams and the passive discovery of locally installed agents.

pub mod adapters;
pub mod address;
pub mod answer_laws;
pub mod catalog;
pub mod catalog_laws;
pub mod codex;
pub mod codex_launch;
pub mod codex_laws;
pub mod connector;
pub mod connector_laws;
pub mod deadline;
pub mod decode;
pub mod digest;
pub mod discovery;
pub mod discovery_laws;
pub mod endpoint;
pub mod error;
pub mod error_laws;
pub mod event;
pub mod event_laws;
pub mod fixture;
pub mod fixture_laws;
pub mod http;
pub mod http_laws;
pub mod json;
pub mod json_laws;
pub mod kun_cancel;
pub mod kun_catalog;
pub mod kun_discovery;
pub mod kun_frames;
pub mod kun_laws;
pub mod kun_record;
pub mod kun_record_laws;
pub mod kun_resolve;
pub mod kun_run_laws;
pub mod kun_stream;
pub mod launch_laws;
pub mod manifest;
pub mod observation;
pub mod order;
pub mod package_tree;
pub mod passive;
pub mod passive_laws;
pub mod paths;
pub mod paths_laws;
pub mod redact;
pub mod redact_laws;
pub mod resolve_laws;
pub mod route;
pub mod route_laws;
pub mod rpc;
pub mod rpc_laws;
pub mod runner;
pub mod runner_laws;
pub mod runtimes;
pub mod scan;
pub mod sse;
pub mod stream;
pub mod stream_laws;
pub mod tables;
pub mod tables_laws;
pub mod text;
pub mod text_laws;
pub mod textmap;
pub mod wire;
