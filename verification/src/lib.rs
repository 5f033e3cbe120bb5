pub mod auth;
pub mod auth_laws;
pub mod bytes;
pub mod cli;
pub mod cli_laws;
pub mod clock;
pub mod codec;
pub mod config;
pub mod config_laws;
pub mod flow;
pub mod headers;
pub mod install;
pub mod json;
pub mod manager;
pub mod manager_laws;
pub mod metrics;
pub mod ownership;
pub mod path;
pub mod path_laws;
pub mod protocol;
pub mod quota;
pub mod relay;
pub mod relay_laws;
pub mod report_laws;
pub mod request_laws;
pub mod roundtrip;
pub mod server;
pub mod server_laws;
pub mod service;
pub mod service_laws;
pub mod settings;
pub mod setup;
pub mod setup_laws;
pub mod sse;
pub mod status;
pub mod stream;
pub mod stream_laws;
pub mod table;
pub mod text;
pub mod uninstall;
pub mod uninstall_laws;
pub mod view_laws;
