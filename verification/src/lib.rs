//! The logic of `zq`, a per-application network monitor: the message types and
//! framing shared by the daemon and its terminal client, the daemon's state and
//! routing rules, the packet-filter rules it installs, and the client's screen
//! model. Sockets, child processes and the terminal live outside this crate.

pub mod text;
pub mod text_laws;
pub mod proto;
pub mod codec;
pub mod config;
pub mod table;
pub mod hub;
pub mod hub_effects;
pub mod hub_laws;
pub mod forwarder;
pub mod forwarder_laws;
pub mod net;
pub mod pf;
pub mod pf_rules;
pub mod pf_laws;
pub mod procinfo;
pub mod process;
pub mod process_laws;
pub mod proxy;
pub mod proxy_laws;
pub mod tui_server;
pub mod status;
pub mod install;
pub mod client;
pub mod startup;
pub mod event;
pub mod app;
pub mod app_effects;
pub mod app_laws;
pub mod ui;
pub mod ui_laws;
