//! Remote control of apps over the debugging protocol of browsers: the rules of the server that
//! runs inside an app, and of the clients that talk to it.
//!
//! The library decides and computes; whatever reads a socket, a file or a screen hands it plain
//! values and does what it says.
//!
//! - [`dispatcher`], [`transport`], [`domains`] and [`discovery`] are one connection: which domain
//!   answers a request, how replies are framed, and how a target is found.
//! - [`domain_remo`], [`domain_page`], [`domain_dom`] and [`domain_storage`] are the domains.
//! - [`registry`] and [`builtins`] are the capabilities that can be invoked by name.
//! - [`view_walk`], [`swiftui_debug`], [`user_defaults`], [`keychain`], [`filesystem`] and [`sqlite_query`] turn
//!   what an app holds into JSON.
//! - [`cdp_client`], [`mcp`] and [`cli`] are the clients.
//! - [`json`], [`json_text`], [`order`], [`text`] and [`decimal`] are what the others are built on.
pub mod base64_text;
pub mod builtins;
pub mod capabilities;
pub mod cdp_client;
pub mod cli;
pub mod console_expr;
pub mod decimal;
pub mod discovery;
pub mod dispatcher;
pub mod domain_dom;
pub mod domain_page;
pub mod domain_remo;
pub mod domain_storage;
pub mod domains;
pub mod dual_stack;
pub mod filesystem;
pub mod json;
pub mod json_text;
pub mod keychain;
pub mod mcp;
pub mod order;
pub mod registry;
pub mod remote_object;
pub mod sqlite_query;
pub mod swiftui_debug;
pub mod swiftui_types;
pub mod tables;
pub mod text;
pub mod transport;
pub mod user_defaults;
pub mod utf8_text;
pub mod view_tree;
pub mod view_walk;
