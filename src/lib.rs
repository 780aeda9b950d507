// Relays source-control push notifications to a CI server: a notification is
// decoded (webhook), its repository and branch are looked up in the
// folder -> project -> branch -> jobs table (config, resolve), and one trigger
// request per job is planned and walked in order (dispatch).
pub mod config;
pub mod dispatch;
pub mod resolve;
pub mod text;
pub mod webhook;
