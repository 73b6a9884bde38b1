//! Verified core of a webmail platform: request authentication, message
//! processing, conversation threading, mailbox bookkeeping and the task and
//! event formats shared by the background workers.

pub mod text;
pub mod mime;
pub mod mime_laws;
pub mod ids;
pub mod json;
pub mod json_laws;
pub mod auth;
pub mod threading;
pub mod mail;
pub mod tasks;
pub mod sync;
pub mod audit;
pub mod realtime;
