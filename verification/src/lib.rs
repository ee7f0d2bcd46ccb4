//! Command dispatch for a chat bot: a text matcher compiled from the registered
//! command names, a normalizer for structured option trees, the response state
//! of one invocation, the hook chain and the per-user admission guard.

pub mod text;
pub mod guard;
pub mod hooks;
pub mod dispatch;
pub mod handle;
pub mod command;
pub mod options;
pub mod matcher;
pub mod framework;
pub mod models;
pub mod reminder;
pub mod response;
pub mod look;
pub mod todo;
pub mod subscription;
pub mod catalog;
