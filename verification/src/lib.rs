//! Core logic of a command-line utility that posts a message into a
//! named channel of a chat service and optionally waits for the reply:
//! the token scanner that recovers a credential from local log files,
//! the resolver that orders discovery strategies, the backoff schedule
//! of the reply-await loop, the template-driven output formatter, and
//! the payload-type decisions of the send path.

pub mod awaiter;
pub mod config;
pub mod filetype;
pub mod formatter;
pub mod resolver;
pub mod scanner;
