//! Helpers shared by the handlers: Markdown rendering, the session cookie, slugs,
//! passwords, random tokens and dates.

pub mod cookie;
pub mod datetime;
pub mod markdown;
pub mod password;
pub mod slug;
pub mod token;
