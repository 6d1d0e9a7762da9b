//! What the request handlers decide, apart from the database, the network and the files.

pub mod admin;
pub mod blog;
pub mod feed;
pub mod microblog;
pub mod post;
pub mod search;
