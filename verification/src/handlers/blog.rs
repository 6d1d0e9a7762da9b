//! Blog pages under `/blog`.

pub mod search;
