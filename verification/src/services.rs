//! Services: status text rendering, post excerpts, upload checks, the login limiter and guards.

pub mod admin_guard;
pub mod admin_post_service;
pub mod auth_service;
pub mod rate_limit;
pub mod status_service;
pub mod upload_service;
