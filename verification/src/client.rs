//! The portal client: API shapes, routes and download checks.
pub mod api;
pub mod download;
