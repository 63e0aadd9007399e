//! Local state kept between runs.
pub mod local;
