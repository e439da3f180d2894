//! One file per project type.

pub mod rest_api;
