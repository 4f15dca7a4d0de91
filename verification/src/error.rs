//! The library's error type.
use vstd::prelude::*;

verus! {

/// What went wrong, with a human-readable message.
#[derive(Debug)]
pub enum BolootError {
    InvalidDate(String),
    InvalidConfig(String),
    LocationNotFound(String),
    Holiday(String),
    Prayer(String),
    Io(String),
    Json(String),
    Toml(String),
}

pub type Result<T> = core::result::Result<T, BolootError>;

} // verus!
