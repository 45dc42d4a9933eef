//! `nordnotes` core: a minimal note-taking backend.
//!
//! The library holds the verified core of the service: parsing of
//! time-to-live markers, note and user entities with minute-precision
//! timestamps, bearer-token issuance and validation, and a bounded,
//! expiry-aware note store composed behind a single storage facade.
//! Process wiring (HTTP routing, request decoding, the credential file)
//! lives outside the library and talks to it through plain values.

pub mod controllers;
pub mod dto;
pub mod entities;
pub mod errors;
pub mod notes;
pub mod params;
pub mod repositories;
pub mod storage;
pub mod users;
pub mod utils;
