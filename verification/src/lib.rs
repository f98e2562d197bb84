//! The logic of a file-sharing server on top of an S3 bucket.
//!
//! Requests are answered by functions of what they have heard so far; see `protocol` and `api`.

pub mod account;
pub mod admin;
pub mod api;
pub mod assets;
pub mod assoc;
pub mod cleanup;
pub mod clock;
pub mod crypto;
pub mod deletion;
pub mod devices;
pub mod gate;
pub mod hex;
pub mod ids;
pub mod json;
pub mod keys;
pub mod laws_access;
pub mod laws_accounts;
pub mod laws_clearing;
pub mod laws_expiry;
pub mod laws_hearing;
pub mod laws_looking;
pub mod laws_profiles;
pub mod laws_removals;
pub mod laws_scope;
pub mod laws_sessions;
pub mod laws_shares;
pub mod laws_start;
pub mod laws_storage;
pub mod laws_sweep;
pub mod laws_terms;
pub mod laws_texts;
pub mod laws_uploads;
pub mod laws_views;
pub mod laws_wire;
pub mod media;
pub mod model;
pub mod number;
pub mod parts;
pub mod profile;
pub mod protocol;
pub mod session;
pub mod setup;
pub mod shares;
pub mod sharing;
pub mod storage;
pub mod text;
pub mod token;
pub mod uploads;
pub mod wire;
