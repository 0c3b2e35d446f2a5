//! Catalog, placement and condition logic of an archive of recorded television programs.
//!
//! - [`store`]: the catalog of programs, ordered by their natural key, and of the videos they
//!   own, with its invariants and the laws its operations keep.
//! - [`service`], [`ingest`], [`events`], [`storage`]: the decisions of the request handlers:
//!   envelope checks, status codes, the steps of an upload and a download, and the thumbnail
//!   handler.
//! - [`condition`], [`condition_ranges`], [`range`], [`literal_or_regex`],
//!   [`channel_filter`], [`placement`], [`config`]: the condition language and the rules that
//!   place a new video on a backend and under a key prefix.
//! - [`model`], [`wire`], [`persist`]: records, their wire projections and their snapshot form.
//! - [`validator`], [`program_id`], [`preset`]: checks on client input, recorder identifiers
//!   and encoder presets.
mod text;
pub mod range;
pub mod condition_ranges;
pub mod wire;
pub mod model;
pub mod store;
pub mod validator;
pub mod literal_or_regex;
pub mod channel_filter;
pub mod condition;
pub mod config;
pub mod placement;
pub mod service;
pub mod ingest;
pub mod program_id;
pub mod preset;
pub mod events;
pub mod storage;
pub mod persist;
pub mod chinachu;
