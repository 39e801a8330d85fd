//! Hunt a username across the sites of a manifest.
//!
//! Module map:
//!   * [`text`], [`order`] — string operations and the name order, stated
//!     over the characters of a string
//!   * [`json`] — request payloads as JSON values
//!   * [`site`] — one site's detection recipe
//!   * [`manifest`] — all recipes, by name, in name order
//!   * [`result`] — query statuses and results
//!   * [`regex`] — username patterns, run by `fancy_regex`
//!   * [`detect`] — planning a request and judging a response, no network
//!   * [`engine`] — the decisions of a run around the requests the caller makes
pub mod text;
pub mod order;
pub mod json;
pub mod site;
pub mod manifest;
pub mod result;
pub mod regex;
pub mod detect;
pub mod engine;
