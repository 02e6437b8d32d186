//! The chrome of a small browser: an address field with its editing and focus rules, a glyph
//! atlas, and the plan of what is painted for the bar each frame; around them the settings,
//! the settings page, request filtering, and what the window's events do.
//!
//! - [`urlbar`]: the address field and what a submitted text resolves to.
//! - [`weburl`]: URLs as the address field reads them.
//! - [`atlas`]: rasterized glyphs packed into one image.
//! - [`chrome`]: the quads and GPU switches of one frame of the bar.
//! - [`browser`]: keys, clicks and titles.
//! - [`config`], [`settings`], [`preferences`]: the settings, their page, and the engine's
//!   preferences.
//! - [`privacy`]: the ad-blocking engine with its cache of verdicts.
//! - [`paths`], [`numbers`], [`text`]: paths, decimal numbers and text.

pub mod atlas;
pub mod browser;
pub mod chrome;
pub mod config;
pub mod numbers;
pub mod paths;
pub mod preferences;
pub mod privacy;
pub mod settings;
pub mod text;
pub mod urlbar;
pub mod weburl;
