//! Decision logic of an onion-service protection proxy: rate limiting,
//! routing, session bookkeeping and mirror lifecycle management.

pub mod activity;
pub mod admin;
pub mod backend;
pub mod behavior;
pub mod captcha_image;
pub mod captcha_pool;
pub mod clock;
pub mod daemons;
pub mod detection;
pub mod format;
pub mod forms;
pub mod gateway;
pub mod glyphs;
pub mod json;
pub mod mirror;
pub mod node;
pub mod orchestrator_api;
pub mod pages;
pub mod random;
pub mod ratelimit;
pub mod registry;
pub mod routing;
pub mod scaling;
pub mod startup;
pub mod strmap;
pub mod text;
pub mod tier;
pub mod tor;
