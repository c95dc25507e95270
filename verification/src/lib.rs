//! The page-side core of a small headless browser.

pub mod cookie;
pub mod crypto;
pub mod dom;
pub mod fetch;
pub mod host;
pub mod json;
pub mod module;
pub mod number;
pub mod quiet;
pub mod remote;
pub mod runtime;
pub mod script;
pub mod state;
pub mod text;
pub mod text_codec;
pub mod urls;
pub mod watchdog;
