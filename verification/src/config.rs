//! Settings read from `config.toml` beside the program, with their defaults.

use vstd::prelude::*;
use crate::text::owned;

verus! {

/// A logging level filter, from `Off` to the most verbose `Trace`.
#[derive(Clone, Copy, Debug, PartialEq, Eq, Structural)]
pub enum LogLevel {
    Off,
    Error,
    Warn,
    Info,
    Debug,
    Trace,
}

pub open spec fn default_api_url_text() -> Seq<char> {
    "https://alexandria.soundchaser128.com"@
}

pub open spec fn default_content_url_text() -> Seq<char> {
    "https://content.r2.soundchaser128.com"@
}

/// The catalogue API used when none is configured.
pub fn default_api_url() -> (r: String)
    ensures
        r@ == default_api_url_text(),
{
    owned("https://alexandria.soundchaser128.com")
}

/// The content CDN used when none is configured.
pub fn default_content_url() -> (r: String)
    ensures
        r@ == default_content_url_text(),
{
    owned("https://content.r2.soundchaser128.com")
}

/// The settings of `config.toml`; every one of them is optional in the file.
pub struct Config {
    pub api_url: String,
    pub content_url: String,
    pub gpu: bool,
    pub log: Option<LogLevel>,
}

impl Default for Config {
    /// The settings when there is no file: the default URLs, no GPU, no logging.
    fn default() -> (r: Self)
        ensures
            r.api_url@ == default_api_url_text(),
            r.content_url@ == default_content_url_text(),
            !r.gpu,
            r.log is None,
    {
        Config {
            api_url: default_api_url(),
            content_url: default_content_url(),
            gpu: false,
            log: None,
        }
    }
}

/// Whether progress bars are hidden: they are whenever logging is on, so
/// that log lines and bars do not overwrite each other.
pub fn progress_hidden(log: &Option<LogLevel>) -> (r: bool)
    ensures
        r == log.is_some(),
{
    log.is_some()
}

} // verus!
