//! The pre-parsed command-line options handed to the core.
//!
//! Every field is optional; a `Some` value is the highest-priority override
//! for the corresponding setting or configuration source. Paths are carried
//! as plain strings; the caller that parses the command line converts.

use vstd::prelude::*;

verus! {

/// CLI overrides for every setting and every configuration source.
/// Immutable after parse; acts as the highest-priority layer during
/// both style and settings resolution.
#[derive(Clone, Debug)]
pub struct Options {
    pub version: Option<bool>,
    pub css_path: Option<String>,
    pub css_content: Option<String>,
    pub css_loader_path: Option<String>,
    pub settings_path: Option<String>,
    pub settings_content: Option<String>,
    pub settings_loader_path: Option<String>,
    pub buttons: Option<String>,
    pub buttons_per_row: Option<u32>,
    pub column_spacing: Option<u32>,
    pub row_spacing: Option<u32>,
    pub delay_before_closing: Option<u32>,
}

impl Options {
    /// Options with no override set: what a bare command line produces.
    pub fn empty() -> (r: Options)
        ensures
            r.version is None,
            r.css_path is None,
            r.css_content is None,
            r.css_loader_path is None,
            r.settings_path is None,
            r.settings_content is None,
            r.settings_loader_path is None,
            r.buttons is None,
            r.buttons_per_row is None,
            r.column_spacing is None,
            r.row_spacing is None,
            r.delay_before_closing is None,
    {
        Options {
            version: None,
            css_path: None,
            css_content: None,
            css_loader_path: None,
            settings_path: None,
            settings_content: None,
            settings_loader_path: None,
            buttons: None,
            buttons_per_row: None,
            column_spacing: None,
            row_spacing: None,
            delay_before_closing: None,
        }
    }
}

} // verus!
