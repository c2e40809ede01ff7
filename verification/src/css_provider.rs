//! Style loading decisions: the same layered resolution as the settings
//! domain, but the absence of every style source is benign — the run
//! proceeds with the toolkit's defaults — and a resolved payload is handed
//! to the rendering layer, whose verdict is surfaced as a structured
//! error, not a crash.

use vstd::prelude::*;
use vstd::string::*;
use crate::content_loader::{ContentLoaderError, ContentLoaderErrorModel};
use crate::resolver::{ResolveError, ResolveErrorModel};

verus! {

/// Why loading the style failed.
#[derive(Clone, Debug)]
pub enum LoadCSSProviderError {
    /// A file could not be read; carries the reported reason.
    Io(String),
    /// The rendering layer rejected the payload; carries its diagnostic.
    CssProviderError(String),
    /// A loader script failed.
    ContentLoaderError(ContentLoaderError),
    /// No display to apply the style to.
    Display,
    /// No style content or path was given where one was required.
    ContentOrPathNotFound,
}

/// Model of [`LoadCSSProviderError`].
pub enum LoadCSSProviderErrorModel {
    Io(Seq<char>),
    CssProviderError(Seq<char>),
    ContentLoaderError(ContentLoaderErrorModel),
    Display,
    ContentOrPathNotFound,
}

impl View for LoadCSSProviderError {
    type V = LoadCSSProviderErrorModel;

    open spec fn view(&self) -> LoadCSSProviderErrorModel {
        match self {
            LoadCSSProviderError::Io(m) => LoadCSSProviderErrorModel::Io(m@),
            LoadCSSProviderError::CssProviderError(m) => LoadCSSProviderErrorModel::CssProviderError(
                m@,
            ),
            LoadCSSProviderError::ContentLoaderError(e) => LoadCSSProviderErrorModel::ContentLoaderError(
                e@,
            ),
            LoadCSSProviderError::Display => LoadCSSProviderErrorModel::Display,
            LoadCSSProviderError::ContentOrPathNotFound => LoadCSSProviderErrorModel::ContentOrPathNotFound,
        }
    }
}

/// What the style resolution outcome means: a payload is to be applied;
/// every source absent means no styling at all, which is not an error —
/// the run proceeds with toolkit defaults; any other failure is fatal.
pub fn style_payload(resolved: Result<String, ResolveError>) -> (r: Result<
    Option<String>,
    LoadCSSProviderError,
>)
    ensures
        (resolved matches Ok(t) ==> (r matches Ok(p) && p matches Some(out) && out@ == t@)),
        (resolved matches Err(e) ==> match e@ {
            ResolveErrorModel::NotFound => r matches Ok(p) && p is None,
            ResolveErrorModel::Script(ce) => r matches Err(le) && le@
                == LoadCSSProviderErrorModel::ContentLoaderError(ce),
            ResolveErrorModel::FileMissing => r matches Err(le) && le@ matches LoadCSSProviderErrorModel::Io(_),
            ResolveErrorModel::Read(m) => r matches Err(le) && le@
                == LoadCSSProviderErrorModel::Io(m),
        }),
{
    match resolved {
        Ok(t) => Ok(Some(t)),
        Err(ResolveError::NotFound) => Ok(None),
        Err(ResolveError::Script(ce)) => Err(LoadCSSProviderError::ContentLoaderError(ce)),
        Err(ResolveError::FileMissing) => Err(
            LoadCSSProviderError::Io(String::from_str("file not found")),
        ),
        Err(ResolveError::Read(m)) => Err(LoadCSSProviderError::Io(m)),
    }
}

/// What the rendering layer reported when a style payload was applied.
#[derive(Clone, Debug)]
pub enum StyleApply {
    /// The payload was accepted and installed.
    Applied,
    /// The payload was rejected; carries the diagnostic text.
    Rejected(String),
}

/// Decide the result of applying one style payload: with no display the
/// style cannot be installed at all; a rejected payload surfaces the
/// rendering layer's diagnostic as a structured, recoverable error.
pub fn set_css_provider(display_present: bool, apply: StyleApply) -> (r: Result<
    (),
    LoadCSSProviderError,
>)
    ensures
        !display_present ==> (r matches Err(e) && e@ is Display),
        display_present ==> (apply is Applied ==> r is Ok),
        display_present ==> (apply matches StyleApply::Rejected(m) ==> (r matches Err(e) && e@
            matches LoadCSSProviderErrorModel::CssProviderError(mm) && mm == m@)),
{
    if !display_present {
        return Err(LoadCSSProviderError::Display);
    }
    match apply {
        StyleApply::Applied => Ok(()),
        StyleApply::Rejected(m) => Err(LoadCSSProviderError::CssProviderError(m)),
    }
}

} // verus!
