//! Typed settings: the fully resolved configuration, its partially-populated
//! parse intermediate, and the field-by-field merge of CLI overrides over
//! parsed values over built-in defaults.

use vstd::prelude::*;
use vstd::string::*;
use crate::content_loader::{ContentLoaderError, ContentLoaderErrorModel};
use crate::doc::{parse_buttons_text, parse_doc};
use crate::options::Options;
use crate::parse::{ParseError, parse_buttons_json, parse_settings_doc};
use crate::resolver::{ResolveError, ResolveErrorModel};

verus! {

/// One launchable action of the grid: identity, command line, presentation
/// and a single-character keyboard shortcut.
#[derive(Clone, Debug)]
pub struct ButtonInfo {
    pub id: String,
    pub command: String,
    pub icon: String,
    pub text: String,
    pub keybind: char,
}

/// Mathematical model of a button: its strings as character sequences.
pub struct ButtonModel {
    pub id: Seq<char>,
    pub command: Seq<char>,
    pub icon: Seq<char>,
    pub text: Seq<char>,
    pub keybind: char,
}

impl View for ButtonInfo {
    type V = ButtonModel;

    open spec fn view(&self) -> ButtonModel {
        ButtonModel {
            id: self.id@,
            command: self.command@,
            icon: self.icon@,
            text: self.text@,
            keybind: self.keybind,
        }
    }
}

/// The model of a button list: each element viewed as a [`ButtonModel`].
pub open spec fn buttons_view(bs: Seq<ButtonInfo>) -> Seq<ButtonModel> {
    bs.map_values(|b: ButtonInfo| b@)
}

/// The model of an optional button list.
pub open spec fn opt_buttons_view(bs: Option<Vec<ButtonInfo>>) -> Option<Seq<ButtonModel>> {
    match bs {
        Some(v) => Some(buttons_view(v@)),
        None => None,
    }
}

/// Fully resolved settings: immutable once constructed, created once per run
/// from merged raw settings and CLI overrides.
#[derive(Clone, Debug)]
pub struct Settings {
    pub buttons_per_row: u32,
    pub column_spacing: u32,
    pub row_spacing: u32,
    pub delay_before_closing: u32,
    pub buttons: Vec<ButtonInfo>,
}

/// Mathematical model of [`Settings`].
pub struct SettingsModel {
    pub buttons_per_row: u32,
    pub column_spacing: u32,
    pub row_spacing: u32,
    pub delay_before_closing: u32,
    pub buttons: Seq<ButtonModel>,
}

impl View for Settings {
    type V = SettingsModel;

    open spec fn view(&self) -> SettingsModel {
        SettingsModel {
            buttons_per_row: self.buttons_per_row,
            column_spacing: self.column_spacing,
            row_spacing: self.row_spacing,
            delay_before_closing: self.delay_before_closing,
            buttons: buttons_view(self.buttons@),
        }
    }
}

/// Partially-populated mirror of [`Settings`]: the intermediate result of
/// parsing a settings document, discarded after the merge.
#[derive(Clone, Debug)]
pub struct RawSettings {
    pub buttons_per_row: Option<u32>,
    pub column_spacing: Option<u32>,
    pub row_spacing: Option<u32>,
    pub delay_before_closing: Option<u32>,
    pub buttons: Option<Vec<ButtonInfo>>,
}

/// Mathematical model of [`RawSettings`].
pub struct RawSettingsModel {
    pub buttons_per_row: Option<u32>,
    pub column_spacing: Option<u32>,
    pub row_spacing: Option<u32>,
    pub delay_before_closing: Option<u32>,
    pub buttons: Option<Seq<ButtonModel>>,
}

impl View for RawSettings {
    type V = RawSettingsModel;

    open spec fn view(&self) -> RawSettingsModel {
        RawSettingsModel {
            buttons_per_row: self.buttons_per_row,
            column_spacing: self.column_spacing,
            row_spacing: self.row_spacing,
            delay_before_closing: self.delay_before_closing,
            buttons: match self.buttons {
                Some(v) => Some(buttons_view(v@)),
                None => None,
            },
        }
    }
}

impl RawSettings {
    /// A raw settings value with every field absent: what the empty
    /// document parses to.
    pub fn empty() -> (r: RawSettings)
        ensures
            r@.buttons_per_row is None,
            r@.column_spacing is None,
            r@.row_spacing is None,
            r@.delay_before_closing is None,
            r@.buttons is None,
    {
        RawSettings {
            buttons_per_row: None,
            column_spacing: None,
            row_spacing: None,
            delay_before_closing: None,
            buttons: None,
        }
    }
}

/// A scalar settings field layered: the CLI override if present, else the
/// parsed value if present, else the built-in default.
pub open spec fn layered(cli: Option<u32>, parsed: Option<u32>, default: u32) -> u32 {
    match cli {
        Some(v) => v,
        None => match parsed {
            Some(v) => v,
            None => default,
        },
    }
}

/// The merge of parsed raw settings with CLI overrides: per scalar field,
/// CLI override, else parsed value, else default (`buttons_per_row = 3`,
/// `column_spacing = 5`, `row_spacing = 5`, `delay_before_closing = 0`);
/// for the button list, the CLI list, else the parsed list, else empty —
/// a present CLI list fully replaces the parsed one, never merges with it.
pub open spec fn spec_merge(
    raw: RawSettingsModel,
    options: Options,
    cli_buttons: Option<Seq<ButtonModel>>,
) -> SettingsModel {
    SettingsModel {
        buttons_per_row: layered(options.buttons_per_row, raw.buttons_per_row, 3),
        column_spacing: layered(options.column_spacing, raw.column_spacing, 5),
        row_spacing: layered(options.row_spacing, raw.row_spacing, 5),
        delay_before_closing: layered(options.delay_before_closing, raw.delay_before_closing, 0),
        buttons: match cli_buttons {
            Some(bs) => bs,
            None => match raw.buttons {
                Some(bs) => bs,
                None => Seq::empty(),
            },
        },
    }
}

/// Produce the final settings from a parse result, the CLI options and an
/// already-parsed CLI button-list override, field by field as
/// [`spec_merge`] states.
pub fn merge_settings(
    raw: RawSettings,
    options: &Options,
    cli_buttons: Option<Vec<ButtonInfo>>,
) -> (r: Settings)
    ensures
        r@ == spec_merge(raw@, *options, opt_buttons_view(cli_buttons)),
{
    let buttons_per_row = match options.buttons_per_row {
        Some(v) => v,
        None => match raw.buttons_per_row {
            Some(v) => v,
            None => 3,
        },
    };
    let column_spacing = match options.column_spacing {
        Some(v) => v,
        None => match raw.column_spacing {
            Some(v) => v,
            None => 5,
        },
    };
    let row_spacing = match options.row_spacing {
        Some(v) => v,
        None => match raw.row_spacing {
            Some(v) => v,
            None => 5,
        },
    };
    let delay_before_closing = match options.delay_before_closing {
        Some(v) => v,
        None => match raw.delay_before_closing {
            Some(v) => v,
            None => 0,
        },
    };
    let buttons = match cli_buttons {
        Some(bs) => bs,
        None => match raw.buttons {
            Some(bs) => bs,
            None => Vec::new(),
        },
    };
    let r = Settings { buttons_per_row, column_spacing, row_spacing, delay_before_closing, buttons };
    proof {
        assert(r@.buttons =~= spec_merge(raw@, *options, opt_buttons_view(cli_buttons)).buttons);
    }
    r
}

/// Why loading settings failed.
#[derive(Clone, Debug)]
pub enum LoadSettingsError {
    /// A file could not be read; carries the reported reason.
    IoError(String),
    /// The settings document, or the CLI button-list override, is
    /// malformed. Always fatal, never defaulted.
    JsonError(ParseError),
    /// A loader script failed.
    ContentLoaderError(ContentLoaderError),
    /// No settings source was available at all.
    ContentOrPathNotFound,
}

/// Model of [`LoadSettingsError`].
pub enum LoadSettingsErrorModel {
    IoError(Seq<char>),
    JsonError,
    ContentLoaderError(ContentLoaderErrorModel),
    ContentOrPathNotFound,
}

impl View for LoadSettingsError {
    type V = LoadSettingsErrorModel;

    open spec fn view(&self) -> LoadSettingsErrorModel {
        match self {
            LoadSettingsError::IoError(m) => LoadSettingsErrorModel::IoError(m@),
            LoadSettingsError::JsonError(_) => LoadSettingsErrorModel::JsonError,
            LoadSettingsError::ContentLoaderError(e) => LoadSettingsErrorModel::ContentLoaderError(
                e@,
            ),
            LoadSettingsError::ContentOrPathNotFound => LoadSettingsErrorModel::ContentOrPathNotFound,
        }
    }
}

/// The merge of already-parsed raw settings with the options: if the
/// options carry an inline button-list override, it must parse, and then
/// fully replaces the parsed list; the scalar fields layer as
/// [`spec_merge`] states.
pub open spec fn spec_override(raw: RawSettingsModel, options: Options) -> Result<
    SettingsModel,
    LoadSettingsErrorModel,
> {
    match options.buttons {
        Some(b) => match parse_buttons_text(b@) {
            None => Err(LoadSettingsErrorModel::JsonError),
            Some(bs) => Ok(spec_merge(raw, options, Some(bs))),
        },
        None => Ok(spec_merge(raw, options, None)),
    }
}

/// What loading settings from a resolved document text yields: the
/// document must parse, the CLI button override (if any) must parse and
/// then fully replaces the document's list, and every field layers CLI
/// override over parsed value over default.
pub open spec fn spec_load(doc: Seq<char>, options: Options) -> Result<
    SettingsModel,
    LoadSettingsErrorModel,
> {
    match parse_doc(doc) {
        None => Err(LoadSettingsErrorModel::JsonError),
        Some(raw) => spec_override(raw, options),
    }
}

/// Merge CLI overrides over parsed raw settings: an inline `buttons`
/// override is parsed and fully replaces the parsed button list, it never
/// merges per button; scalar fields prefer the CLI value, then the parsed
/// value, then the built-in default.
pub fn override_settings(raw: RawSettings, options: &Options) -> (r: Result<
    Settings,
    LoadSettingsError,
>)
    ensures
        (r matches Ok(st) ==> spec_override(raw@, *options) == Ok::<
            SettingsModel,
            LoadSettingsErrorModel,
        >(st@)),
        (r matches Err(e) ==> spec_override(raw@, *options) == Err::<
            SettingsModel,
            LoadSettingsErrorModel,
        >(e@)),
{
    let ghost rm = raw@;
    let cli_buttons: Option<Vec<ButtonInfo>> = match &options.buttons {
        Some(b) => match parse_buttons_json(b.as_str()) {
            Ok(bs) => Some(bs),
            Err(e) => {
                return Err(LoadSettingsError::JsonError(e));
            },
        },
        None => None,
    };
    Ok(merge_settings(raw, options, cli_buttons))
}

/// Parse a settings document and merge the CLI overrides on top, as
/// [`spec_load`] states: a malformed document or override is a
/// `JsonError`, never silently defaulted.
pub fn from_json(json_str: &str, options: &Options) -> (r: Result<Settings, LoadSettingsError>)
    ensures
        (r matches Ok(st) ==> spec_load(json_str@, *options) == Ok::<
            SettingsModel,
            LoadSettingsErrorModel,
        >(st@)),
        (r matches Err(e) ==> spec_load(json_str@, *options) == Err::<
            SettingsModel,
            LoadSettingsErrorModel,
        >(e@)),
{
    match parse_settings_doc(json_str) {
        Ok(raw) => override_settings(raw, options),
        Err(e) => Err(LoadSettingsError::JsonError(e)),
    }
}

/// How a failure of settings resolution surfaces: no source at all is
/// `ContentOrPathNotFound`, a loader failure keeps its reason, a missing
/// or unreadable file is an `IoError`.
pub open spec fn spec_settings_resolve_error(e: ResolveErrorModel) -> LoadSettingsErrorModel {
    match e {
        ResolveErrorModel::NotFound => LoadSettingsErrorModel::ContentOrPathNotFound,
        ResolveErrorModel::Script(ce) => LoadSettingsErrorModel::ContentLoaderError(ce),
        ResolveErrorModel::FileMissing => LoadSettingsErrorModel::IoError("file not found"@),
        ResolveErrorModel::Read(m) => LoadSettingsErrorModel::IoError(m),
    }
}

impl Settings {
    /// Turn the outcome of settings resolution into the final settings:
    /// a resolved document is parsed and merged with the CLI overrides as
    /// [`spec_load`] states; a resolution failure surfaces as
    /// [`spec_settings_resolve_error`] states, so the absence of every
    /// source is a hard error here, never defaulted.
    pub fn load_settings(options: &Options, resolved: Result<String, ResolveError>) -> (r: Result<
        Settings,
        LoadSettingsError,
    >)
        ensures
            (resolved matches Ok(text) ==> ((r matches Ok(st) ==> spec_load(text@, *options)
                == Ok::<SettingsModel, LoadSettingsErrorModel>(st@)) && (r matches Err(e)
                ==> spec_load(text@, *options) == Err::<SettingsModel, LoadSettingsErrorModel>(
                e@,
            )))),
            (resolved matches Err(re) ==> (r matches Err(e) && e@ == spec_settings_resolve_error(
                re@,
            ))),
    {
        match resolved {
            Ok(text) => from_json(text.as_str(), options),
            Err(ResolveError::NotFound) => Err(LoadSettingsError::ContentOrPathNotFound),
            Err(ResolveError::Script(ce)) => Err(LoadSettingsError::ContentLoaderError(ce)),
            Err(ResolveError::FileMissing) => Err(
                LoadSettingsError::IoError(String::from_str("file not found")),
            ),
            Err(ResolveError::Read(m)) => Err(LoadSettingsError::IoError(m)),
        }
    }
}

/// For any parsed document and any overrides, each merged field is the
/// override when present, else the document's value when present, else
/// the built-in default — and a present CLI button list fully replaces
/// the document's list, while without one the document's list (or the
/// empty list) stands.
pub proof fn lemma_merge_layering(
    doc: Seq<char>,
    options: Options,
    cli_buttons: Option<Seq<ButtonModel>>,
)
    requires
        parse_doc(doc) is Some,
    ensures
        ({
            let raw = parse_doc(doc)->0;
            let merged = spec_merge(raw, options, cli_buttons);
            &&& merged.buttons_per_row == layered(options.buttons_per_row, raw.buttons_per_row, 3)
            &&& merged.column_spacing == layered(options.column_spacing, raw.column_spacing, 5)
            &&& merged.row_spacing == layered(options.row_spacing, raw.row_spacing, 5)
            &&& merged.delay_before_closing == layered(
                options.delay_before_closing,
                raw.delay_before_closing,
                0,
            )
            &&& cli_buttons matches Some(bs) ==> merged.buttons == bs
            &&& cli_buttons is None && raw.buttons is Some ==> merged.buttons == raw.buttons->0
            &&& cli_buttons is None && raw.buttons is None ==> merged.buttons
                == Seq::<ButtonModel>::empty()
        }),
{
}

} // verus!

