//! Generic layered configuration resolution.
//!
//! A prioritized list of sources — inline content, a loader-script path, an
//! explicit file path, then a fixed table of well-known locations — is tried
//! in order; the first source that yields a payload wins, and no payloads are
//! ever merged. The same resolver serves both the settings and the style
//! domain; only the well-known path table differs.
//!
//! Performing a source (running a script, reading a file) happens outside
//! this crate; the caller walks the source list, hands back an [`Outcome`]
//! for each source it acted on, and [`step_verdict`] decides whether that
//! settles the resolution, fails it, or moves on to the next source.

use vstd::prelude::*;
use vstd::string::*;
use crate::content_loader::{ContentLoaderError, ContentLoaderErrorModel};
use crate::options::Options;

verus! {

/// One candidate configuration source, in resolution priority order.
/// `missing_ok` is true exactly for the well-known fallback locations: a
/// missing path there falls through to the next source, while a path the
/// user asked for explicitly fails the whole resolution when absent.
#[derive(Clone, Debug)]
pub enum ConfigSource {
    /// Payload text supplied directly, e.g. by a CLI override.
    Inline(String),
    /// A loader script whose captured output is the payload.
    Script { path: String, missing_ok: bool },
    /// A static file read as text.
    File { path: String, missing_ok: bool },
}

/// Model of [`ConfigSource`]: strings as character sequences.
pub enum ConfigSourceModel {
    Inline(Seq<char>),
    Script { path: Seq<char>, missing_ok: bool },
    File { path: Seq<char>, missing_ok: bool },
}

impl View for ConfigSource {
    type V = ConfigSourceModel;

    open spec fn view(&self) -> ConfigSourceModel {
        match self {
            ConfigSource::Inline(c) => ConfigSourceModel::Inline(c@),
            ConfigSource::Script { path, missing_ok } => ConfigSourceModel::Script {
                path: path@,
                missing_ok: *missing_ok,
            },
            ConfigSource::File { path, missing_ok } => ConfigSourceModel::File {
                path: path@,
                missing_ok: *missing_ok,
            },
        }
    }
}

/// The model of a source list: each element viewed as a model.
pub open spec fn sources_view(ss: Seq<ConfigSource>) -> Seq<ConfigSourceModel> {
    ss.map_values(|s: ConfigSource| s@)
}

/// What the caller observed when it acted on one source.
#[derive(Clone, Debug)]
pub enum Outcome {
    /// The source yielded this payload text.
    Text(String),
    /// The source's path does not exist.
    Missing,
    /// The loader script was run and failed.
    Script(ContentLoaderError),
    /// The file exists but could not be read as text; carries the reason.
    ReadFailed(String),
}

/// The model of an outcome list: each element viewed as a model.
pub open spec fn outcomes_view(os: Seq<Outcome>) -> Seq<OutcomeModel> {
    os.map_values(|o: Outcome| o@)
}

/// Model of [`Outcome`].
pub enum OutcomeModel {
    Text(Seq<char>),
    Missing,
    Script(ContentLoaderErrorModel),
    ReadFailed(Seq<char>),
}

impl View for Outcome {
    type V = OutcomeModel;

    open spec fn view(&self) -> OutcomeModel {
        match self {
            Outcome::Text(t) => OutcomeModel::Text(t@),
            Outcome::Missing => OutcomeModel::Missing,
            Outcome::Script(e) => OutcomeModel::Script(e@),
            Outcome::ReadFailed(m) => OutcomeModel::ReadFailed(m@),
        }
    }
}

/// Why a resolution failed.
#[derive(Clone, Debug)]
pub enum ResolveError {
    /// Every source was absent. Fatal for settings, benign for style.
    NotFound,
    /// A loader script failed.
    Script(ContentLoaderError),
    /// An explicitly requested file does not exist.
    FileMissing,
    /// A file could not be read as text; carries the reason.
    Read(String),
}

/// Model of [`ResolveError`].
pub enum ResolveErrorModel {
    NotFound,
    Script(ContentLoaderErrorModel),
    FileMissing,
    Read(Seq<char>),
}

impl View for ResolveError {
    type V = ResolveErrorModel;

    open spec fn view(&self) -> ResolveErrorModel {
        match self {
            ResolveError::NotFound => ResolveErrorModel::NotFound,
            ResolveError::Script(e) => ResolveErrorModel::Script(e@),
            ResolveError::FileMissing => ResolveErrorModel::FileMissing,
            ResolveError::Read(m) => ResolveErrorModel::Read(m@),
        }
    }
}

/// What one resolution step decided.
#[derive(Clone, Debug)]
pub enum Verdict {
    /// This source settles the resolution with this payload.
    Use(String),
    /// This source is absent and may be skipped; try the next one.
    Next,
    /// This source fails the whole resolution.
    Fail(ResolveError),
}

/// Model of [`Verdict`].
pub enum VerdictModel {
    Use(Seq<char>),
    Next,
    Fail(ResolveErrorModel),
}

impl View for Verdict {
    type V = VerdictModel;

    open spec fn view(&self) -> VerdictModel {
        match self {
            Verdict::Use(t) => VerdictModel::Use(t@),
            Verdict::Next => VerdictModel::Next,
            Verdict::Fail(e) => VerdictModel::Fail(e@),
        }
    }
}

/// The verdict one source and its outcome lead to: inline content always
/// wins unchanged; a payload wins; a missing well-known path is skipped; a
/// missing explicit path, a failed script or an unreadable file fail the
/// resolution.
pub open spec fn spec_step_verdict(source: ConfigSourceModel, outcome: OutcomeModel) -> VerdictModel {
    match source {
        ConfigSourceModel::Inline(c) => VerdictModel::Use(c),
        ConfigSourceModel::Script { path, missing_ok } => match outcome {
            OutcomeModel::Text(t) => VerdictModel::Use(t),
            OutcomeModel::Missing => if missing_ok {
                VerdictModel::Next
            } else {
                VerdictModel::Fail(
                    ResolveErrorModel::Script(ContentLoaderErrorModel::PathNotFound),
                )
            },
            OutcomeModel::Script(e) => VerdictModel::Fail(ResolveErrorModel::Script(e)),
            OutcomeModel::ReadFailed(m) => VerdictModel::Fail(ResolveErrorModel::Read(m)),
        },
        ConfigSourceModel::File { path, missing_ok } => match outcome {
            OutcomeModel::Text(t) => VerdictModel::Use(t),
            OutcomeModel::Missing => if missing_ok {
                VerdictModel::Next
            } else {
                VerdictModel::Fail(ResolveErrorModel::FileMissing)
            },
            OutcomeModel::Script(e) => VerdictModel::Fail(ResolveErrorModel::Script(e)),
            OutcomeModel::ReadFailed(m) => VerdictModel::Fail(ResolveErrorModel::Read(m)),
        },
    }
}

/// Decide what one source's outcome means for the resolution.
pub fn step_verdict(source: &ConfigSource, outcome: Outcome) -> (v: Verdict)
    ensures
        v@ == spec_step_verdict(source@, outcome@),
{
    match source {
        ConfigSource::Inline(c) => Verdict::Use(c.clone()),
        ConfigSource::Script { path: _, missing_ok } => match outcome {
            Outcome::Text(t) => Verdict::Use(t),
            Outcome::Missing => if *missing_ok {
                Verdict::Next
            } else {
                Verdict::Fail(ResolveError::Script(ContentLoaderError::PathNotFound))
            },
            Outcome::Script(e) => Verdict::Fail(ResolveError::Script(e)),
            Outcome::ReadFailed(m) => Verdict::Fail(ResolveError::Read(m)),
        },
        ConfigSource::File { path: _, missing_ok } => match outcome {
            Outcome::Text(t) => Verdict::Use(t),
            Outcome::Missing => if *missing_ok {
                Verdict::Next
            } else {
                Verdict::Fail(ResolveError::FileMissing)
            },
            Outcome::Script(e) => Verdict::Fail(ResolveError::Script(e)),
            Outcome::ReadFailed(m) => Verdict::Fail(ResolveError::Read(m)),
        },
    }
}

/// Resolution over the sources from position `i` on: the first source whose
/// verdict is `Use` wins, a `Fail` verdict aborts, and an exhausted list is
/// `NotFound`.
pub open spec fn spec_resolve_from(
    sources: Seq<ConfigSourceModel>,
    outcomes: Seq<OutcomeModel>,
    i: int,
) -> Result<Seq<char>, ResolveErrorModel>
    decreases sources.len() - i,
{
    if i < 0 || i >= sources.len() {
        Err(ResolveErrorModel::NotFound)
    } else {
        match spec_step_verdict(sources[i], outcomes[i]) {
            VerdictModel::Use(t) => Ok(t),
            VerdictModel::Fail(e) => Err(e),
            VerdictModel::Next => spec_resolve_from(sources, outcomes, i + 1),
        }
    }
}

/// Whole-list resolution: first available source wins, no merging.
pub open spec fn spec_resolve(
    sources: Seq<ConfigSourceModel>,
    outcomes: Seq<OutcomeModel>,
) -> Result<Seq<char>, ResolveErrorModel> {
    spec_resolve_from(sources, outcomes, 0)
}

/// Resolve a prioritized source list against the outcomes the caller
/// observed for each source, first available wins.
#[verifier::loop_isolation(false)]
pub fn resolve(sources: &Vec<ConfigSource>, outcomes: Vec<Outcome>) -> (r: Result<
    String,
    ResolveError,
>)
    requires
        outcomes@.len() == sources@.len(),
    ensures
        (r matches Ok(t) ==> spec_resolve(sources_view(sources@), outcomes_view(outcomes@)) == Ok::<
            Seq<char>,
            ResolveErrorModel,
        >(t@)),
        (r matches Err(e) ==> spec_resolve(sources_view(sources@), outcomes_view(outcomes@)) == Err::<
            Seq<char>,
            ResolveErrorModel,
        >(e@)),
{
    let ghost ss = sources_view(sources@);
    let ghost os = outcomes_view(outcomes@);
    let mut rest = outcomes;
    let mut i: usize = 0;
    // take the outcomes from the front, one per source, so that the head
    // of `rest` always belongs to source `i`
    while i < sources.len()
        invariant
            i <= sources@.len(),
            rest@.len() == sources@.len() - i,
            ss == sources_view(sources@),
            forall|j: int| 0 <= j < rest@.len() ==> rest@[j]@ == os[i + j],
            spec_resolve(ss, os) == spec_resolve_from(ss, os, i as int),
        decreases sources@.len() - i,
    {
        let outcome = rest.remove(0);
        proof {
            assert(outcome@ == os[i as int]);
            assert(ss[i as int] == sources@[i as int]@);
        }
        let v = step_verdict(&sources[i], outcome);
        proof {
            assert(v@ == spec_step_verdict(ss[i as int], os[i as int]));
        }
        match v {
            Verdict::Use(t) => {
                proof {
                    assert(spec_resolve_from(ss, os, i as int) == Ok::<
                        Seq<char>,
                        ResolveErrorModel,
                    >(t@));
                }
                return Ok(t);
            },
            Verdict::Fail(e) => {
                proof {
                    assert(spec_resolve_from(ss, os, i as int) == Err::<
                        Seq<char>,
                        ResolveErrorModel,
                    >(e@));
                }
                return Err(e);
            },
            Verdict::Next => {
                proof {
                    assert(spec_resolve_from(ss, os, i as int) == spec_resolve_from(
                        ss,
                        os,
                        i + 1,
                    ));
                }
                i = i + 1;
            },
        }
    }
    Err(ResolveError::NotFound)
}

/// The model of an optional string.
pub open spec fn opt_view(o: Option<String>) -> Option<Seq<char>> {
    match o {
        Some(s) => Some(s@),
        None => None,
    }
}

/// The fixed well-known fallback locations of one configuration domain:
/// subpaths under the home directory for the loader-script and static
/// variants, and two system-wide static files.
#[derive(Clone, Debug)]
pub struct WellKnownPaths {
    pub home_script_subpath: String,
    pub home_file_subpath: String,
    pub usr_local_file: String,
    pub etc_file: String,
}

/// Model of [`WellKnownPaths`].
pub struct WellKnownPathsModel {
    pub home_script_subpath: Seq<char>,
    pub home_file_subpath: Seq<char>,
    pub usr_local_file: Seq<char>,
    pub etc_file: Seq<char>,
}

impl View for WellKnownPaths {
    type V = WellKnownPathsModel;

    open spec fn view(&self) -> WellKnownPathsModel {
        WellKnownPathsModel {
            home_script_subpath: self.home_script_subpath@,
            home_file_subpath: self.home_file_subpath@,
            usr_local_file: self.usr_local_file@,
            etc_file: self.etc_file@,
        }
    }
}

/// The prioritized source list of one domain: inline content first, then
/// the loader-script path, then the explicit file path — each present only
/// when supplied, and fatal when supplied but absent on disk — then the
/// well-known locations, each skipped silently when absent: the home
/// loader-script variant, the home static variant, a `/usr/local/etc`
/// static file, an `/etc` static file.
pub open spec fn spec_layered_sources(
    content: Option<Seq<char>>,
    loader: Option<Seq<char>>,
    file: Option<Seq<char>>,
    home: Option<Seq<char>>,
    table: WellKnownPathsModel,
) -> Seq<ConfigSourceModel> {
    (match content {
        Some(c) => seq![ConfigSourceModel::Inline(c)],
        None => Seq::empty(),
    }) + (match loader {
        Some(p) => seq![ConfigSourceModel::Script { path: p, missing_ok: false }],
        None => Seq::empty(),
    }) + (match file {
        Some(p) => seq![ConfigSourceModel::File { path: p, missing_ok: false }],
        None => Seq::empty(),
    }) + (match home {
        Some(h) => seq![
            ConfigSourceModel::Script { path: h + table.home_script_subpath, missing_ok: true },
            ConfigSourceModel::File { path: h + table.home_file_subpath, missing_ok: true },
        ],
        None => Seq::empty(),
    }) + seq![
        ConfigSourceModel::File { path: table.usr_local_file, missing_ok: true },
        ConfigSourceModel::File { path: table.etc_file, missing_ok: true },
    ]
}

/// Build one domain's prioritized source list from its CLI-supplied
/// sources, the home directory if one is known, and the domain's
/// well-known path table.
pub fn build_sources(
    content: &Option<String>,
    loader: &Option<String>,
    file: &Option<String>,
    home: &Option<String>,
    table: &WellKnownPaths,
) -> (r: Vec<ConfigSource>)
    ensures
        sources_view(r@) == spec_layered_sources(
            opt_view(*content),
            opt_view(*loader),
            opt_view(*file),
            opt_view(*home),
            table@,
        ),
{
    let mut v: Vec<ConfigSource> = Vec::new();
    if let Some(c) = content {
        v.push(ConfigSource::Inline(c.clone()));
    }
    if let Some(p) = loader {
        v.push(ConfigSource::Script { path: p.clone(), missing_ok: false });
    }
    if let Some(p) = file {
        v.push(ConfigSource::File { path: p.clone(), missing_ok: false });
    }
    if let Some(h) = home {
        v.push(
            ConfigSource::Script {
                path: h.clone().concat(table.home_script_subpath.as_str()),
                missing_ok: true,
            },
        );
        v.push(
            ConfigSource::File {
                path: h.clone().concat(table.home_file_subpath.as_str()),
                missing_ok: true,
            },
        );
    }
    v.push(ConfigSource::File { path: table.usr_local_file.clone(), missing_ok: true });
    v.push(ConfigSource::File { path: table.etc_file.clone(), missing_ok: true });
    proof {
        assert(sources_view(v@) =~= spec_layered_sources(
            opt_view(*content),
            opt_view(*loader),
            opt_view(*file),
            opt_view(*home),
            table@,
        ));
    }
    v
}

/// The well-known path table of the settings domain.
pub open spec fn spec_settings_paths() -> WellKnownPathsModel {
    WellKnownPathsModel {
        home_script_subpath: "/.config/curtains/close/settings.sh"@,
        home_file_subpath: "/.config/curtains/close/settings.json"@,
        usr_local_file: "/usr/local/etc/curtains-close/settings.json"@,
        etc_file: "/etc/curtains-close/settings.json"@,
    }
}

/// The well-known path table of the settings domain.
pub fn settings_paths() -> (t: WellKnownPaths)
    ensures
        t@ == spec_settings_paths(),
{
    WellKnownPaths {
        home_script_subpath: String::from_str("/.config/curtains/close/settings.sh"),
        home_file_subpath: String::from_str("/.config/curtains/close/settings.json"),
        usr_local_file: String::from_str("/usr/local/etc/curtains-close/settings.json"),
        etc_file: String::from_str("/etc/curtains-close/settings.json"),
    }
}

/// The well-known path table of the style domain.
pub open spec fn spec_style_paths() -> WellKnownPathsModel {
    WellKnownPathsModel {
        home_script_subpath: "/.config/curtains/close/style.sh"@,
        home_file_subpath: "/.config/curtains/close/style.css"@,
        usr_local_file: "/usr/local/etc/curtains-close/style.css"@,
        etc_file: "/etc/curtains-close/style.css"@,
    }
}

/// The well-known path table of the style domain.
pub fn style_paths() -> (t: WellKnownPaths)
    ensures
        t@ == spec_style_paths(),
{
    WellKnownPaths {
        home_script_subpath: String::from_str("/.config/curtains/close/style.sh"),
        home_file_subpath: String::from_str("/.config/curtains/close/style.css"),
        usr_local_file: String::from_str("/usr/local/etc/curtains-close/style.css"),
        etc_file: String::from_str("/etc/curtains-close/style.css"),
    }
}

/// The settings domain's source list for given options and home directory.
pub open spec fn spec_settings_sources(
    options: Options,
    home: Option<Seq<char>>,
) -> Seq<ConfigSourceModel> {
    spec_layered_sources(
        opt_view(options.settings_content),
        opt_view(options.settings_loader_path),
        opt_view(options.settings_path),
        home,
        spec_settings_paths(),
    )
}

/// The settings domain's prioritized source list.
pub fn settings_sources(options: &Options, home: &Option<String>) -> (r: Vec<ConfigSource>)
    ensures
        sources_view(r@) == spec_settings_sources(*options, opt_view(*home)),
{
    let table = settings_paths();
    build_sources(
        &options.settings_content,
        &options.settings_loader_path,
        &options.settings_path,
        home,
        &table,
    )
}

/// The style domain's source list for given options and home directory.
pub open spec fn spec_style_sources(
    options: Options,
    home: Option<Seq<char>>,
) -> Seq<ConfigSourceModel> {
    spec_layered_sources(
        opt_view(options.css_content),
        opt_view(options.css_loader_path),
        opt_view(options.css_path),
        home,
        spec_style_paths(),
    )
}

/// The style domain's prioritized source list.
pub fn style_sources(options: &Options, home: &Option<String>) -> (r: Vec<ConfigSource>)
    ensures
        sources_view(r@) == spec_style_sources(*options, opt_view(*home)),
{
    let table = style_paths();
    build_sources(&options.css_content, &options.css_loader_path, &options.css_path, home, &table)
}

/// Relies on `dirs::home_dir`: the user's home directory, if the platform
/// reports one. The value depends on the environment, so nothing is
/// promised of it; callers state what holds for every value. A home
/// directory whose path is not valid text also comes back as `None`, and
/// the well-known locations under it are then skipped.
#[verifier::external_body]
pub fn home_dir_path() -> (r: Option<String>) {
    match dirs::home_dir() {
        Some(p) => match p.to_str() {
            Some(s) => Some(s.to_string()),
            None => None,
        },
        None => None,
    }
}

/// The settings domain's source list seeded from the environment's home
/// directory: the list is the settings source list for some home value.
pub fn settings_sources_here(options: &Options) -> (r: Vec<ConfigSource>)
    ensures
        exists|home: Option<Seq<char>>|
            sources_view(r@) == spec_settings_sources(*options, home),
{
    let home = home_dir_path();
    let r = settings_sources(options, &home);
    proof {
        let h = opt_view(home);
        assert(sources_view(r@) == spec_settings_sources(*options, h));
    }
    r
}

/// The style domain's source list seeded from the environment's home
/// directory: the list is the style source list for some home value.
pub fn style_sources_here(options: &Options) -> (r: Vec<ConfigSource>)
    ensures
        exists|home: Option<Seq<char>>| sources_view(r@) == spec_style_sources(*options, home),
{
    let home = home_dir_path();
    let r = style_sources(options, &home);
    proof {
        let h = opt_view(home);
        assert(sources_view(r@) == spec_style_sources(*options, h));
    }
    r
}

/// Resolving an empty source list — every source absent — is `NotFound`.
pub proof fn lemma_resolve_no_sources(outcomes: Seq<OutcomeModel>)
    ensures
        spec_resolve(Seq::<ConfigSourceModel>::empty(), outcomes) == Err::<
            Seq<char>,
            ResolveErrorModel,
        >(ResolveErrorModel::NotFound),
{
}

/// An inline source at the head of the list always wins with its text
/// unchanged, whatever stands behind it and whatever the outcomes say.
pub proof fn lemma_resolve_inline_first(
    sources: Seq<ConfigSourceModel>,
    outcomes: Seq<OutcomeModel>,
    content: Seq<char>,
)
    requires
        sources.len() > 0,
        sources[0] == ConfigSourceModel::Inline(content),
    ensures
        spec_resolve(sources, outcomes) == Ok::<Seq<char>, ResolveErrorModel>(content),
{
}

} // verus!
