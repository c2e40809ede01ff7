use curtains_close::content_loader::{
    ContentLoaderError, ScriptRun, load_content_from_script, sandbox_args, sandbox_program,
};
use curtains_close::css_provider::{LoadCSSProviderError, StyleApply, set_css_provider, style_payload};
use curtains_close::options::Options;
use curtains_close::resolver::{
    ConfigSource, Outcome, ResolveError, Verdict, resolve, settings_sources,
    settings_sources_here, step_verdict, style_sources,
};

#[test]
fn resolving_no_sources_is_not_found() {
    let r = resolve(&Vec::new(), Vec::new());
    assert!(matches!(r, Err(ResolveError::NotFound)));
}

#[test]
fn inline_always_wins_unchanged() {
    let sources = vec![
        ConfigSource::Inline("payload".to_string()),
        ConfigSource::File { path: "/tmp-like/other".to_string(), missing_ok: true },
    ];
    let outcomes = vec![Outcome::Missing, Outcome::Text("other".to_string())];
    let r = resolve(&sources, outcomes).unwrap();
    assert_eq!(r, "payload");
}

#[test]
fn first_available_source_wins() {
    let sources = vec![
        ConfigSource::File { path: "/a".to_string(), missing_ok: true },
        ConfigSource::File { path: "/b".to_string(), missing_ok: true },
        ConfigSource::File { path: "/c".to_string(), missing_ok: true },
    ];
    let outcomes = vec![
        Outcome::Missing,
        Outcome::Text("from b".to_string()),
        Outcome::Text("from c".to_string()),
    ];
    assert_eq!(resolve(&sources, outcomes).unwrap(), "from b");
}

#[test]
fn a_missing_explicit_source_is_fatal() {
    let source = ConfigSource::Script { path: "/x.sh".to_string(), missing_ok: false };
    let v = step_verdict(&source, Outcome::Missing);
    assert!(matches!(
        v,
        Verdict::Fail(ResolveError::Script(ContentLoaderError::PathNotFound))
    ));
}

#[test]
fn a_missing_well_known_source_is_skipped() {
    let source = ConfigSource::File { path: "/etc/x".to_string(), missing_ok: true };
    assert!(matches!(step_verdict(&source, Outcome::Missing), Verdict::Next));
}

#[test]
fn a_failed_read_is_fatal_wherever_it_happens() {
    let source = ConfigSource::File { path: "/etc/x".to_string(), missing_ok: true };
    let v = step_verdict(&source, Outcome::ReadFailed("denied".to_string()));
    assert!(matches!(v, Verdict::Fail(ResolveError::Read(m)) if m == "denied"));
}

#[test]
fn settings_sources_come_in_priority_order() {
    let mut options = Options::empty();
    options.settings_content = Some("inline".to_string());
    options.settings_loader_path = Some("/load.sh".to_string());
    options.settings_path = Some("/file.json".to_string());
    let home = Some("/home/u".to_string());
    let sources = settings_sources(&options, &home);
    assert_eq!(sources.len(), 7);
    assert!(matches!(&sources[0], ConfigSource::Inline(c) if c == "inline"));
    assert!(
        matches!(&sources[1], ConfigSource::Script { path, missing_ok: false } if path == "/load.sh")
    );
    assert!(
        matches!(&sources[2], ConfigSource::File { path, missing_ok: false } if path == "/file.json")
    );
    assert!(matches!(&sources[3], ConfigSource::Script { path, missing_ok: true }
        if path == "/home/u/.config/curtains/close/settings.sh"));
    assert!(matches!(&sources[4], ConfigSource::File { path, missing_ok: true }
        if path == "/home/u/.config/curtains/close/settings.json"));
    assert!(matches!(&sources[5], ConfigSource::File { path, missing_ok: true }
        if path == "/usr/local/etc/curtains-close/settings.json"));
    assert!(matches!(&sources[6], ConfigSource::File { path, missing_ok: true }
        if path == "/etc/curtains-close/settings.json"));
}

#[test]
fn style_sources_use_their_own_table() {
    let options = Options::empty();
    let sources = style_sources(&options, &None);
    assert_eq!(sources.len(), 2);
    assert!(matches!(&sources[0], ConfigSource::File { path, missing_ok: true }
        if path == "/usr/local/etc/curtains-close/style.css"));
    assert!(matches!(&sources[1], ConfigSource::File { path, missing_ok: true }
        if path == "/etc/curtains-close/style.css"));
}

#[test]
fn a_missing_explicit_file_is_fatal() {
    let source = ConfigSource::File { path: "/f.json".to_string(), missing_ok: false };
    assert!(matches!(
        step_verdict(&source, Outcome::Missing),
        Verdict::Fail(ResolveError::FileMissing)
    ));
}

#[test]
fn environment_seeded_sources_end_with_the_system_fallbacks() {
    let sources = settings_sources_here(&Options::empty());
    assert!(sources.len() >= 2);
    assert!(matches!(&sources[sources.len() - 1], ConfigSource::File { path, missing_ok: true }
        if path == "/etc/curtains-close/settings.json"));
    assert!(matches!(&sources[sources.len() - 2], ConfigSource::File { path, missing_ok: true }
        if path == "/usr/local/etc/curtains-close/settings.json"));
}

#[test]
fn loader_outcomes_map_to_their_errors() {
    assert!(matches!(
        load_content_from_script(false, ScriptRun::Completed { success: true, stdout_text: None }),
        Err(ContentLoaderError::PathNotFound)
    ));
    assert!(matches!(
        load_content_from_script(true, ScriptRun::LaunchFailed("no exec".to_string())),
        Err(ContentLoaderError::IOError(m)) if m == "no exec"
    ));
    assert!(matches!(
        load_content_from_script(true, ScriptRun::Completed { success: false, stdout_text: None }),
        Err(ContentLoaderError::ScriptError)
    ));
    assert!(matches!(
        load_content_from_script(true, ScriptRun::Completed { success: true, stdout_text: None }),
        Err(ContentLoaderError::StringConversionError)
    ));
    let out = load_content_from_script(
        true,
        ScriptRun::Completed { success: true, stdout_text: Some("body { }".to_string()) },
    )
    .unwrap();
    assert_eq!(out, "body { }");
}

#[test]
fn the_sandbox_is_invoked_as_documented() {
    assert_eq!(sandbox_program(), "bwrap");
    let args = sandbox_args(&"/home/u/.config/curtains/close/style.sh".to_string());
    let expected = [
        "--ro-bind", "/", "/", "--dev-bind", "/dev", "/dev", "--proc", "/proc", "--tmpfs", "/tmp",
        "--unshare-all", "--new-session", "--die-with-parent",
        "/home/u/.config/curtains/close/style.sh",
    ];
    assert_eq!(args.len(), expected.len());
    for (a, e) in args.iter().zip(expected.iter()) {
        assert_eq!(a, e);
    }
}

#[test]
fn absent_style_is_benign_other_failures_are_not() {
    assert!(matches!(style_payload(Err(ResolveError::NotFound)), Ok(None)));
    let got = style_payload(Ok("b { }".to_string())).unwrap();
    assert_eq!(got, Some("b { }".to_string()));
    assert!(matches!(
        style_payload(Err(ResolveError::Script(ContentLoaderError::ScriptError))),
        Err(LoadCSSProviderError::ContentLoaderError(ContentLoaderError::ScriptError))
    ));
    assert!(matches!(
        style_payload(Err(ResolveError::Read("denied".to_string()))),
        Err(LoadCSSProviderError::Io(m)) if m == "denied"
    ));
}

#[test]
fn style_application_verdicts() {
    assert!(matches!(
        set_css_provider(false, StyleApply::Applied),
        Err(LoadCSSProviderError::Display)
    ));
    assert!(set_css_provider(true, StyleApply::Applied).is_ok());
    assert!(matches!(
        set_css_provider(true, StyleApply::Rejected("bad selector".to_string())),
        Err(LoadCSSProviderError::CssProviderError(m)) if m == "bad selector"
    ));
}
