use curtains_close::options::Options;
use curtains_close::parse::{parse_buttons_json, parse_settings_doc};
use curtains_close::resolver::ResolveError;
use curtains_close::ser::serialize_buttons;
use curtains_close::settings::{ButtonInfo, LoadSettingsError, Settings, from_json};

fn no_options() -> Options {
    Options::empty()
}

#[test]
fn empty_document_yields_defaults() {
    let settings = from_json("{}", &no_options()).unwrap();
    assert_eq!(settings.buttons_per_row, 3);
    assert_eq!(settings.column_spacing, 5);
    assert_eq!(settings.row_spacing, 5);
    assert_eq!(settings.delay_before_closing, 0);
    assert_eq!(settings.buttons.len(), 0);
}

#[test]
fn document_values_stand_without_overrides() {
    let doc = "{\"buttons_per_row\":2,\"column_spacing\":9,\"row_spacing\":1,\"delay_before_closing\":250}";
    let settings = from_json(doc, &no_options()).unwrap();
    assert_eq!(settings.buttons_per_row, 2);
    assert_eq!(settings.column_spacing, 9);
    assert_eq!(settings.row_spacing, 1);
    assert_eq!(settings.delay_before_closing, 250);
}

#[test]
fn cli_override_wins_per_field() {
    let doc = "{\"buttons_per_row\":2,\"buttons\":[{\"id\":\"a\",\"command\":\"x\",\"icon\":\"\",\"text\":\"A\",\"keybind\":\"a\"}]}";
    let mut options = no_options();
    options.buttons_per_row = Some(5);
    let settings = from_json(doc, &options).unwrap();
    assert_eq!(settings.buttons_per_row, 5);
    assert_eq!(settings.buttons.len(), 1);
    assert_eq!(settings.buttons[0].id, "a");
    assert_eq!(settings.buttons[0].command, "x");
    assert_eq!(settings.buttons[0].icon, "");
    assert_eq!(settings.buttons[0].text, "A");
    assert_eq!(settings.buttons[0].keybind, 'a');
}

#[test]
fn cli_buttons_fully_replace_document_buttons() {
    let doc = "{\"buttons\":[{\"id\":\"doc\",\"command\":\"old\",\"icon\":\"i\",\"text\":\"t\",\"keybind\":\"d\"}]}";
    let mut options = no_options();
    options.buttons = Some(
        "[{\"id\":\"cli\",\"command\":\"new\",\"icon\":\"\",\"text\":\"n\",\"keybind\":\"c\"}]"
            .to_string(),
    );
    let settings = from_json(doc, &options).unwrap();
    assert_eq!(settings.buttons.len(), 1);
    assert_eq!(settings.buttons[0].id, "cli");
    assert_eq!(settings.buttons[0].command, "new");
    assert_eq!(settings.buttons[0].keybind, 'c');
}

#[test]
fn each_field_layers_independently() {
    let doc = "{\"column_spacing\":7}";
    let mut options = no_options();
    options.row_spacing = Some(11);
    let settings = from_json(doc, &options).unwrap();
    assert_eq!(settings.buttons_per_row, 3); // default
    assert_eq!(settings.column_spacing, 7); // document
    assert_eq!(settings.row_spacing, 11); // override
    assert_eq!(settings.delay_before_closing, 0); // default
}

#[test]
fn keys_parse_in_any_order() {
    let doc = "{ \"row_spacing\" : 4 , \"buttons_per_row\" : 6 }";
    let settings = from_json(doc, &no_options()).unwrap();
    assert_eq!(settings.row_spacing, 4);
    assert_eq!(settings.buttons_per_row, 6);
}

#[test]
fn malformed_document_is_an_error_not_a_default() {
    for doc in ["", "{", "[1]", "{\"buttons_per_row\":}", "{} trailing", "nonsense"] {
        assert!(matches!(
            from_json(doc, &no_options()),
            Err(LoadSettingsError::JsonError(_))
        ));
    }
}

#[test]
fn repeated_keys_are_malformed() {
    assert!(parse_settings_doc("{\"row_spacing\":1,\"row_spacing\":2}").is_err());
}

#[test]
fn unknown_keys_are_ignored() {
    let doc = "{\"future\":{\"a\":[1,-2.5e3,true,null,\"s\"],\"b\":{}},\"row_spacing\":8,\"extra\":false}";
    let settings = from_json(doc, &no_options()).unwrap();
    assert_eq!(settings.row_spacing, 8);
    let doc2 = "{\"buttons\":[{\"id\":\"a\",\"command\":\"x\",\"icon\":\"\",\"text\":\"A\",\"keybind\":\"a\",\"color\":\"red\"}]}";
    let settings2 = from_json(doc2, &no_options()).unwrap();
    assert_eq!(settings2.buttons.len(), 1);
    assert_eq!(settings2.buttons[0].id, "a");
}

#[test]
fn an_unknown_key_with_a_broken_value_is_still_malformed() {
    assert!(parse_settings_doc("{\"future\":[1,}").is_err());
    assert!(parse_settings_doc("{\"future\":01}").is_err());
    assert!(parse_settings_doc("{\"future\":nul}").is_err());
}

#[test]
fn numbers_are_strict() {
    assert!(parse_settings_doc("{\"row_spacing\":01}").is_err());
    assert!(parse_settings_doc("{\"row_spacing\":4294967296}").is_err());
    let raw = parse_settings_doc("{\"row_spacing\":4294967295}").unwrap();
    assert_eq!(raw.row_spacing, Some(4294967295));
    let raw = parse_settings_doc("{\"row_spacing\":0}").unwrap();
    assert_eq!(raw.row_spacing, Some(0));
}

#[test]
fn button_fields_are_all_required_and_keybind_is_one_char() {
    assert!(parse_buttons_json("[{\"id\":\"a\",\"command\":\"x\",\"icon\":\"\",\"text\":\"A\"}]").is_err());
    assert!(parse_buttons_json(
        "[{\"id\":\"a\",\"command\":\"x\",\"icon\":\"\",\"text\":\"A\",\"keybind\":\"ab\"}]"
    )
    .is_err());
    assert!(parse_buttons_json("[{}]").is_err());
}

#[test]
fn string_escapes_decode() {
    let bs = parse_buttons_json(
        "[{\"id\":\"a\\\"b\\\\c\",\"command\":\"x\\ny\",\"icon\":\"\\t\",\"text\":\"\\/\",\"keybind\":\"k\"}]",
    )
    .unwrap();
    assert_eq!(bs[0].id, "a\"b\\c");
    assert_eq!(bs[0].command, "x\ny");
    assert_eq!(bs[0].icon, "\t");
    assert_eq!(bs[0].text, "/");
}

#[test]
fn raw_control_characters_are_malformed() {
    let doc = "[{\"id\":\"a\u{0001}\",\"command\":\"x\",\"icon\":\"\",\"text\":\"A\",\"keybind\":\"a\"}]";
    assert!(parse_buttons_json(doc).is_err());
}

#[test]
fn hex_escapes_decode() {
    let bs = parse_buttons_json(
        "[{\"id\":\"\\u0041\\u00e9\",\"command\":\"\\u0001\",\"icon\":\"\\u20AC\",\"text\":\"\",\"keybind\":\"k\"}]",
    )
    .unwrap();
    assert_eq!(bs[0].id, "A\u{e9}");
    assert_eq!(bs[0].command, "\u{0001}");
    assert_eq!(bs[0].icon, "\u{20AC}");
}

#[test]
fn bad_hex_escapes_are_malformed() {
    // too few digits, a non-hex digit, a lone surrogate
    for doc in [
        "[{\"id\":\"\\u00\",\"command\":\"x\",\"icon\":\"\",\"text\":\"\",\"keybind\":\"k\"}]",
        "[{\"id\":\"\\u00gg\",\"command\":\"x\",\"icon\":\"\",\"text\":\"\",\"keybind\":\"k\"}]",
        "[{\"id\":\"\\uD800\",\"command\":\"x\",\"icon\":\"\",\"text\":\"\",\"keybind\":\"k\"}]",
    ] {
        assert!(parse_buttons_json(doc).is_err());
    }
}

#[test]
fn null_leaves_a_field_absent() {
    let doc = "{\"buttons_per_row\":null,\"row_spacing\":9,\"buttons\":null}";
    let settings = from_json(doc, &no_options()).unwrap();
    assert_eq!(settings.buttons_per_row, 3); // default, not overridden by null
    assert_eq!(settings.row_spacing, 9);
    assert_eq!(settings.buttons.len(), 0);
}

#[test]
fn a_key_repeated_through_null_is_still_malformed() {
    assert!(parse_settings_doc("{\"row_spacing\":null,\"row_spacing\":2}").is_err());
    assert!(parse_settings_doc("{\"buttons\":null,\"buttons\":[]}").is_err());
}

#[test]
fn buttons_round_trip_through_serialization() {
    let buttons = vec![
        ButtonInfo {
            id: "shutdown".to_string(),
            command: "systemctl poweroff".to_string(),
            icon: "\u{23FB}".to_string(),
            text: "Power \"off\"\n\\now".to_string(),
            keybind: 'p',
        },
        ButtonInfo {
            id: "lock".to_string(),
            command: "loginctl lock-session".to_string(),
            icon: "".to_string(),
            text: "Lock\tscreen".to_string(),
            keybind: '"',
        },
        ButtonInfo {
            id: "bell\u{0001}\u{001F}".to_string(),
            command: "ring \u{0007}".to_string(),
            icon: "\u{000B}".to_string(),
            text: "control characters ride along".to_string(),
            keybind: '\u{0002}',
        },
    ];
    let text = serialize_buttons(&buttons);
    let back = parse_buttons_json(&text).unwrap();
    assert_eq!(back.len(), buttons.len());
    for (a, b) in back.iter().zip(buttons.iter()) {
        assert_eq!(a.id, b.id);
        assert_eq!(a.command, b.command);
        assert_eq!(a.icon, b.icon);
        assert_eq!(a.text, b.text);
        assert_eq!(a.keybind, b.keybind);
    }
}

#[test]
fn empty_button_list_round_trips() {
    let buttons: Vec<ButtonInfo> = Vec::new();
    let text = serialize_buttons(&buttons);
    assert_eq!(text, "[]");
    let back = parse_buttons_json(&text).unwrap();
    assert_eq!(back.len(), 0);
}

#[test]
fn load_settings_uses_resolved_text() {
    let settings = Settings::load_settings(
        &no_options(),
        Ok("{\"buttons_per_row\":8}".to_string()),
    )
    .unwrap();
    assert_eq!(settings.buttons_per_row, 8);
}

#[test]
fn load_settings_maps_resolution_failures() {
    assert!(matches!(
        Settings::load_settings(&no_options(), Err(ResolveError::NotFound)),
        Err(LoadSettingsError::ContentOrPathNotFound)
    ));
    assert!(matches!(
        Settings::load_settings(&no_options(), Err(ResolveError::Read("denied".to_string()))),
        Err(LoadSettingsError::IoError(_))
    ));
    assert!(matches!(
        Settings::load_settings(
            &no_options(),
            Err(ResolveError::Script(curtains_close::content_loader::ContentLoaderError::ScriptError)),
        ),
        Err(LoadSettingsError::ContentLoaderError(
            curtains_close::content_loader::ContentLoaderError::ScriptError
        ))
    ));
}

#[test]
fn a_serialized_list_survives_the_override_path() {
    let buttons = vec![ButtonInfo {
        id: "odd\u{0001}".to_string(),
        command: "x".to_string(),
        icon: "".to_string(),
        text: "control char in tow".to_string(),
        keybind: 'o',
    }];
    let mut options = no_options();
    options.buttons = Some(serialize_buttons(&buttons));
    let settings = from_json("{}", &options).unwrap();
    assert_eq!(settings.buttons.len(), 1);
    assert_eq!(settings.buttons[0].id, "odd\u{0001}");
    assert_eq!(settings.buttons[0].text, "control char in tow");
    assert_eq!(settings.buttons[0].keybind, 'o');
}

#[test]
fn malformed_cli_buttons_override_is_fatal() {
    let mut options = no_options();
    options.buttons = Some("[{".to_string());
    assert!(matches!(
        from_json("{}", &options),
        Err(LoadSettingsError::JsonError(_))
    ));
}
