use lindiction::mic_select::{apply_set_device, current_device, read_device, set_device};
use lindiction::replace::EditError;
use lindiction::toml_doc::{writable, ConfigDocument};

fn parse(text: &str) -> ConfigDocument {
    ConfigDocument::parse(text).unwrap()
}

#[test]
fn apply_set_device_creates_audio_section_when_absent() {
    let mut doc = parse("");
    apply_set_device(&mut doc, Some("usbstream:CARD=C920")).unwrap();
    let s = doc.to_text();
    assert!(s.contains("[audio]"), "missing section; got:\n{s}");
    assert!(
        s.contains(r#"device = "usbstream:CARD=C920""#),
        "missing key/value; got:\n{s}"
    );
}

#[test]
fn apply_set_device_replaces_existing_value() {
    let starting = r#"
[audio]
preroll_ms = 500
device = "old-name"
"#;
    let mut doc = parse(starting);
    apply_set_device(&mut doc, Some("new-name")).unwrap();
    let s = doc.to_text();
    assert!(s.contains(r#"device = "new-name""#));
    assert!(s.contains("preroll_ms = 500"), "preroll_ms must survive");
}

#[test]
fn apply_set_device_none_removes_key_only() {
    let starting = r#"
[audio]
preroll_ms = 500
device = "to-be-cleared"
"#;
    let mut doc = parse(starting);
    apply_set_device(&mut doc, None).unwrap();
    let s = doc.to_text();
    assert!(!s.contains("device"), "device key should be gone");
    assert!(s.contains("preroll_ms = 500"), "preroll_ms must remain");
    assert!(s.contains("[audio]"), "[audio] section should remain");
}

#[test]
fn apply_set_device_none_drops_empty_section() {
    let starting = r#"
[audio]
device = "to-be-cleared"
"#;
    let mut doc = parse(starting);
    apply_set_device(&mut doc, None).unwrap();
    let s = doc.to_text();
    assert!(!s.contains("device"));
    assert!(
        !s.contains("[audio]"),
        "empty [audio] section should be dropped; got:\n{s}"
    );
}

#[test]
fn apply_set_device_none_no_op_when_already_absent() {
    let starting = r#"[hotkey]
binding = "ctrl+alt+space"
"#;
    let mut doc = parse(starting);
    apply_set_device(&mut doc, None).unwrap();
    assert_eq!(doc.to_text(), starting);
}

#[test]
fn read_device_returns_none_when_missing() {
    let doc = parse("[hotkey]\nbinding = \"f9\"\n");
    assert_eq!(read_device(&doc), None);
}

#[test]
fn read_device_returns_value_when_present() {
    let doc = parse("[audio]\ndevice = \"my-mic\"\n");
    assert_eq!(read_device(&doc).as_deref(), Some("my-mic"));
}

#[test]
fn read_device_handles_non_string_value() {
    let doc = parse("[audio]\ndevice = 42\n");
    assert_eq!(read_device(&doc), None);
}

#[test]
fn set_device_creates_config_when_missing() {
    let text = set_device(None, Some("alsa_input.pci-test")).expect("set");
    assert!(text.contains(r#"device = "alsa_input.pci-test""#));
}

#[test]
fn set_then_clear_round_trip_preserves_user_comments() {
    let existing = r#"# header
[hotkey]
binding = "f9"

[postprocess]
# keep
remove_fillers = true
"#;
    let after_set = set_device(Some(existing), Some("usbstream:CARD=Foo")).unwrap();
    assert!(after_set.contains("# header"));
    assert!(after_set.contains("# keep"));
    assert!(after_set.contains(r#"device = "usbstream:CARD=Foo""#));
    assert_eq!(
        current_device(Some(&after_set)).unwrap().as_deref(),
        Some("usbstream:CARD=Foo")
    );

    let after_clear = set_device(Some(&after_set), None).unwrap();
    assert!(
        after_clear.contains("# header"),
        "comments must survive clear"
    );
    assert!(after_clear.contains("# keep"));
    assert!(!after_clear.contains("device"));
    assert!(current_device(Some(&after_clear)).unwrap().is_none());
}

#[test]
fn current_device_returns_none_for_missing_file() {
    assert!(current_device(None).unwrap().is_none());
}

#[test]
fn audio_that_is_no_table_is_refused() {
    for text in ["audio = 1\n", "[[audio]]\nx = 1\n", "audio = {}\n"] {
        let err = set_device(Some(text), Some("mic")).unwrap_err();
        assert_eq!(
            err,
            EditError::NotATable {
                section: "audio".to_string()
            }
        );
        assert_eq!(err.message(), "audio is not a table");
        assert_eq!(set_device(Some(text), None).unwrap(), text);
        assert_eq!(current_device(Some(text)).unwrap(), None);
    }
}

#[test]
fn malformed_files_are_refused() {
    let bad = "[audio\ndevice = \"x\"\n";
    for err in [
        set_device(Some(bad), Some("mic")).unwrap_err(),
        set_device(Some(bad), None).unwrap_err(),
        current_device(Some(bad)).unwrap_err(),
    ] {
        assert!(matches!(err, EditError::Malformed { .. }));
        assert!(err.message().contains("line 1"), "got {}", err.message());
    }
}

#[test]
fn awkward_names_read_back_as_they_were_set() {
    for name in [
        "",
        "plain",
        "with \"quotes\"",
        "it's",
        "both \"and' \"\"\" '''",
        "back\\slash",
        "tab\there",
        "line\nbreak",
        "\nleading",
        "carriage\r\nreturn",
        "nul\u{0}\u{7f}",
        "ünïcödé — …",
        "ends with quote\"",
        "ends with quotes\n''",
    ] {
        assert!(writable(name));
        let text = set_device(None, Some(name)).unwrap();
        assert_eq!(
            current_device(Some(&text)).unwrap().as_deref(),
            Some(name),
            "via {text}"
        );
    }
}

#[test]
fn dotted_and_implicit_sections_are_edited_in_place() {
    let text = set_device(Some("audio.preroll_ms = 5\n"), Some("m")).unwrap();
    assert_eq!(current_device(Some(&text)).unwrap().as_deref(), Some("m"));
    assert!(text.contains("audio.preroll_ms = 5"));
    let text = set_device(Some("[audio.extra]\nx = 1\n"), Some("m")).unwrap();
    assert_eq!(current_device(Some(&text)).unwrap().as_deref(), Some("m"));
    let cleared = set_device(Some(&text), None).unwrap();
    assert!(cleared.contains("[audio.extra]"));
    assert_eq!(current_device(Some(&cleared)).unwrap(), None);
}

#[test]
fn long_runs_of_quotes_cannot_be_written() {
    assert!(writable(&"'".repeat(255)));
    assert!(!writable(&"'".repeat(256)));
    assert!(!writable(&format!("x{}y", "\"".repeat(300))));
    assert!(writable(&"'\"".repeat(500)));
    let longest = "\"".repeat(255);
    let text = set_device(None, Some(&longest)).unwrap();
    assert_eq!(
        current_device(Some(&text)).unwrap().as_deref(),
        Some(longest.as_str())
    );
}

#[test]
fn the_comments_beside_a_device_stay_when_it_changes() {
    assert_eq!(
        set_device(Some("[audio]\ndevice = \"old\" # desk mic\n"), Some("new")).unwrap(),
        "[audio]\ndevice = \"new\" # desk mic\n"
    );
    assert_eq!(
        set_device(
            Some("# top\n[audio] # input\n# the desk\ndevice=  \"old\"\nrate = 3 # hz\n# tail\n"),
            Some("new")
        )
        .unwrap(),
        "# top\n[audio] # input\n# the desk\ndevice=  \"new\"\nrate = 3 # hz\n# tail\n"
    );
}

#[test]
fn a_changed_device_keeps_its_line() {
    let text = "[audio]\ndevice = 5\npreroll_ms = 300\n\n[update]\nenabled = false\n";
    assert_eq!(
        set_device(Some(text), Some("a")).unwrap(),
        text.replace("device = 5", "device = \"a\"")
    );
    assert_eq!(
        set_device(Some("[audio]\npreroll_ms = 300\n[b]\nx = 1\n"), Some("a")).unwrap(),
        "[audio]\npreroll_ms = 300\ndevice = \"a\"\n[b]\nx = 1\n"
    );
    assert_eq!(
        set_device(Some("[audio]\ndevice = [ # cells\n    1,\n] # end\n"), Some("a")).unwrap(),
        "[audio]\ndevice = \"a\" # end\n"
    );
    assert_eq!(
        set_device(Some("[audio.device]\nx = 1 # one\n\n[b]\n"), Some("a")).unwrap(),
        "[audio]\ndevice= \"a\"\n\n[b]\n"
    );
}

#[test]
fn a_cleared_device_takes_its_own_comments_along() {
    let text = "# top\n[audio]\n# mine\ndevice = \"a\" # desk\n# rate\npreroll_ms = 300 # ms\n# tail\n";
    assert_eq!(
        set_device(Some(text), None).unwrap(),
        "# top\n[audio]\n# rate\npreroll_ms = 300 # ms\n# tail\n"
    );
    assert_eq!(
        set_device(Some("a = 1 # one\n# gone\n[audio]\ndevice = \"a\"\n# b\n[b]\n"), None).unwrap(),
        "a = 1 # one\n# b\n[b]\n"
    );
    assert_eq!(
        set_device(Some("audio.device = \"a\"\nb = 2\n"), None).unwrap(),
        "b = 2\n"
    );
    assert_eq!(
        set_device(Some("audio.device = \"a\"\naudio.rate = 3\n"), None).unwrap(),
        "audio.rate = 3\n"
    );
    assert_eq!(
        set_device(Some("[audio]\ndevice = \"a\"\n[audio.more]\nx = 1\n"), None).unwrap(),
        "[audio]\n[audio.more]\nx = 1\n"
    );
    assert_eq!(set_device(Some("[audio]\n# c\n[b]\n"), None).unwrap(), "# c\n[b]\n");
}

#[test]
fn clearing_restores_a_file_that_named_no_device() {
    for text in [
        "# top\n[audio] # in\nrate = 3 # hz\n\n# b\n[b]\nx = [1, 2] # two\n",
        "x = 1\n# only\n",
        "audio.rate = 3 # hz\n",
        "",
    ] {
        let set = set_device(Some(text), Some("mic")).unwrap();
        assert_eq!(current_device(Some(&set)).unwrap().as_deref(), Some("mic"));
        assert_eq!(set_device(Some(&set), None).unwrap(), text);
    }
}
