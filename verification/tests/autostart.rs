use lindiction::autostart::{
    disable, enable, ensure_systemctl, ensure_unit_loadable, generate_unit_contents, is_supported,
    parse_is_enabled_output, status, user_unit_path, AutostartError, CommandOutput, Status, Step,
    Verb,
};

#[test]
fn parse_enabled() {
    assert_eq!(parse_is_enabled_output("enabled", "", true), Status::Enabled);
    assert_eq!(
        parse_is_enabled_output("enabled-runtime", "", true),
        Status::Enabled
    );
}

#[test]
fn parse_disabled() {
    assert_eq!(
        parse_is_enabled_output("disabled", "", false),
        Status::Disabled
    );
}

#[test]
fn parse_not_installed_from_stderr() {
    assert_eq!(
        parse_is_enabled_output(
            "",
            "Failed to get unit file state for lindiction.service: No such file or directory",
            false
        ),
        Status::NotInstalled
    );
    assert_eq!(
        parse_is_enabled_output("", "Unit lindiction.service not found.", false),
        Status::NotInstalled
    );
}

#[test]
fn parse_other_state_preserves_text() {
    assert_eq!(
        parse_is_enabled_output("static", "", true),
        Status::Other("static".into())
    );
    assert_eq!(
        parse_is_enabled_output("masked", "", false),
        Status::Other("masked".into())
    );
}

#[test]
fn empty_output_is_told_apart_by_the_exit_code() {
    assert_eq!(
        parse_is_enabled_output("", "", true),
        Status::Other(String::new())
    );
    assert_eq!(
        parse_is_enabled_output("", "bus error", false),
        Status::Other("bus error".into())
    );
}

#[test]
fn status_describe_covers_all_variants() {
    for s in [
        Status::Enabled,
        Status::Disabled,
        Status::NotInstalled,
        Status::SystemctlMissing,
        Status::Other("static".into()),
    ] {
        assert!(!s.describe().is_empty());
    }
}

#[test]
fn status_texts() {
    assert!(Status::Enabled.is_enabled());
    assert!(!Status::Disabled.is_enabled());
    assert_eq!(
        Status::NotInstalled.describe(),
        "not installed — lindiction.service was not found in any systemd search path"
    );
    assert_eq!(
        Status::Other("masked".into()).describe(),
        "unexpected state: masked"
    );
}

#[test]
fn generated_unit_contains_exe_path() {
    let contents = generate_unit_contents("/home/alice/.cargo/bin/lindiction");
    assert!(contents.contains("ExecStart=/home/alice/.cargo/bin/lindiction\n"));
    assert!(contents.contains("[Unit]"));
    assert!(contents.contains("[Service]"));
    assert!(contents.contains("[Install]"));
    assert!(contents.contains("WantedBy=default.target"));
}

#[test]
fn generated_unit_matches_ship_template_shape() {
    let contents = generate_unit_contents("/usr/bin/lindiction");
    for key_line in [
        "Description=Lindiction voice dictation",
        "After=graphical-session.target sound.target",
        "PartOf=graphical-session.target",
        "Type=simple",
        "Restart=on-failure",
        "RestartSec=3",
        "Environment=RUST_LOG=lindiction=info",
        "WantedBy=default.target",
    ] {
        assert!(
            contents.contains(key_line),
            "generated unit missing: {key_line}"
        );
    }
}

#[test]
fn user_unit_path_ends_correctly() {
    if let Some(p) = user_unit_path(Some("/home/alice/.config")) {
        assert!(
            p.ends_with("systemd/user/lindiction.service"),
            "got {p}"
        );
    }
    assert_eq!(
        user_unit_path(Some("/home/alice/.config")).as_deref(),
        Some("/home/alice/.config/systemd/user/lindiction.service")
    );
    assert_eq!(user_unit_path(None), None);
}

#[test]
fn support_takes_systemctl_and_an_answer() {
    assert!(is_supported(true, Some(true)));
    assert!(!is_supported(true, Some(false)));
    assert!(!is_supported(true, None));
    assert!(!is_supported(false, Some(true)));
}

#[test]
fn status_trims_the_output() {
    let out = |stdout: &str, success: bool| CommandOutput {
        stdout: stdout.to_string(),
        stderr: String::new(),
        success,
    };
    assert_eq!(status(true, Some(out(" enabled\n", true))), Status::Enabled);
    assert_eq!(status(true, Some(out("disabled\n", false))), Status::Disabled);
    assert_eq!(status(true, None), Status::SystemctlMissing);
    assert_eq!(
        status(false, Some(out("enabled", true))),
        Status::SystemctlMissing
    );
}

#[test]
fn disabling_what_is_not_installed_is_a_no_op() {
    assert!(disable(true, &Status::NotInstalled).unwrap().is_empty());
    let steps = disable(true, &Status::Enabled).unwrap();
    assert!(matches!(steps[..], [Step::Run(Verb::Disable)]));
    assert!(matches!(
        disable(false, &Status::SystemctlMissing),
        Err(AutostartError::SystemctlMissing)
    ));
    assert!(ensure_systemctl(true).is_ok());
    assert_eq!(
        ensure_systemctl(false).unwrap_err().message(),
        "systemctl not found on PATH; cannot manage autostart"
    );
}

#[test]
fn unit_is_generated_only_where_none_is_loadable() {
    let exe = || Ok("/opt/x/lindiction".to_string());
    assert!(ensure_unit_loadable(&Status::Disabled, None, true, exe())
        .unwrap()
        .is_none());
    let unit = ensure_unit_loadable(&Status::NotInstalled, Some("/u/l.service"), false, exe())
        .unwrap()
        .unwrap();
    assert_eq!(unit.path, "/u/l.service");
    assert_eq!(unit.contents, generate_unit_contents("/opt/x/lindiction"));

    let err = ensure_unit_loadable(&Status::NotInstalled, None, false, exe()).unwrap_err();
    assert!(matches!(err, AutostartError::NoConfigDir));
    let err = ensure_unit_loadable(&Status::NotInstalled, Some("/u"), true, exe()).unwrap_err();
    assert_eq!(
        err.message(),
        "unit file exists at /u but systemd can't load it — check its contents or run \
         `systemctl --user daemon-reload`"
    );
    let err = ensure_unit_loadable(
        &Status::NotInstalled,
        Some("/u"),
        false,
        Err("gone".to_string()),
    )
    .unwrap_err();
    assert_eq!(err.message(), "determining current executable path: gone");
}

#[test]
fn enabling_generates_a_unit_only_where_none_is_installed() {
    let exe = || Ok("/opt/x/lindiction".to_string());
    let steps = enable(true, &Status::Disabled, None, true, exe()).unwrap();
    assert!(matches!(steps[..], [Step::Run(Verb::Enable)]));

    let steps = enable(true, &Status::NotInstalled, Some("/u"), false, exe()).unwrap();
    match &steps[..] {
        [Step::Write(unit), Step::Run(Verb::DaemonReload), Step::Run(Verb::Enable)] => {
            assert_eq!(unit.path, "/u");
            assert_eq!(unit.contents, generate_unit_contents("/opt/x/lindiction"));
        }
        other => panic!("unexpected steps: {other:?}"),
    }

    assert!(matches!(
        enable(false, &Status::SystemctlMissing, Some("/u"), false, exe()),
        Err(AutostartError::SystemctlMissing)
    ));
    assert!(matches!(
        enable(true, &Status::NotInstalled, Some("/u"), true, exe()),
        Err(AutostartError::Unloadable { .. })
    ));
    assert!(matches!(
        enable(true, &Status::NotInstalled, None, false, exe()),
        Err(AutostartError::NoConfigDir)
    ));
    assert!(matches!(
        enable(true, &Status::NotInstalled, Some("/u"), false, Err(String::new())),
        Err(AutostartError::NoExecutable { .. })
    ));
}

#[test]
fn failed_commands_are_reported() {
    assert_eq!(
        Verb::Enable.args(),
        vec!["--user", "enable", "lindiction.service"]
    );
    assert_eq!(Verb::DaemonReload.args(), vec!["--user", "daemon-reload"]);
    assert!(Verb::Disable.finish(true, "noise").is_ok());
    assert_eq!(
        Verb::Disable.finish(false, " no bus\n").unwrap_err().message(),
        "systemctl --user disable lindiction.service failed: no bus"
    );
    assert_eq!(
        Verb::DaemonReload.finish(false, "x").unwrap_err().message(),
        "systemctl --user daemon-reload failed: x"
    );
}
