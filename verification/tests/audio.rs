use lindiction::audio::{
    check_capture, is_useful_input_name, list_input_devices, pick_device, rate_supported,
    AudioError, DevicePick,
};

#[test]
fn supported_exact_match() {
    let configs = [(1u16, 8_000u32, 48_000u32)];
    assert!(rate_supported(&configs, 16_000, 1));
}

#[test]
fn supported_upper_bound_inclusive() {
    let configs = [(1u16, 8_000u32, 16_000u32)];
    assert!(rate_supported(&configs, 16_000, 1));
}

#[test]
fn supported_lower_bound_inclusive() {
    let configs = [(1u16, 16_000u32, 48_000u32)];
    assert!(rate_supported(&configs, 16_000, 1));
}

#[test]
fn rejects_rate_outside_range() {
    let configs = [(1u16, 44_100u32, 48_000u32)];
    assert!(!rate_supported(&configs, 16_000, 1));
}

#[test]
fn rejects_mismatched_channels() {
    let configs = [(2u16, 8_000u32, 48_000u32)];
    assert!(!rate_supported(&configs, 16_000, 1));
}

#[test]
fn matches_first_of_multiple_ranges() {
    let configs = [(2u16, 44_100u32, 48_000u32), (1u16, 8_000u32, 48_000u32)];
    assert!(rate_supported(&configs, 16_000, 1));
}

#[test]
fn empty_list_rejects() {
    assert!(!rate_supported(&[], 16_000, 1));
}

#[test]
fn keeps_useful_names() {
    for name in [
        "default",
        "pulse",
        "pipewire",
        "alsa_input.pci-0000_08_00.4.analog-stereo",
        "alsa_input.usb-046d_HD_Pro_Webcam_C920_CAC719AF-02.analog-stereo",
        "usbstream:CARD=C920",
    ] {
        assert!(is_useful_input_name(name), "should keep: {name}");
    }
}

#[test]
fn rejects_alsa_virtual_aliases() {
    for name in [
        "null",
        "samplerate",
        "upmix",
        "vdownmix",
        "dmix:CARD=Generic,DEV=0",
        "dsnoop:CARD=C920,DEV=0",
        "surround51:CARD=Generic",
        "hdmi:CARD=NVidia,DEV=0",
        "modem:CARD=Generic",
        "front:CARD=Generic,DEV=0",
        "iec958:CARD=NVidia,DEV=0",
        "hw:CARD=C920,DEV=0",
        "plughw:CARD=Generic,DEV=0",
        "front",
        "sysdefault",
        "iec958",
    ] {
        assert!(!is_useful_input_name(name), "should reject: {name}");
    }
}

#[test]
fn only_whole_names_without_a_colon_are_rejected() {
    assert!(is_useful_input_name("frontmic"));
    assert!(is_useful_input_name("rearview"));
    assert!(!is_useful_input_name("rear"));
    assert!(!is_useful_input_name("side:CARD=X"));
}

#[test]
fn device_list_drops_nameless_and_useless_devices() {
    let names = vec![
        Some("pulse".to_string()),
        None,
        Some("hw:CARD=C920,DEV=0".to_string()),
        Some("usbstream:CARD=C920".to_string()),
    ];
    let listed = list_input_devices(&names, Some("usbstream:CARD=C920"));
    let shown: Vec<(String, bool)> = listed
        .into_iter()
        .map(|d| (d.name, d.is_system_default))
        .collect();
    assert_eq!(
        shown,
        vec![
            ("pulse".to_string(), false),
            ("usbstream:CARD=C920".to_string(), true),
        ]
    );
    assert!(list_input_devices(&Vec::new(), None).is_empty());
}

#[test]
fn configured_device_is_opened_or_fallen_back_from() {
    let names = vec![None, Some("a".to_string()), Some("b".to_string()), Some("b".to_string())];
    assert_eq!(pick_device(Some("b"), &names, false).unwrap(), DevicePick::Listed(2));
    assert_eq!(pick_device(Some("gone"), &names, true).unwrap(), DevicePick::FallBack);
    assert_eq!(pick_device(None, &names, true).unwrap(), DevicePick::Default);
    for requested in [None, Some("gone")] {
        let err = pick_device(requested, &names, false).unwrap_err();
        assert!(matches!(err, AudioError::NoDefaultDevice));
        assert_eq!(
            err.message(),
            "no default audio input device — check `pactl list sources short`"
        );
    }
}

#[test]
fn unsupported_rate_names_the_device_and_its_default() {
    assert!(check_capture(None, &[(1, 8_000, 48_000)], 16_000, 1, None).is_ok());
    let err = check_capture(
        Some("headset".to_string()),
        &[(1, 44_100, 48_000)],
        16_000,
        1,
        Some((48_000, 2)),
    )
    .unwrap_err();
    assert_eq!(
        err.message(),
        "audio device `headset` does not support 16000 Hz @ 1 channel(s). \
         Device default: 48000 Hz @ 2 channels. Whisper requires 16 kHz mono — try selecting a \
         different input device (e.g. `pactl set-default-source <name>` on PulseAudio/PipeWire, \
         or picking a different device with `arecord -L` on ALSA-only systems)."
    );
    let err = check_capture(None, &[], 16_000, 1, None).unwrap_err();
    assert!(err
        .message()
        .starts_with("audio device `<unknown>` does not support"));
    assert!(err.message().contains("Device default: <unavailable>."));
}
