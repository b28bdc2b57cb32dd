use lindiction::hw_detect::HardwareProfile;
use lindiction::model_choice::{recommend, ModelId};
use lindiction::model_download::{
    check_download, default_model_path_for, ensure_model, min_expected_bytes, DownloadError,
};

const ALL: [ModelId; 4] = [
    ModelId::TinyEn,
    ModelId::BaseEn,
    ModelId::SmallEn,
    ModelId::MediumEn,
];

fn profile_with_available(available: u64) -> HardwareProfile {
    HardwareProfile {
        total_ram_bytes: available,
        available_ram_bytes: available,
        cpu_threads: 4,
        gpu: None,
    }
}

#[test]
fn zero_available_falls_back_to_small() {
    assert_eq!(recommend(&profile_with_available(0)), ModelId::SmallEn);
}

#[test]
fn sub_base_budget_falls_back_to_tiny() {
    assert_eq!(
        recommend(&profile_with_available(200_000_000)),
        ModelId::TinyEn
    );
}

#[test]
fn modest_system_picks_base() {
    assert_eq!(
        recommend(&profile_with_available(512_000_000)),
        ModelId::BaseEn
    );
}

#[test]
fn typical_laptop_picks_small() {
    assert_eq!(
        recommend(&profile_with_available(4_000_000_000)),
        ModelId::SmallEn
    );
}

#[test]
fn beefy_workstation_picks_medium() {
    assert_eq!(
        recommend(&profile_with_available(16_000_000_000)),
        ModelId::MediumEn
    );
}

#[test]
fn the_budget_is_sixty_percent_and_never_overflows() {
    assert_eq!(
        recommend(&profile_with_available(5_000_000_000)),
        ModelId::MediumEn
    );
    assert_eq!(
        recommend(&profile_with_available(4_999_999_999)),
        ModelId::SmallEn
    );
    assert_eq!(
        recommend(&profile_with_available(u64::MAX)),
        ModelId::MediumEn
    );
}

#[test]
fn filename_and_tag_are_consistent() {
    for m in ALL {
        assert!(
            m.filename().contains(m.tag()),
            "filename {} should contain tag {}",
            m.filename(),
            m.tag()
        );
    }
}

#[test]
fn download_urls_are_all_https() {
    for m in ALL {
        assert!(
            m.download_url().starts_with("https://"),
            "non-HTTPS url: {}",
            m.download_url()
        );
        assert!(m.download_url().ends_with(m.filename()));
    }
}

#[test]
fn runtime_ram_larger_than_download() {
    for m in ALL {
        assert!(
            m.approx_runtime_ram_bytes() > m.approx_download_bytes(),
            "runtime RAM must exceed on-disk size for {}",
            m.tag()
        );
    }
    assert_eq!(ModelId::SmallEn.approx_runtime_ram_bytes(), 976_000_000);
}

const DATA: Option<&str> = Some("/data");

#[test]
fn skips_when_path_differs_from_default() {
    let custom = "/tmp/custom-lindiction-test-nonexistent.bin";
    assert!(ensure_model(custom, Some(ModelId::SmallEn), DATA, false).is_none());
}

#[test]
fn skips_when_file_exists_at_default_path() {
    let default = default_model_path_for(ModelId::SmallEn, DATA);
    assert_eq!(default, "/data/lindiction/models/ggml-small.en.bin");
    assert!(ensure_model(&default, Some(ModelId::SmallEn), DATA, true).is_none());
}

#[test]
fn triggers_only_for_default_path() {
    let default = default_model_path_for(ModelId::SmallEn, DATA);
    assert!(
        default.ends_with("lindiction/models/ggml-small.en.bin"),
        "default_model_path_for(SmallEn) should end with lindiction/models/ggml-small.en.bin"
    );
    let plan = ensure_model(&default, Some(ModelId::SmallEn), DATA, false).expect("download");
    assert_eq!(plan.target, default);
    assert_eq!(plan.tmp, "/data/lindiction/models/ggml-small.en.bin.tmp");
    assert_eq!(
        plan.args,
        vec![
            "-L",
            "--fail",
            "--show-error",
            "-o",
            "/data/lindiction/models/ggml-small.en.bin.tmp",
            "https://huggingface.co/ggerganov/whisper.cpp/resolve/main/ggml-small.en.bin",
        ]
    );
    let same_place = "/data//lindiction/./models/ggml-small.en.bin";
    assert!(ensure_model(same_place, Some(ModelId::SmallEn), DATA, false).is_some());
    let relative = "data/lindiction/models/ggml-small.en.bin";
    assert!(ensure_model(relative, Some(ModelId::SmallEn), DATA, false).is_none());
    assert!(ensure_model(&default, Some(ModelId::TinyEn), DATA, false).is_none());
}

#[test]
fn none_auto_model_is_always_no_op() {
    let default_small = default_model_path_for(ModelId::SmallEn, DATA);
    assert!(ensure_model(&default_small, None, DATA, false).is_none());
}

#[test]
fn data_dir_falls_back_to_a_relative_one() {
    assert_eq!(
        default_model_path_for(ModelId::TinyEn, None),
        ".local/share/lindiction/models/ggml-tiny.en.bin"
    );
}

#[test]
fn small_downloads_are_rejected() {
    assert_eq!(min_expected_bytes(ModelId::TinyEn), 60_000_000);
    assert!(check_download(ModelId::TinyEn, 60_000_000).is_ok());
    let err = check_download(ModelId::TinyEn, 59_999_999).unwrap_err();
    assert!(matches!(err, DownloadError::TooSmall { .. }));
    assert_eq!(
        err.message(),
        "downloaded 59999999 bytes from \
         https://huggingface.co/ggerganov/whisper.cpp/resolve/main/ggml-tiny.en.bin \
         (expected >= 60000000). The server likely returned an error page. \
         Check the URL and your network, or pass --model /path/to/existing.bin."
    );
    let err = DownloadError::CurlFailed {
        status: "exit status: 22".to_string(),
        model: ModelId::BaseEn,
        target: "/m.bin".to_string(),
    };
    assert_eq!(
        err.message(),
        "curl exited with exit status: 22. Could not download base.en \
         (https://huggingface.co/ggerganov/whisper.cpp/resolve/main/ggml-base.en.bin) to /m.bin. \
         Check your network connection, or pass --model /path/to/existing.bin."
    );
}

#[test]
fn failed_downloads_name_the_target() {
    let path = default_model_path_for(ModelId::BaseEn, DATA);
    let plan = ensure_model(&path, Some(ModelId::BaseEn), DATA, false).unwrap();
    assert!(plan.check_curl(true, "exit status: 0").is_ok());
    let err = plan.check_curl(false, "exit status: 6").unwrap_err();
    assert!(err.message().starts_with("curl exited with exit status: 6. Could not download base.en"));
    assert!(err.message().contains("to /data/lindiction/models/ggml-base.en.bin."));
}
