use lindiction::config::{config_file_path, Config, InjectionMethod, UpdateConfig};
use lindiction::hw_detect::HardwareProfile;
use lindiction::model_choice::ModelId;
use lindiction::model_download::default_model_path_for;

fn host(available: u64) -> HardwareProfile {
    HardwareProfile {
        total_ram_bytes: available,
        available_ram_bytes: available,
        cpu_threads: 4,
        gpu: None,
    }
}

const DATA: Option<&str> = Some("/home/alice/.local/share");

fn load(file: Config, cli: Option<&str>, env: Option<&str>) -> Config {
    Config::load(
        file,
        cli.map(str::to_string),
        env.map(str::to_string),
        &host(4_000_000_000),
        DATA,
    )
}

#[test]
fn default_model_path_matches_xdg() {
    let c = Config::default();
    assert!(c.model.path.is_empty());
    let p = default_model_path_for(ModelId::SmallEn, DATA);
    assert!(p.ends_with("lindiction/models/ggml-small.en.bin"), "got {p}");
}

#[test]
fn default_hotkey_binding() {
    let c = Config::default();
    assert_eq!(c.hotkey.binding, "ctrl+alt+space");
}

#[test]
fn default_postprocess_toggles_all_on() {
    let c = Config::default();
    assert!(c.postprocess.remove_fillers);
    assert!(c.postprocess.capitalize_sentences);
    assert!(c.postprocess.ensure_trailing_period);
    assert!(!c.postprocess.filler_words.is_empty());
    assert_eq!(
        c.postprocess.filler_words,
        vec!["um", "uh", "ah", "like", "you know", "so", "basically"]
    );
    assert!(c.postprocess.replacements.is_empty());
}

#[test]
fn default_audio_config() {
    let c = Config::default();
    assert_eq!(c.audio.preroll_ms, 300);
    assert!(c.audio.device.is_none());
}

#[test]
fn default_stt_config() {
    let c = Config::default();
    assert_eq!(c.stt.beam_size, 5);
    assert!(c.stt.initial_prompt.is_empty());
}

#[test]
fn default_update_config_is_opt_in() {
    let c = Config::default();
    assert!(c.update.enabled, "update checks default to enabled");
    assert_eq!(c.update.interval_hours, 6);
}

#[test]
fn default_runtime_fields() {
    let c = Config::default();
    assert_eq!(c.sample_rate, 16_000);
    assert_eq!(c.channels, 1);
    assert_eq!(c.injection.xdotool_delay_ms, 15);
}

#[test]
fn injection_defaults_match_expected() {
    let c = Config::default();
    assert_eq!(c.injection.method, InjectionMethod::Type);
    assert_eq!(c.injection.xdotool_delay_ms, 15);
    assert_eq!(c.injection.paste_shortcut, "ctrl+v");
}

#[test]
fn load_with_no_config_file_uses_defaults() {
    let c = load(Config::default(), None, None);
    assert!(
        c.auto_selected_model.is_some(),
        "expected hardware auto-selection to fire"
    );
    let fname = c.model.path.rsplit('/').next().unwrap_or("");
    assert!(
        fname.starts_with("ggml-"),
        "auto-selected path should be a ggml-*.bin file; got {}",
        c.model.path
    );
    assert_eq!(c.hotkey.binding, "ctrl+alt+space");
}

#[test]
fn env_model_beats_default() {
    let c = load(Config::default(), None, Some("/from/env.bin"));
    assert_eq!(c.model.path, "/from/env.bin");
    assert!(
        c.auto_selected_model.is_none(),
        "env-specified path must not auto-download"
    );
}

#[test]
fn cli_model_beats_env() {
    let c = load(Config::default(), Some("/from/cli.bin"), Some("/from/env.bin"));
    assert_eq!(c.model.path, "/from/cli.bin");
    assert!(
        c.auto_selected_model.is_none(),
        "CLI-specified path must not auto-download"
    );
}

#[test]
fn empty_env_model_does_not_count() {
    let mut file = Config::default();
    file.model.path = "/from/toml.bin".to_string();
    let c = load(file, None, Some(""));
    assert_eq!(c.model.path, "/from/toml.bin");
    assert!(c.auto_selected_model.is_none());
}

#[test]
fn config_file_path_ends_correctly() {
    if let Some(p) = config_file_path(Some("/home/alice/.config")) {
        assert!(p.ends_with("lindiction/config.toml"), "got {p}");
    }
    assert_eq!(
        config_file_path(Some("/x/")).as_deref(),
        Some("/x/lindiction/config.toml")
    );
    assert_eq!(config_file_path(None), None);
}

#[test]
fn auto_selection_populates_auto_selected_model_when_nothing_set() {
    let c = load(Config::default(), None, None);
    assert_eq!(c.auto_selected_model, Some(ModelId::SmallEn));
    let (parent, _) = c.model.path.rsplit_once('/').unwrap();
    assert!(
        parent.ends_with("lindiction/models"),
        "chosen path should live in XDG models dir; got {}",
        c.model.path
    );
}

#[test]
fn cli_path_clears_auto_selected_model() {
    let c = load(Config::default(), Some("/from/cli.bin"), None);
    assert_eq!(c.model.path, "/from/cli.bin");
    assert!(
        c.auto_selected_model.is_none(),
        "CLI-specified path must not auto-download anything"
    );
}

#[test]
fn toml_path_clears_auto_selected_model() {
    let mut file = Config::default();
    file.model.path = "/from/toml.bin".to_string();
    let c = load(file, None, None);
    assert_eq!(c.model.path, "/from/toml.bin");
    assert!(c.auto_selected_model.is_none());
}

#[test]
fn loading_changes_nothing_but_the_model() {
    let mut file = Config::default();
    file.hotkey.binding = "f9".to_string();
    file.audio.device = Some("mic".to_string());
    file.update.interval_hours = 24;
    let c = load(file, None, None);
    assert_eq!(c.hotkey.binding, "f9");
    assert_eq!(c.audio.device.as_deref(), Some("mic"));
    assert_eq!(c.update.interval_hours, 24);
}

#[test]
fn update_schedule_follows_the_settings() {
    let schedule = |enabled, interval_hours| {
        let s = UpdateConfig {
            enabled,
            interval_hours,
        }
        .schedule();
        (s.at_startup, s.every_secs)
    };
    assert_eq!(schedule(true, 6), (true, Some(21_600)));
    assert_eq!(schedule(true, 0), (true, None));
    assert_eq!(schedule(false, 6), (false, None));
    assert_eq!(schedule(true, u64::MAX), (true, Some(u64::MAX)));
}
