//! The configuration: its sections, their defaults, and how the model's path
//! is settled.

use vstd::prelude::*;

use crate::hw_detect::HardwareProfile;
use crate::model_choice;
use crate::model_choice::ModelId;
use crate::model_download;
use crate::path;
use crate::text;

verus! {

/// The path of the configuration file inside the user's configuration
/// directory, if there is one.
pub fn config_file_path(config_dir: Option<&str>) -> (r: Option<String>)
    ensures
        match config_dir {
            Some(dir) => r matches Some(p) && p@ == path::joined(
                path::joined(dir@, "lindiction"@),
                "config.toml"@,
            ),
            None => r is None,
        },
{
    match config_dir {
        Some(dir) => {
            let own = path::join(dir, "lindiction");
            Some(path::join(own.as_str(), "config.toml"))
        },
        None => None,
    }
}

/// The whole configuration.
#[derive(Debug, Clone)]
pub struct Config {
    pub hotkey: HotkeyConfig,
    pub audio: AudioConfig,
    pub model: ModelConfig,
    pub stt: SttConfig,
    pub injection: InjectionConfig,
    pub postprocess: PostprocessConfig,
    pub update: UpdateConfig,
    pub sample_rate: u32,
    pub channels: u16,
    /// The model that was chosen by the hardware, where nothing else said
    /// which one to use. Only such a model is downloaded on first run.
    pub auto_selected_model: Option<ModelId>,
}

/// The `[hotkey]` section.
#[derive(Debug, Clone)]
pub struct HotkeyConfig {
    pub binding: String,
}

/// The `[model]` section. An empty path means "not specified".
#[derive(Debug, Clone)]
pub struct ModelConfig {
    pub path: String,
}

/// The `[audio]` section.
#[derive(Debug, Clone)]
pub struct AudioConfig {
    /// Milliseconds of audio from before the press to start each utterance
    /// with; 0 for none.
    pub preroll_ms: u32,
    /// The input device to use, in place of the system's default.
    pub device: Option<String>,
}

/// How a transcript reaches the focused window.
#[derive(Debug, Clone, Copy, PartialEq, Eq, Structural)]
pub enum InjectionMethod {
    /// One keystroke per character.
    Type,
    /// By way of the clipboard.
    Paste,
}

/// The `[injection]` section.
#[derive(Debug, Clone)]
pub struct InjectionConfig {
    pub method: InjectionMethod,
    /// Milliseconds between keystrokes when typing.
    pub xdotool_delay_ms: u32,
    /// The key combination that pastes.
    pub paste_shortcut: String,
}

/// The `[stt]` section.
#[derive(Debug, Clone)]
pub struct SttConfig {
    /// How many candidates the decoder follows; 1 for the likeliest only.
    pub beam_size: u32,
    /// Text to prime the decoder with; empty for none.
    pub initial_prompt: String,
}

/// The `[postprocess]` section.
#[derive(Debug, Clone)]
pub struct PostprocessConfig {
    pub remove_fillers: bool,
    pub filler_words: Vec<String>,
    pub capitalize_sentences: bool,
    pub ensure_trailing_period: bool,
    /// Ordered pairs of what to look for and what to put in its place.
    pub replacements: Vec<[String; 2]>,
}

/// The `[update]` section.
#[derive(Debug, Clone)]
pub struct UpdateConfig {
    /// Whether to ask GitHub for new releases at all.
    pub enabled: bool,
    /// Hours between checks; 0 for a check at startup only.
    pub interval_hours: u64,
}

impl Default for HotkeyConfig {
    fn default() -> (r: Self)
        ensures
            r.binding@ == "ctrl+alt+space"@,
    {
        HotkeyConfig { binding: "ctrl+alt+space".to_owned() }
    }
}

impl Default for ModelConfig {
    fn default() -> (r: Self)
        ensures
            r.path@.len() == 0,
    {
        ModelConfig { path: String::new() }
    }
}

impl Default for AudioConfig {
    fn default() -> (r: Self)
        ensures
            r.preroll_ms == 300,
            r.device is None,
    {
        AudioConfig { preroll_ms: 300, device: None }
    }
}

impl Default for InjectionConfig {
    fn default() -> (r: Self)
        ensures
            r.method is Type,
            r.xdotool_delay_ms == 15,
            r.paste_shortcut@ == "ctrl+v"@,
    {
        InjectionConfig {
            method: InjectionMethod::Type,
            xdotool_delay_ms: 15,
            paste_shortcut: "ctrl+v".to_owned(),
        }
    }
}

impl Default for SttConfig {
    fn default() -> (r: Self)
        ensures
            r.beam_size == 5,
            r.initial_prompt@.len() == 0,
    {
        SttConfig { beam_size: 5, initial_prompt: String::new() }
    }
}

impl Default for PostprocessConfig {
    fn default() -> (r: Self)
        ensures
            r.remove_fillers,
            text::texts(r.filler_words@) == seq![
                "um"@,
                "uh"@,
                "ah"@,
                "like"@,
                "you know"@,
                "so"@,
                "basically"@,
            ],
            r.capitalize_sentences,
            r.ensure_trailing_period,
            r.replacements@.len() == 0,
    {
        let filler_words: Vec<String> = vec![
            "um".to_owned(),
            "uh".to_owned(),
            "ah".to_owned(),
            "like".to_owned(),
            "you know".to_owned(),
            "so".to_owned(),
            "basically".to_owned(),
        ];
        assert(text::texts(filler_words@) =~= seq![
            "um"@,
            "uh"@,
            "ah"@,
            "like"@,
            "you know"@,
            "so"@,
            "basically"@,
        ]);
        PostprocessConfig {
            remove_fillers: true,
            filler_words,
            capitalize_sentences: true,
            ensure_trailing_period: true,
            replacements: Vec::new(),
        }
    }
}

impl Default for UpdateConfig {
    fn default() -> (r: Self)
        ensures
            r.enabled,
            r.interval_hours == 6,
    {
        UpdateConfig { enabled: true, interval_hours: 6 }
    }
}

impl Default for Config {
    fn default() -> (r: Self)
        ensures
            r.hotkey.binding@ == "ctrl+alt+space"@,
            r.audio.preroll_ms == 300,
            r.audio.device is None,
            r.model.path@.len() == 0,
            r.stt.beam_size == 5,
            r.stt.initial_prompt@.len() == 0,
            r.injection.method is Type,
            r.injection.xdotool_delay_ms == 15,
            r.injection.paste_shortcut@ == "ctrl+v"@,
            r.postprocess.remove_fillers,
            text::texts(r.postprocess.filler_words@) == seq![
                "um"@,
                "uh"@,
                "ah"@,
                "like"@,
                "you know"@,
                "so"@,
                "basically"@,
            ],
            r.postprocess.capitalize_sentences,
            r.postprocess.ensure_trailing_period,
            r.postprocess.replacements@.len() == 0,
            r.update.enabled,
            r.update.interval_hours == 6,
            r.sample_rate == 16_000,
            r.channels == 1,
            r.auto_selected_model is None,
    {
        Config {
            hotkey: HotkeyConfig::default(),
            audio: AudioConfig::default(),
            model: ModelConfig::default(),
            stt: SttConfig::default(),
            injection: InjectionConfig::default(),
            postprocess: PostprocessConfig::default(),
            update: UpdateConfig::default(),
            sample_rate: 16_000,
            channels: 1,
            auto_selected_model: None,
        }
    }
}

/// The model path that was asked for: on the command line, else by a non-empty
/// environment variable, else in the file. Empty for none.
pub open spec fn asked_path(
    file: Seq<char>,
    cli: Option<Seq<char>>,
    env: Option<Seq<char>>,
) -> Seq<char> {
    match (cli, env) {
        (Some(p), _) => p,
        (None, Some(p)) => if p.len() > 0 {
            p
        } else {
            file
        },
        (None, None) => file,
    }
}

impl Config {
    /// Settle the model's path, in this order: the command line's flag, the
    /// environment variable (an empty one does not count), the file, and the
    /// choice that the hardware suggests. Only the last of these sets
    /// `auto_selected_model`; nothing else of the file's configuration changes.
    pub fn load(
        file: Config,
        cli_model: Option<String>,
        env_model: Option<String>,
        hw: &HardwareProfile,
        data_dir: Option<&str>,
    ) -> (r: Config)
        ensures
            ({
                let asked = asked_path(file.model.path@, text::held(cli_model), text::held(env_model));
                let chosen = model_choice::recommended(hw.available_ram_bytes);
                if asked.len() > 0 {
                    r.model.path@ == asked && r.auto_selected_model is None
                } else {
                    r.model.path@ == model_download::model_path(chosen, text::seen(data_dir))
                        && r.auto_selected_model == Some(chosen)
                }
            }),
            r == (Config {
                model: r.model,
                auto_selected_model: r.auto_selected_model,
                ..file
            }),
    {
        let mut config = file;
        config.auto_selected_model = None;
        match cli_model {
            Some(p) => {
                config.model.path = p;
            },
            None => {
                match env_model {
                    Some(p) => {
                        if !p.as_str().is_empty() {
                            config.model.path = p;
                        }
                    },
                    None => {},
                }
            },
        }
        if config.model.path.as_str().is_empty() {
            let chosen = model_choice::recommend(hw);
            config.model.path = model_download::default_model_path_for(chosen, data_dir);
            config.auto_selected_model = Some(chosen);
        }
        config
    }
}

/// When to ask for updates.
#[derive(Debug, Clone, Copy, PartialEq, Eq)]
pub struct UpdateSchedule {
    /// Whether to ask at startup.
    pub at_startup: bool,
    /// Seconds between later checks, if there are any.
    pub every_secs: Option<u64>,
}

impl UpdateConfig {
    /// When to ask for updates: never where updates are switched off; else at
    /// startup, and then in the given interval unless that is zero.
    pub fn schedule(&self) -> (r: UpdateSchedule)
        ensures
            r.at_startup == self.enabled,
            r.every_secs == if self.enabled && self.interval_hours > 0 {
                Some(
                    if self.interval_hours * 3600 <= u64::MAX {
                        (self.interval_hours * 3600) as u64
                    } else {
                        u64::MAX
                    },
                )
            } else {
                None
            },
    {
        let every_secs: Option<u64> = if self.enabled && self.interval_hours > 0 {
            match self.interval_hours.checked_mul(3600) {
                Some(secs) => Some(secs),
                None => Some(u64::MAX),
            }
        } else {
            None
        };
        UpdateSchedule { at_startup: self.enabled, every_secs }
    }
}

/// A path that the user asked for, in any way, is never replaced by an
/// automatic choice, and the command line outranks the environment, which
/// outranks the file.
pub proof fn model_path_precedence(
    file: Seq<char>,
    cli: Option<Seq<char>>,
    env: Option<Seq<char>>,
)
    ensures
        cli matches Some(p) ==> asked_path(file, cli, env) == p,
        cli is None && (env matches Some(p) && p.len() > 0) ==> asked_path(file, cli, env)
            == env->0,
        cli is None && !(env matches Some(p) && p.len() > 0) ==> asked_path(file, cli, env)
            == file,
{
}

// ---------------------------------------------------------------------------
// Laws
// ---------------------------------------------------------------------------

/// The model's path, from end to end: the command line outranks the environment,
/// which outranks the file, and only where none of them names one is the model
/// chosen by the memory. The rest of the file's settings stays.
pub proof fn loading_settles_the_model(
    file: Config,
    cli: Option<String>,
    env: Option<String>,
    hw: HardwareProfile,
    dir: Option<&str>,
    r: Config,
)
    requires
        call_ensures(Config::load, (file, cli, env, &hw, dir), r),
    ensures
        cli matches Some(p) ==> (p@.len() > 0 ==> r.model.path@ == p@ && r.auto_selected_model
            is None),
        cli is None && (env matches Some(p) && p@.len() > 0) ==> r.model.path@ == env->0@
            && r.auto_selected_model is None,
        cli is None && !(env matches Some(p) && p@.len() > 0) && file.model.path@.len() > 0
            ==> r.model.path@ == file.model.path@ && r.auto_selected_model is None,
        r.auto_selected_model matches Some(m) ==> {
            &&& r.model.path@ == model_download::model_path(m, text::seen(dir))
            &&& hw.available_ram_bytes >= 5_000_000_000 ==> m is MediumEn
            &&& hw.available_ram_bytes == 0 ==> m is SmallEn
        },
        r.hotkey == file.hotkey,
        r.audio == file.audio,
        r.stt == file.stt,
        r.injection == file.injection,
        r.postprocess == file.postprocess,
        r.update == file.update,
        r.sample_rate == file.sample_rate,
        r.channels == file.channels,
{
    model_choice::memory_decides(hw.available_ram_bytes);
}

/// Updates are asked for at startup exactly where they are switched on, and after
/// that every so many hours, of 3600 seconds each, unless the number is zero.
pub proof fn updates_are_checked_on_time(config: UpdateConfig, r: UpdateSchedule)
    requires
        call_ensures(UpdateConfig::schedule, (&config,), r),
    ensures
        r.at_startup == config.enabled,
        r.every_secs is Some <==> config.enabled && config.interval_hours > 0,
        config.interval_hours <= 1_000_000 ==> (r.every_secs matches Some(secs) ==> secs
            == config.interval_hours * 3600),
        r.every_secs matches Some(secs) ==> secs >= 3600,
{
}

/// The settings file is `lindiction/config.toml` in the configuration directory.
pub proof fn settings_live_in_the_config_directory(dir: &str, r: Option<String>)
    requires
        call_ensures(config_file_path, (Some(dir),), r),
        dir@.len() > 0,
        dir@[dir@.len() - 1] != '/',
    ensures
        r matches Some(p) && p@ == dir@ + "/lindiction/config.toml"@,
{
    reveal_strlit("/");
    reveal_strlit("lindiction");
    reveal_strlit("config.toml");
    reveal_strlit("/lindiction/config.toml");
    let own = path::joined(dir@, "lindiction"@);
    assert(own =~= dir@ + "/"@ + "lindiction"@);
    assert(own.last() == 'n');
    assert(path::joined(own, "config.toml"@) =~= dir@ + "/lindiction/config.toml"@);
}

/// What a daemon does that was told nothing.
pub proof fn defaults_are_as_documented(r: Config)
    requires
        call_ensures(Config::default, (), r),
    ensures
        r.hotkey.binding@ == "ctrl+alt+space"@,
        r.audio.preroll_ms == 300,
        r.audio.device is None,
        r.model.path@.len() == 0,
        r.stt.beam_size == 5,
        r.stt.initial_prompt@.len() == 0,
        r.injection.method is Type,
        r.injection.xdotool_delay_ms == 15,
        r.injection.paste_shortcut@ == "ctrl+v"@,
        r.postprocess.remove_fillers,
        r.postprocess.filler_words@.len() == 7,
        r.postprocess.filler_words@[0]@ == "um"@,
        r.postprocess.filler_words@[1]@ == "uh"@,
        r.postprocess.filler_words@[2]@ == "ah"@,
        r.postprocess.filler_words@[3]@ == "like"@,
        r.postprocess.filler_words@[4]@ == "you know"@,
        r.postprocess.filler_words@[5]@ == "so"@,
        r.postprocess.filler_words@[6]@ == "basically"@,
        r.postprocess.capitalize_sentences,
        r.postprocess.ensure_trailing_period,
        r.postprocess.replacements@.len() == 0,
        r.update.enabled,
        r.update.interval_hours == 6,
        r.sample_rate == 16_000,
        r.channels == 1,
        r.auto_selected_model is None,
{
    let words = text::texts(r.postprocess.filler_words@);
    assert(words.len() == 7);
    assert(words.len() == r.postprocess.filler_words@.len());
    assert(words[0] == r.postprocess.filler_words@[0]@);
    assert(words[1] == r.postprocess.filler_words@[1]@);
    assert(words[2] == r.postprocess.filler_words@[2]@);
    assert(words[3] == r.postprocess.filler_words@[3]@);
    assert(words[4] == r.postprocess.filler_words@[4]@);
    assert(words[5] == r.postprocess.filler_words@[5]@);
    assert(words[6] == r.postprocess.filler_words@[6]@);
}

/// Each section by itself starts as it does in the whole.
pub proof fn sections_start_as_the_whole(
    r: Config,
    hotkey: HotkeyConfig,
    audio: AudioConfig,
    model: ModelConfig,
    stt: SttConfig,
    injection: InjectionConfig,
    post: PostprocessConfig,
    update: UpdateConfig,
)
    requires
        call_ensures(Config::default, (), r),
        call_ensures(HotkeyConfig::default, (), hotkey),
        call_ensures(AudioConfig::default, (), audio),
        call_ensures(ModelConfig::default, (), model),
        call_ensures(SttConfig::default, (), stt),
        call_ensures(InjectionConfig::default, (), injection),
        call_ensures(PostprocessConfig::default, (), post),
        call_ensures(UpdateConfig::default, (), update),
    ensures
        hotkey.binding@ == r.hotkey.binding@,
        audio.preroll_ms == r.audio.preroll_ms,
        audio.device is None <==> r.audio.device is None,
        model.path@.len() == r.model.path@.len(),
        stt.beam_size == r.stt.beam_size,
        stt.initial_prompt@.len() == r.stt.initial_prompt@.len(),
        injection.method == r.injection.method,
        injection.xdotool_delay_ms == r.injection.xdotool_delay_ms,
        injection.paste_shortcut@ == r.injection.paste_shortcut@,
        post.remove_fillers == r.postprocess.remove_fillers,
        text::texts(post.filler_words@) == text::texts(r.postprocess.filler_words@),
        post.capitalize_sentences == r.postprocess.capitalize_sentences,
        post.ensure_trailing_period == r.postprocess.ensure_trailing_period,
        post.replacements@.len() == r.postprocess.replacements@.len(),
        update.enabled == r.update.enabled,
        update.interval_hours == r.update.interval_hours,
{
}

/// A model is chosen by the memory exactly where neither the command line nor the
/// environment nor the file names one; a path that is empty names none.
pub proof fn choices_are_the_last_resort(
    file: Config,
    cli: Option<String>,
    env: Option<String>,
    hw: HardwareProfile,
    dir: Option<&str>,
    r: Config,
)
    requires
        call_ensures(Config::load, (file, cli, env, &hw, dir), r),
    ensures
        r.auto_selected_model is Some <==> match cli {
            Some(p) => p@.len() == 0,
            None => !(env matches Some(p) && p@.len() > 0) && file.model.path@.len() == 0,
        },
        r.auto_selected_model matches Some(m) ==> m == model_choice::recommended(
            hw.available_ram_bytes,
        ),
        r.model.path@.len() > 0,
{
    if r.auto_selected_model is Some {
        let m = r.auto_selected_model->0;
        model_choice::models_go_by_their_names();
        reveal_strlit(".bin");
        let base = match dir {
            Some(d) => d@,
            None => ".local/share"@,
        };
        path::joining_adds_one_slash(
            path::joined(path::joined(base, "lindiction"@), "models"@),
            m.file(),
        );
        assert(m.file().len() > 0);
    }
}

} // verus!
