use lindiction::app::{prepare_text, App, Effect, Event, ExitAction};
use lindiction::config::PostprocessConfig;
use lindiction::postprocess::Postprocessor;
use lindiction::tray::{ControlCmd, TrayEvent};
use lindiction::update::UpdateInfo;
use lindiction::version::Version;

fn session(ring: usize) -> App<i32> {
    App::new(ring)
}

fn show(effects: Vec<Effect<i32>>) -> Vec<String> {
    effects
        .into_iter()
        .map(|e| match e {
            Effect::SetTray(state) => format!("tray {state:?}"),
            Effect::Transcribe(audio) => format!("transcribe {audio:?}"),
            Effect::CheckUpdates => "check".to_string(),
            Effect::Install(info) => format!("install {}", info.tag_name),
            Effect::ShowUpdate(v) => format!("offer {v:?}"),
            Effect::Notify { summary, body } => format!("notify {summary} | {body}"),
        })
        .collect()
}

fn run(app: &mut App<i32>, event: Event<i32>) -> Vec<String> {
    show(app.step(event))
}

fn release(version: &str) -> UpdateInfo {
    UpdateInfo {
        current: Version::parse("0.9.0").unwrap(),
        latest: Version::parse(version).unwrap(),
        tag_name: format!("v{version}"),
        html_url: String::new(),
        deb_url: String::new(),
        deb_sha256_url: None,
        tarball_url: String::new(),
        tarball_sha256_url: String::new(),
    }
}

fn found(version: &str) -> Event<i32> {
    Event::Checked {
        manual: false,
        result: Ok(Some(release(version))),
    }
}

#[test]
fn an_utterance_is_what_was_said_around_the_press() {
    let mut app = session(3);
    assert!(app.wants_audio());
    assert!(run(&mut app, Event::Audio(vec![1, 2])).is_empty());
    run(&mut app, Event::Audio(vec![3, 4]));
    assert!(app.accepts_press());
    assert_eq!(run(&mut app, Event::Press), vec!["tray Recording"]);
    assert!(!app.accepts_press());
    run(&mut app, Event::Audio(vec![5]));
    assert!(run(&mut app, Event::Press).is_empty());
    run(&mut app, Event::Audio(vec![6, 7]));
    assert_eq!(
        run(&mut app, Event::Release),
        vec!["transcribe [2, 3, 4, 5, 6, 7]"]
    );
    assert_eq!(run(&mut app, Event::Queued), vec!["tray Processing"]);
    assert_eq!(run(&mut app, Event::Done), vec!["tray Idle"]);
    assert!(run(&mut app, Event::Release).is_empty());
    run(&mut app, Event::Press);
    assert_eq!(run(&mut app, Event::Release), vec!["transcribe []"]);
}

#[test]
fn without_a_ring_earlier_audio_is_dropped() {
    let mut app = session(0);
    assert!(!app.wants_audio());
    run(&mut app, Event::Audio(vec![1, 2, 3]));
    run(&mut app, Event::Press);
    assert!(app.wants_audio());
    run(&mut app, Event::Audio(vec![4]));
    assert_eq!(run(&mut app, Event::Release), vec!["transcribe [4]"]);
}

#[test]
fn a_full_queue_drops_the_utterance_and_a_closed_one_ends_the_session() {
    let mut app = session(0);
    assert_eq!(run(&mut app, Event::QueueFull), vec!["tray Idle"]);
    assert_eq!(app.exit(), None);
    assert!(run(&mut app, Event::QueueClosed).is_empty());
    assert_eq!(app.exit(), Some(ExitAction::Quit));
}

#[test]
fn pausing_mutes_the_hotkey_and_discards_the_utterance() {
    let mut app = session(0);
    run(&mut app, Event::Press);
    run(&mut app, Event::Audio(vec![1]));
    let toggle = || Event::Control(ControlCmd::TogglePause);
    assert_eq!(run(&mut app, toggle()), vec!["tray Paused"]);
    assert!(run(&mut app, Event::Release).is_empty());
    assert!(run(&mut app, Event::Press).is_empty());
    assert!(run(&mut app, Event::Done).is_empty());
    assert_eq!(run(&mut app, toggle()), vec!["tray Idle"]);
    assert!(run(&mut app, Event::Release).is_empty());
    run(&mut app, Event::Press);
    run(&mut app, Event::Audio(vec![2]));
    assert_eq!(run(&mut app, Event::Release), vec!["transcribe [2]"]);
}

#[test]
fn the_menu_ends_the_session() {
    for (cmd, exit) in [
        (ControlCmd::Quit, ExitAction::Quit),
        (ControlCmd::Restart, ExitAction::Restart),
    ] {
        let mut app = session(0);
        assert!(run(&mut app, Event::Control(cmd)).is_empty());
        assert_eq!(app.exit(), Some(exit));
        assert!(run(&mut app, Event::Press).is_empty());
        assert!(run(&mut app, Event::Control(ControlCmd::Restart)).is_empty());
        assert_eq!(app.exit(), Some(exit));
    }
}

#[test]
fn lost_channels_end_the_session_but_for_the_tray() {
    for event in [
        Event::HotkeyClosed,
        Event::AudioClosed,
        Event::DoneClosed,
        Event::Interrupt,
    ] {
        let mut app = session(0);
        assert!(run(&mut app, event).is_empty());
        assert_eq!(app.exit(), Some(ExitAction::Quit));
    }
    let mut app = session(0);
    assert!(app.control_open());
    run(&mut app, Event::ControlClosed);
    assert!(!app.control_open());
    run(&mut app, Event::UpdatesClosed);
    assert_eq!(app.exit(), None);
}

#[test]
fn updates_are_offered_and_installed_on_request() {
    let mut app = session(0);
    assert!(run(&mut app, Event::Control(ControlCmd::InstallUpdate)).is_empty());
    assert_eq!(
        run(&mut app, Event::Control(ControlCmd::CheckForUpdates)),
        vec!["check"]
    );
    assert_eq!(
        run(&mut app, found("1.0.0")),
        vec![
            "offer Some(\"1.0.0\")",
            "notify Lindiction v1.0.0 available | Click the tray icon to install.",
        ]
    );
    assert_eq!(
        run(&mut app, Event::Control(ControlCmd::InstallUpdate)),
        vec![
            "notify Downloading lindiction v1.0.0… | You'll be prompted to approve the install.",
            "install v1.0.0",
        ]
    );
    assert_eq!(
        run(&mut app, Event::Installed(Err("denied".to_string()))),
        vec!["notify Update failed | denied"]
    );
    assert_eq!(app.exit(), None);
    assert_eq!(
        run(&mut app, Event::Installed(Ok(()))),
        vec![
            "offer None",
            "notify Update installed | Lindiction is restarting into the new version.",
        ]
    );
    assert_eq!(app.exit(), Some(ExitAction::Restart));
}

#[test]
fn only_manual_checks_report_no_news() {
    let check = |manual, result| Event::<i32>::Checked { manual, result };
    let mut app = session(0);
    assert_eq!(run(&mut app, check(false, Ok(None))), vec!["offer None"]);
    assert_eq!(
        run(&mut app, check(true, Ok(None))),
        vec!["offer None", "notify Lindiction is up to date | "]
    );
    assert!(run(&mut app, check(false, Err("offline".to_string()))).is_empty());
    assert_eq!(
        run(&mut app, check(true, Err("offline".to_string()))),
        vec!["notify Update check failed | offline"]
    );
    run(&mut app, found("1.0.0"));
    run(&mut app, check(false, Err("offline".to_string())));
    assert_eq!(
        run(&mut app, Event::Control(ControlCmd::InstallUpdate)).len(),
        2
    );
    run(&mut app, check(false, Ok(None)));
    assert!(run(&mut app, Event::Control(ControlCmd::InstallUpdate)).is_empty());
}

#[test]
fn blank_transcripts_are_not_typed() {
    let post = Postprocessor::new(&PostprocessConfig::default()).unwrap();
    assert_eq!(prepare_text(&post, ""), None);
    assert_eq!(prepare_text(&post, "um, uh"), None);
    assert_eq!(prepare_text(&post, "hello").as_deref(), Some("Hello."));
}
