//! The push-to-talk session: a state machine from what happened to what is to
//! be done about it.
//!
//! The surrounding program waits for hotkey, audio, worker, tray and update
//! events, hands each one to [`App::step`], carries out the effects in order,
//! and stops once [`App::exit`] gives an action.

use vstd::prelude::*;

use crate::postprocess;
use crate::postprocess::Postprocessor;
use crate::preroll;
use crate::preroll::PreRoll;
use crate::text;
use crate::tray::{ControlCmd, TrayEvent};
use crate::update::{UpdateFacts, UpdateInfo};
use crate::version;

verus! {

/// How the process is to end.
#[derive(Debug, Clone, Copy, PartialEq, Eq, Structural)]
pub enum ExitAction {
    Quit,
    Restart,
}

/// Something that happened.
#[derive(Debug)]
pub enum Event<T> {
    /// The hotkey went down.
    Press,
    /// The hotkey came up.
    Release,
    /// The hotkey listener is gone.
    HotkeyClosed,
    /// The microphone delivered a chunk of samples.
    Audio(Vec<T>),
    /// The microphone is gone.
    AudioClosed,
    /// The worker's queue took the utterance.
    Queued,
    /// The worker's queue was full; the utterance was dropped.
    QueueFull,
    /// The worker is gone.
    QueueClosed,
    /// The worker finished an utterance.
    Done,
    /// The worker's channel for finished utterances is gone.
    DoneClosed,
    /// The user picked a menu item.
    Control(ControlCmd),
    /// The tray is gone.
    ControlClosed,
    /// An update check ended; `manual` tells a click from a timer.
    Checked { manual: bool, result: Result<Option<UpdateInfo>, String> },
    /// An install ended.
    Installed(Result<(), String>),
    /// No update task is left.
    UpdatesClosed,
    /// Ctrl-C.
    Interrupt,
}

/// Something to do.
#[derive(Debug)]
pub enum Effect<T> {
    /// Show this state in the tray.
    SetTray(TrayEvent),
    /// Hand this audio to the worker's queue, and report how that went.
    Transcribe(Vec<T>),
    /// Start an update check on the user's behalf.
    CheckUpdates,
    /// Start the install of this release.
    Install(UpdateInfo),
    /// Show in the tray that this version can be installed, or that none can.
    ShowUpdate(Option<String>),
    /// Show a desktop notification.
    Notify { summary: String, body: String },
}

/// An event by what it says.
pub enum Input<T> {
    Press,
    Release,
    HotkeyClosed,
    Audio(Seq<T>),
    AudioClosed,
    Queued,
    QueueFull,
    QueueClosed,
    Done,
    DoneClosed,
    Control(ControlCmd),
    ControlClosed,
    Checked(bool, Result<Option<UpdateFacts>, Seq<char>>),
    Installed(Result<(), Seq<char>>),
    UpdatesClosed,
    Interrupt,
}

impl<T> View for Event<T> {
    type V = Input<T>;

    open spec fn view(&self) -> Input<T> {
        match *self {
            Event::Press => Input::Press,
            Event::Release => Input::Release,
            Event::HotkeyClosed => Input::HotkeyClosed,
            Event::Audio(chunk) => Input::Audio(chunk@),
            Event::AudioClosed => Input::AudioClosed,
            Event::Queued => Input::Queued,
            Event::QueueFull => Input::QueueFull,
            Event::QueueClosed => Input::QueueClosed,
            Event::Done => Input::Done,
            Event::DoneClosed => Input::DoneClosed,
            Event::Control(cmd) => Input::Control(cmd),
            Event::ControlClosed => Input::ControlClosed,
            Event::Checked { manual, result } => Input::Checked(
                manual,
                match result {
                    Ok(Some(info)) => Ok(Some(info@)),
                    Ok(None) => Ok(None),
                    Err(e) => Err(e@),
                },
            ),
            Event::Installed(result) => Input::Installed(
                match result {
                    Ok(_) => Ok(()),
                    Err(e) => Err(e@),
                },
            ),
            Event::UpdatesClosed => Input::UpdatesClosed,
            Event::Interrupt => Input::Interrupt,
        }
    }
}

/// An effect by what it asks for.
#[verifier::ext_equal]
pub enum Order<T> {
    SetTray(TrayEvent),
    Transcribe(Seq<T>),
    CheckUpdates,
    Install(UpdateFacts),
    ShowUpdate(Option<Seq<char>>),
    Notify(Seq<char>, Seq<char>),
}

impl<T> View for Effect<T> {
    type V = Order<T>;

    open spec fn view(&self) -> Order<T> {
        match *self {
            Effect::SetTray(event) => Order::SetTray(event),
            Effect::Transcribe(audio) => Order::Transcribe(audio@),
            Effect::CheckUpdates => Order::CheckUpdates,
            Effect::Install(info) => Order::Install(info@),
            Effect::ShowUpdate(Some(v)) => Order::ShowUpdate(Some(v@)),
            Effect::ShowUpdate(None) => Order::ShowUpdate(None),
            Effect::Notify { summary, body } => Order::Notify(summary@, body@),
        }
    }
}

/// Effects by what they ask for.
pub open spec fn orders<T>(effects: Seq<Effect<T>>) -> Seq<Order<T>> {
    effects.map_values(|e: Effect<T>| e@)
}

/// What a session is in the middle of.
#[verifier::ext_equal]
pub struct State<T> {
    /// Whether the hotkey is held and audio is being kept.
    pub recording: bool,
    /// Whether the hotkey is muted.
    pub paused: bool,
    /// How to end, once that is settled.
    pub exit: Option<ExitAction>,
    /// Whether the tray is still there.
    pub control_open: bool,
    /// The release that a click on "Update" installs.
    pub latest: Option<UpdateFacts>,
    /// The utterance so far.
    pub buffer: Seq<T>,
    /// The most recent audio from before the press.
    pub ring: Seq<T>,
    /// How much of that is kept.
    pub ring_cap: nat,
}

impl<T> State<T> {
    /// A paused session does not record; an utterance exists only while
    /// recording, and audio from before the press only while not.
    pub open spec fn wf(self) -> bool {
        &&& self.paused ==> !self.recording
        &&& !self.recording ==> self.buffer.len() == 0
        &&& self.recording ==> self.ring.len() == 0
        &&& self.ring.len() <= self.ring_cap
    }

    /// This state, with the way to end settled.
    pub open spec fn ending(self, action: ExitAction) -> State<T> {
        State { exit: Some(action), ..self }
    }

    /// The hotkey goes down: unless it is muted or held already, recording
    /// starts with the audio from just before.
    pub open spec fn on_press(self) -> (State<T>, Seq<Order<T>>) {
        if self.paused || self.recording {
            (self, seq![])
        } else {
            (
                State { recording: true, buffer: self.ring, ring: Seq::empty(), ..self },
                seq![Order::SetTray(TrayEvent::Recording)],
            )
        }
    }

    /// The hotkey comes up: what was recorded goes to the worker.
    pub open spec fn on_release(self) -> (State<T>, Seq<Order<T>>) {
        if self.paused || !self.recording {
            (self, seq![])
        } else {
            (
                State { recording: false, buffer: Seq::empty(), ..self },
                seq![Order::Transcribe(self.buffer)],
            )
        }
    }

    /// Audio arrives: it belongs to the utterance, or to what precedes the
    /// next one.
    pub open spec fn on_audio(self, chunk: Seq<T>) -> State<T> {
        if self.recording {
            State { buffer: self.buffer + chunk, ..self }
        } else {
            State { ring: preroll::newest(self.ring + chunk, self.ring_cap), ..self }
        }
    }

    /// The user picks a menu item.
    pub open spec fn on_control(self, cmd: ControlCmd) -> (State<T>, Seq<Order<T>>) {
        match cmd {
            ControlCmd::Quit => (self.ending(ExitAction::Quit), seq![]),
            ControlCmd::Restart => (self.ending(ExitAction::Restart), seq![]),
            ControlCmd::CheckForUpdates => (self, seq![Order::CheckUpdates]),
            ControlCmd::InstallUpdate => (
                self,
                match self.latest {
                    None => seq![],
                    Some(info) => seq![
                        Order::Notify(
                            "Downloading lindiction v"@ + version::rendered(info.latest) + "…"@,
                            "You'll be prompted to approve the install."@,
                        ),
                        Order::Install(info),
                    ],
                },
            ),
            ControlCmd::TogglePause => if self.paused {
                (State { paused: false, ..self }, seq![Order::SetTray(TrayEvent::Idle)])
            } else {
                (
                    State { paused: true, recording: false, buffer: Seq::empty(), ..self },
                    seq![Order::SetTray(TrayEvent::Paused)],
                )
            },
        }
    }

    /// An update check ends.
    pub open spec fn on_checked(
        self,
        manual: bool,
        result: Result<Option<UpdateFacts>, Seq<char>>,
    ) -> (State<T>, Seq<Order<T>>) {
        match result {
            Ok(Some(info)) => (
                State { latest: Some(info), ..self },
                seq![
                    Order::ShowUpdate(Some(version::rendered(info.latest))),
                    Order::Notify(
                        "Lindiction v"@ + version::rendered(info.latest) + " available"@,
                        "Click the tray icon to install."@,
                    ),
                ],
            ),
            Ok(None) => (
                State { latest: None, ..self },
                if manual {
                    seq![
                        Order::ShowUpdate(None),
                        Order::Notify("Lindiction is up to date"@, ""@),
                    ]
                } else {
                    seq![Order::ShowUpdate(None)]
                },
            ),
            Err(e) => (
                self,
                if manual {
                    seq![Order::Notify("Update check failed"@, e)]
                } else {
                    seq![]
                },
            ),
        }
    }

    /// An install ends.
    pub open spec fn on_installed(self, result: Result<(), Seq<char>>) -> (
        State<T>,
        Seq<Order<T>>,
    ) {
        match result {
            Ok(_) => (
                self.ending(ExitAction::Restart),
                seq![
                    Order::ShowUpdate(None),
                    Order::Notify(
                        "Update installed"@,
                        "Lindiction is restarting into the new version."@,
                    ),
                ],
            ),
            Err(e) => (self, seq![Order::Notify("Update failed"@, e)]),
        }
    }

    /// The next state and what is to be done, for each event. Once the end is
    /// settled nothing changes any more.
    pub open spec fn next(self, input: Input<T>) -> (State<T>, Seq<Order<T>>) {
        if self.exit is Some {
            (self, seq![])
        } else {
            match input {
                Input::Press => self.on_press(),
                Input::Release => self.on_release(),
                Input::Audio(chunk) => (self.on_audio(chunk), seq![]),
                Input::Queued => (self, seq![Order::SetTray(TrayEvent::Processing)]),
                Input::QueueFull => (self, seq![Order::SetTray(TrayEvent::Idle)]),
                Input::Done => (
                    self,
                    if self.paused {
                        seq![]
                    } else {
                        seq![Order::SetTray(TrayEvent::Idle)]
                    },
                ),
                Input::Control(cmd) => self.on_control(cmd),
                Input::ControlClosed => (State { control_open: false, ..self }, seq![]),
                Input::Checked(manual, result) => self.on_checked(manual, result),
                Input::Installed(result) => self.on_installed(result),
                Input::UpdatesClosed => (self, seq![]),
                Input::HotkeyClosed => (self.ending(ExitAction::Quit), seq![]),
                Input::AudioClosed => (self.ending(ExitAction::Quit), seq![]),
                Input::QueueClosed => (self.ending(ExitAction::Quit), seq![]),
                Input::DoneClosed => (self.ending(ExitAction::Quit), seq![]),
                Input::Interrupt => (self.ending(ExitAction::Quit), seq![]),
            }
        }
    }
}

/// A running session.
pub struct App<T> {
    recording: bool,
    paused: bool,
    exit: Option<ExitAction>,
    control_open: bool,
    latest: Option<UpdateInfo>,
    buffer: Vec<T>,
    ring: PreRoll<T>,
}

impl<T> View for App<T> {
    type V = State<T>;

    closed spec fn view(&self) -> State<T> {
        State {
            recording: self.recording,
            paused: self.paused,
            exit: self.exit,
            control_open: self.control_open,
            latest: match self.latest {
                Some(info) => Some(info@),
                None => None,
            },
            buffer: self.buffer@,
            ring: self.ring@,
            ring_cap: self.ring.cap(),
        }
    }
}

impl<T: Copy> App<T> {
    /// A fresh session: not recording, not paused, with a ring for
    /// `ring_samples` samples from before each press.
    pub fn new(ring_samples: usize) -> (r: Self)
        ensures
            r@.wf(),
            r@ == (State::<T> {
                recording: false,
                paused: false,
                exit: None,
                control_open: true,
                latest: None,
                buffer: Seq::empty(),
                ring: Seq::empty(),
                ring_cap: ring_samples as nat,
            }),
    {
        App {
            recording: false,
            paused: false,
            exit: None,
            control_open: true,
            latest: None,
            buffer: Vec::new(),
            ring: PreRoll::new(ring_samples),
        }
    }

    /// How to end, once that is settled.
    pub fn exit(&self) -> (r: Option<ExitAction>)
        ensures
            r == self@.exit,
    {
        self.exit
    }

    /// Whether the tray is still worth listening to.
    pub fn control_open(&self) -> (r: bool)
        ensures
            r == self@.control_open,
    {
        self.control_open
    }

    /// Whether audio is worth listening to: while recording, and at any time
    /// where audio from before the press is kept.
    pub fn wants_audio(&self) -> (r: bool)
        ensures
            r == (self@.recording || self@.ring_cap > 0),
    {
        self.recording || self.ring.capacity() > 0
    }

    /// Whether a press would start a recording.
    pub fn accepts_press(&self) -> (r: bool)
        ensures
            r == (!self@.paused && !self@.recording),
    {
        !self.paused && !self.recording
    }

    /// Take an audio chunk.
    fn take_audio(&mut self, mut chunk: Vec<T>)
        requires
            old(self)@.wf(),
        ensures
            final(self)@ == old(self)@.on_audio(chunk@),
    {
        if self.recording {
            self.buffer.append(&mut chunk);
        } else {
            self.ring.push(chunk.as_slice());
        }
    }

    /// Take a command from the tray.
    fn take_control(&mut self, cmd: ControlCmd) -> (r: Vec<Effect<T>>)
        requires
            old(self)@.wf(),
        ensures
            (final(self)@, orders(r@)) == old(self)@.on_control(cmd),
    {
        let mut effects: Vec<Effect<T>> = Vec::new();
        match cmd {
            ControlCmd::Quit => {
                self.exit = Some(ExitAction::Quit);
            },
            ControlCmd::Restart => {
                self.exit = Some(ExitAction::Restart);
            },
            ControlCmd::CheckForUpdates => {
                effects.push(Effect::CheckUpdates);
            },
            ControlCmd::InstallUpdate => {
                match &self.latest {
                    None => {},
                    Some(info) => {
                        let number = info.latest.to_text();
                        effects.push(
                            Effect::Notify {
                                summary: text::concat3(
                                    "Downloading lindiction v",
                                    number.as_str(),
                                    "…",
                                ),
                                body: "You'll be prompted to approve the install.".to_owned(),
                            },
                        );
                        effects.push(Effect::Install(info.clone()));
                    },
                }
            },
            ControlCmd::TogglePause => {
                if self.paused {
                    self.paused = false;
                    effects.push(Effect::SetTray(TrayEvent::Idle));
                } else {
                    self.paused = true;
                    self.recording = false;
                    self.buffer.clear();
                    effects.push(Effect::SetTray(TrayEvent::Paused));
                }
            },
        }
        assert(orders(effects@) =~= old(self)@.on_control(cmd).1);
        assert(self@ =~= old(self)@.on_control(cmd).0);
        effects
    }

    /// Take the result of an update check.
    fn take_check(&mut self, manual: bool, result: Result<Option<UpdateInfo>, String>) -> (r: Vec<
        Effect<T>,
    >)
        requires
            old(self)@.wf(),
        ensures
            (Event::<T>::Checked { manual, result })@ matches Input::Checked(m, seen) && (
                final(self)@,
                orders(r@),
            ) == old(self)@.on_checked(m, seen),
    {
        let mut effects: Vec<Effect<T>> = Vec::new();
        let ghost seen = (Event::<T>::Checked { manual, result })@->Checked_1;
        match result {
            Ok(Some(info)) => {
                let number = info.latest.to_text();
                let summary = text::concat3("Lindiction v", number.as_str(), " available");
                effects.push(Effect::ShowUpdate(Some(number)));
                effects.push(
                    Effect::Notify { summary, body: "Click the tray icon to install.".to_owned() },
                );
                self.latest = Some(info);
            },
            Ok(None) => {
                effects.push(Effect::ShowUpdate(None));
                self.latest = None;
                if manual {
                    effects.push(
                        Effect::Notify {
                            summary: "Lindiction is up to date".to_owned(),
                            body: "".to_owned(),
                        },
                    );
                }
            },
            Err(e) => {
                if manual {
                    effects.push(
                        Effect::Notify { summary: "Update check failed".to_owned(), body: e },
                    );
                }
            },
        }
        assert(orders(effects@) =~= old(self)@.on_checked(manual, seen).1);
        effects
    }

    /// Take in one event and say what is to be done about it, in order.
    pub fn step(&mut self, event: Event<T>) -> (r: Vec<Effect<T>>)
        requires
            old(self)@.wf(),
        ensures
            final(self)@.wf(),
            (final(self)@, orders(r@)) == old(self)@.next(event@),
    {
        let mut effects: Vec<Effect<T>> = Vec::new();
        assert(orders(effects@) =~= seq![]);
        if self.exit.is_some() {
            return effects;
        }
        let ghost input = event@;
        match event {
            Event::Press => {
                if !self.paused && !self.recording {
                    self.recording = true;
                    self.buffer.clear();
                    self.ring.drain_into(&mut self.buffer);
                    effects.push(Effect::SetTray(TrayEvent::Recording));
                    assert(self.buffer@ =~= old(self).ring@);
                }
            },
            Event::Release => {
                if !self.paused && self.recording {
                    self.recording = false;
                    let mut audio: Vec<T> = Vec::new();
                    audio.append(&mut self.buffer);
                    assert(audio@ =~= old(self).buffer@);
                    effects.push(Effect::Transcribe(audio));
                }
            },
            Event::Audio(chunk) => {
                self.take_audio(chunk);
            },
            Event::Queued => {
                effects.push(Effect::SetTray(TrayEvent::Processing));
            },
            Event::QueueFull => {
                effects.push(Effect::SetTray(TrayEvent::Idle));
            },
            Event::Done => {
                if !self.paused {
                    effects.push(Effect::SetTray(TrayEvent::Idle));
                }
            },
            Event::Control(cmd) => {
                return self.take_control(cmd);
            },
            Event::ControlClosed => {
                self.control_open = false;
            },
            Event::Checked { manual, result } => {
                return self.take_check(manual, result);
            },
            Event::Installed(result) => {
                match result {
                    Ok(_) => {
                        effects.push(Effect::ShowUpdate(None));
                        effects.push(
                            Effect::Notify {
                                summary: "Update installed".to_owned(),
                                body: "Lindiction is restarting into the new version.".to_owned(),
                            },
                        );
                        self.exit = Some(ExitAction::Restart);
                    },
                    Err(e) => {
                        effects.push(
                            Effect::Notify { summary: "Update failed".to_owned(), body: e },
                        );
                    },
                }
            },
            Event::UpdatesClosed => {},
            Event::HotkeyClosed | Event::AudioClosed | Event::QueueClosed | Event::DoneClosed
            | Event::Interrupt => {
                self.exit = Some(ExitAction::Quit);
            },
        }
        assert(orders(effects@) =~= old(self)@.next(input).1);
        assert(self@ =~= old(self)@.next(input).0);
        effects
    }
}

/// What is typed for a transcript: nothing where it is empty or cleaning leaves
/// only white space, else the cleaned transcript.
pub open spec fn typed(plan: postprocess::PostPlan, transcript: Seq<char>) -> Option<Seq<char>> {
    if transcript.len() == 0 || text::trimmed(postprocess::polished(plan, transcript)).len() == 0 {
        None
    } else {
        Some(postprocess::polished(plan, transcript))
    }
}

/// Turn a transcript into what is typed, if anything is.
pub fn prepare_text(post: &Postprocessor, transcript: &str) -> (r: Option<String>)
    ensures
        text::held(r) == typed(post@, transcript@),
{
    if transcript.is_empty() {
        return None;
    }
    let clean = post.apply(transcript);
    let kept = text::trim(clean.as_str());
    if kept.as_str().is_empty() {
        return None;
    }
    Some(clean)
}

// ---------------------------------------------------------------------------
// Laws
// ---------------------------------------------------------------------------

impl<T> State<T> {
    /// The state after a series of events.
    pub open spec fn run(self, inputs: Seq<Input<T>>) -> State<T>
        decreases inputs.len(),
    {
        if inputs.len() == 0 {
            self
        } else {
            self.run(inputs.drop_last()).next(inputs.last()).0
        }
    }
}

/// The samples of several chunks, one after the other.
pub open spec fn samples<T>(chunks: Seq<Seq<T>>) -> Seq<T>
    decreases chunks.len(),
{
    if chunks.len() == 0 {
        Seq::empty()
    } else {
        samples(chunks.drop_last()) + chunks.last()
    }
}

/// The events that deliver several chunks.
pub open spec fn deliveries<T>(chunks: Seq<Seq<T>>) -> Seq<Input<T>> {
    chunks.map_values(|c: Seq<T>| Input::Audio(c))
}

/// Whatever happens, the session stays well formed.
pub proof fn session_stays_well_formed<T>(s: State<T>, inputs: Seq<Input<T>>)
    requires
        s.wf(),
    ensures
        s.run(inputs).wf(),
    decreases inputs.len(),
{
    if inputs.len() > 0 {
        session_stays_well_formed(s, inputs.drop_last());
    }
}

/// While recording, the utterance grows by exactly what the microphone
/// delivers.
pub proof fn recording_keeps_every_sample<T>(s: State<T>, chunks: Seq<Seq<T>>)
    requires
        s.wf(),
        s.recording,
        s.exit is None,
    ensures
        s.run(deliveries(chunks)) == (State { buffer: s.buffer + samples(chunks), ..s }),
    decreases chunks.len(),
{
    if chunks.len() == 0 {
        assert(s.run(deliveries(chunks)) =~= s);
        assert(s.buffer + samples(chunks) =~= s.buffer);
    } else {
        recording_keeps_every_sample(s, chunks.drop_last());
        assert(deliveries(chunks).drop_last() =~= deliveries(chunks.drop_last()));
        assert(s.buffer + samples(chunks.drop_last()) + chunks.last() =~= s.buffer + samples(
            chunks,
        ));
    }
}

/// While not recording, exactly the newest audio is kept, as much as the ring
/// holds, however it was cut into chunks.
pub proof fn idle_keeps_newest_samples<T>(s: State<T>, chunks: Seq<Seq<T>>)
    requires
        s.wf(),
        !s.recording,
        s.exit is None,
    ensures
        s.run(deliveries(chunks)) == (State {
            ring: preroll::newest(s.ring + samples(chunks), s.ring_cap),
            ..s
        }),
    decreases chunks.len(),
{
    if chunks.len() == 0 {
        assert(s.run(deliveries(chunks)) =~= s);
        assert(s.ring + samples(chunks) =~= s.ring);
    } else {
        idle_keeps_newest_samples(s, chunks.drop_last());
        assert(deliveries(chunks).drop_last() =~= deliveries(chunks.drop_last()));
        preroll::push_in_pieces(s.ring, samples(chunks.drop_last()), chunks.last(), s.ring_cap);
    }
}

/// An utterance is the newest audio from before the press followed by every
/// sample that was delivered between press and release, in order.
pub proof fn utterance_is_what_was_said<T>(
    s: State<T>,
    before: Seq<Seq<T>>,
    during: Seq<Seq<T>>,
)
    requires
        s.wf(),
        !s.recording,
        !s.paused,
        s.exit is None,
    ensures
        s.run(deliveries(before)).next(Input::Press).0.run(deliveries(during)).next(
            Input::Release,
        ).1 == seq![
            Order::Transcribe(
                preroll::newest(s.ring + samples(before), s.ring_cap) + samples(during),
            ),
        ],
{
    idle_keeps_newest_samples(s, before);
    let held = s.run(deliveries(before)).next(Input::Press).0;
    recording_keeps_every_sample(held, during);
}

/// While the session is paused, presses and releases do nothing at all.
pub proof fn pause_mutes_the_hotkey<T>(s: State<T>)
    requires
        s.paused,
    ensures
        s.next(Input::Press) == (s, Seq::<Order<T>>::empty()),
        s.next(Input::Release) == (s, Seq::<Order<T>>::empty()),
{
    assert(seq![] =~= Seq::<Order<T>>::empty());
}

/// Pausing in the middle of an utterance discards it: whatever is delivered
/// before the session is resumed, the release after that transcribes nothing.
pub proof fn pause_discards_the_utterance<T>(s: State<T>, chunks: Seq<Seq<T>>)
    requires
        s.wf(),
        !s.paused,
        s.exit is None,
    ensures
        ({
            let resumed = s.next(Input::Control(ControlCmd::TogglePause)).0.run(
                deliveries(chunks),
            ).next(Input::Control(ControlCmd::TogglePause)).0;
            &&& !resumed.recording
            &&& !resumed.paused
            &&& resumed.buffer.len() == 0
            &&& resumed.next(Input::Release).1 == Seq::<Order<T>>::empty()
        }),
{
    let paused = s.next(Input::Control(ControlCmd::TogglePause)).0;
    idle_keeps_newest_samples(paused, chunks);
    assert(seq![] =~= Seq::<Order<T>>::empty());
}

/// Pausing and resuming an idle session leaves it as it was.
pub proof fn pause_and_resume<T>(s: State<T>)
    requires
        s.wf(),
        !s.paused,
        !s.recording,
        s.exit is None,
    ensures
        s.next(Input::Control(ControlCmd::TogglePause)).0.next(
            Input::Control(ControlCmd::TogglePause),
        ).0 == s,
{
    assert(s.buffer =~= Seq::<T>::empty());
}

/// A worker that finishes while the session is paused leaves the tray alone.
pub proof fn pause_keeps_its_icon<T>(s: State<T>)
    requires
        s.paused,
    ensures
        s.next(Input::Done) == (s, Seq::<Order<T>>::empty()),
{
    assert(seq![] =~= Seq::<Order<T>>::empty());
}

/// Audio is transcribed only on the release of a hotkey that was held, and
/// then it is the utterance.
pub proof fn only_a_release_transcribes<T>(s: State<T>, input: Input<T>, i: int)
    requires
        0 <= i < s.next(input).1.len(),
        s.next(input).1[i] is Transcribe,
    ensures
        input is Release,
        s.recording,
        !s.paused,
        s.next(input).1[i] == Order::Transcribe(s.buffer),
{
}

/// An install starts only on the user's click, and it is the install of the
/// release that was found last.
pub proof fn only_a_click_installs<T>(s: State<T>, input: Input<T>, i: int)
    requires
        0 <= i < s.next(input).1.len(),
        s.next(input).1[i] is Install,
    ensures
        input == Input::<T>::Control(ControlCmd::InstallUpdate),
        s.latest == Some(s.next(input).1[i]->Install_0),
{
}

/// The daemon restarts only where the user asked for it or an install
/// succeeded.
pub proof fn restart_has_a_reason<T>(s: State<T>, input: Input<T>)
    requires
        s.exit is None,
        s.next(input).0.exit == Some(ExitAction::Restart),
    ensures
        input == Input::<T>::Control(ControlCmd::Restart) || (input matches Input::Installed(r)
            && r is Ok),
{
}

/// Once the end is settled, nothing that happens changes it or asks for
/// anything.
pub proof fn the_end_is_final<T>(s: State<T>, inputs: Seq<Input<T>>, input: Input<T>)
    requires
        s.exit is Some,
    ensures
        s.run(inputs) == s,
        s.next(input) == (s, Seq::<Order<T>>::empty()),
    decreases inputs.len(),
{
    if inputs.len() > 0 {
        the_end_is_final(s, inputs.drop_last(), input);
    }
    assert(seq![] =~= Seq::<Order<T>>::empty());
}

/// An automatic update check that fails or finds nothing never disturbs the
/// user; a manual one always reports.
pub proof fn only_manual_checks_report<T>(
    s: State<T>,
    result: Result<Option<UpdateFacts>, Seq<char>>,
)
    requires
        s.exit is None,
        !(result matches Ok(Some(_))),
    ensures
        forall|i: int|
            0 <= i < s.next(Input::Checked(false, result)).1.len() ==> !(#[trigger] s.next(
                Input::Checked(false, result),
            ).1[i] is Notify),
        s.next(Input::Checked(true, result)).1.len() > 0,
        s.next(Input::Checked(true, result)).1.last() is Notify,
{
}

/// What the tray is told: that a recording runs, after a press that starts one;
/// that the worker is busy, once its queue took an utterance; that the session is
/// paused, when it becomes so; and that it is idle, when an utterance is finished or
/// dropped or the session is resumed.
pub proof fn the_tray_follows_the_session<T>(s: State<T>, input: Input<T>, event: TrayEvent)
    requires
        s.wf(),
        s.exit is None,
    ensures
        s.next(input).1.contains(Order::SetTray(event)) <==> match event {
            TrayEvent::Recording => input is Press && !s.recording && s.next(input).0.recording,
            TrayEvent::Processing => input is Queued,
            TrayEvent::Paused => !s.paused && s.next(input).0.paused,
            TrayEvent::Idle => input is QueueFull || input is Done && !s.paused || s.paused
                && !s.next(input).0.paused,
        },
        input is Press && !s.paused && !s.recording ==> s.next(input).1
            == seq![Order::<T>::SetTray(TrayEvent::Recording)],
        input is Queued ==> s.next(input).1 == seq![Order::<T>::SetTray(TrayEvent::Processing)],
        input is QueueFull ==> s.next(input).1 == seq![Order::<T>::SetTray(TrayEvent::Idle)],
        input is Done && !s.paused ==> s.next(input).1
            == seq![Order::<T>::SetTray(TrayEvent::Idle)],
{
    let told = s.next(input).1;
    if told.len() > 0 {
        assert(told.contains(told[0]));
    }
    if told.contains(Order::SetTray(event)) {
        let i = choose|i: int| 0 <= i < told.len() && told[i] == Order::<T>::SetTray(event);
        assert(told[i] == Order::<T>::SetTray(event));
    }
}

/// What changes what: a press starts a recording and a release ends it; only the
/// pause command pauses and resumes, and it ends a recording; only a finished check
/// changes the release at hand; only the tray's end closes the tray; audio changes
/// nothing but the audio that is kept; and how much is kept from before a press
/// never changes.
pub proof fn each_event_has_its_effect<T>(s: State<T>, input: Input<T>)
    requires
        s.wf(),
        s.exit is None,
    ensures
        ({
            let after = s.next(input).0;
            &&& after.paused != s.paused <==> input == Input::<T>::Control(ControlCmd::TogglePause)
            &&& after.recording && !s.recording <==> input is Press && !s.paused && !s.recording
            &&& !after.recording && s.recording <==> s.recording && (input is Release || input
                == Input::<T>::Control(ControlCmd::TogglePause))
            &&& after.control_open == (s.control_open && !(input is ControlClosed))
            &&& after.latest != s.latest ==> (input matches Input::Checked(_, r) && r
                == Ok::<Option<UpdateFacts>, Seq<char>>(after.latest))
            &&& input matches Input::Checked(_, Ok(found)) ==> after.latest == found
            &&& after.ring_cap == s.ring_cap
            &&& after.buffer.len() > s.buffer.len() ==> input is Audio || input is Press
            &&& after.ring != s.ring ==> input is Audio || input is Press
            &&& input matches Input::Audio(chunk) ==> (chunk.len() == 0 ==> after.buffer == s.buffer
                && after.ring == s.ring)
            &&& s.recording && !after.recording ==> after.buffer.len() == 0
            &&& input is Press && after.recording && !s.recording ==> after.buffer == s.ring
        }),
{
    match input {
        Input::Audio(chunk) => {
            if chunk.len() == 0 {
                assert(s.buffer + chunk =~= s.buffer);
                assert(s.ring + chunk =~= s.ring);
                assert(preroll::newest(s.ring, s.ring_cap) =~= s.ring);
            }
        },
        _ => {},
    }
}

/// Why a session ends: the user quits or interrupts it, or one of the parts it
/// cannot do without is gone, and it ends for good; the user restarts it, or an
/// update was installed, and it starts again.
pub proof fn the_end_has_a_reason<T>(s: State<T>, input: Input<T>)
    requires
        s.exit is None,
    ensures
        s.next(input).0.exit == match input {
            Input::HotkeyClosed
            | Input::AudioClosed
            | Input::QueueClosed
            | Input::DoneClosed
            | Input::Interrupt => Some(ExitAction::Quit),
            Input::Control(cmd) => if cmd == ControlCmd::Quit {
                Some(ExitAction::Quit)
            } else if cmd == ControlCmd::Restart {
                Some(ExitAction::Restart)
            } else {
                None
            },
            Input::Installed(r) => if r is Ok {
                Some(ExitAction::Restart)
            } else {
                None
            },
            _ => None,
        },
{
}

/// What the user is told of updates: the version that was found; that there is
/// none; what went wrong.
pub proof fn users_learn_of_updates<T>(
    s: State<T>,
    manual: bool,
    info: UpdateFacts,
    why: Seq<char>,
)
    requires
        s.exit is None,
    ensures
        s.next(Input::Checked(manual, Ok(Some(info)))).1 == seq![
            Order::<T>::ShowUpdate(Some(version::rendered(info.latest))),
            Order::<T>::Notify(
                "Lindiction v"@ + version::rendered(info.latest) + " available"@,
                "Click the tray icon to install."@,
            ),
        ],
        s.next(Input::Checked(manual, Ok(None))).1[0] == Order::<T>::ShowUpdate(None),
        s.next(Input::Checked(true, Ok(None))).1[1] == Order::<T>::Notify(
            "Lindiction is up to date"@,
            ""@,
        ),
        s.next(Input::Checked(true, Err(why))).1 == seq![
            Order::<T>::Notify("Update check failed"@, why),
        ],
        s.next(Input::Checked(false, Err(why))).1.len() == 0,
        s.next(Input::Installed(Err(why))).1 == seq![Order::<T>::Notify("Update failed"@, why)],
        s.next(Input::Installed(Ok(()))).1 == seq![
            Order::<T>::ShowUpdate(None),
            Order::<T>::Notify(
                "Update installed"@,
                "Lindiction is restarting into the new version."@,
            ),
        ],
        s.next(Input::Control(ControlCmd::CheckForUpdates)).1 == seq![Order::<T>::CheckUpdates],
        s.latest == Some(info) ==> s.next(Input::Control(ControlCmd::InstallUpdate)).1 == seq![
            Order::<T>::Notify(
                "Downloading lindiction v"@ + version::rendered(info.latest) + "…"@,
                "You'll be prompted to approve the install."@,
            ),
            Order::<T>::Install(info),
        ],
        s.latest is None ==> s.next(Input::Control(ControlCmd::InstallUpdate)).1.len() == 0,
{
}

/// Every event says what happened, and every effect asks for what it names.
pub proof fn events_say_what_happened<T>(
    chunk: Vec<T>,
    cmd: ControlCmd,
    info: UpdateInfo,
    why: String,
    summary: String,
    event: TrayEvent,
    manual: bool,
)
    ensures
        (Event::<T>::Press)@ == Input::<T>::Press,
        (Event::<T>::Release)@ == Input::<T>::Release,
        (Event::<T>::HotkeyClosed)@ == Input::<T>::HotkeyClosed,
        (Event::Audio(chunk))@ == Input::Audio(chunk@),
        (Event::<T>::AudioClosed)@ == Input::<T>::AudioClosed,
        (Event::<T>::Queued)@ == Input::<T>::Queued,
        (Event::<T>::QueueFull)@ == Input::<T>::QueueFull,
        (Event::<T>::QueueClosed)@ == Input::<T>::QueueClosed,
        (Event::<T>::Done)@ == Input::<T>::Done,
        (Event::<T>::DoneClosed)@ == Input::<T>::DoneClosed,
        (Event::<T>::Control(cmd))@ == Input::<T>::Control(cmd),
        (Event::<T>::ControlClosed)@ == Input::<T>::ControlClosed,
        (Event::<T>::Checked { manual, result: Ok(Some(info)) })@ == Input::<T>::Checked(
            manual,
            Ok(Some(info@)),
        ),
        (Event::<T>::Checked { manual, result: Ok(None) })@ == Input::<T>::Checked(
            manual,
            Ok(None),
        ),
        (Event::<T>::Checked { manual, result: Err(why) })@ == Input::<T>::Checked(
            manual,
            Err(why@),
        ),
        (Event::<T>::Installed(Ok(())))@ == Input::<T>::Installed(Ok(())),
        (Event::<T>::Installed(Err(why)))@ == Input::<T>::Installed(Err(why@)),
        (Event::<T>::UpdatesClosed)@ == Input::<T>::UpdatesClosed,
        (Event::<T>::Interrupt)@ == Input::<T>::Interrupt,
        (Effect::<T>::SetTray(event))@ == Order::<T>::SetTray(event),
        (Effect::Transcribe(chunk))@ == Order::Transcribe(chunk@),
        (Effect::<T>::CheckUpdates)@ == Order::<T>::CheckUpdates,
        (Effect::<T>::Install(info))@ == Order::<T>::Install(info@),
        (Effect::<T>::ShowUpdate(Some(why)))@ == Order::<T>::ShowUpdate(Some(why@)),
        (Effect::<T>::ShowUpdate(None))@ == Order::<T>::ShowUpdate(None),
        (Effect::<T>::Notify { summary, body: why })@ == Order::<T>::Notify(summary@, why@),
{
}

/// A press is accepted exactly where it starts a recording, and audio is wanted
/// exactly where some of it would be kept.
pub proof fn sessions_want_what_they_use<T: Copy>(
    app: App<T>,
    press: bool,
    audio: bool,
    chunk: Seq<T>,
)
    requires
        app@.wf(),
        app@.exit is None,
        chunk.len() > 0,
        call_ensures(App::<T>::accepts_press, (&app,), press),
        call_ensures(App::<T>::wants_audio, (&app,), audio),
    ensures
        press <==> !app@.recording && app@.next(Input::Press).0.recording,
        audio ==> {
            let after = app@.next(Input::Audio(chunk)).0;
            after.buffer.len() > 0 || after.ring.len() > 0
        },
        !audio ==> app@.next(Input::Audio(chunk)).0 == app@,
{
    if !audio {
        assert(preroll::newest(app@.ring + chunk, app@.ring_cap) =~= app@.ring);
        assert(app@.next(Input::Audio(chunk)).0 =~= app@);
    }
}

/// A transcript is typed as cleaning leaves it, and nothing is typed only where
/// there was no transcript or cleaning leaves nothing but white space.
pub proof fn nothing_said_is_lost(post: Postprocessor, transcript: &str, r: Option<String>)
    requires
        call_ensures(prepare_text, (&post, transcript), r),
    ensures
        transcript@.len() == 0 ==> r is None,
        r matches Some(out) ==> out@ == postprocess::polished(post@, transcript@),
        r is None && transcript@.len() > 0 ==> text::blank(
            postprocess::polished(post@, transcript@),
        ),
        r matches Some(out) ==> !text::blank(out@),
{
    let clean = postprocess::polished(post@, transcript@);
    let (a, b) = text::trimming_cuts_white_space_only(clean);
    if text::trimmed(clean).len() == 0 {
        assert forall|i: int| 0 <= i < clean.len() implies text::is_white(#[trigger] clean[i]) by {
            if i < a {
                assert(text::is_white(clean.take(a)[i]));
            } else {
                assert(text::is_white(clean.skip(b)[i - b]));
            }
        }
    } else {
        assert(text::trimmed(clean)[0] == clean[a]);
    }
}

/// What a session does with the hotkey and the microphone, from end to end: a press
/// of an idle session shows the recording; a release hands over what was recorded, all
/// of it; audio asks for nothing.
pub proof fn sessions_record_between_press_and_release<T: Copy>(
    app: &mut App<T>,
    event: Event<T>,
    r: Vec<Effect<T>>,
)
    requires
        old(app)@.wf(),
        old(app)@.exit is None,
        !old(app)@.paused,
        call_ensures(App::<T>::step, (app, event), r),
    ensures
        event is Press && !old(app)@.recording ==> final(app)@.recording && final(app)@.buffer
            == old(app)@.ring && r@.len() == 1 && r@[0] is SetTray && r@[0]->SetTray_0
            == TrayEvent::Recording,
        event is Release && old(app)@.recording ==> !final(app)@.recording && r@.len() == 1
            && r@[0] is Transcribe && r@[0]->Transcribe_0@ == old(app)@.buffer,
        event matches Event::Audio(chunk) ==> r@.len() == 0 && (old(app)@.recording
            ==> final(app)@.buffer == old(app)@.buffer + chunk@),
        event is Press && old(app)@.recording ==> r@.len() == 0 && final(app)@ == old(app)@,
        event is Release && !old(app)@.recording ==> r@.len() == 0 && final(app)@ == old(app)@,
{
    assert(orders(r@).len() == r@.len());
    if r@.len() > 0 {
        assert(orders(r@)[0] == r@[0]@);
    }
}

/// A fresh session is idle, listens to its tray, knows of no release and has not
/// ended.
pub proof fn sessions_start_idle<T: Copy>(
    ring_samples: usize,
    app: App<T>,
    exit: Option<ExitAction>,
    open: bool,
    press: bool,
    audio: bool,
)
    requires
        call_ensures(App::<T>::new, (ring_samples,), app),
        call_ensures(App::<T>::exit, (&app,), exit),
        call_ensures(App::<T>::control_open, (&app,), open),
        call_ensures(App::<T>::accepts_press, (&app,), press),
        call_ensures(App::<T>::wants_audio, (&app,), audio),
    ensures
        exit is None,
        open,
        press,
        audio <==> ring_samples > 0,
        app@.latest is None,
        app@.next(Input::Press).0.buffer.len() == 0,
{
}

} // verus!
