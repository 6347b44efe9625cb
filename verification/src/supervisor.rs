//! The supervisor state machine.
//!
//! One supervisor instance tracks the lifecycle of one worker process:
//! launch, the accumulation of the two handshake markers from its output
//! lines, the one-time transition to ready, and termination.  The
//! executable methods are specified against a ghost model (`StateView`,
//! `spec_step`), so every run of the supervisor is a run of that model.

use vstd::prelude::*;
use crate::parse::marker_value;
use crate::parse::extract_marker;
use crate::parse::split_lines;
use crate::parse::lines_of;
use crate::parse::texts_of;
use crate::laws::run_events;
use crate::laws::emitted;
use crate::laws::stdout_events;
use crate::laws::lemma_run_append;
use crate::laws::lemma_emitted_append;

verus! {

/// The configuration the worker announces: its port and its
/// authentication token, both kept as the trimmed text of the markers.
#[derive(Clone)]
pub struct SidecarConfig {
    pub port: String,
    pub token: String,
}

/// Ghost image of a configuration.
#[verifier::ext_equal]
pub ghost struct ConfigView {
    pub port: Seq<char>,
    pub token: Seq<char>,
}

impl View for SidecarConfig {
    type V = ConfigView;

    open spec fn view(&self) -> ConfigView {
        ConfigView { port: self.port@, token: self.token@ }
    }
}

impl SidecarConfig {
    /// A copy of the configuration with the same contents.
    pub fn duplicate(&self) -> (r: SidecarConfig)
        ensures
            r@ == self@,
    {
        SidecarConfig { port: self.port.clone(), token: self.token.clone() }
    }
}

/// How the worker process ended: with an exit code, or in a way the
/// platform did not report.
#[derive(Clone, Copy, PartialEq, Eq, Structural, Debug)]
pub enum ExitInfo {
    Code(i32),
    Unknown,
}

/// The marker values seen so far while the worker is running.
pub struct PendingFields {
    pub port: Option<String>,
    pub token: Option<String>,
}

/// Ghost image of the pending marker values.
#[verifier::ext_equal]
pub ghost struct PendingView {
    pub port: Option<Seq<char>>,
    pub token: Option<Seq<char>>,
}

pub open spec fn text_of(o: Option<String>) -> Option<Seq<char>> {
    match o {
        Some(s) => Some(s@),
        None => None,
    }
}

impl View for PendingFields {
    type V = PendingView;

    open spec fn view(&self) -> PendingView {
        PendingView { port: text_of(self.port), token: text_of(self.token) }
    }
}

/// The supervisor's state: the lifecycle of one worker instance.
pub enum SupervisorState {
    NotStarted,
    Launching,
    Running { pending: PendingFields },
    Ready { config: SidecarConfig },
    Terminated { exit: ExitInfo, config: Option<SidecarConfig> },
    LaunchFailed { cause: String },
}

/// Ghost image of the supervisor state.
#[verifier::ext_equal]
pub ghost enum StateView {
    NotStarted,
    Launching,
    Running { pending: PendingView },
    Ready { config: ConfigView },
    Terminated { exit: ExitInfo, config: Option<ConfigView> },
    LaunchFailed { cause: Seq<char> },
}

pub open spec fn config_view_of(o: Option<SidecarConfig>) -> Option<ConfigView> {
    match o {
        Some(c) => Some(c@),
        None => None,
    }
}

impl View for SupervisorState {
    type V = StateView;

    open spec fn view(&self) -> StateView {
        match self {
            SupervisorState::NotStarted => StateView::NotStarted,
            SupervisorState::Launching => StateView::Launching,
            SupervisorState::Running { pending } => StateView::Running { pending: pending@ },
            SupervisorState::Ready { config } => StateView::Ready { config: config@ },
            SupervisorState::Terminated { exit, config } => StateView::Terminated {
                exit: *exit,
                config: config_view_of(*config),
            },
            SupervisorState::LaunchFailed { cause } => StateView::LaunchFailed { cause: cause@ },
        }
    }
}

/// One event observed on the worker: a decoded line of its standard
/// output, a decoded line of its standard error, or its termination.
pub enum WorkerEvent {
    StdoutLine(String),
    StderrLine(String),
    Terminated(ExitInfo),
}

/// Ghost image of a worker event.
#[verifier::ext_equal]
pub ghost enum EventView {
    StdoutLine(Seq<char>),
    StderrLine(Seq<char>),
    Terminated(ExitInfo),
}

impl View for WorkerEvent {
    type V = EventView;

    open spec fn view(&self) -> EventView {
        match self {
            WorkerEvent::StdoutLine(s) => EventView::StdoutLine(s@),
            WorkerEvent::StderrLine(s) => EventView::StderrLine(s@),
            WorkerEvent::Terminated(e) => EventView::Terminated(*e),
        }
    }
}

/// What the caller must deliver to subscribers after an event: the
/// one-time ready notification, the termination notification, or a
/// diagnostic line forwarded verbatim.
pub enum Notification {
    Ready(SidecarConfig),
    ProcessTerminated(ExitInfo),
    Diagnostic(String),
}

/// Ghost image of a notification.
#[verifier::ext_equal]
pub ghost enum NoteView {
    Ready(ConfigView),
    ProcessTerminated(ExitInfo),
    Diagnostic(Seq<char>),
}

impl View for Notification {
    type V = NoteView;

    open spec fn view(&self) -> NoteView {
        match self {
            Notification::Ready(c) => NoteView::Ready(c@),
            Notification::ProcessTerminated(e) => NoteView::ProcessTerminated(*e),
            Notification::Diagnostic(s) => NoteView::Diagnostic(s@),
        }
    }
}

pub open spec fn note_of(o: Option<Notification>) -> Option<NoteView> {
    match o {
        Some(n) => Some(n@),
        None => None,
    }
}

/// The views of a collected sequence of notifications.
pub open spec fn note_views(v: Seq<Notification>) -> Seq<NoteView> {
    v.map_values(|n: Notification| n@)
}

/// The label announcing the port.
pub open spec fn port_label() -> Seq<char> {
    "PORT:"@
}

/// The label announcing the token.
pub open spec fn token_label() -> Seq<char> {
    "TOKEN:"@
}

/// Both pending fields updated by one line, last writer wins per field.
pub open spec fn apply_markers(p: PendingView, line: Seq<char>) -> PendingView {
    PendingView {
        port: match marker_value(line, port_label()) {
            Some(v) => Some(v),
            None => p.port,
        },
        token: match marker_value(line, token_label()) {
            Some(v) => Some(v),
            None => p.token,
        },
    }
}

/// Both marker values have been seen.
pub open spec fn pending_complete(p: PendingView) -> bool {
    p.port is Some && p.token is Some
}

/// The configuration formed from a complete pair of pending fields.
pub open spec fn config_of_pending(p: PendingView) -> ConfigView {
    ConfigView { port: p.port->0, token: p.token->0 }
}

/// The fresh pending fields of a worker that has just started running.
pub open spec fn empty_pending() -> PendingView {
    PendingView { port: None, token: None }
}

/// The state machine: the state after one event, and the notification
/// the event gives rise to.  An output line is parsed only while the
/// worker is running and unconfigured; once ready, further lines are
/// no-ops.  Termination from a running or ready worker is notified and
/// keeps a published configuration; terminal states absorb every event.
pub open spec fn spec_step(s: StateView, e: EventView) -> (StateView, Option<NoteView>) {
    match e {
        EventView::StdoutLine(line) => match s {
            StateView::Running { pending } => {
                let p2 = apply_markers(pending, line);
                if pending_complete(p2) {
                    let c = config_of_pending(p2);
                    (StateView::Ready { config: c }, Some(NoteView::Ready(c)))
                } else {
                    (StateView::Running { pending: p2 }, None)
                }
            },
            _ => (s, None),
        },
        EventView::StderrLine(line) => (s, Some(NoteView::Diagnostic(line))),
        EventView::Terminated(exit) => match s {
            StateView::Ready { config } => (
                StateView::Terminated { exit, config: Some(config) },
                Some(NoteView::ProcessTerminated(exit)),
            ),
            StateView::Terminated { .. } => (s, None),
            StateView::LaunchFailed { .. } => (s, None),
            _ => (
                StateView::Terminated { exit, config: None },
                Some(NoteView::ProcessTerminated(exit)),
            ),
        },
    }
}

/// The configuration observable by consumers: present exactly in the
/// ready state and after a termination that followed it.
pub open spec fn published_config(s: StateView) -> Option<ConfigView> {
    match s {
        StateView::Ready { config } => Some(config),
        StateView::Terminated { config, .. } => config,
        _ => None,
    }
}

/// Launch begun: only a supervisor that has not started moves.
pub open spec fn spec_begin_launch(s: StateView) -> StateView {
    if s is NotStarted {
        StateView::Launching
    } else {
        s
    }
}

/// Launch succeeded: a launching supervisor starts running with no
/// marker seen yet.
pub open spec fn spec_launch_succeeded(s: StateView) -> StateView {
    if s is Launching {
        StateView::Running { pending: empty_pending() }
    } else {
        s
    }
}

/// Launch failed: fatal, a launching supervisor never reaches running.
pub open spec fn spec_launch_failed(s: StateView, cause: Seq<char>) -> StateView {
    if s is Launching {
        StateView::LaunchFailed { cause }
    } else {
        s
    }
}

fn apply_line(pending: &mut PendingFields, line: &str)
    ensures
        final(pending)@ == apply_markers(old(pending)@, line@),
{
    proof {
        reveal_strlit("PORT:");
        reveal_strlit("TOKEN:");
    }
    if let Some(v) = extract_marker(line, "PORT:") {
        pending.port = Some(v);
    }
    if let Some(v) = extract_marker(line, "TOKEN:") {
        pending.token = Some(v);
    }
    assert(final(pending)@ =~= apply_markers(old(pending)@, line@));
}

/// The supervisor of one worker instance.
pub struct Supervisor {
    state: SupervisorState,
}

impl View for Supervisor {
    type V = StateView;

    closed spec fn view(&self) -> StateView {
        self.state@
    }
}

impl Supervisor {
    /// A supervisor whose worker has not been started.
    pub fn new() -> (s: Supervisor)
        ensures
            s@ == StateView::NotStarted,
    {
        Supervisor { state: SupervisorState::NotStarted }
    }

    /// Records that the launch of the worker has begun.
    pub fn begin_launch(&mut self)
        ensures
            final(self)@ == spec_begin_launch(old(self)@),
    {
        if let SupervisorState::NotStarted = &self.state {
            self.state = SupervisorState::Launching;
        }
    }

    /// Records that the worker process was spawned.
    pub fn launch_succeeded(&mut self)
        ensures
            final(self)@ == spec_launch_succeeded(old(self)@),
    {
        if let SupervisorState::Launching = &self.state {
            self.state = SupervisorState::Running {
                pending: PendingFields { port: None, token: None },
            };
        }
    }

    /// Records that the worker process could not be spawned.
    pub fn launch_failed(&mut self, cause: String)
        ensures
            final(self)@ == spec_launch_failed(old(self)@, cause@),
    {
        if let SupervisorState::Launching = &self.state {
            self.state = SupervisorState::LaunchFailed { cause };
        }
    }

    /// Feeds one worker event through the state machine and returns the
    /// notification to deliver, if any.  The new state and the
    /// notification are exactly those of `spec_step`.
    pub fn handle_event(&mut self, event: WorkerEvent) -> (note: Option<Notification>)
        ensures
            final(self)@ == spec_step(old(self)@, event@).0,
            note_of(note) == spec_step(old(self)@, event@).1,
    {
        match event {
            WorkerEvent::StdoutLine(line) => {
                let mut found: Option<SidecarConfig> = None;
                if let SupervisorState::Running { pending } = &mut self.state {
                    apply_line(pending, line.as_str());
                    if pending.port.is_some() && pending.token.is_some() {
                        found = Some(
                            SidecarConfig {
                                port: pending.port.as_ref().unwrap().clone(),
                                token: pending.token.as_ref().unwrap().clone(),
                            },
                        );
                    }
                }
                match found {
                    Some(config) => {
                        let copy = config.duplicate();
                        self.state = SupervisorState::Ready { config };
                        Some(Notification::Ready(copy))
                    },
                    None => None,
                }
            },
            WorkerEvent::StderrLine(line) => Some(Notification::Diagnostic(line)),
            WorkerEvent::Terminated(exit) => {
                let absorbed = match &self.state {
                    SupervisorState::Terminated { .. } => true,
                    SupervisorState::LaunchFailed { .. } => true,
                    _ => false,
                };
                if absorbed {
                    None
                } else {
                    let kept: Option<SidecarConfig> = match &self.state {
                        SupervisorState::Ready { config } => Some(config.duplicate()),
                        _ => None,
                    };
                    self.state = SupervisorState::Terminated { exit, config: kept };
                    Some(Notification::ProcessTerminated(exit))
                }
            },
        }
    }

    /// Feeds one decoded chunk of standard output through the state
    /// machine, one line at a time, and returns the notifications to
    /// deliver, in order: the run of the model over the chunk's lines.
    pub fn handle_stdout_chunk(&mut self, chunk: &str) -> (notes: Vec<Notification>)
        ensures
            final(self)@ == run_events(old(self)@, stdout_events(lines_of(chunk@))),
            note_views(notes@) == emitted(old(self)@, stdout_events(lines_of(chunk@))),
    {
        let ghost s0 = self@;
        let ghost all = stdout_events(lines_of(chunk@));
        let lines = split_lines(chunk);
        let mut notes: Vec<Notification> = Vec::new();
        let mut k: usize = 0;
        proof {
            assert(all.take(0) =~= Seq::<EventView>::empty());
            assert(note_views(notes@) =~= Seq::<NoteView>::empty());
        }
        while k < lines.len()
            invariant
                texts_of(lines@) == lines_of(chunk@),
                all == stdout_events(lines_of(chunk@)),
                all.len() == lines@.len(),
                k <= lines.len(),
                self@ == run_events(s0, all.take(k as int)),
                note_views(notes@) == emitted(s0, all.take(k as int)),
            decreases lines.len() - k,
        {
            let ghost pre = self@;
            let ghost notes_pre = notes@;
            let ghost evt = all[k as int];
            let line = lines[k].clone();
            proof {
                assert(texts_of(lines@)[k as int] == lines@[k as int]@);
                assert(evt == EventView::StdoutLine(line@));
            }
            let note = self.handle_event(WorkerEvent::StdoutLine(line));
            proof {
                assert(all.take(k + 1) =~= all.take(k as int) + seq![evt]);
                lemma_run_append(s0, all.take(k as int), seq![evt]);
                lemma_emitted_append(s0, all.take(k as int), seq![evt]);
                assert(seq![evt][0] == evt);
                assert(seq![evt].drop_first() =~= Seq::<EventView>::empty());
                assert(run_events(spec_step(pre, evt).0, Seq::<EventView>::empty()) == spec_step(
                    pre,
                    evt,
                ).0);
                assert(run_events(pre, seq![evt]) == spec_step(pre, evt).0);
                assert(emitted(spec_step(pre, evt).0, Seq::<EventView>::empty())
                    =~= Seq::<NoteView>::empty());
            }
            match note {
                Some(n) => {
                    proof {
                        assert(seq![n@] + Seq::<NoteView>::empty() =~= seq![n@]);
                        assert(emitted(pre, seq![evt]) =~= seq![n@]);
                        assert(note_views(notes_pre) + seq![n@] =~= note_views(notes_pre).push(
                            n@,
                        ));
                    }
                    notes.push(n);
                    proof {
                        assert(note_views(notes@) =~= note_views(notes_pre).push(notes@.last()@));
                    }
                },
                None => {
                    proof {
                        assert(Seq::<NoteView>::empty() + Seq::<NoteView>::empty()
                            =~= Seq::<NoteView>::empty());
                        assert(emitted(pre, seq![evt]) =~= Seq::<NoteView>::empty());
                        assert(note_views(notes_pre) + Seq::<NoteView>::empty() =~= note_views(
                            notes_pre,
                        ));
                    }
                },
            }
            k += 1;
        }
        proof {
            assert(all.take(lines@.len() as int) =~= all);
        }
        notes
    }

    /// The non-blocking query: the published configuration, or nothing
    /// while the ready transition has not happened.
    pub fn get_sidecar_config(&self) -> (r: Option<SidecarConfig>)
        ensures
            config_view_of(r) == published_config(self@),
    {
        match &self.state {
            SupervisorState::Ready { config } => Some(config.duplicate()),
            SupervisorState::Terminated { config: Some(config), .. } => Some(config.duplicate()),
            _ => None,
        }
    }

    /// The port of the published configuration, or nothing while the
    /// ready transition has not happened.
    pub fn get_sidecar_port(&self) -> (r: Option<String>)
        ensures
            text_of(r) == match published_config(self@) {
                Some(c) => Some(c.port),
                None => None,
            },
    {
        match self.get_sidecar_config() {
            Some(config) => Some(config.port),
            None => None,
        }
    }
}

/// The greeting returned to the user interface.
pub fn greet(name: &str) -> (r: String)
    ensures
        r@ == "Hello, "@ + name@ + "! You've been greeted from Rust!"@,
{
    let mut r = String::new();
    r.append("Hello, ");
    r.append(name);
    r.append("! You've been greeted from Rust!");
    r
}

} // verus!
