//! The worker that owns the session to the presence broker, as a state
//! machine: every outside step of the worker is one [`Action`], and what came
//! of it returns as one [`Event`].

use vstd::prelude::*;
use vstd::string::*;
use crate::clock::now_secs;
use crate::activity::{build_activity, payload_of, ActivityOptions, ActivityPayload, Framing, PayloadView};
use crate::track::{text_of, TrackInfo, TrackView};

verus! {

/// What the worker can be asked to do. Commands are handled in the order in
/// which they were sent.
#[derive(Debug, Clone, PartialEq, Eq)]
pub enum DiscordCommand {
    UpdateTrack(TrackInfo, Option<String>, ActivityOptions),
    SetPaused(TrackInfo, Option<String>, ActivityOptions),
    ClearPresence,
    Shutdown,
}

/// The mathematical value of a [`DiscordCommand`].
pub enum CommandView {
    UpdateTrack(TrackView, Option<Seq<char>>, ActivityOptions),
    SetPaused(TrackView, Option<Seq<char>>, ActivityOptions),
    ClearPresence,
    Shutdown,
}

impl View for DiscordCommand {
    type V = CommandView;

    open spec fn view(&self) -> CommandView {
        match *self {
            DiscordCommand::UpdateTrack(track, artwork, opts) => CommandView::UpdateTrack(
                track@,
                text_of(artwork),
                opts,
            ),
            DiscordCommand::SetPaused(track, artwork, opts) => CommandView::SetPaused(
                track@,
                text_of(artwork),
                opts,
            ),
            DiscordCommand::ClearPresence => CommandView::ClearPresence,
            DiscordCommand::Shutdown => CommandView::Shutdown,
        }
    }
}

/// The state of the session, as published for readers outside the worker.
#[derive(Debug, Clone, PartialEq, Eq)]
pub enum DiscordStatus {
    Disconnected,
    Connecting,
    Connected,
    Error(String),
}

/// The mathematical value of a [`DiscordStatus`].
pub enum StatusView {
    Disconnected,
    Connecting,
    Connected,
    Error(Seq<char>),
}

impl View for DiscordStatus {
    type V = StatusView;

    open spec fn view(&self) -> StatusView {
        match *self {
            DiscordStatus::Disconnected => StatusView::Disconnected,
            DiscordStatus::Connecting => StatusView::Connecting,
            DiscordStatus::Connected => StatusView::Connected,
            DiscordStatus::Error(message) => StatusView::Error(message@),
        }
    }
}

/// Publishes a new status in place of the old one.
pub fn set_status(status: &mut DiscordStatus, new_status: DiscordStatus)
    ensures
        *final(status) == new_status,
{
    *status = new_status;
}

/// What the display should show: the last track the worker was asked to
/// show, kept for the next connection.
#[derive(Debug, PartialEq, Eq)]
pub struct DesiredState {
    pub track: TrackInfo,
    pub artwork_url: Option<String>,
    pub options: ActivityOptions,
    pub framing: Framing,
}

/// The mathematical value of a [`DesiredState`].
pub struct DesiredView {
    pub track: TrackView,
    pub artwork_url: Option<Seq<char>>,
    pub options: ActivityOptions,
    pub framing: Framing,
}

impl View for DesiredState {
    type V = DesiredView;

    open spec fn view(&self) -> DesiredView {
        DesiredView {
            track: self.track@,
            artwork_url: text_of(self.artwork_url),
            options: self.options,
            framing: self.framing,
        }
    }
}

/// The value of an optional desired state.
pub open spec fn desired_of(d: Option<DesiredState>) -> Option<DesiredView> {
    match d {
        Some(state) => Some(state@),
        None => None,
    }
}

/// What came of the worker's last action.
#[derive(Debug, PartialEq, Eq)]
pub enum Event {
    /// A command arrived during the wait.
    Command(DiscordCommand),
    /// The wait ended with no command.
    WaitTimedOut,
    /// The wait ended because no sender is left.
    QueueClosed,
    ConnectSucceeded,
    ConnectFailed,
    PushSucceeded,
    /// The broker refused the payload; the text describes the fault.
    PushFailed(String),
    /// A clear or a close was attempted, whatever came of it.
    Finished,
}

/// The mathematical value of an [`Event`].
pub enum EventView {
    Command(CommandView),
    WaitTimedOut,
    QueueClosed,
    ConnectSucceeded,
    ConnectFailed,
    PushSucceeded,
    PushFailed(Seq<char>),
    Finished,
}

impl View for Event {
    type V = EventView;

    open spec fn view(&self) -> EventView {
        match *self {
            Event::Command(command) => EventView::Command(command@),
            Event::WaitTimedOut => EventView::WaitTimedOut,
            Event::QueueClosed => EventView::QueueClosed,
            Event::ConnectSucceeded => EventView::ConnectSucceeded,
            Event::ConnectFailed => EventView::ConnectFailed,
            Event::PushSucceeded => EventView::PushSucceeded,
            Event::PushFailed(message) => EventView::PushFailed(message@),
            Event::Finished => EventView::Finished,
        }
    }
}

/// The one outside step that the worker takes next.
#[derive(Debug, PartialEq, Eq)]
pub enum Action {
    /// Try to open the session; answer with `ConnectSucceeded` or
    /// `ConnectFailed`.
    Connect,
    /// Wait for the next command, at most this many seconds; answer with
    /// `Command`, `WaitTimedOut` or `QueueClosed`.
    Wait(u64),
    /// Send the payload; answer with `PushSucceeded` or `PushFailed`.
    Push(ActivityPayload),
    /// Clear the remote status; answer with `Finished`.
    Clear,
    /// Close the session; answer with `Finished`.
    Close,
    /// Leave the loop.
    Exit,
}

/// The mathematical value of an [`Action`].
pub enum ActionView {
    Connect,
    Wait(u64),
    Push(PayloadView),
    Clear,
    Close,
    Exit,
}

impl View for Action {
    type V = ActionView;

    open spec fn view(&self) -> ActionView {
        match *self {
            Action::Connect => ActionView::Connect,
            Action::Wait(secs) => ActionView::Wait(secs),
            Action::Push(payload) => ActionView::Push(payload@),
            Action::Clear => ActionView::Clear,
            Action::Close => ActionView::Close,
            Action::Exit => ActionView::Exit,
        }
    }
}

/// Which answer the worker is waiting for.
#[derive(Debug, Clone, Copy, PartialEq, Eq, Structural)]
pub enum Phase {
    /// A connection attempt is under way.
    Connecting,
    /// The worker waits for a command.
    Waiting,
    /// The desired state is being sent.
    Pushing,
    /// The remote status is being cleared at a command's request.
    Clearing,
    /// The remote status is being cleared before the session closes.
    ClosingClear,
    /// The session is being closed.
    ClosingSession,
    /// The worker has ended.
    Stopped,
}

/// How many times the worker tries to connect when it starts.
pub const STARTUP_ATTEMPTS: usize = 4;

/// The shortest wait between two attempts to reconnect, in seconds.
pub const BACKOFF_FLOOR_SECS: u64 = 1;

/// The longest wait between two attempts to reconnect, in seconds.
pub const BACKOFF_CAP_SECS: u64 = 30;

/// How long a connected worker waits for a command, in seconds.
pub const IDLE_WAIT_SECS: u64 = 1;

/// The wait after the failed start-up attempt with this index, in seconds.
pub open spec fn startup_delay(attempt: int) -> u64 {
    if attempt <= 0 {
        5
    } else if attempt == 1 {
        10
    } else if attempt == 2 {
        15
    } else {
        30
    }
}

/// The reconnect wait that follows `secs` after one more failure: twice as
/// long, but never beyond the cap.
pub open spec fn next_backoff(secs: u64) -> u64 {
    if 2 * secs >= BACKOFF_CAP_SECS {
        BACKOFF_CAP_SECS
    } else {
        (2 * secs) as u64
    }
}

/// The reconnect wait after this many failures in a row.
pub open spec fn backoff_after(failures: nat) -> u64
    decreases failures,
{
    if failures == 0 {
        BACKOFF_FLOOR_SECS
    } else {
        next_backoff(backoff_after((failures - 1) as nat))
    }
}

/// The mathematical value of a [`Connection`].
pub struct ConnectionView {
    pub phase: Phase,
    /// The number of start-up attempts that failed; [`STARTUP_ATTEMPTS`] once
    /// the start-up is over.
    pub startup_attempt: usize,
    pub connected: bool,
    pub status: StatusView,
    pub pending: Option<DesiredView>,
    pub backoff_secs: u64,
}

/// The desired state after a command: an update or a pause replaces it, a
/// clear removes it, a shutdown leaves it.
pub open spec fn pending_after(pending: Option<DesiredView>, command: CommandView) -> Option<
    DesiredView,
> {
    match command {
        CommandView::UpdateTrack(track, artwork_url, options) => Some(
            DesiredView { track, artwork_url, options, framing: Framing::Playing },
        ),
        CommandView::SetPaused(track, artwork_url, options) => Some(
            DesiredView { track, artwork_url, options, framing: Framing::Paused },
        ),
        CommandView::ClearPresence => None,
        CommandView::Shutdown => pending,
    }
}

/// The state after a start-up wait: the next attempt, or, after the last
/// one, the steady state without a session.
pub open spec fn after_startup_wait(s: ConnectionView) -> ConnectionView {
    if s.startup_attempt + 1 < STARTUP_ATTEMPTS {
        ConnectionView {
            phase: Phase::Connecting,
            startup_attempt: (s.startup_attempt + 1) as usize,
            ..s
        }
    } else {
        ConnectionView {
            phase: Phase::Waiting,
            startup_attempt: STARTUP_ATTEMPTS,
            status: StatusView::Disconnected,
            ..s
        }
    }
}

/// The state in which the worker ends: at once where no session is open,
/// else after a clear and a close.
pub open spec fn after_shutdown(s: ConnectionView) -> ConnectionView {
    if s.connected {
        ConnectionView { phase: Phase::ClosingClear, ..s }
    } else {
        ConnectionView { phase: Phase::Stopped, status: StatusView::Disconnected, ..s }
    }
}

/// The state after a command arrived during a wait.
pub open spec fn after_command(s: ConnectionView, command: CommandView) -> ConnectionView {
    if command is Shutdown {
        after_shutdown(s)
    } else {
        let pending = pending_after(s.pending, command);
        if s.startup_attempt < STARTUP_ATTEMPTS {
            after_startup_wait(ConnectionView { pending, ..s })
        } else if !s.connected {
            ConnectionView { pending, ..s }
        } else if command is ClearPresence {
            ConnectionView { phase: Phase::Clearing, pending, ..s }
        } else {
            ConnectionView { phase: Phase::Pushing, pending, ..s }
        }
    }
}

/// The text of the status after a payload was refused.
pub open spec fn push_failure_text(message: Seq<char>) -> Seq<char> {
    "Activity update failed: "@ + message
}

/// The worker's transition function: the state after `e` arrived in state
/// `s`. An event that the phase does not wait for changes nothing.
pub open spec fn handled(s: ConnectionView, e: EventView) -> ConnectionView {
    match s.phase {
        Phase::Connecting => match e {
            EventView::ConnectSucceeded => ConnectionView {
                phase: if s.pending is Some {
                    Phase::Pushing
                } else {
                    Phase::Waiting
                },
                startup_attempt: STARTUP_ATTEMPTS,
                connected: true,
                status: StatusView::Connected,
                backoff_secs: BACKOFF_FLOOR_SECS,
                ..s
            },
            EventView::ConnectFailed => if s.startup_attempt < STARTUP_ATTEMPTS {
                ConnectionView { phase: Phase::Waiting, ..s }
            } else {
                ConnectionView {
                    phase: Phase::Waiting,
                    status: StatusView::Disconnected,
                    backoff_secs: next_backoff(s.backoff_secs),
                    ..s
                }
            },
            _ => s,
        },
        Phase::Waiting => match e {
            EventView::Command(command) => after_command(s, command),
            EventView::QueueClosed => after_shutdown(s),
            EventView::WaitTimedOut => if s.startup_attempt < STARTUP_ATTEMPTS {
                after_startup_wait(s)
            } else if !s.connected {
                ConnectionView { phase: Phase::Connecting, status: StatusView::Connecting, ..s }
            } else {
                s
            },
            _ => s,
        },
        Phase::Pushing => match e {
            EventView::PushSucceeded => ConnectionView { phase: Phase::Waiting, ..s },
            EventView::PushFailed(message) => ConnectionView {
                phase: Phase::Waiting,
                connected: false,
                status: StatusView::Error(push_failure_text(message)),
                ..s
            },
            _ => s,
        },
        Phase::Clearing => match e {
            EventView::Finished => ConnectionView { phase: Phase::Waiting, ..s },
            _ => s,
        },
        Phase::ClosingClear => match e {
            EventView::Finished => ConnectionView { phase: Phase::ClosingSession, ..s },
            _ => s,
        },
        Phase::ClosingSession => match e {
            EventView::Finished => ConnectionView {
                phase: Phase::Stopped,
                connected: false,
                status: StatusView::Disconnected,
                ..s
            },
            _ => s,
        },
        Phase::Stopped => s,
    }
}

/// How long the worker waits for a command in state `s`: the start-up
/// schedule while starting, a short wait while connected, else the
/// reconnect backoff.
pub open spec fn wait_secs_of(s: ConnectionView) -> u64 {
    if s.startup_attempt < STARTUP_ATTEMPTS {
        startup_delay(s.startup_attempt as int)
    } else if s.connected {
        IDLE_WAIT_SECS
    } else {
        s.backoff_secs
    }
}

/// The action that state `s` asks for at the moment `now`.
pub open spec fn action_of(s: ConnectionView, now: i64) -> ActionView {
    match s.phase {
        Phase::Connecting => ActionView::Connect,
        Phase::Waiting => ActionView::Wait(wait_secs_of(s)),
        Phase::Pushing => match s.pending {
            Some(d) => ActionView::Push(
                payload_of(d.track, d.artwork_url, d.options, d.framing, now),
            ),
            None => ActionView::Wait(wait_secs_of(s)),
        },
        Phase::Clearing => ActionView::Clear,
        Phase::ClosingClear => ActionView::Clear,
        Phase::ClosingSession => ActionView::Close,
        Phase::Stopped => ActionView::Exit,
    }
}

/// What holds of every state that the worker reaches.
pub open spec fn well_formed(s: ConnectionView) -> bool {
    &&& s.startup_attempt <= STARTUP_ATTEMPTS
    &&& BACKOFF_FLOOR_SECS <= s.backoff_secs <= BACKOFF_CAP_SECS
    &&& s.startup_attempt < STARTUP_ATTEMPTS ==> !s.connected
    &&& s.phase == Phase::Connecting ==> !s.connected
    &&& s.phase == Phase::Pushing ==> s.connected && s.pending is Some
    &&& s.phase == Phase::Clearing || s.phase == Phase::ClosingClear || s.phase
        == Phase::ClosingSession ==> s.connected
    &&& s.phase == Phase::Stopped ==> !s.connected && s.status == StatusView::Disconnected
    &&& s.connected ==> s.status == StatusView::Connected
}

/// The state in which a worker starts: about to make its first attempt.
pub open spec fn initial_state() -> ConnectionView {
    ConnectionView {
        phase: Phase::Connecting,
        startup_attempt: 0,
        connected: false,
        status: StatusView::Connecting,
        pending: None,
        backoff_secs: BACKOFF_FLOOR_SECS,
    }
}

/// The worker's state: the session's condition, the published status, the
/// desired state kept for replay, and the reconnect backoff.
#[derive(Debug)]
pub struct Connection {
    phase: Phase,
    startup_attempt: usize,
    connected: bool,
    status: DiscordStatus,
    pending: Option<DesiredState>,
    backoff_secs: u64,
}

impl View for Connection {
    type V = ConnectionView;

    closed spec fn view(&self) -> ConnectionView {
        ConnectionView {
            phase: self.phase,
            startup_attempt: self.startup_attempt,
            connected: self.connected,
            status: self.status@,
            pending: desired_of(self.pending),
            backoff_secs: self.backoff_secs,
        }
    }
}

fn startup_delay_secs(attempt: usize) -> (r: u64)
    ensures
        r == startup_delay(attempt as int),
{
    if attempt == 0 {
        5
    } else if attempt == 1 {
        10
    } else if attempt == 2 {
        15
    } else {
        30
    }
}

impl Connection {
    /// A worker that has not yet tried to connect.
    pub fn new() -> (r: Self)
        ensures
            r@ == initial_state(),
    {
        Connection {
            phase: Phase::Connecting,
            startup_attempt: 0,
            connected: false,
            status: DiscordStatus::Connecting,
            pending: None,
            backoff_secs: BACKOFF_FLOOR_SECS,
        }
    }

    /// The published status.
    pub fn get_status(&self) -> (r: DiscordStatus)
        ensures
            r@ == self@.status,
    {
        match &self.status {
            DiscordStatus::Disconnected => DiscordStatus::Disconnected,
            DiscordStatus::Connecting => DiscordStatus::Connecting,
            DiscordStatus::Connected => DiscordStatus::Connected,
            DiscordStatus::Error(message) => DiscordStatus::Error(message.clone()),
        }
    }

    /// Whether a session is open.
    pub fn is_connected(&self) -> (r: bool)
        ensures
            r == self@.connected,
    {
        self.connected
    }

    /// Which answer the worker is waiting for.
    pub fn phase(&self) -> (r: Phase)
        ensures
            r == self@.phase,
    {
        self.phase
    }

    /// The current reconnect backoff, in seconds.
    pub fn backoff_secs(&self) -> (r: u64)
        ensures
            r == self@.backoff_secs,
    {
        self.backoff_secs
    }

    /// The desired state that a new session would be sent.
    pub fn pending(&self) -> (r: &Option<DesiredState>)
        ensures
            desired_of(*r) == self@.pending,
    {
        &self.pending
    }

    fn leave_startup_wait(&mut self)
        ensures
            final(self)@ == after_startup_wait(old(self)@),
    {
        if self.startup_attempt < STARTUP_ATTEMPTS - 1 {
            self.startup_attempt = self.startup_attempt + 1;
            self.phase = Phase::Connecting;
        } else {
            self.startup_attempt = STARTUP_ATTEMPTS;
            self.phase = Phase::Waiting;
            set_status(&mut self.status, DiscordStatus::Disconnected);
        }
    }

    fn begin_shutdown(&mut self)
        ensures
            final(self)@ == after_shutdown(old(self)@),
    {
        if self.connected {
            self.phase = Phase::ClosingClear;
        } else {
            self.phase = Phase::Stopped;
            set_status(&mut self.status, DiscordStatus::Disconnected);
        }
    }

    fn accept_command(&mut self, command: DiscordCommand)
        ensures
            final(self)@ == after_command(old(self)@, command@),
    {
        let clears = match command {
            DiscordCommand::Shutdown => {
                self.begin_shutdown();
                return ;
            },
            DiscordCommand::UpdateTrack(track, artwork_url, options) => {
                self.pending = Some(
                    DesiredState { track, artwork_url, options, framing: Framing::Playing },
                );
                false
            },
            DiscordCommand::SetPaused(track, artwork_url, options) => {
                self.pending = Some(
                    DesiredState { track, artwork_url, options, framing: Framing::Paused },
                );
                false
            },
            DiscordCommand::ClearPresence => {
                self.pending = None;
                true
            },
        };
        if self.startup_attempt < STARTUP_ATTEMPTS {
            self.leave_startup_wait();
        } else if self.connected {
            self.phase = if clears {
                Phase::Clearing
            } else {
                Phase::Pushing
            };
        }
    }

    /// Takes in what came of the last action. The transition is that of
    /// [`handled`]: a command replaces the desired state and, in an open
    /// session, leads to a push or a clear; a failed push ends the session
    /// with an error status; a timeout without a session leads to a
    /// reconnect, whose failure doubles the backoff and whose success
    /// resets it and replays the desired state; a shutdown or a closed
    /// queue ends the worker.
    pub fn handle(&mut self, event: Event)
        ensures
            final(self)@ == handled(old(self)@, event@),
    {
        match self.phase {
            Phase::Connecting => match event {
                Event::ConnectSucceeded => {
                    self.phase = if self.pending.is_some() {
                        Phase::Pushing
                    } else {
                        Phase::Waiting
                    };
                    self.startup_attempt = STARTUP_ATTEMPTS;
                    self.connected = true;
                    self.backoff_secs = BACKOFF_FLOOR_SECS;
                    set_status(&mut self.status, DiscordStatus::Connected);
                },
                Event::ConnectFailed => {
                    self.phase = Phase::Waiting;
                    if self.startup_attempt >= STARTUP_ATTEMPTS {
                        self.backoff_secs = if self.backoff_secs >= 15 {
                            BACKOFF_CAP_SECS
                        } else {
                            2 * self.backoff_secs
                        };
                        set_status(&mut self.status, DiscordStatus::Disconnected);
                    }
                },
                _ => {},
            },
            Phase::Waiting => match event {
                Event::Command(command) => {
                    self.accept_command(command);
                },
                Event::QueueClosed => {
                    self.begin_shutdown();
                },
                Event::WaitTimedOut => {
                    if self.startup_attempt < STARTUP_ATTEMPTS {
                        self.leave_startup_wait();
                    } else if !self.connected {
                        self.phase = Phase::Connecting;
                        set_status(&mut self.status, DiscordStatus::Connecting);
                    }
                },
                _ => {},
            },
            Phase::Pushing => match event {
                Event::PushSucceeded => {
                    self.phase = Phase::Waiting;
                },
                Event::PushFailed(message) => {
                    let mut text = "Activity update failed: ".to_owned();
                    text.append(message.as_str());
                    self.phase = Phase::Waiting;
                    self.connected = false;
                    set_status(&mut self.status, DiscordStatus::Error(text));
                },
                _ => {},
            },
            Phase::Clearing => match event {
                Event::Finished => {
                    self.phase = Phase::Waiting;
                },
                _ => {},
            },
            Phase::ClosingClear => match event {
                Event::Finished => {
                    self.phase = Phase::ClosingSession;
                },
                _ => {},
            },
            Phase::ClosingSession => match event {
                Event::Finished => {
                    self.phase = Phase::Stopped;
                    self.connected = false;
                    set_status(&mut self.status, DiscordStatus::Disconnected);
                },
                _ => {},
            },
            Phase::Stopped => {},
        }
    }

    /// The outside step that the worker takes next, should it take it at the
    /// moment `now` (seconds since the epoch). The payload of a push is
    /// built from the desired state and the options that came with it.
    pub fn next_action(&self, now: i64) -> (r: Action)
        ensures
            r@ == action_of(self@, now),
    {
        match self.phase {
            Phase::Connecting => Action::Connect,
            Phase::Waiting => Action::Wait(self.wait_secs()),
            Phase::Pushing => match &self.pending {
                Some(d) => Action::Push(
                    build_activity(&d.track, &d.artwork_url, &d.options, d.framing, now),
                ),
                None => Action::Wait(self.wait_secs()),
            },
            Phase::Clearing => Action::Clear,
            Phase::ClosingClear => Action::Clear,
            Phase::ClosingSession => Action::Close,
            Phase::Stopped => Action::Exit,
        }
    }

    /// Takes in what came of the last action and returns the next one: the
    /// transition of [`handle`](Self::handle), then the action of
    /// [`next_action`](Self::next_action) in the new state.
    pub fn step(&mut self, event: Event, now: i64) -> (r: Action)
        ensures
            final(self)@ == handled(old(self)@, event@),
            r@ == action_of(handled(old(self)@, event@), now),
    {
        self.handle(event);
        self.next_action(now)
    }

    /// The outside step that the worker takes next, with the payload of a
    /// push timed by the system clock.
    pub fn next_action_now(&self) -> (r: Action)
        ensures
            exists|now: i64| now >= 0 && r@ == action_of(self@, now),
    {
        let now = now_secs();
        let r = self.next_action(now);
        assert(now >= 0 && r@ == action_of(self@, now));
        r
    }

    fn wait_secs(&self) -> (r: u64)
        ensures
            r == wait_secs_of(self@),
    {
        if self.startup_attempt < STARTUP_ATTEMPTS {
            startup_delay_secs(self.startup_attempt)
        } else if self.connected {
            IDLE_WAIT_SECS
        } else {
            self.backoff_secs
        }
    }
}

/// A worker starts in a well-formed state.
pub proof fn lemma_initial_state_well_formed()
    ensures
        well_formed(initial_state()),
{
}

/// Whatever arrives, a well-formed state stays well formed: the backoff
/// stays between its floor and its cap, a push has something to send, and a
/// stopped worker has published that it is disconnected.
pub proof fn lemma_handled_keeps_well_formed(s: ConnectionView, e: EventView)
    requires
        well_formed(s),
    ensures
        well_formed(handled(s, e)),
{
}

/// No wait is longer than the cap of the backoff, so a shutdown is never
/// kept waiting longer than that; and none is shorter than a second.
pub proof fn lemma_waits_are_bounded(s: ConnectionView, now: i64)
    requires
        well_formed(s),
    ensures
        action_of(s, now) is Wait ==> 1 <= action_of(s, now)->Wait_0 <= BACKOFF_CAP_SECS,
{
}

/// A worker that has ended stays as it is, whatever arrives, and asks for
/// nothing more.
pub proof fn lemma_stopped_is_final(s: ConnectionView, e: EventView, now: i64)
    requires
        s.phase == Phase::Stopped,
    ensures
        handled(s, e) == s,
        action_of(s, now) == ActionView::Exit,
{
}

/// Of two commands the later one decides what is desired, whatever was
/// desired before: nothing is merged.
pub proof fn lemma_last_command_wins(
    pending: Option<DesiredView>,
    other: Option<DesiredView>,
    earlier: CommandView,
    later: CommandView,
)
    requires
        !(later is Shutdown),
    ensures
        pending_after(pending_after(pending, earlier), later) == pending_after(other, later),
{
}

/// Whether the worker runs in its steady state without a session, waiting
/// for a command.
pub open spec fn idle_without_session(s: ConnectionView) -> bool {
    &&& s.phase == Phase::Waiting
    &&& s.startup_attempt == STARTUP_ATTEMPTS
    &&& !s.connected
}

/// The state after one timed-out wait and the failed reconnect that follows.
pub open spec fn after_failed_reconnect(s: ConnectionView) -> ConnectionView {
    handled(handled(s, EventView::WaitTimedOut), EventView::ConnectFailed)
}

/// The state after this many failed reconnects in a row.
pub open spec fn after_failed_reconnects(s: ConnectionView, failures: nat) -> ConnectionView
    decreases failures,
{
    if failures == 0 {
        s
    } else {
        after_failed_reconnect(after_failed_reconnects(s, (failures - 1) as nat))
    }
}

/// The reconnect waits run 1, 2, 4, 8, 16, 30 and stay at 30: they never
/// shrink and never pass the cap.
pub proof fn lemma_backoff_schedule(failures: nat)
    ensures
        backoff_after(0) == 1,
        backoff_after(1) == 2,
        backoff_after(2) == 4,
        backoff_after(3) == 8,
        backoff_after(4) == 16,
        failures >= 5 ==> backoff_after(failures) == 30,
        BACKOFF_FLOOR_SECS <= backoff_after(failures) <= BACKOFF_CAP_SECS,
        backoff_after(failures) <= backoff_after(failures + 1),
    decreases failures,
{
    reveal_with_fuel(backoff_after, 6);
    if failures > 5 {
        lemma_backoff_schedule((failures - 1) as nat);
    }
}

/// A worker without a session that fails to reconnect `failures` times in a
/// row, starting from the floor, then waits `backoff_after(failures)`
/// seconds before its next attempt, and is still without a session.
pub proof fn lemma_failed_reconnects_back_off(s: ConnectionView, failures: nat, now: i64)
    requires
        idle_without_session(s),
        s.backoff_secs == BACKOFF_FLOOR_SECS,
    ensures
        idle_without_session(after_failed_reconnects(s, failures)),
        after_failed_reconnects(s, failures).backoff_secs == backoff_after(failures),
        after_failed_reconnects(s, failures).pending == s.pending,
        action_of(after_failed_reconnects(s, failures), now) == ActionView::Wait(
            backoff_after(failures),
        ),
    decreases failures,
{
    if failures > 0 {
        lemma_failed_reconnects_back_off(s, (failures - 1) as nat, now);
    }
}

/// One successful reconnect brings the backoff back to its floor, whatever
/// it was, and publishes that the session is open.
pub proof fn lemma_reconnect_resets_backoff(s: ConnectionView)
    requires
        idle_without_session(s),
    ensures
        handled(handled(s, EventView::WaitTimedOut), EventView::ConnectSucceeded).backoff_secs
            == BACKOFF_FLOOR_SECS,
        handled(handled(s, EventView::WaitTimedOut), EventView::ConnectSucceeded).connected,
        handled(handled(s, EventView::WaitTimedOut), EventView::ConnectSucceeded).status
            == StatusView::Connected,
{
}

/// Two updates that arrive without a session cause no push; the reconnect
/// that follows pushes the payload of the second one, exactly once, and
/// then the worker waits again.
pub proof fn lemma_replay_pushes_latest_once(
    s: ConnectionView,
    first: (TrackView, Option<Seq<char>>, ActivityOptions),
    second: (TrackView, Option<Seq<char>>, ActivityOptions),
    now: i64,
)
    requires
        idle_without_session(s),
    ensures
        ({
            let s1 = handled(
                s,
                EventView::Command(CommandView::UpdateTrack(first.0, first.1, first.2)),
            );
            let s2 = handled(
                s1,
                EventView::Command(CommandView::UpdateTrack(second.0, second.1, second.2)),
            );
            let s3 = handled(s2, EventView::WaitTimedOut);
            let s4 = handled(s3, EventView::ConnectSucceeded);
            let s5 = handled(s4, EventView::PushSucceeded);
            &&& action_of(s1, now) is Wait
            &&& action_of(s2, now) is Wait
            &&& action_of(s3, now) == ActionView::Connect
            &&& action_of(s4, now) == ActionView::Push(
                payload_of(second.0, second.1, second.2, Framing::Playing, now),
            )
            &&& action_of(s5, now) == ActionView::Wait(IDLE_WAIT_SECS)
            &&& s5.connected
        }),
{
}

/// A reconnect replays whatever is desired, in its own framing and with the
/// options that came with it; with nothing desired it pushes nothing.
pub proof fn lemma_reconnect_replays_desired_state(s: ConnectionView, now: i64)
    requires
        s.phase == Phase::Connecting,
    ensures
        ({
            let after = handled(s, EventView::ConnectSucceeded);
            match s.pending {
                Some(d) => action_of(after, now) == ActionView::Push(
                    payload_of(d.track, d.artwork_url, d.options, d.framing, now),
                ),
                None => action_of(after, now) == ActionView::Wait(IDLE_WAIT_SECS),
            }
        }),
{
}

/// A shutdown, or the loss of every sender, that arrives during a wait ends
/// a worker without a session at once, with the status `Disconnected`; a
/// worker with a session clears, closes and then ends the same way.
pub proof fn lemma_shutdown_ends_worker(s: ConnectionView, closed: bool, now: i64)
    requires
        well_formed(s),
        s.phase == Phase::Waiting,
    ensures
        ({
            let e = if closed {
                EventView::QueueClosed
            } else {
                EventView::Command(CommandView::Shutdown)
            };
            let s1 = handled(s, e);
            let s2 = handled(s1, EventView::Finished);
            let s3 = handled(s2, EventView::Finished);
            if s.connected {
                &&& action_of(s1, now) == ActionView::Clear
                &&& action_of(s2, now) == ActionView::Close
                &&& action_of(s3, now) == ActionView::Exit
                &&& s3.status == StatusView::Disconnected
            } else {
                &&& action_of(s1, now) == ActionView::Exit
                &&& s1.status == StatusView::Disconnected
            }
        }),
{
}

/// Commands that arrive while the worker starts are not lost: each one
/// replaces the desired state, and the worker then goes on to its next
/// attempt, or to the steady state without a session after the last one.
pub proof fn lemma_startup_keeps_commands(s: ConnectionView, command: CommandView)
    requires
        well_formed(s),
        s.phase == Phase::Waiting,
        s.startup_attempt < STARTUP_ATTEMPTS,
        !(command is Shutdown),
    ensures
        handled(s, EventView::Command(command)).pending == pending_after(s.pending, command),
        s.startup_attempt + 1 < STARTUP_ATTEMPTS ==> handled(s, EventView::Command(command)).phase
            == Phase::Connecting,
        s.startup_attempt + 1 == STARTUP_ATTEMPTS ==> idle_without_session(
            handled(s, EventView::Command(command)),
        ) && handled(s, EventView::Command(command)).status == StatusView::Disconnected,
{
}

} // verus!
