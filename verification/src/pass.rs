//! One extraction pass as a state machine: what to do next, given what just
//! happened.
//!
//! The pass reloads the page, lets it settle, waits until it is ready or the
//! budget is spent, has the page captured, extracts the goals and emits
//! them. The caller does what the pass asks for (reload, sleep, sample,
//! capture) and reports back; the pass itself touches nothing outside.
//!
//! Once extraction is under way, the pass ends in exactly one emission: of
//! the goals found, or, after a fault or a question that the page did not
//! answer in time, of the empty payload. A missing context and a transport
//! that fails are no results of extraction. They end the pass with an error
//! and without an emission. Where the caller's own strategy stands in for
//! the built-in ones, the pass ends by handing over to it once the page is
//! ready.

use vstd::prelude::*;
use crate::emit::{address_for, address_of, delivery_of, emit};
use crate::readiness::{
    step_after, ReadinessConfig, WaitStep, Waiter, DEFAULT_MAX_ATTEMPTS, DEFAULT_MIN_LENGTH,
    DEFAULT_POLL_INTERVAL_MS,
};
use crate::strategy::{extract_goals, selected_goals, PageSnapshot, PageView};
use crate::transport::{SyncMessage, SyncMessageView};

verus! {

/// How long the page is left alone after a reload, in milliseconds.
pub const SETTLE_DELAY_MS: u64 = 3000;

/// How long the caller waits for the page to answer a question before it
/// reports the question as unanswered, in milliseconds.
pub const ANSWER_TIMEOUT_MS: u64 = 10000;

/// Why a pass ended without an emission.
#[derive(Clone, Debug, PartialEq, Eq)]
pub enum PassError {
    /// There was no session window to begin with.
    ContextMissing,
    /// The session window was gone after the pass had begun.
    ContextMissingAfterReload,
    /// The transport failed: the page could not be reloaded or asked. The
    /// reason is in the words of whatever failed.
    Transport { reason: String },
}

/// An error as contracts see it.
pub enum PassErrorView {
    ContextMissing,
    ContextMissingAfterReload,
    Transport { reason: Seq<char> },
}

impl View for PassError {
    type V = PassErrorView;

    open spec fn view(&self) -> PassErrorView {
        match self {
            PassError::ContextMissing => PassErrorView::ContextMissing,
            PassError::ContextMissingAfterReload => PassErrorView::ContextMissingAfterReload,
            PassError::Transport { reason } => PassErrorView::Transport { reason: reason@ },
        }
    }
}

/// Where a pass stands.
#[derive(Clone, Copy, Debug, PartialEq, Eq)]
pub enum Phase {
    Idle,
    Reloading,
    Settling,
    Sampling,
    Pausing,
    Capturing,
    Done,
}

/// What the caller reports to the pass.
#[derive(Clone, Debug, PartialEq, Eq)]
pub enum PassEvent {
    /// The caller wants a pass.
    Begin,
    /// The session window is not there.
    ContextLost,
    /// What the pass asked for could not be done; `reason` says why, in the
    /// words of whatever failed.
    TransportFailed { reason: String },
    /// The reload has been started.
    Reloaded,
    /// The sleep that was asked for is over.
    Elapsed,
    /// The visible text of the page has this many characters.
    TextLength(usize),
    /// The page as it was captured.
    Captured(PageSnapshot),
    /// Something went wrong on the page.
    Fault,
    /// The page has not answered the question with this ticket in time.
    Unanswered { ticket: u64 },
}

/// An event as contracts see it.
pub enum PassEventView {
    Begin,
    ContextLost,
    TransportFailed { reason: Seq<char> },
    Reloaded,
    Elapsed,
    TextLength(usize),
    Captured(PageView),
    Fault,
    Unanswered { ticket: u64 },
}

impl View for PassEvent {
    type V = PassEventView;

    open spec fn view(&self) -> PassEventView {
        match self {
            PassEvent::Begin => PassEventView::Begin,
            PassEvent::ContextLost => PassEventView::ContextLost,
            PassEvent::TransportFailed { reason } => PassEventView::TransportFailed {
                reason: reason@,
            },
            PassEvent::Reloaded => PassEventView::Reloaded,
            PassEvent::Elapsed => PassEventView::Elapsed,
            PassEvent::TextLength(n) => PassEventView::TextLength(*n),
            PassEvent::Captured(page) => PassEventView::Captured(page@),
            PassEvent::Fault => PassEventView::Fault,
            PassEvent::Unanswered { ticket } => PassEventView::Unanswered { ticket: *ticket },
        }
    }
}

/// What the pass asks the caller to do.
#[derive(Clone, Debug, PartialEq, Eq)]
pub enum PassAction {
    /// Nothing: the event does not belong here.
    Ignore,
    /// Reload the page, then report `Reloaded`.
    Reload,
    /// Sleep for `ms` milliseconds, then report `Elapsed`.
    Sleep { ms: u64 },
    /// Ask the page for the length of its visible text; its answer is
    /// reported as `TextLength`, its silence as `Unanswered`.
    SampleTextLength,
    /// Ask the page for a capture; its answer is reported as `Captured`, its
    /// silence as `Unanswered`.
    Capture,
    /// Run the caller's own strategy, which emits for itself. The pass is
    /// over.
    RunCustom,
    /// Send the page to `address`. The pass is over.
    Emit { address: String },
    /// Report `error` to whoever asked for the pass. The pass is over.
    Fail { error: PassError },
}

/// An action as contracts see it.
pub enum PassActionView {
    Ignore,
    Reload,
    Sleep { ms: u64 },
    SampleTextLength,
    Capture,
    RunCustom,
    Emit { address: Seq<char> },
    Fail { error: PassErrorView },
}

impl View for PassAction {
    type V = PassActionView;

    open spec fn view(&self) -> PassActionView {
        match self {
            PassAction::Ignore => PassActionView::Ignore,
            PassAction::Reload => PassActionView::Reload,
            PassAction::Sleep { ms } => PassActionView::Sleep { ms: *ms },
            PassAction::SampleTextLength => PassActionView::SampleTextLength,
            PassAction::Capture => PassActionView::Capture,
            PassAction::RunCustom => PassActionView::RunCustom,
            PassAction::Emit { address } => PassActionView::Emit { address: address@ },
            PassAction::Fail { error } => PassActionView::Fail { error: error@ },
        }
    }
}

/// A pass: its phase, its waiter, whether the caller's own strategy stands
/// in for the built-in ones, and the ticket of the question that it asked
/// the page last.
#[derive(Clone, Copy, Debug, PartialEq, Eq)]
pub struct Pass {
    pub phase: Phase,
    pub waiter: Waiter,
    pub custom: bool,
    pub ticket: u64,
}

/// The address that carries the empty payload.
pub open spec fn empty_delivery() -> Seq<char> {
    address_of("[]"@)
}

/// Whether extraction is under way in `phase`: the page has settled and the
/// pass has not ended.
pub open spec fn in_extraction(phase: Phase) -> bool {
    phase == Phase::Sampling || phase == Phase::Pausing || phase == Phase::Capturing
}

/// Whether the pass waits for an answer of the page in `phase`.
pub open spec fn awaits_answer(phase: Phase) -> bool {
    phase == Phase::Sampling || phase == Phase::Capturing
}

/// The ticket after `ticket`.
pub open spec fn next_ticket(ticket: u64) -> u64 {
    if ticket < u64::MAX {
        (ticket + 1) as u64
    } else {
        ticket
    }
}

/// `pass` in another phase.
pub open spec fn moved(pass: Pass, phase: Phase) -> Pass {
    Pass { phase, waiter: pass.waiter, custom: pass.custom, ticket: pass.ticket }
}

/// `pass` in the phase `phase`, in which it waits for the answer to a new
/// question, and with `attempts` pauses asked for.
pub open spec fn asking(pass: Pass, phase: Phase, attempts: u32) -> Pass {
    Pass {
        phase,
        waiter: Waiter { config: pass.waiter.config, attempts },
        custom: pass.custom,
        ticket: next_ticket(pass.ticket),
    }
}

/// `pass` pausing, with one more pause asked for.
pub open spec fn pausing(pass: Pass) -> Pass {
    Pass {
        phase: Phase::Pausing,
        waiter: Waiter {
            config: pass.waiter.config,
            attempts: (pass.waiter.attempts + 1) as u32,
        },
        custom: pass.custom,
        ticket: pass.ticket,
    }
}

/// What the pass does with an event that is out of turn before extraction is
/// under way: only the loss of the window counts.
pub open spec fn step_before_extraction(pass: Pass, event: PassEventView) -> (
    Pass,
    PassActionView,
) {
    match event {
        PassEventView::ContextLost => (
            moved(pass, Phase::Done),
            PassActionView::Fail { error: PassErrorView::ContextMissingAfterReload },
        ),
        _ => (pass, PassActionView::Ignore),
    }
}

/// What the pass does with an event that is out of turn while extraction is
/// under way: the loss of the window is an error, and a fault, or the silence
/// of the page on the question asked last, is answered with the empty
/// payload.
pub open spec fn step_in_extraction(pass: Pass, event: PassEventView) -> (Pass, PassActionView) {
    match event {
        PassEventView::ContextLost => (
            moved(pass, Phase::Done),
            PassActionView::Fail { error: PassErrorView::ContextMissingAfterReload },
        ),
        PassEventView::Fault => (
            moved(pass, Phase::Done),
            PassActionView::Emit { address: empty_delivery() },
        ),
        PassEventView::Unanswered { ticket } => if awaits_answer(pass.phase) && ticket
            == pass.ticket {
            (moved(pass, Phase::Done), PassActionView::Emit { address: empty_delivery() })
        } else {
            (pass, PassActionView::Ignore)
        },
        _ => (pass, PassActionView::Ignore),
    }
}

/// The pass after `event`, and what it asks for. A pass that is over ignores
/// everything; in any other phase a transport that failed ends the pass
/// with an error that carries the reason.
pub open spec fn step(pass: Pass, event: PassEventView) -> (Pass, PassActionView) {
    if pass.phase == Phase::Done {
        (pass, PassActionView::Ignore)
    } else if let PassEventView::TransportFailed { reason } = event {
        (
            moved(pass, Phase::Done),
            PassActionView::Fail { error: PassErrorView::Transport { reason } },
        )
    } else {
        match pass.phase {
            Phase::Done => (pass, PassActionView::Ignore),
            Phase::Idle => match event {
                PassEventView::Begin => (moved(pass, Phase::Reloading), PassActionView::Reload),
                PassEventView::ContextLost => (
                    moved(pass, Phase::Done),
                    PassActionView::Fail { error: PassErrorView::ContextMissing },
                ),
                _ => (pass, PassActionView::Ignore),
            },
            Phase::Reloading => match event {
                PassEventView::Reloaded => (
                    moved(pass, Phase::Settling),
                    PassActionView::Sleep { ms: SETTLE_DELAY_MS },
                ),
                _ => step_before_extraction(pass, event),
            },
            Phase::Settling => match event {
                PassEventView::Elapsed => (
                    asking(pass, Phase::Sampling, 0),
                    PassActionView::SampleTextLength,
                ),
                _ => step_before_extraction(pass, event),
            },
            Phase::Sampling => match event {
                PassEventView::TextLength(n) => match step_after(
                    pass.waiter.config,
                    pass.waiter.attempts,
                    n,
                ) {
                    WaitStep::Retry { delay_ms } => (
                        pausing(pass),
                        PassActionView::Sleep { ms: delay_ms },
                    ),
                    _ => if pass.custom {
                        (moved(pass, Phase::Done), PassActionView::RunCustom)
                    } else {
                        (
                            asking(pass, Phase::Capturing, pass.waiter.attempts),
                            PassActionView::Capture,
                        )
                    },
                },
                _ => step_in_extraction(pass, event),
            },
            Phase::Pausing => match event {
                PassEventView::Elapsed => (
                    asking(pass, Phase::Sampling, pass.waiter.attempts),
                    PassActionView::SampleTextLength,
                ),
                _ => step_in_extraction(pass, event),
            },
            Phase::Capturing => match event {
                PassEventView::Captured(page) => (
                    moved(pass, Phase::Done),
                    PassActionView::Emit { address: delivery_of(selected_goals(page)) },
                ),
                _ => step_in_extraction(pass, event),
            },
        }
    }
}

/// How many of the events `events`, fed to `pass` in turn, are answered with
/// an emission.
pub open spec fn emissions(pass: Pass, events: Seq<PassEventView>) -> nat
    decreases events.len(),
{
    if events.len() == 0 {
        0
    } else {
        let (next, action) = step(pass, events[0]);
        let here: nat = if action is Emit {
            1
        } else {
            0
        };
        here + emissions(next, events.skip(1))
    }
}

/// How many of the events `events`, fed to `pass` in turn, are answered with
/// an error.
pub open spec fn failures(pass: Pass, events: Seq<PassEventView>) -> nat
    decreases events.len(),
{
    if events.len() == 0 {
        0
    } else {
        let (next, action) = step(pass, events[0]);
        let here: nat = if action is Fail {
            1
        } else {
            0
        };
        here + failures(next, events.skip(1))
    }
}

/// How many of the events `events`, fed to `pass` in turn, are answered by
/// handing over to the caller's own strategy.
pub open spec fn handovers(pass: Pass, events: Seq<PassEventView>) -> nat
    decreases events.len(),
{
    if events.len() == 0 {
        0
    } else {
        let (next, action) = step(pass, events[0]);
        let here: nat = if action is RunCustom {
            1
        } else {
            0
        };
        here + handovers(next, events.skip(1))
    }
}

/// The pass after the events `events` have been fed to it in turn.
pub open spec fn pass_after(pass: Pass, events: Seq<PassEventView>) -> Pass
    decreases events.len(),
{
    if events.len() == 0 {
        pass
    } else {
        pass_after(step(pass, events[0]).0, events.skip(1))
    }
}

/// The error `error` in words: a fixed text for a missing window, and for a
/// transport that failed the reason as it was given.
pub open spec fn message_text(error: PassErrorView) -> Seq<char> {
    match error {
        PassErrorView::ContextMissing => "Addness sync window not found"@,
        PassErrorView::ContextMissingAfterReload => "Addness sync window not found after reload"@,
        PassErrorView::Transport { reason } => reason,
    }
}

/// The error that `event` is to whoever asked for the pass, where it says
/// that something could not be handed to the page: the reason of a transport
/// that failed, or the loss of the window.
pub open spec fn failure_in(event: PassEventView) -> Option<PassErrorView> {
    match event {
        PassEventView::TransportFailed { reason } => Some(PassErrorView::Transport { reason }),
        PassEventView::ContextLost => Some(PassErrorView::ContextMissingAfterReload),
        _ => None,
    }
}

/// The view of an error that may be missing.
pub open spec fn error_view(error: Option<PassError>) -> Option<PassErrorView> {
    match error {
        Some(e) => Some(e@),
        None => None,
    }
}

/// A pass with the default setup of the waiter that has not begun.
pub open spec fn fresh_pass(custom: bool) -> Pass {
    Pass {
        phase: Phase::Idle,
        waiter: Waiter {
            config: ReadinessConfig {
                min_length: DEFAULT_MIN_LENGTH,
                poll_interval_ms: DEFAULT_POLL_INTERVAL_MS,
                max_attempts: DEFAULT_MAX_ATTEMPTS,
            },
            attempts: 0,
        },
        custom,
        ticket: 0,
    }
}

impl PassError {
    /// The error in words, for whoever asked for the pass.
    pub fn message(&self) -> (text: String)
        ensures
            text@ == message_text(self@),
    {
        match self {
            PassError::ContextMissing => "Addness sync window not found".to_owned(),
            PassError::ContextMissingAfterReload => "Addness sync window not found after reload".to_owned(),
            PassError::Transport { reason } => reason.clone(),
        }
    }
}

impl Pass {
    /// The waiter of the pass stays within its budget.
    pub open spec fn well_formed(&self) -> bool {
        self.waiter.well_formed()
    }

    /// A pass that has not begun. With `custom`, the caller's own strategy
    /// stands in for the built-in ones.
    pub fn new(config: ReadinessConfig, custom: bool) -> (pass: Pass)
        ensures
            pass == (Pass {
                phase: Phase::Idle,
                waiter: Waiter { config, attempts: 0 },
                custom,
                ticket: 0,
            }),
            pass.well_formed(),
    {
        Pass { phase: Phase::Idle, waiter: Waiter::new(config), custom, ticket: 0 }
    }

    /// Whether the pass waits for an answer of the page.
    pub fn awaits_answer(&self) -> (waiting: bool)
        ensures
            waiting == awaits_answer(self.phase),
    {
        match self.phase {
            Phase::Sampling => true,
            Phase::Capturing => true,
            _ => false,
        }
    }

    fn ask(&mut self, phase: Phase)
        ensures
            *final(self) == asking(*old(self), phase, old(self).waiter.attempts),
    {
        self.phase = phase;
        if self.ticket < u64::MAX {
            self.ticket = self.ticket + 1;
        }
    }

    fn before_extraction(&mut self, event: PassEvent) -> (action: PassAction)
        ensures
            (*final(self), action@) == step_before_extraction(*old(self), event@),
    {
        match event {
            PassEvent::ContextLost => {
                self.phase = Phase::Done;
                PassAction::Fail { error: PassError::ContextMissingAfterReload }
            },
            _ => PassAction::Ignore,
        }
    }

    fn during_extraction(&mut self, event: PassEvent) -> (action: PassAction)
        ensures
            (*final(self), action@) == step_in_extraction(*old(self), event@),
    {
        match event {
            PassEvent::ContextLost => {
                self.phase = Phase::Done;
                PassAction::Fail { error: PassError::ContextMissingAfterReload }
            },
            PassEvent::Fault => {
                self.phase = Phase::Done;
                PassAction::Emit { address: address_for("[]") }
            },
            PassEvent::Unanswered { ticket } => {
                if self.awaits_answer() && ticket == self.ticket {
                    self.phase = Phase::Done;
                    PassAction::Emit { address: address_for("[]") }
                } else {
                    PassAction::Ignore
                }
            },
            _ => PassAction::Ignore,
        }
    }

    /// Takes in what the caller reports and says what to do next.
    pub fn on_event(&mut self, event: PassEvent) -> (action: PassAction)
        ensures
            (*final(self), action@) == step(*old(self), event@),
            old(self).well_formed() ==> final(self).well_formed(),
    {
        if let Phase::Done = self.phase {
            return PassAction::Ignore;
        }
        let event = match event {
            PassEvent::TransportFailed { reason } => {
                self.phase = Phase::Done;
                return PassAction::Fail { error: PassError::Transport { reason } };
            },
            other => other,
        };
        match self.phase {
            Phase::Done => PassAction::Ignore,
            Phase::Idle => match event {
                PassEvent::Begin => {
                    self.phase = Phase::Reloading;
                    PassAction::Reload
                },
                PassEvent::ContextLost => {
                    self.phase = Phase::Done;
                    PassAction::Fail { error: PassError::ContextMissing }
                },
                _ => PassAction::Ignore,
            },
            Phase::Reloading => match event {
                PassEvent::Reloaded => {
                    self.phase = Phase::Settling;
                    PassAction::Sleep { ms: SETTLE_DELAY_MS }
                },
                other => self.before_extraction(other),
            },
            Phase::Settling => match event {
                PassEvent::Elapsed => {
                    self.waiter.attempts = 0;
                    self.ask(Phase::Sampling);
                    PassAction::SampleTextLength
                },
                other => self.before_extraction(other),
            },
            Phase::Sampling => match event {
                PassEvent::TextLength(n) => {
                    let mut waiter = self.waiter;
                    match waiter.observe(n) {
                        WaitStep::Retry { delay_ms } => {
                            self.waiter = waiter;
                            self.phase = Phase::Pausing;
                            PassAction::Sleep { ms: delay_ms }
                        },
                        _ => {
                            if self.custom {
                                self.phase = Phase::Done;
                                PassAction::RunCustom
                            } else {
                                self.ask(Phase::Capturing);
                                PassAction::Capture
                            }
                        },
                    }
                },
                other => self.during_extraction(other),
            },
            Phase::Pausing => match event {
                PassEvent::Elapsed => {
                    self.ask(Phase::Sampling);
                    PassAction::SampleTextLength
                },
                other => self.during_extraction(other),
            },
            Phase::Capturing => match event {
                PassEvent::Captured(page) => {
                    self.phase = Phase::Done;
                    let goals = extract_goals(&page);
                    PassAction::Emit { address: emit(&goals) }
                },
                other => self.during_extraction(other),
            },
        }
    }
}

/// The event that a message from the page is to the pass, if it is one.
pub open spec fn event_for(message: SyncMessageView) -> Option<PassEventView> {
    match message {
        SyncMessageView::TextLength(n) => Some(PassEventView::TextLength(n)),
        SyncMessageView::Page(page) => Some(PassEventView::Captured(page)),
        SyncMessageView::Fault => Some(PassEventView::Fault),
        _ => None,
    }
}

/// The view of an event that may be missing.
pub open spec fn event_view(event: Option<PassEvent>) -> Option<PassEventView> {
    match event {
        Some(e) => Some(e@),
        None => None,
    }
}

/// Turns a message from the page into the event that it is to the pass: a
/// sample, a captured page or a fault. A payload is for whoever asked for
/// the goals and is no event.
pub fn event_of(message: SyncMessage) -> (event: Option<PassEvent>)
    ensures
        event_view(event) == event_for(message@),
{
    match message {
        SyncMessage::TextLength(n) => Some(PassEvent::TextLength(n)),
        SyncMessage::Page(page) => Some(PassEvent::Captured(page)),
        SyncMessage::Fault => Some(PassEvent::Fault),
        _ => None,
    }
}

/// What the caller is told when the last thing that a pass asked for, the
/// emission or the hand-over, could not be given to the page: the error that
/// `outcome` is, if it is one. The pass itself is over by then and has
/// nothing more to say.
pub fn failure_of(outcome: PassEvent) -> (error: Option<PassError>)
    ensures
        error_view(error) == failure_in(outcome@),
{
    match outcome {
        PassEvent::TransportFailed { reason } => Some(PassError::Transport { reason }),
        PassEvent::ContextLost => Some(PassError::ContextMissingAfterReload),
        _ => None,
    }
}

/// Triggers one full pass with the default setup of the waiter: the pass and
/// the first thing it asks for. Where the session window is there, the pass
/// has begun and asks for a reload; where it is not, the pass is over and
/// fails with `ContextMissing`, and nothing is reloaded, asked or emitted.
/// With `strategy_override`, the caller's own strategy stands in for the
/// built-in ones.
pub fn run_extraction(context_present: bool, strategy_override: bool) -> (begun: (
    Pass,
    PassAction,
))
    ensures
        (begun.0, begun.1@) == step(
            fresh_pass(strategy_override),
            if context_present {
                PassEventView::Begin
            } else {
                PassEventView::ContextLost
            },
        ),
        begun.0.well_formed(),
{
    let waiter = Waiter::with_defaults();
    let mut pass = Pass::new(waiter.config, strategy_override);
    let action = if context_present {
        pass.on_event(PassEvent::Begin)
    } else {
        pass.on_event(PassEvent::ContextLost)
    };
    (pass, action)
}

} // verus!
