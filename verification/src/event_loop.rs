//! The thread from its start to its end.
//!
//! The thread is a machine that asks for one thing at a time: a [`Command`] says what to do, the
//! [`Report`] that answers it says how it went, and [`SctkEventLoop::advance`] turns the report
//! into the next command.

use crate::error::Error;
use crate::event::{Output, SctkEvent};
use crate::globals::BoundGlobals;
use crate::state::{Protocols, SctkState, SctkStateView};
use calloop::Error as CalloopError;
use vstd::prelude::*;
use wayland_client::globals::GlobalError;

verus! {

/// The features that can be asked of the event loop. There are none so far.
#[derive(Debug, Clone, Copy)]
pub struct Features {}

impl Default for Features {
    fn default() -> (features: Self)
        ensures
            features == (Features {}),
    {
        Features {  }
    }
}

/// What the thread waits for.
#[derive(Debug, Clone, Copy, PartialEq, Eq, Structural)]
pub enum Phase {
    /// The display handle is being read.
    Display,
    /// The display is being connected to, and its globals listed.
    Registry,
    /// The event loop is being made.
    EventLoop,
    /// The sources of events are being inserted into the event loop.
    Sources,
    /// Fractional scaling is being bound.
    FractionalScaling,
    /// The viewporter that goes with fractional scaling is being bound.
    Viewporter,
    /// The other globals are being bound.
    Globals,
    /// The application is being told that the thread is about to wait.
    Announce,
    /// That failed, and it is being asked whether the application is gone.
    Closed,
    /// Events are being waited for and dispatched.
    Dispatch,
    /// The thread has ended.
    Finished,
}

/// What the display handle turned out to be.
#[derive(Debug, Clone, Copy, PartialEq, Eq, Structural)]
pub enum DisplayReport {
    /// There is none.
    Unavailable,
    /// It belongs to another window system.
    Foreign,
    /// It is that of a Wayland display.
    Wayland,
}

/// How the last command went.
pub enum Report {
    /// The display handle was read.
    Display(DisplayReport),
    /// The globals were listed, or not.
    Registry(Result<(), GlobalError>),
    /// The event loop was made, or not.
    EventLoop(Result<(), CalloopError>),
    /// The sources were inserted.
    Sources,
    /// Whether fractional scaling was bound.
    FractionalScaling(bool),
    /// Whether the viewporter was bound.
    Viewporter(bool),
    /// The other globals were bound.
    Globals(BoundGlobals),
    /// Whether the announcement was sent.
    Announced(bool),
    /// Whether the channel to the application is closed.
    ChannelClosed(bool),
    /// Whether dispatching events succeeded. The loop goes on either way.
    Dispatched(bool),
}

/// What to do next.
pub enum Command<P> {
    /// Connect to the display and list its globals.
    InitRegistry,
    /// Make the event loop.
    CreateEventLoop,
    /// Insert the channel of requests and the connection into the event loop.
    InsertSources,
    /// Bind fractional scaling.
    BindFractionalScaling,
    /// Bind the viewporter that goes with fractional scaling.
    BindViewporter,
    /// Bind the other globals.
    BindGlobals,
    /// Do this, in order, and then tell the application that the thread is about to wait.
    Announce(Vec<Output<P>>),
    /// Ask whether the channel to the application is closed.
    CheckClosed,
    /// Wait for events, and dispatch them.
    Dispatch,
    /// End the thread with this result.
    Exit(Result<(), Error>),
}

/// The report `report` answers what the thread waits for in `phase`. Globals are reported only
/// where those without which the thread cannot go on were bound.
pub open spec fn answers(phase: Phase, report: Report) -> bool {
    match report {
        Report::Display(_) => phase is Display,
        Report::Registry(_) => phase is Registry,
        Report::EventLoop(_) => phase is EventLoop,
        Report::Sources => phase is Sources,
        Report::FractionalScaling(_) => phase is FractionalScaling,
        Report::Viewporter(_) => phase is Viewporter,
        Report::Globals(globals) => phase is Globals && globals.sufficient(),
        Report::Announced(_) => phase is Announce,
        Report::ChannelClosed(_) => phase is Closed,
        Report::Dispatched(_) => phase is Dispatch,
    }
}

/// What the thread waits for after a report.
pub open spec fn phase_after(report: Report) -> Phase {
    match report {
        Report::Display(DisplayReport::Wayland) => Phase::Registry,
        Report::Registry(Ok(())) => Phase::EventLoop,
        Report::EventLoop(Ok(())) => Phase::Sources,
        Report::Sources => Phase::FractionalScaling,
        Report::FractionalScaling(true) => Phase::Viewporter,
        Report::FractionalScaling(false) => Phase::Globals,
        Report::Viewporter(_) => Phase::Globals,
        Report::Globals(_) => Phase::Announce,
        Report::Announced(true) => Phase::Dispatch,
        Report::Announced(false) => Phase::Closed,
        Report::ChannelClosed(false) => Phase::Dispatch,
        Report::Dispatched(_) => Phase::Announce,
        // The start failed, or the application is gone.
        _ => Phase::Finished,
    }
}

impl<P, I> SctkStateView<P, I> {
    /// The state after a report.
    pub open spec fn after_report(self, report: Report) -> Self {
        match report {
            Report::FractionalScaling(bound) => SctkStateView {
                protocols: Protocols {
                    fractional_scaling_manager: bound,
                    ..self.protocols
                },
                ..self
            },
            Report::Viewporter(bound) => SctkStateView {
                protocols: Protocols {
                    viewporter_state: bound,
                    ..self.protocols
                },
                ..self
            },
            Report::Globals(globals) => SctkStateView {
                protocols: globals.added_to(self.protocols),
                subsurface_state: globals.subsurface_state(),
                ..self
            },
            Report::Dispatched(_) => self.after_turn(),
            _ => self,
        }
    }

    /// `outputs` is what is done outside the state after a report and before the next announcement.
    /// Once the globals are bound it is to tell the application, where subsurfaces are supported,
    /// what they are made with.
    pub open spec fn done_first(self, report: Report, outputs: Seq<Output<P>>) -> bool {
        match report {
            Report::Globals(globals) => match globals.subsurface_state() {
                Some(subsurfaces) => {
                    &&& outputs.len() == 1
                    &&& outputs[0] matches Output::SendEvent(SctkEvent::Subcompositor(sent))
                    &&& sent@ == subsurfaces
                },
                None => outputs.len() == 0,
            },
            Report::Dispatched(_) => outputs == self.turn_outputs(),
            _ => outputs.len() == 0,
        }
    }
}

/// The result with which the thread ends on a report, if it ends.
pub open spec fn result_after(report: Report) -> Option<Result<(), Error>> {
    match report {
        Report::Display(DisplayReport::Unavailable) => Some(Err(Error::NoDisplayHandle)),
        Report::Display(DisplayReport::Foreign) => Some(Err(Error::NoWaylandDisplay)),
        Report::Registry(Err(e)) => Some(Err(Error::Global(e))),
        Report::EventLoop(Err(e)) => Some(Err(Error::Calloop(e))),
        Report::ChannelClosed(true) => Some(Ok(())),
        _ => None,
    }
}

/// The command `command` follows `report`, in a thread with the state `before`: it sets going what
/// is then waited for. Where it is an announcement, it puts first what is done before that; where it
/// ends the thread, it ends it with the result that the report gives.
pub open spec fn follows<P, I>(
    command: Command<P>,
    before: SctkStateView<P, I>,
    report: Report,
) -> bool {
    match phase_after(report) {
        Phase::Display => false,
        Phase::Registry => command is InitRegistry,
        Phase::EventLoop => command is CreateEventLoop,
        Phase::Sources => command is InsertSources,
        Phase::FractionalScaling => command is BindFractionalScaling,
        Phase::Viewporter => command is BindViewporter,
        Phase::Globals => command is BindGlobals,
        Phase::Announce => command matches Command::Announce(first) && before.done_first(
            report,
            first@,
        ),
        Phase::Closed => command is CheckClosed,
        Phase::Dispatch => command is Dispatch,
        Phase::Finished => command matches Command::Exit(r) && result_after(report) == Some(r),
    }
}

/// The thread, between a command and the report that answers it.
pub struct SctkEventLoop<P, I> {
    /// What is waited for.
    pub phase: Phase,
    /// The features that were asked for.
    pub _features: Features,
    /// The state.
    pub state: SctkState<P, I>,
}

impl<P, I> SctkEventLoop<P, I> {
    /// What holds of every thread: the viewporter for scaling is bound only where fractional
    /// scaling is, and nothing is known of subsurfaces before the globals were bound.
    pub open spec fn well_formed(self) -> bool {
        &&& self.state@.protocols.viewporter_state
            ==> self.state@.protocols.fractional_scaling_manager
        &&& self.phase is Display || self.phase is Registry || self.phase is EventLoop
            || self.phase is Sources || self.phase is FractionalScaling
            ==> !self.state@.protocols.fractional_scaling_manager
        &&& self.phase is Viewporter ==> self.state@.protocols.fractional_scaling_manager
        &&& self.phase is Display || self.phase is Registry || self.phase is EventLoop
            || self.phase is Sources || self.phase is FractionalScaling || self.phase is Viewporter
            || self.phase is Globals ==> self.state@.subsurface_state is None
    }

    /// A thread that was just started, and waits for its display handle.
    pub fn new() -> (thread: Self)
        ensures
            thread.phase is Display,
            thread._features == (Features {  }),
            thread.state@ == SctkStateView::<P, I>::initial(),
            thread.well_formed(),
    {
        SctkEventLoop {
            phase: Phase::Display,
            _features: Features::default(),
            state: SctkState::new(),
        }
    }

    /// Takes the answer to the last command, and returns the next one.
    pub fn advance(&mut self, report: Report) -> (command: Command<P>)
        requires
            answers(old(self).phase, report),
        ensures
            final(self).phase == phase_after(report),
            final(self)._features == old(self)._features,
            final(self).state@ == old(self).state@.after_report(report),
            follows(command, old(self).state@, report),
            old(self).well_formed() ==> final(self).well_formed(),
    {
        match report {
            Report::Display(display) => match display {
                DisplayReport::Unavailable => {
                    self.phase = Phase::Finished;
                    Command::Exit(Err(Error::NoDisplayHandle))
                },
                DisplayReport::Foreign => {
                    self.phase = Phase::Finished;
                    Command::Exit(Err(Error::NoWaylandDisplay))
                },
                DisplayReport::Wayland => {
                    self.phase = Phase::Registry;
                    Command::InitRegistry
                },
            },
            Report::Registry(result) => match result {
                Ok(()) => {
                    self.phase = Phase::EventLoop;
                    Command::CreateEventLoop
                },
                Err(e) => {
                    self.phase = Phase::Finished;
                    Command::Exit(Err(Error::Global(e)))
                },
            },
            Report::EventLoop(result) => match result {
                Ok(()) => {
                    self.phase = Phase::Sources;
                    Command::InsertSources
                },
                Err(e) => {
                    self.phase = Phase::Finished;
                    Command::Exit(Err(Error::Calloop(e)))
                },
            },
            Report::Sources => {
                self.phase = Phase::FractionalScaling;
                Command::BindFractionalScaling
            },
            Report::FractionalScaling(bound) => {
                self.state.protocols.fractional_scaling_manager = bound;
                if bound {
                    self.phase = Phase::Viewporter;
                    Command::BindViewporter
                } else {
                    self.phase = Phase::Globals;
                    Command::BindGlobals
                }
            },
            Report::Viewporter(bound) => {
                self.state.protocols.viewporter_state = bound;
                self.phase = Phase::Globals;
                Command::BindGlobals
            },
            Report::Globals(globals) => {
                globals.add_to(&mut self.state.protocols);
                let mut first: Vec<Output<P>> = Vec::new();
                let subsurfaces = globals.subsurfaces();
                if let Some(state) = &subsurfaces {
                    first.push(Output::SendEvent(SctkEvent::Subcompositor(state.clone())));
                }
                self.state.subsurface_state = subsurfaces;
                self.phase = Phase::Announce;
                Command::Announce(first)
            },
            Report::Announced(sent) => {
                if sent {
                    self.phase = Phase::Dispatch;
                    Command::Dispatch
                } else {
                    self.phase = Phase::Closed;
                    Command::CheckClosed
                }
            },
            Report::ChannelClosed(closed) => {
                if closed {
                    self.phase = Phase::Finished;
                    Command::Exit(Ok(()))
                } else {
                    self.phase = Phase::Dispatch;
                    Command::Dispatch
                }
            },
            Report::Dispatched(_) => {
                let outputs = self.state.turn();
                self.phase = Phase::Announce;
                Command::Announce(outputs)
            },
        }
    }
}

/// What the one who started the thread gets: the sender of requests, unless the thread has already
/// died of a panic.
///
/// `ended` is what joining the thread gave, where it had ended by the time it was looked at. A
/// thread that failed to start is not told apart from one that runs.
pub fn start_result<S, E>(sender: S, ended: Option<Result<Result<(), Error>, E>>) -> (result:
    Result<S, E>)
    ensures
        result == (match ended {
            Some(Err(panic)) => Err(panic),
            _ => Ok(sender),
        }),
{
    match ended {
        Some(joined) => match joined {
            Ok(_) => Ok(sender),
            Err(panic) => Err(panic),
        },
        None => Ok(sender),
    }
}

/// What is waited for, in a thread that waited for `start`, after `reports`.
pub open spec fn phase_at_end(start: Phase, reports: Seq<Report>) -> Phase {
    if reports.len() == 0 {
        start
    } else {
        phase_after(reports.last())
    }
}

/// Each of `reports` answers what a thread waits for that waited for `start` before them.
#[verifier::opaque]
pub open spec fn is_run(start: Phase, reports: Seq<Report>) -> bool {
    forall|i: int|
        0 <= i < reports.len() ==> answers(
            phase_at_end(start, reports.take(i)),
            #[trigger] reports[i],
        )
}

/// A thread ends exactly with those reports that give it a result to end with, and nothing is
/// waited for any more after that.
pub proof fn law_thread_ends_with_a_result(report: Report, next: Report)
    requires
        exists|phase: Phase| answers(phase, report),
    ensures
        phase_after(report) is Finished <==> result_after(report) is Some,
        phase_after(report) is Finished ==> !answers(phase_after(report), next),
{
}

/// The thread goes into its loop only if every step of its start has succeeded, in this order: a
/// Wayland display was found, its globals were listed, the event loop was made, the sources were
/// inserted, fractional scaling was tried, with the viewporter only where it was there, and the
/// globals were bound.
pub proof fn law_loop_follows_a_complete_start(reports: Seq<Report>)
    requires
        is_run(Phase::Display, reports),
        ({
            let end = phase_at_end(Phase::Display, reports);
            end is Announce || end is Closed || end is Dispatch
        }),
    ensures
        reports.len() >= 6,
        reports[0] == Report::Display(DisplayReport::Wayland),
        reports[1] matches Report::Registry(r) && r is Ok,
        reports[2] matches Report::EventLoop(r) && r is Ok,
        reports[3] is Sources,
        ({
            ||| reports[4] == Report::FractionalScaling(false) && reports[5] is Globals
            ||| {
                &&& reports[4] == Report::FractionalScaling(true)
                &&& reports.len() >= 7
                &&& reports[5] is Viewporter
                &&& reports[6] is Globals
            }
        }),
{
    lemma_answered(Phase::Display, reports, 0);
    if reports.len() > 1 {
        lemma_answered(Phase::Display, reports, 1);
    }
    if reports.len() > 2 {
        lemma_answered(Phase::Display, reports, 2);
    }
    if reports.len() > 3 {
        lemma_answered(Phase::Display, reports, 3);
    }
    if reports.len() > 4 {
        lemma_answered(Phase::Display, reports, 4);
    }
    if reports.len() > 5 {
        lemma_answered(Phase::Display, reports, 5);
    }
    if reports.len() > 6 {
        lemma_answered(Phase::Display, reports, 6);
    }
}

proof fn lemma_answered(start: Phase, reports: Seq<Report>, i: int)
    requires
        is_run(start, reports),
        0 <= i < reports.len(),
    ensures
        answers(
            if i == 0 {
                start
            } else {
                phase_after(reports[i - 1])
            },
            reports[i],
        ),
{
    reveal(is_run);
    assert(answers(phase_at_end(start, reports.take(i)), reports[i]));
    if i > 0 {
        assert(reports.take(i).last() == reports[i - 1]);
    }
}

proof fn lemma_shorter_run(start: Phase, reports: Seq<Report>)
    requires
        is_run(start, reports),
        reports.len() > 0,
    ensures
        is_run(start, reports.drop_last()),
        answers(phase_at_end(start, reports.drop_last()), reports.last()),
{
    reveal(is_run);
    let earlier = reports.drop_last();
    assert forall|i: int| 0 <= i < earlier.len() implies answers(
        phase_at_end(start, earlier.take(i)),
        #[trigger] earlier[i],
    ) by {
        assert(earlier.take(i) =~= reports.take(i));
        assert(reports[i] == earlier[i]);
    }
    assert(reports.take(reports.len() - 1) =~= earlier);
    assert(reports[reports.len() - 1] == reports.last());
}

/// A thread that has come into its loop stays in it, whether or not announcements and dispatches
/// succeed, until the channel to the application turns out to be closed.
pub proof fn law_loop_ends_only_when_the_application_is_gone(reports: Seq<Report>)
    requires
        is_run(Phase::Announce, reports),
        forall|i: int|
            0 <= i < reports.len() ==> #[trigger] reports[i] != Report::ChannelClosed(true),
    ensures
        ({
            let end = phase_at_end(Phase::Announce, reports);
            end is Announce || end is Closed || end is Dispatch
        }),
    decreases reports.len(),
{
    if reports.len() > 0 {
        lemma_shorter_run(Phase::Announce, reports);
        let earlier = reports.drop_last();
        assert(forall|i: int| 0 <= i < earlier.len() ==> earlier[i] == reports[i]);
        law_loop_ends_only_when_the_application_is_gone(earlier);
        assert(reports[reports.len() - 1] != Report::ChannelClosed(true));
    }
}

/// Whether the channel to the application is closed is found out only directly after an
/// announcement could not be sent.
pub proof fn law_channel_is_checked_after_a_failed_announcement(reports: Seq<Report>, i: int)
    requires
        is_run(Phase::Announce, reports),
        0 <= i < reports.len(),
        reports[i] is ChannelClosed,
    ensures
        i > 0,
        reports[i - 1] == Report::Announced(false),
{
    lemma_answered(Phase::Announce, reports, i);
}

/// A thread ends its loop exactly when an announcement could not be sent and, next, the channel to
/// the application turned out to be closed.
pub proof fn law_loop_ends_when_the_application_is_gone(reports: Seq<Report>)
    requires
        is_run(Phase::Announce, reports),
    ensures
        phase_at_end(Phase::Announce, reports) is Finished <==> {
            let n = reports.len() as int;
            &&& n >= 2
            &&& reports[n - 2] == Report::Announced(false)
            &&& reports[n - 1] == Report::ChannelClosed(true)
        },
{
    if reports.len() > 0 {
        lemma_shorter_run(Phase::Announce, reports);
        lemma_never_back(reports.drop_last());
        if reports.last() is ChannelClosed {
            law_channel_is_checked_after_a_failed_announcement(reports, reports.len() - 1);
        }
    }
}

/// A dispatch that failed is followed by the same turn as one that succeeded.
pub proof fn law_failed_dispatch_changes_nothing<P, I>(
    before: SctkStateView<P, I>,
    command: Command<P>,
)
    ensures
        phase_after(Report::Dispatched(false)) == phase_after(Report::Dispatched(true)),
        before.after_report(Report::Dispatched(false)) == before.after_report(
            Report::Dispatched(true),
        ),
        follows(command, before, Report::Dispatched(false)) <==> follows(
            command,
            before,
            Report::Dispatched(true),
        ),
{
}

/// Each round of the loop announces once: from the first announcement on, there were as many
/// attempts to tell the application that the thread is about to wait as there were dispatches, and
/// one more while the last one has not yet led to a dispatch.
pub proof fn law_one_announcement_per_dispatch(reports: Seq<Report>)
    requires
        is_run(Phase::Announce, reports),
    ensures
        reports.filter(|r: Report| r is Announced).len() == reports.filter(
            |r: Report| r is Dispatched,
        ).len() + (if phase_at_end(Phase::Announce, reports) is Announce {
            0int
        } else {
            1
        }),
    decreases reports.len(),
{
    reveal(Seq::filter);
    if reports.len() > 0 {
        lemma_shorter_run(Phase::Announce, reports);
        let earlier = reports.drop_last();
        law_one_announcement_per_dispatch(earlier);
        lemma_never_back(earlier);
    }
}

/// From its loop a thread never goes back to its start.
proof fn lemma_never_back(reports: Seq<Report>)
    requires
        is_run(Phase::Announce, reports),
    ensures
        ({
            let end = phase_at_end(Phase::Announce, reports);
            end is Announce || end is Closed || end is Dispatch || end is Finished
        }),
    decreases reports.len(),
{
    if reports.len() > 0 {
        lemma_shorter_run(Phase::Announce, reports);
        lemma_never_back(reports.drop_last());
    }
}

/// When the globals were bound, the application is told of subsurfaces exactly when they are
/// supported, which takes a subcompositor and a viewporter and nothing else. It is told once, of the
/// same that the state then holds, and there are no buffers and no subsurfaces in it yet.
pub proof fn law_subsurfaces_are_announced_iff_supported<P, I>(
    before: SctkStateView<P, I>,
    globals: BoundGlobals,
    outputs: Seq<Output<P>>,
)
    requires
        before.done_first(Report::Globals(globals), outputs),
    ensures
        ({
            let after = before.after_report(Report::Globals(globals));
            &&& after.subsurface_state is Some <==> globals.wl_subcompositor
                && globals.wp_viewporter
            &&& match after.subsurface_state {
                Some(state) => {
                    &&& outputs.len() == 1
                    &&& outputs[0] matches Output::SendEvent(SctkEvent::Subcompositor(sent))
                    &&& sent@ == state
                    &&& state.wp_dmabuf == globals.wp_dmabuf
                    &&& state.wp_alpha_modifier == globals.wp_alpha_modifier
                    &&& state.buffers == Map::<u64, u64>::empty()
                    &&& state.unmapped_subsurfaces.len() == 0
                    &&& state.new_iced_subsurfaces.len() == 0
                },
                None => outputs.len() == 0,
            }
        }),
{
}

proof fn lemma_loop_follows_globals(reports: Seq<Report>, i: int, j: int)
    requires
        is_run(Phase::Display, reports),
        0 <= i < j < reports.len(),
        reports[i] is Globals || reports[i] is Announced || reports[i] is ChannelClosed
            || reports[i] is Dispatched,
    ensures
        reports[j] is Announced || reports[j] is ChannelClosed || reports[j] is Dispatched,
    decreases j,
{
    lemma_answered(Phase::Display, reports, j);
    if i < j - 1 {
        lemma_loop_follows_globals(reports, i, j - 1);
    }
}

/// The globals are bound once, and before the first announcement: so the application is told of
/// subsurfaces, if it is told, once and before it hears that the thread is about to wait.
pub proof fn law_globals_are_bound_once_before_the_loop(reports: Seq<Report>, i: int, j: int)
    requires
        is_run(Phase::Display, reports),
        0 <= i < reports.len(),
        0 <= j < reports.len(),
        reports[i] is Globals,
    ensures
        reports[j] is Globals ==> i == j,
        reports[j] is Announced ==> i < j,
{
    if i < j {
        lemma_loop_follows_globals(reports, i, j);
    } else if j < i && (reports[j] is Globals || reports[j] is Announced) {
        lemma_loop_follows_globals(reports, j, i);
    }
}

/// Only a dispatch is followed by a turn: no other report touches the frame table, the collected
/// events, or what the application was told of.
pub proof fn law_start_leaves_the_surfaces_alone<P, I>(
    before: SctkStateView<P, I>,
    report: Report,
)
    requires
        !(report is Dispatched),
    ensures
        before.after_report(report) == (SctkStateView {
            protocols: before.after_report(report).protocols,
            subsurface_state: before.after_report(report).subsurface_state,
            ..before
        }),
{
}

} // verus!
