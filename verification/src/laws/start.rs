//! How the thread starts, goes on and ends, and what its state and the globals hold.

use crate::error::Error;
use crate::event::SubsurfaceState;
use crate::event_loop::{
    answers, follows, phase_after, start_result, Command, DisplayReport, Phase, Report,
};
use crate::globals::{BoundGlobals, Global};
use crate::state::{Protocols, SctkState, SctkStateView};
use calloop::Error as CalloopError;
use vstd::prelude::*;
use wayland_client::globals::GlobalError;

verus! {

/// In each phase exactly the reports of that phase are taken, with whatever they say; only globals
/// must include those without which the thread cannot go on. In the last phase none is taken.
pub proof fn law_each_phase_takes_its_reports(phase: Phase, report: Report)
    ensures
        answers(phase, report) <==> (match phase {
            Phase::Display => report is Display,
            Phase::Registry => report is Registry,
            Phase::EventLoop => report is EventLoop,
            Phase::Sources => report is Sources,
            Phase::FractionalScaling => report is FractionalScaling,
            Phase::Viewporter => report is Viewporter,
            Phase::Globals => report matches Report::Globals(globals) && globals.compositor_state
                && globals.shm_state && globals.xdg_shell_state && globals.wl_compositor
                && globals.wl_shm,
            Phase::Announce => report is Announced,
            Phase::Closed => report is ChannelClosed,
            Phase::Dispatch => report is Dispatched,
            Phase::Finished => false,
        }),
{
}

/// What is waited for after a report is always what the command that follows it sets going.
pub proof fn law_thread_waits_for_what_it_asked<P, I>(
    before: SctkStateView<P, I>,
    report: Report,
    command: Command<P>,
)
    requires
        follows(command, before, report),
    ensures
        phase_after(report) == (match command {
            Command::InitRegistry => Phase::Registry,
            Command::CreateEventLoop => Phase::EventLoop,
            Command::InsertSources => Phase::Sources,
            Command::BindFractionalScaling => Phase::FractionalScaling,
            Command::BindViewporter => Phase::Viewporter,
            Command::BindGlobals => Phase::Globals,
            Command::Announce(_) => Phase::Announce,
            Command::CheckClosed => Phase::Closed,
            Command::Dispatch => Phase::Dispatch,
            Command::Exit(_) => Phase::Finished,
        }),
{
}

/// Each step is taken exactly on the success of the one before it. The viewporter is bound only
/// where fractional scaling was; an announcement follows the globals and each dispatch, whether or
/// not it succeeded; and after an announcement that failed it is asked whether the application is
/// gone, before the next dispatch.
pub proof fn law_each_step_follows_the_one_before<P, I>(
    before: SctkStateView<P, I>,
    report: Report,
    command: Command<P>,
)
    requires
        follows(command, before, report),
    ensures
        command is InitRegistry <==> report == Report::Display(DisplayReport::Wayland),
        command is CreateEventLoop <==> (report matches Report::Registry(r) && r is Ok),
        command is InsertSources <==> (report matches Report::EventLoop(r) && r is Ok),
        command is BindFractionalScaling <==> report is Sources,
        command is BindViewporter <==> report == Report::FractionalScaling(true),
        command is BindGlobals <==> report == Report::FractionalScaling(false)
            || report is Viewporter,
        command is Announce <==> report is Globals || report is Dispatched,
        command is CheckClosed <==> report == Report::Announced(false),
        command is Dispatch <==> report == Report::Announced(true) || report
            == Report::ChannelClosed(false),
{
}

/// The thread ends only with a result that tells why: without a display handle, with one of another
/// window system, with the error of the globals or that of the event loop, which it hands on, or
/// well, because the application is gone.
pub proof fn law_result_tells_why_the_thread_ended<P, I>(
    before: SctkStateView<P, I>,
    report: Report,
    command: Command<P>,
    global: GlobalError,
    calloop: CalloopError,
)
    requires
        follows(command, before, report),
    ensures
        command == Command::<P>::Exit(Err(Error::NoDisplayHandle)) <==> report == Report::Display(
            DisplayReport::Unavailable,
        ),
        command == Command::<P>::Exit(Err(Error::NoWaylandDisplay)) <==> report == Report::Display(
            DisplayReport::Foreign,
        ),
        command == Command::<P>::Exit(Err(Error::Global(global))) <==> report == Report::Registry(
            Err(global),
        ),
        command == Command::<P>::Exit(Err(Error::Calloop(calloop))) <==> report
            == Report::EventLoop(Err(calloop)),
        (command matches Command::Exit(r) && r is Ok) <==> report == Report::ChannelClosed(true),
{
}

/// A round of the loop is a turn: what the turn gives is done before the next announcement, and
/// nothing besides.
pub proof fn law_a_dispatch_is_followed_by_a_turn<P, I>(
    before: SctkStateView<P, I>,
    report: Report,
    command: Command<P>,
)
    requires
        follows(command, before, report),
        report is Dispatched,
    ensures
        command matches Command::Announce(first) && first@ == before.turn_outputs(),
        before.after_report(report) == before.after_turn(),
{
}

/// What was bound is noted, each in its own place, and nothing else is touched: fractional scaling
/// and its viewporter on their own reports, the five other optional protocols with the globals.
pub proof fn law_bound_protocols_are_noted<P, I>(before: SctkStateView<P, I>, report: Report)
    requires
        !(report is Dispatched),
    ensures
        ({
            let after = before.after_report(report);
            let (old_p, new_p) = (before.protocols, after.protocols);
            &&& new_p.fractional_scaling_manager == (match report {
                Report::FractionalScaling(bound) => bound,
                _ => old_p.fractional_scaling_manager,
            })
            &&& new_p.viewporter_state == (match report {
                Report::Viewporter(bound) => bound,
                _ => old_p.viewporter_state,
            })
            &&& match report {
                Report::Globals(globals) => {
                    &&& new_p.layer_shell == globals.layer_shell
                    &&& new_p.activation_state == globals.activation_state
                    &&& new_p.overlap_notify == globals.overlap_notify
                    &&& new_p.toplevel_info == globals.toplevel_info
                    &&& new_p.toplevel_manager == globals.toplevel_manager
                },
                _ => {
                    &&& new_p.layer_shell == old_p.layer_shell
                    &&& new_p.activation_state == old_p.activation_state
                    &&& new_p.overlap_notify == old_p.overlap_notify
                    &&& new_p.toplevel_info == old_p.toplevel_info
                    &&& new_p.toplevel_manager == old_p.toplevel_manager
                    &&& after.subsurface_state == before.subsurface_state
                },
            }
            &&& after == (SctkStateView {
                protocols: new_p,
                subsurface_state: after.subsurface_state,
                ..before
            })
        }),
{
}

/// Whoever starts the thread gets the sender, that very one, unless the thread was seen to have
/// died of a panic: then it gets what the panic left.
pub proof fn law_only_a_panic_is_reported<S, E>(
    sender: S,
    ended: Option<Result<Result<(), Error>, E>>,
    result: Result<S, E>,
)
    requires
        call_ensures(start_result::<S, E>, (sender, ended), result),
    ensures
        result is Err <==> ended is Some && ended->0 is Err,
        result matches Ok(given) ==> given == sender,
        result matches Err(panic) ==> ended == Some(Err::<Result<(), Error>, E>(panic)),
{
}

/// At first nothing is bound, nothing is there and nothing has happened.
pub proof fn law_nothing_is_known_at_first<P, I>(id: u64)
    ensures
        ({
            let state = SctkStateView::<P, I>::initial();
            let p = state.protocols;
            &&& !p.fractional_scaling_manager && !p.viewporter_state && !p.layer_shell
            &&& !p.activation_state && !p.overlap_notify && !p.toplevel_info && !p.toplevel_manager
            &&& state.seats.len() == 0
            &&& state.windows.len() == 0
            &&& state.layer_surfaces.len() == 0
            &&& state.popups.len() == 0
            &&& state.lock_surfaces.len() == 0
            &&& state.subsurfaces.len() == 0
            &&& state.sctk_events.len() == 0
            &&& !state.frame_status.contains_key(id)
            &&& !state.id_map.contains_key(id)
            &&& !state.destroyed.contains(id)
            &&& state.activation_token_ctr == 0
            &&& state.subsurface_state is None
        }),
{
}

/// The contents of a state are those of its fields, each under its own name, and so are those of
/// what subsurfaces are made with.
pub proof fn law_contents_are_those_of_the_fields<P, I>(state: SctkState<P, I>, s: SubsurfaceState)
    ensures
        state@.protocols == state.protocols,
        state@.seats == state.seats@,
        state@.windows == state.windows@,
        state@.layer_surfaces == state.layer_surfaces@,
        state@.popups == state.popups@,
        state@.lock_surfaces == state.lock_surfaces@,
        state@.subsurfaces == state.subsurfaces@,
        state@.sctk_events == state.sctk_events@,
        state@.frame_status == state.frame_status@,
        state@.id_map == state.id_map@,
        state@.destroyed == state.destroyed@,
        state@.activation_token_ctr == state.activation_token_ctr,
        state@.subsurface_state is Some <==> state.subsurface_state is Some,
        state.subsurface_state matches Some(held) ==> state@.subsurface_state == Some(held@),
        s@.wp_dmabuf == s.wp_dmabuf,
        s@.wp_alpha_modifier == s.wp_alpha_modifier,
        s@.buffers == s.buffers@,
        s@.unmapped_subsurfaces == s.unmapped_subsurfaces@,
        s@.new_iced_subsurfaces == s.new_iced_subsurfaces@,
{
}

/// Globals suffice exactly if none of the five is missing without which the thread cannot go on;
/// they serve for subsurfaces exactly if there is a subcompositor and a viewporter. What subsurfaces
/// are then made with tells of dma-bufs and of translucence as they were bound, and holds nothing
/// yet. Of the optional protocols they set five, and leave those for scaling.
pub proof fn law_what_globals_are_good_for(globals: BoundGlobals, protocols: Protocols, key: u64)
    ensures
        !globals.sufficient() <==> !globals.compositor_state || !globals.shm_state
            || !globals.xdg_shell_state || !globals.wl_compositor || !globals.wl_shm,
        globals.subsurface_state() is None <==> !globals.wl_subcompositor || !globals.wp_viewporter,
        globals.subsurface_state() matches Some(s) ==> {
            &&& s.wp_dmabuf == globals.wp_dmabuf
            &&& s.wp_alpha_modifier == globals.wp_alpha_modifier
            &&& !s.buffers.contains_key(key)
            &&& s.unmapped_subsurfaces.len() == 0
            &&& s.new_iced_subsurfaces.len() == 0
        },
        globals.added_to(protocols).fractional_scaling_manager
            == protocols.fractional_scaling_manager,
        globals.added_to(protocols).viewporter_state == protocols.viewporter_state,
        globals.added_to(protocols).layer_shell == globals.layer_shell,
        globals.added_to(protocols).activation_state == globals.activation_state,
        globals.added_to(protocols).overlap_notify == globals.overlap_notify,
        globals.added_to(protocols).toplevel_info == globals.toplevel_info,
        globals.added_to(protocols).toplevel_manager == globals.toplevel_manager,
{
}

/// A version of a global can be bound exactly if it is the first one, or one of the compositor up to
/// the sixth; of dma-bufs, exactly if it is from the second to the fourth.
pub proof fn law_versions_that_can_be_bound(global: Global, version: u32)
    ensures
        global.lowest() <= version <= global.highest() <==> {
            ||| version == 1 && !(global is Dmabuf)
            ||| 2 <= version <= 6 && global is Compositor
            ||| 2 <= version <= 4 && global is Dmabuf
        },
{
}

} // verus!
