use sctk_event_loop::error::Error;
use sctk_event_loop::event::{Control, Output, SctkEvent, SubsurfaceState};
use sctk_event_loop::event_loop::{
    start_result, Command, DisplayReport, Phase, Report, SctkEventLoop,
};
use sctk_event_loop::globals::{BoundGlobals, Global};
use sctk_event_loop::surface::SubsurfaceInstance;
use std::collections::HashMap;
use wayland_client::globals::GlobalError;

type Thread = SctkEventLoop<u8, u8>;

fn all_globals() -> BoundGlobals {
    BoundGlobals {
        compositor_state: true,
        shm_state: true,
        xdg_shell_state: true,
        layer_shell: true,
        activation_state: true,
        overlap_notify: true,
        toplevel_info: true,
        toplevel_manager: true,
        wl_compositor: true,
        wl_subcompositor: true,
        wp_viewporter: true,
        wl_shm: true,
        wp_dmabuf: true,
        wp_alpha_modifier: true,
    }
}

fn started() -> Thread {
    let mut thread = Thread::new();
    thread.advance(Report::Display(DisplayReport::Wayland));
    thread.advance(Report::Registry(Ok(())));
    thread.advance(Report::EventLoop(Ok(())));
    thread
}

fn running() -> Thread {
    let mut thread = started();
    thread.advance(Report::Sources);
    thread.advance(Report::FractionalScaling(false));
    thread.advance(Report::Globals(all_globals()));
    thread
}

#[test]
fn a_thread_without_a_display_ends() {
    let mut thread = Thread::new();
    assert!(matches!(
        thread.advance(Report::Display(DisplayReport::Unavailable)),
        Command::Exit(Err(Error::NoDisplayHandle))
    ));
    assert_eq!(thread.phase, Phase::Finished);
}

#[test]
fn a_thread_on_another_display_ends() {
    let mut thread = Thread::new();
    assert!(matches!(
        thread.advance(Report::Display(DisplayReport::Foreign)),
        Command::Exit(Err(Error::NoWaylandDisplay))
    ));
    assert_eq!(thread.phase, Phase::Finished);
}

#[test]
fn a_thread_without_a_registry_ends() {
    let mut thread = Thread::new();
    assert!(matches!(
        thread.advance(Report::Display(DisplayReport::Wayland)),
        Command::InitRegistry
    ));
    let error = GlobalError::InvalidId(wayland_backend::client::InvalidId);
    assert!(matches!(
        thread.advance(Report::Registry(Err(error))),
        Command::Exit(Err(Error::Global(GlobalError::InvalidId(_))))
    ));
}

#[test]
fn a_thread_without_an_event_loop_ends() {
    let mut thread = Thread::new();
    thread.advance(Report::Display(DisplayReport::Wayland));
    assert!(matches!(thread.advance(Report::Registry(Ok(()))), Command::CreateEventLoop));
    assert!(matches!(
        thread.advance(Report::EventLoop(Err(calloop::Error::InvalidToken))),
        Command::Exit(Err(Error::Calloop(calloop::Error::InvalidToken)))
    ));
}

#[test]
fn the_viewporter_is_bound_only_with_fractional_scaling() {
    let mut thread = started();
    assert!(matches!(thread.advance(Report::Sources), Command::BindFractionalScaling));
    assert!(matches!(thread.advance(Report::FractionalScaling(true)), Command::BindViewporter));
    assert!(matches!(thread.advance(Report::Viewporter(true)), Command::BindGlobals));
    assert!(thread.state.protocols.fractional_scaling_manager);
    assert!(thread.state.protocols.viewporter_state);

    let mut thread = started();
    thread.advance(Report::Sources);
    assert!(matches!(thread.advance(Report::FractionalScaling(false)), Command::BindGlobals));
    assert!(!thread.state.protocols.fractional_scaling_manager);
    assert!(!thread.state.protocols.viewporter_state);

    let mut thread = started();
    thread.advance(Report::Sources);
    thread.advance(Report::FractionalScaling(true));
    assert!(matches!(thread.advance(Report::Viewporter(false)), Command::BindGlobals));
    assert!(thread.state.protocols.fractional_scaling_manager);
    assert!(!thread.state.protocols.viewporter_state);
}

fn announced_after(globals: BoundGlobals) -> (Vec<Output<u8>>, Option<SubsurfaceState>) {
    let mut thread = started();
    thread.advance(Report::Sources);
    thread.advance(Report::FractionalScaling(false));
    match thread.advance(Report::Globals(globals)) {
        Command::Announce(outputs) => (outputs, thread.state.subsurface_state),
        _ => panic!("an announcement was due"),
    }
}

#[test]
fn subsurfaces_take_a_subcompositor_and_a_viewporter() {
    let mut globals = all_globals();
    globals.wp_alpha_modifier = false;
    let state = SubsurfaceState {
        wp_dmabuf: true,
        wp_alpha_modifier: false,
        buffers: HashMap::new(),
        unmapped_subsurfaces: vec![],
        new_iced_subsurfaces: vec![],
    };
    assert_eq!(
        announced_after(globals),
        (vec![Output::SendEvent(SctkEvent::Subcompositor(state.clone()))], Some(state))
    );
    globals.wl_subcompositor = false;
    assert_eq!(announced_after(globals), (vec![], None));
    globals.wl_subcompositor = true;
    globals.wp_viewporter = false;
    assert_eq!(announced_after(globals), (vec![], None));
}

#[test]
fn a_clone_of_the_subsurface_state_holds_the_same() {
    let state = SubsurfaceState {
        wp_dmabuf: false,
        wp_alpha_modifier: true,
        buffers: HashMap::from([(1, 2), (3, 4)]),
        unmapped_subsurfaces: vec![SubsurfaceInstance {
            wl_surface: 5,
            wl_subsurface: 6,
            parent: 7,
        }],
        new_iced_subsurfaces: vec![8, 9],
    };
    assert_eq!(state.clone(), state);
}

#[test]
fn optional_protocols_are_noted() {
    let mut globals = all_globals();
    globals.layer_shell = false;
    globals.toplevel_manager = false;
    let mut thread = started();
    thread.advance(Report::Sources);
    thread.advance(Report::FractionalScaling(true));
    thread.advance(Report::Viewporter(true));
    thread.advance(Report::Globals(globals));
    let protocols = thread.state.protocols;
    assert!(!protocols.layer_shell && !protocols.toplevel_manager);
    assert!(protocols.activation_state && protocols.overlap_notify && protocols.toplevel_info);
    assert!(protocols.fractional_scaling_manager && protocols.viewporter_state);
}

#[test]
fn some_globals_cannot_be_done_without() {
    assert!(all_globals().is_sufficient());
    let mut globals = all_globals();
    globals.wl_shm = false;
    assert!(!globals.is_sufficient());
    let mut globals = all_globals();
    globals.layer_shell = false;
    globals.wl_subcompositor = false;
    assert!(globals.is_sufficient());
}

#[test]
fn each_global_has_its_versions() {
    assert_eq!(Global::Compositor.versions(), (1, 6));
    assert_eq!(Global::Subcompositor.versions(), (1, 1));
    assert_eq!(Global::Viewporter.versions(), (1, 1));
    assert_eq!(Global::Shm.versions(), (1, 1));
    assert_eq!(Global::Dmabuf.versions(), (2, 4));
    assert_eq!(Global::AlphaModifier.versions(), (1, 1));
}

#[test]
fn the_loop_announces_and_dispatches_in_turn() {
    let mut thread = running();
    // The second dispatch fails, which changes nothing.
    for round in 0..3 {
        assert!(matches!(thread.advance(Report::Announced(true)), Command::Dispatch));
        thread.state.sctk_events.push(SctkEvent::Other(5));
        match thread.advance(Report::Dispatched(round != 1)) {
            Command::Announce(outputs) => assert_eq!(
                outputs,
                vec![
                    Output::Send(Control::PlatformSpecific(SctkEvent::Other(5))),
                    Output::WakeUp
                ]
            ),
            _ => panic!("an announcement was due"),
        }
    }
}

#[test]
fn a_failed_announcement_ends_the_loop_only_if_the_channel_is_closed() {
    let mut thread = running();
    assert!(matches!(thread.advance(Report::Announced(false)), Command::CheckClosed));
    assert!(matches!(thread.advance(Report::ChannelClosed(false)), Command::Dispatch));
    assert!(matches!(thread.advance(Report::Dispatched(true)), Command::Announce(_)));
    assert!(matches!(thread.advance(Report::Announced(false)), Command::CheckClosed));
    assert!(matches!(thread.advance(Report::ChannelClosed(true)), Command::Exit(Ok(()))));
    assert_eq!(thread.phase, Phase::Finished);
}

#[test]
fn only_a_panic_keeps_the_sender_back() {
    assert_eq!(start_result::<u8, &str>(1, None), Ok(1));
    assert_eq!(start_result::<u8, &str>(1, Some(Ok(Ok(())))), Ok(1));
    assert_eq!(start_result::<u8, &str>(1, Some(Ok(Err(Error::NoDisplayHandle)))), Ok(1));
    assert_eq!(start_result::<u8, &str>(1, Some(Err("panicked"))), Err("panicked"));
}

#[test]
fn connection_errors_have_their_variant() {
    let error = Error::Connect(wayland_client::ConnectError::NoCompositor);
    assert!(matches!(error, Error::Connect(wayland_client::ConnectError::NoCompositor)));
}
