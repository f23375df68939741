use sctk_event_loop::event::{
    Control, LayerSurfaceEventVariant, Output, SctkEvent, SubsurfaceEventVariant, WindowEvent,
};
use sctk_event_loop::frame::FrameStatus;
use sctk_event_loop::state::SctkState;
use sctk_event_loop::surface::{PhysicalSize, Surface};
use winit::window::WindowId;

type State = SctkState<&'static str, u8>;

fn redraw(address: u64) -> Output<&'static str> {
    Output::Send(Control::Winit(address, WindowEvent::RedrawRequested))
}

fn ready(state: &mut State, id: u64) {
    state.frame_status.insert(id, FrameStatus::Ready);
    state.id_map.insert(id, 1000 + id);
}

#[test]
fn an_idle_turn_does_nothing() {
    let mut state = State::new();
    state.layer_surfaces.push(Surface { id: 1, address: 100 });
    assert_eq!(state.turn(), vec![]);
    assert!(state.frame_status.is_empty());
}

#[test]
fn ready_surfaces_are_redrawn_in_order() {
    let mut state = State::new();
    state.lock_surfaces.push(Surface { id: 3, address: 300 });
    state.popups.push(Surface { id: 2, address: 200 });
    state.layer_surfaces.push(Surface { id: 4, address: 400 });
    state.layer_surfaces.push(Surface { id: 1, address: 100 });
    for id in 1..5 {
        ready(&mut state, id);
    }
    assert_eq!(
        state.turn(),
        vec![
            Output::RequestFrame(4),
            redraw(400),
            Output::RequestFrame(1),
            redraw(100),
            Output::RequestFrame(2),
            redraw(200),
            Output::RequestFrame(3),
            redraw(300),
            Output::WakeUp,
        ]
    );
    assert!(state.frame_status.is_empty());
}

#[test]
fn surfaces_that_are_not_ready_wait() {
    let mut state = State::new();
    for id in 1..5 {
        state.popups.push(Surface { id, address: 100 * id });
        state.id_map.insert(id, id);
    }
    state.frame_status.insert(1, FrameStatus::Received);
    state.frame_status.insert(2, FrameStatus::RequestedRedraw);
    state.frame_status.insert(3, FrameStatus::Ready);
    state.id_map.remove(&3);
    // Ready and known, but not listed.
    ready(&mut state, 9);
    assert_eq!(state.turn(), vec![]);
    assert_eq!(state.frame_status.len(), 4);
    assert_eq!(state.frame_status.get(&3), Some(&FrameStatus::Ready));
    assert_eq!(state.frame_status.get(&9), Some(&FrameStatus::Ready));
}

#[test]
fn a_surface_listed_twice_is_redrawn_once() {
    let mut state = State::new();
    state.layer_surfaces.push(Surface { id: 1, address: 100 });
    state.popups.push(Surface { id: 1, address: 101 });
    ready(&mut state, 1);
    assert_eq!(state.turn(), vec![Output::RequestFrame(1), redraw(100), Output::WakeUp]);
}

#[test]
fn a_redrawn_surface_is_not_redrawn_again() {
    let mut state = State::new();
    state.popups.push(Surface { id: 1, address: 100 });
    ready(&mut state, 1);
    assert_eq!(state.turn().len(), 3);
    assert_eq!(state.turn(), vec![]);
}

#[test]
fn the_window_of_a_redraw_is_that_of_the_surface() {
    let address = 0x7f00_dead_beef_u64;
    let mut state = State::new();
    state.popups.push(Surface { id: 1, address });
    ready(&mut state, 1);
    match &state.turn()[1] {
        Output::Send(Control::Winit(window, WindowEvent::RedrawRequested)) => {
            assert_eq!(WindowId::from(*window), WindowId::from(address));
            assert_eq!(*window, u64::from(WindowId::from(address)));
        }
        other => panic!("{:?}", other),
    }
}

#[test]
fn events_are_forwarded_once_and_in_order() {
    let mut state = State::new();
    state.sctk_events.push(SctkEvent::Other("first"));
    state.sctk_events.push(SctkEvent::Winit(5, WindowEvent::Other("second")));
    state.sctk_events.push(SctkEvent::Winit(5, WindowEvent::RedrawRequested));
    let resized = SubsurfaceEventVariant::Resized(8, PhysicalSize { width: 2, height: 3 });
    state.sctk_events.push(SctkEvent::SubsurfaceEvent(resized));
    assert_eq!(
        state.turn(),
        vec![
            Output::Send(Control::PlatformSpecific(SctkEvent::Other("first"))),
            Output::Send(Control::Winit(5, WindowEvent::Other("second"))),
            Output::Send(Control::Winit(5, WindowEvent::RedrawRequested)),
            Output::Send(Control::PlatformSpecific(SctkEvent::SubsurfaceEvent(resized))),
            Output::WakeUp,
        ]
    );
    assert!(state.sctk_events.is_empty());
    assert_eq!(state.turn(), vec![]);
}

#[test]
fn a_created_layer_surface_receives_a_frame() {
    let mut state = State::new();
    state.layer_surfaces.push(Surface { id: 1, address: 100 });
    state.layer_surfaces.push(Surface { id: 2, address: 200 });
    state.layer_surfaces.push(Surface { id: 3, address: 300 });
    for id in 1..4 {
        state.id_map.insert(id, id);
    }
    state.frame_status.insert(2, FrameStatus::RequestedRedraw);
    state.frame_status.insert(3, FrameStatus::RequestedRedraw);
    for id in 1..3 {
        state.sctk_events.push(SctkEvent::LayerSurfaceEvent {
            variant: LayerSurfaceEventVariant::Created("new"),
            id,
        });
    }
    state.sctk_events.push(SctkEvent::LayerSurfaceEvent {
        variant: LayerSurfaceEventVariant::Other("done"),
        id: 3,
    });
    let outputs = state.turn();
    assert_eq!(outputs.len(), 4);
    assert_eq!(outputs[3], Output::WakeUp);
    assert_eq!(state.frame_status.get(&1), Some(&FrameStatus::Received));
    assert_eq!(state.frame_status.get(&2), Some(&FrameStatus::Ready));
    assert_eq!(state.frame_status.get(&3), Some(&FrameStatus::RequestedRedraw));
    // The one that was waiting for its frame is redrawn in the next turn.
    assert_eq!(state.turn(), vec![Output::RequestFrame(2), redraw(200), Output::WakeUp]);
}

#[test]
fn redraws_come_before_events() {
    let mut state = State::new();
    state.popups.push(Surface { id: 1, address: 100 });
    ready(&mut state, 1);
    state.sctk_events.push(SctkEvent::Other("event"));
    assert_eq!(
        state.turn(),
        vec![
            Output::RequestFrame(1),
            redraw(100),
            Output::Send(Control::PlatformSpecific(SctkEvent::Other("event"))),
            Output::WakeUp,
        ]
    );
}
