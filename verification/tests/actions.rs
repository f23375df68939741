use sctk_event_loop::event::{Action, ChannelEvent, Effect, SubsurfaceEventVariant};
use sctk_event_loop::frame::FrameStatus;
use sctk_event_loop::state::SctkState;
use sctk_event_loop::surface::{
    Gravity, PhysicalSize, SctkSeat, SctkSubsurface, SctkWindow, Shift, SubsurfaceInstance, Surface,
};

type State = SctkState<u8, &'static str>;
type Request = Action<u32, &'static str>;
type Done = Effect<u32, &'static str>;

fn instance(id: u64, parent: u64) -> SubsurfaceInstance {
    SubsurfaceInstance { wl_surface: 10 + id, wl_subsurface: 20 + id, parent }
}

fn child(id: u64, parent: u64) -> SctkSubsurface {
    SctkSubsurface { id, instance: instance(id, parent), gravity: Some(Gravity::BottomRight) }
}

fn destroyed(id: u64, parent: u64) -> Vec<Done> {
    vec![
        Effect::RemoveIcedSubsurface(10 + id),
        Effect::SendEvent(SubsurfaceEventVariant::Destroyed(instance(id, parent))),
    ]
}

fn ids(state: &State) -> Vec<u64> {
    state.subsurfaces.iter().map(|s| s.id).collect()
}

#[test]
fn an_action_is_passed_on() {
    let mut state = State::new();
    assert_eq!(state.handle_message(Request::Action(42)), vec![Effect::HandleAction(42)]);
}

#[test]
fn windows_are_tracked_and_removed() {
    let mut state = State::new();
    assert_eq!(state.handle_message(Request::TrackWindow(100, 1)), vec![]);
    assert_eq!(state.handle_message(Request::TrackWindow(200, 2)), vec![]);
    assert_eq!(
        state.windows,
        vec![SctkWindow { id: 1, window: 100 }, SctkWindow { id: 2, window: 200 }]
    );
    assert!(state.can_remove_window(1));
    assert_eq!(state.handle_message(Request::RemoveWindow(1)), vec![]);
    assert_eq!(state.windows, vec![SctkWindow { id: 2, window: 200 }]);
}

#[test]
fn only_the_first_of_two_windows_with_one_identifier_goes() {
    let mut state = State::new();
    state.handle_message(Request::TrackWindow(100, 1));
    state.handle_message(Request::TrackWindow(200, 1));
    state.handle_message(Request::RemoveWindow(1));
    assert_eq!(state.windows, vec![SctkWindow { id: 1, window: 200 }]);
}

#[test]
fn removing_an_unknown_window_does_nothing() {
    let mut state = State::new();
    state.handle_message(Request::TrackWindow(100, 1));
    state.subsurfaces.push(child(5, 100));
    assert!(state.can_remove_window(9));
    assert_eq!(state.handle_message(Request::RemoveWindow(9)), vec![]);
    assert_eq!(state.windows.len(), 1);
    assert_eq!(ids(&state), vec![5]);
}

#[test]
fn the_only_subsurface_of_a_window_goes_with_it() {
    let mut state = State::new();
    state.handle_message(Request::TrackWindow(100, 1));
    state.subsurfaces.push(child(5, 200));
    state.subsurfaces.push(child(6, 100));
    state.subsurfaces.push(child(7, 200));
    assert!(state.can_remove_window(1));
    assert_eq!(state.handle_message(Request::RemoveWindow(1)), destroyed(6, 100));
    assert_eq!(ids(&state), vec![5, 7]);
    assert!(state.windows.is_empty());
}

#[test]
fn later_removals_reach_further_back() {
    // Children at positions 0, 2 and 3: the positions are taken as they were before any removal.
    let mut state = State::new();
    state.handle_message(Request::TrackWindow(100, 1));
    for (id, parent) in [(0, 100), (1, 7), (2, 100), (3, 100), (4, 7), (5, 7)] {
        state.subsurfaces.push(child(id, parent));
    }
    assert!(state.can_remove_window(1));
    let mut expected = destroyed(0, 100);
    expected.extend(destroyed(3, 100));
    expected.extend(destroyed(5, 7));
    assert_eq!(state.handle_message(Request::RemoveWindow(1)), expected);
    assert_eq!(ids(&state), vec![1, 2, 4]);
}

#[test]
fn a_removal_out_of_range_is_noticed() {
    let mut state = State::new();
    state.handle_message(Request::TrackWindow(100, 1));
    state.subsurfaces.push(child(5, 100));
    state.subsurfaces.push(child(6, 100));
    assert!(!state.can_remove_window(1));
    assert!(!state.accepts(&Request::RemoveWindow(1)));
    state.subsurfaces.push(child(7, 9));
    assert!(state.can_remove_window(1));
}

#[test]
fn the_first_seat_gets_the_cursor() {
    let mut state = State::new();
    assert_eq!(state.handle_message(Request::SetCursor("text")), vec![]);
    state.seats.push(SctkSeat { icon: None });
    state.seats.push(SctkSeat { icon: None });
    assert_eq!(state.handle_message(Request::SetCursor("text")), vec![Effect::SetCursor("text")]);
    assert_eq!(state.seats, vec![SctkSeat { icon: Some("text") }, SctkSeat { icon: None }]);
}

#[test]
fn a_redraw_request_is_recorded() {
    let mut state = State::new();
    assert_eq!(state.handle_message(Request::RequestRedraw(3)), vec![]);
    assert_eq!(state.frame_status.get(&3), Some(&FrameStatus::RequestedRedraw));
    state.frame_status.insert(4, FrameStatus::Received);
    state.handle_message(Request::RequestRedraw(4));
    state.handle_message(Request::RequestRedraw(4));
    assert_eq!(state.frame_status.get(&4), Some(&FrameStatus::Ready));
}

#[test]
fn a_requested_redraw_comes_with_the_frame() {
    let mut state = State::new();
    state.popups.push(Surface { id: 4, address: 400 });
    state.id_map.insert(4, 1);
    state.handle_message(Request::RequestRedraw(4));
    assert_eq!(state.turn().len(), 0);
    state.frame_status.insert(4, FrameStatus::Received);
    state.handle_message(Request::RequestRedraw(4));
    assert_eq!(state.turn().len(), 3);
}

#[test]
fn dropped_surfaces_are_forgotten() {
    let mut state = State::new();
    state.destroyed.insert(1);
    state.destroyed.insert(2);
    assert_eq!(state.handle_message(Request::Dropped(1)), vec![]);
    assert_eq!(state.handle_message(Request::Dropped(1)), vec![]);
    assert!(!state.destroyed.contains(&1));
    assert!(state.destroyed.contains(&2));
}

#[test]
fn a_resized_subsurface_is_placed_and_reported() {
    let size = PhysicalSize { width: 30, height: 40 };
    let mut state = State::new();
    let mut first = child(5, 100);
    first.gravity = Some(Gravity::Top);
    state.subsurfaces.push(first);
    assert_eq!(
        state.handle_message(Request::SubsurfaceResize(5, size)),
        vec![
            Effect::SetPosition { wl_subsurface: 25, size, x: Shift::Half, y: Shift::Full },
            Effect::SendEvent(SubsurfaceEventVariant::Resized(5, size)),
        ]
    );
    assert_eq!(
        state.handle_message(Request::SubsurfaceResize(6, size)),
        vec![Effect::SendEvent(SubsurfaceEventVariant::Resized(6, size))]
    );
    assert_eq!(ids(&state), vec![5]);
}

#[test]
fn a_subsurface_without_a_placement_is_noticed() {
    let size = PhysicalSize { width: 30, height: 40 };
    let mut state = State::new();
    let mut first = child(5, 100);
    first.gravity = None;
    state.subsurfaces.push(first);
    assert!(!state.can_resize_subsurface(5));
    assert!(state.can_resize_subsurface(6));
    assert!(!state.accepts(&Request::SubsurfaceResize(5, size)));
    assert!(state.accepts(&Request::SubsurfaceResize(6, size)));
    assert!(state.accepts(&Request::RequestRedraw(5)));
}

#[test]
fn the_end_of_the_channel_changes_nothing() {
    let mut state = State::new();
    state.handle_message(Request::TrackWindow(100, 1));
    let end: ChannelEvent<u32, &'static str> = ChannelEvent::Closed;
    assert_eq!(state.handle_channel_event(end), vec![]);
    assert_eq!(state.windows.len(), 1);
    let message = ChannelEvent::Msg(Request::RemoveWindow(1));
    assert_eq!(state.handle_channel_event(message), vec![]);
    assert!(state.windows.is_empty());
}

#[test]
fn each_gravity_shifts_its_own_way() {
    let (keep, half, full) = (Shift::Keep, Shift::Half, Shift::Full);
    assert_eq!(Gravity::Center.shift(), (half, half));
    assert_eq!(Gravity::Top.shift(), (half, full));
    assert_eq!(Gravity::Bottom.shift(), (half, keep));
    assert_eq!(Gravity::Left.shift(), (full, half));
    assert_eq!(Gravity::Right.shift(), (keep, half));
    assert_eq!(Gravity::TopLeft.shift(), (full, full));
    assert_eq!(Gravity::BottomLeft.shift(), (full, keep));
    assert_eq!(Gravity::TopRight.shift(), (keep, full));
    assert_eq!(Gravity::BottomRight.shift(), (keep, keep));
}
