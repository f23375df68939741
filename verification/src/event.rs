//! What the thread hears and what it says.
//!
//! The parts of an event, an action or a cursor icon that the thread passes on unread are type
//! parameters: `P` for the contents of events, `A` for the actions of the application and `I` for
//! cursor icons.

use crate::surface::{PhysicalSize, Shift, SubsurfaceInstance};
use std::collections::HashMap;
use vstd::prelude::*;

verus! {

/// An event of a window.
#[derive(Debug, PartialEq, Eq)]
pub enum WindowEvent<P> {
    /// The window should be redrawn.
    RedrawRequested,
    /// Any other event.
    Other(P),
}

/// An event of a layer surface.
#[derive(Debug, PartialEq, Eq)]
pub enum LayerSurfaceEventVariant<P> {
    /// The layer surface was created.
    Created(P),
    /// Any other event.
    Other(P),
}

/// An event of a subsurface.
#[derive(Debug, Clone, Copy, PartialEq, Eq, Structural)]
pub enum SubsurfaceEventVariant {
    /// The subsurface is gone.
    Destroyed(SubsurfaceInstance),
    /// The subsurface with this identifier has a new size.
    Resized(u64, PhysicalSize),
}

/// What subsurfaces are made with, where they can be made at all.
#[derive(Debug, PartialEq, Eq)]
pub struct SubsurfaceState {
    /// Buffers can be shared as dma-bufs.
    pub wp_dmabuf: bool,
    /// Surfaces can be made translucent.
    pub wp_alpha_modifier: bool,
    /// The buffers that were made, by what they were made from.
    pub buffers: HashMap<u64, u64>,
    /// The subsurfaces that are not shown, and can be used again.
    pub unmapped_subsurfaces: Vec<SubsurfaceInstance>,
    /// The surfaces of subsurfaces that are new to the application.
    pub new_iced_subsurfaces: Vec<u64>,
}

/// The contents of a [`SubsurfaceState`].
#[verifier::ext_equal]
pub struct SubsurfaceStateView {
    pub wp_dmabuf: bool,
    pub wp_alpha_modifier: bool,
    pub buffers: Map<u64, u64>,
    pub unmapped_subsurfaces: Seq<SubsurfaceInstance>,
    pub new_iced_subsurfaces: Seq<u64>,
}

impl View for SubsurfaceState {
    type V = SubsurfaceStateView;

    open spec fn view(&self) -> SubsurfaceStateView {
        SubsurfaceStateView {
            wp_dmabuf: self.wp_dmabuf,
            wp_alpha_modifier: self.wp_alpha_modifier,
            buffers: self.buffers@,
            unmapped_subsurfaces: self.unmapped_subsurfaces@,
            new_iced_subsurfaces: self.new_iced_subsurfaces@,
        }
    }
}

impl Clone for SubsurfaceState {
    fn clone(&self) -> (copy: Self)
        ensures
            copy@ == self@,
    {
        let copy = SubsurfaceState {
            wp_dmabuf: self.wp_dmabuf,
            wp_alpha_modifier: self.wp_alpha_modifier,
            buffers: self.buffers.clone(),
            unmapped_subsurfaces: self.unmapped_subsurfaces.clone(),
            new_iced_subsurfaces: self.new_iced_subsurfaces.clone(),
        };
        assert(copy.unmapped_subsurfaces@ =~= self.unmapped_subsurfaces@);
        assert(copy.new_iced_subsurfaces@ =~= self.new_iced_subsurfaces@);
        copy
    }
}

/// An event that the thread passes on to the application.
#[derive(Debug, PartialEq, Eq)]
pub enum SctkEvent<P> {
    /// An event of the window with this number.
    Winit(u64, WindowEvent<P>),
    /// An event of a layer surface.
    LayerSurfaceEvent {
        /// What happened.
        variant: LayerSurfaceEventVariant<P>,
        /// Names the surface.
        id: u64,
    },
    /// An event of a subsurface.
    SubsurfaceEvent(SubsurfaceEventVariant),
    /// Subsurfaces are supported, and this is what they are made with.
    Subcompositor(SubsurfaceState),
    /// Any other event.
    Other(P),
}

/// A message to the application.
#[derive(Debug, PartialEq, Eq)]
pub enum Control<P> {
    /// The thread is about to wait for events.
    AboutToWait,
    /// An event of the window with this number.
    Winit(u64, WindowEvent<P>),
    /// An event that only this platform has.
    PlatformSpecific(SctkEvent<P>),
}

/// A request of the application to the thread.
#[derive(Debug, PartialEq, Eq)]
pub enum Action<A, I> {
    /// An action on a surface.
    Action(A),
    /// Track the window with this number, under this identifier.
    TrackWindow(u64, u64),
    /// Forget the window with this identifier.
    RemoveWindow(u64),
    /// Set the cursor icon.
    SetCursor(I),
    /// Redraw the surface that this names.
    RequestRedraw(u64),
    /// The surface with this identifier, once destroyed, is no longer held by the application.
    Dropped(u64),
    /// The subsurface with this identifier has a new size.
    SubsurfaceResize(u64, PhysicalSize),
}

/// What the channel of requests delivers.
#[derive(Debug, PartialEq, Eq)]
pub enum ChannelEvent<A, I> {
    /// A request.
    Msg(Action<A, I>),
    /// The application has closed its end.
    Closed,
}

/// What to do outside the state on account of a request.
#[derive(Debug, PartialEq, Eq)]
pub enum Effect<A, I> {
    /// Carry out the action of the application.
    HandleAction(A),
    /// Give the first seat this cursor icon.
    SetCursor(I),
    /// Forget the surface of a subsurface that is gone.
    RemoveIcedSubsurface(u64),
    /// Place a subsurface, by taking parts of its size off its location.
    SetPosition {
        /// Names the subsurface object.
        wl_subsurface: u64,
        /// Its size, in physical pixels.
        size: PhysicalSize,
        /// The part of the width to take off.
        x: Shift,
        /// The part of the height to take off.
        y: Shift,
    },
    /// Send an event of a subsurface to the application at once, and wake it up.
    SendEvent(SubsurfaceEventVariant),
}

/// What to do outside the state when events were dispatched, or the globals bound.
#[derive(Debug, PartialEq, Eq)]
pub enum Output<P> {
    /// Ask the compositor for the next frame callback of the surface that this names.
    RequestFrame(u64),
    /// Send a message to the application.
    Send(Control<P>),
    /// Send an event to the application at once, and wake it up.
    SendEvent(SctkEvent<P>),
    /// Wake the application up.
    WakeUp,
}

} // verus!
