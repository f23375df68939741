//! The windows, surfaces and seats that the thread knows of.
//!
//! Protocol objects appear as integers: `id`s name an object for as long as it is known, and a
//! window's number is the address of its surface, which is what a window identifier is made of.

use vstd::prelude::*;
use winit::window::WindowId;

verus! {

/// The number behind `winit::window::WindowId::from`, for the surface at `address`.
///
/// Claimed of `WindowId::from(u64)` and of `u64::from(WindowId)`: on the platforms that have
/// Wayland, an identifier holds the number that it was made from, and gives it back.
#[verifier::external_body]
pub(crate) fn window_id(address: u64) -> (id: u64)
    ensures
        id == address,
{
    u64::from(WindowId::from(address))
}

/// A surface with a role of its own: a layer surface, a popup or a lock surface.
#[derive(Debug, Clone, Copy, PartialEq, Eq, Structural)]
pub struct Surface {
    /// Names the surface object.
    pub id: u64,
    /// The address of the surface object.
    pub address: u64,
}

/// A window of the application that the thread was told to track.
#[derive(Debug, Clone, Copy, PartialEq, Eq, Structural)]
pub struct SctkWindow {
    /// The identifier by which the application knows the window.
    pub id: u64,
    /// The number of the window's identifier.
    pub window: u64,
}

/// The objects that make up a subsurface.
#[derive(Debug, Clone, Copy, PartialEq, Eq, Structural)]
pub struct SubsurfaceInstance {
    /// Names the surface of the subsurface.
    pub wl_surface: u64,
    /// Names the subsurface object, which places the surface on its parent.
    pub wl_subsurface: u64,
    /// The address of the parent surface.
    pub parent: u64,
}

/// A subsurface of a window.
#[derive(Debug, Clone, Copy, PartialEq, Eq, Structural)]
pub struct SctkSubsurface {
    /// The identifier by which the application knows the subsurface.
    pub id: u64,
    /// Its objects.
    pub instance: SubsurfaceInstance,
    /// The direction in which it extends from its location, where that is one in which it can be
    /// placed.
    pub gravity: Option<Gravity>,
}

/// A seat, with the cursor icon that it was last given.
#[derive(Debug, PartialEq, Eq)]
pub struct SctkSeat<I> {
    /// The icon, once one was set.
    pub icon: Option<I>,
}

/// A size in physical pixels.
#[derive(Debug, Clone, Copy, PartialEq, Eq, Structural)]
pub struct PhysicalSize {
    /// The width.
    pub width: u32,
    /// The height.
    pub height: u32,
}

/// The direction in which a surface extends from the point at which it is placed.
#[derive(Debug, Clone, Copy, PartialEq, Eq, Structural)]
pub enum Gravity {
    /// In all directions alike, with the point at the centre.
    Center,
    /// Upwards.
    Top,
    /// Downwards.
    Bottom,
    /// To the left.
    Left,
    /// To the right.
    Right,
    /// Upwards and to the left.
    TopLeft,
    /// Downwards and to the left.
    BottomLeft,
    /// Upwards and to the right.
    TopRight,
    /// Downwards and to the right.
    BottomRight,
}

/// How much of a surface's extent is taken off a coordinate of its location.
#[derive(Debug, Clone, Copy, PartialEq, Eq, Structural)]
pub enum Shift {
    /// Nothing.
    Keep,
    /// Half of the extent.
    Half,
    /// All of it.
    Full,
}

impl Shift {
    /// The shift counted in halves of the extent.
    pub open spec fn halves(self) -> int {
        match self {
            Shift::Keep => 0,
            Shift::Half => 1,
            Shift::Full => 2,
        }
    }
}

impl Gravity {
    /// The surface extends to the left of its location, and not to the right.
    pub open spec fn leftwards(self) -> bool {
        self is Left || self is TopLeft || self is BottomLeft
    }

    /// The surface extends to the right of its location, and not to the left.
    pub open spec fn rightwards(self) -> bool {
        self is Right || self is TopRight || self is BottomRight
    }

    /// The surface extends above its location, and not below.
    pub open spec fn upwards(self) -> bool {
        self is Top || self is TopLeft || self is TopRight
    }

    /// The surface extends below its location, and not above.
    pub open spec fn downwards(self) -> bool {
        self is Bottom || self is BottomLeft || self is BottomRight
    }

    /// What part of the width lies to the left of the location.
    pub open spec fn shift_x(self) -> Shift {
        if self.leftwards() {
            Shift::Full
        } else if self.rightwards() {
            Shift::Keep
        } else {
            Shift::Half
        }
    }

    /// What part of the height lies above the location.
    pub open spec fn shift_y(self) -> Shift {
        if self.upwards() {
            Shift::Full
        } else if self.downwards() {
            Shift::Keep
        } else {
            Shift::Half
        }
    }

    /// The parts of the width and of the height to take off the location, so that the surface
    /// extends from there as the gravity says.
    pub fn shift(self) -> (shift: (Shift, Shift))
        ensures
            shift == (self.shift_x(), self.shift_y()),
    {
        match self {
            Gravity::Center => (Shift::Half, Shift::Half),
            Gravity::Top => (Shift::Half, Shift::Full),
            Gravity::Bottom => (Shift::Half, Shift::Keep),
            Gravity::Left => (Shift::Full, Shift::Half),
            Gravity::Right => (Shift::Keep, Shift::Half),
            Gravity::TopLeft => (Shift::Full, Shift::Full),
            Gravity::BottomLeft => (Shift::Full, Shift::Keep),
            Gravity::TopRight => (Shift::Keep, Shift::Full),
            Gravity::BottomRight => (Shift::Keep, Shift::Keep),
        }
    }

    /// The opposite direction.
    pub open spec fn opposite(self) -> Gravity {
        match self {
            Gravity::Center => Gravity::Center,
            Gravity::Top => Gravity::Bottom,
            Gravity::Bottom => Gravity::Top,
            Gravity::Left => Gravity::Right,
            Gravity::Right => Gravity::Left,
            Gravity::TopLeft => Gravity::BottomRight,
            Gravity::BottomLeft => Gravity::TopRight,
            Gravity::TopRight => Gravity::BottomLeft,
            Gravity::BottomRight => Gravity::TopLeft,
        }
    }
}

/// What one gravity takes off a location and what the opposite one takes off it make up the whole
/// extent, in both directions.
pub proof fn law_opposite_gravities_are_complementary(gravity: Gravity)
    ensures
        gravity.shift_x().halves() + gravity.opposite().shift_x().halves() == 2,
        gravity.shift_y().halves() + gravity.opposite().shift_y().halves() == 2,
{
}

/// No two gravities take the same parts off a location.
pub proof fn law_shift_tells_gravities_apart(a: Gravity, b: Gravity)
    requires
        (a.shift_x(), a.shift_y()) == (b.shift_x(), b.shift_y()),
    ensures
        a == b,
{
}

} // verus!
