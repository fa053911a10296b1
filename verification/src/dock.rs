//! Where the log panel is docked, and how large it is there.

use vstd::prelude::*;

verus! {

/// The sides of the window that panels can be docked to.
#[derive(Debug, Clone, Copy, PartialEq, Eq, Structural)]
pub enum DockPosition {
    Left,
    Bottom,
    Right,
}

/// The direction in which a docked panel can be resized.
#[derive(Debug, Clone, Copy, PartialEq, Eq, Structural)]
pub enum Axis {
    Horizontal,
    Vertical,
}

/// The direction in which a panel at `position` can be resized.
pub open spec fn axis_of(position: DockPosition) -> Axis {
    match position {
        DockPosition::Left => Axis::Horizontal,
        DockPosition::Right => Axis::Horizontal,
        DockPosition::Bottom => Axis::Vertical,
    }
}

impl DockPosition {
    /// The direction in which a panel here can be resized.
    pub fn axis(&self) -> (r: Axis)
        ensures
            r == axis_of(*self),
    {
        match self {
            DockPosition::Left => Axis::Horizontal,
            DockPosition::Right => Axis::Horizontal,
            DockPosition::Bottom => Axis::Vertical,
        }
    }
}

/// A panel's place and its size. `S` is the unit that sizes are measured in.
#[derive(Debug, Clone, Copy)]
pub struct DockGeometry<S> {
    pub position: DockPosition,
    pub width: Option<S>,
    pub height: Option<S>,
    /// The size of a panel that was never given one.
    pub default_size: S,
}

/// The size of a panel in the direction in which it can be resized.
pub open spec fn docked_size<S>(dock: DockGeometry<S>) -> S {
    if axis_of(dock.position) == Axis::Vertical && dock.height is Some {
        dock.height->0
    } else if dock.width is Some {
        dock.width->0
    } else {
        dock.default_size
    }
}

/// The geometry after the panel was resized in the direction in which it can be.
pub open spec fn resized<S>(dock: DockGeometry<S>, size: Option<S>) -> DockGeometry<S> {
    match axis_of(dock.position) {
        Axis::Vertical => DockGeometry { height: size, ..dock },
        Axis::Horizontal => DockGeometry { width: size, ..dock },
    }
}

impl<S: Copy> DockGeometry<S> {
    /// A panel at the bottom of the window.
    pub fn new(default_size: S) -> (r: Self)
        ensures
            r == (DockGeometry {
                position: DockPosition::Bottom,
                width: None,
                height: Some(default_size),
                default_size,
            }),
    {
        DockGeometry {
            position: DockPosition::Bottom,
            width: None,
            height: Some(default_size),
            default_size,
        }
    }

    /// Whether the panel can be docked at `position`.
    pub fn position_is_valid(&self, position: DockPosition) -> (r: bool)
        ensures
            r == (position == DockPosition::Left || position == DockPosition::Right || position
                == DockPosition::Bottom),
    {
        match position {
            DockPosition::Left => true,
            DockPosition::Right => true,
            DockPosition::Bottom => true,
        }
    }

    /// Docks the panel at `position`. The sizes stay.
    pub fn set_position(&mut self, position: DockPosition)
        ensures
            *final(self) == (DockGeometry { position, ..*old(self) }),
    {
        self.position = position;
    }

    /// The panel's size in the direction in which it can be resized.
    pub fn size(&self) -> (r: S)
        ensures
            r == docked_size(*self),
    {
        if self.position.axis() == Axis::Vertical {
            if let Some(height) = self.height {
                return height;
            }
        }
        match self.width {
            Some(width) => width,
            None => self.default_size,
        }
    }

    /// Resizes the panel in the direction in which it can be.
    pub fn set_size(&mut self, size: Option<S>)
        ensures
            *final(self) == resized(*old(self), size),
    {
        if self.position.axis() == Axis::Vertical {
            self.height = size;
        } else {
            self.width = size;
        }
    }
}

/// A panel that was given a size has it, and has it again when it comes back from another
/// side of the window.
pub proof fn law_sizes_are_kept<S>(dock: DockGeometry<S>, size: S, elsewhere: DockPosition)
    ensures
        docked_size(resized(dock, Some(size))) == size,
        docked_size(
            DockGeometry {
                position: dock.position,
                ..DockGeometry { position: elsewhere, ..resized(dock, Some(size)) }
            },
        ) == size,
{
}

/// Resizing a panel at the bottom leaves the size that it has at the sides.
pub proof fn law_height_leaves_width<S>(dock: DockGeometry<S>, size: Option<S>, other: DockPosition)
    requires
        axis_of(other) == Axis::Horizontal,
        axis_of(dock.position) == Axis::Vertical,
    ensures
        docked_size(DockGeometry { position: other, ..resized(dock, size) }) == docked_size(
            DockGeometry { position: other, ..dock },
        ),
{
}

/// Which size a docked panel has: at the bottom its height, where it has one; otherwise, and at
/// the sides always, its width, where it has one; otherwise the default.
pub proof fn law_size_by_position<S>(
    width: Option<S>,
    height: Option<S>,
    default_size: S,
    left: bool,
)
    ensures
        ({
            let bottom = DockGeometry {
                position: DockPosition::Bottom,
                width,
                height,
                default_size,
            };
            let side = DockGeometry {
                position: if left {
                    DockPosition::Left
                } else {
                    DockPosition::Right
                },
                width,
                height,
                default_size,
            };
            &&& height matches Some(h) ==> docked_size(bottom) == h
            &&& height is None && width is Some ==> docked_size(bottom) == width->0
            &&& height is None && width is None ==> docked_size(bottom) == default_size
            &&& width matches Some(w) ==> docked_size(side) == w
            &&& width is None ==> docked_size(side) == default_size
        }),
{
}

/// Resizing a panel changes its height at the bottom and its width at the sides, and nothing
/// else.
pub proof fn law_resizing_changes_one_size<S>(dock: DockGeometry<S>, size: Option<S>)
    ensures
        resized(dock, size).position == dock.position,
        resized(dock, size).default_size == dock.default_size,
        dock.position == DockPosition::Bottom ==> resized(dock, size).height == size && resized(
            dock,
            size,
        ).width == dock.width,
        dock.position != DockPosition::Bottom ==> resized(dock, size).width == size && resized(
            dock,
            size,
        ).height == dock.height,
        axis_of(dock.position) == Axis::Vertical <==> dock.position == DockPosition::Bottom,
{
}

} // verus!
