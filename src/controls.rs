use vstd::prelude::*;
use crate::geometry::{displacement, translate_target_position_relativ_to_origin, Cursor, Displacement, Rect};

verus! {

/// The trainer's command keys.
#[derive(Clone, Copy, Debug, PartialEq, Eq, Structural)]
pub enum VK {
    /// Set the source position.
    Key1,
    /// Set the target position.
    Key2,
    /// Ask for the wind strength.
    Key3,
    /// Calculate solutions.
    Key4,
    /// Clear positions and wind.
    Key5,
    /// Switch between the angle and the velocity sweep.
    Key6,
    /// Cache the window extent.
    Key7,
}

/// Number of command keys.
pub const KEY_COUNT: usize = 7;

impl VK {
    pub open spec fn slot(self) -> int {
        match self {
            VK::Key1 => 0,
            VK::Key2 => 1,
            VK::Key3 => 2,
            VK::Key4 => 3,
            VK::Key5 => 4,
            VK::Key6 => 5,
            VK::Key7 => 6,
        }
    }

    /// The place of this key in a table of key states.
    pub fn index(&self) -> (r: usize)
        ensures
            r == self.slot(),
            r < KEY_COUNT,
    {
        match self {
            VK::Key1 => 0,
            VK::Key2 => 1,
            VK::Key3 => 2,
            VK::Key4 => 3,
            VK::Key5 => 4,
            VK::Key6 => 5,
            VK::Key7 => 6,
        }
    }
}

/// What the trainer reads from the game window and the input devices.
pub trait Handle {
    /// Whether the key is held down now.
    fn is_key_pressed(&self, vk: VK) -> bool;

    /// The client-area dimensions of the window, zero on failure.
    fn get_window_rect(&self) -> Rect;

    /// The cursor position in the client area, origin upper-left.
    fn get_mouse_position_in_window(&self) -> Cursor;
}

/// Which keys were down at the last poll.
pub struct KeyEdges {
    pub was_down: Vec<bool>,
}

impl KeyEdges {
    /// No key down yet.
    pub fn new() -> (r: KeyEdges)
        ensures
            r.was_down@.len() == KEY_COUNT,
            forall|i: int| 0 <= i < KEY_COUNT ==> !#[trigger] r.was_down@[i],
    {
        let mut was_down: Vec<bool> = Vec::new();
        for i in 0..KEY_COUNT
            invariant
                was_down@.len() == i,
                forall|j: int| 0 <= j < i ==> !#[trigger] was_down@[j],
        {
            was_down.push(false);
        }
        KeyEdges { was_down }
    }

    /// Takes the keys held down now, one per command, and returns the ones
    /// that have gone down since the last poll.
    pub fn poll(&mut self, down: &Vec<bool>) -> (pressed: Vec<bool>)
        requires
            old(self).was_down@.len() == KEY_COUNT,
            down@.len() == KEY_COUNT,
        ensures
            final(self).was_down@ == down@,
            pressed@.len() == KEY_COUNT,
            forall|i: int|
                0 <= i < KEY_COUNT ==> #[trigger] pressed@[i] == (down@[i] && !old(self).was_down@[i]),
    {
        let mut pressed: Vec<bool> = Vec::new();
        for i in 0..KEY_COUNT
            invariant
                self.was_down@ == old(self).was_down@,
                self.was_down@.len() == KEY_COUNT,
                down@.len() == KEY_COUNT,
                pressed@.len() == i,
                forall|j: int|
                    0 <= j < i ==> #[trigger] pressed@[j] == (down@[j] && !old(self).was_down@[j]),
        {
            pressed.push(down[i] && !self.was_down[i]);
        }
        self.was_down = down.clone();
        proof {
            assert(self.was_down@ =~= down@);
        }
        pressed
    }
}

/// Why a calculation cannot start.
#[derive(Clone, Copy, Debug, PartialEq, Eq, Structural)]
pub enum CalcError {
    /// A position or the window extent has not been recorded.
    MissingInput { positions: bool, extent: bool },
    /// The recorded window extent has a side that is not positive.
    InvalidExtent,
}

/// The target displacement for a calculation from the recorded positions
/// and window extent, or why there is none.
pub fn prepare_calculation(source: &Option<Cursor>, target: &Option<Cursor>, extent: &Option<Rect>) -> (r:
    Result<Displacement, CalcError>)
    ensures
        r == prepare_calculation_spec(*source, *target, *extent),
{
    match (source, target, extent) {
        (Some(f), Some(t), Some(e)) => match translate_target_position_relativ_to_origin(e, f, t) {
            Some(d) => Ok(d),
            None => Err(CalcError::InvalidExtent),
        },
        _ => Err(
            CalcError::MissingInput {
                positions: source.is_none() || target.is_none(),
                extent: extent.is_none(),
            },
        ),
    }
}

/// Which sweep a calculation runs.
#[derive(Clone, Copy, Debug, PartialEq, Eq, Structural)]
pub enum Mode {
    /// Every velocity at every half degree; solutions give angles.
    Angle,
    /// Every whole-degree angle at many velocities; solutions give velocities.
    Velocity,
}

/// What the trainer has recorded between key presses.
#[derive(Clone, Copy, Debug, PartialEq, Eq, Structural)]
pub struct Session {
    pub mode: Mode,
    pub source: Option<Cursor>,
    pub target: Option<Cursor>,
    pub extent: Option<Rect>,
}

impl Session {
    /// Velocity mode, nothing recorded.
    pub fn new() -> (r: Session)
        ensures
            r == (Session { mode: Mode::Velocity, source: None, target: None, extent: None }),
    {
        Session { mode: Mode::Velocity, source: None, target: None, extent: None }
    }

    /// Records the launch position.
    pub fn set_source(&mut self, position: Cursor)
        ensures
            *final(self) == (Session { source: Some(position), ..*old(self) }),
    {
        self.source = Some(position);
    }

    /// Records the target position.
    pub fn set_target(&mut self, position: Cursor)
        ensures
            *final(self) == (Session { target: Some(position), ..*old(self) }),
    {
        self.target = Some(position);
    }

    /// Forgets both positions; the mode and the cached extent stay.
    pub fn clear(&mut self)
        ensures
            *final(self) == (Session { source: None, target: None, ..*old(self) }),
    {
        self.source = None;
        self.target = None;
    }

    /// Switches between the two sweeps.
    pub fn switch_mode(&mut self)
        ensures
            *final(self) == (Session {
                mode: if old(self).mode == Mode::Angle {
                    Mode::Velocity
                } else {
                    Mode::Angle
                },
                ..*old(self)
            }),
    {
        self.mode = match self.mode {
            Mode::Angle => Mode::Velocity,
            Mode::Velocity => Mode::Angle,
        };
    }

    /// Caches a window extent when both its sides are positive, and drops
    /// the cached one otherwise. Returns whether it was cached.
    pub fn cache_extent(&mut self, extent: Rect) -> (cached: bool)
        ensures
            cached == extent.is_valid(),
            *final(self) == (Session {
                extent: if extent.is_valid() {
                    Some(extent)
                } else {
                    None
                },
                ..*old(self)
            }),
    {
        if extent.width > 0 && extent.height > 0 {
            self.extent = Some(extent);
            true
        } else {
            self.extent = None;
            false
        }
    }

    /// The target displacement for a calculation, or why there is none.
    pub fn prepare(&self) -> (r: Result<Displacement, CalcError>)
        ensures
            r == prepare_calculation_spec(self.source, self.target, self.extent),
    {
        prepare_calculation(&self.source, &self.target, &self.extent)
    }
}

/// The outcome of a calculation request on the recorded positions and extent.
pub open spec fn prepare_calculation_spec(source: Option<Cursor>, target: Option<Cursor>, extent: Option<Rect>) -> Result<Displacement, CalcError> {
    if source.is_none() || target.is_none() || extent.is_none() {
        Err(CalcError::MissingInput { positions: source.is_none() || target.is_none(), extent: extent.is_none() })
    } else if extent.unwrap().is_valid() {
        Ok(displacement(extent.unwrap(), source.unwrap(), target.unwrap()))
    } else {
        Err(CalcError::InvalidExtent)
    }
}

} // verus!
