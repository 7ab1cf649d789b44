use vstd::prelude::*;

verus! {

/// A shot solution: an initial velocity and a launch angle in degrees.
#[derive(Clone, Copy, Debug, PartialEq, Eq, Structural)]
pub struct Hit {
    pub velocity: u32,
    pub angle: i32,
}

impl Hit {
    /// Creates a solution from a velocity and an angle.
    pub fn new(velocity: u32, angle: i32) -> (r: Hit)
        ensures
            r.velocity == velocity,
            r.angle == angle,
    {
        Hit { velocity, angle }
    }

    /// The launch velocity of the solution.
    pub fn get_velocity(&self) -> (r: u32)
        ensures
            r == self.velocity,
    {
        self.velocity
    }

    /// The launch angle of the solution, in degrees.
    pub fn get_angle(&self) -> (r: i32)
        ensures
            r == self.angle,
    {
        self.angle
    }
}

} // verus!
