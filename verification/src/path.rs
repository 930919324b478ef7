use vstd::prelude::*;

verus! {

/// The greatest number of bounces that a path is followed for.
pub const MAX_BOUNCES: u32 = 50;

/// Where a path is.
#[derive(Clone, Copy, Debug, PartialEq, Eq, Structural)]
pub enum PathState {
    /// The ray is still followed.
    Tracing,
    /// A surface absorbed the ray.
    HitAbsorbed,
    /// The ray left the scene.
    Miss,
    /// The ray was scattered as often as a path is followed.
    DepthExceeded,
}

/// What became of the ray at the end of one traversal.
#[derive(Clone, Copy, Debug, PartialEq, Eq, Structural)]
pub enum Bounce {
    /// It hit a surface, which scattered it.
    Scattered,
    /// It hit a surface, which absorbed it.
    Absorbed,
    /// It hit nothing.
    Missed,
}

/// What the colour of the path is multiplied by after a traversal.
#[derive(Clone, Copy, Debug, PartialEq, Eq, Structural)]
pub enum Tint {
    /// The attenuation of the surface; the scattered ray is followed next.
    Attenuation,
    /// The colour of the sky in the direction of the ray.
    Sky,
    /// Nothing: the colour stays as it is.
    Unchanged,
}

/// One path of light, followed backwards from the camera: the state it is
/// in and the number of times it was scattered.
#[derive(Clone, Copy, Debug, PartialEq, Eq, Structural)]
pub struct Path {
    pub state: PathState,
    pub bounces: u32,
}

impl Path {
    /// Whether the count is within the limit, and at the limit only in the
    /// state that says so.
    pub open spec fn wf(self) -> bool {
        &&& self.bounces <= MAX_BOUNCES
        &&& self.state == PathState::Tracing ==> self.bounces < MAX_BOUNCES
        &&& self.state == PathState::DepthExceeded ==> self.bounces == MAX_BOUNCES
    }

    /// Whether the path has ended.
    pub open spec fn ended(self) -> bool {
        self.state != PathState::Tracing
    }

    /// The number of traversals that the path can still take.
    pub open spec fn spec_remaining(self) -> nat {
        if self.state == PathState::Tracing && self.bounces < MAX_BOUNCES {
            (MAX_BOUNCES - self.bounces) as nat
        } else {
            0
        }
    }

    /// The path after a traversal that ended with `bounce`, and what its
    /// colour is multiplied by. A path that has ended stays as it is.
    pub open spec fn next(self, bounce: Bounce) -> (Path, Tint) {
        if self.state != PathState::Tracing {
            (self, Tint::Unchanged)
        } else {
            match bounce {
                Bounce::Scattered => (
                    Path {
                        state: if self.bounces + 1 >= MAX_BOUNCES {
                            PathState::DepthExceeded
                        } else {
                            PathState::Tracing
                        },
                        bounces: (self.bounces + 1) as u32,
                    },
                    Tint::Attenuation,
                ),
                Bounce::Absorbed => (
                    Path { state: PathState::HitAbsorbed, bounces: self.bounces },
                    Tint::Unchanged,
                ),
                Bounce::Missed => (Path { state: PathState::Miss, bounces: self.bounces }, Tint::Sky),
            }
        }
    }

    /// A path at the camera.
    pub fn new() -> (r: Path)
        ensures
            r == (Path { state: PathState::Tracing, bounces: 0 }),
            r.wf(),
    {
        Path { state: PathState::Tracing, bounces: 0 }
    }

    /// Whether the ray is still followed.
    pub fn is_tracing(&self) -> (r: bool)
        ensures
            r == !self.ended(),
    {
        match self.state {
            PathState::Tracing => true,
            _ => false,
        }
    }

    /// The number of traversals that the path can still take.
    pub fn remaining(&self) -> (r: u32)
        ensures
            r == self.spec_remaining(),
    {
        match self.state {
            PathState::Tracing => if self.bounces < MAX_BOUNCES {
                MAX_BOUNCES - self.bounces
            } else {
                0
            },
            _ => 0,
        }
    }

    /// Takes the outcome of one traversal and says what to multiply the
    /// colour by.
    pub fn advance(&mut self, bounce: Bounce) -> (tint: Tint)
        requires
            old(self).wf(),
        ensures
            (*final(self), tint) == old(self).next(bounce),
            final(self).wf(),
    {
        match self.state {
            PathState::Tracing => {},
            _ => {
                return Tint::Unchanged;
            },
        }
        match bounce {
            Bounce::Scattered => {
                self.bounces = self.bounces + 1;
                if self.bounces >= MAX_BOUNCES {
                    self.state = PathState::DepthExceeded;
                }
                Tint::Attenuation
            },
            Bounce::Absorbed => {
                self.state = PathState::HitAbsorbed;
                Tint::Unchanged
            },
            Bounce::Missed => {
                self.state = PathState::Miss;
                Tint::Sky
            },
        }
    }
}

/// Every traversal of a path that is still followed brings its end nearer,
/// so that no path takes more than `MAX_BOUNCES` traversals; and a path
/// that has ended changes no more.
pub proof fn lemma_path_ends(path: Path, bounce: Bounce)
    requires
        path.wf(),
    ensures
        path.next(bounce).0.wf(),
        !path.ended() ==> path.next(bounce).0.spec_remaining() < path.spec_remaining(),
        path.ended() ==> path.next(bounce) == (path, Tint::Unchanged),
        path.spec_remaining() <= MAX_BOUNCES,
        path.ended() <==> path.spec_remaining() == 0,
{
}

} // verus!
