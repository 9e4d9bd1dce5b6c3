//! The six-step commutation state machine of the brushless-motor demo: six
//! states forming a ring, each driving one phase high, one low, and leaving
//! one floating. The decision logic lives here; putting the computed
//! drive levels on the pins is the driver loop's job.

use vstd::prelude::*;

verus! {

/// What the control loop currently asks of the motor.
#[derive(Debug, PartialEq, Eq, Structural, Clone, Copy)]
pub enum ControlState {
    Idle,
    Brake,
    Forward,
    Reverse,
}

/// The six commutation steps: which two phases conduct.
#[derive(Debug, PartialEq, Eq, Structural, Clone, Copy)]
pub enum CommutationState {
    AB,
    AC,
    BC,
    BA,
    CA,
    CB,
}

/// How one motor phase is driven: to the supply, to ground, or left
/// floating.
#[derive(Debug, PartialEq, Eq, Structural, Clone, Copy)]
pub enum PhaseDrive {
    High,
    Low,
    Floating,
}

/// The drive levels of the three phases for one commutation step.
#[derive(Debug, PartialEq, Eq, Structural, Clone, Copy)]
pub struct PhaseCommand {
    pub a: PhaseDrive,
    pub b: PhaseDrive,
    pub c: PhaseDrive,
}

impl CommutationState {
    /// The following step of the ring.
    pub open spec fn spec_next(self) -> CommutationState {
        match self {
            CommutationState::AB => CommutationState::AC,
            CommutationState::AC => CommutationState::BC,
            CommutationState::BC => CommutationState::BA,
            CommutationState::BA => CommutationState::CA,
            CommutationState::CA => CommutationState::CB,
            CommutationState::CB => CommutationState::AB,
        }
    }

    /// The preceding step of the ring.
    pub open spec fn spec_previous(self) -> CommutationState {
        match self {
            CommutationState::AB => CommutationState::CB,
            CommutationState::AC => CommutationState::AB,
            CommutationState::BC => CommutationState::AC,
            CommutationState::BA => CommutationState::BC,
            CommutationState::CA => CommutationState::BA,
            CommutationState::CB => CommutationState::CA,
        }
    }

    pub fn next(&self) -> (r: CommutationState)
        ensures
            r == self.spec_next(),
    {
        match self {
            CommutationState::AB => CommutationState::AC,
            CommutationState::AC => CommutationState::BC,
            CommutationState::BC => CommutationState::BA,
            CommutationState::BA => CommutationState::CA,
            CommutationState::CA => CommutationState::CB,
            CommutationState::CB => CommutationState::AB,
        }
    }

    pub fn previous(&self) -> (r: CommutationState)
        ensures
            r == self.spec_previous(),
    {
        match self {
            CommutationState::AB => CommutationState::CB,
            CommutationState::AC => CommutationState::AB,
            CommutationState::BC => CommutationState::AC,
            CommutationState::BA => CommutationState::BC,
            CommutationState::CA => CommutationState::BA,
            CommutationState::CB => CommutationState::CA,
        }
    }
}

/// The six steps form a ring: stepping back undoes stepping forward, and
/// the other way round.
pub proof fn lemma_commutation_ring(s: CommutationState)
    ensures
        s.spec_next().spec_previous() == s,
        s.spec_previous().spec_next() == s,
{
}

/// The drive levels of a commutation step: one phase high, one low, one
/// floating.
pub open spec fn spec_drive(s: CommutationState) -> PhaseCommand {
    match s {
        CommutationState::AB => PhaseCommand {
            a: PhaseDrive::High,
            b: PhaseDrive::Low,
            c: PhaseDrive::Floating,
        },
        CommutationState::AC => PhaseCommand {
            a: PhaseDrive::High,
            b: PhaseDrive::Floating,
            c: PhaseDrive::Low,
        },
        CommutationState::BC => PhaseCommand {
            a: PhaseDrive::Floating,
            b: PhaseDrive::High,
            c: PhaseDrive::Low,
        },
        CommutationState::BA => PhaseCommand {
            a: PhaseDrive::Low,
            b: PhaseDrive::High,
            c: PhaseDrive::Floating,
        },
        CommutationState::CA => PhaseCommand {
            a: PhaseDrive::Low,
            b: PhaseDrive::Floating,
            c: PhaseDrive::High,
        },
        CommutationState::CB => PhaseCommand {
            a: PhaseDrive::Floating,
            b: PhaseDrive::Low,
            c: PhaseDrive::High,
        },
    }
}

/// The decision half of the motor driver: it owns the commutation state
/// and computes the drive levels each step; the pins that realize them
/// stay with the hardware loop.
pub struct MotorDriver {
    pub comm_state: CommutationState,
}

impl MotorDriver {
    /// A fresh driver, at the first step of the ring.
    pub fn new() -> (r: MotorDriver)
        ensures
            r.comm_state == CommutationState::AB,
    {
        MotorDriver { comm_state: CommutationState::AB }
    }

    /// Advance one step, forward along the ring when `direction` holds and
    /// backwards otherwise, and return the drive levels of the new step.
    pub fn step(&mut self, direction: bool) -> (r: PhaseCommand)
        ensures
            final(self).comm_state == (if direction {
                old(self).comm_state.spec_next()
            } else {
                old(self).comm_state.spec_previous()
            }),
            r == spec_drive(final(self).comm_state),
    {
        self.comm_state = if direction {
            self.comm_state.next()
        } else {
            self.comm_state.previous()
        };
        match self.comm_state {
            CommutationState::AB => PhaseCommand {
                a: PhaseDrive::High,
                b: PhaseDrive::Low,
                c: PhaseDrive::Floating,
            },
            CommutationState::AC => PhaseCommand {
                a: PhaseDrive::High,
                b: PhaseDrive::Floating,
                c: PhaseDrive::Low,
            },
            CommutationState::BC => PhaseCommand {
                a: PhaseDrive::Floating,
                b: PhaseDrive::High,
                c: PhaseDrive::Low,
            },
            CommutationState::BA => PhaseCommand {
                a: PhaseDrive::Low,
                b: PhaseDrive::High,
                c: PhaseDrive::Floating,
            },
            CommutationState::CA => PhaseCommand {
                a: PhaseDrive::Low,
                b: PhaseDrive::Floating,
                c: PhaseDrive::High,
            },
            CommutationState::CB => PhaseCommand {
                a: PhaseDrive::Floating,
                b: PhaseDrive::Low,
                c: PhaseDrive::High,
            },
        }
    }

    /// Coast: leave every phase floating; the commutation state is kept.
    pub fn set_idle(&self) -> (r: PhaseCommand)
        ensures
            r == (PhaseCommand {
                a: PhaseDrive::Floating,
                b: PhaseDrive::Floating,
                c: PhaseDrive::Floating,
            }),
    {
        PhaseCommand { a: PhaseDrive::Floating, b: PhaseDrive::Floating, c: PhaseDrive::Floating }
    }
}

} // verus!
