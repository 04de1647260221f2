use vstd::prelude::*;

verus! {

/// Whether the batter swings at a pitch.
#[derive(Clone, Copy, PartialEq, Eq, Structural, Debug, Hash)]
pub enum SwingExecution {
    Swing,
    Take,
}

/// What the batter means to do with the next pitch.
#[derive(Clone, Copy, PartialEq, Eq, Structural, Debug, Hash)]
pub enum BatterIntent {
    Swing,
    Take,
}

} // verus!
