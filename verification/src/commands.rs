//! Commands that drive the game from outside the simulation.
use vstd::prelude::*;

verus! {

#[derive(Clone, Copy, Debug, PartialEq, Eq, Structural)]
pub enum FlowCommand {
    CycleViews,
    GenerateLevel,
    ReloadViewConfigs,
    Exit,
}

#[derive(Clone, Copy, Debug, PartialEq, Eq, Structural)]
pub enum HackCommand {
    UnlockAllDoors,
    LockAllDoors,
}

/// What the player's keys currently act upon.
#[derive(Clone, Copy, Debug, PartialEq, Eq, Structural)]
pub enum GameplayContext {
    MainGame,
    Inventory,
}

#[derive(Clone, Debug)]
pub enum ActionCommand {
    MoveBy(i32, i32),
    MoveTo(i32, i32),
    FovChange(Vec<(i32, i32)>),
}

#[derive(Clone, Debug)]
pub enum GameCommand {
    Flow(FlowCommand),
    Act(ActionCommand),
    Hack(HackCommand),
}

} // verus!
