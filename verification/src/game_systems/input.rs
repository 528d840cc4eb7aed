//! Keys that act on the game as a whole.
use vstd::prelude::*;
use std::collections::VecDeque;
use crate::commands::FlowCommand;
use crate::commands::GameCommand;
use crate::commands::GameplayContext;
use crate::game::FlagExit;

verus! {

/// Asks for a new level when its key is pressed.
pub fn on_input_keyboard_generate_level(
    generate_pressed: bool,
    commands: &mut VecDeque<GameCommand>,
)
    ensures
        !generate_pressed ==> final(commands)@ == old(commands)@,
        generate_pressed ==> final(commands)@.len() == old(commands)@.len() + 1,
        generate_pressed ==> (final(commands)@.last() matches GameCommand::Flow(
            FlowCommand::GenerateLevel,
        )),
        generate_pressed ==> final(commands)@.drop_last() == old(commands)@,
{
    if generate_pressed {
        commands.push_back(GameCommand::Flow(FlowCommand::GenerateLevel));
        assert(commands@.drop_last() =~= old(commands)@);
    }
}

/// Leaves the game when the escape key is pressed in the main game.
pub fn on_input_keyboard_exit(escape_pressed: bool, context: &GameplayContext, exit: &mut FlagExit)
    ensures
        final(exit).0 == (old(exit).0 || (*context == GameplayContext::MainGame
            && escape_pressed)),
{
    if *context == GameplayContext::MainGame && escape_pressed {
        exit.0 = true;
    }
}

} // verus!
