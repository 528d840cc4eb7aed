//! Flags of the running game and the handling of commands that nobody
//! interprets.
use vstd::prelude::*;

verus! {

#[derive(Copy, Clone, Debug, PartialEq, Eq, Structural)]
pub struct FlagDebug(pub bool);

#[derive(Copy, Clone, Debug, PartialEq, Eq, Structural)]
pub struct FlagExit(pub bool);

#[derive(Copy, Clone, Debug, PartialEq, Eq, Structural)]
pub struct FlagAnimationDone(pub bool);

#[derive(Copy, Clone, Debug)]
pub struct WindowSize(pub (i32, i32));

/// What to do after the command interpreters had one pass over the queue.
#[derive(Copy, Clone, Debug, PartialEq, Eq, Structural)]
pub enum CommandPass {
    /// Commands are left and the pass consumed some: run another pass.
    Again,
    /// The pass consumed nothing: discard the front command and stop.
    DiscardFront,
    /// The queue is empty: stop.
    Done,
}

/// Judges a pass of the command interpreters by the length of the queue
/// before and after it. A pass that leaves a non-empty queue as long as it
/// was has interpreted nothing, so the front command is given up; this is
/// what makes the handling of commands end.
pub fn judge_command_pass(before: usize, after: usize) -> (r: CommandPass)
    ensures
        r == if before == after && before > 0 {
            CommandPass::DiscardFront
        } else if after == 0 {
            CommandPass::Done
        } else {
            CommandPass::Again
        },
{
    if before == after && before > 0 {
        CommandPass::DiscardFront
    } else if after == 0 {
        CommandPass::Done
    } else {
        CommandPass::Again
    }
}

} // verus!
