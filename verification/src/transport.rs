//! Transport contract: how a participant sends commands or results and
//! receives the complementary stream, independent of the physical medium.

use vstd::prelude::*;

use crate::commands::CommandEnvelope;
use crate::commands::CommandResult;
use crate::sensors::SensorFrame;

verus! {

/// The vehicle half of one channel; an operator half is its mirror against
/// the same wire format. A `bool` result says only whether the local write
/// succeeded — never that a peer received or processed the message, which
/// can only be inferred later from a correlated result event.
pub trait Transport {
    /// Publishes one sensor frame.
    fn publish_sensor_frame(&mut self, frame: SensorFrame) -> bool;

    /// The commands appended since the last poll, oldest first.
    fn receive_commands(&mut self) -> Vec<CommandEnvelope>;

    /// Publishes the outcome of the command `command_id` answers.
    fn publish_command_result(&mut self, command_id: u64, result: CommandResult) -> bool;
}

} // verus!
