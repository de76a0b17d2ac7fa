//! The bounded command FIFO between the network side and the motion side.
//!
//! The real device moves these pairs across cores; the queue's contract is
//! what matters to the protocol: strict FIFO order, a fixed capacity that
//! gives the host its flow-control window, and a clear operation for stop.

use vstd::prelude::*;

use crate::gcode::{Command, CommandModel};
use crate::wire::CommandId;

verus! {

/// Capacity of the command channel: the host's flow-control window.
pub const COMMAND_BUFFER_SIZE: usize = 32;

/// A bounded FIFO of commands awaiting the motion task, each under its id.
pub struct CommandQueue {
    items: Vec<(CommandId, Command)>,
}

impl View for CommandQueue {
    type V = Seq<(u32, CommandModel)>;

    closed spec fn view(&self) -> Seq<(u32, CommandModel)> {
        self.items@.map_values(|p: (CommandId, Command)| (p.0.0, p.1@))
    }
}

impl CommandQueue {
    /// An empty queue.
    pub fn new() -> (r: CommandQueue)
        ensures
            r@ == Seq::<(u32, CommandModel)>::empty(),
    {
        let q = CommandQueue { items: Vec::new() };
        proof {
            assert(q@ =~= Seq::<(u32, CommandModel)>::empty());
        }
        q
    }

    pub fn len(&self) -> (r: usize)
        ensures
            r == self@.len(),
    {
        self.items.len()
    }

    pub fn is_full(&self) -> (r: bool)
        ensures
            r == (self@.len() >= COMMAND_BUFFER_SIZE),
    {
        self.items.len() >= COMMAND_BUFFER_SIZE
    }

    /// Append a command; the queue must not be full.
    pub fn send(&mut self, id: CommandId, command: Command)
        requires
            old(self)@.len() < COMMAND_BUFFER_SIZE,
        ensures
            final(self)@ == old(self)@.push((id.0, command@)),
    {
        self.items.push((id, command));
        proof {
            assert(self@ =~= old(self)@.push((id.0, command@)));
        }
    }

    /// Take the oldest command, if any.
    pub fn receive(&mut self) -> (r: Option<(CommandId, Command)>)
        ensures
            match r {
                Option::Some((id, cmd)) => {
                    &&& old(self)@.len() > 0
                    &&& old(self)@[0] == ((id.0, cmd@))
                    &&& final(self)@ == old(self)@.drop_first()
                },
                Option::None => old(self)@.len() == 0 && final(self)@ == old(self)@,
            },
    {
        if self.items.len() == 0 {
            None
        } else {
            let (id, cmd) = self.items.remove(0);
            proof {
                assert(self@ =~= old(self)@.drop_first());
            }
            Some((id, cmd))
        }
    }

    /// Drop every queued command (stop).
    pub fn clear(&mut self)
        ensures
            final(self)@ == Seq::<(u32, CommandModel)>::empty(),
    {
        self.items = Vec::new();
        proof {
            assert(self@ =~= Seq::<(u32, CommandModel)>::empty());
        }
    }
}

} // verus!
