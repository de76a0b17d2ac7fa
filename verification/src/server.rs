//! The network protocol server's verifiable core.
//!
//! The connection loop itself reads sockets and so lives outside the
//! verified crate; what it decides with is here: the id generator and the
//! receive-buffer handling that carves one command off the front of the
//! buffered bytes and compacts the remainder.

use vstd::prelude::*;

use crate::gcode::{parse_single_command, spec_parse_single, Command, Error};
use crate::wire::CommandId;

verus! {

/// The server's own state: the last command id handed out.
pub struct Server {
    pub command_id_gen: u32,
}

impl Server {
    /// A fresh server; the first command gets id 1 (0 is reserved).
    pub fn new() -> (r: Server)
        ensures
            r.command_id_gen == 0,
    {
        Server { command_id_gen: 0 }
    }

    /// Allocate the next command id.
    pub fn gen_command_id(&mut self) -> (r: CommandId)
        requires
            old(self).command_id_gen < u32::MAX,
        ensures
            final(self).command_id_gen == old(self).command_id_gen + 1,
            r.0 == final(self).command_id_gen,
    {
        self.command_id_gen = self.command_id_gen + 1;
        CommandId(self.command_id_gen)
    }
}

/// What examining the receive buffer produced.
#[derive(Debug)]
pub enum TakeOutcome {
    /// A whole command line was taken off the front of the buffer.
    Took(Command),
    /// No full line yet: keep reading.
    NeedMore,
    /// The buffered line can never be a command: reply `(parse failed)`
    /// and drop the connection.
    Failed,
}

/// Try to take one command off the front of the receive buffer.  On
/// success the consumed line is removed and the remaining bytes move to
/// the front; otherwise the buffer is untouched.
pub fn try_take_command(axis_labels: &[u8], buf: &mut Vec<u8>) -> (r: TakeOutcome)
    ensures
        match spec_parse_single(axis_labels@, old(buf)@) {
            Option::None => r is NeedMore && final(buf)@ == old(buf)@,
            Option::Some(out) => match out {
                Option::Some((consumed, c)) => {
                    &&& r matches TakeOutcome::Took(cmd) && cmd@ == c
                    &&& final(buf)@ == old(buf)@.subrange(consumed, old(buf)@.len() as int)
                },
                Option::None => r is Failed && final(buf)@ == old(buf)@,
            },
        },
{
    match parse_single_command(axis_labels, buf.as_slice()) {
        Ok((consumed, cmd)) => {
            let len = buf.len();
            let mut k: usize = 0;
            while k < len - consumed
                invariant
                    consumed <= len == buf@.len(),
                    k <= len - consumed,
                    forall|j: int| 0 <= j < k ==> buf@[j] == old(buf)@[consumed + j],
                    forall|j: int| k <= j < len ==> buf@[j] == old(buf)@[j],
                decreases len - consumed - k,
            {
                let b = buf[consumed + k];
                buf.set(k, b);
                k = k + 1;
            }
            buf.truncate(len - consumed);
            proof {
                assert(buf@ =~= old(buf)@.subrange(consumed as int, old(buf)@.len() as int));
            }
            TakeOutcome::Took(cmd)
        },
        Err(Error::Incomplete) => TakeOutcome::NeedMore,
        Err(Error::ParseFailed) => TakeOutcome::Failed,
    }
}

} // verus!
