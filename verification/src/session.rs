//! The command/ack/done lifecycle, as one state machine.
//!
//! The network task accepts commands, assigns ids and emits `(ack id)`;
//! the motion task takes them off the FIFO one at a time and, when a
//! command's effect is complete, `(done id)` is emitted.  Stop clears the
//! queue and is acknowledged without an id.  This module keeps the whole
//! reply history and proves the protocol's ordering guarantees:
//!
//! * ids are assigned in increasing order, so acks appear in id order;
//! * completions appear in id order;
//! * every `(done k)` is preceded by its `(ack k)`;
//! * while no stop intervenes, a drained session has emitted exactly one
//!   ack and one done per accepted command.

use vstd::prelude::*;

use crate::channel::{CommandQueue, COMMAND_BUFFER_SIZE};
use crate::gcode::{Command, CommandModel};
use crate::wire::CommandId;

verus! {

/// One line of the device's reply stream, as the host sees it.
#[derive(Clone, Copy, Debug, PartialEq, Eq, Structural)]
pub enum Reply {
    /// `(ack)` or `(ack id)`
    Ack(Option<u32>),
    /// `(done id)`
    Done(u32),
    /// `(parse failed)`
    ParseFailed,
}

/// How many id-carrying acks a reply history holds.
pub open spec fn num_acks(log: Seq<Reply>) -> int
    decreases log.len(),
{
    if log.len() == 0 {
        0
    } else {
        num_acks(log.drop_last()) + match log.last() {
            Reply::Ack(Option::Some(_)) => 1int,
            _ => 0,
        }
    }
}

/// How many completions a reply history holds.
pub open spec fn num_dones(log: Seq<Reply>) -> int
    decreases log.len(),
{
    if log.len() == 0 {
        0
    } else {
        num_dones(log.drop_last()) + match log.last() {
            Reply::Done(_) => 1int,
            _ => 0,
        }
    }
}

/// How many id-less acks (stop receipts) a reply history holds.
pub open spec fn num_stop_acks(log: Seq<Reply>) -> int
    decreases log.len(),
{
    if log.len() == 0 {
        0
    } else {
        num_stop_acks(log.drop_last()) + match log.last() {
            Reply::Ack(Option::None) => 1int,
            _ => 0,
        }
    }
}

/// The reply counters are never negative.
pub proof fn lemma_counts_nonneg(log: Seq<Reply>)
    ensures
        num_acks(log) >= 0,
        num_dones(log) >= 0,
        num_stop_acks(log) >= 0,
    decreases log.len(),
{
    if log.len() > 0 {
        lemma_counts_nonneg(log.drop_last());
    }
}

/// Whether a reply is an ack that carries an id.
pub open spec fn is_id_ack(r: Reply) -> bool {
    r matches Reply::Ack(Option::Some(_))
}

/// The id an id-carrying ack holds.
pub open spec fn ack_id_of(r: Reply) -> u32 {
    match r {
        Reply::Ack(Option::Some(k)) => k,
        _ => 0,
    }
}

/// Whether a reply is a completion.
pub open spec fn is_done(r: Reply) -> bool {
    r is Done
}

/// The id a completion holds.
pub open spec fn done_id_of(r: Reply) -> u32 {
    match r {
        Reply::Done(k) => k,
        _ => 0,
    }
}

/// Acks with ids appear in strictly increasing id order.
pub open spec fn acks_ordered(log: Seq<Reply>) -> bool {
    forall|p: int, q: int|
        0 <= p < q < log.len() && is_id_ack(#[trigger] log[p]) && is_id_ack(#[trigger] log[q])
            ==> ack_id_of(log[p]) < ack_id_of(log[q])
}

/// Completions appear in strictly increasing id order.
pub open spec fn dones_ordered(log: Seq<Reply>) -> bool {
    forall|p: int, q: int|
        0 <= p < q < log.len() && is_done(#[trigger] log[p]) && is_done(#[trigger] log[q])
            ==> done_id_of(log[p]) < done_id_of(log[q])
}

/// Every completion is preceded by the matching ack.
pub open spec fn acks_precede_dones(log: Seq<Reply>) -> bool {
    forall|p: int|
        0 <= p < log.len() && is_done(#[trigger] log[p]) ==> exists|q: int|
            0 <= q < p && log[q] == Reply::Ack(Option::Some(done_id_of(log[p])))
}

/// The id bound: every id in the log was assigned (is at most `hi`),
/// and ids start at one.
pub open spec fn log_ids_bounded(log: Seq<Reply>, hi: u32) -> bool {
    forall|p: int|
        0 <= p < log.len() ==> {
            &&& (is_id_ack(#[trigger] log[p]) ==> 1 <= ack_id_of(log[p]) <= hi)
            &&& (is_done(log[p]) ==> 1 <= done_id_of(log[p]) <= hi)
        }
}

/// Pushing a reply that carries no id (the bare ack or a parse failure)
/// leaves every ordering property of the history intact.
pub proof fn lemma_log_push_neutral(oldlog: Seq<Reply>, x: Reply, hi: u32)
    requires
        acks_ordered(oldlog),
        dones_ordered(oldlog),
        acks_precede_dones(oldlog),
        log_ids_bounded(oldlog, hi),
        !is_id_ack(x),
        !is_done(x),
    ensures
        acks_ordered(oldlog.push(x)),
        dones_ordered(oldlog.push(x)),
        acks_precede_dones(oldlog.push(x)),
        log_ids_bounded(oldlog.push(x), hi),
{
    let log = oldlog.push(x);
    assert forall|p: int, q2: int|
        0 <= p < q2 < log.len() && is_id_ack(#[trigger] log[p]) && is_id_ack(#[trigger] log[q2])
        implies ack_id_of(log[p]) < ack_id_of(log[q2]) by {
        assert(q2 < oldlog.len());
        assert(log[p] == oldlog[p] && log[q2] == oldlog[q2]);
    }
    assert forall|p: int, q2: int|
        0 <= p < q2 < log.len() && is_done(#[trigger] log[p]) && is_done(#[trigger] log[q2])
        implies done_id_of(log[p]) < done_id_of(log[q2]) by {
        assert(q2 < oldlog.len());
        assert(log[p] == oldlog[p] && log[q2] == oldlog[q2]);
    }
    assert forall|p: int|
        0 <= p < log.len() && is_done(#[trigger] log[p]) implies exists|q3: int|
        0 <= q3 < p && log[q3] == Reply::Ack(Option::Some(done_id_of(log[p]))) by {
        assert(p < oldlog.len() && log[p] == oldlog[p]);
        let w = choose|q3: int|
            0 <= q3 < p && oldlog[q3] == Reply::Ack(Option::Some(done_id_of(oldlog[p])));
        assert(log[w] == oldlog[w]);
    }
    assert forall|p: int| 0 <= p < log.len() implies {
        &&& (is_id_ack(#[trigger] log[p]) ==> 1 <= ack_id_of(log[p]) <= hi)
        &&& (is_done(log[p]) ==> 1 <= done_id_of(log[p]) <= hi)
    } by {
        if p < oldlog.len() {
            assert(log[p] == oldlog[p]);
        }
    }
}

/// The whole lifecycle: id generator, pending queue, the command in
/// flight on the motion side, and the reply history.
pub struct Session {
    next_id: u32,
    queue: CommandQueue,
    inflight: Option<CommandId>,
    log: Vec<Reply>,
}

impl Session {
    /// The reply history so far.
    pub closed spec fn log(&self) -> Seq<Reply> {
        self.log@
    }

    /// How many commands were accepted (given an id).
    pub closed spec fn accepted(&self) -> int {
        self.next_id as int
    }

    /// The queued, unstarted commands.
    pub closed spec fn queue_view(&self) -> Seq<(u32, CommandModel)> {
        self.queue@
    }

    /// The command the motion side is executing, if any.
    pub closed spec fn inflight_id(&self) -> Option<u32> {
        match self.inflight {
            Option::Some(c) => Option::Some(c.0),
            Option::None => Option::None,
        }
    }

    /// One when a command is in flight, else zero.
    pub open spec fn inflight_count(&self) -> int {
        if self.inflight_id() is Some {
            1
        } else {
            0
        }
    }

    /// The session invariant.
    pub closed spec fn wf(&self) -> bool {
        let log = self.log@;
        let q = self.queue@;
        let n = self.next_id;
        &&& num_acks(log) == n
        &&& acks_ordered(log)
        &&& dones_ordered(log)
        &&& acks_precede_dones(log)
        &&& log_ids_bounded(log, n)
        &&& forall|i: int, j: int| 0 <= i < j < q.len() ==> #[trigger] q[i].0 < #[trigger] q[j].0
        &&& forall|i: int| 0 <= i < q.len() ==> 1 <= #[trigger] q[i].0 <= n
        &&& (self.inflight matches Option::Some(c) ==> {
            &&& 1 <= c.0 <= n
            &&& forall|i: int| 0 <= i < q.len() ==> c.0 < #[trigger] q[i].0
            &&& exists|p: int| 0 <= p < log.len() && log[p] == Reply::Ack(Option::Some(c.0))
        })
        &&& forall|i: int|
            0 <= i < q.len() ==> exists|p: int|
                0 <= p < log.len() && log[p] == Reply::Ack(Option::Some(#[trigger] q[i].0))
        &&& forall|p: int|
            0 <= p < log.len() && is_done(#[trigger] log[p]) ==> {
                &&& (self.inflight matches Option::Some(c) ==> done_id_of(log[p]) < c.0)
                &&& forall|i: int| 0 <= i < q.len() ==> done_id_of(log[p]) < #[trigger] q[i].0
            }
        &&& (num_stop_acks(log) == 0 ==> num_dones(log) + q.len() + self.inflight_count() == n)
    }

    /// The reply history, for the shell to drain into the socket.
    pub fn replies(&self) -> (r: &Vec<Reply>)
        ensures
            r@ == self.log(),
    {
        &self.log
    }

    /// How many commands sit unstarted in the queue.
    pub fn queue_len(&self) -> (r: usize)
        ensures
            r == self.queue_view().len(),
    {
        self.queue.len()
    }

    /// The id of the command in flight, if any.
    pub fn inflight(&self) -> (r: Option<u32>)
        ensures
            r == self.inflight_id(),
    {
        match self.inflight {
            Some(c) => Some(c.0),
            None => None,
        }
    }

    /// A fresh session: nothing accepted, nothing replied.
    pub fn new() -> (r: Session)
        ensures
            r.wf(),
            r.log() == Seq::<Reply>::empty(),
            r.accepted() == 0,
            r.queue_view() == Seq::<(u32, CommandModel)>::empty(),
            r.inflight_id() is None,
    {
        Session { next_id: 0, queue: CommandQueue::new(), inflight: None, log: Vec::new() }
    }

    /// Whether another command can be accepted right now.
    pub fn can_accept(&self) -> (r: bool)
        ensures
            r == (self.queue_view().len() < COMMAND_BUFFER_SIZE && self.accepted() < u32::MAX),
    {
        !self.queue.is_full() && self.next_id < u32::MAX
    }

    /// Accept a command: assign it the next id, emit its ack, and queue it.
    pub fn accept(&mut self, command: Command) -> (id: CommandId)
        requires
            old(self).wf(),
            old(self).queue_view().len() < COMMAND_BUFFER_SIZE,
            old(self).accepted() < u32::MAX,
        ensures
            final(self).wf(),
            id.0 == old(self).accepted() + 1,
            final(self).accepted() == old(self).accepted() + 1,
            final(self).log() == old(self).log().push(Reply::Ack(Option::Some(id.0))),
            final(self).queue_view() == old(self).queue_view().push((id.0, command@)),
            final(self).inflight_id() == old(self).inflight_id(),
    {
        let ghost oldlog = self.log@;
        let ghost oldq = self.queue@;
        let id = CommandId(self.next_id + 1);
        self.next_id = self.next_id + 1;
        let ghost cmdm = command@;
        self.queue.send(id, command);
        self.log.push(Reply::Ack(Some(id.0)));
        proof {
            let log = self.log@;
            assert(log.drop_last() =~= oldlog);
            assert(log.last() == Reply::Ack(Option::Some(id.0)));
            assert(num_acks(log) == num_acks(oldlog) + 1);
            assert(num_dones(log) == num_dones(oldlog));
            assert(num_stop_acks(log) == num_stop_acks(oldlog));
            assert forall|p: int| 0 <= p < oldlog.len() implies log[p] == oldlog[p] by {}
            self.lemma_wf_after_ack(*old(self), id, cmdm);
        }
        id
    }

    /// The invariant survives accepting one command.
    proof fn lemma_wf_after_ack(&self, prev: Session, id: CommandId, cmdm: CommandModel)
        requires
            prev.wf(),
            prev.queue_view().len() < COMMAND_BUFFER_SIZE,
            prev.accepted() < u32::MAX,
            self.next_id == prev.next_id + 1,
            id.0 == prev.next_id + 1,
            self.log@ == prev.log@.push(Reply::Ack(Option::Some(id.0))),
            self.queue@ == prev.queue@.push((id.0, cmdm)),
            self.inflight == prev.inflight,
        ensures
            self.wf(),
    {
        let log = self.log@;
        let oldlog = prev.log@;
        let q = self.queue@;
        let oldq = prev.queue@;
        assert(log.drop_last() =~= oldlog);
        assert(num_acks(log) == num_acks(oldlog) + 1);
        assert(num_dones(log) == num_dones(oldlog));
        assert(num_stop_acks(log) == num_stop_acks(oldlog));
        assert forall|p: int, q2: int|
            0 <= p < q2 < log.len() && is_id_ack(#[trigger] log[p]) && is_id_ack(
                #[trigger] log[q2],
            ) implies ack_id_of(log[p]) < ack_id_of(log[q2]) by {
            if q2 < oldlog.len() {
                assert(log[p] == oldlog[p] && log[q2] == oldlog[q2]);
            } else {
                assert(ack_id_of(log[q2]) == id.0);
                assert(log[p] == oldlog[p]);
                assert(1 <= ack_id_of(oldlog[p]) <= prev.next_id);
            }
        }
        assert forall|p: int, q2: int|
            0 <= p < q2 < log.len() && is_done(#[trigger] log[p]) && is_done(#[trigger] log[q2])
            implies done_id_of(log[p]) < done_id_of(log[q2]) by {
            assert(q2 < oldlog.len());
            assert(log[p] == oldlog[p] && log[q2] == oldlog[q2]);
        }
        assert forall|p: int|
            0 <= p < log.len() && is_done(#[trigger] log[p]) implies exists|q3: int|
            0 <= q3 < p && log[q3] == Reply::Ack(Option::Some(done_id_of(log[p]))) by {
            assert(p < oldlog.len() && log[p] == oldlog[p]);
            let w = choose|q3: int|
                0 <= q3 < p && oldlog[q3] == Reply::Ack(Option::Some(done_id_of(oldlog[p])));
            assert(log[w] == oldlog[w]);
        }
        assert forall|i: int| 0 <= i < q.len() implies exists|p: int|
            0 <= p < log.len() && log[p] == Reply::Ack(Option::Some(#[trigger] q[i].0)) by {
            if i < oldq.len() {
                assert(q[i] == oldq[i]);
                let w = choose|p: int|
                    0 <= p < oldlog.len() && oldlog[p] == Reply::Ack(Option::Some(oldq[i].0));
                assert(log[w] == oldlog[w]);
            } else {
                assert(q[i].0 == id.0);
                assert(log[log.len() - 1] == Reply::Ack(Option::Some(id.0)));
            }
        }
        assert forall|p: int| 0 <= p < log.len() implies {
            &&& (is_id_ack(#[trigger] log[p]) ==> 1 <= ack_id_of(log[p]) <= self.next_id)
            &&& (is_done(log[p]) ==> 1 <= done_id_of(log[p]) <= self.next_id)
        } by {
            if p < oldlog.len() {
                assert(log[p] == oldlog[p]);
            }
        }
        assert forall|p: int|
            0 <= p < log.len() && is_done(#[trigger] log[p]) implies (self.inflight
            matches Option::Some(c) ==> done_id_of(log[p]) < c.0) by {
            assert(p < oldlog.len());
            assert(log[p] == oldlog[p]);
        }
        match self.inflight {
            Option::Some(c) => {
                let w = choose|p: int|
                    0 <= p < oldlog.len() && oldlog[p] == Reply::Ack(Option::Some(c.0));
                assert(log[w] == oldlog[w]);
            },
            Option::None => {},
        }
    }

    /// Stop: drop every queued command and emit the bare ack.  The command
    /// in flight, if any, is not interrupted.
    pub fn stop(&mut self)
        requires
            old(self).wf(),
        ensures
            final(self).wf(),
            final(self).accepted() == old(self).accepted(),
            final(self).log() == old(self).log().push(Reply::Ack(Option::None)),
            final(self).queue_view() == Seq::<(u32, CommandModel)>::empty(),
            final(self).inflight_id() == old(self).inflight_id(),
    {
        self.queue.clear();
        self.log.push(Reply::Ack(None));
        proof {
            self.lemma_wf_after_stop(*old(self));
        }
    }

    /// The invariant survives a stop.
    proof fn lemma_wf_after_stop(&self, prev: Session)
        requires
            prev.wf(),
            self.next_id == prev.next_id,
            self.log@ == prev.log@.push(Reply::Ack(Option::None)),
            self.queue@ == Seq::<(u32, CommandModel)>::empty(),
            self.inflight == prev.inflight,
        ensures
            self.wf(),
    {
        let oldlog = prev.log@;
        let log = oldlog.push(Reply::Ack(Option::None));
        assert(log.drop_last() =~= oldlog);
        assert(num_acks(log) == num_acks(oldlog));
        assert(num_stop_acks(log) == num_stop_acks(oldlog) + 1);
        lemma_counts_nonneg(oldlog);
        lemma_log_push_neutral(oldlog, Reply::Ack(Option::None), prev.next_id);
        match self.inflight {
            Option::Some(c) => {
                let w = choose|p: int|
                    0 <= p < oldlog.len() && oldlog[p] == Reply::Ack(Option::Some(c.0));
                assert(log[w] == oldlog[w]);
            },
            Option::None => {},
        }
        assert forall|p: int|
            0 <= p < log.len() && is_done(#[trigger] log[p]) implies (self.inflight
            matches Option::Some(c) ==> done_id_of(log[p]) < c.0) by {
            assert(p < oldlog.len());
            assert(log[p] == oldlog[p]);
        }
    }

    /// Hand the oldest queued command to the motion side.
    pub fn begin(&mut self) -> (r: Option<(CommandId, Command)>)
        requires
            old(self).wf(),
            old(self).inflight_id() is None,
        ensures
            final(self).wf(),
            final(self).accepted() == old(self).accepted(),
            final(self).log() == old(self).log(),
            match r {
                Option::Some((id, cmd)) => {
                    &&& old(self).queue_view().len() > 0
                    &&& old(self).queue_view()[0] == ((id.0, cmd@))
                    &&& final(self).queue_view() == old(self).queue_view().drop_first()
                    &&& final(self).inflight_id() == Option::Some(id.0)
                },
                Option::None => {
                    &&& old(self).queue_view().len() == 0
                    &&& final(self).queue_view() == old(self).queue_view()
                    &&& final(self).inflight_id() is None
                },
            },
    {
        let ghost oldq = self.queue@;
        let ghost log = self.log@;
        match self.queue.receive() {
            Some((id, cmd)) => {
                self.inflight = Some(id);
                proof {
                    let q = self.queue@;
                    assert(id.0 == oldq[0].0);
                    assert forall|i: int| 0 <= i < q.len() implies #[trigger] q[i] == oldq[i + 1] by {}
                    assert forall|i: int| 0 <= i < q.len() implies id.0 < #[trigger] q[i].0 by {
                        assert(oldq[0].0 < oldq[i + 1].0);
                    }
                    assert forall|i: int, j: int| 0 <= i < j < q.len() implies #[trigger] q[i].0
                        < #[trigger] q[j].0 by {
                        assert(oldq[i + 1].0 < oldq[j + 1].0);
                    }
                    assert forall|i: int| 0 <= i < q.len() implies 1 <= #[trigger] q[i].0
                        <= self.next_id by {
                        assert(1 <= oldq[i + 1].0 <= self.next_id);
                    }
                    assert forall|i: int| 0 <= i < q.len() implies exists|p: int|
                        0 <= p < log.len() && log[p] == Reply::Ack(Option::Some(
                            #[trigger] q[i].0,
                        )) by {
                        assert(exists|p: int|
                            0 <= p < log.len() && log[p] == Reply::Ack(Option::Some(
                                oldq[i + 1].0,
                            )));
                    }
                    assert forall|p: int|
                        0 <= p < log.len() && is_done(#[trigger] log[p]) implies done_id_of(
                        log[p],
                    ) < id.0 by {
                        assert(done_id_of(log[p]) < oldq[0].0);
                    }
                }
                Some((id, cmd))
            },
            None => None,
        }
    }

    /// The in-flight command's effect has finished: emit its done.
    pub fn finish(&mut self) -> (id: u32)
        requires
            old(self).wf(),
            old(self).inflight_id() is Some,
        ensures
            final(self).wf(),
            final(self).accepted() == old(self).accepted(),
            Option::Some(id) == old(self).inflight_id(),
            final(self).log() == old(self).log().push(Reply::Done(id)),
            final(self).queue_view() == old(self).queue_view(),
            final(self).inflight_id() is None,
    {
        let ghost oldlog = self.log@;
        let id = match self.inflight {
            Some(c) => c.0,
            None => 0,  // unreachable under the precondition
        };
        self.inflight = None;
        self.log.push(Reply::Done(id));
        proof {
            let log = self.log@;
            assert(log.drop_last() =~= oldlog);
            assert(num_acks(log) == num_acks(oldlog));
            assert(num_dones(log) == num_dones(oldlog) + 1);
            assert(num_stop_acks(log) == num_stop_acks(oldlog));
            assert forall|p: int| 0 <= p < oldlog.len() implies log[p] == oldlog[p] by {}
            assert forall|p: int, q2: int|
                0 <= p < q2 < log.len() && is_done(#[trigger] log[p]) && is_done(
                    #[trigger] log[q2],
                ) implies done_id_of(log[p]) < done_id_of(log[q2]) by {
                if q2 < oldlog.len() {
                    assert(log[p] == oldlog[p] && log[q2] == oldlog[q2]);
                } else {
                    assert(done_id_of(log[q2]) == id);
                    assert(log[p] == oldlog[p]);
                }
            }
            assert forall|p: int|
                0 <= p < log.len() && is_done(#[trigger] log[p]) implies exists|q3: int|
                0 <= q3 < p && log[q3] == Reply::Ack(Option::Some(done_id_of(log[p]))) by {
                if p < oldlog.len() {
                    assert(log[p] == oldlog[p]);
                    let w = choose|q3: int|
                        0 <= q3 < p && oldlog[q3] == Reply::Ack(Option::Some(done_id_of(
                            oldlog[p],
                        )));
                    assert(log[w] == oldlog[w]);
                } else {
                    assert(done_id_of(log[p]) == id);
                    let w = choose|q3: int|
                        0 <= q3 < oldlog.len() && oldlog[q3] == Reply::Ack(Option::Some(id));
                    assert(log[w] == oldlog[w]);
                }
            }
            assert forall|i: int| 0 <= i < self.queue@.len() implies exists|p: int|
                0 <= p < log.len() && log[p] == Reply::Ack(Option::Some(
                    #[trigger] self.queue@[i].0,
                )) by {
                let w = choose|p: int|
                    0 <= p < oldlog.len() && oldlog[p] == Reply::Ack(Option::Some(
                        self.queue@[i].0,
                    ));
                assert(log[w] == oldlog[w]);
            }
        }
        id
    }
}

// ---------------------------------------------------------------------------
// The protocol's guarantees, as laws over any reachable session.
// ---------------------------------------------------------------------------

/// For any two id-carrying acks on one connection, the earlier ack carries
/// the smaller id: `ack k1` precedes `ack k2` whenever `k1 < k2`.
pub proof fn lemma_acks_in_id_order(s: &Session, p: int, q: int, k1: u32, k2: u32)
    requires
        s.wf(),
        0 <= p < q < s.log().len(),
        s.log()[p] == Reply::Ack(Option::Some(k1)),
        s.log()[q] == Reply::Ack(Option::Some(k2)),
    ensures
        k1 < k2,
{
    assert(is_id_ack(s.log()[p]) && is_id_ack(s.log()[q]));
}

/// For any two completions on one connection, the earlier done carries the
/// smaller id: `done k1` precedes `done k2` whenever `k1 < k2`.
pub proof fn lemma_dones_in_id_order(s: &Session, p: int, q: int, k1: u32, k2: u32)
    requires
        s.wf(),
        0 <= p < q < s.log().len(),
        s.log()[p] == Reply::Done(k1),
        s.log()[q] == Reply::Done(k2),
    ensures
        k1 < k2,
{
    assert(is_done(s.log()[p]) && is_done(s.log()[q]));
}

/// Every `done k` is preceded by its `ack k`.
pub proof fn lemma_ack_precedes_done(s: &Session, p: int, k: u32)
    requires
        s.wf(),
        0 <= p < s.log().len(),
        s.log()[p] == Reply::Done(k),
    ensures
        exists|q: int| 0 <= q < p && s.log()[q] == Reply::Ack(Option::Some(k)),
{
    assert(is_done(s.log()[p]) && done_id_of(s.log()[p]) == k);
}

/// A session that accepted N commands, was never stopped, and has drained
/// (nothing queued, nothing in flight) has emitted exactly N id-carrying
/// acks and exactly N dones.
pub proof fn lemma_drained_session_counts(s: &Session)
    requires
        s.wf(),
        num_stop_acks(s.log()) == 0,
        s.queue_view().len() == 0,
        s.inflight_id() is None,
    ensures
        num_acks(s.log()) == s.accepted(),
        num_dones(s.log()) == s.accepted(),
{
}

} // verus!
