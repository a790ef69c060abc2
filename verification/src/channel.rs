//! A verified model of the command channel: a FIFO queue between the
//! UI-owning context, which enqueues textual commands, and the writer
//! context, which dequeues them one at a time and puts each on the wire.
//! The embedding application hosts the two ends on its own threads; this
//! model is what makes the ordering guarantee a theorem: the wire sequence
//! is always a prefix of the submission sequence.
use vstd::prelude::*;
use crate::model::BackendError;

verus! {

/// The channel's state: what has already been written to the backend's
/// input stream, what is still pending, and whether the consuming side has
/// been torn down.
pub struct CommandChannel {
    /// Commands already written to the wire, oldest first.
    pub written: Vec<String>,
    /// Commands accepted but not yet written, oldest first.
    pub pending: Vec<String>,
    /// The consuming side is gone; sends fail from now on.
    pub closed: bool,
}

impl CommandChannel {
    /// Every command ever accepted, in submission order.
    pub open spec fn sent(self) -> Seq<String> {
        self.written@ + self.pending@
    }

    /// A fresh, open, empty channel.
    pub fn new() -> (r: CommandChannel)
        ensures
            r.written@.len() == 0,
            r.pending@.len() == 0,
            !r.closed,
    {
        CommandChannel { written: Vec::new(), pending: Vec::new(), closed: false }
    }

    /// Enqueues one command. Fails with `SendFailed` exactly when the
    /// consuming side has been torn down; the command is then dropped and
    /// nothing changes. On success the command goes to the back of the
    /// queue: the submission order is the arrival order at the queue.
    pub fn send(&mut self, command: String) -> (r: Result<(), BackendError>)
        ensures
            old(self).closed ==> {
                &&& r == Err::<(), BackendError>(BackendError::SendFailed)
                &&& *final(self) == *old(self)
            },
            !old(self).closed ==> {
                &&& r == Ok::<(), BackendError>(())
                &&& final(self).written == old(self).written
                &&& final(self).pending@ == old(self).pending@.push(command)
                &&& !final(self).closed
                &&& final(self).sent() == old(self).sent().push(command)
            },
    {
        if self.closed {
            return Err(BackendError::SendFailed);
        }
        proof {
            assert(self.written@ + self.pending@.push(command) =~= (self.written@
                + self.pending@).push(command));
        }
        self.pending.push(command);
        Ok(())
    }

    /// The writer context takes the oldest pending command to put it on the
    /// wire. The wire log extends by exactly that command, and the overall
    /// submission sequence is untouched: writing reorders nothing.
    pub fn write_next(&mut self) -> (r: Option<String>)
        ensures
            old(self).pending@.len() == 0 ==> r is None && *final(self) == *old(self),
            old(self).pending@.len() > 0 ==> match r {
                Some(c) => {
                    &&& c == old(self).pending@[0]
                    &&& final(self).written@ == old(self).written@.push(c)
                    &&& final(self).pending@ == old(self).pending@.drop_first()
                    &&& final(self).closed == old(self).closed
                    &&& final(self).sent() == old(self).sent()
                },
                None => false,
            },
    {
        if self.pending.len() == 0 {
            return None;
        }
        let c = self.pending.remove(0);
        proof {
            assert(self.pending@ =~= old(self).pending@.drop_first());
        }
        self.written.push(c.clone());
        proof {
            assert(self.written@ + self.pending@ =~= old(self).written@ + old(self).pending@);
        }
        Some(c)
    }

    /// Tears the channel down: every later send fails.
    pub fn close(&mut self)
        ensures
            final(self).written == old(self).written,
            final(self).pending == old(self).pending,
            final(self).closed,
    {
        self.closed = true;
    }

    /// Command ordering: at every point, what the backend has observed is
    /// exactly a prefix of the submission sequence. So for commands sent
    /// one after the other, the backend observes them in submission order,
    /// whoever called send.
    pub proof fn lemma_wire_is_send_prefix(self)
        ensures
            self.written@.len() <= self.sent().len(),
            self.written@ == self.sent().take(self.written@.len() as int),
    {
        assert(self.written@ =~= self.sent().take(self.written@.len() as int));
    }
}

} // verus!
