//! Batch sending: strictly sequential lines, cooperative cancellation.
//!
//! The loop that performs a batch polls for a cancel request before each
//! line, at line granularity only — a line's key events, once started, run to
//! completion. A failed send aborts the whole batch (no retry, no
//! skip-and-continue), so that no further keystrokes leak into whatever
//! window happens to hold focus afterwards. The decisions live here,
//! verified; the binary's loop performs the sends and the polls and reports
//! each outcome back.

use vstd::prelude::*;

verus! {

/// Where a batch stands.
#[derive(Clone, Copy, PartialEq, Eq, Structural, Debug)]
pub enum BatchStatus {
    /// Lines remain and neither a cancel nor a failure has occurred.
    Running,
    /// The operator asked to stop; honored between lines, without error.
    Cancelled,
    /// A send failed; the batch stopped at once to avoid stray input.
    Failed,
    /// Every queued line was sent.
    Completed,
}

/// What the batch loop must do next.
#[derive(Clone, Copy, PartialEq, Eq, Structural, Debug)]
pub enum BatchAction {
    /// Send the line at this index of the queue.
    Send(usize),
    /// Stop the loop: the batch completed, was cancelled, or failed.
    Stop,
}

/// The batch sender's state: a queue of `total` lines of which the first
/// `sent` have been sent, and where the batch stands.
pub struct Batch {
    /// How many lines the batch holds.
    pub total: usize,
    /// How many lines have been sent so far.
    pub sent: usize,
    /// Where the batch stands.
    pub status: BatchStatus,
}

impl Batch {
    /// The state invariant: the count of sent lines never passes the queue,
    /// a completed batch sent everything, and a running one has work left.
    pub open spec fn wf(self) -> bool {
        &&& self.sent <= self.total
        &&& (self.status is Completed ==> self.sent == self.total)
        &&& (self.status is Running ==> self.sent < self.total)
    }

    /// A fresh batch over `total` queued lines: nothing sent, running — or
    /// already complete when there is nothing to send.
    pub fn new(total: usize) -> (r: Batch)
        ensures
            r.wf(),
            r.total == total,
            r.sent == 0,
            r.status == (if total == 0 {
                BatchStatus::Completed
            } else {
                BatchStatus::Running
            }),
    {
        Batch {
            total,
            sent: 0,
            status: if total == 0 {
                BatchStatus::Completed
            } else {
                BatchStatus::Running
            },
        }
    }

    /// What to do next: send the first unsent line while running; stop the
    /// moment the batch is cancelled, failed or complete.
    pub fn next_action(&self) -> (r: BatchAction)
        requires
            self.wf(),
        ensures
            r == (if self.status is Running {
                BatchAction::Send(self.sent)
            } else {
                BatchAction::Stop
            }),
    {
        match self.status {
            BatchStatus::Running => BatchAction::Send(self.sent),
            _ => BatchAction::Stop,
        }
    }

    /// A cancel request was polled. A running batch stops after the line
    /// that just completed, without error; anything already stopped is left
    /// as it stands. Nothing sent is ever un-sent.
    pub fn cancel(&mut self)
        requires
            old(self).wf(),
        ensures
            final(self).wf(),
            final(self).total == old(self).total,
            final(self).sent == old(self).sent,
            final(self).status == (if old(self).status is Running {
                BatchStatus::Cancelled
            } else {
                old(self).status
            }),
    {
        if let BatchStatus::Running = self.status {
            self.status = BatchStatus::Cancelled;
        }
    }

    /// One line was sent successfully: count it, and complete the batch when
    /// it was the last.
    pub fn record_success(&mut self)
        requires
            old(self).wf(),
            old(self).status is Running,
        ensures
            final(self).wf(),
            final(self).total == old(self).total,
            final(self).sent == old(self).sent + 1,
            final(self).status == (if old(self).sent + 1 == old(self).total {
                BatchStatus::Completed
            } else {
                BatchStatus::Running
            }),
    {
        self.sent = self.sent + 1;
        if self.sent == self.total {
            self.status = BatchStatus::Completed;
        }
    }

    /// A send failed: the batch aborts entirely, the failed line uncounted.
    pub fn record_failure(&mut self)
        requires
            old(self).wf(),
            old(self).status is Running,
        ensures
            final(self).wf(),
            final(self).total == old(self).total,
            final(self).sent == old(self).sent,
            final(self).status == BatchStatus::Failed,
    {
        self.status = BatchStatus::Failed;
    }
}

} // verus!
