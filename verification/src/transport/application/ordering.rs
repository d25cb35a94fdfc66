//! Frames that may not overtake a display switch.

use crate::transport::error::{is_protocol_state, QuicTransportError};
use vstd::prelude::*;

verus! {

/// Counts the display switches that were sent and the last one that was acknowledged. A frame goes
/// out only once the switch before it was acknowledged.
#[derive(Debug)]
pub struct VideoOrderingGate {
    requested_epoch: u64,
    acknowledged_epoch: u64,
}

impl VideoOrderingGate {
    /// The last epoch that was given out.
    pub closed spec fn requested(&self) -> u64 {
        self.requested_epoch
    }

    /// The highest epoch that was acknowledged.
    pub closed spec fn acknowledged(&self) -> u64 {
        self.acknowledged_epoch
    }

    /// No epoch was acknowledged that was not given out.
    pub open spec fn wf(&self) -> bool {
        self.acknowledged() <= self.requested()
    }

    /// Frames of this epoch may go out.
    pub open spec fn opens(&self, epoch: u64) -> bool {
        self.acknowledged() >= epoch
    }

    /// No epoch was given out, and none was acknowledged.
    pub fn new() -> (gate: Self)
        ensures
            gate.wf(),
            gate.requested() == 0,
            gate.acknowledged() == 0,
    {
        VideoOrderingGate { requested_epoch: 0, acknowledged_epoch: 0 }
    }

    /// Gives out the next epoch, as long as there is one.
    pub fn next_epoch(&mut self) -> (epoch: Result<u64, QuicTransportError>)
        ensures
            old(self).wf() ==> final(self).wf(),
            final(self).acknowledged() == old(self).acknowledged(),
            match epoch {
                Ok(epoch) => {
                    &&& old(self).requested() < u64::MAX
                    &&& epoch == old(self).requested() + 1
                    &&& final(self).requested() == epoch
                },
                Err(error) => {
                    &&& old(self).requested() == u64::MAX
                    &&& final(self).requested() == old(self).requested()
                    &&& is_protocol_state(error, "video ordering epoch exhausted"@)
                },
            },
    {
        match self.requested_epoch.checked_add(1) {
            Some(epoch) => {
                self.requested_epoch = epoch;
                Ok(epoch)
            },
            None => Err(QuicTransportError::ProtocolState("video ordering epoch exhausted".to_owned())),
        }
    }

    /// The last epoch that was given out.
    pub fn current_epoch(&self) -> (epoch: u64)
        ensures
            epoch == self.requested(),
    {
        self.requested_epoch
    }

    /// Gives up an epoch, so that no frame waits for its acknowledgement.
    pub fn cancel_epoch(&mut self, epoch: u64)
        ensures
            old(self).wf() && epoch <= old(self).requested() ==> final(self).wf(),
            final(self).requested() == old(self).requested(),
            final(self).acknowledged() == if old(self).acknowledged() < epoch {
                epoch
            } else {
                old(self).acknowledged()
            },
            final(self).opens(epoch),
    {
        self.acknowledge(epoch);
    }

    /// An epoch was acknowledged, and with it every earlier one.
    pub fn acknowledge(&mut self, epoch: u64)
        ensures
            old(self).wf() && epoch <= old(self).requested() ==> final(self).wf(),
            final(self).requested() == old(self).requested(),
            final(self).acknowledged() == if old(self).acknowledged() < epoch {
                epoch
            } else {
                old(self).acknowledged()
            },
            final(self).opens(epoch),
            forall|other: u64| old(self).opens(other) ==> #[trigger] final(self).opens(other),
    {
        if self.acknowledged_epoch < epoch {
            self.acknowledged_epoch = epoch;
        }
    }

    /// Whether frames of this epoch may go out.
    pub fn is_open(&self, epoch: u64) -> (open: bool)
        ensures
            open == self.opens(epoch),
    {
        self.acknowledged_epoch >= epoch
    }
}

/// A frame of an epoch that is given out next waits until the epoch is acknowledged or given up.
pub proof fn frame_waits_for_its_epoch(gate: VideoOrderingGate, epoch: u64)
    requires
        gate.wf(),
        epoch == gate.requested() + 1,
    ensures
        !gate.opens(epoch),
{
}

} // verus!
