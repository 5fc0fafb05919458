use vstd::prelude::*;
use crate::error::Error;

verus! {

/// The stages of a relayer.
#[derive(Clone, Copy, Debug, PartialEq, Eq, Structural)]
pub enum RelayState {
    /// The light client holds no best block yet.
    Uninitialized,
    /// The light client is far behind: headers go in batches.
    CatchingUp,
    /// The light client is near the tip: headers go one at a time, through
    /// the delayed submission.
    TrackingTip,
    /// A shutdown ended the relayer.
    Stopped,
}

/// What the relayer does next.
#[derive(Clone, Copy, Debug, PartialEq, Eq, Structural)]
pub enum DriverAction {
    /// Seed the light client with the trusted checkpoint.
    Initialize,
    /// Submit the headers at heights `from..=to` as one batch.
    SubmitBatch { from: u32, to: u32 },
    /// Submit the header at `height` on its own.
    SubmitSingle { height: u32 },
    /// Nothing to submit: wait for a new block.
    Idle,
    /// Stop.
    Exit,
}

/// What the relayer does with the outcome of a submission.
#[derive(Clone, Copy, Debug, PartialEq, Eq, Structural)]
pub enum OutcomeDecision {
    /// Go on with the next plan.
    Continue,
    /// Shut down cleanly; nothing is reported.
    Exit,
    /// Hand the failure to the caller, who chooses when to retry.
    Surface(Error),
}

/// The decision in the tracking stage.
pub open spec fn tracking_action(remote: u32, local: u32) -> DriverAction {
    if local > remote {
        DriverAction::SubmitSingle { height: (remote + 1) as u32 }
    } else {
        DriverAction::Idle
    }
}

/// The stage and action after observing the light client (`initialized`,
/// `remote` height) and the local header source (`local` height).
pub open spec fn planned(state: RelayState, margin: u32, initialized: bool, remote: u32, local: u32) -> (
    RelayState,
    DriverAction,
) {
    if state == RelayState::Stopped {
        (RelayState::Stopped, DriverAction::Exit)
    } else if !initialized {
        (RelayState::Uninitialized, DriverAction::Initialize)
    } else if state == RelayState::TrackingTip {
        (RelayState::TrackingTip, tracking_action(remote, local))
    } else if local > remote && local - remote > margin {
        (RelayState::CatchingUp, DriverAction::SubmitBatch { from: (remote + 1) as u32, to: local })
    } else {
        (RelayState::TrackingTip, tracking_action(remote, local))
    }
}

/// The decisions of a relayer: which stage it is in and what it submits next.
/// The party that runs it observes the chains, performs each action, and hands
/// back the outcome.
pub struct RelayDriver {
    state: RelayState,
    margin: u32,
}

impl RelayDriver {
    pub closed spec fn spec_state(&self) -> RelayState {
        self.state
    }

    pub closed spec fn spec_margin(&self) -> u32 {
        self.margin
    }

    /// A relayer that has not seen the light client yet. A height gap above
    /// `margin` is closed by batches.
    pub fn new(margin: u32) -> (r: RelayDriver)
        ensures
            r.spec_state() == RelayState::Uninitialized,
            r.spec_margin() == margin,
    {
        RelayDriver { state: RelayState::Uninitialized, margin }
    }

    pub fn state(&self) -> (r: RelayState)
        ensures
            r == self.spec_state(),
    {
        self.state
    }

    /// Re-enters the catching-up stage, as after a long downtime. This is the
    /// only way back from tracking the tip.
    pub fn enter_catching_up(&mut self)
        ensures
            final(self).spec_margin() == old(self).spec_margin(),
            final(self).spec_state() == (if old(self).spec_state() == RelayState::TrackingTip {
                RelayState::CatchingUp
            } else {
                old(self).spec_state()
            }),
    {
        if self.state == RelayState::TrackingTip {
            self.state = RelayState::CatchingUp;
        }
    }

    /// Decides the next action from what was observed.
    pub fn plan(&mut self, initialized: bool, remote_height: u32, local_height: u32) -> (r:
        DriverAction)
        ensures
            final(self).spec_margin() == old(self).spec_margin(),
            (final(self).spec_state(), r) == planned(
                old(self).spec_state(),
                old(self).spec_margin(),
                initialized,
                remote_height,
                local_height,
            ),
    {
        let tracking = if local_height > remote_height {
            DriverAction::SubmitSingle { height: remote_height + 1 }
        } else {
            DriverAction::Idle
        };
        if self.state == RelayState::Stopped {
            DriverAction::Exit
        } else if !initialized {
            self.state = RelayState::Uninitialized;
            DriverAction::Initialize
        } else if self.state == RelayState::TrackingTip {
            tracking
        } else if local_height > remote_height && local_height - remote_height > self.margin {
            self.state = RelayState::CatchingUp;
            DriverAction::SubmitBatch { from: remote_height + 1, to: local_height }
        } else {
            self.state = RelayState::TrackingTip;
            tracking
        }
    }

    /// Takes the outcome of a submission: a cancellation stops the relayer
    /// cleanly, another failure goes to the caller, success goes on.
    pub fn on_outcome(&mut self, outcome: Result<(), Error>) -> (r: OutcomeDecision)
        ensures
            final(self).spec_margin() == old(self).spec_margin(),
            match outcome {
                Ok(()) => r == OutcomeDecision::Continue && final(self).spec_state()
                    == old(self).spec_state(),
                Err(Error::Cancelled) => r == OutcomeDecision::Exit && final(self).spec_state()
                    == RelayState::Stopped,
                Err(e) => r == OutcomeDecision::Surface(e) && final(self).spec_state()
                    == old(self).spec_state(),
            },
    {
        match outcome {
            Ok(()) => OutcomeDecision::Continue,
            Err(Error::Cancelled) => {
                self.state = RelayState::Stopped;
                OutcomeDecision::Exit
            },
            Err(e) => OutcomeDecision::Surface(e),
        }
    }
}

/// Once the gap is within the margin the relayer tracks the tip, and it stays
/// there whatever it observes until it is sent back or stopped.
pub proof fn lemma_tracking_is_kept(
    state: RelayState,
    margin: u32,
    remote: u32,
    local: u32,
    remote2: u32,
    local2: u32,
)
    requires
        state == RelayState::CatchingUp || state == RelayState::Uninitialized,
        local <= remote || local - remote <= margin,
    ensures
        planned(state, margin, true, remote, local).0 == RelayState::TrackingTip,
        planned(RelayState::TrackingTip, margin, true, remote2, local2).0 == RelayState::TrackingTip,
{
}

} // verus!
