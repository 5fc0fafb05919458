use vstd::prelude::*;
use crate::error::Error;
use crate::header::{sha256d_of, delay_seed_of, RawBlockHeader};

verus! {

/// Where a single-header submission stands.
#[derive(Clone, Copy, Debug, PartialEq, Eq, Structural)]
pub enum SubmitPhase {
    /// Waiting out the random delay.
    Waiting,
    /// Asking the light client whether it already stores the header.
    Rechecking,
    /// Submitting the header.
    Storing,
    /// Done; nothing further is asked.
    Finished,
}

/// What the party that runs a submission does next.
#[derive(Clone, Copy, Debug)]
pub enum SubmitAction {
    /// Ask the light client whether the block with this little-endian hash is stored.
    CheckStored([u8; 32]),
    /// Submit the header.
    Store,
    /// Report this outcome to the caller.
    Done(Result<(), Error>),
}

/// The decisions of the single-header submission protocol: wait, recheck,
/// and submit only when the header is still missing. The party that runs it
/// performs each action and hands back what came of it.
pub struct SubmitSession {
    hash_le: [u8; 32],
    phase: SubmitPhase,
}

impl SubmitSession {
    pub closed spec fn spec_phase(&self) -> SubmitPhase {
        self.phase
    }

    /// The little-endian hash of the header being submitted.
    pub closed spec fn spec_hash(&self) -> Seq<u8> {
        self.hash_le@
    }

    /// Starts a submission of `header`; returns the session and the seed to
    /// hand to the random delay.
    pub fn new(header: &RawBlockHeader) -> (r: (SubmitSession, [u8; 32]))
        ensures
            r.0.spec_phase() == SubmitPhase::Waiting,
            r.0.spec_hash() == sha256d_of(header@),
            r.1@ == delay_seed_of(header@),
    {
        let hash = header.hash();
        let seed = header.delay_seed();
        (SubmitSession { hash_le: hash.content, phase: SubmitPhase::Waiting }, seed)
    }

    pub fn phase(&self) -> (r: SubmitPhase)
        ensures
            r == self.spec_phase(),
    {
        self.phase
    }

    /// The delay has ended: an error (a cancellation among them) ends the
    /// submission with no remote call; otherwise the light client is asked
    /// whether the header is already stored.
    pub fn after_delay(&mut self, waited: Result<(), Error>) -> (r: SubmitAction)
        requires
            old(self).spec_phase() == SubmitPhase::Waiting,
        ensures
            final(self).spec_hash() == old(self).spec_hash(),
            match waited {
                Ok(()) => final(self).spec_phase() == SubmitPhase::Rechecking
                    && r is CheckStored && r->CheckStored_0@ == old(self).spec_hash(),
                Err(e) => final(self).spec_phase() == SubmitPhase::Finished
                    && r == SubmitAction::Done(Err(e)),
            },
    {
        match waited {
            Ok(()) => {
                self.phase = SubmitPhase::Rechecking;
                SubmitAction::CheckStored(self.hash_le)
            },
            Err(e) => {
                self.phase = SubmitPhase::Finished;
                SubmitAction::Done(Err(e))
            },
        }
    }

    /// The recheck has answered: a stored header ends the submission in
    /// success without a write; a missing one is submitted; a failed query
    /// ends it with that failure.
    pub fn after_recheck(&mut self, stored: Result<bool, Error>) -> (r: SubmitAction)
        requires
            old(self).spec_phase() == SubmitPhase::Rechecking,
        ensures
            final(self).spec_hash() == old(self).spec_hash(),
            match stored {
                Ok(true) => final(self).spec_phase() == SubmitPhase::Finished
                    && r == SubmitAction::Done(Ok(())),
                Ok(false) => final(self).spec_phase() == SubmitPhase::Storing
                    && r is Store,
                Err(e) => final(self).spec_phase() == SubmitPhase::Finished
                    && r == SubmitAction::Done(Err(e)),
            },
    {
        match stored {
            Ok(true) => {
                self.phase = SubmitPhase::Finished;
                SubmitAction::Done(Ok(()))
            },
            Ok(false) => {
                self.phase = SubmitPhase::Storing;
                SubmitAction::Store
            },
            Err(e) => {
                self.phase = SubmitPhase::Finished;
                SubmitAction::Done(Err(e))
            },
        }
    }

    /// The submission has answered: its outcome is the session's outcome,
    /// unchanged.
    pub fn after_store(&mut self, outcome: Result<(), Error>) -> (r: SubmitAction)
        requires
            old(self).spec_phase() == SubmitPhase::Storing,
        ensures
            final(self).spec_hash() == old(self).spec_hash(),
            final(self).spec_phase() == SubmitPhase::Finished,
            r == SubmitAction::Done(outcome),
    {
        self.phase = SubmitPhase::Finished;
        SubmitAction::Done(outcome)
    }
}

} // verus!
