//! The decisions of a connect race: every candidate is tried at once, the
//! first connection that succeeds wins, and when all have failed the last
//! failure is reported.
use vstd::prelude::*;
use crate::resolve::SocketCandidate;

verus! {

/// Why one connect attempt failed.
#[derive(Debug, Clone, Copy, PartialEq, Eq, Structural)]
pub enum ConnectFailure {
    /// The attempt ran out of time.
    TimedOut,
    /// The peer refused the connection.
    Refused,
    /// Any other failure, the attempt's task included.
    Other,
}

/// What to do after an attempt has ended.
#[derive(Debug, Clone, Copy, PartialEq, Eq, Structural)]
pub enum RaceDecision {
    /// Wait for the next attempt to end.
    Wait,
    /// Keep this connection and cancel the other attempts.
    Won(SocketCandidate),
    /// Every attempt failed; this is the last failure seen.
    AllFailed(ConnectFailure),
}

/// A race over one attempt per candidate, some of which have not ended yet.
pub struct ConnectRace {
    candidates: Vec<SocketCandidate>,
    pending: usize,
}

impl ConnectRace {
    /// Attempts that have not ended.
    pub closed spec fn pending(&self) -> nat {
        self.pending as nat
    }

    /// The candidates raced, attempt `i` being the one to `candidates()[i]`.
    pub closed spec fn candidates(&self) -> Seq<SocketCandidate> {
        self.candidates@
    }

    /// A race over `candidates`, all attempted at once.
    pub fn new(candidates: &Vec<SocketCandidate>) -> (r: ConnectRace)
        requires
            candidates@.len() > 0,
        ensures
            r.pending() == candidates@.len(),
            r.candidates() == candidates@,
    {
        let mut copy: Vec<SocketCandidate> = Vec::new();
        copy.extend_from_slice(candidates.as_slice());
        assert(copy@ =~= candidates@);
        ConnectRace { pending: candidates.len(), candidates: copy }
    }

    /// Attempts that have not ended.
    pub fn pending_attempts(&self) -> (r: usize)
        ensures
            r as nat == self.pending(),
    {
        self.pending
    }

    /// Number of candidates raced.
    pub fn attempts(&self) -> (r: usize)
        ensures
            r as nat == self.candidates().len(),
    {
        self.candidates.len()
    }

    /// Takes the outcome of the attempt that ended: `Ok(i)` when attempt `i`
    /// connected, which wins at once; a failure wins nothing, and ends the
    /// race when it was the last attempt.
    pub fn on_outcome(&mut self, outcome: Result<usize, ConnectFailure>) -> (r: RaceDecision)
        requires
            old(self).pending() > 0,
            outcome matches Ok(i) ==> i < old(self).candidates().len(),
        ensures
            final(self).candidates() == old(self).candidates(),
            outcome matches Ok(i) ==> r == RaceDecision::Won(old(self).candidates()[i as int])
                && final(self).pending() == 0,
            outcome matches Err(e) ==> final(self).pending() == old(self).pending() - 1 && r == (
            if final(self).pending() == 0 {
                RaceDecision::AllFailed(e)
            } else {
                RaceDecision::Wait
            }),
            r matches RaceDecision::Won(c) ==> old(self).candidates().contains(c),
    {
        match outcome {
            Ok(i) => {
                self.pending = 0;
                let c = self.candidates[i];
                assert(self.candidates@[i as int] == c);
                RaceDecision::Won(c)
            },
            Err(e) => {
                self.pending = self.pending - 1;
                if self.pending == 0 {
                    RaceDecision::AllFailed(e)
                } else {
                    RaceDecision::Wait
                }
            },
        }
    }
}

} // verus!
