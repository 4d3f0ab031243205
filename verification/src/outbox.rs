use vstd::prelude::*;

verus! {

/// The phase of one unit of work.
#[derive(Clone, Copy, Debug, PartialEq, Eq, Structural)]
pub enum WorkPhase {
    /// No unit of work is under way and nothing is staged.
    Idle,
    /// A unit of work is being processed; effects are staged in memory.
    Processing,
    /// The unit's state mutation and its staged messages were made durable
    /// together.
    Committed,
    /// The unit failed; every staged effect was discarded.
    Aborted,
}

/// The commit coordinator's outbound queue: messages produced while one unit
/// of work is processed, each addressed to a destination actor. They leave
/// the actor if — and exactly when — the unit commits; an abort discards them
/// all. `M` is the hosting actor's message type.
pub struct Outbox<M> {
    phase: WorkPhase,
    entries: Vec<(String, M)>,
}

impl<M> Outbox<M> {
    pub closed spec fn phase(&self) -> WorkPhase {
        self.phase
    }

    pub closed spec fn staged(&self) -> Seq<(String, M)> {
        self.entries@
    }

    pub fn new() -> (r: Self)
        ensures
            r.phase() == WorkPhase::Idle,
            r.staged() == Seq::<(String, M)>::empty(),
    {
        let r = Outbox { phase: WorkPhase::Idle, entries: Vec::new() };
        proof {
            assert(r.staged() =~= Seq::<(String, M)>::empty());
        }
        r
    }

    /// Starts one unit of work.
    pub fn begin(&mut self)
        requires
            old(self).phase() == WorkPhase::Idle,
        ensures
            final(self).phase() == WorkPhase::Processing,
            final(self).staged() == old(self).staged(),
    {
        self.phase = WorkPhase::Processing;
    }

    /// Stages one outbound message; nothing is sent yet.
    pub fn stage(&mut self, destination: String, message: M)
        requires
            old(self).phase() == WorkPhase::Processing,
        ensures
            final(self).phase() == WorkPhase::Processing,
            final(self).staged() == old(self).staged().push((destination, message)),
    {
        self.entries.push((destination, message));
    }

    /// Commits the unit of work: every staged message, in staging order, is
    /// handed over for delivery in the same atomic step as the durable state.
    pub fn commit(&mut self) -> (r: Vec<(String, M)>)
        requires
            old(self).phase() == WorkPhase::Processing,
        ensures
            final(self).phase() == WorkPhase::Committed,
            final(self).staged() == Seq::<(String, M)>::empty(),
            r@ == old(self).staged(),
    {
        self.phase = WorkPhase::Committed;
        let mut flushed: Vec<(String, M)> = Vec::new();
        core::mem::swap(&mut flushed, &mut self.entries);
        proof {
            assert(self.staged() =~= Seq::<(String, M)>::empty());
        }
        flushed
    }

    /// Aborts the unit of work: every staged message is discarded; none is
    /// ever observed by its destination.
    pub fn abort(&mut self)
        requires
            old(self).phase() == WorkPhase::Processing,
        ensures
            final(self).phase() == WorkPhase::Aborted,
            final(self).staged() == Seq::<(String, M)>::empty(),
    {
        self.phase = WorkPhase::Aborted;
        self.entries.clear();
        proof {
            assert(self.staged() =~= Seq::<(String, M)>::empty());
        }
    }
}

} // verus!
