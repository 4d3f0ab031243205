use vstd::prelude::*;
use crate::ActorError;

verus! {

/// The per-actor idempotency store: the set of event identifiers whose
/// effects have already been applied. Entries are never removed, since a
/// message can be redelivered arbitrarily far in the future.
pub struct ProcessedSet {
    ids: Vec<String>,
}

impl View for ProcessedSet {
    type V = Seq<Seq<char>>;

    closed spec fn view(&self) -> Seq<Seq<char>> {
        self.ids@.map(|i: int, s: String| s@)
    }
}

impl ProcessedSet {
    /// No identifier is recorded twice.
    pub open spec fn wf(&self) -> bool {
        forall|i: int, j: int|
            0 <= i < self@.len() && 0 <= j < self@.len() && i != j ==> self@[i] != self@[j]
    }

    pub fn new() -> (r: Self)
        ensures
            r@ == Seq::<Seq<char>>::empty(),
            r.wf(),
    {
        let r = ProcessedSet { ids: Vec::new() };
        proof {
            assert(r@ =~= Seq::<Seq<char>>::empty());
        }
        r
    }

    /// A copy with the very same recorded identifiers.
    pub fn duplicate(&self) -> (r: Self)
        ensures
            r@ == self@,
    {
        let n = self.ids.len();
        let mut ids: Vec<String> = Vec::new();
        let mut i: usize = 0;
        while i < n
            invariant
                n == self.ids@.len(),
                i <= n,
                ids@ == self.ids@.take(i as int),
            decreases n - i,
        {
            ids.push(self.ids[i].clone());
            proof {
                assert(ids@ =~= self.ids@.take(i as int + 1));
            }
            i = i + 1;
        }
        proof {
            assert(ids@ =~= self.ids@);
        }
        let r = ProcessedSet { ids };
        proof {
            assert(r@ =~= self@);
        }
        r
    }

    /// Has the event already been applied?
    pub fn has(&self, event_id: &String) -> (r: bool)
        ensures
            r == self@.contains(event_id@),
    {
        let n = self.ids.len();
        let mut i: usize = 0;
        proof {
            assert(self@.len() == n);
        }
        while i < n
            invariant
                n == self@.len(),
                i <= n,
                forall|j: int| 0 <= j < i ==> self@[j] != event_id@,
            decreases n - i,
        {
            if self.ids[i] == *event_id {
                proof {
                    assert(self@[i as int] == event_id@);
                }
                return true;
            }
            i = i + 1;
        }
        proof {
            if self@.contains(event_id@) {
                let j = choose|j: int| 0 <= j < self@.len() && self@[j] == event_id@;
                assert(self@[j] != event_id@);
            }
        }
        false
    }

    /// Records that the event's effect has been applied. Fails, recording
    /// nothing, if it already was: check and mark happen in the same unit of
    /// work as the effect they guard.
    pub fn mark(&mut self, event_id: String) -> (r: Result<(), ActorError>)
        requires
            old(self).wf(),
        ensures
            final(self).wf(),
            match r {
                Ok(()) => !old(self)@.contains(event_id@) && final(self)@ == old(self)@.push(
                    event_id@,
                ),
                Err(e) => e == ActorError::AlreadyMarked && old(self)@.contains(event_id@)
                    && *final(self) == *old(self),
            },
    {
        if self.has(&event_id) {
            Err(ActorError::AlreadyMarked)
        } else {
            let ghost pre = self@;
            self.ids.push(event_id);
            proof {
                assert(self@ =~= pre.push(event_id@));
                assert forall|i: int, j: int|
                    0 <= i < self@.len() && 0 <= j < self@.len() && i != j implies self@[i]
                    != self@[j] by {
                    if i == pre.len() as int {
                        assert(self@[j] == pre[j]);
                        if self@[j] == event_id@ {
                            assert(pre.contains(event_id@));
                        }
                    } else if j == pre.len() as int {
                        assert(self@[i] == pre[i]);
                        if self@[i] == event_id@ {
                            assert(pre.contains(event_id@));
                        }
                    }
                }
            }
            Ok(())
        }
    }
}

} // verus!
