//! How many answers of the loader are taken in a frame.
use vstd::prelude::*;

use crate::num::{greatest, max_usize};

verus! {

/// Answers are taken in passes: as many passes as there are workers, with as many answers in each.
/// A pass ends early where no answer is there, and a pass that found none is the last.
#[derive(Clone, Copy, Debug, PartialEq, Eq, Structural)]
pub struct LoaderPoll {
    /// The number of passes, and of answers in a pass.
    pub limit: usize,
    /// The passes that are done.
    pub passes: usize,
    /// The answers of the present pass.
    pub drained: usize,
}

impl LoaderPoll {
    pub open spec fn wf(self) -> bool {
        self.limit >= 1 && self.passes <= self.limit && self.drained < self.limit
    }

    /// The poll of a frame, before it asks for an answer.
    pub open spec fn started(worker_count: usize) -> LoaderPoll {
        LoaderPoll {
            limit: greatest(worker_count as int, 1) as usize,
            passes: 0,
            drained: 0,
        }
    }

    /// Whether another answer is asked for.
    pub open spec fn asks(self) -> bool {
        self.passes < self.limit
    }

    /// The poll once it was told whether an answer was there.
    pub open spec fn told(self, answered: bool) -> LoaderPoll {
        if !self.asks() {
            self
        } else if answered && self.drained + 1 < self.limit {
            LoaderPoll { drained: (self.drained + 1) as usize, ..self }
        } else if answered || self.drained > 0 {
            LoaderPoll { passes: (self.passes + 1) as usize, drained: 0, ..self }
        } else {
            LoaderPoll { passes: self.limit, ..self }
        }
    }

    pub fn new(worker_count: usize) -> (poll: Self)
        ensures
            poll.wf(),
            poll == LoaderPoll::started(worker_count),
    {
        LoaderPoll { limit: max_usize(worker_count, 1), passes: 0, drained: 0 }
    }

    pub fn wants_answer(&self) -> (wants: bool)
        ensures
            wants == self.asks(),
    {
        self.passes < self.limit
    }

    pub fn note(&mut self, answered: bool)
        requires
            old(self).wf(),
        ensures
            final(self).wf(),
            *final(self) == old(self).told(answered),
    {
        if self.passes >= self.limit {
            return;
        }
        if answered && self.drained + 1 < self.limit {
            self.drained = self.drained + 1;
        } else if answered || self.drained > 0 {
            self.passes = self.passes + 1;
            self.drained = 0;
        } else {
            self.passes = self.limit;
        }
    }

    /// The poll once it was told of several tries.
    pub open spec fn told_all(self, tries: Seq<bool>) -> LoaderPoll
        decreases tries.len(),
    {
        if tries.len() == 0 {
            self
        } else {
            self.told_all(tries.drop_last()).told(tries.last())
        }
    }

    /// How many answers the poll took in several tries.
    pub open spec fn taken(self, tries: Seq<bool>) -> nat
        decreases tries.len(),
    {
        if tries.len() == 0 {
            0
        } else {
            self.taken(tries.drop_last()) + if tries.last() && self.told_all(
                tries.drop_last(),
            ).asks() {
                1nat
            } else {
                0nat
            }
        }
    }
}

/// However many answers there are, a frame takes no more than the square of the worker count.
pub proof fn law_a_frame_takes_no_more_than_its_share(worker_count: usize, tries: Seq<bool>)
    ensures
        ({
            let start = LoaderPoll::started(worker_count);
            start.taken(tries) <= start.limit * start.limit
        }),
{
    let start = LoaderPoll::started(worker_count);
    lemma_taken(worker_count, tries);
    let poll = start.told_all(tries);
    assert(poll.passes * start.limit + poll.drained <= start.limit * start.limit)
        by (nonlinear_arith)
        requires
            poll.passes < start.limit && poll.drained < start.limit || poll.passes == start.limit
                && poll.drained == 0,
    ;
}

proof fn lemma_taken(worker_count: usize, tries: Seq<bool>)
    ensures
        ({
            let start = LoaderPoll::started(worker_count);
            let poll = start.told_all(tries);
            &&& poll.wf()
            &&& poll.limit == start.limit
            &&& poll.passes == poll.limit ==> poll.drained == 0
            &&& start.taken(tries) <= poll.passes * start.limit + poll.drained
        }),
    decreases tries.len(),
{
    if tries.len() > 0 {
        lemma_taken(worker_count, tries.drop_last());
        let start = LoaderPoll::started(worker_count);
        let before = start.told_all(tries.drop_last());
        let poll = start.told_all(tries);
        let limit = start.limit;
        assert((before.passes + 1) * limit == before.passes * limit + limit) by (nonlinear_arith);
        assert(before.passes * limit <= limit * limit) by (nonlinear_arith)
            requires
                before.passes <= limit,
        ;
        if before.asks() && !tries.last() && before.drained == 0 {
            assert(poll.passes == limit);
        }
    }
}

/// A pass that finds no answer ends the polling.
pub proof fn law_an_empty_pass_is_the_last(poll: LoaderPoll)
    requires
        poll.wf(),
        poll.drained == 0,
    ensures
        !poll.told(false).asks(),
{
}

/// A pass takes as many answers as there are workers, one where there is none; a pass that found
/// some is followed by another, as often as there are workers.
pub proof fn law_passes_are_as_many_as_workers(worker_count: usize, poll: LoaderPoll)
    requires
        poll.wf(),
        poll.asks(),
    ensures
        LoaderPoll::started(worker_count).asks(),
        worker_count >= 1 ==> LoaderPoll::started(worker_count).limit == worker_count,
        worker_count == 0 ==> LoaderPoll::started(worker_count).limit == 1,
        poll.drained + 1 < poll.limit ==> poll.told(true).drained == poll.drained + 1
            && poll.told(true).passes == poll.passes,
        poll.drained + 1 == poll.limit ==> poll.told(true).drained == 0 && poll.told(true).passes
            == poll.passes + 1,
        poll.drained > 0 ==> poll.told(false).drained == 0 && poll.told(false).passes
            == poll.passes + 1,
        poll.told(true).limit == poll.limit && poll.told(false).limit == poll.limit,
{
}

} // verus!
