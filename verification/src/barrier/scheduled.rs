//! The barriers that wait to be sent.

use std::collections::VecDeque;

use vstd::prelude::*;

use crate::barrier::notifier::{
    checkpoint_of, failed_notice, tell, told, Notice, Notifier, Notifiers,
};
use crate::barrier::types::{Command, CommandModel};
use crate::util::lists::{gather, lemma_gather_push};

verus! {

/// A command with its notifiers.
pub type ScheduledModel = (CommandModel, Seq<Notifier>);

/// A buffer or queue for scheduling barriers.
pub struct ScheduledBarriers {
    buffer: VecDeque<(Command, Notifiers)>,
}

/// The models of what is scheduled.
pub open spec fn scheduled_views(q: Seq<(Command, Notifiers)>) -> Seq<ScheduledModel> {
    Seq::new(q.len(), |i: int| (q[i].0@, q[i].1@))
}

impl View for ScheduledBarriers {
    type V = Seq<ScheduledModel>;

    closed spec fn view(&self) -> Seq<ScheduledModel> {
        scheduled_views(self.buffer@)
    }
}

/// What is told when the barriers in `q` are dropped.
pub open spec fn aborted(q: Seq<ScheduledModel>) -> Seq<Notice> {
    gather(q, |s: ScheduledModel| told(checkpoint_of(s.1), failed_notice()))
}

/// Who is told with a checkpoint.
pub(crate) fn checkpoint_senders(list: &Vec<Notifier>) -> (r: Vec<Option<u64>>)
    ensures
        r@ == checkpoint_of(list@),
{
    let mut r: Vec<Option<u64>> = Vec::new();
    let mut i: usize = 0;
    while i < list.len()
        invariant
            i <= list.len(),
            r@ == checkpoint_of(list@).take(i as int),
        decreases list.len() - i,
    {
        r.push(list[i].collected_checkpoint);
        assert(r@ =~= checkpoint_of(list@).take(i + 1));
        i = i + 1;
    }
    assert(r@ =~= checkpoint_of(list@));
    r
}

/// Appends that the barrier has failed.
pub(crate) fn tell_failed(notifiers: Notifiers, notices: &mut Vec<Notice>)
    ensures
        final(notices)@ == old(notices)@ + told(checkpoint_of(notifiers@), failed_notice()),
{
    let senders = checkpoint_senders(&notifiers.into_vec());
    let f = |x: u64| -> (n: Notice)
        ensures
            n == Notice::Failed(x),
    {
        Notice::Failed(x)
    };
    tell(&senders, f, Ghost(failed_notice()), notices);
}

impl ScheduledBarriers {
    pub fn new() -> (r: ScheduledBarriers)
        ensures
            r@ == Seq::<ScheduledModel>::empty(),
    {
        let r = ScheduledBarriers { buffer: VecDeque::new() };
        assert(r@ =~= Seq::<ScheduledModel>::empty());
        r
    }

    /// Pop a scheduled barrier from the buffer, or a default checkpoint barrier if not exists.
    pub fn pop_or_default(&mut self) -> (r: (Command, Notifiers))
        ensures
            if old(self)@.len() == 0 {
                (r.0@, r.1@) == (CommandModel::checkpoint(), Seq::<Notifier>::empty())
                    && final(self)@ == old(self)@
            } else {
                (r.0@, r.1@) == old(self)@[0] && final(self)@ == old(self)@.skip(1)
            },
    {
        match self.buffer.pop_front() {
            Some(scheduled) => {
                assert(self@ =~= old(self)@.skip(1));
                scheduled
            },
            None => (Command::checkpoint(), Notifiers::none()),
        }
    }

    /// Whether there is at least one scheduled barrier in the buffer.
    pub fn wait_one(&self) -> (r: bool)
        ensures
            r == (self@.len() > 0),
    {
        self.buffer.len() > 0
    }

    /// Push a scheduled barrier into the buffer. Tells whether those that wait for one are to be
    /// woken.
    pub fn push(&mut self, scheduleds: Vec<(Command, Notifiers)>) -> (r: bool)
        ensures
            final(self)@ == old(self)@ + scheduled_views(scheduleds@),
            r == (old(self)@.len() == 0 && scheduleds@.len() > 0),
    {
        let woken = self.buffer.len() == 0 && scheduleds.len() > 0;
        let ghost before = self.buffer@;
        let ghost all = scheduleds@;
        let mut rest: VecDeque<(Command, Notifiers)> = VecDeque::new();
        let mut scheduleds = scheduleds;
        assert(all.skip(all.len() as int) =~= Seq::empty());
        while scheduleds.len() > 0
            invariant
                scheduleds@.len() <= all.len(),
                scheduleds@ == all.take(scheduleds@.len() as int),
                rest@ == all.skip(scheduleds@.len() as int),
            decreases scheduleds.len(),
        {
            let ghost k = scheduleds@.len() as int;
            match scheduleds.pop() {
                Some(scheduled) => {
                    rest.push_front(scheduled);
                    proof {
                        assert(scheduled == all[k - 1]);
                        assert(rest@ =~= all.skip(k - 1));
                        assert(scheduleds@ =~= all.take(k - 1));
                    }
                },
                None => {},
            }
        }
        assert(rest@ =~= all);
        self.buffer.append(&mut rest);
        assert(scheduled_views(before + all) =~= scheduled_views(before) + scheduled_views(all));
        woken
    }

    /// Attach `new_notifiers` to the very first scheduled barrier. If there's no one scheduled, a
    /// default checkpoint barrier will be created. Tells whether those that wait for one are to be
    /// woken.
    pub fn attach_notifiers(&mut self, new_notifiers: Vec<Notifier>) -> (r: bool)
        ensures
            r == (old(self)@.len() == 0),
            final(self)@ == if old(self)@.len() == 0 {
                seq![(CommandModel::checkpoint(), new_notifiers@)]
            } else {
                old(self)@.update(0, (old(self)@[0].0, old(self)@[0].1 + new_notifiers@))
            },
    {
        match self.buffer.pop_front() {
            Some((command, notifiers)) => {
                let mut notifiers = notifiers;
                notifiers.extend(new_notifiers);
                self.buffer.push_front((command, notifiers));
                assert(self@ =~= old(self)@.update(
                    0,
                    (old(self)@[0].0, old(self)@[0].1 + new_notifiers@),
                ));
                false
            },
            None => {
                self.buffer.push_back((Command::checkpoint(), Notifiers::of(new_notifiers)));
                assert(self@ =~= seq![(CommandModel::checkpoint(), new_notifiers@)]);
                true
            },
        }
    }

    /// Clear all buffered scheduled barriers, and notify their subscribers with failed as aborted.
    pub fn abort(&mut self) -> (r: Vec<Notice>)
        ensures
            final(self)@ == Seq::<ScheduledModel>::empty(),
            r@ == aborted(old(self)@),
    {
        let ghost q = self@;
        let ghost p = |s: ScheduledModel| told(checkpoint_of(s.1), failed_notice());
        let ghost mut k: int = 0;
        let mut notices: Vec<Notice> = Vec::new();
        proof {
            assert(q.take(0) =~= Seq::empty());
            assert(q.skip(0) =~= q);
        }
        while self.buffer.len() > 0
            invariant
                0 <= k <= q.len(),
                q == old(self)@,
                p == (|s: ScheduledModel| told(checkpoint_of(s.1), failed_notice())),
                self@ == q.skip(k),
                notices@ == gather(q.take(k), p),
            decreases self.buffer.len(),
        {
            assert(self@.len() == self.buffer@.len());
            let ghost rest = self.buffer@;
            match self.buffer.pop_front() {
                Some((_, notifiers)) => {
                    proof {
                        assert(q[k] == q.skip(k)[0]);
                        assert(q.take(k + 1) =~= q.take(k).push(q[k]));
                        lemma_gather_push(q.take(k), q[k], p);
                        assert(self@ =~= scheduled_views(rest).skip(1));
                        assert(q.skip(k).skip(1) =~= q.skip(k + 1));
                    }
                    tell_failed(notifiers, &mut notices);
                    proof {
                        k = k + 1;
                    }
                },
                None => {},
            }
        }
        proof {
            assert(self@.len() == 0);
            assert(q.skip(k).len() == 0);
            assert(q.take(k) =~= q);
            assert(self@ =~= Seq::<ScheduledModel>::empty());
        }
        notices
    }
}

} // verus!
