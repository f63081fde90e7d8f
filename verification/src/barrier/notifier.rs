//! Who is told how far a barrier has come.

use smallvec::SmallVec;

use vstd::prelude::*;

verus! {

/// Who is told of each stage of a barrier. The one told is known by a number.
#[derive(Debug, Clone, Copy, PartialEq, Eq, Structural)]
pub struct Notifier {
    /// Told when the barrier is about to be sent.
    pub to_send: Option<u64>,
    /// Told when the barrier is collected, without waiting for a checkpoint.
    pub collected_no_checkpoint: Option<u64>,
    /// Told when a checkpoint with the barrier is committed.
    pub collected_checkpoint: Option<u64>,
    /// Told when what the barrier started is finished.
    pub finished: Option<u64>,
}

impl Notifier {
    /// Tells nobody anything.
    pub open spec fn silent() -> Notifier {
        Notifier {
            to_send: None,
            collected_no_checkpoint: None,
            collected_checkpoint: None,
            finished: None,
        }
    }
}

impl Default for Notifier {
    fn default() -> (r: Self)
        ensures
            r == Notifier::silent(),
    {
        Notifier {
            to_send: None,
            collected_no_checkpoint: None,
            collected_checkpoint: None,
            finished: None,
        }
    }
}

/// The notifiers of a barrier, mostly one.
#[verifier::external_body]
pub struct Notifiers {
    inner: SmallVec<[Notifier; 1]>,
}

/// The notifiers that are held, in order.
pub uninterp spec fn notifiers_in(v: Notifiers) -> Seq<Notifier>;

impl View for Notifiers {
    type V = Seq<Notifier>;

    open spec fn view(&self) -> Seq<Notifier> {
        notifiers_in(*self)
    }
}

impl Notifiers {
    /// Calls `smallvec::SmallVec::new`: nothing is held.
    #[verifier::external_body]
    pub(crate) fn none() -> (r: Notifiers)
        ensures
            notifiers_in(r) == Seq::<Notifier>::empty(),
    {
        Notifiers { inner: SmallVec::new() }
    }

    /// Calls `FromIterator::from_iter` of `smallvec::SmallVec`: the given ones are held, in their
    /// order.
    #[verifier::external_body]
    pub(crate) fn of(list: Vec<Notifier>) -> (r: Notifiers)
        ensures
            notifiers_in(r) == list@,
    {
        Notifiers { inner: list.into_iter().collect() }
    }

    /// Calls `Extend::extend` of `smallvec::SmallVec`: the given ones are held behind those that
    /// were.
    #[verifier::external_body]
    pub(crate) fn extend(&mut self, list: Vec<Notifier>)
        ensures
            notifiers_in(*final(self)) == notifiers_in(*old(self)) + list@,
    {
        self.inner.extend(list)
    }

    /// Calls `smallvec::SmallVec::into_vec`: gives what is held, in order.
    #[verifier::external_body]
    pub(crate) fn into_vec(self) -> (r: Vec<Notifier>)
        ensures
            r@ == notifiers_in(self),
    {
        self.inner.into_vec()
    }
}

/// What is told to whom.
#[derive(Debug, Clone, Copy, PartialEq, Eq, Structural)]
pub enum Notice {
    /// The barrier is about to be sent.
    ToSend(u64),
    /// The barrier is collected; no checkpoint was waited for.
    CollectedNoCheckpoint(u64),
    /// A checkpoint with the barrier is committed.
    CollectedCheckpoint(u64),
    /// The barrier has failed.
    Failed(u64),
    /// What the barrier started is finished.
    Finished(u64),
}

/// What `p` makes of those that are to be told.
pub open spec fn told(q: Seq<Option<u64>>, p: spec_fn(u64) -> Notice) -> Seq<Notice>
    decreases q.len(),
{
    if q.len() == 0 {
        Seq::empty()
    } else {
        match q.last() {
            Some(sender) => told(q.drop_last(), p).push(p(sender)),
            None => told(q.drop_last(), p),
        }
    }
}

pub open spec fn to_send_of(q: Seq<Notifier>) -> Seq<Option<u64>> {
    Seq::new(q.len(), |i: int| q[i].to_send)
}

pub open spec fn no_checkpoint_of(q: Seq<Notifier>) -> Seq<Option<u64>> {
    Seq::new(q.len(), |i: int| q[i].collected_no_checkpoint)
}

pub open spec fn checkpoint_of(q: Seq<Notifier>) -> Seq<Option<u64>> {
    Seq::new(q.len(), |i: int| q[i].collected_checkpoint)
}

pub open spec fn finished_of(q: Seq<Notifier>) -> Seq<Option<u64>> {
    Seq::new(q.len(), |i: int| q[i].finished)
}

pub open spec fn send_notice() -> spec_fn(u64) -> Notice {
    |sender: u64| Notice::ToSend(sender)
}

pub open spec fn no_checkpoint_notice() -> spec_fn(u64) -> Notice {
    |sender: u64| Notice::CollectedNoCheckpoint(sender)
}

pub open spec fn checkpoint_notice() -> spec_fn(u64) -> Notice {
    |sender: u64| Notice::CollectedCheckpoint(sender)
}

pub open spec fn failed_notice() -> spec_fn(u64) -> Notice {
    |sender: u64| Notice::Failed(sender)
}

pub open spec fn finished_notice() -> spec_fn(u64) -> Notice {
    |sender: u64| Notice::Finished(sender)
}

/// Appends what `f` makes of those that are to be told.
pub(crate) fn tell<F: Fn(u64) -> Notice>(
    senders: &Vec<Option<u64>>,
    f: F,
    Ghost(p): Ghost<spec_fn(u64) -> Notice>,
    notices: &mut Vec<Notice>,
)
    requires
        forall|x: u64| #[trigger] f.requires((x,)),
        forall|x: u64, n: Notice| #[trigger] f.ensures((x,), n) ==> n == p(x),
    ensures
        final(notices)@ == old(notices)@ + told(senders@, p),
{
    let ghost before = notices@;
    let mut i: usize = 0;
    assert(senders@.take(0) =~= Seq::empty());
    assert(before + Seq::<Notice>::empty() =~= before);
    while i < senders.len()
        invariant
            i <= senders.len(),
            forall|x: u64| #[trigger] f.requires((x,)),
            forall|x: u64, n: Notice| #[trigger] f.ensures((x,), n) ==> n == p(x),
            notices@ == before + told(senders@.take(i as int), p),
        decreases senders.len() - i,
    {
        proof {
            assert(senders@.take(i + 1).drop_last() =~= senders@.take(i as int));
            assert(senders@.take(i + 1).last() == senders@[i as int]);
        }
        match senders[i] {
            Some(sender) => {
                notices.push(f(sender));
                assert(notices@ =~= before + told(senders@.take(i + 1), p));
            },
            None => {},
        }
        i = i + 1;
    }
    assert(senders@.take(i as int) =~= senders@);
}

/// Each notifier with one of its parts taken out.
pub open spec fn without_to_send(q: Seq<Notifier>) -> Seq<Notifier> {
    Seq::new(q.len(), |i: int| Notifier { to_send: None, ..q[i] })
}

/// Each notifier once the barrier is collected: what is told then is taken out.
pub open spec fn collected(q: Seq<Notifier>) -> Seq<Notifier> {
    Seq::new(
        q.len(),
        |i: int|
            Notifier { collected_no_checkpoint: None, collected_checkpoint: None, ..q[i] },
    )
}

/// Takes out who is told that the barrier is about to be sent.
pub(crate) fn take_to_send(list: &mut Vec<Notifier>) -> (r: Vec<Option<u64>>)
    ensures
        r@ == to_send_of(old(list)@),
        final(list)@ == without_to_send(old(list)@),
{
    let ghost q = list@;
    let mut r: Vec<Option<u64>> = Vec::new();
    let mut rest: Vec<Notifier> = Vec::new();
    let mut i: usize = 0;
    while i < list.len()
        invariant
            i <= list.len(),
            list@ == q,
            r@ == to_send_of(q).take(i as int),
            rest@ == without_to_send(q).take(i as int),
        decreases list.len() - i,
    {
        let n = list[i];
        r.push(n.to_send);
        rest.push(
            Notifier {
                to_send: None,
                collected_no_checkpoint: n.collected_no_checkpoint,
                collected_checkpoint: n.collected_checkpoint,
                finished: n.finished,
            },
        );
        proof {
            assert(r@ =~= to_send_of(q).take(i + 1));
            assert(rest@ =~= without_to_send(q).take(i + 1));
        }
        i = i + 1;
    }
    assert(r@ =~= to_send_of(q));
    assert(rest@ =~= without_to_send(q));
    *list = rest;
    r
}

/// Takes out who is told that the barrier is collected, without and with a checkpoint.
pub(crate) fn take_collected(list: &mut Vec<Notifier>) -> (r: (Vec<Option<u64>>, Vec<Option<u64>>))
    ensures
        r.0@ == no_checkpoint_of(old(list)@),
        r.1@ == checkpoint_of(old(list)@),
        final(list)@ == collected(old(list)@),
{
    let ghost q = list@;
    let mut a: Vec<Option<u64>> = Vec::new();
    let mut b: Vec<Option<u64>> = Vec::new();
    let mut rest: Vec<Notifier> = Vec::new();
    let mut i: usize = 0;
    while i < list.len()
        invariant
            i <= list.len(),
            list@ == q,
            a@ == no_checkpoint_of(q).take(i as int),
            b@ == checkpoint_of(q).take(i as int),
            rest@ == collected(q).take(i as int),
        decreases list.len() - i,
    {
        let n = list[i];
        a.push(n.collected_no_checkpoint);
        b.push(n.collected_checkpoint);
        rest.push(
            Notifier {
                to_send: n.to_send,
                collected_no_checkpoint: None,
                collected_checkpoint: None,
                finished: n.finished,
            },
        );
        proof {
            assert(a@ =~= no_checkpoint_of(q).take(i + 1));
            assert(b@ =~= checkpoint_of(q).take(i + 1));
            assert(rest@ =~= collected(q).take(i + 1));
        }
        i = i + 1;
    }
    assert(a@ =~= no_checkpoint_of(q));
    assert(b@ =~= checkpoint_of(q));
    assert(rest@ =~= collected(q));
    *list = rest;
    (a, b)
}

/// Who is told that what the barrier started is finished.
pub(crate) fn finish_senders(list: &Vec<Notifier>) -> (r: Vec<Option<u64>>)
    ensures
        r@ == finished_of(list@),
{
    let mut r: Vec<Option<u64>> = Vec::new();
    let mut i: usize = 0;
    while i < list.len()
        invariant
            i <= list.len(),
            r@ == finished_of(list@).take(i as int),
        decreases list.len() - i,
    {
        r.push(list[i].finished);
        assert(r@ =~= finished_of(list@).take(i + 1));
        i = i + 1;
    }
    assert(r@ =~= finished_of(list@));
    r
}

} // verus!
