//! The channel over which a media pipeline hands its sources over.

use std::sync::mpsc::{sync_channel, Receiver, SyncSender};

use vstd::prelude::*;

verus! {

/// The receiving end of a standard channel, carried as an opaque value.
#[verifier::external_type_specification]
#[verifier::external_body]
#[verifier::reject_recursive_types(T)]
pub struct ExReceiver<T>(Receiver<T>);

/// The sending end of a bounded standard channel, carried as an opaque value.
#[verifier::external_type_specification]
#[verifier::external_body]
#[verifier::reject_recursive_types(T)]
pub struct ExSyncSender<T>(SyncSender<T>);

/// How many sources a channel holds before the sender has to wait.  The sender is not expected to
/// send often.
pub const SOURCE_BACKLOG: usize = 3;

/// The end of a channel at which sources are sent.
#[verifier::reject_recursive_types(S)]
pub struct SourceSender<S> {
    tx: SyncSender<S>,
    channel: Ghost<int>,
    bound: Ghost<nat>,
}

/// The end of a channel at which sources are taken.
#[verifier::reject_recursive_types(S)]
pub struct SourceReceiver<S> {
    rx: Receiver<S>,
    channel: Ghost<int>,
    answers: Ghost<Seq<Option<S>>>,
}

/// `std::sync::mpsc::sync_channel` makes the two ends of one channel, which buffers `bound`
/// messages; so far it has not been asked for any.
#[verifier::external_body]
pub(crate) fn open_channel<S>(bound: usize) -> (ends: (SourceSender<S>, SourceReceiver<S>))
    requires
        bound <= SOURCE_BACKLOG,
    ensures
        ends.0.channel() == ends.1.channel(),
        ends.0.bound() == bound,
        ends.1.answers() == Seq::<Option<S>>::empty(),
{
    let (tx, rx) = sync_channel(bound);
    let channel: Ghost<int> = Ghost(arbitrary());
    let sender = SourceSender { tx, channel, bound: Ghost(arbitrary()) };
    (sender, SourceReceiver { rx, channel, answers: Ghost(arbitrary()) })
}

impl<S> SourceSender<S> {
    /// The channel that this is an end of.
    pub closed spec fn channel(&self) -> int {
        self.channel@
    }

    /// How many sources the channel holds before a send waits.
    pub closed spec fn bound(&self) -> nat {
        self.bound@
    }

    /// The standard sender, for use outside of the library.
    pub fn into_inner(self) -> (tx: SyncSender<S>)
        ensures
            tx == self.inner(),
    {
        self.tx
    }

    /// The standard sender.
    pub closed spec fn inner(self) -> SyncSender<S> {
        self.tx
    }
}

impl<S> SourceReceiver<S> {
    /// The channel that this is an end of.
    pub closed spec fn channel(&self) -> int {
        self.channel@
    }

    /// What the channel has answered so far, each time that it was asked for a source.
    pub closed spec fn answers(&self) -> Seq<Option<S>> {
        self.answers@
    }

    /// `std::sync::mpsc::Receiver::try_recv` asks the channel for the message that has waited
    /// longest, without blocking.  `None` stands for both of its errors: nothing is waiting, or
    /// every sender is gone.  What the answer is, is up to other threads; it goes on record.
    #[verifier::external_body]
    fn take(&mut self) -> (source: Option<S>)
        ensures
            final(self).channel() == old(self).channel(),
            final(self).answers() == old(self).answers().push(source),
    {
        self.rx.try_recv().ok()
    }

    /// Takes the sources that wait in the channel, oldest first, until it answers that none is
    /// left.
    pub(crate) fn drain(&mut self) -> (sources: Vec<S>)
        ensures
            final(self).channel() == old(self).channel(),
            final(self).answers() == old(self).answers() + drained(sources@),
    {
        let mut sources: Vec<S> = Vec::new();
        // A sender that keeps up with this bound would be at it for centuries.
        let mut budget: u64 = u64::MAX;
        while budget > 0
            invariant
                self.channel() == old(self).channel(),
                sources@.len() + budget == u64::MAX,
                self.answers() == old(self).answers() + received(sources@),
            decreases budget,
        {
            match self.take() {
                Some(source) => {
                    let ghost before = sources@;
                    sources.push(source);
                    assert(received(sources@) == received(before).push(Some(source)));
                },
                None => {
                    return sources;
                },
            }
            budget = budget - 1;
        }
        sources
    }
}

/// The answers of a channel that hands `sources` out.
pub open spec fn received<S>(sources: Seq<S>) -> Seq<Option<S>> {
    sources.map_values(|source: S| Some(source))
}

/// The answers of a channel that is asked until it has no source left, and hands `sources` out: at
/// the end it says that none is waiting.  Only a count beyond that of the machine ends it earlier.
pub open spec fn drained<S>(sources: Seq<S>) -> Seq<Option<S>> {
    if sources.len() < u64::MAX {
        received(sources).push(None)
    } else {
        received(sources)
    }
}

/// A send has to wait if the channel, which holds `bound` messages, already has as many in it.
pub open spec fn send_waits<S>(bound: nat, waiting: Seq<S>) -> bool {
    waiting.len() >= bound
}

/// A channel that is asked until it has no source left answers with each source in its turn, and
/// then once that there is none.
pub proof fn law_draining_gives_all_and_then_nothing<S>(sources: Seq<S>)
    requires
        sources.len() < u64::MAX,
    ensures
        drained(sources).len() == sources.len() + 1,
        forall|i: int| 0 <= i < sources.len() ==> #[trigger] drained(sources)[i] == Some(sources[i]),
        drained(sources)[sources.len() as int] is None,
{
}

/// The sources that were taken can be told from the answers.
pub proof fn law_answers_tell_sources<S>(sources: Seq<S>, others: Seq<S>)
    ensures
        drained(sources) == drained(others) <==> sources == others,
{
    if drained(sources) == drained(others) {
        let one = drained(sources);
        let other = drained(others);
        if sources.len() < others.len() {
            assert(one.len() == other.len());
            assert(sources.len() < u64::MAX);
            assert(one[sources.len() as int] is None);
            assert(other[sources.len() as int] == Some(others[sources.len() as int]));
        } else if others.len() < sources.len() {
            assert(one.len() == other.len());
            assert(others.len() < u64::MAX);
            assert(other[others.len() as int] is None);
            assert(one[others.len() as int] == Some(sources[others.len() as int]));
        }
        assert forall|i: int| 0 <= i < sources.len() implies sources[i] == others[i] by {
            assert(one[i] == Some(sources[i]));
            assert(other[i] == Some(others[i]));
        }
        assert(sources == others);
    }
}

/// Into an empty channel from which nothing is taken, as many messages can be sent without waiting
/// as it holds, and no more.
pub proof fn law_bound_is_what_goes_without_waiting<S>(bound: nat, messages: Seq<S>)
    ensures
        (forall|k: int|
            0 <= k < messages.len() ==> !send_waits(bound, #[trigger] messages.take(k)))
            <==> messages.len() <= bound,
{
    if messages.len() > bound {
        assert(send_waits(bound, messages.take(bound as int)));
    }
}

} // verus!
