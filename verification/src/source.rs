//! A place to write media data to, which works before the media pipeline exists.

use vstd::prelude::*;

use crate::channel::{
    drained, open_channel, send_waits, SourceReceiver, SourceSender, SOURCE_BACKLOG,
};

verus! {

/// What a [`MaybeAppSrc`] holds at one moment.
#[verifier::reject_recursive_types(S)]
pub struct SourceState<S> {
    /// The channel that sources come over.
    pub channel: int,
    /// The source that data is pushed into, if there is one.
    pub app_src: Option<S>,
    /// The time of the data to come, in microseconds.
    pub timestamp: Option<u64>,
    /// The time, in microseconds, that counts as zero for the present source.
    pub basetime: Option<u64>,
}

impl<S> SourceState<S> {
    /// No source, and no time known.
    pub open spec fn initial(channel: int) -> Self {
        SourceState { channel, app_src: None, timestamp: None, basetime: None }
    }

    /// The state once `arrivals` have come over the channel.  The last one replaces the source,
    /// and its viewer gets a zero time of its own.
    pub open spec fn receive(self, arrivals: Seq<S>) -> Self {
        if arrivals.len() == 0 {
            self
        } else {
            SourceState { app_src: Some(arrivals.last()), basetime: None, ..self }
        }
    }

    /// The state once the time of the data to come is known to be `timestamp`.  The first time
    /// that is known for a source is its zero time.
    pub open spec fn with_timestamp(self, timestamp: Option<u64>) -> Self {
        SourceState {
            timestamp,
            basetime: if self.basetime is None {
                timestamp
            } else {
                self.basetime
            },
            ..self
        }
    }

    /// The state once the source has answered a push.  A source that refuses data is dropped.
    pub open spec fn pushed(self, accepted: bool) -> Self {
        if accepted {
            self
        } else {
            SourceState { app_src: None, ..self }
        }
    }

    /// The zero time is not after the time of the data to come.
    pub open spec fn in_order(self) -> bool {
        self.timestamp is Some && self.basetime is Some ==> self.basetime->0 <= self.timestamp->0
    }

    /// The presentation time of the data to come, in microseconds since the zero time.
    pub open spec fn pts(self) -> Option<u64>
        recommends
            self.in_order(),
    {
        match (self.timestamp, self.basetime) {
            (Some(timestamp), Some(basetime)) => Some((timestamp - basetime) as u64),
            _ => None,
        }
    }
}

/// A piece of data that is to be pushed into a source.
pub struct Push<'a, S> {
    /// The source to push into.
    pub src: &'a S,
    /// The presentation time, and decoding time, in microseconds.
    pub pts: Option<u64>,
    /// All of the data.
    pub data: &'a [u8],
}

/// The outcome of a write.
pub struct WriteStep<'a, S> {
    /// How many bytes count as written.
    pub written: usize,
    /// The push that the write asks for.  Without one the data is thrown away.
    pub push: Option<Push<'a, S>>,
}

/// The value behind an optional reference.
pub open spec fn pointee<T>(reference: Option<&T>) -> Option<T> {
    match reference {
        Some(value) => Some(*value),
        None => None,
    }
}

/// A write of `buf` in state `pre`, during which `arrivals` come over the channel, ends in state
/// `post` with `step`: all of `buf` counts as written, and it is to be pushed whole into the source
/// that is there after the arrivals, if any.  Its presentation time is the one before them.
pub open spec fn wrote<S>(
    pre: SourceState<S>,
    arrivals: Seq<S>,
    buf: Seq<u8>,
    step: WriteStep<S>,
    post: SourceState<S>,
) -> bool {
    &&& post == pre.receive(arrivals)
    &&& step.written == buf.len()
    &&& match post.app_src {
        None => step.push is None,
        Some(src) => {
            &&& step.push is Some
            &&& *step.push->0.src == src
            &&& step.push->0.pts == pre.pts()
            &&& step.push->0.data@ == buf
        },
    }
}

/// A sink for media data in front of a source of type `S` that may come later.  Data written
/// before the source is there is thrown away.
#[verifier::reject_recursive_types(S)]
pub struct MaybeAppSrc<S> {
    rx: SourceReceiver<S>,
    app_src: Option<S>,
    timestamp: Option<u64>,
    basetime: Option<u64>,
}

impl<S> View for MaybeAppSrc<S> {
    type V = SourceState<S>;

    closed spec fn view(&self) -> SourceState<S> {
        SourceState {
            channel: self.rx.channel(),
            app_src: self.app_src,
            timestamp: self.timestamp,
            basetime: self.basetime,
        }
    }
}

impl<S> MaybeAppSrc<S> {
    /// What the channel has answered so far, each time that it was asked for a source.
    pub closed spec fn answers(&self) -> Seq<Option<S>> {
        self.rx.answers()
    }

    /// Makes a sink without a source, and the sender by which to provide the source as soon as
    /// there is one.  A source that is sent later replaces the one before it.
    pub fn new_with_tx() -> (res: (Self, SourceSender<S>))
        ensures
            res.0@ == SourceState::<S>::initial(res.1.channel()),
            res.0.answers() == Seq::<Option<S>>::empty(),
            res.1.bound() == SOURCE_BACKLOG,
    {
        let (tx, rx) = open_channel(SOURCE_BACKLOG);
        (MaybeAppSrc { rx, app_src: None, timestamp: None, basetime: None }, tx)
    }

    /// Reacts to a problem with the camera.  Returns the source, if there is one, so that the
    /// caller can tell it that the stream is at its end; an error from doing so is not one.
    pub fn on_stream_error(&mut self) -> (src: Option<&S>)
        ensures
            exists|arrivals: Seq<S>|
                final(self).answers() == old(self).answers() + drained(arrivals) && final(self)@
                    == #[trigger] old(self)@.receive(arrivals),
            pointee(src) == final(self)@.app_src,
            old(self)@.app_src is Some ==> src is Some,
    {
        self.try_get_src()
    }

    /// Takes the sources that have been sent, and returns the one to use, or `None` if none has
    /// been sent yet.
    fn try_get_src(&mut self) -> (src: Option<&S>)
        ensures
            exists|arrivals: Seq<S>|
                final(self).answers() == old(self).answers() + drained(arrivals) && final(self)@
                    == #[trigger] old(self)@.receive(arrivals),
            pointee(src) == final(self)@.app_src,
            old(self)@.app_src is Some ==> src is Some,
    {
        let arrivals = self.rx.drain();
        self.src_after(arrivals)
    }

    /// Takes over the last of `arrivals`, oldest first, and returns the source to use.
    pub fn src_after(&mut self, arrivals: Vec<S>) -> (src: Option<&S>)
        ensures
            final(self)@ == old(self)@.receive(arrivals@),
            arrivals@.len() == 0 ==> final(self)@ == old(self)@,
            arrivals@.len() > 0 ==> final(self)@.app_src == Some(arrivals@.last()) && final(self)@.basetime is None,
            final(self)@.timestamp == old(self)@.timestamp,
            final(self)@.channel == old(self)@.channel,
            final(self).answers() == old(self).answers(),
            pointee(src) == final(self)@.app_src,
    {
        let mut arrivals = arrivals;
        if let Some(src) = arrivals.pop() {
            self.app_src = Some(src);
            // A new source has a new viewer.  Measured from the old zero time, its data would lie
            // in the future, and some players wait until then.
            self.basetime = None;
        }
        self.app_src.as_ref()
    }

    /// Sets the time of the data to come.  There must be one to serve as zero time, if the source
    /// has none yet.
    pub fn set_timestamp(&mut self, timestamp: Option<u64>)
        requires
            timestamp is Some || old(self)@.basetime is Some,
        ensures
            final(self)@ == old(self)@.with_timestamp(timestamp),
            final(self)@.timestamp == timestamp,
            final(self)@.basetime == (if old(self)@.basetime is Some {
                old(self)@.basetime
            } else {
                timestamp
            }),
            final(self)@.app_src == old(self)@.app_src,
            final(self)@.channel == old(self)@.channel,
            final(self).answers() == old(self).answers(),
    {
        self.timestamp = timestamp;
        if self.basetime.is_none() {
            self.basetime = timestamp;  // This is zero time
        }
    }

    /// Whether a source has a zero time yet.
    pub fn has_basetime(&self) -> (res: bool)
        ensures
            res == (self@.basetime is Some),
    {
        self.basetime.is_some()
    }

    /// Whether the zero time is not after the time of the data to come, as a write needs it.
    pub fn is_in_order(&self) -> (res: bool)
        ensures
            res == self@.in_order(),
    {
        match (self.timestamp, self.basetime) {
            (Some(timestamp), Some(basetime)) => basetime <= timestamp,
            _ => true,
        }
    }

    /// Accepts `buf`.  The caller performs the push that comes back, if any, and then reports to
    /// [`push_finished`](Self::push_finished).
    pub fn write<'a>(&'a mut self, buf: &'a [u8]) -> (step: WriteStep<'a, S>)
        requires
            old(self)@.in_order(),
        ensures
            exists|arrivals: Seq<S>|
                final(self).answers() == old(self).answers() + drained(arrivals) && #[trigger] wrote(
                    old(self)@,
                    arrivals,
                    buf@,
                    step,
                    final(self)@,
                ),
            step.written == buf@.len(),
            old(self)@.app_src is Some ==> step.push is Some,
            step.push is Some ==> step.push->0.data@ == buf@,
            step.push is Some ==> (step.push->0.pts is Some <==> old(self)@.timestamp is Some
                && old(self)@.basetime is Some),
            step.push is Some && step.push->0.pts is Some ==> old(self)@.basetime->0
                + step.push->0.pts->0 == old(self)@.timestamp->0,
    {
        let arrivals = self.rx.drain();
        self.write_after(arrivals, buf)
    }

    /// Accepts `buf` just when `arrivals` have come over the channel, oldest first.
    pub fn write_after<'a>(&'a mut self, arrivals: Vec<S>, buf: &'a [u8]) -> (step: WriteStep<'a, S>)
        requires
            old(self)@.in_order(),
        ensures
            wrote(old(self)@, arrivals@, buf@, step, final(self)@),
            step.written == buf@.len(),
            step.push is Some <==> old(self)@.app_src is Some || arrivals@.len() > 0,
            step.push is Some ==> step.push->0.data@ == buf@,
            step.push is Some && arrivals@.len() > 0 ==> *step.push->0.src == arrivals@.last(),
            step.push is Some && arrivals@.len() == 0 ==> Some(*step.push->0.src) == old(
                self,
            )@.app_src,
            step.push is Some ==> (step.push->0.pts is Some <==> old(self)@.timestamp is Some
                && old(self)@.basetime is Some),
            step.push is Some && step.push->0.pts is Some ==> old(self)@.basetime->0
                + step.push->0.pts->0 == old(self)@.timestamp->0,
            final(self).answers() == old(self).answers(),
    {
        let pts: Option<u64> = match (self.timestamp, self.basetime) {
            (Some(timestamp), Some(basetime)) => Some(timestamp - basetime),
            _ => None,
        };
        let push = match self.src_after(arrivals) {
            Some(src) => Some(Push { src, pts, data: buf }),
            None => None,
        };
        WriteStep { written: buf.len(), push }
    }

    /// Records whether the source accepted the data that was pushed into it.
    pub fn push_finished(&mut self, accepted: bool)
        ensures
            final(self)@ == old(self)@.pushed(accepted),
            accepted ==> final(self)@ == old(self)@,
            !accepted ==> final(self)@.app_src is None,
            final(self)@.timestamp == old(self)@.timestamp,
            final(self)@.basetime == old(self)@.basetime,
            final(self)@.channel == old(self)@.channel,
            final(self).answers() == old(self).answers(),
    {
        if !accepted {
            self.app_src = None;
        }
    }
}

/// Something that happens to a [`MaybeAppSrc`].
#[verifier::reject_recursive_types(S)]
pub enum SourceEvent<S> {
    /// The time of the data to come is set.
    Timestamp(Option<u64>),
    /// A write or a stream error finds these sources in the channel.
    Arrivals(Seq<S>),
    /// A push ends, accepted or not.
    Pushed(bool),
}

impl<S> SourceState<S> {
    /// The state after one event.
    pub open spec fn after(self, event: SourceEvent<S>) -> Self {
        match event {
            SourceEvent::Timestamp(timestamp) => self.with_timestamp(timestamp),
            SourceEvent::Arrivals(arrivals) => self.receive(arrivals),
            SourceEvent::Pushed(accepted) => self.pushed(accepted),
        }
    }
}

/// The state after `events`, from the beginning.
pub open spec fn history<S>(channel: int, events: Seq<SourceEvent<S>>) -> SourceState<S>
    decreases events.len(),
{
    if events.len() == 0 {
        SourceState::initial(channel)
    } else {
        history(channel, events.drop_last()).after(events.last())
    }
}

impl<S> SourceEvent<S> {
    /// The time that the event sets, if it sets one.
    pub open spec fn stamp(self) -> Option<u64> {
        match self {
            SourceEvent::Timestamp(timestamp) => timestamp,
            _ => None,
        }
    }
}

/// The times that are set among `events` never go back.
pub open spec fn clock_runs_forward<S>(events: Seq<SourceEvent<S>>) -> bool {
    forall|i: int, j: int|
        0 <= i < j < events.len() && (#[trigger] events[i]).stamp() is Some && (
        #[trigger] events[j]).stamp() is Some ==> events[i].stamp()->0 <= events[j].stamp()->0
}

proof fn lemma_history_in_order<S>(channel: int, events: Seq<SourceEvent<S>>)
    requires
        clock_runs_forward(events),
    ensures
        history(channel, events).in_order(),
        history(channel, events).basetime is Some ==> exists|i: int|
            0 <= i < events.len() && (#[trigger] events[i]).stamp() == history(channel, events).basetime,
    decreases events.len(),
{
    if events.len() > 0 {
        let before = events.drop_last();
        assert(events[events.len() - 1] == events.last());
        lemma_history_in_order(channel, before);
        let basetime = history(channel, before).basetime;
        if basetime is Some {
            let i = choose|i: int|
                0 <= i < before.len() && (#[trigger] before[i]).stamp() == basetime;
            assert(events[i].stamp() == basetime);
        }
    }
}

/// As long as the times that are set never go back, a write is possible at any moment: the zero
/// time is never after the time of the data to come.
pub proof fn law_forward_clock_allows_writes<S>(channel: int, events: Seq<SourceEvent<S>>)
    requires
        clock_runs_forward(events),
    ensures
        history(channel, events).in_order(),
{
    lemma_history_in_order(channel, events);
}

/// For a new source, as at the very beginning, the first time that is set counts as zero, and
/// every later one is measured from it.
pub proof fn law_new_source_starts_at_zero<S>(
    state: SourceState<S>,
    arrivals: Seq<S>,
    first: u64,
    later: u64,
)
    requires
        arrivals.len() > 0 || state.basetime is None,
        first <= later,
    ensures
        state.receive(arrivals).with_timestamp(Some(first)).pts() == Some(0u64),
        state.receive(arrivals).with_timestamp(Some(first)).with_timestamp(Some(later)).pts()
            == Some((later - first) as u64),
{
}

/// Between the arrival of a source and the next time that is set, data carries no presentation
/// time.
pub proof fn law_no_pts_before_first_timestamp<S>(state: SourceState<S>, arrivals: Seq<S>)
    requires
        arrivals.len() > 0,
    ensures
        state.receive(arrivals).pts() is None,
{
}

/// Presentation times advance exactly as the times that are set do, as long as the source stays.
pub proof fn law_pts_advance_with_timestamps<S>(state: SourceState<S>, earlier: u64, later: u64)
    requires
        state.basetime is Some,
        state.basetime->0 <= earlier <= later,
    ensures
        ({
            let at_first = state.with_timestamp(Some(earlier));
            let at_last = at_first.with_timestamp(Some(later));
            at_last.pts()->0 - at_first.pts()->0 == later - earlier
        }),
        state.with_timestamp(Some(earlier)).pts() is Some,
        state.with_timestamp(Some(earlier)).with_timestamp(Some(later)).pts() is Some,
{
}

/// As long as no source has come, data is thrown away, yet counts as written; the write that finds
/// one pushes into it.
pub proof fn law_discards_until_source_comes<S>(
    state: SourceState<S>,
    arrivals: Seq<S>,
    buf: Seq<u8>,
    step: WriteStep<S>,
    post: SourceState<S>,
)
    requires
        state.app_src is None,
        wrote(state, arrivals, buf, step, post),
    ensures
        step.written == buf.len(),
        step.push is None <==> arrivals.len() == 0,
        step.push is Some ==> *step.push->0.src == arrivals.last() && step.push->0.data@ == buf,
{
}

/// Once a push is refused, data is thrown away, yet counts as written, until another source comes.
pub proof fn law_refused_source_is_dropped<S>(
    state: SourceState<S>,
    arrivals: Seq<S>,
    buf: Seq<u8>,
    step: WriteStep<S>,
    post: SourceState<S>,
)
    requires
        wrote(state.pushed(false), arrivals, buf, step, post),
    ensures
        step.written == buf.len(),
        step.push is None <==> arrivals.len() == 0,
        step.push is Some ==> *step.push->0.src == arrivals.last(),
{
}

/// Sources that come one after the other, or all at once, have the same effect: only the last one
/// stays.
pub proof fn law_last_source_wins<S>(state: SourceState<S>, earlier: Seq<S>, later: Seq<S>)
    ensures
        state.receive(earlier).receive(later) == state.receive(earlier + later),
{
    if later.len() == 0 {
        assert(earlier + later == earlier);
    } else {
        assert((earlier + later).last() == later.last());
    }
}

/// To look for sources again, with none sent meanwhile, changes nothing: the source, the time and a
/// zero time that was set in between all stay.
pub proof fn law_looking_again_changes_nothing<S>(
    state: SourceState<S>,
    arrivals: Seq<S>,
    timestamp: Option<u64>,
)
    ensures
        state.receive(arrivals).receive(Seq::empty()) == state.receive(arrivals),
        state.receive(arrivals).with_timestamp(timestamp).receive(Seq::empty()) == state.receive(
            arrivals,
        ).with_timestamp(timestamp),
        state.receive(arrivals).with_timestamp(timestamp).app_src == state.receive(
            arrivals,
        ).app_src,
{
}

/// A pipeline may be made up to three times before anything is written: no source that it sends has
/// to wait, though a fourth would, and the next write goes to the last one.
pub proof fn law_first_sources_do_not_wait<S>(
    state: SourceState<S>,
    sources: Seq<S>,
    buf: Seq<u8>,
    step: WriteStep<S>,
    post: SourceState<S>,
)
    requires
        1 <= sources.len() <= 3,
        wrote(state, sources, buf, step, post),
    ensures
        forall|k: int|
            0 <= k < sources.len() ==> !send_waits(
                SOURCE_BACKLOG as nat,
                #[trigger] sources.take(k),
            ),
        send_waits(SOURCE_BACKLOG as nat, sources) <==> sources.len() == 3,
        step.push is Some,
        *step.push->0.src == sources.last(),
{
}

/// At the beginning there is no source, no time, and so no presentation time.
pub proof fn law_nothing_is_known_at_first<S>(channel: int)
    ensures
        SourceState::<S>::initial(channel).app_src is None,
        SourceState::<S>::initial(channel).timestamp is None,
        SourceState::<S>::initial(channel).basetime is None,
        SourceState::<S>::initial(channel).pts() is None,
        SourceState::<S>::initial(channel).channel == channel,
{
}

/// Sources that come replace the source and take the zero time away; they leave the time of the
/// data to come alone.  When none comes, nothing changes.
pub proof fn law_arrivals_replace_source_and_zero_time<S>(state: SourceState<S>, arrivals: Seq<S>)
    ensures
        arrivals.len() == 0 ==> state.receive(arrivals) == state,
        arrivals.len() > 0 ==> state.receive(arrivals).app_src == Some(arrivals.last()),
        arrivals.len() > 0 ==> state.receive(arrivals).basetime is None,
        state.receive(arrivals).timestamp == state.timestamp,
        state.receive(arrivals).channel == state.channel,
{
}

/// A time that is set is the time of the data to come, whatever was there before.  It becomes the
/// zero time only where there is none, and it has no bearing on the source.
pub proof fn law_zero_time_is_set_once<S>(state: SourceState<S>, timestamp: Option<u64>)
    ensures
        state.with_timestamp(timestamp).timestamp == timestamp,
        state.basetime is Some ==> state.with_timestamp(timestamp).basetime == state.basetime,
        state.basetime is None ==> state.with_timestamp(timestamp).basetime == timestamp,
        state.with_timestamp(timestamp).app_src == state.app_src,
        state.with_timestamp(timestamp).channel == state.channel,
{
}

/// An accepted push changes nothing.  A refused one takes the source away, and nothing else: the
/// times, and so the presentation time, stay.
pub proof fn law_push_leaves_times_alone<S>(state: SourceState<S>, accepted: bool)
    ensures
        state.pushed(true) == state,
        state.pushed(false).app_src is None,
        state.pushed(accepted).timestamp == state.timestamp,
        state.pushed(accepted).basetime == state.basetime,
        state.pushed(accepted).channel == state.channel,
        state.pushed(accepted).pts() == state.pts(),
{
}

/// The presentation time is what lies between the zero time and the time of the data to come; data
/// has one if and only if both are known.
pub proof fn law_pts_counts_from_zero_time<S>(state: SourceState<S>)
    requires
        state.in_order(),
    ensures
        state.pts() is Some <==> state.timestamp is Some && state.basetime is Some,
        state.pts() is Some ==> state.basetime->0 + state.pts()->0 == state.timestamp->0,
{
}

/// A write is ruled out exactly where the time of the data to come lies before the zero time.
pub proof fn law_only_a_clock_behind_zero_rules_writes_out<S>(state: SourceState<S>)
    ensures
        !state.in_order() <==> state.timestamp is Some && state.basetime is Some
            && state.timestamp->0 < state.basetime->0,
{
}

/// A write counts all bytes as written.  It asks for a push if and only if there is a source, the
/// one that came last; it pushes exactly the bytes that were written, with the presentation time
/// that they had before any source came.  It leaves the time of the data to come alone.
pub proof fn law_write_pushes_all_bytes_to_latest_source<S>(
    pre: SourceState<S>,
    arrivals: Seq<S>,
    buf: Seq<u8>,
    step: WriteStep<S>,
    post: SourceState<S>,
)
    requires
        pre.in_order(),
        wrote(pre, arrivals, buf, step, post),
    ensures
        step.written == buf.len(),
        step.push is Some <==> pre.app_src is Some || arrivals.len() > 0,
        step.push is Some ==> step.push->0.data@ == buf,
        step.push is Some && arrivals.len() > 0 ==> *step.push->0.src == arrivals.last(),
        step.push is Some && arrivals.len() == 0 ==> Some(*step.push->0.src) == pre.app_src,
        step.push is Some ==> (step.push->0.pts is Some <==> pre.timestamp is Some
            && pre.basetime is Some),
        step.push is Some && step.push->0.pts is Some ==> pre.basetime->0 + step.push->0.pts->0
            == pre.timestamp->0,
        step.push is Some ==> post.app_src == Some(*step.push->0.src),
        step.push is None ==> post == pre,
        arrivals.len() == 0 ==> post == pre,
        arrivals.len() > 0 ==> post.basetime is None,
        post.timestamp == pre.timestamp,
        post.channel == pre.channel,
{
}

/// The state after `events`, from `state` on.
pub open spec fn continued<S>(state: SourceState<S>, events: Seq<SourceEvent<S>>) -> SourceState<S>
    decreases events.len(),
{
    if events.len() == 0 {
        state
    } else {
        continued(state, events.drop_last()).after(events.last())
    }
}

/// No new source comes among `events`.
pub open spec fn no_source_comes<S>(events: Seq<SourceEvent<S>>) -> bool {
    forall|i: int|
        0 <= i < events.len() && (#[trigger] events[i]) is Arrivals ==> events[i]->Arrivals_0.len()
            == 0
}

/// Whatever happens, the zero time stays the same until a new source comes: after any number of
/// writes, pushes, accepted or not, and times set in between, data is measured from the first time
/// that was set.
pub proof fn law_zero_time_stays_until_new_source<S>(
    state: SourceState<S>,
    first: u64,
    events: Seq<SourceEvent<S>>,
    later: u64,
)
    requires
        state.basetime is None,
        no_source_comes(events),
        first <= later,
    ensures
        ({
            let begun = state.with_timestamp(Some(first));
            &&& continued(begun, events).basetime == Some(first)
            &&& continued(begun, events).with_timestamp(Some(later)).pts() == Some(
                (later - first) as u64,
            )
        }),
    decreases events.len(),
{
    if events.len() > 0 {
        let before = events.drop_last();
        assert(events[events.len() - 1] == events.last());
        assert forall|i: int|
            0 <= i < before.len() && (
            #[trigger] before[i]) is Arrivals implies before[i]->Arrivals_0.len() == 0 by {
            assert(before[i] == events[i]);
        }
        law_zero_time_stays_until_new_source(state, first, before, later);
    }
}

/// The source stays until it refuses a push or another one comes.
pub proof fn law_source_stays_until_refused_or_replaced<S>(
    state: SourceState<S>,
    events: Seq<SourceEvent<S>>,
)
    requires
        no_source_comes(events),
        forall|i: int| 0 <= i < events.len() ==> #[trigger] events[i] != SourceEvent::<S>::Pushed(
            false,
        ),
    ensures
        continued(state, events).app_src == state.app_src,
    decreases events.len(),
{
    if events.len() > 0 {
        let before = events.drop_last();
        assert(events[events.len() - 1] == events.last());
        assert forall|i: int| 0 <= i < before.len() implies #[trigger] before[i]
            != SourceEvent::<S>::Pushed(false) by {
            assert(before[i] == events[i]);
        }
        assert forall|i: int|
            0 <= i < before.len() && (
            #[trigger] before[i]) is Arrivals implies before[i]->Arrivals_0.len() == 0 by {
            assert(before[i] == events[i]);
        }
        law_source_stays_until_refused_or_replaced(state, before);
    }
}

/// An optional reference stands for a value if and only if it is there, and then for that one.
pub proof fn law_pointee_is_the_value<T>(reference: Option<&T>)
    ensures
        pointee(reference) is Some <==> reference is Some,
        reference is Some ==> pointee(reference)->0 == *reference->0,
{
}

} // verus!
