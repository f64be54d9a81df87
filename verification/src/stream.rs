//! The contract of an utterance stream, and a tracker that holds a stream
//! to it item by item.
//!
//! A stream hands out events and, if synthesis fails, one error, which is
//! its last item. Among the events of one kind, offsets never decrease.
//! Events of different kinds may come in any order.

use crate::binary32::{le_is_transitive, Binary32};
use crate::event::{BasicVisemeFrame, BlendShapeVisemeFrame, EventKind, UtteranceEvent};
use vstd::prelude::*;

verus! {

/// The offsets that the events of one kind place something at, in the order
/// of the events and, within an event, in the order in which it holds them.
pub open spec fn offsets_of(events: Seq<UtteranceEvent>, kind: EventKind) -> Seq<Binary32>
    decreases events.len(),
{
    if events.len() == 0 {
        Seq::empty()
    } else {
        let earlier = offsets_of(events.drop_last(), kind);
        if events.last().kind() == kind {
            earlier + events.last().offsets()
        } else {
            earlier
        }
    }
}

/// Whether each offset but the first is at least the one before it.
pub open spec fn non_decreasing(offsets: Seq<Binary32>) -> bool {
    forall|i: int, j: int|
        0 <= i && j == i + 1 && j < offsets.len() ==> (#[trigger] offsets[i]).le(
            #[trigger] offsets[j],
        )
}

/// Whether, among the events of each kind, offsets never decrease.
pub open spec fn in_order(events: Seq<UtteranceEvent>) -> bool {
    forall|kind: EventKind| non_decreasing(#[trigger] offsets_of(events, kind))
}

/// How far a stream has come: the events accepted so far, and whether it has
/// handed out an error.
pub struct StreamView {
    pub events: Seq<UtteranceEvent>,
    pub failed: bool,
}

/// What the tracker makes of an item.
#[derive(Debug, Clone, Copy, PartialEq, Eq, Structural)]
pub enum Verdict {
    /// The item is in line with the contract. It is now part of the stream.
    Accepted,
    /// The item is an event with an offset that is not at least the one that
    /// came before it among the events of its kind. It is left out of the
    /// account.
    OutOfOrder,
    /// The item came after an error. It is left out of the account.
    AfterError,
}

/// A stream that has handed out nothing yet.
pub open spec fn start() -> StreamView {
    StreamView { events: Seq::empty(), failed: false }
}

/// What an item does to a stream, and the verdict on the item. After an
/// error nothing is accepted. An error is accepted and ends the stream. An
/// event is accepted if the events are still in order with it.
pub open spec fn step<E>(state: StreamView, item: Result<UtteranceEvent, E>) -> (
    StreamView,
    Verdict,
) {
    if state.failed {
        (state, Verdict::AfterError)
    } else {
        match item {
            Err(_) => (StreamView { failed: true, ..state }, Verdict::Accepted),
            Ok(event) => if in_order(state.events.push(event)) {
                (StreamView { events: state.events.push(event), ..state }, Verdict::Accepted)
            } else {
                (state, Verdict::OutOfOrder)
            },
        }
    }
}

/// The stream after the given items, from the start.
pub open spec fn run<E>(items: Seq<Result<UtteranceEvent, E>>) -> StreamView
    decreases items.len(),
{
    if items.len() == 0 {
        start()
    } else {
        step(run(items.drop_last()), items.last()).0
    }
}

/// The verdict on the item at place `i` of `items`.
pub open spec fn verdict_at<E>(items: Seq<Result<UtteranceEvent, E>>, i: int) -> Verdict {
    step(run(items.take(i)), items[i]).1
}

/// The items of a stream that hands out the given events and no error.
pub open spec fn unfailing<E>(events: Seq<UtteranceEvent>) -> Seq<Result<UtteranceEvent, E>> {
    events.map_values(|event: UtteranceEvent| Ok::<UtteranceEvent, E>(event))
}

/// The last of some offsets, if there is one.
pub open spec fn latest(offsets: Seq<Binary32>) -> Option<Binary32> {
    if offsets.len() > 0 {
        Some(offsets.last())
    } else {
        None
    }
}

/// An optional offset as a sequence of at most one.
pub open spec fn sole(offset: Option<Binary32>) -> Seq<Binary32> {
    match offset {
        Some(x) => seq![x],
        None => Seq::empty(),
    }
}

/// Holds a stream to its contract, item by item. It keeps the last offset
/// of each kind of event and whether an error has come.
pub struct StreamTracker {
    latest: Latest,
    failed: bool,
    events: Ghost<Seq<UtteranceEvent>>,
}

impl View for StreamTracker {
    type V = StreamView;

    closed spec fn view(&self) -> StreamView {
        StreamView { events: self.events@, failed: self.failed }
    }
}

impl StreamTracker {
    #[verifier::type_invariant]
    spec fn keeps_account(&self) -> bool {
        &&& in_order(self.events@)
        &&& forall|kind: EventKind|
            self.latest.of(kind) == latest(#[trigger] offsets_of(self.events@, kind))
    }

    /// A tracker for a stream that has handed out nothing yet.
    pub fn new() -> (r: Self)
        ensures
            r@ == start(),
    {
        let latest = Latest {
            mark: None,
            word: None,
            sentence: None,
            blend_shapes: None,
            visemes: None,
        };
        StreamTracker { latest, failed: false, events: Ghost(Seq::empty()) }
    }

    /// Whether the stream has handed out an error.
    pub fn has_failed(&self) -> (r: bool)
        ensures
            r == self@.failed,
    {
        self.failed
    }

    /// Takes the next item of the stream and says whether it is in line with
    /// the contract. An item that is becomes part of the stream; one that is
    /// not leaves the tracker as it was.
    pub fn observe<E>(&mut self, item: &Result<UtteranceEvent, E>) -> (verdict: Verdict)
        ensures
            (final(self)@, verdict) == step(old(self)@, *item),
    {
        proof {
            use_type_invariant(&*self);
        }
        if self.failed {
            return Verdict::AfterError;
        }
        match item {
            Err(_) => {
                *self = StreamTracker { latest: self.latest, failed: true, events: self.events };
                Verdict::Accepted
            },
            Ok(event) => {
                let kind = event.kind();
                let ghost before = self.events@;
                proof {
                    in_order_with_one_more(before, *event);
                    non_decreasing_in_parts(offsets_of(before, kind), event.offsets());
                    audio_has_no_offsets(before.push(*event));
                    assert forall|other: EventKind|
                        #[trigger] offsets_of(before.push(*event), other) == if kind == other {
                            offsets_of(before, other) + event.offsets()
                        } else {
                            offsets_of(before, other)
                        } by {
                        offsets_after_push(before, *event, other);
                    }
                }
                match follow_event(self.latest.get(kind), event) {
                    None => Verdict::OutOfOrder,
                    Some(last) => {
                        *self = StreamTracker {
                            latest: self.latest.set(kind, last),
                            failed: false,
                            events: Ghost(before.push(*event)),
                        };
                        Verdict::Accepted
                    },
                }
            },
        }
    }
}

/// The last offset of each kind of event that places something at one.
#[derive(Debug, Clone, Copy)]
struct Latest {
    mark: Option<Binary32>,
    word: Option<Binary32>,
    sentence: Option<Binary32>,
    blend_shapes: Option<Binary32>,
    visemes: Option<Binary32>,
}

impl Latest {
    spec fn of(self, kind: EventKind) -> Option<Binary32> {
        match kind {
            EventKind::SsmlMark => self.mark,
            EventKind::WordBoundary => self.word,
            EventKind::SentenceBoundary => self.sentence,
            EventKind::BlendShapeVisemes => self.blend_shapes,
            EventKind::Visemes => self.visemes,
            EventKind::Audio => None,
        }
    }

    fn get(self, kind: EventKind) -> (r: Option<Binary32>)
        ensures
            r == self.of(kind),
    {
        match kind {
            EventKind::SsmlMark => self.mark,
            EventKind::WordBoundary => self.word,
            EventKind::SentenceBoundary => self.sentence,
            EventKind::BlendShapeVisemes => self.blend_shapes,
            EventKind::Visemes => self.visemes,
            EventKind::Audio => None,
        }
    }

    fn set(self, kind: EventKind, last: Option<Binary32>) -> (r: Latest)
        ensures
            kind != EventKind::Audio ==> r.of(kind) == last,
            forall|other: EventKind| other != kind ==> r.of(other) == self.of(other),
    {
        let mut r = self;
        match kind {
            EventKind::SsmlMark => r.mark = last,
            EventKind::WordBoundary => r.word = last,
            EventKind::SentenceBoundary => r.sentence = last,
            EventKind::BlendShapeVisemes => r.blend_shapes = last,
            EventKind::Visemes => r.visemes = last,
            EventKind::Audio => {},
        }
        r
    }
}

/// A frame of a chunk: something placed at an offset.
trait Frame {
    spec fn at(&self) -> Binary32;

    fn offset(&self) -> (r: Binary32)
        ensures
            r == self.at(),
    ;
}

impl Frame for BlendShapeVisemeFrame {
    spec fn at(&self) -> Binary32 {
        self.frame_offset
    }

    fn offset(&self) -> (r: Binary32) {
        self.frame_offset
    }
}

impl Frame for BasicVisemeFrame {
    spec fn at(&self) -> Binary32 {
        self.frame_offset
    }

    fn offset(&self) -> (r: Binary32) {
        self.frame_offset
    }
}

/// Follows one offset after `last`: the new last offset, unless the offset
/// is not at least `last`.
fn follow(last: Option<Binary32>, next: Binary32) -> (r: Option<Option<Binary32>>)
    ensures
        r is Some <==> non_decreasing(sole(last) + seq![next]),
        r matches Some(l) ==> l == latest(sole(last) + seq![next]),
{
    proof {
        assert(sole(last) + seq![next] =~= sole(last).push(next));
        non_decreasing_with_one_more(sole(last), next);
    }
    match last {
        Some(l) if !l.le(next) => None,
        _ => Some(Some(next)),
    }
}

/// Follows the offsets of some frames after `last`: the new last offset,
/// unless an offset is not at least the one before it.
fn follow_frames<F: Frame>(last: Option<Binary32>, frames: &Vec<F>) -> (r: Option<
    Option<Binary32>,
>)
    ensures
        r is Some <==> non_decreasing(sole(last) + frames@.map_values(|f: F| f.at())),
        r matches Some(l) ==> l == latest(sole(last) + frames@.map_values(|f: F| f.at())),
{
    let ghost stamps = frames@.map_values(|f: F| f.at());
    let mut newest = last;
    let mut i: usize = 0;
    while i < frames.len()
        invariant
            i <= frames.len(),
            stamps == frames@.map_values(|f: F| f.at()),
            non_decreasing(sole(last) + stamps.take(i as int)),
            newest == latest(sole(last) + stamps.take(i as int)),
        decreases frames.len() - i,
    {
        let next = frames[i].offset();
        proof {
            let seen = sole(last) + stamps.take(i as int);
            assert(sole(last) + stamps.take(i + 1) =~= seen.push(next));
            non_decreasing_with_one_more(seen, next);
            if !(newest matches Some(l) ==> l.le(next)) {
                let all = sole(last) + stamps;
                assert(all.take(seen.len() as int + 1) =~= seen.push(next));
                if non_decreasing(all) {
                    non_decreasing_in_front(all, seen.len() as int + 1);
                }
            }
        }
        match newest {
            Some(l) if !l.le(next) => {
                return None;
            },
            _ => {},
        }
        newest = Some(next);
        i += 1;
    }
    proof {
        assert(stamps.take(i as int) =~= stamps);
    }
    Some(newest)
}

/// Follows the offsets of an event after `last`, the last offset among the
/// earlier events of its kind.
fn follow_event(last: Option<Binary32>, event: &UtteranceEvent) -> (r: Option<Option<Binary32>>)
    ensures
        r is Some <==> non_decreasing(sole(last) + event.offsets()),
        r matches Some(l) ==> l == latest(sole(last) + event.offsets()),
{
    match event {
        UtteranceEvent::SsmlMark { at_millis, .. } => follow(last, *at_millis),
        UtteranceEvent::WordBoundary { from_millis, .. } => follow(last, *from_millis),
        UtteranceEvent::SentenceBoundary { from_millis, .. } => follow(last, *from_millis),
        UtteranceEvent::BlendShapeVisemesChunk(frames) => {
            assert(event.offsets() =~= frames@.map_values(|f: BlendShapeVisemeFrame| f.at()));
            follow_frames(last, frames)
        },
        UtteranceEvent::VisemesChunk(frames) => {
            assert(event.offsets() =~= frames@.map_values(|f: BasicVisemeFrame| f.at()));
            follow_frames(last, frames)
        },
        UtteranceEvent::AudioChunk(_) => Some(last),
    }
}

/// Every stream that the items of some sequence have been put to, one after
/// the other from the start, holds events in order: among those of each
/// kind, each offset but the first is at least the one before it.
pub proof fn accepted_events_are_in_order<E>(items: Seq<Result<UtteranceEvent, E>>)
    ensures
        in_order(run(items).events),
    decreases items.len(),
{
    if items.len() == 0 {
        assert forall|kind: EventKind| non_decreasing(
            #[trigger] offsets_of(Seq::<UtteranceEvent>::empty(), kind),
        ) by {}
    } else {
        accepted_events_are_in_order(items.drop_last());
    }
}

/// A stream of events alone has each of them accepted exactly if they are
/// in order.
pub proof fn all_accepted_iff_in_order<E>(events: Seq<UtteranceEvent>)
    ensures
        run(unfailing::<E>(events)) == (StreamView { events, failed: false }) <==> in_order(events),
    decreases events.len(),
{
    let items = unfailing::<E>(events);
    accepted_events_are_in_order(items);
    if events.len() == 0 {
        assert(run(items).events =~= events);
    } else {
        let front = events.drop_last();
        assert(items.drop_last() =~= unfailing::<E>(front));
        assert(events =~= front.push(events.last()));
        all_accepted_iff_in_order::<E>(front);
        if in_order(events) {
            in_order_without_the_last(front, events.last());
        }
    }
}

/// After an error nothing more is accepted: every later item gets the
/// verdict that it came after an error, and leaves the stream as it was.
pub proof fn nothing_is_accepted_after_an_error<E>(
    items: Seq<Result<UtteranceEvent, E>>,
    k: int,
    j: int,
)
    requires
        0 <= k < j < items.len(),
        items[k] is Err,
    ensures
        run(items.take(j)).failed,
        verdict_at(items, j) == Verdict::AfterError,
        run(items.take(j + 1)) == run(items.take(j)),
    decreases j - k,
{
    if j == k + 1 {
        run_one_more(items, k);
    } else {
        nothing_is_accepted_after_an_error(items, k, j - 1);
    }
    run_one_more(items, j);
}

/// The stream after the first `n + 1` items is the stream after the first
/// `n`, put to the item at place `n`.
pub proof fn run_one_more<E>(items: Seq<Result<UtteranceEvent, E>>, n: int)
    requires
        0 <= n < items.len(),
    ensures
        run(items.take(n + 1)) == step(run(items.take(n)), items[n]).0,
{
    assert(items.take(n + 1).drop_last() =~= items.take(n));
}

/// Events that are in order stay so with one more event exactly if the
/// offsets of its kind never decrease from the last of them on through those
/// of the event.
pub proof fn in_order_with_one_more(events: Seq<UtteranceEvent>, event: UtteranceEvent)
    requires
        in_order(events),
    ensures
        in_order(events.push(event)) <==> non_decreasing(
            sole(latest(offsets_of(events, event.kind()))) + event.offsets(),
        ),
{
    let kind = event.kind();
    let more = events.push(event);
    non_decreasing_in_parts(offsets_of(events, kind), event.offsets());
    offsets_after_push(events, event, kind);
    if non_decreasing(sole(latest(offsets_of(events, kind))) + event.offsets()) {
        assert forall|other: EventKind| non_decreasing(#[trigger] offsets_of(more, other)) by {
            offsets_after_push(events, event, other);
        }
    }
}

/// Events that are in order were in order before the last of them came.
pub proof fn in_order_without_the_last(events: Seq<UtteranceEvent>, event: UtteranceEvent)
    requires
        in_order(events.push(event)),
    ensures
        in_order(events),
{
    assert forall|kind: EventKind| non_decreasing(#[trigger] offsets_of(events, kind)) by {
        offsets_after_push(events, event, kind);
        non_decreasing_in_parts(offsets_of(events, kind), event.offsets());
    }
}

/// Offsets that never decrease from one to the next are sorted: each is
/// less than or equal to every later one.
pub proof fn non_decreasing_is_sorted(offsets: Seq<Binary32>, i: int, j: int)
    requires
        non_decreasing(offsets),
        0 <= i < j < offsets.len(),
    ensures
        offsets[i].le(offsets[j]),
    decreases j - i,
{
    if j > i + 1 {
        non_decreasing_is_sorted(offsets, i, j - 1);
        le_is_transitive(offsets[i], offsets[j - 1], offsets[j]);
    }
}

/// What one more event does to the offsets of each kind.
proof fn offsets_after_push(events: Seq<UtteranceEvent>, event: UtteranceEvent, kind: EventKind)
    ensures
        offsets_of(events.push(event), kind) == if event.kind() == kind {
            offsets_of(events, kind) + event.offsets()
        } else {
            offsets_of(events, kind)
        },
{
    assert(events.push(event).drop_last() =~= events);
}

/// Audio places nothing at an offset.
proof fn audio_has_no_offsets(events: Seq<UtteranceEvent>)
    ensures
        offsets_of(events, EventKind::Audio).len() == 0,
    decreases events.len(),
{
    if events.len() > 0 {
        audio_has_no_offsets(events.drop_last());
    }
}

/// Offsets in two parts never decrease exactly if they never decrease within
/// the first part, nor from its last on through the second part. The last
/// of them all is the last from the last of the first part on.
proof fn non_decreasing_in_parts(a: Seq<Binary32>, b: Seq<Binary32>)
    ensures
        non_decreasing(a + b) <==> non_decreasing(a) && non_decreasing(sole(latest(a)) + b),
        latest(a + b) == latest(sole(latest(a)) + b),
{
    let ab = a + b;
    let lb = sole(latest(a)) + b;
    let n = a.len() as int;
    let d = n - sole(latest(a)).len();
    assert forall|i: int| 0 <= i < lb.len() implies #[trigger] lb[i] == ab[i + d] by {}
    if non_decreasing(ab) {
        assert forall|i: int, j: int| 0 <= i && j == i + 1 && j < a.len() implies (
        #[trigger] a[i]).le(#[trigger] a[j]) by {
            assert(ab[i].le(ab[j]));
        }
        assert forall|i: int, j: int| 0 <= i && j == i + 1 && j < lb.len() implies (
        #[trigger] lb[i]).le(#[trigger] lb[j]) by {
            assert(ab[i + d].le(ab[j + d]));
        }
    }
    if non_decreasing(a) && non_decreasing(lb) {
        assert forall|i: int, j: int| 0 <= i && j == i + 1 && j < ab.len() implies (
        #[trigger] ab[i]).le(#[trigger] ab[j]) by {
            if j < n {
                assert(a[i].le(a[j]));
            } else {
                assert(lb[i - d].le(lb[j - d]));
            }
        }
    }
}

/// Offsets with one more never decrease exactly if they never decreased and
/// the new one is at least the last of them.
proof fn non_decreasing_with_one_more(offsets: Seq<Binary32>, next: Binary32)
    ensures
        non_decreasing(offsets.push(next)) <==> non_decreasing(offsets) && (latest(
            offsets,
        ) matches Some(last) ==> last.le(next)),
{
    let more = offsets.push(next);
    let n = offsets.len() as int;
    if non_decreasing(more) {
        assert forall|i: int, j: int| 0 <= i && j == i + 1 && j < n implies (
        #[trigger] offsets[i]).le(#[trigger] offsets[j]) by {
            assert(more[i].le(more[j]));
        }
        if n > 0 {
            assert(more[n - 1].le(more[n]));
        }
    }
    if non_decreasing(offsets) && (latest(offsets) matches Some(last) ==> last.le(next)) {
        assert forall|i: int, j: int| 0 <= i && j == i + 1 && j < more.len() implies (
        #[trigger] more[i]).le(#[trigger] more[j]) by {
            if j < n {
                assert(offsets[i].le(offsets[j]));
            }
        }
    }
}

/// Offsets that never decrease do not decrease among the first `n` of them.
proof fn non_decreasing_in_front(offsets: Seq<Binary32>, n: int)
    requires
        0 <= n <= offsets.len(),
        non_decreasing(offsets),
    ensures
        non_decreasing(offsets.take(n)),
{
    let front = offsets.take(n);
    assert forall|i: int, j: int| 0 <= i && j == i + 1 && j < front.len() implies (
    #[trigger] front[i]).le(#[trigger] front[j]) by {
        assert(offsets[i].le(offsets[j]));
    }
}

} // verus!
