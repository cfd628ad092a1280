//! Dispatcher / apply loop: drains frames in arrival order, decodes each one
//! and applies it to the store, with per-frame failure isolation.
//!
//! One bad frame never halts ingestion: a decode or store failure is an
//! outcome for that frame only, and the loop proceeds to the next frame.

use crate::channel::EventChannel;
use crate::decoder::{DecodeError, EventKind, decode, decode_spec};
use crate::events::{BlogEvent, Event, EventView, FrameView};
use crate::registry::Registry;
use crate::store::{
    Store, StoreView, StoreWriteError, apply_post_created_spec, apply_post_liked_spec,
    apply_user_created_spec,
};
use vstd::prelude::*;

verus! {

/// What happened to one frame: applied, dropped at decode, or refused by the
/// store.
#[derive(Clone, Copy, Debug, PartialEq, Eq, Structural)]
pub enum DispatchOutcome {
    /// The frame decoded and its event changed the store.
    Applied(EventKind),
    /// The frame was dropped at decode: unknown tag or malformed payload.
    DecodeFailed(DecodeError),
    /// The event decoded but the store refused the write; its effect is
    /// lost.
    StoreFailed(EventKind, StoreWriteError),
}

/// The variant an event belongs to.
pub open spec fn kind_of(ev: EventView) -> EventKind {
    match ev {
        EventView::UserCreated(_) => EventKind::UserCreated,
        EventView::PostCreated(_) => EventKind::PostCreated,
        EventView::PostLiked(_) => EventKind::PostLiked,
    }
}

/// What applying a decoded event does to the store.
pub open spec fn apply_event_spec(s: StoreView, ev: EventView, now: i64) -> (StoreView, Result<
    (),
    StoreWriteError,
>) {
    match ev {
        EventView::UserCreated(u) => apply_user_created_spec(s, u),
        EventView::PostCreated(p) => apply_post_created_spec(s, p, now),
        EventView::PostLiked(l) => apply_post_liked_spec(s, l),
    }
}

/// Anything `decode` accepts is well formed: fixed-length keys, bounded and
/// valid UTF-8 strings.
pub proof fn lemma_decoded_event_wf(tag: Seq<u8>, p: Seq<u8>)
    ensures
        decode_spec(tag, p) matches Ok(ev) ==> ev.wf(),
{
}

/// What dispatching one frame does: decode, then apply; a failure at either
/// stage leaves the store as it was.
pub open spec fn dispatch_spec(s: StoreView, f: FrameView, now: i64) -> (StoreView,
    DispatchOutcome,
) {
    match decode_spec(f.discriminator, f.data) {
        Err(e) => (s, DispatchOutcome::DecodeFailed(e)),
        Ok(ev) => {
            let (s2, res) = apply_event_spec(s, ev, now);
            match res {
                Ok(_) => (s2, DispatchOutcome::Applied(kind_of(ev))),
                Err(w) => (s2, DispatchOutcome::StoreFailed(kind_of(ev), w)),
            }
        },
    }
}

/// Dispatches one frame: decodes it and applies the event to the store.
pub fn dispatch_frame(reg: &Registry, store: &mut Store, frame: &Event, now: i64) -> (r:
    DispatchOutcome)
    requires
        reg.wf(),
        old(store).wf(),
    ensures
        final(store).wf(),
        (final(store)@, r) == dispatch_spec(old(store)@, frame@, now),
{
    proof {
        lemma_decoded_event_wf(frame@.discriminator, frame@.data);
    }
    match decode(reg, frame.discriminator.as_slice(), frame.data.as_slice()) {
        Err(e) => DispatchOutcome::DecodeFailed(e),
        Ok(ev) => match ev {
            BlogEvent::UserCreated(u) => match store.create_new_user(&u) {
                Ok(_) => DispatchOutcome::Applied(EventKind::UserCreated),
                Err(w) => DispatchOutcome::StoreFailed(EventKind::UserCreated, w),
            },
            BlogEvent::PostCreated(p) => match store.create_new_post(&p, now) {
                Ok(_) => DispatchOutcome::Applied(EventKind::PostCreated),
                Err(w) => DispatchOutcome::StoreFailed(EventKind::PostCreated, w),
            },
            BlogEvent::PostLiked(l) => match store.like_post(&l) {
                Ok(_) => DispatchOutcome::Applied(EventKind::PostLiked),
                Err(w) => DispatchOutcome::StoreFailed(EventKind::PostLiked, w),
            },
        },
    }
}

/// The images of a batch of frames, in order.
pub open spec fn frames_view(v: Seq<Event>) -> Seq<FrameView> {
    v.map_values(|f: Event| f@)
}

/// What dispatching a batch of frames in order does: the store and the
/// outcome of every frame, one outcome per frame, in the same order.
pub open spec fn run_spec(s: StoreView, frames: Seq<FrameView>, now: i64) -> (StoreView, Seq<
    DispatchOutcome,
>)
    decreases frames.len(),
{
    if frames.len() == 0 {
        (s, Seq::empty())
    } else {
        let (s1, os) = run_spec(s, frames.drop_last(), now);
        let (s2, o) = dispatch_spec(s1, frames.last(), now);
        (s2, os.push(o))
    }
}

/// Dispatches a batch of frames, strictly in order.
pub fn dispatch_all(reg: &Registry, store: &mut Store, frames: &Vec<Event>, now: i64) -> (outcomes:
    Vec<DispatchOutcome>)
    requires
        reg.wf(),
        old(store).wf(),
    ensures
        final(store).wf(),
        final(store)@ == run_spec(old(store)@, frames_view(frames@), now).0,
        outcomes@ == run_spec(old(store)@, frames_view(frames@), now).1,
{
    let ghost views = frames_view(frames@);
    let mut outcomes: Vec<DispatchOutcome> = Vec::new();
    let mut i: usize = 0;
    assert(views.take(0) =~= Seq::<FrameView>::empty());
    assert(outcomes@ =~= run_spec(old(store)@, views.take(0), now).1);
    while i < frames.len()
        invariant
            reg.wf(),
            store.wf(),
            i <= frames@.len(),
            views == frames_view(frames@),
            store@ == run_spec(old(store)@, views.take(i as int), now).0,
            outcomes@ == run_spec(old(store)@, views.take(i as int), now).1,
        decreases frames@.len() - i,
    {
        let o = dispatch_frame(reg, store, &frames[i], now);
        outcomes.push(o);
        proof {
            assert(views.take(i + 1).drop_last() =~= views.take(i as int));
            assert(views.take(i + 1).last() == views[i as int]);
        }
        i = i + 1;
    }
    assert(views.take(frames@.len() as int) =~= views);
    outcomes
}

/// Runs the whole pipeline over a batch of input frames with a bounded
/// channel between producer and consumer, under an arbitrary interleaving.
///
/// Each `true` step offers the producer a turn (it sends the next frame if
/// the channel has room), each `false` step offers the consumer a turn (it
/// receives and dispatches one frame if any is queued); afterwards the
/// remaining frames are pumped through. Whatever the interleaving — however
/// slow the consumer — the store receives exactly the effects of the input
/// frames, in input order.
pub fn run_pipeline_schedule(
    reg: &Registry,
    store: &mut Store,
    input: &Vec<Event>,
    capacity: usize,
    schedule: &Vec<bool>,
    now: i64,
) -> (outcomes: Vec<DispatchOutcome>)
    requires
        reg.wf(),
        old(store).wf(),
        capacity >= 1,
    ensures
        final(store).wf(),
        final(store)@ == run_spec(old(store)@, frames_view(input@), now).0,
        outcomes@ == run_spec(old(store)@, frames_view(input@), now).1,
{
    let ghost views = frames_view(input@);
    let mut chan = EventChannel::new(capacity);
    let mut produced: usize = 0;
    let mut consumed: usize = 0;
    let mut outcomes: Vec<DispatchOutcome> = Vec::new();
    let mut step: usize = 0;
    assert(views.take(0) =~= Seq::<FrameView>::empty());
    assert(outcomes@ =~= run_spec(old(store)@, views.take(0), now).1);
    assert(chan.contents() =~= views.subrange(0, 0));
    while step < schedule.len()
        invariant
            reg.wf(),
            store.wf(),
            chan.wf(),
            chan.cap() == capacity,
            consumed <= produced <= input@.len(),
            views == frames_view(input@),
            chan.contents() == views.subrange(consumed as int, produced as int),
            store@ == run_spec(old(store)@, views.take(consumed as int), now).0,
            outcomes@ == run_spec(old(store)@, views.take(consumed as int), now).1,
        decreases schedule@.len() - step,
    {
        if schedule[step] {
            if produced < input.len() {
                let f = input[produced].duplicate();
                match chan.send(f) {
                    Ok(_) => {
                        produced = produced + 1;
                        assert(chan.contents() =~= views.subrange(
                            consumed as int,
                            produced as int,
                        ));
                    },
                    Err(_) => {},
                }
            }
        } else {
            let got = chan.recv();
            match got {
                Some(f) => {
                    let o = dispatch_frame(reg, store, &f, now);
                    outcomes.push(o);
                    proof {
                        assert(f@ == views[consumed as int]);
                        assert(views.take(consumed + 1).drop_last() =~= views.take(
                            consumed as int,
                        ));
                        assert(views.take(consumed + 1).last() == views[consumed as int]);
                    }
                    consumed = consumed + 1;
                    assert(chan.contents() =~= views.subrange(consumed as int, produced as int));
                },
                None => {},
            }
        }
        step = step + 1;
    }
    while consumed < input.len()
        invariant
            reg.wf(),
            store.wf(),
            chan.wf(),
            chan.cap() == capacity,
            consumed <= produced <= input@.len(),
            views == frames_view(input@),
            chan.contents() == views.subrange(consumed as int, produced as int),
            store@ == run_spec(old(store)@, views.take(consumed as int), now).0,
            outcomes@ == run_spec(old(store)@, views.take(consumed as int), now).1,
        decreases 2 * input@.len() - produced - consumed,
    {
        if produced < input.len() && !chan.is_full() {
            let f = input[produced].duplicate();
            match chan.send(f) {
                Ok(_) => {
                    produced = produced + 1;
                    assert(chan.contents() =~= views.subrange(consumed as int, produced as int));
                },
                Err(_) => {
                    proof {
                        assert(false);
                    }
                },
            }
        } else {
            let got = chan.recv();
            match got {
                Some(f) => {
                    let o = dispatch_frame(reg, store, &f, now);
                    outcomes.push(o);
                    proof {
                        assert(f@ == views[consumed as int]);
                        assert(views.take(consumed + 1).drop_last() =~= views.take(
                            consumed as int,
                        ));
                        assert(views.take(consumed + 1).last() == views[consumed as int]);
                    }
                    consumed = consumed + 1;
                    assert(chan.contents() =~= views.subrange(consumed as int, produced as int));
                },
                None => {
                    proof {
                        assert(false);
                    }
                },
            }
        }
    }
    assert(views.take(consumed as int) =~= views);
    outcomes
}

/// A frame that fails to decode, standing between two other frames, has no
/// effect on the store: the frames on either side are applied exactly as if
/// it were not there.
pub proof fn lemma_bad_frame_isolated(
    s: StoreView,
    before: FrameView,
    bad: FrameView,
    after: FrameView,
    now: i64,
)
    requires
        decode_spec(bad.discriminator, bad.data) is Err,
    ensures
        run_spec(s, seq![before, bad, after], now).0 == run_spec(s, seq![before, after], now).0,
{
    reveal_with_fuel(run_spec, 4);
    let with_bad = seq![before, bad, after];
    let without = seq![before, after];
    assert(with_bad.drop_last() =~= seq![before, bad]);
    assert(seq![before, bad].drop_last() =~= seq![before]);
    assert(seq![before].drop_last() =~= Seq::<FrameView>::empty());
    assert(without.drop_last() =~= seq![before]);
    assert(with_bad.last() == after);
    assert(without.last() == after);
    assert(seq![before, bad].last() == bad);
    assert(seq![before].last() == before);
    let s1 = run_spec(s, seq![before], now).0;
    assert(s1 == dispatch_spec(s, before, now).0);
    assert(dispatch_spec(s1, bad, now).0 == s1);
    assert(run_spec(s, seq![before, bad], now).0 == s1);
    assert(run_spec(s, with_bad, now).0 == dispatch_spec(s1, after, now).0);
    assert(run_spec(s, without, now).0 == dispatch_spec(s1, after, now).0);
}

} // verus!
