use vstd::prelude::*;

use crate::media::MediaItem;
use crate::playout::{
    after_item, after_reap, is_placeholder, is_takeover, item_start, step_spec, Phase,
    PlayoutLoop, Step,
};

verus! {

/// What one iteration of the forwarding loop observes: the bytes that the
/// decoder read returned (empty at the end of its output) and the ingest
/// chunk that was pending, if any.
pub struct Observation {
    pub read: Seq<u8>,
    pub chunk: Option<Seq<u8>>,
}

/// One iteration on an observation.
pub open spec fn observe(s: PlayoutLoop, o: Observation) -> (PlayoutLoop, Step) {
    step_spec(s, o.read.len(), o.chunk is Some)
}

/// The iterations of one item, each as the state before it and the step
/// taken, for as long as the loop keeps forwarding.
pub open spec fn run(s: PlayoutLoop, obs: Seq<Observation>) -> Seq<(PlayoutLoop, Step)>
    decreases obs.len(),
{
    if obs.len() == 0 || s.phase != Phase::Forwarding {
        Seq::empty()
    } else {
        let (next, a) = observe(s, obs[0]);
        seq![(s, a)] + run(next, obs.drop_first())
    }
}

/// The state in which the iterations of `run` leave the loop.
pub open spec fn settled(s: PlayoutLoop, obs: Seq<Observation>) -> PlayoutLoop
    decreases obs.len(),
{
    if obs.len() == 0 || s.phase != Phase::Forwarding {
        s
    } else {
        settled(observe(s, obs[0]).0, obs.drop_first())
    }
}

/// The bytes that one step writes to the encoder.
pub open spec fn written_by(a: Step, o: Observation) -> Seq<u8> {
    match a {
        Step::ForwardLive { .. } => o.chunk->0,
        Step::ForwardDecoded => o.read,
        Step::EndItem { .. } => Seq::empty(),
    }
}

/// The bytes that the iterations of `run` write to the encoder, in order.
pub open spec fn written(s: PlayoutLoop, obs: Seq<Observation>) -> Seq<u8>
    decreases obs.len(),
{
    if obs.len() == 0 || s.phase != Phase::Forwarding {
        Seq::empty()
    } else {
        let (next, a) = observe(s, obs[0]);
        written_by(a, obs[0]) + written(next, obs.drop_first())
    }
}

/// The bytes of all decoder reads, in read order.
pub open spec fn all_reads(obs: Seq<Observation>) -> Seq<u8> {
    obs.map_values(|o: Observation| o.read).flatten()
}

/// The loop after pulling each of `items` in turn, from between items.
pub open spec fn pull_all(s: PlayoutLoop, items: Seq<Option<MediaItem>>) -> PlayoutLoop
    decreases items.len(),
{
    if items.len() == 0 || s.phase != Phase::AwaitItem {
        s
    } else {
        pull_all(after_item(s, items[0]), items.drop_first())
    }
}

/// Placeholders are skipped without spawning a decoder: pulling any number
/// of them leaves the loop between items, as it was, and never reaches the
/// spawning phase.
pub proof fn lemma_placeholders_spawn_nothing(s: PlayoutLoop, items: Seq<Option<MediaItem>>)
    requires
        s.phase == Phase::AwaitItem,
        forall|i: int| 0 <= i < items.len() ==> is_placeholder(#[trigger] items[i]),
    ensures
        pull_all(s, items) == s,
        forall|i: int| 0 <= i < items.len() ==> after_item(s, #[trigger] items[i]) == s,
    decreases items.len(),
{
    if items.len() > 0 {
        assert(is_placeholder(items[0]));
        assert forall|i: int| 0 <= i < items.drop_first().len() implies is_placeholder(
            #[trigger] items.drop_first()[i],
        ) by {
            assert(items.drop_first()[i] == items[i + 1]);
        }
        lemma_placeholders_spawn_nothing(s, items.drop_first());
    }
}

/// Without ingest activity the encoder receives exactly what the decoder
/// produced, in read order: pure pass-through until the end of its output.
pub proof fn lemma_pass_through(s: PlayoutLoop, obs: Seq<Observation>)
    requires
        item_start(s),
        forall|i: int| 0 <= i < obs.len() ==> (#[trigger] obs[i]).chunk is None,
        forall|i: int| 0 <= i < obs.len() - 1 ==> (#[trigger] obs[i]).read.len() > 0,
    ensures
        written(s, obs) == all_reads(obs),
    decreases obs.len(),
{
    let reads = obs.map_values(|o: Observation| o.read);
    if obs.len() > 0 {
        let rest = obs.drop_first();
        let (next, a) = observe(s, obs[0]);
        assert(obs[0].chunk is None);
        assert(reads.drop_first() =~= rest.map_values(|o: Observation| o.read));
        assert(reads.first() == obs[0].read);
        if obs[0].read.len() > 0 {
            assert(next == s);
            assert(written_by(a, obs[0]) == obs[0].read);
            assert forall|i: int| 0 <= i < rest.len() implies (#[trigger] rest[i]).chunk is None by {
                assert(rest[i] == obs[i + 1]);
            }
            assert forall|i: int| 0 <= i < rest.len() - 1 implies (#[trigger] rest[i]).read.len()
                > 0 by {
                assert(rest[i] == obs[i + 1]);
            }
            lemma_pass_through(s, rest);
        } else {
            assert(obs.len() == 1);
            assert(next.phase == Phase::Reaping);
            assert(rest.len() == 0);
            assert(written(next, rest) == Seq::<u8>::empty());
            assert(reads.drop_first().len() == 0);
            assert(reads.drop_first().flatten() == Seq::<u8>::empty());
            assert(obs[0].read =~= Seq::<u8>::empty());
            assert(all_reads(obs) =~= Seq::<u8>::empty());
            assert(written(s, obs) =~= Seq::<u8>::empty());
        }
    } else {
        assert(reads.len() == 0);
    }
}

/// The first iteration of a run, and the rest of it.
proof fn lemma_unfold(s: PlayoutLoop, obs: Seq<Observation>)
    requires
        obs.len() > 0,
        s.phase == Phase::Forwarding,
    ensures
        run(s, obs).len() == run(observe(s, obs[0]).0, obs.drop_first()).len() + 1,
        run(s, obs)[0] == (s, observe(s, obs[0]).1),
        forall|k: int|
            0 < k < run(s, obs).len() ==> #[trigger] run(s, obs)[k] == run(
                observe(s, obs[0]).0,
                obs.drop_first(),
            )[k - 1],
        settled(s, obs) == settled(observe(s, obs[0]).0, obs.drop_first()),
{
    let (next, a) = observe(s, obs[0]);
    assert(run(s, obs) == seq![(s, a)] + run(next, obs.drop_first()));
}

/// Each iteration of a run is one step from the state before it.
proof fn lemma_step_at(s: PlayoutLoop, obs: Seq<Observation>, k: int)
    requires
        0 <= k < run(s, obs).len(),
    ensures
        run(s, obs)[k].1 == observe(run(s, obs)[k].0, obs[k]).1,
        run(s, obs)[k].0.phase == Phase::Forwarding,
        k < obs.len(),
    decreases obs.len(),
{
    lemma_unfold(s, obs);
    if k > 0 {
        lemma_step_at(observe(s, obs[0]).0, obs.drop_first(), k - 1);
        assert(obs.drop_first()[k - 1] == obs[k]);
    }
}

/// Once the decoder was asked to stop, it is neither read nor asked again.
proof fn lemma_stopped_stays(s: PlayoutLoop, obs: Seq<Observation>, k: int)
    requires
        !s.stop_pending,
        0 <= k < run(s, obs).len(),
    ensures
        !run(s, obs)[k].0.stop_pending,
        !is_takeover(run(s, obs)[k].1),
    decreases obs.len(),
{
    lemma_unfold(s, obs);
    if k > 0 {
        lemma_stopped_stays(observe(s, obs[0]).0, obs.drop_first(), k - 1);
    }
}

/// After a forwarded ingest chunk, the decoder is neither read nor asked
/// to stop again.
proof fn lemma_after_live(s: PlayoutLoop, obs: Seq<Observation>, j: int, k: int)
    requires
        0 <= j < k < run(s, obs).len(),
        run(s, obs)[j].1 is ForwardLive,
    ensures
        !run(s, obs)[k].0.stop_pending,
        !is_takeover(run(s, obs)[k].1),
    decreases obs.len(),
{
    lemma_unfold(s, obs);
    let next = observe(s, obs[0]).0;
    if j == 0 {
        lemma_stopped_stays(next, obs.drop_first(), k - 1);
    } else {
        lemma_after_live(next, obs.drop_first(), j - 1, k - 1);
    }
}

/// The item's end is the last iteration of the run, and leaves the loop
/// ready to reap the decoder.
proof fn lemma_end_is_last(s: PlayoutLoop, obs: Seq<Observation>, k: int)
    requires
        0 <= k < run(s, obs).len(),
        run(s, obs)[k].1 is EndItem,
    ensures
        k == run(s, obs).len() - 1,
        settled(s, obs).phase == Phase::Reaping,
    decreases obs.len(),
{
    lemma_unfold(s, obs);
    let next = observe(s, obs[0]).0;
    if k == 0 {
        assert(next.phase == Phase::Reaping);
        assert(run(next, obs.drop_first()).len() == 0);
        assert(settled(next, obs.drop_first()) == next);
    } else {
        lemma_end_is_last(next, obs.drop_first(), k - 1);
    }
}

/// A raised resync signal stays raised for the rest of the item.
proof fn lemma_resync_kept(s: PlayoutLoop, obs: Seq<Observation>)
    requires
        s.resync_signalled,
    ensures
        settled(s, obs).resync_signalled,
    decreases obs.len(),
{
    if obs.len() > 0 && s.phase == Phase::Forwarding {
        lemma_resync_kept(observe(s, obs[0]).0, obs.drop_first());
    }
}

/// A takeover raises the resync signal for the rest of the item.
proof fn lemma_takeover_resyncs(s: PlayoutLoop, obs: Seq<Observation>, k: int)
    requires
        0 <= k < run(s, obs).len(),
        is_takeover(run(s, obs)[k].1),
    ensures
        settled(s, obs).resync_signalled,
    decreases obs.len(),
{
    lemma_unfold(s, obs);
    let next = observe(s, obs[0]).0;
    if k == 0 {
        lemma_resync_kept(next, obs.drop_first());
    } else {
        lemma_takeover_resyncs(next, obs.drop_first(), k - 1);
    }
}

/// The decoder is still read exactly until the first takeover.
proof fn lemma_read_until_takeover(s: PlayoutLoop, obs: Seq<Observation>, k: int)
    requires
        s.stop_pending,
        0 <= k < run(s, obs).len(),
    ensures
        run(s, obs)[k].0.stop_pending == forall|j: int|
            0 <= j < k ==> !is_takeover(#[trigger] run(s, obs)[j].1),
    decreases obs.len(),
{
    lemma_unfold(s, obs);
    let t = run(s, obs);
    let (next, a) = observe(s, obs[0]);
    let u = run(next, obs.drop_first());
    if k > 0 {
        if is_takeover(a) {
            lemma_stopped_stays(next, obs.drop_first(), k - 1);
            assert(is_takeover(t[0].1));
        } else {
            if a is EndItem {
                lemma_end_is_last(s, obs, 0);
            }
            assert(next.stop_pending);
            lemma_read_until_takeover(next, obs.drop_first(), k - 1);
            if !t[k].0.stop_pending {
                let j2 = choose|j2: int| 0 <= j2 < k - 1 && is_takeover(#[trigger] u[j2].1);
                assert(t[j2 + 1] == u[j2]);
            } else {
                assert forall|j: int| 0 <= j < k implies !is_takeover(#[trigger] t[j].1) by {
                    if j > 0 {
                        assert(t[j] == u[j - 1]);
                    }
                }
            }
        }
    }
}

/// The first ingest chunk seen while the decoder is still read takes over.
proof fn lemma_first_live_takes_over(s: PlayoutLoop, obs: Seq<Observation>, k: int)
    requires
        s.stop_pending,
        0 <= k < run(s, obs).len(),
        run(s, obs)[k].1 is ForwardLive,
        forall|j: int| 0 <= j < k ==> !((#[trigger] run(s, obs)[j]).1 is ForwardLive),
    ensures
        is_takeover(run(s, obs)[k].1),
{
    lemma_read_until_takeover(s, obs, k);
    lemma_step_at(s, obs, k);
    assert forall|j: int| 0 <= j < k implies !is_takeover(#[trigger] run(s, obs)[j].1) by {
        assert(!(run(s, obs)[j].1 is ForwardLive));
    }
}

/// While forwarding from an item start, live playback is on exactly when the
/// decoder has been asked to stop.
proof fn lemma_live_tracks_stop(s: PlayoutLoop, obs: Seq<Observation>, k: int)
    requires
        s.live == !s.stop_pending,
        0 <= k < run(s, obs).len(),
    ensures
        run(s, obs)[k].0.live == !run(s, obs)[k].0.stop_pending,
    decreases obs.len(),
{
    lemma_unfold(s, obs);
    if k > 0 {
        lemma_live_tracks_stop(observe(s, obs[0]).0, obs.drop_first(), k - 1);
    }
}

/// Once an ingest chunk is observed, the current item's decoder is asked to
/// terminate exactly once, at the first chunk, and is not read again for
/// that item.
#[verifier::rlimit(50)]
pub proof fn lemma_single_takeover(s: PlayoutLoop, obs: Seq<Observation>)
    requires
        item_start(s),
    ensures
        forall|k: int|
            0 <= k < run(s, obs).len() && (#[trigger] run(s, obs)[k]).1 is ForwardLive && (forall|j: int|
                0 <= j < k ==> !((#[trigger] run(s, obs)[j]).1 is ForwardLive)) ==> is_takeover(
                run(s, obs)[k].1,
            ),
        forall|j: int, k: int|
            0 <= j < k < run(s, obs).len() && (#[trigger] run(s, obs)[j]).1 is ForwardLive ==> !(
            #[trigger] run(s, obs)[k]).0.stop_pending && !is_takeover(run(s, obs)[k].1),
{
    let t = run(s, obs);
    assert forall|k: int|
        0 <= k < t.len() && (#[trigger] t[k]).1 is ForwardLive && (forall|j: int|
            0 <= j < k ==> !((#[trigger] t[j]).1 is ForwardLive)) implies is_takeover(t[k].1) by {
        lemma_first_live_takes_over(s, obs, k);
    }
    assert forall|j: int, k: int|
        0 <= j < k < t.len() && (#[trigger] t[j]).1 is ForwardLive implies !(
        #[trigger] t[k]).0.stop_pending && !is_takeover(t[k].1) by {
        lemma_after_live(s, obs, j, k);
    }
}

/// The resync signal is raised at most once per takeover, and it stands
/// when the item ends and the loop goes back to request the next item;
/// the end of an interrupted item is a handback to scheduled playback.
pub proof fn lemma_resync_once(s: PlayoutLoop, obs: Seq<Observation>)
    requires
        item_start(s),
    ensures
        forall|j: int, k: int|
            0 <= j < k < run(s, obs).len() && is_takeover((#[trigger] run(s, obs)[j]).1)
                ==> !is_takeover((#[trigger] run(s, obs)[k]).1),
        forall|j: int|
            0 <= j < run(s, obs).len() && is_takeover((#[trigger] run(s, obs)[j]).1)
                ==> settled(s, obs).resync_signalled && after_reap(
                settled(s, obs),
                true,
            ).resync_signalled,
        forall|k: int|
            0 <= k < run(s, obs).len() && (#[trigger] run(s, obs)[k]).1 is EndItem ==> k == run(
                s,
                obs,
            ).len() - 1 && after_reap(settled(s, obs), true).phase == Phase::AwaitItem && (run(
                s,
                obs,
            )[k].1->handback <==> exists|j: int|
                0 <= j < k && is_takeover(#[trigger] run(s, obs)[j].1)),
{
    let t = run(s, obs);
    assert forall|j: int, k: int|
        0 <= j < k < t.len() && is_takeover((#[trigger] t[j]).1) implies !is_takeover(
        (#[trigger] t[k]).1,
    ) by {
        lemma_after_live(s, obs, j, k);
    }
    assert forall|j: int|
        0 <= j < t.len() && is_takeover((#[trigger] t[j]).1) implies settled(
        s,
        obs,
    ).resync_signalled by {
        lemma_takeover_resyncs(s, obs, j);
    }
    assert forall|k: int| 0 <= k < t.len() && (#[trigger] t[k]).1 is EndItem implies k == t.len() - 1
        && (t[k].1->handback <==> exists|j: int| 0 <= j < k && is_takeover(#[trigger] t[j].1)) by {
        lemma_end_is_last(s, obs, k);
        lemma_live_tracks_stop(s, obs, k);
        lemma_read_until_takeover(s, obs, k);
        lemma_step_at(s, obs, k);
    }
}

} // verus!
