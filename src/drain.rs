//! The capture channel's consumer side: once per tick every frame queued so
//! far is popped without blocking, and only the last one popped is kept.
use crate::frame::{FrameView, RgbFrame};
use vstd::prelude::*;

verus! {

#[verifier::external_type_specification]
#[verifier::external_body]
#[verifier::reject_recursive_types(T)]
pub struct ExReceiver<T>(crossbeam_channel::Receiver<T>);

/// Relies on `crossbeam_channel::Receiver::try_recv`: pops the oldest queued
/// frame without blocking, or reports that none is queued or that every
/// sender is gone. Another thread fills the channel, so nothing is known of
/// which of these comes back.
#[verifier::external_body]
fn try_recv(rx: &crossbeam_channel::Receiver<RgbFrame>) -> (r: Option<RgbFrame>) {
    rx.try_recv().ok()
}

/// Relies on `crossbeam_channel::Receiver::len`: how many frames are queued at
/// the moment of the call. Another thread fills the channel, so nothing is
/// known of the number.
#[verifier::external_body]
fn queued_len(rx: &crossbeam_channel::Receiver<RgbFrame>) -> (r: usize) {
    rx.len()
}

/// The view of a frame that may be absent.
pub open spec fn opt_view(f: Option<RgbFrame>) -> Option<FrameView> {
    match f {
        Some(x) => Some(x@),
        None => None,
    }
}

/// The last frame among `pops`, the results of successive pops; `None` when
/// no pop yielded a frame.
pub open spec fn last_popped(pops: Seq<Option<FrameView>>) -> Option<FrameView>
    decreases pops.len(),
{
    if pops.len() == 0 {
        None
    } else {
        match pops.last() {
            Some(f) => Some(f),
            None => last_popped(pops.drop_last()),
        }
    }
}

/// The pops of one drain that found `pending` frames queued when it began: at
/// most `pending` of them, each yielding a frame, but for a last one that
/// found the channel empty and ended the drain early.
pub open spec fn drain_pops_ok(pops: Seq<Option<FrameView>>, pending: nat) -> bool {
    &&& pops.len() <= pending
    &&& pops.len() < pending ==> pops.len() > 0 && pops.last() is None
    &&& forall|i: int| 0 <= i < pops.len() - 1 ==> #[trigger] pops[i] is Some
}

/// The pops of a drain while the channel hands out `pushed`, in order, and
/// then, when `ends_empty`, reports that nothing is queued.
pub open spec fn pops_of(pushed: Seq<FrameView>, ends_empty: bool) -> Seq<Option<FrameView>> {
    let s = pushed.map_values(|f: FrameView| Some(f));
    if ends_empty {
        s.push(None)
    } else {
        s
    }
}

/// The frames that `pops` yielded, in order, when only its last pop may have
/// found the channel empty.
pub open spec fn frames_of(pops: Seq<Option<FrameView>>) -> Seq<FrameView> {
    let s = if pops.len() > 0 && pops.last() is None {
        pops.drop_last()
    } else {
        pops
    };
    s.map_values(|o: Option<FrameView>| o->Some_0)
}

/// The pops made after the first `before.len()` ones of `log`.
pub open spec fn pops_since(
    before: Seq<Option<FrameView>>,
    log: Seq<Option<FrameView>>,
) -> Seq<Option<FrameView>> {
    log.subrange(before.len() as int, log.len() as int)
}

/// The newest frame popped during one drain, earlier ones being dropped.
pub struct LatestFrame {
    latest: Option<RgbFrame>,
}

impl View for LatestFrame {
    type V = Option<FrameView>;

    closed spec fn view(&self) -> Option<FrameView> {
        match self.latest {
            Some(f) => Some(f@),
            None => None,
        }
    }
}

impl LatestFrame {
    /// Nothing popped yet.
    pub fn new() -> (r: LatestFrame)
        ensures
            r@ == None::<FrameView>,
    {
        LatestFrame { latest: None }
    }

    /// Keeps `frame` in place of whatever was kept before.
    pub fn offer(&mut self, frame: RgbFrame)
        ensures
            final(self)@ == Some(frame@),
    {
        self.latest = Some(frame);
    }

    /// The kept frame, if any frame was offered.
    pub fn take(self) -> (r: Option<RgbFrame>)
        ensures
            match r {
                Some(f) => self@ == Some(f@),
                None => self@ == None::<FrameView>,
            },
    {
        self.latest
    }
}

/// The consumer end of the capture channel, with a log of what it has seen
/// of the channel: the result of each pop and of each length query.
pub struct Webcam {
    receiver: crossbeam_channel::Receiver<RgbFrame>,
    pops: Ghost<Seq<Option<FrameView>>>,
    lens: Ghost<Seq<usize>>,
}

impl Webcam {
    /// The results of the pops made so far, oldest first.
    pub closed spec fn pops(&self) -> Seq<Option<FrameView>> {
        self.pops@
    }

    /// The results of the length queries made so far, oldest first.
    pub closed spec fn lens(&self) -> Seq<usize> {
        self.lens@
    }

    /// The channel end this consumer pops from.
    pub closed spec fn spec_receiver(&self) -> crossbeam_channel::Receiver<RgbFrame> {
        self.receiver
    }

    /// A consumer of `receiver` that has not popped yet.
    pub fn new(receiver: crossbeam_channel::Receiver<RgbFrame>) -> (r: Webcam)
        ensures
            r.spec_receiver() == receiver,
            r.pops() == Seq::<Option<FrameView>>::empty(),
            r.lens() == Seq::<usize>::empty(),
    {
        Webcam { receiver, pops: Ghost(Seq::empty()), lens: Ghost(Seq::empty()) }
    }

    /// The channel end this consumer pops from.
    pub fn receiver(&self) -> (r: &crossbeam_channel::Receiver<RgbFrame>)
        ensures
            *r == self.spec_receiver(),
    {
        &self.receiver
    }

    /// Pops the oldest queued frame, if any, and logs the result.
    fn pop(&mut self) -> (r: Option<RgbFrame>)
        ensures
            final(self).pops() == old(self).pops().push(opt_view(r)),
            final(self).lens() == old(self).lens(),
            final(self).spec_receiver() == old(self).spec_receiver(),
    {
        let r = try_recv(&self.receiver);
        self.pops = Ghost(self.pops@.push(opt_view(r)));
        r
    }

    /// How many frames are queued now; the answer is logged.
    fn queued(&mut self) -> (r: usize)
        ensures
            final(self).lens() == old(self).lens().push(r),
            final(self).pops() == old(self).pops(),
            final(self).spec_receiver() == old(self).spec_receiver(),
    {
        let r = queued_len(&self.receiver);
        self.lens = Ghost(self.lens@.push(r));
        r
    }

    /// One drain of the capture channel. It asks once how many frames are
    /// queued, pops at most that many, stops at the first pop that finds the
    /// channel empty, and returns the last frame popped; `None` when no pop
    /// yielded a frame. Frames that arrive during the call stay queued for the
    /// next drain.
    pub fn drain_latest(&mut self) -> (r: Option<RgbFrame>)
        ensures
            final(self).spec_receiver() == old(self).spec_receiver(),
            final(self).lens().len() == old(self).lens().len() + 1,
            final(self).lens().drop_last() == old(self).lens(),
            old(self).pops().len() <= final(self).pops().len(),
            final(self).pops().subrange(0, old(self).pops().len() as int) == old(self).pops(),
            drain_pops_ok(
                pops_since(old(self).pops(), final(self).pops()),
                final(self).lens().last() as nat,
            ),
            opt_view(r) == last_popped(pops_since(old(self).pops(), final(self).pops())),
    {
        let pending: usize = self.queued();
        let ghost start = self.pops@;
        let ghost lens_now = self.lens@;
        let ghost mut new: Seq<Option<FrameView>> = Seq::empty();
        let mut latest = LatestFrame::new();
        let mut popped: usize = 0;
        let mut ended = false;
        while popped < pending && !ended
            invariant
                popped <= pending,
                lens_now.len() > 0 && lens_now.last() == pending,
                self.lens@ == lens_now,
                self.receiver == old(self).receiver,
                self.pops@ == start + new,
                new.len() == popped,
                forall|k: int|
                    0 <= k < popped && !(ended && k == popped - 1) ==> #[trigger] new[k] is Some,
                ended ==> popped > 0 && new.last() is None,
                latest@ == last_popped(new),
            decreases pending - popped,
        {
            let f = self.pop();
            proof {
                let before = new;
                new = new.push(opt_view(f));
                assert(new.drop_last() =~= before);
            }
            popped = popped + 1;
            match f {
                Some(frame) => latest.offer(frame),
                None => {
                    ended = true;
                },
            }
        }
        proof {
            assert(self.pops@.subrange(start.len() as int, self.pops@.len() as int) =~= new);
            assert(self.pops@.subrange(0, start.len() as int) =~= start);
            assert(self.lens@.drop_last() =~= old(self).lens@);
        }
        latest.take()
    }
}

/// Whatever frames a drain pops, it returns the last of them, and `None` when
/// none: its pops are the frames it found, then perhaps one empty pop.
pub proof fn lemma_drain_returns_last_frame(pops: Seq<Option<FrameView>>, pending: nat)
    requires
        drain_pops_ok(pops, pending),
    ensures
        pops == pops_of(frames_of(pops), pops.len() > 0 && pops.last() is None),
        last_popped(pops) == (if frames_of(pops).len() == 0 {
            None
        } else {
            Some(frames_of(pops).last())
        }),
{
    let ends_empty = pops.len() > 0 && pops.last() is None;
    let s = if ends_empty {
        pops.drop_last()
    } else {
        pops
    };
    assert forall|i: int| 0 <= i < s.len() implies #[trigger] s[i] is Some by {
        assert(pops[i] == s[i]);
    }
    assert(s.map_values(|o: Option<FrameView>| o->Some_0).map_values(|f: FrameView| Some(f)) =~= s);
    if ends_empty {
        assert(s.push(None) =~= pops);
    }
    lemma_drain_keeps_last(frames_of(pops), ends_empty);
}

/// A drain none of whose pops yielded a frame returns `None`.
pub proof fn lemma_no_frame_popped(pops: Seq<Option<FrameView>>)
    requires
        forall|i: int| 0 <= i < pops.len() ==> #[trigger] pops[i] is None,
    ensures
        last_popped(pops) == None::<FrameView>,
    decreases pops.len(),
{
    if pops.len() > 0 {
        lemma_no_frame_popped(pops.drop_last());
    }
}

/// Whatever frames the channel hands out between two drains, the drain keeps
/// the last of them, and nothing when it handed out none; whether the drain
/// ended on an empty pop makes no difference.
pub proof fn lemma_drain_keeps_last(pushed: Seq<FrameView>, ends_empty: bool)
    ensures
        last_popped(pops_of(pushed, ends_empty)) == (if pushed.len() == 0 {
            None
        } else {
            Some(pushed.last())
        }),
{
    let s = pushed.map_values(|f: FrameView| Some(f));
    if pushed.len() > 0 {
        assert(s.last() == Some(pushed.last()));
        assert(last_popped(s) == Some(pushed.last()));
    } else {
        assert(last_popped(s) == None::<FrameView>);
    }
    if ends_empty {
        assert(s.push(None).drop_last() =~= s);
        assert(last_popped(s.push(None)) == last_popped(s));
    }
}

} // verus!
