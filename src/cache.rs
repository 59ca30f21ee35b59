//! The frame cache, written once per tick with the newest drained frame, and
//! the render snapshot copied out of it once per rendered frame.
use crate::drain::{last_popped, pops_of};
use crate::frame::{
    FrameView, RgbFrame, RgbaFrame, expanded, pixel_count, rgb8_to_rgba8, is_expansion,
};
use vstd::prelude::*;

verus! {

/// Width of the blank frame the cache holds before any capture.
pub const STARTUP_WIDTH: u32 = 640;

/// Height of the blank frame the cache holds before any capture.
pub const STARTUP_HEIGHT: u32 = 480;

/// The blank frame the cache holds at startup.
pub open spec fn startup_frame() -> FrameView {
    FrameView {
        width: STARTUP_WIDTH,
        height: STARTUP_HEIGHT,
        bytes: Seq::new((4 * pixel_count(STARTUP_WIDTH, STARTUP_HEIGHT)) as nat, |i: int| 0u8),
    }
}

/// The cached frame after a drain that yielded `drained`.
pub open spec fn after_drain(cached: FrameView, drained: Option<FrameView>) -> FrameView {
    match drained {
        Some(f) => expanded(f),
        None => cached,
    }
}

/// Holds the newest four-channel frame.
pub struct WebcamImage {
    frame: RgbaFrame,
}

impl View for WebcamImage {
    type V = FrameView;

    closed spec fn view(&self) -> FrameView {
        self.frame@
    }
}

impl WebcamImage {
    /// A cache holding the blank startup frame.
    pub fn new() -> (r: WebcamImage)
        ensures
            r@ == startup_frame(),
    {
        WebcamImage { frame: RgbaFrame::blank(STARTUP_WIDTH, STARTUP_HEIGHT) }
    }

    /// The cached frame.
    pub fn latest(&self) -> (r: &RgbaFrame)
        ensures
            r@ == self@,
    {
        &self.frame
    }

    /// Replaces the cached frame whole.
    pub fn set(&mut self, frame: RgbaFrame)
        ensures
            final(self)@ == frame@,
    {
        self.frame = frame;
    }

    /// Takes the result of a drain: a frame replaces the cached one after its
    /// channels are expanded; no frame leaves the cache as it was.
    pub fn apply_drain(&mut self, drained: Option<RgbFrame>)
        ensures
            final(self)@ == after_drain(
                old(self)@,
                match drained {
                    Some(f) => Some(f@),
                    None => None,
                },
            ),
            drained is None ==> final(self)@ == old(self)@,
            drained is Some ==> is_expansion(drained->Some_0@.bytes, final(self)@.bytes),
    {
        match drained {
            Some(rgb) => {
                let rgba = rgb8_to_rgba8(rgb);
                self.set(rgba);
            },
            None => {},
        }
    }

    /// Copies the cached frame by value for one rendered frame.
    pub fn snapshot(&self) -> (r: RenderSnapshot)
        ensures
            r@ == self@,
    {
        RenderSnapshot { frame: self.frame.duplicate() }
    }
}

/// The render side's own copy of the cached frame, valid for one frame.
pub struct RenderSnapshot {
    frame: RgbaFrame,
}

impl View for RenderSnapshot {
    type V = FrameView;

    closed spec fn view(&self) -> FrameView {
        self.frame@
    }
}

impl RenderSnapshot {
    /// The copied frame.
    pub fn frame(&self) -> (r: &RgbaFrame)
        ensures
            r@ == self@,
    {
        &self.frame
    }
}

/// The cached frame after drains whose pops are each of `drains`, in order.
pub open spec fn after_drains(cached: FrameView, drains: Seq<Seq<Option<FrameView>>>) -> FrameView
    decreases drains.len(),
{
    if drains.len() == 0 {
        cached
    } else {
        after_drain(after_drains(cached, drains.drop_last()), last_popped(drains.last()))
    }
}

/// Whatever frames are pushed between two drains, the cache after the drain
/// holds the last of them with its channels expanded; with none pushed it is
/// unchanged.
pub proof fn lemma_cache_holds_last_pushed(cached: FrameView, pushed: Seq<FrameView>, ends_empty: bool)
    ensures
        after_drain(cached, last_popped(pops_of(pushed, ends_empty))) == (if pushed.len() == 0 {
            cached
        } else {
            expanded(pushed.last())
        }),
{
    crate::drain::lemma_drain_keeps_last(pushed, ends_empty);
}

/// While no frame is ever captured, no pop of any drain yields a frame, and
/// the cache holds the blank startup frame after any number of drains.
pub proof fn lemma_silent_capture_keeps_startup(drains: Seq<Seq<Option<FrameView>>>)
    requires
        forall|t: int, i: int|
            0 <= t < drains.len() && 0 <= i < drains[t].len() ==> #[trigger] drains[t][i] is None,
    ensures
        after_drains(startup_frame(), drains) == startup_frame(),
    decreases drains.len(),
{
    if drains.len() > 0 {
        let last = drains.len() - 1;
        assert forall|i: int| 0 <= i < drains.last().len() implies #[trigger] drains.last()[i] is None by {
            assert(drains[last][i] is None);
        }
        crate::drain::lemma_no_frame_popped(drains.last());
        lemma_silent_capture_keeps_startup(drains.drop_last());
    }
}

} // verus!
