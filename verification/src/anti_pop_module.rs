//! A short store of frames for smoothing the start of a stream.

use crate::sample::is_zero_frame;
use crate::sample::Sample;
use crate::sample::Scalar;
use vstd::prelude::*;

verus! {

/// The number of frames that the store holds.
pub const ANTI_POP_LEN: usize = 10;

/// The store: the last `ANTI_POP_LEN` frames.
pub struct AntiPop<S, const NUM_CHANNELS: usize> {
    buffer: [Sample<S, NUM_CHANNELS>; ANTI_POP_LEN],
}

impl<S: Scalar, const NUM_CHANNELS: usize> AntiPop<S, NUM_CHANNELS> {
    /// The frames held, in order.
    pub closed spec fn frames(&self) -> Seq<Sample<S, NUM_CHANNELS>> {
        self.buffer@
    }

    /// A store full of silence, every frame stamped with `timestamp`.
    pub fn new(timestamp: u64) -> (store: Self)
        ensures
            store.frames().len() == ANTI_POP_LEN,
            forall|i: int|
                0 <= i < ANTI_POP_LEN ==> (#[trigger] store.frames()[i]).timestamp == timestamp
                    && is_zero_frame(store.frames()[i].data),
    {
        AntiPop { buffer: [Sample::new(timestamp); ANTI_POP_LEN] }
    }
}

} // verus!
