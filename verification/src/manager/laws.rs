//! What holds of a screen across several operations.

use vstd::prelude::*;

use super::backend::flushed;
use super::backend::wrote;
use super::backend::ScreenState;

verus! {

/// What was written is displayed once a flush has succeeded: after a write
/// that accepted `count` bytes of `text` and a flush that reported success,
/// the destination holds every byte accepted before, then those `count`
/// bytes, and nothing waits in the buffer. The mode flags are as they were.
pub proof fn lemma_flush_displays_what_was_written(
    before: ScreenState,
    text: Seq<u8>,
    count: usize,
    written: ScreenState,
    after: ScreenState,
)
    requires
        wrote(before, text, written, Ok::<usize, std::io::Error>(count)),
        flushed(written, after, Ok::<(), std::io::Error>(())),
    ensures
        after.displayed == before.displayed + before.buffered + text.take(count as int),
        after.buffered == Seq::<u8>::empty(),
        after.raw == before.raw,
        after.alternate == before.alternate,
{
}

} // verus!
