//! What a screen backend is to this layer: two mode flags, and a stream of
//! bytes on its way to a destination.

use vstd::prelude::*;
use vstd::utf8::encode_utf8;

verus! {

/// `std::io::Error`: the failure of a write or a flush. This layer passes it
/// on and never looks inside.
#[verifier::external_type_specification]
#[verifier::external_body]
pub struct ExIoError(std::io::Error);

/// The state of a screen as its backend tracks it.
pub struct ScreenState {
    /// Whether the screen is in raw mode.
    pub raw: bool,
    /// Whether the alternate screen is shown.
    pub alternate: bool,
    /// Bytes that were accepted and have not reached the destination yet.
    pub buffered: Seq<u8>,
    /// Bytes that have reached the destination.
    pub displayed: Seq<u8>,
}

impl ScreenState {
    /// Every byte accepted so far, in the order of acceptance.
    pub open spec fn accepted(self) -> Seq<u8> {
        self.displayed + self.buffered
    }
}

/// What a write of `text` may do to a screen. The mode flags stay. When the
/// write reports `Ok(n)`, the first `n` bytes of `text`, and no others, have
/// joined the accepted bytes.
pub open spec fn wrote(
    before: ScreenState,
    text: Seq<u8>,
    after: ScreenState,
    result: Result<usize, std::io::Error>,
) -> bool {
    &&& after.raw == before.raw
    &&& after.alternate == before.alternate
    &&& result matches Ok(n) ==> {
        &&& n <= text.len()
        &&& after.accepted() == before.accepted() + text.take(n as int)
    }
}

/// What a flush may do to a screen. The mode flags stay. When the flush
/// reports success, every accepted byte has reached the destination.
pub open spec fn flushed(
    before: ScreenState,
    after: ScreenState,
    result: Result<(), std::io::Error>,
) -> bool {
    &&& after.raw == before.raw
    &&& after.alternate == before.alternate
    &&& result is Ok ==> {
        &&& after.buffered == Seq::<u8>::empty()
        &&& after.displayed == before.accepted()
    }
}

/// The contract of a screen backend, whatever the platform behind it.
pub trait IScreenManager: Sized {
    /// The state that the backend tracks.
    spec fn state(&self) -> ScreenState;

    /// Whether an instruction to set raw mode to `value` may leave this
    /// backend as `after`. A backend that does not say leaves every outcome
    /// open.
    open spec fn sets_raw(&self, value: bool, after: Self) -> bool {
        true
    }

    /// Whether an instruction to set the alternate screen to `value` may
    /// leave this backend as `after`. A backend that does not say leaves
    /// every outcome open.
    open spec fn sets_alternate(&self, value: bool, after: Self) -> bool {
        true
    }

    /// Whether a write of `text` to this backend may report `result` and
    /// leave the backend `after`. A backend that does not say leaves every
    /// outcome open.
    open spec fn writes(
        &self,
        text: Seq<u8>,
        after: Self,
        result: Result<usize, std::io::Error>,
    ) -> bool {
        true
    }

    /// Whether a flush of this backend may report `result` and leave the
    /// backend `after`. A backend that does not say leaves every outcome
    /// open.
    open spec fn flushes(&self, after: Self, result: Result<(), std::io::Error>) -> bool {
        true
    }

    /// Puts the screen in or out of raw mode, and remembers it.
    fn set_is_raw_screen(&mut self, value: bool)
        ensures
            final(self).state() == (ScreenState { raw: value, ..old(self).state() }),
            old(self).sets_raw(value, *final(self)),
    ;

    /// Shows or leaves the alternate screen, and remembers it.
    fn set_is_alternate_screen(&mut self, value: bool)
        ensures
            final(self).state() == (ScreenState { alternate: value, ..old(self).state() }),
            old(self).sets_alternate(value, *final(self)),
    ;

    /// Whether the screen is in raw mode.
    fn is_raw_screen(&self) -> (raw: bool)
        ensures
            raw == self.state().raw,
    ;

    /// Whether the alternate screen is shown.
    fn is_alternate_screen(&self) -> (alternate: bool)
        ensures
            alternate == self.state().alternate,
    ;

    /// Writes `string` to the screen: the number of bytes accepted, or why
    /// the stream refused them.
    fn write_str(&mut self, string: &str) -> (result: Result<usize, std::io::Error>)
        ensures
            wrote(old(self).state(), encode_utf8(string@), final(self).state(), result),
            old(self).writes(encode_utf8(string@), *final(self), result),
    ;

    /// Sends every accepted byte on to the destination.
    fn flush(&mut self) -> (result: Result<(), std::io::Error>)
        ensures
            flushed(old(self).state(), final(self).state(), result),
            old(self).flushes(*final(self), result),
    ;
}

} // verus!
