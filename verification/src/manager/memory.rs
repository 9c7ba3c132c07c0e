//! A backend whose destination is memory: what a program wrote can be read
//! back.

use vstd::prelude::*;
use vstd::slice::slice_to_vec;
use vstd::utf8::encode_utf8;

use super::backend::IScreenManager;
use super::backend::ScreenState;

verus! {

/// A screen kept in memory. A write is held back until the next flush and
/// never fails.
pub struct MemoryScreen {
    is_raw_screen: bool,
    is_alternate_screen: bool,
    buffered: Vec<u8>,
    displayed: Vec<u8>,
}

impl MemoryScreen {
    /// An empty screen, in neither mode.
    pub fn new() -> (screen: MemoryScreen)
        ensures
            screen.state() == (ScreenState {
                raw: false,
                alternate: false,
                buffered: Seq::empty(),
                displayed: Seq::empty(),
            }),
    {
        MemoryScreen {
            is_raw_screen: false,
            is_alternate_screen: false,
            buffered: Vec::new(),
            displayed: Vec::new(),
        }
    }

    /// The bytes that a flush has sent on.
    pub fn displayed(&self) -> (bytes: &Vec<u8>)
        ensures
            bytes@ == self.state().displayed,
    {
        &self.displayed
    }

    /// The bytes that wait for the next flush.
    pub fn buffered(&self) -> (bytes: &Vec<u8>)
        ensures
            bytes@ == self.state().buffered,
    {
        &self.buffered
    }
}

impl IScreenManager for MemoryScreen {
    closed spec fn state(&self) -> ScreenState {
        ScreenState {
            raw: self.is_raw_screen,
            alternate: self.is_alternate_screen,
            buffered: self.buffered@,
            displayed: self.displayed@,
        }
    }

    /// The raw flag is set; nothing else changes.
    open spec fn sets_raw(&self, value: bool, after: MemoryScreen) -> bool {
        after.state() == (ScreenState { raw: value, ..self.state() })
    }

    /// The alternate flag is set; nothing else changes.
    open spec fn sets_alternate(&self, value: bool, after: MemoryScreen) -> bool {
        after.state() == (ScreenState { alternate: value, ..self.state() })
    }

    /// A write is accepted whole and held back.
    open spec fn writes(
        &self,
        text: Seq<u8>,
        after: MemoryScreen,
        result: Result<usize, std::io::Error>,
    ) -> bool {
        &&& result == Ok::<usize, std::io::Error>(text.len() as usize)
        &&& after.state() == (ScreenState {
            buffered: self.state().buffered + text,
            ..self.state()
        })
    }

    /// A flush succeeds and moves what was held back to the destination.
    open spec fn flushes(&self, after: MemoryScreen, result: Result<(), std::io::Error>) -> bool {
        &&& result is Ok
        &&& after.state() == (ScreenState {
            buffered: Seq::empty(),
            displayed: self.state().displayed + self.state().buffered,
            ..self.state()
        })
    }

    fn set_is_raw_screen(&mut self, value: bool) {
        self.is_raw_screen = value;
    }

    fn set_is_alternate_screen(&mut self, value: bool) {
        self.is_alternate_screen = value;
    }

    fn is_raw_screen(&self) -> (raw: bool) {
        self.is_raw_screen
    }

    fn is_alternate_screen(&self) -> (alternate: bool) {
        self.is_alternate_screen
    }

    fn write_str(&mut self, string: &str) -> (result: Result<usize, std::io::Error>) {
        let mut bytes = slice_to_vec(string.as_bytes());
        let count = bytes.len();
        self.buffered.append(&mut bytes);
        proof {
            let text = encode_utf8(string@);
            assert(text.take(count as int) =~= text);
            assert(self.displayed@ + (old(self).buffered@ + text) =~= (old(self).displayed@
                + old(self).buffered@) + text);
        }
        Ok(count)
    }

    fn flush(&mut self) -> (result: Result<(), std::io::Error>) {
        self.displayed.append(&mut self.buffered);
        Ok(())
    }
}

} // verus!
