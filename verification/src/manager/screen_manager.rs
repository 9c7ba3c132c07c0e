//! The screen surface: one backend, picked once, behind one set of
//! operations.

use vstd::prelude::*;
use vstd::utf8::encode_utf8;

use super::backend::flushed;
use super::backend::wrote;
use super::backend::IScreenManager;
use super::backend::ScreenState;

verus! {

/// The backend in use: the platform's own console, or a terminal driven by
/// ANSI escape sequences.
pub enum Backend<N, A> {
    Native(N),
    Ansi(A),
}

impl<N, A> Backend<N, A> {
    /// The native console backend, if that is the one in use.
    pub fn native(&self) -> (backend: Option<&N>)
        ensures
            backend == match *self {
                Backend::Native(native) => Some(&native),
                Backend::Ansi(_) => None,
            },
    {
        match self {
            Backend::Native(native) => Some(native),
            Backend::Ansi(_) => None,
        }
    }

    /// The ANSI backend, if that is the one in use.
    pub fn ansi(&self) -> (backend: Option<&A>)
        ensures
            backend == match *self {
                Backend::Native(_) => None,
                Backend::Ansi(ansi) => Some(&ansi),
            },
    {
        match self {
            Backend::Native(_) => None,
            Backend::Ansi(ansi) => Some(ansi),
        }
    }
}

impl<N: IScreenManager, A: IScreenManager> Backend<N, A> {
    /// The state that the backend in use tracks.
    pub open spec fn state(&self) -> ScreenState {
        match *self {
            Backend::Native(native) => native.state(),
            Backend::Ansi(ansi) => ansi.state(),
        }
    }

    /// Whether `after` is the same kind of backend, and an instruction to set
    /// raw mode to `value` may leave this one as `after`.
    pub open spec fn sets_raw(&self, value: bool, after: Backend<N, A>) -> bool {
        match (*self, after) {
            (Backend::Native(before), Backend::Native(after)) => before.sets_raw(value, after),
            (Backend::Ansi(before), Backend::Ansi(after)) => before.sets_raw(value, after),
            _ => false,
        }
    }

    /// Whether `after` is the same kind of backend, and an instruction to set
    /// the alternate screen to `value` may leave this one as `after`.
    pub open spec fn sets_alternate(&self, value: bool, after: Backend<N, A>) -> bool {
        match (*self, after) {
            (Backend::Native(before), Backend::Native(after)) => before.sets_alternate(
                value,
                after,
            ),
            (Backend::Ansi(before), Backend::Ansi(after)) => before.sets_alternate(value, after),
            _ => false,
        }
    }

    /// Whether `after` is the same kind of backend, and a write of `text` to
    /// this one may report `result` and leave `after`.
    pub open spec fn writes(
        &self,
        text: Seq<u8>,
        after: Backend<N, A>,
        result: Result<usize, std::io::Error>,
    ) -> bool {
        match (*self, after) {
            (Backend::Native(before), Backend::Native(after)) => before.writes(text, after, result),
            (Backend::Ansi(before), Backend::Ansi(after)) => before.writes(text, after, result),
            _ => false,
        }
    }

    /// Whether `after` is the same kind of backend, and a flush of this one
    /// may report `result` and leave `after`.
    pub open spec fn flushes(
        &self,
        after: Backend<N, A>,
        result: Result<(), std::io::Error>,
    ) -> bool {
        match (*self, after) {
            (Backend::Native(before), Backend::Native(after)) => before.flushes(after, result),
            (Backend::Ansi(before), Backend::Ansi(after)) => before.flushes(after, result),
            _ => false,
        }
    }
}

/// The backend in use, borrowed for change. The borrow reaches the backend
/// itself, so which of the two is in use cannot change through it.
pub enum BackendMut<'a, N, A> {
    Native(&'a mut N),
    Ansi(&'a mut A),
}

/// The backend for a platform: its native console where it offers one, the
/// ANSI terminal where it does not.
pub open spec fn selected<N, A>(native: Option<N>, ansi: A) -> Backend<N, A> {
    match native {
        Some(native) => Backend::Native(native),
        None => Backend::Ansi(ansi),
    }
}

/// Stores the backend for the platform and performs every screen action on
/// it.
pub struct ScreenManager<N, A> {
    screen_manager: Backend<N, A>,
}

impl<N: IScreenManager, A: IScreenManager> ScreenManager<N, A> {
    /// The backend in use.
    pub closed spec fn backend(&self) -> Backend<N, A> {
        self.screen_manager
    }

    /// The state of the screen, as the backend in use tracks it.
    pub open spec fn state(&self) -> ScreenState {
        self.backend().state()
    }

    /// Whether the native console is the backend in use.
    pub open spec fn is_native(&self) -> bool {
        self.backend() is Native
    }

    /// A screen manager over the backend for the platform. `native` is the
    /// platform's console backend, where the platform offers one; `ansi` is
    /// used where it does not.
    pub fn new(native: Option<N>, ansi: A) -> (manager: ScreenManager<N, A>)
        ensures
            manager.backend() == selected(native, ansi),
    {
        let screen_manager = match native {
            Some(native) => Backend::Native(native),
            None => Backend::Ansi(ansi),
        };
        ScreenManager { screen_manager }
    }

    /// Sets whether the screen is a raw screen.
    pub fn set_is_raw_screen(&mut self, value: bool)
        ensures
            old(self).backend().sets_raw(value, final(self).backend()),
            final(self).state() == (ScreenState { raw: value, ..old(self).state() }),
            final(self).is_native() == old(self).is_native(),
    {
        match &mut self.screen_manager {
            Backend::Native(native) => native.set_is_raw_screen(value),
            Backend::Ansi(ansi) => ansi.set_is_raw_screen(value),
        }
    }

    /// Sets whether the current screen is the alternate screen.
    pub fn set_is_alternate_screen(&mut self, value: bool)
        ensures
            old(self).backend().sets_alternate(value, final(self).backend()),
            final(self).state() == (ScreenState { alternate: value, ..old(self).state() }),
            final(self).is_native() == old(self).is_native(),
    {
        match &mut self.screen_manager {
            Backend::Native(native) => native.set_is_alternate_screen(value),
            Backend::Ansi(ansi) => ansi.set_is_alternate_screen(value),
        }
    }

    /// Whether the current screen is in raw mode.
    pub fn is_raw_screen(&self) -> (raw: bool)
        ensures
            raw == self.state().raw,
    {
        match &self.screen_manager {
            Backend::Native(native) => native.is_raw_screen(),
            Backend::Ansi(ansi) => ansi.is_raw_screen(),
        }
    }

    /// Whether the current screen is the alternate screen.
    pub fn is_alternate_screen(&self) -> (alternate: bool)
        ensures
            alternate == self.state().alternate,
    {
        match &self.screen_manager {
            Backend::Native(native) => native.is_alternate_screen(),
            Backend::Ansi(ansi) => ansi.is_alternate_screen(),
        }
    }

    /// Writes a `String` to the current screen.
    pub fn write_string(&mut self, string: String) -> (result: Result<usize, std::io::Error>)
        ensures
            old(self).backend().writes(encode_utf8(string@), final(self).backend(), result),
            wrote(old(self).state(), encode_utf8(string@), final(self).state(), result),
            final(self).is_native() == old(self).is_native(),
    {
        self.write_str(string.as_str())
    }

    /// Flushes the current screen.
    pub fn flush(&mut self) -> (result: Result<(), std::io::Error>)
        ensures
            old(self).backend().flushes(final(self).backend(), result),
            flushed(old(self).state(), final(self).state(), result),
            final(self).is_native() == old(self).is_native(),
    {
        match &mut self.screen_manager {
            Backend::Native(native) => native.flush(),
            Backend::Ansi(ansi) => ansi.flush(),
        }
    }

    /// Writes a `&str` to the current screen.
    pub fn write_str(&mut self, string: &str) -> (result: Result<usize, std::io::Error>)
        ensures
            old(self).backend().writes(encode_utf8(string@), final(self).backend(), result),
            wrote(old(self).state(), encode_utf8(string@), final(self).state(), result),
            final(self).is_native() == old(self).is_native(),
    {
        match &mut self.screen_manager {
            Backend::Native(native) => native.write_str(string),
            Backend::Ansi(ansi) => ansi.write_str(string),
        }
    }

    /// The backend in use, for what only one kind of backend can do.
    pub fn as_any(&self) -> (backend: &Backend<N, A>)
        ensures
            *backend == self.backend(),
    {
        &self.screen_manager
    }

    /// The backend in use, borrowed for change.
    pub fn as_any_mut(&mut self) -> (backend: BackendMut<'_, N, A>)
        ensures
            match backend {
                BackendMut::Native(native) => {
                    &&& old(self).backend() == Backend::<N, A>::Native(*native)
                    &&& final(self).backend() == Backend::<N, A>::Native(*final(native))
                },
                BackendMut::Ansi(ansi) => {
                    &&& old(self).backend() == Backend::<N, A>::Ansi(*ansi)
                    &&& final(self).backend() == Backend::<N, A>::Ansi(*final(ansi))
                },
            },
    {
        match &mut self.screen_manager {
            Backend::Native(native) => BackendMut::Native(native),
            Backend::Ansi(ansi) => BackendMut::Ansi(ansi),
        }
    }
}

} // verus!
