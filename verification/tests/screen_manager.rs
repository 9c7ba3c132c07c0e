use std::io::{Error, ErrorKind};

use terminal_state::manager::backend::{IScreenManager, ScreenState};
use terminal_state::manager::memory::MemoryScreen;
use terminal_state::manager::screen_manager::{Backend, BackendMut, ScreenManager};

/// A backend whose stream refuses everything.
struct BrokenPipe {
    raw: bool,
    alternate: bool,
}

impl IScreenManager for BrokenPipe {
    fn state(&self) -> ScreenState {
        unreachable!("read by proofs only")
    }

    fn set_is_raw_screen(&mut self, value: bool) {
        self.raw = value;
    }

    fn set_is_alternate_screen(&mut self, value: bool) {
        self.alternate = value;
    }

    fn is_raw_screen(&self) -> bool {
        self.raw
    }

    fn is_alternate_screen(&self) -> bool {
        self.alternate
    }

    fn write_str(&mut self, _string: &str) -> Result<usize, Error> {
        Err(Error::new(ErrorKind::BrokenPipe, "the terminal went away"))
    }

    fn flush(&mut self) -> Result<(), Error> {
        Err(Error::new(ErrorKind::WriteZero, "nothing could be sent"))
    }
}

type Memory = ScreenManager<MemoryScreen, MemoryScreen>;

fn ansi_in_memory() -> Memory {
    ScreenManager::new(None, MemoryScreen::new())
}

fn displayed(manager: &Memory) -> Vec<u8> {
    match manager.as_any() {
        Backend::Native(screen) => screen.displayed().clone(),
        Backend::Ansi(screen) => screen.displayed().clone(),
    }
}

fn buffered(manager: &Memory) -> Vec<u8> {
    match manager.as_any() {
        Backend::Native(screen) => screen.buffered().clone(),
        Backend::Ansi(screen) => screen.buffered().clone(),
    }
}

#[test]
fn native_backend_is_preferred() {
    let mut native = MemoryScreen::new();
    native.set_is_raw_screen(true);
    let manager: Memory = ScreenManager::new(Some(native), MemoryScreen::new());
    assert!(matches!(manager.as_any(), Backend::Native(_)));
    assert!(manager.as_any().native().is_some());
    assert!(manager.as_any().ansi().is_none());
    assert!(manager.is_raw_screen());
}

#[test]
fn ansi_backend_is_the_fallback() {
    let mut ansi = MemoryScreen::new();
    ansi.set_is_alternate_screen(true);
    let manager: Memory = ScreenManager::new(None, ansi);
    assert!(matches!(manager.as_any(), Backend::Ansi(_)));
    assert!(manager.as_any().ansi().is_some());
    assert!(manager.as_any().native().is_none());
    assert!(manager.is_alternate_screen());
    assert!(!manager.is_raw_screen());
}

#[test]
fn escape_access_gives_the_same_backend_each_time() {
    let manager = ansi_in_memory();
    let first = manager.as_any();
    let second = manager.as_any();
    assert!(std::ptr::eq(first, second));
    let first = manager.as_any().ansi().expect("the ANSI backend is in use");
    let second = manager.as_any().ansi().expect("the ANSI backend is in use");
    assert!(std::ptr::eq(first, second));
}

#[test]
fn backend_stays_the_same_through_every_operation() {
    let mut manager: Memory = ScreenManager::new(Some(MemoryScreen::new()), MemoryScreen::new());
    manager.set_is_raw_screen(true);
    manager.set_is_alternate_screen(true);
    manager.write_str("abc").expect("memory accepts every write");
    manager.write_string(String::from("def")).expect("memory accepts every write");
    manager.flush().expect("memory accepts every flush");
    assert!(matches!(manager.as_any_mut(), BackendMut::Native(_)));
    assert!(matches!(manager.as_any(), Backend::Native(_)));
    assert_eq!(displayed(&manager), b"abcdef".to_vec());
}

#[test]
fn written_text_is_displayed_after_flush() {
    let mut manager = ansi_in_memory();
    let count = manager.write_str("x").expect("memory accepts every write");
    assert_eq!(count, 1);
    assert_eq!(displayed(&manager), Vec::<u8>::new());
    assert_eq!(buffered(&manager), b"x".to_vec());
    manager.flush().expect("memory accepts every flush");
    assert_eq!(displayed(&manager), b"x".to_vec());
    assert_eq!(buffered(&manager), Vec::<u8>::new());
}

#[test]
fn writes_are_displayed_in_the_order_they_were_made() {
    let mut manager = ansi_in_memory();
    assert_eq!(manager.write_str("one ").expect("accepted"), 4);
    manager.flush().expect("flushed");
    assert_eq!(manager.write_string(String::from("two ")).expect("accepted"), 4);
    assert_eq!(manager.write_str("three").expect("accepted"), 5);
    assert_eq!(displayed(&manager), b"one ".to_vec());
    assert_eq!(buffered(&manager), b"two three".to_vec());
    manager.flush().expect("flushed");
    assert_eq!(displayed(&manager), b"one two three".to_vec());
    manager.flush().expect("flushed");
    assert_eq!(displayed(&manager), b"one two three".to_vec());
}

#[test]
fn write_counts_bytes_not_characters() {
    let mut manager = ansi_in_memory();
    assert_eq!(manager.write_str("é").expect("accepted"), 2);
    assert_eq!(manager.write_str("€").expect("accepted"), 3);
    assert_eq!(manager.write_str("").expect("accepted"), 0);
    assert_eq!(manager.write_string(String::from("\u{1b}[?1049h")).expect("accepted"), 8);
    manager.flush().expect("flushed");
    assert_eq!(
        displayed(&manager),
        vec![0xc3, 0xa9, 0xe2, 0x82, 0xac, 0x1b, b'[', b'?', b'1', b'0', b'4', b'9', b'h']
    );
}

#[test]
fn mode_flags_are_what_was_set_last() {
    let mut manager = ansi_in_memory();
    assert!(!manager.is_raw_screen());
    assert!(!manager.is_alternate_screen());
    manager.set_is_raw_screen(true);
    assert!(manager.is_raw_screen());
    assert!(!manager.is_alternate_screen());
    manager.set_is_alternate_screen(true);
    assert!(manager.is_raw_screen());
    assert!(manager.is_alternate_screen());
    manager.set_is_raw_screen(false);
    assert!(!manager.is_raw_screen());
    assert!(manager.is_alternate_screen());
    manager.set_is_alternate_screen(false);
    assert!(!manager.is_alternate_screen());
}

#[test]
fn mode_flags_are_read_from_the_backend() {
    let mut manager = ansi_in_memory();
    match manager.as_any_mut() {
        BackendMut::Ansi(screen) => screen.set_is_raw_screen(true),
        BackendMut::Native(_) => panic!("the ANSI backend is in use"),
    }
    assert!(manager.is_raw_screen());
    manager.set_is_alternate_screen(true);
    let screen = manager.as_any().ansi().expect("the ANSI backend is in use");
    assert!(screen.is_alternate_screen());
    assert!(screen.is_raw_screen());
}

#[test]
fn writing_and_flushing_leave_the_mode_flags() {
    let mut manager = ansi_in_memory();
    manager.set_is_raw_screen(true);
    manager.write_str("text").expect("accepted");
    manager.flush().expect("flushed");
    assert!(manager.is_raw_screen());
    assert!(!manager.is_alternate_screen());
}

#[test]
fn setting_a_mode_leaves_the_bytes() {
    let mut manager = ansi_in_memory();
    manager.write_str("kept").expect("accepted");
    manager.set_is_raw_screen(true);
    manager.set_is_alternate_screen(true);
    assert_eq!(buffered(&manager), b"kept".to_vec());
    manager.flush().expect("flushed");
    manager.set_is_raw_screen(false);
    assert_eq!(displayed(&manager), b"kept".to_vec());
}

#[test]
fn change_through_the_mutable_escape_stays() {
    let mut manager = ansi_in_memory();
    match manager.as_any_mut() {
        BackendMut::Ansi(screen) => {
            screen.write_str("direct").expect("accepted");
            screen.flush().expect("flushed");
        }
        BackendMut::Native(_) => panic!("the ANSI backend is in use"),
    }
    manager.write_str(" and through").expect("accepted");
    manager.flush().expect("flushed");
    assert_eq!(displayed(&manager), b"direct and through".to_vec());
}

#[test]
fn wrong_backend_kind_gives_no_value() {
    let ansi = ansi_in_memory();
    assert!(ansi.as_any().native().is_none());
    let native: Memory = ScreenManager::new(Some(MemoryScreen::new()), MemoryScreen::new());
    assert!(native.as_any().ansi().is_none());
}

#[test]
fn write_failure_reaches_the_caller_unchanged() {
    let mut manager: ScreenManager<BrokenPipe, MemoryScreen> =
        ScreenManager::new(Some(BrokenPipe { raw: false, alternate: false }), MemoryScreen::new());
    let error = manager.write_str("lost").expect_err("the stream refuses the write");
    assert_eq!(error.kind(), ErrorKind::BrokenPipe);
    assert_eq!(format!("{}", error), "the terminal went away");
    let error = manager.write_string(String::from("lost")).expect_err("the stream refuses");
    assert_eq!(error.kind(), ErrorKind::BrokenPipe);
}

#[test]
fn flush_failure_reaches_the_caller_unchanged() {
    let mut manager: ScreenManager<MemoryScreen, BrokenPipe> =
        ScreenManager::new(None, BrokenPipe { raw: false, alternate: false });
    let error = manager.flush().expect_err("the stream refuses the flush");
    assert_eq!(error.kind(), ErrorKind::WriteZero);
    assert_eq!(format!("{}", error), "nothing could be sent");
    manager.set_is_raw_screen(true);
    assert!(manager.is_raw_screen());
}

#[test]
fn memory_screen_starts_empty() {
    let screen = MemoryScreen::new();
    assert!(!screen.is_raw_screen());
    assert!(!screen.is_alternate_screen());
    assert!(screen.displayed().is_empty());
    assert!(screen.buffered().is_empty());
}

/// Counts the instructions it is given.
struct Counted {
    raw: bool,
    alternate: bool,
    raw_instructions: Vec<bool>,
    alternate_instructions: Vec<bool>,
    writes: Vec<String>,
    flushes: u32,
}

impl IScreenManager for Counted {
    fn state(&self) -> ScreenState {
        unreachable!("read by proofs only")
    }

    fn set_is_raw_screen(&mut self, value: bool) {
        self.raw = value;
        self.raw_instructions.push(value);
    }

    fn set_is_alternate_screen(&mut self, value: bool) {
        self.alternate = value;
        self.alternate_instructions.push(value);
    }

    fn is_raw_screen(&self) -> bool {
        self.raw
    }

    fn is_alternate_screen(&self) -> bool {
        self.alternate
    }

    fn write_str(&mut self, string: &str) -> Result<usize, Error> {
        self.writes.push(String::from(string));
        Ok(string.len())
    }

    fn flush(&mut self) -> Result<(), Error> {
        self.flushes += 1;
        Ok(())
    }
}

fn counted() -> ScreenManager<Counted, MemoryScreen> {
    let backend = Counted {
        raw: false,
        alternate: true,
        raw_instructions: Vec::new(),
        alternate_instructions: Vec::new(),
        writes: Vec::new(),
        flushes: 0,
    };
    ScreenManager::new(Some(backend), MemoryScreen::new())
}

#[test]
fn raw_mode_instruction_reaches_the_backend_once() {
    let mut manager = counted();
    manager.set_is_raw_screen(true);
    let backend = manager.as_any().native().expect("the native backend is in use");
    assert_eq!(backend.raw_instructions, vec![true]);
    assert!(backend.alternate_instructions.is_empty());
    assert!(backend.writes.is_empty());
    assert_eq!(backend.flushes, 0);
    assert!(manager.is_raw_screen());
    assert!(manager.is_alternate_screen());
}

#[test]
fn alternate_screen_instruction_reaches_the_backend_once() {
    let mut manager = counted();
    manager.set_is_alternate_screen(false);
    let backend = manager.as_any().native().expect("the native backend is in use");
    assert_eq!(backend.alternate_instructions, vec![false]);
    assert!(backend.raw_instructions.is_empty());
    assert!(backend.writes.is_empty());
    assert_eq!(backend.flushes, 0);
    assert!(!manager.is_alternate_screen());
    assert!(!manager.is_raw_screen());
}

#[test]
fn each_write_and_flush_reaches_the_backend_once() {
    let mut manager = counted();
    assert_eq!(manager.write_str("one").expect("accepted"), 3);
    assert_eq!(manager.write_string(String::from("two")).expect("accepted"), 3);
    manager.flush().expect("flushed");
    let backend = manager.as_any().native().expect("the native backend is in use");
    assert_eq!(backend.writes, vec![String::from("one"), String::from("two")]);
    assert_eq!(backend.flushes, 1);
    assert!(backend.raw_instructions.is_empty());
    assert!(backend.alternate_instructions.is_empty());
}
