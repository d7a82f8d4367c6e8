use std::time::Duration;

use vte::sync::{Processor, StdSyncHandler, Timeout, SYNC_BUFFER_SIZE};
use vte::{Event, Perform};

#[derive(Default)]
struct TestSyncHandler {
    is_sync: usize,
}

impl Timeout for TestSyncHandler {
    fn is_pending(&self) -> bool {
        self.is_sync != 0
    }

    fn set_timeout(&mut self, _: Duration) {
        self.is_sync += 1;
    }

    fn clear_timeout(&mut self) {
        self.is_sync = 0;
    }

    fn pending_timeout(&self) -> bool {
        self.is_sync != 0
    }
}

#[derive(Default)]
struct Recorder {
    events: Vec<Event>,
}

impl Perform for Recorder {
    fn print(&mut self, c: char) {
        self.events.push(Event::Print(c));
    }

    fn execute(&mut self, byte: u8) {
        self.events.push(Event::Execute(byte));
    }

    fn hook(&mut self, params: &[i64], intermediates: &[u8], ignore: bool, action: char) {
        self.events.push(Event::Hook {
            params: params.to_vec(),
            intermediates: intermediates.to_vec(),
            ignore,
            action,
        });
    }

    fn put(&mut self, byte: u8) {
        self.events.push(Event::Put(byte));
    }

    fn unhook(&mut self) {
        self.events.push(Event::Unhook);
    }

    fn osc_dispatch(&mut self, params: &[&[u8]], bell_terminated: bool) {
        self.events.push(Event::OscDispatch {
            params: params.iter().map(|p| p.to_vec()).collect(),
            bell_terminated,
        });
    }

    fn csi_dispatch(&mut self, params: &[i64], intermediates: &[u8], ignore: bool, action: char) {
        self.events.push(Event::CsiDispatch {
            params: params.to_vec(),
            intermediates: intermediates.to_vec(),
            ignore,
            action,
        });
    }

    fn esc_dispatch(&mut self, intermediates: &[u8], ignore: bool, byte: u8) {
        self.events.push(Event::EscDispatch { intermediates: intermediates.to_vec(), ignore, byte });
    }
}

fn csi(params: &[i64], intermediates: &[u8], action: char) -> Event {
    Event::CsiDispatch {
        params: params.to_vec(),
        intermediates: intermediates.to_vec(),
        ignore: false,
        action,
    }
}

/// Whether the recorder has seen a CSI `m` (SGR) with these parameters.
fn saw_sgr(recorder: &Recorder, params: &[i64]) -> bool {
    recorder.events.contains(&csi(params, b"", 'm'))
}

/// Takes the SGR events the recorder has seen.
fn take_sgr(recorder: &mut Recorder) -> Vec<Vec<i64>> {
    let mut sgr = Vec::new();
    for e in recorder.events.drain(..) {
        if let Event::CsiDispatch { params, intermediates, action: 'm', .. } = e {
            if intermediates.is_empty() {
                sgr.push(params);
            }
        }
    }
    sgr
}

#[test]
fn sync_update_buffers_until_esu() {
    let mut processor = Processor::new(TestSyncHandler::default());
    let mut recorder = Recorder::default();

    processor.advance(&mut recorder, b"\x1b[?2026h");
    assert_eq!(recorder.events, vec![csi(&[2026], b"?", 'h')]);
    assert_eq!(processor.sync_timeout().is_sync, 1);

    processor.advance(&mut recorder, b"\x1b[31m");
    assert_eq!(recorder.events.len(), 1);
    assert_eq!(processor.sync_bytes_count(), 5);

    processor.advance(&mut recorder, b"\x1b[?2026l");
    assert_eq!(
        recorder.events,
        vec![csi(&[2026], b"?", 'h'), csi(&[31], b"", 'm'), csi(&[2026], b"?", 'l')]
    );
    assert_eq!(processor.sync_bytes_count(), 0);
    assert_eq!(processor.sync_timeout().is_sync, 0);
    assert!(!processor.sync_timeout().pending_timeout());
}

#[test]
fn partial_sync_updates() {
    let mut parser = Processor::new(TestSyncHandler::default());
    let mut handler = Recorder::default();

    assert_eq!(parser.sync_timeout().is_sync, 0);

    // Start synchronized update.
    parser.advance(&mut handler, b"\x1b[?20");
    assert_eq!(parser.sync_timeout().is_sync, 0);
    parser.advance(&mut handler, b"26h");
    assert_eq!(parser.sync_timeout().is_sync, 1);

    // Dispatch some data.
    parser.advance(&mut handler, b"random \x1b[31m stuff");
    assert_eq!(parser.sync_timeout().is_sync, 1);
    assert!(!saw_sgr(&handler, &[31]));

    // Extend synchronized update.
    parser.advance(&mut handler, b"\x1b[?20");
    assert_eq!(parser.sync_timeout().is_sync, 1);
    assert!(!saw_sgr(&handler, &[31]));
    parser.advance(&mut handler, b"26h");
    assert_eq!(parser.sync_timeout().is_sync, 2);
    assert!(!saw_sgr(&handler, &[31]));

    // Terminate synchronized update.
    parser.advance(&mut handler, b"\x1b[?20");
    assert_eq!(parser.sync_timeout().is_sync, 2);
    assert!(!saw_sgr(&handler, &[31]));
    parser.advance(&mut handler, b"26l");
    assert_eq!(parser.sync_timeout().is_sync, 0);
    assert!(saw_sgr(&handler, &[31]));
    assert_eq!(parser.sync_bytes_count(), 0);
}

#[test]
fn sync_bursts_buffer() {
    let mut parser = Processor::new(TestSyncHandler::default());
    let mut handler = Recorder::default();

    assert_eq!(parser.sync_timeout().is_sync, 0);

    // Repeat test twice to ensure internal state is reset properly.
    for _ in 0..2 {
        // Start synchronized update.
        parser.advance(&mut handler, b"\x1b[?2026h");
        assert_eq!(parser.sync_timeout().is_sync, 1);
        assert!(take_sgr(&mut handler).is_empty());

        // Ensure sync works.
        parser.advance(&mut handler, b"\x1b[31m");
        assert_eq!(parser.sync_timeout().is_sync, 1);
        assert!(take_sgr(&mut handler).is_empty());

        // Exceed sync buffer dimensions.
        parser.advance(&mut handler, "a".repeat(SYNC_BUFFER_SIZE).as_bytes());
        assert_eq!(parser.sync_timeout().is_sync, 0);
        assert_eq!(parser.sync_bytes_count(), 0);
        assert_eq!(take_sgr(&mut handler), vec![vec![31]]);

        // Ensure new events are dispatched directly.
        parser.advance(&mut handler, b"\x1b[31m");
        assert_eq!(parser.sync_timeout().is_sync, 0);
        assert_eq!(take_sgr(&mut handler), vec![vec![31]]);
    }
}

#[test]
fn mixed_sync_escape() {
    let mut parser = Processor::new(TestSyncHandler::default());
    let mut handler = Recorder::default();

    // Start synchronized update with immediate SGR.
    parser.advance(&mut handler, b"\x1b[?2026h\x1b[31m");
    assert_eq!(parser.sync_timeout().is_sync, 1);
    assert!(!saw_sgr(&handler, &[31]));
    assert_eq!(parser.sync_bytes_count(), 5);

    // Terminate synchronized update and check for SGR.
    parser.advance(&mut handler, b"\x1b[?2026l");
    assert_eq!(parser.sync_timeout().is_sync, 0);
    assert!(saw_sgr(&handler, &[31]));
}

#[test]
fn sync_bsu_with_esu() {
    let mut parser = Processor::new(TestSyncHandler::default());
    let mut handler = Recorder::default();

    // Start synchronized update with immediate SGR.
    parser.advance(&mut handler, b"\x1b[?2026h\x1b[1m");
    assert_eq!(parser.sync_timeout().is_sync, 1);
    assert!(take_sgr(&mut handler).is_empty());

    // Terminate synchronized update, but immediately start a new one.
    parser.advance(&mut handler, b"\x1b[?2026l\x1b[?2026h\x1b[4m");
    assert_eq!(parser.sync_timeout().is_sync, 2);
    assert_eq!(take_sgr(&mut handler), vec![vec![1]]);
    assert_eq!(parser.sync_bytes_count(), 12);

    // Terminate again, expecting one buffered SGR.
    parser.advance(&mut handler, b"\x1b[?2026l");
    assert_eq!(parser.sync_timeout().is_sync, 0);
    assert_eq!(take_sgr(&mut handler), vec![vec![4]]);
}

#[test]
fn stop_sync_flushes_and_reports() {
    let mut processor = Processor::new(TestSyncHandler::default());
    let mut recorder = Recorder::default();

    processor.advance(&mut recorder, b"\x1b[?2026hab");
    assert_eq!(recorder.events, vec![csi(&[2026], b"?", 'h')]);
    processor.stop_sync(&mut recorder);
    assert_eq!(
        recorder.events,
        vec![
            csi(&[2026], b"?", 'h'),
            Event::Print('a'),
            Event::Print('b'),
            csi(&[2026], b"?", 'l'),
        ]
    );
    assert_eq!(processor.sync_bytes_count(), 0);
    processor.advance(&mut recorder, b"c");
    assert_eq!(recorder.events.last(), Some(&Event::Print('c')));
}

#[test]
fn overflow_ends_the_update() {
    let mut processor = Processor::new(TestSyncHandler::default());
    let mut recorder = Recorder::default();

    processor.advance(&mut recorder, b"\x1b[?2026h");
    let chunk = vec![b'x'; 0x10_0000];
    processor.advance(&mut recorder, &chunk);
    assert_eq!(processor.sync_bytes_count(), 0x10_0000);
    processor.advance(&mut recorder, &chunk);
    assert_eq!(processor.sync_bytes_count(), 0);
    assert_eq!(processor.sync_timeout().is_sync, 0);
    assert_eq!(recorder.events.len(), 2 + 2 * 0x10_0000);
    assert_eq!(recorder.events[1 + 0x10_0000], csi(&[2026], b"?", 'l'));
    processor.advance(&mut recorder, b"\x1b[4m");
    assert_eq!(recorder.events.last(), Some(&csi(&[4], b"", 'm')));
}

#[test]
fn std_sync_handler_keeps_a_deadline() {
    let mut handler = StdSyncHandler::new();
    assert!(handler.sync_timeout().is_none());
    assert!(!handler.pending_timeout());
    handler.set_timeout(Duration::from_millis(150));
    assert!(handler.pending_timeout());
    assert!(handler.sync_timeout().is_some());
    handler.clear_timeout();
    assert!(handler.sync_timeout().is_none());
    handler.set_timeout(Duration::MAX);
    assert!(handler.pending_timeout());
}

#[test]
fn new_processor_clears_its_timeout() {
    let processor = Processor::new(TestSyncHandler { is_sync: 3 });
    assert!(!processor.sync_timeout().pending_timeout());
    assert_eq!(processor.sync_bytes_count(), 0);
}

#[test]
fn stop_sync_clears_the_timeout() {
    let mut processor = Processor::new(TestSyncHandler::default());
    let mut recorder = Recorder::default();
    processor.advance(&mut recorder, b"\x1b[?2026h\x1b[1m");
    assert!(processor.sync_timeout().pending_timeout());
    processor.stop_sync(&mut recorder);
    assert!(!processor.sync_timeout().pending_timeout());
    assert!(saw_sgr(&recorder, &[1]));
}
