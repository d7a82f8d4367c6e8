use vte::{Event, Parser};

fn feed_all(bytes: &[u8]) -> Vec<Event> {
    let mut parser = Parser::new();
    parser.feed(bytes)
}

#[test]
fn osc_bell_terminated_set_title() {
    let events = feed_all(&[0x1b, 0x5d, 0x32, 0x3b, 0x68, 0x69, 0x07]);
    assert_eq!(
        events,
        vec![Event::OscDispatch { params: vec![b"2".to_vec(), b"hi".to_vec()], bell_terminated: true }]
    );
}

#[test]
fn osc_st_terminated() {
    let events = feed_all(&[
        0x1b, 0x5d, 0x31, 0x31, 0x3b, 0x66, 0x66, 0x2f, 0x30, 0x30, 0x2f, 0x66, 0x66, 0x1b, 0x5c,
    ]);
    assert_eq!(
        events,
        vec![
            Event::OscDispatch {
                params: vec![b"11".to_vec(), b"ff/00/ff".to_vec()],
                bell_terminated: false,
            },
            Event::EscDispatch { intermediates: vec![], ignore: false, byte: 0x5c },
        ]
    );
}

#[test]
fn csi_trailing_semicolon() {
    let events = feed_all(&[0x1b, 0x5b, 0x34, 0x3b, 0x6d]);
    assert_eq!(
        events,
        vec![Event::CsiDispatch { params: vec![4, 0], intermediates: vec![], ignore: false, action: 'm' }]
    );
}

#[test]
fn csi_i64_overflow() {
    let events = feed_all(b"\x1b[9223372036854775808m");
    assert_eq!(
        events,
        vec![Event::CsiDispatch {
            params: vec![i64::MAX],
            intermediates: vec![],
            ignore: false,
            action: 'm',
        }]
    );
}

#[test]
fn csi_param_just_below_overflow() {
    let events = feed_all(b"\x1b[9223372036854775807;99999999999999999999999m");
    assert_eq!(
        events,
        vec![Event::CsiDispatch {
            params: vec![i64::MAX, i64::MAX],
            intermediates: vec![],
            ignore: false,
            action: 'm',
        }]
    );
}

#[test]
fn dcs_passthrough() {
    let events = feed_all(&[0x1b, 0x50, 0x30, 0x3b, 0x31, 0x7c, 0x31, 0x37, 0x2f, 0x61, 0x62, 0x9c]);
    assert_eq!(
        events,
        vec![
            Event::Hook { params: vec![0, 1], intermediates: vec![], ignore: false, action: '|' },
            Event::Put(0x31),
            Event::Put(0x37),
            Event::Put(0x2f),
            Event::Put(0x61),
            Event::Put(0x62),
            Event::Unhook,
        ]
    );
}

#[test]
fn utf8_maximal_subpart() {
    let events = feed_all(&[0xc2, 0x41, 0xe1, 0x80, 0x42, 0xf1, 0x80, 0x80, 0x43]);
    assert_eq!(
        events,
        vec![
            Event::Print('\u{FFFD}'),
            Event::Print('A'),
            Event::Print('\u{FFFD}'),
            Event::Print('B'),
            Event::Print('\u{FFFD}'),
            Event::Print('C'),
        ]
    );
}

#[test]
fn chunked_input_gives_the_same_events() {
    let input: &[u8] = b"a\x1b[1;2mb\xe2\x98\x83\x1b]0;t\x07\x1bP1|x\x9c\xf0\x9f\x92\xa9\x1b(B";
    let whole = feed_all(input);
    for cut in 0..=input.len() {
        let mut parser = Parser::new();
        let mut events = parser.feed(&input[..cut]);
        events.extend(parser.feed(&input[cut..]));
        assert_eq!(events, whole, "cut at {}", cut);
    }
    let mut parser = Parser::new();
    let mut events = Vec::new();
    for byte in input {
        events.extend(parser.feed(&[*byte]));
    }
    assert_eq!(events, whole);
}

#[test]
fn end_emits_at_most_one_replacement() {
    let mut parser = Parser::new();
    assert!(parser.feed(b"\xf0\x9f\x92").is_empty());
    assert_eq!(parser.finish(), vec![Event::Print('\u{FFFD}')]);
    assert!(parser.finish().is_empty());
    let mut parser = Parser::new();
    parser.feed(b"\x1b[12");
    assert!(parser.finish().is_empty());
    assert_eq!(parser.feed(b"m"), vec![Event::Print('m')]);
}

#[test]
fn valid_utf8_prints_each_char() {
    let text = "h\u{e9}llo \u{2603} \u{1F4A9} \u{10FFFF}~\u{7f}";
    let events = feed_all(text.as_bytes());
    let expected: Vec<Event> = text.chars().map(Event::Print).collect();
    assert_eq!(events, expected);
}

#[test]
fn csi_bounds_and_ignore_flag() {
    let events = feed_all(b"\x1b[1;2;3;4;5;6;7;8;9;10;11;12;13;14;15;16;17;18 !\"p");
    match &events[..] {
        [Event::CsiDispatch { params, intermediates, ignore, action }] => {
            assert_eq!(intermediates, &vec![b' ', b'!']);
            assert_eq!(params, &(1..=16).collect::<Vec<i64>>());
            assert!(*ignore);
            assert_eq!(*action, 'p');
        },
        _ => panic!("unexpected events {:?}", events),
    }
    let events = feed_all(b"\x1b[?1;2$p");
    assert_eq!(
        events,
        vec![Event::CsiDispatch { params: vec![1, 2], intermediates: vec![b'?', b'$'], ignore: false, action: 'p' }]
    );
    let events = feed_all(b"\x1b[?1;2$%&p");
    assert_eq!(
        events,
        vec![Event::CsiDispatch { params: vec![1, 2], intermediates: vec![b'?', b'$'], ignore: true, action: 'p' }]
    );
}

#[test]
fn osc_slices_are_contiguous() {
    let events = feed_all(b"\x1b]a;bc;;def\x07");
    assert_eq!(
        events,
        vec![Event::OscDispatch {
            params: vec![b"a".to_vec(), b"bc".to_vec(), b"".to_vec(), b"def".to_vec()],
            bell_terminated: true,
        }]
    );
}

#[test]
fn disabled_sos_pm_apc_dispatch_as_escape() {
    for introducer in [0x58u8, 0x5e, 0x5f] {
        let mut parser = Parser::new();
        parser.set_dcs_sos_pm_apc(false);
        let events = parser.feed(&[0x1b, introducer, b'x']);
        assert_eq!(
            events,
            vec![
                Event::EscDispatch { intermediates: vec![], ignore: false, byte: introducer },
                Event::Print('x'),
            ]
        );
        let mut parser = Parser::new();
        let events = parser.feed(&[0x1b, introducer, b'x', 0x9c, b'y']);
        assert_eq!(events, vec![Event::Print('y')]);
    }
}

#[test]
fn cancel_aborts_a_sequence() {
    let events = feed_all(b"\x1b[12\x18m");
    assert_eq!(events, vec![Event::Execute(0x18), Event::Print('m')]);
}

#[derive(Default)]
struct StopAfterCsi {
    events: Vec<String>,
    stop: bool,
}

impl vte::Perform for StopAfterCsi {
    fn print(&mut self, c: char) {
        self.events.push(format!("print {}", c));
    }

    fn execute(&mut self, byte: u8) {
        self.events.push(format!("execute {}", byte));
    }

    fn hook(&mut self, _: &[i64], _: &[u8], _: bool, _: char) {}

    fn put(&mut self, _: u8) {}

    fn unhook(&mut self) {}

    fn osc_dispatch(&mut self, _: &[&[u8]], _: bool) {}

    fn csi_dispatch(&mut self, params: &[i64], _: &[u8], _: bool, action: char) {
        self.events.push(format!("csi {:?} {}", params, action));
        self.stop = true;
    }

    fn esc_dispatch(&mut self, _: &[u8], _: bool, _: u8) {}

    fn terminated(&self) -> bool {
        self.stop
    }
}

#[test]
fn advance_until_terminated_stops_after_the_byte() {
    let mut parser = Parser::new();
    let mut performer = StopAfterCsi::default();
    let input = b"a\x1b[5mbc";
    let n = parser.advance_until_terminated(&mut performer, input);
    assert_eq!(n, 5);
    assert_eq!(performer.events, vec!["print a".to_string(), "csi [5] m".to_string()]);
    performer.stop = false;
    let m = parser.advance_until_terminated(&mut performer, &input[n..]);
    assert_eq!(m, 2);
    assert_eq!(performer.events.len(), 4);
}

#[test]
fn end_hands_the_replacement_to_the_performer() {
    let mut parser = Parser::new();
    let mut performer = StopAfterCsi::default();
    parser.advance(&mut performer, b"x\xe2\x98");
    parser.end(&mut performer);
    parser.end(&mut performer);
    assert_eq!(performer.events, vec!["print x".to_string(), "print \u{FFFD}".to_string()]);
}
