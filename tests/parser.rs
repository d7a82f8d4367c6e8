use vte::{Parser, Perform, MAX_PARAMS};

const OSC_BYTES: &[u8] = &[
    0x1b, 0x5d, // Begin OSC
    b'2', b';', b'j', b'w', b'i', b'l', b'm', b'@', b'j', b'w', b'i', b'l', b'm', b'-', b'd',
    b'e', b's', b'k', b':', b' ', b'~', b'/', b'c', b'o', b'd', b'e', b'/', b'a', b'l', b'a',
    b'c', b'r', b'i', b't', b't', b'y', 0x07, // End OSC
];

#[derive(Default)]
struct OscDispatcher {
    dispatched_osc: bool,
    bell_terminated: bool,
    params: Vec<Vec<u8>>,
}

// All empty bodies except osc_dispatch
impl Perform for OscDispatcher {
    fn print(&mut self, _: char) {}

    fn execute(&mut self, _: u8) {}

    fn hook(&mut self, _: &[i64], _: &[u8], _: bool, _: char) {}

    fn put(&mut self, _: u8) {}

    fn unhook(&mut self) {}

    fn osc_dispatch(&mut self, params: &[&[u8]], bell_terminated: bool) {
        // Set a flag so we know these assertions all run
        self.dispatched_osc = true;
        self.bell_terminated = bell_terminated;
        self.params = params.iter().map(|p| p.to_vec()).collect();
    }

    fn csi_dispatch(&mut self, _: &[i64], _: &[u8], _: bool, _: char) {}

    fn esc_dispatch(&mut self, _: &[u8], _: bool, _: u8) {}
}

#[derive(Default)]
struct CsiDispatcher {
    dispatched_csi: bool,
    ignore: bool,
    params: Vec<i64>,
    intermediates: Vec<u8>,
}

impl Perform for CsiDispatcher {
    fn print(&mut self, _: char) {}

    fn execute(&mut self, _: u8) {}

    fn hook(&mut self, _: &[i64], _: &[u8], _: bool, _: char) {}

    fn put(&mut self, _: u8) {}

    fn unhook(&mut self) {}

    fn osc_dispatch(&mut self, _: &[&[u8]], _: bool) {}

    fn csi_dispatch(&mut self, params: &[i64], intermediates: &[u8], ignore: bool, _: char) {
        self.intermediates = intermediates.to_vec();
        self.params = params.to_vec();
        self.ignore = ignore;
        self.dispatched_csi = true;
    }

    fn esc_dispatch(&mut self, _: &[u8], _: bool, _: u8) {}
}

#[derive(Default)]
struct DcsDispatcher {
    dispatched_dcs: bool,
    intermediates: Vec<u8>,
    params: Vec<i64>,
    ignore: bool,
    c: Option<char>,
    s: Vec<u8>,
}

impl Perform for DcsDispatcher {
    fn print(&mut self, _: char) {}

    fn execute(&mut self, _: u8) {}

    fn hook(&mut self, params: &[i64], intermediates: &[u8], ignore: bool, c: char) {
        self.intermediates = intermediates.to_vec();
        self.params = params.to_vec();
        self.ignore = ignore;
        self.c = Some(c);
        self.dispatched_dcs = true;
    }

    fn put(&mut self, byte: u8) {
        self.s.push(byte);
    }

    fn unhook(&mut self) {
        self.dispatched_dcs = true;
    }

    fn osc_dispatch(&mut self, _: &[&[u8]], _: bool) {}

    fn csi_dispatch(&mut self, _: &[i64], _: &[u8], _: bool, _: char) {}

    fn esc_dispatch(&mut self, _: &[u8], _: bool, _: u8) {}
}

#[derive(Default)]
struct EscDispatcher {
    dispatched_esc: bool,
    intermediates: Vec<u8>,
    ignore: bool,
    byte: u8,
}

impl Perform for EscDispatcher {
    fn print(&mut self, _: char) {}

    fn execute(&mut self, _: u8) {}

    fn hook(&mut self, _: &[i64], _: &[u8], _: bool, _: char) {}

    fn put(&mut self, _: u8) {}

    fn unhook(&mut self) {}

    fn osc_dispatch(&mut self, _: &[&[u8]], _: bool) {}

    fn csi_dispatch(&mut self, _: &[i64], _: &[u8], _: bool, _: char) {}

    fn esc_dispatch(&mut self, intermediates: &[u8], ignore: bool, byte: u8) {
        self.intermediates = intermediates.to_vec();
        self.ignore = ignore;
        self.byte = byte;
        self.dispatched_esc = true;
    }
}

#[test]
fn parse_osc() {
    let mut dispatcher = OscDispatcher::default();
    let mut parser = Parser::new();

    for byte in OSC_BYTES {
        parser.advance(&mut dispatcher, &[*byte]);
    }

    // Check that flag is set and thus osc_dispatch assertions ran.
    assert!(dispatcher.dispatched_osc);
    assert_eq!(dispatcher.params.len(), 2);
    assert_eq!(dispatcher.params[0], &OSC_BYTES[2..3]);
    assert_eq!(dispatcher.params[1], &OSC_BYTES[4..(OSC_BYTES.len() - 1)]);
}

#[test]
fn parse_empty_osc() {
    let mut dispatcher = OscDispatcher::default();
    let mut parser = Parser::new();

    for byte in &[0x1b, 0x5d, 0x07] {
        parser.advance(&mut dispatcher, &[*byte]);
    }

    // Check that flag is set and thus osc_dispatch assertions ran.
    assert!(dispatcher.dispatched_osc);
}

#[test]
fn parse_osc_max_params() {
    const INPUT: &[u8] = b"\x1b];;;;;;;;;;;;;;;;;\x1b";
    let mut dispatcher = OscDispatcher::default();
    let mut parser = Parser::new();

    for byte in INPUT {
        parser.advance(&mut dispatcher, &[*byte]);
    }

    // Check that flag is set and thus osc_dispatch assertions ran.
    assert!(dispatcher.dispatched_osc);
    assert_eq!(dispatcher.params.len(), MAX_PARAMS);
    for param in dispatcher.params.iter() {
        assert_eq!(param.len(), 0);
    }
}

#[test]
fn parse_dcs_max_params() {
    const INPUT: &[u8] = b"\x1bP1;1;1;1;1;1;1;1;1;1;1;1;1;1;1;1;1;p\x1b";
    let mut dispatcher = DcsDispatcher::default();
    let mut parser = Parser::new();

    for byte in INPUT {
        parser.advance(&mut dispatcher, &[*byte]);
    }

    // Check that flag is set and thus osc_dispatch assertions ran.
    assert!(dispatcher.ignore);
    assert!(dispatcher.dispatched_dcs);
    assert_eq!(dispatcher.params.len(), MAX_PARAMS);
    for param in dispatcher.params.iter() {
        assert_eq!(*param, 1);
    }
}

#[test]
fn osc_bell_terminated() {
    const INPUT: &[u8] = b"\x1b]11;ff/00/ff\x07";
    let mut dispatcher = OscDispatcher::default();
    let mut parser = Parser::new();

    for byte in INPUT {
        parser.advance(&mut dispatcher, &[*byte]);
    }

    assert!(dispatcher.dispatched_osc);
    assert!(dispatcher.bell_terminated);
}

#[test]
fn osc_c0_st_terminated() {
    const INPUT: &[u8] = b"\x1b]11;ff/00/ff\x1b\\";
    let mut dispatcher = OscDispatcher::default();
    let mut parser = Parser::new();

    for byte in INPUT {
        parser.advance(&mut dispatcher, &[*byte]);
    }

    assert!(dispatcher.dispatched_osc);
    assert!(!dispatcher.bell_terminated);
}

#[test]
fn parse_csi_max_params() {
    // This will build a list of repeating '1;'s
    // The length is MAX_PARAMS - 1 because the last semicolon is interpreted
    // as an implicit zero, making the total number of parameters MAX_PARAMS
    let params = std::iter::repeat("1;").take(MAX_PARAMS - 1).collect::<String>();
    let input = format!("\x1b[{}p", &params[..]).into_bytes();

    let mut dispatcher = CsiDispatcher::default();
    let mut parser = Parser::new();

    for byte in input {
        parser.advance(&mut dispatcher, &[byte]);
    }

    // Check that flag is set and thus csi_dispatch assertions ran.
    assert!(dispatcher.dispatched_csi);
    assert_eq!(dispatcher.params.len(), MAX_PARAMS);
    assert!(!dispatcher.ignore);
}

#[test]
fn parse_csi_params_ignore_long_params() {
    // This will build a list of repeating '1;'s
    // The length is MAX_PARAMS because the last semicolon is interpreted
    // as an implicit zero, making the total number of parameters MAX_PARAMS + 1
    let params = std::iter::repeat("1;").take(MAX_PARAMS).collect::<String>();
    let input = format!("\x1b[{}p", &params[..]).into_bytes();

    let mut dispatcher = CsiDispatcher::default();
    let mut parser = Parser::new();

    for byte in input {
        parser.advance(&mut dispatcher, &[byte]);
    }

    // Check that flag is set and thus csi_dispatch assertions ran.
    assert!(dispatcher.dispatched_csi);
    assert_eq!(dispatcher.params.len(), MAX_PARAMS);
    assert!(dispatcher.ignore);
}

#[test]
fn parse_csi_params_trailing_semicolon() {
    let mut dispatcher = CsiDispatcher::default();
    let mut parser = Parser::new();

    for byte in b"\x1b[4;m" {
        parser.advance(&mut dispatcher, &[*byte]);
    }

    assert_eq!(dispatcher.params, &[4, 0]);
}

#[test]
fn parse_semi_set_underline() {
    // Create dispatcher and check state
    let mut dispatcher = CsiDispatcher::default();
    let mut parser = Parser::new();

    for byte in b"\x1b[;4m" {
        parser.advance(&mut dispatcher, &[*byte]);
    }

    // Check that flag is set and thus osc_dispatch assertions ran.
    assert_eq!(dispatcher.params, &[0, 4]);
}

#[test]
fn parse_long_csi_param() {
    // The important part is the parameter, which is (i64::MAX + 1)
    const INPUT: &[u8] = b"\x1b[9223372036854775808m";
    let mut dispatcher = CsiDispatcher::default();
    let mut parser = Parser::new();

    for byte in INPUT {
        parser.advance(&mut dispatcher, &[*byte]);
    }

    assert_eq!(dispatcher.params, &[i64::MAX as i64]);
}

#[test]
fn csi_reset() {
    const INPUT: &[u8] = b"\x1b[3;1\x1b[?1049h";
    let mut dispatcher = CsiDispatcher::default();
    let mut parser = Parser::new();

    for byte in INPUT {
        parser.advance(&mut dispatcher, &[*byte]);
    }

    assert!(dispatcher.dispatched_csi);
    assert!(!dispatcher.ignore);
    assert_eq!(dispatcher.intermediates, &[b'?']);
    assert_eq!(dispatcher.params, &[1049]);
}

#[test]
fn dcs_reset() {
    const INPUT: &[u8] = b"\x1b[3;1\x1bP1$tx\x9c";
    let mut dispatcher = DcsDispatcher::default();
    let mut parser = Parser::new();

    for byte in INPUT {
        parser.advance(&mut dispatcher, &[*byte]);
    }

    assert!(dispatcher.dispatched_dcs);
    assert!(!dispatcher.ignore);
    assert_eq!(dispatcher.intermediates, &[b'$']);
    assert_eq!(dispatcher.params, &[1]);
}

#[test]
fn esc_reset() {
    const INPUT: &[u8] = b"\x1b[3;1\x1b(A";
    let mut dispatcher = EscDispatcher::default();
    let mut parser = Parser::new();

    for byte in INPUT {
        parser.advance(&mut dispatcher, &[*byte]);
    }

    assert!(dispatcher.dispatched_esc);
    assert!(!dispatcher.ignore);
    assert_eq!(dispatcher.intermediates, &[b'(']);
}

#[test]
fn parse_osc_with_utf8_arguments() {
    const INPUT: &[u8] = &[
        0x0d, 0x1b, 0x5d, 0x32, 0x3b, 0x65, 0x63, 0x68, 0x6f, 0x20, 0x27, 0xc2, 0xaf, 0x5c,
        0x5f, 0x28, 0xe3, 0x83, 0x84, 0x29, 0x5f, 0x2f, 0xc2, 0xaf, 0x27, 0x20, 0x26, 0x26,
        0x20, 0x73, 0x6c, 0x65, 0x65, 0x70, 0x20, 0x31, 0x07,
    ];
    let mut dispatcher = OscDispatcher::default();
    let mut parser = Parser::new();

    for byte in INPUT {
        parser.advance(&mut dispatcher, &[*byte]);
    }

    // Check that flag is set and thus osc_dispatch assertions ran.
    assert_eq!(dispatcher.params[0], &[b'2']);
    assert_eq!(dispatcher.params[1], &INPUT[5..(INPUT.len() - 1)]);
}

#[test]
fn osc_containing_string_terminator() {
    const INPUT: &[u8] = b"\x1b]2;\xe6\x9c\xab\x1b\\";
    let mut dispatcher = OscDispatcher::default();
    let mut parser = Parser::new();

    for byte in INPUT {
        parser.advance(&mut dispatcher, &[*byte]);
    }

    assert_eq!(dispatcher.params[1], &INPUT[4..(INPUT.len() - 2)]);
}

#[test]
fn parse_dcs() {
    const INPUT: &[u8] =
        &[0x1b, 0x50, 0x30, 0x3b, 0x31, 0x7c, 0x31, 0x37, 0x2f, 0x61, 0x62, 0x9c];
    let mut dispatcher = DcsDispatcher::default();
    let mut parser = Parser::new();

    for byte in INPUT {
        parser.advance(&mut dispatcher, &[*byte]);
    }

    assert!(dispatcher.dispatched_dcs);
    assert_eq!(dispatcher.params, vec![0, 1]);
    assert_eq!(dispatcher.c, Some('|'));
    assert_eq!(dispatcher.s, b"17/ab".to_vec());
}

#[test]
fn dcs_disabled() {
    const INPUT: &[u8] =
        &[0x1b, 0x50, 0x30, 0x3b, 0x31, 0x7c, 0x31, 0x37, 0x2f, 0x61, 0x62, 0x9c];
    let mut dispatcher = EscDispatcher::default();
    let mut parser = Parser::new();
    parser.set_dcs_sos_pm_apc(false);

    for byte in INPUT {
        parser.advance(&mut dispatcher, &[*byte]);
    }

    assert!(dispatcher.dispatched_esc);
    assert!(dispatcher.intermediates.is_empty());
    assert!(!dispatcher.ignore);
    assert_eq!(dispatcher.byte, 0x50);
}

#[test]
fn exceed_max_buffer_size() {
    const NUM_BYTES: usize = 1024 + 100;
    const INPUT_START: &[u8] = &[0x1b, b']', b'5', b'2', b';', b's'];
    const INPUT_END: &[u8] = &[b'\x07'];

    let mut dispatcher = OscDispatcher::default();
    let mut parser = Parser::new();

    // Create valid OSC escape
    for byte in INPUT_START {
        parser.advance(&mut dispatcher, &[*byte]);
    }

    // Exceed max buffer size
    for _ in 0..NUM_BYTES {
        parser.advance(&mut dispatcher, &[b'a']);
    }

    // Terminate escape for dispatch
    for byte in INPUT_END {
        parser.advance(&mut dispatcher, &[*byte]);
    }

    assert!(dispatcher.dispatched_osc);

    assert_eq!(dispatcher.params.len(), 2);
    assert_eq!(dispatcher.params[0], b"52");

    assert_eq!(dispatcher.params[1].len(), NUM_BYTES + INPUT_END.len());
}

#[derive(Default)]
struct InvalidUtf8ByteDispatcher {
    num_invalid: u8,
}

impl Perform for InvalidUtf8ByteDispatcher {
    fn print(&mut self, c: char) {
        assert_eq!(c, '\u{FFFD}');
        self.num_invalid += 1;
    }

    fn execute(&mut self, _: u8) {}

    fn hook(&mut self, _: &[i64], _: &[u8], _: bool, _: char) {}

    fn put(&mut self, _: u8) {}

    fn unhook(&mut self) {}

    fn osc_dispatch(&mut self, _: &[&[u8]], _: bool) {}

    fn csi_dispatch(&mut self, _: &[i64], _: &[u8], _: bool, _: char) {}

    fn esc_dispatch(&mut self, _: &[u8], _: bool, _: u8) {}
}

#[test]
fn parse_invalid_utf8_byte() {
    let mut dispatcher = InvalidUtf8ByteDispatcher::default();
    let mut parser = Parser::new();

    for byte in 0x80..0xc2 {
        parser.advance(&mut dispatcher, &[byte]);
    }
    for byte in 0xf5..=0xff {
        parser.advance(&mut dispatcher, &[byte]);
    }

    // Continuation bytes, overlong bytes, invalid code points, invalid code units.
    assert_eq!(dispatcher.num_invalid, 64 + 2 + 9 + 2);
}

#[derive(Default)]
struct PrintDispatcher {
    printed: String,
}

impl Perform for PrintDispatcher {
    fn print(&mut self, c: char) {
        assert!(c.is_whitespace() || !c.is_ascii_control() || c == '\u{007f}');
        self.printed.push(c);
    }

    fn execute(&mut self, b: u8) {
        assert!(b.is_ascii_control() && b != b'\x7f');
        self.printed.push(b as char)
    }

    fn hook(&mut self, _: &[i64], _: &[u8], _: bool, _: char) {}

    fn put(&mut self, _: u8) {}

    fn unhook(&mut self) {}

    fn osc_dispatch(&mut self, _: &[&[u8]], _: bool) {}

    fn csi_dispatch(&mut self, _: &[i64], _: &[u8], _: bool, _: char) {}

    fn esc_dispatch(&mut self, _: &[u8], _: bool, _: u8) {}
}

fn test_print(bytes: &[u8], expected: &str) {
    // Double-check that the expected bytes match `String::from_utf8_lossy`.
    assert_eq!(expected, String::from_utf8_lossy(bytes), "input bytes: {:#x?}", bytes);

    let mut dispatcher = PrintDispatcher::default();
    let mut parser = Parser::new();

    for byte in bytes {
        parser.advance(&mut dispatcher, &[*byte]);
    }
    parser.end(&mut dispatcher);

    assert_eq!(dispatcher.printed, expected, "input bytes: {:#x?}", bytes);
}

#[test]
fn parse_misc_invalid_utf8() {
    test_print(b"\xc2A\xe1\x80B\xf1\x80\x80C", "\u{FFFD}A\u{FFFD}B\u{FFFD}C");
    test_print(b"\xf4\x90", "\u{FFFD}\u{FFFD}");
    test_print(b"\xed\xa0", "\u{FFFD}\u{FFFD}");
    test_print(b"\xc2\xc3\x20", "\u{FFFD}\u{FFFD} ");
    test_print(b"\x80\xc2\xc2.\xc0\x80", "\u{FFFD}\u{FFFD}\u{FFFD}.\u{FFFD}\u{FFFD}");
    test_print(b"\x90\xfd\xfe\xff\x80", "\u{FFFD}\u{FFFD}\u{FFFD}\u{FFFD}\u{FFFD}");
    test_print(b"\x10\x75\xf8\xc4\x19\x04", "\u{10}u\u{FFFD}\u{FFFD}\u{19}\u{4}");
    test_print(
        b"\x22\x6e\x35\x3d\x84\x34\x25\xe5\x2d\x49\xf6\x4e\xce\xfa\x06\xb3",
        "\"n5=\u{FFFD}4%\u{FFFD}-I\u{FFFD}N\u{FFFD}\u{FFFD}\u{6}\u{FFFD}",
    );
    test_print(b"\xfe\x19\xdb\xf5", "\u{FFFD}\u{19}\u{FFFD}\u{FFFD}");
    test_print(b"\xfe\x19\xdb\xf5", "\u{FFFD}\u{19}\u{FFFD}\u{FFFD}");
    test_print(b"\x80\xc2\x80\x9f\xc2\x9f", "\u{FFFD}\u{80}\u{FFFD}\u{9f}");
    test_print(b"\xc2\x18\xc2\x00\xc2\x1a", "\u{FFFD}\u{18}\u{FFFD}\u{0}\u{FFFD}\u{1a}");
    test_print(b"\xdd\xdd\xfa\x2a\x47\xd9\xd8\x9b\x9c\x97\xa1\x9a\x9b", "\u{FFFD}\u{FFFD}\u{FFFD}*G\u{FFFD}؛\u{FFFD}\u{FFFD}\u{FFFD}\u{FFFD}\u{FFFD}");
    test_print(
        b"\x9b\x9c\x97\xa1\x9a\x9b\xfd\x44\xaa\x14\x52\x5f\x33\x5f\x22\x6e\x35\x3d\x84\x34",
        "\u{FFFD}\u{FFFD}\u{FFFD}\u{FFFD}\u{FFFD}\u{FFFD}\u{FFFD}D\u{FFFD}\u{14}R_3_\"n5=\u{FFFD}4",
    );
}

// Tests derived from https://hsivonen.fi/broken-utf-8/test.html
// See https://hsivonen.fi/broken-utf-8/ for discussion.
#[test]
fn how_many_replacement_characters() {
    test_print(b"\xc0\x80", "\u{FFFD}\u{FFFD}");
    test_print(b"\xe0\x80\x80", "\u{FFFD}\u{FFFD}\u{FFFD}");
    test_print(b"\xf0\x80\x80\x80", "\u{FFFD}\u{FFFD}\u{FFFD}\u{FFFD}");
    test_print(b"\xf8\x80\x80\x80\x80", "\u{FFFD}\u{FFFD}\u{FFFD}\u{FFFD}\u{FFFD}");
    test_print(b"\xfc\x80\x80\x80\x80\x80", "\u{FFFD}\u{FFFD}\u{FFFD}\u{FFFD}\u{FFFD}\u{FFFD}");
    test_print(b"\xc1\xbf", "\u{FFFD}\u{FFFD}");
    test_print(b"\xe0\x81\xbf", "\u{FFFD}\u{FFFD}\u{FFFD}");
    test_print(b"\xf0\x80\x81\xbf", "\u{FFFD}\u{FFFD}\u{FFFD}\u{FFFD}");
    test_print(b"\xf8\x80\x80\x81\xbf", "\u{FFFD}\u{FFFD}\u{FFFD}\u{FFFD}\u{FFFD}");
    test_print(b"\xfc\x80\x80\x80\x81\xbf", "\u{FFFD}\u{FFFD}\u{FFFD}\u{FFFD}\u{FFFD}\u{FFFD}");
    test_print(b"\xe0\x82\x80", "\u{FFFD}\u{FFFD}\u{FFFD}");
    test_print(b"\xf0\x80\x82\x80", "\u{FFFD}\u{FFFD}\u{FFFD}\u{FFFD}");
    test_print(b"\xf8\x80\x80\x82\x80", "\u{FFFD}\u{FFFD}\u{FFFD}\u{FFFD}\u{FFFD}");
    test_print(b"\xfc\x80\x80\x80\x82\x80", "\u{FFFD}\u{FFFD}\u{FFFD}\u{FFFD}\u{FFFD}\u{FFFD}");
    test_print(b"\xe0\x9f\xbf", "\u{FFFD}\u{FFFD}\u{FFFD}");
    test_print(b"\xf0\x80\x9f\xbf", "\u{FFFD}\u{FFFD}\u{FFFD}\u{FFFD}");
    test_print(b"\xf8\x80\x80\x9f\xbf", "\u{FFFD}\u{FFFD}\u{FFFD}\u{FFFD}\u{FFFD}");
    test_print(b"\xfc\x80\x80\x80\x9f\xbf", "\u{FFFD}\u{FFFD}\u{FFFD}\u{FFFD}\u{FFFD}\u{FFFD}");
    test_print(b"\xf0\x80\xa0\x80", "\u{FFFD}\u{FFFD}\u{FFFD}\u{FFFD}");
    test_print(b"\xf8\x80\x80\xa0\x80", "\u{FFFD}\u{FFFD}\u{FFFD}\u{FFFD}\u{FFFD}");
    test_print(b"\xfc\x80\x80\x80\xa0\x80", "\u{FFFD}\u{FFFD}\u{FFFD}\u{FFFD}\u{FFFD}\u{FFFD}");
    test_print(b"\xf0\x8f\xbf\xbf", "\u{FFFD}\u{FFFD}\u{FFFD}\u{FFFD}");
    test_print(b"\xf8\x80\x8f\xbf\xbf", "\u{FFFD}\u{FFFD}\u{FFFD}\u{FFFD}\u{FFFD}");
    test_print(b"\xfc\x80\x80\x8f\xbf\xbf", "\u{FFFD}\u{FFFD}\u{FFFD}\u{FFFD}\u{FFFD}\u{FFFD}");
    test_print(b"\xf8\x80\x90\x80\x80", "\u{FFFD}\u{FFFD}\u{FFFD}\u{FFFD}\u{FFFD}");
    test_print(b"\xfc\x80\x80\x90\x80\x80", "\u{FFFD}\u{FFFD}\u{FFFD}\u{FFFD}\u{FFFD}\u{FFFD}");
    test_print(b"\xf8\x84\x8f\xbf\xbf", "\u{FFFD}\u{FFFD}\u{FFFD}\u{FFFD}\u{FFFD}");
    test_print(b"\xfc\x80\x84\x8f\xbf\xbf", "\u{FFFD}\u{FFFD}\u{FFFD}\u{FFFD}\u{FFFD}\u{FFFD}");
    test_print(b"\xf4\x90\x80\x80", "\u{FFFD}\u{FFFD}\u{FFFD}\u{FFFD}");
    test_print(b"\xfb\xbf\xbf\xbf\xbf", "\u{FFFD}\u{FFFD}\u{FFFD}\u{FFFD}\u{FFFD}");
    test_print(b"\xfd\xbf\xbf\xbf\xbf\xbf", "\u{FFFD}\u{FFFD}\u{FFFD}\u{FFFD}\u{FFFD}\u{FFFD}");
    test_print(b"\xed\xa0\x80", "\u{FFFD}\u{FFFD}\u{FFFD}");
    test_print(b"\xed\xbf\xbf", "\u{FFFD}\u{FFFD}\u{FFFD}");
    test_print(b"\xed\xa0\xbd\xed\xb2\xa9", "\u{FFFD}\u{FFFD}\u{FFFD}\u{FFFD}\u{FFFD}\u{FFFD}");
    test_print(b"\xf8\x84\x90\x80\x80", "\u{FFFD}\u{FFFD}\u{FFFD}\u{FFFD}\u{FFFD}");
    test_print(b"\xfc\x80\x84\x90\x80\x80", "\u{FFFD}\u{FFFD}\u{FFFD}\u{FFFD}\u{FFFD}\u{FFFD}");
    test_print(b"\xf0\x8d\xa0\x80", "\u{FFFD}\u{FFFD}\u{FFFD}\u{FFFD}");
    test_print(b"\xf0\x8d\xbf\xbf", "\u{FFFD}\u{FFFD}\u{FFFD}\u{FFFD}");
    test_print(b"\xf0\x8d\xa0\xbd\xf0\x8d\xb2\xa9", "\u{FFFD}\u{FFFD}\u{FFFD}\u{FFFD}\u{FFFD}\u{FFFD}\u{FFFD}\u{FFFD}");
    test_print(b"\x80", "\u{FFFD}");
    test_print(b"\x80\x80", "\u{FFFD}\u{FFFD}");
    test_print(b"\x80\x80\x80", "\u{FFFD}\u{FFFD}\u{FFFD}");
    test_print(b"\x80\x80\x80\x80", "\u{FFFD}\u{FFFD}\u{FFFD}\u{FFFD}");
    test_print(b"\x80\x80\x80\x80\x80", "\u{FFFD}\u{FFFD}\u{FFFD}\u{FFFD}\u{FFFD}");
    test_print(b"\x80\x80\x80\x80\x80\x80", "\u{FFFD}\u{FFFD}\u{FFFD}\u{FFFD}\u{FFFD}\u{FFFD}");
    test_print(b"\x80\x80\x80\x80\x80\x80\x80", "\u{FFFD}\u{FFFD}\u{FFFD}\u{FFFD}\u{FFFD}\u{FFFD}\u{FFFD}");
    test_print(b"\xc2\xb6\x80", "¶\u{FFFD}");
    test_print(b"\xe2\x98\x83\x80", "☃\u{FFFD}");
    test_print(b"\xf0\x9f\x92\xa9\x80", "💩\u{FFFD}");
    test_print(b"\xfb\xbf\xbf\xbf\xbf\x80", "\u{FFFD}\u{FFFD}\u{FFFD}\u{FFFD}\u{FFFD}\u{FFFD}");
    test_print(b"\xfd\xbf\xbf\xbf\xbf\xbf\x80", "\u{FFFD}\u{FFFD}\u{FFFD}\u{FFFD}\u{FFFD}\u{FFFD}\u{FFFD}");
    test_print(b"\xc2", "\u{FFFD}");
    test_print(b"\xe2", "\u{FFFD}");
    test_print(b"\xe2\x98", "\u{FFFD}");
    test_print(b"\xf0", "\u{FFFD}");
    test_print(b"\xf0\x9f", "\u{FFFD}");
    test_print(b"\xf0\x9f\x92", "\u{FFFD}");
    test_print(b"\xfe", "\u{FFFD}");
    test_print(b"\xfe\x80", "\u{FFFD}\u{FFFD}");
    test_print(b"\xff", "\u{FFFD}");
    test_print(b"\xff\x80", "\u{FFFD}\u{FFFD}");
}

