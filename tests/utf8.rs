use vte::utf8::{Parser, Receiver};

#[derive(Debug, PartialEq)]
struct StringWrapper(String);

impl Receiver for StringWrapper {
    fn codepoint(&mut self, c: char) {
        self.0.push(c);
    }

    fn invalid_sequence(&mut self) {
        self.0.push('\u{FFFD}');
    }
}

#[test]
fn abrupt_end() {
    let mut parser = Parser::new();

    // utf8parse implementation
    let mut actual = StringWrapper(String::new());

    let input = b"\xc2";

    for byte in input {
        while !parser.advance(&mut actual, *byte) {}
    }
    parser.end(&mut actual);

    // standard library implementation
    let expected = String::from_utf8_lossy(input).to_string();

    assert_eq!(actual.0, expected);
}

#[test]
fn multiple_invalid_continuations() {
    let mut parser = Parser::new();

    // utf8parse implementation
    let mut actual = StringWrapper(String::new());

    let input = b"\xdd\xdd*";

    for byte in input {
        while !parser.advance(&mut actual, *byte) {}
    }
    parser.end(&mut actual);

    // standard library implementation
    let expected = String::from_utf8_lossy(input).to_string();

    assert_eq!(actual.0, expected);
}

#[test]
fn decoder_returns_to_ground_after_end() {
    let mut parser = Parser::new();
    let mut actual = StringWrapper(String::new());
    for byte in b"\xe2\x98" {
        assert!(parser.advance(&mut actual, *byte));
    }
    assert!(!parser.is_ground());
    parser.end(&mut actual);
    assert!(parser.is_ground());
    for byte in "\u{2603}".as_bytes() {
        assert!(parser.advance(&mut actual, *byte));
    }
    assert_eq!(actual.0, "\u{FFFD}\u{2603}");
}

#[test]
fn four_byte_sequence_decodes() {
    let mut parser = Parser::new();
    let mut actual = StringWrapper(String::new());
    for byte in "\u{1F4A9}a\u{7FF}\u{10FFFF}".as_bytes() {
        assert!(parser.advance(&mut actual, *byte));
    }
    assert_eq!(actual.0, "\u{1F4A9}a\u{7FF}\u{10FFFF}");
}
