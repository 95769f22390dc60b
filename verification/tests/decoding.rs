use brainfrick::machine::find_closing_bracket;
use brainfrick::model::Fault;
use brainfrick::symbol::{byte_to_str, decode, Symbol};

#[test]
fn decode_recognises_the_ten_instructions() {
    assert_eq!(decode(b'>'), Symbol::Right);
    assert_eq!(decode(b'<'), Symbol::Left);
    assert_eq!(decode(b'+'), Symbol::Increment);
    assert_eq!(decode(b'-'), Symbol::Decrement);
    assert_eq!(decode(b'.'), Symbol::Output);
    assert_eq!(decode(b','), Symbol::Input);
    assert_eq!(decode(b'['), Symbol::LoopOpen);
    assert_eq!(decode(b']'), Symbol::LoopClose);
    assert_eq!(decode(b'{'), Symbol::ForOpen);
    assert_eq!(decode(b'}'), Symbol::ForClose);
}

#[test]
fn decode_ignores_every_other_byte() {
    let instructions = b"><+-.,[]{}";
    for byte in 0..=255u8 {
        if !instructions.contains(&byte) {
            assert_eq!(decode(byte), Symbol::Ignore);
        }
    }
}

#[test]
fn byte_to_str_gives_the_one_character() {
    assert_eq!(byte_to_str(b'+'), Some("+".to_string()));
    assert_eq!(byte_to_str(b'['), Some("[".to_string()));
    assert_eq!(byte_to_str(b'a'), Some("a".to_string()));
    assert_eq!(byte_to_str(0x00), Some("\0".to_string()));
    assert_eq!(byte_to_str(0x7f), Some("\u{7f}".to_string()));
}

#[test]
fn byte_to_str_refuses_bytes_that_are_no_text() {
    assert_eq!(byte_to_str(0x80), None);
    assert_eq!(byte_to_str(0xc3), None);
    assert_eq!(byte_to_str(0xff), None);
}

#[test]
fn byte_to_str_agrees_with_text_bytes() {
    for byte in 0..=255u8 {
        match byte_to_str(byte) {
            Some(text) => {
                assert!(byte < 0x80);
                assert_eq!(text.as_bytes(), &[byte]);
            }
            None => assert!(byte >= 0x80),
        }
    }
}

#[test]
fn closing_bracket_of_flat_loop() {
    assert_eq!(find_closing_bracket(b"[-]", 0, b'[', b']'), Ok(2));
    assert_eq!(find_closing_bracket(b"[]", 0, b'[', b']'), Ok(1));
    assert_eq!(find_closing_bracket(b"++[>+<-]..", 2, b'[', b']'), Ok(7));
}

#[test]
fn closing_bracket_of_nested_loops() {
    assert_eq!(find_closing_bracket(b"[[]]", 0, b'[', b']'), Ok(3));
    assert_eq!(find_closing_bracket(b"[[]]", 1, b'[', b']'), Ok(2));
    assert_eq!(find_closing_bracket(b"[[][[]]]+", 0, b'[', b']'), Ok(7));
}

#[test]
fn closing_bracket_counts_one_kind_only() {
    assert_eq!(find_closing_bracket(b"[{]}", 0, b'[', b']'), Ok(2));
    assert_eq!(find_closing_bracket(b"[{]}", 1, b'{', b'}'), Ok(3));
    assert_eq!(find_closing_bracket(b"{[[}", 0, b'{', b'}'), Ok(3));
}

#[test]
fn closing_bracket_missing() {
    assert_eq!(
        find_closing_bracket(b"[[]", 0, b'[', b']'),
        Err(Fault::UnclosedLoop)
    );
    assert_eq!(
        find_closing_bracket(b"[", 0, b'[', b']'),
        Err(Fault::UnclosedLoop)
    );
    assert_eq!(
        find_closing_bracket(b"[]", 5, b'[', b']'),
        Err(Fault::UnclosedLoop)
    );
    assert_eq!(
        find_closing_bracket(b"", usize::MAX, b'[', b']'),
        Err(Fault::UnclosedLoop)
    );
}

#[test]
fn closing_bracket_search_stops_at_byte_that_is_no_text() {
    assert_eq!(
        find_closing_bracket(&[b'[', 0x80, b']'], 0, b'[', b']'),
        Err(Fault::Decode)
    );
    // Behind the closing bracket nothing is read.
    assert_eq!(find_closing_bracket(&[b'[', b']', 0x80], 0, b'[', b']'), Ok(1));
}
