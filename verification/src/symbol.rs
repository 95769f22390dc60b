//! The instruction alphabet and the decoding of program bytes.

use vstd::prelude::*;
use vstd::utf8::{decode_utf8, valid_utf8};

verus! {

/// The byte `>`.
pub const BYTE_RIGHT: u8 = 0x3e;

/// The byte `<`.
pub const BYTE_LEFT: u8 = 0x3c;

/// The byte `+`.
pub const BYTE_INCREMENT: u8 = 0x2b;

/// The byte `-`.
pub const BYTE_DECREMENT: u8 = 0x2d;

/// The byte `.`.
pub const BYTE_OUTPUT: u8 = 0x2e;

/// The byte `,`.
pub const BYTE_INPUT: u8 = 0x2c;

/// The byte `[`.
pub const BYTE_LOOP_OPEN: u8 = 0x5b;

/// The byte `]`.
pub const BYTE_LOOP_CLOSE: u8 = 0x5d;

/// The byte `{`.
pub const BYTE_FOR_OPEN: u8 = 0x7b;

/// The byte `}`.
pub const BYTE_FOR_CLOSE: u8 = 0x7d;

/// What one program byte asks the machine to do.
#[derive(Clone, Copy, Debug, PartialEq, Eq, Structural)]
pub enum Symbol {
    /// `>`: move the data pointer one cell up.
    Right,
    /// `<`: move the data pointer one cell down.
    Left,
    /// `+`: add one to the current cell, 255 turning into 0.
    Increment,
    /// `-`: take one from the current cell, 0 turning into 255.
    Decrement,
    /// `.`: append the current cell to the output.
    Output,
    /// `,`: store the next input byte in the current cell.
    Input,
    /// `[`: enter the loop body if the current cell is nonzero, else skip it.
    LoopOpen,
    /// `]`: go back to the `[` that opened the running body.
    LoopClose,
    /// `{`: enter the counted body if the iterator's cell is nonzero, else skip it.
    ForOpen,
    /// `}`: count the iterator's cell down and go back to the opening bracket.
    ForClose,
    /// Any other byte: a comment, without effect.
    Ignore,
}

/// The symbol that a byte stands for.
pub open spec fn symbol_of(byte: u8) -> Symbol {
    if byte == BYTE_RIGHT {
        Symbol::Right
    } else if byte == BYTE_LEFT {
        Symbol::Left
    } else if byte == BYTE_INCREMENT {
        Symbol::Increment
    } else if byte == BYTE_DECREMENT {
        Symbol::Decrement
    } else if byte == BYTE_OUTPUT {
        Symbol::Output
    } else if byte == BYTE_INPUT {
        Symbol::Input
    } else if byte == BYTE_LOOP_OPEN {
        Symbol::LoopOpen
    } else if byte == BYTE_LOOP_CLOSE {
        Symbol::LoopClose
    } else if byte == BYTE_FOR_OPEN {
        Symbol::ForOpen
    } else if byte == BYTE_FOR_CLOSE {
        Symbol::ForClose
    } else {
        Symbol::Ignore
    }
}

/// Decodes one program byte. Every byte decodes; those that are no instruction
/// decode to [`Symbol::Ignore`].
#[verifier::when_used_as_spec(symbol_of)]
pub fn decode(byte: u8) -> (symbol: Symbol)
    ensures
        symbol == symbol_of(byte),
{
    if byte == BYTE_RIGHT {
        Symbol::Right
    } else if byte == BYTE_LEFT {
        Symbol::Left
    } else if byte == BYTE_INCREMENT {
        Symbol::Increment
    } else if byte == BYTE_DECREMENT {
        Symbol::Decrement
    } else if byte == BYTE_OUTPUT {
        Symbol::Output
    } else if byte == BYTE_INPUT {
        Symbol::Input
    } else if byte == BYTE_LOOP_OPEN {
        Symbol::LoopOpen
    } else if byte == BYTE_LOOP_CLOSE {
        Symbol::LoopClose
    } else if byte == BYTE_FOR_OPEN {
        Symbol::ForOpen
    } else if byte == BYTE_FOR_CLOSE {
        Symbol::ForClose
    } else {
        Symbol::Ignore
    }
}

/// True for the bytes that are a text of one character by themselves. Any
/// other byte is part of a longer character, and faults the machine that
/// reaches it.
pub open spec fn is_text_byte(byte: u8) -> bool {
    byte < 0x80
}

/// `String::from_utf8` of the standard library: `Some` text exactly where
/// `bytes` are well-formed UTF-8, and then the text that they encode. Both
/// notions are those of `vstd::utf8`. Not proved.
#[verifier::external_body]
fn string_from_utf8(bytes: Vec<u8>) -> (text: Option<String>)
    ensures
        text.is_some() == valid_utf8(bytes@),
        text matches Some(decoded) ==> decoded@ == decode_utf8(bytes@),
{
    match String::from_utf8(bytes) {
        Ok(text) => Some(text),
        Err(_) => None,
    }
}

/// The text of one program byte: the string of the one character that the
/// byte encodes, or `None` for a byte that is no text by itself. These are
/// the bytes on which a machine faults with a decode error.
pub fn byte_to_str(byte: u8) -> (text: Option<String>)
    ensures
        text.is_some() == is_text_byte(byte),
        text matches Some(symbol) ==> symbol@ == seq![byte as char],
{
    let mut bytes: Vec<u8> = Vec::new();
    bytes.push(byte);
    proof {
        let encoded = bytes@;
        assert(encoded.len() == 1 && encoded[0] == byte);
        if is_text_byte(byte) {
            assert(byte & 0x7f == byte) by (bit_vector)
                requires
                    byte < 0x80,
            ;
            assert(vstd::utf8::valid_first_scalar(encoded));
            assert(vstd::utf8::pop_first_scalar(encoded) =~= Seq::<u8>::empty());
            assert(valid_utf8(vstd::utf8::pop_first_scalar(encoded)));
            assert(valid_utf8(encoded));
            assert(decode_utf8(vstd::utf8::pop_first_scalar(encoded)) =~= Seq::<char>::empty());
            assert(decode_utf8(encoded) =~= seq![byte as char]);
        } else {
            assert(!vstd::utf8::valid_leading_and_continuation_bytes_first_codepoint(encoded));
            assert(!valid_utf8(encoded));
        }
    }
    string_from_utf8(bytes)
}

} // verus!
