//! Recognising packets: which of the two wire protocols a run of bytes belongs to.

use vstd::prelude::*;
use vstd::string::*;

use crate::text::{decimal_text, hex_byte_text};
#[allow(unused_imports)]
use crate::text::{decimal, hex_byte, text_result};

verus! {

/// The two protocols that share the connection.
#[derive(Debug, Clone, Copy, PartialEq, Eq, Structural)]
pub enum ProtocolKind {
    /// JSON messages, `~NNNN|{...}`.
    Protocol1,
    /// Order book snapshots, `~NNNN<sym_len>|<symbol><values>L`.
    Protocol2,
}

/// The functions that read and write the wire format.
pub struct ProtocolFns;

/// The first byte of every packet, `~`.
pub const PACKET_START: u8 = 0x7E;

/// The separator `|`.
pub const PIPE: u8 = 0x7C;

/// The byte that opens a JSON body, `{`.
pub const JSON_OPEN: u8 = 0x7B;

/// The byte that closes a JSON body and with it a JSON packet, `}`.
pub const JSON_CLOSE: u8 = 0x7D;

/// The byte that closes an order book packet, `L`.
pub const BOOK_CLOSE: u8 = 0x4C;

/// The number that the four length digits behind the first byte stand for.
pub open spec fn declared_length(bytes: Seq<u8>) -> int {
    (bytes[1] - 0x30) * 1000 + (bytes[2] - 0x30) * 100 + (bytes[3] - 0x30) * 10 + (bytes[4] - 0x30)
}

/// The message about a packet that is shorter than `needed` bytes.
pub open spec fn short_packet(needed: nat, got: nat) -> Seq<char> {
    "Invalid packet: expected length of at least "@ + decimal(needed) + ", got "@ + decimal(got)
}

/// The message about a byte that is not the one that `expectation` names.
pub open spec fn wrong_byte(expectation: Seq<char>, got: u8) -> Seq<char> {
    expectation + ", got "@ + hex_byte(got)
}

/// Whether a byte is an ASCII digit.
pub open spec fn is_length_digit(byte: u8) -> bool {
    0x30 <= byte <= 0x39
}

/// The first of the four length bytes that is not a digit, if there is one.
pub open spec fn bad_length_byte(bytes: Seq<u8>) -> Option<u8> {
    if !is_length_digit(bytes[1]) {
        Some(bytes[1])
    } else if !is_length_digit(bytes[2]) {
        Some(bytes[2])
    } else if !is_length_digit(bytes[3]) {
        Some(bytes[3])
    } else if !is_length_digit(bytes[4]) {
        Some(bytes[4])
    } else {
        None
    }
}

/// What a run of bytes is: a packet of one of the protocols, or no packet and why not.
pub open spec fn analysis(bytes: Seq<u8>) -> Result<ProtocolKind, Seq<char>> {
    if bytes.len() < 6 {
        Err(short_packet(6, bytes.len()))
    } else if bytes[0] != PACKET_START {
        Err(wrong_byte("Invalid header: expected first byte to be 0x7E"@, bytes[0]))
    } else if bad_length_byte(bytes) is Some {
        Err(wrong_byte("Invalid header: expected a length digit"@, bad_length_byte(bytes)->0))
    } else if bytes.len() < 5 + declared_length(bytes) {
        Err(short_packet((5 + declared_length(bytes)) as nat, bytes.len()))
    } else if bytes[5] == PIPE {
        if bytes.len() < 7 {
            Err(short_packet(7, bytes.len()))
        } else if bytes[6] != JSON_OPEN {
            Err(wrong_byte(
                "Invalid packet for protocol 1: expected byte after pipe to be 0x7B"@,
                bytes[6],
            ))
        } else if bytes.last() != JSON_CLOSE {
            Err(wrong_byte(
                "Invalid packet for protocol 1: expected last byte to be 0x7D"@,
                bytes.last(),
            ))
        } else {
            Ok(ProtocolKind::Protocol1)
        }
    } else {
        if bytes.len() < 10 {
            Err(short_packet(10, bytes.len()))
        } else if bytes[9] != PIPE {
            Err(wrong_byte(
                "Invalid packet for protocol 2: expected byte after symbol length to be 0x7C"@,
                bytes[9],
            ))
        } else if bytes.last() != BOOK_CLOSE {
            Err(wrong_byte(
                "Invalid packet for protocol 2: expected last byte to be 0x4C"@,
                bytes.last(),
            ))
        } else {
            Ok(ProtocolKind::Protocol2)
        }
    }
}

fn short_packet_text(needed: usize, got: usize) -> (message: String)
    ensures
        message@ == short_packet(needed as nat, got as nat),
{
    let mut message = "Invalid packet: expected length of at least ".to_string();
    message.append(decimal_text(needed).as_str());
    message.append(", got ");
    message.append(decimal_text(got).as_str());
    message
}

pub(crate) fn wrong_byte_text(expectation: &str, got: u8) -> (message: String)
    ensures
        message@ == wrong_byte(expectation@, got),
{
    let mut message = expectation.to_string();
    message.append(", got ");
    message.append(hex_byte_text(got).as_str());
    message
}

impl ProtocolFns {
    /// Inspects a raw byte slice and determines which wire protocol it belongs to.
    ///
    /// A packet starts with `~` and four length digits, and is at least as long as
    /// they say. A pipe behind the header makes it a JSON packet, which continues
    /// with `{` and ends with `}`; any other byte there makes it an order book
    /// packet, which has its pipe behind the four bytes of the symbol length and ends
    /// with `L`. Everything else is an error: a packet that is too short for the
    /// bytes that are looked at, an invalid header byte, or a failed check.
    pub fn analyse_bytes(bytes: &[u8]) -> (kind: Result<ProtocolKind, String>)
        ensures
            text_result(kind) == analysis(bytes@),
    {
        let len: usize = bytes.len();
        if len < 6 {
            return Err(short_packet_text(6, len));
        }
        if bytes[0] != PACKET_START {
            return Err(
                wrong_byte_text("Invalid header: expected first byte to be 0x7E", bytes[0]),
            );
        }
        let mut declared: usize = 0;
        let mut i: usize = 1;
        while i < 5
            invariant
                1 <= i <= 5,
                len == bytes@.len(),
                6 <= len,
                bytes@[0] == PACKET_START,
                forall|j: int| 1 <= j < i ==> is_length_digit(#[trigger] bytes@[j]),
                declared == (if i == 1 {
                    0
                } else if i == 2 {
                    bytes@[1] - 0x30
                } else if i == 3 {
                    (bytes@[1] - 0x30) * 10 + (bytes@[2] - 0x30)
                } else if i == 4 {
                    (bytes@[1] - 0x30) * 100 + (bytes@[2] - 0x30) * 10 + (bytes@[3] - 0x30)
                } else {
                    declared_length(bytes@)
                }),
            decreases 5 - i,
        {
            if bytes[i] < 0x30 || bytes[i] > 0x39 {
                return Err(wrong_byte_text("Invalid header: expected a length digit", bytes[i]));
            }
            declared = declared * 10 + (bytes[i] - 0x30) as usize;
            i += 1;
        }
        if len < 5 + declared {
            return Err(short_packet_text(5 + declared, len));
        }
        if bytes[5] == PIPE {
            if len < 7 {
                return Err(short_packet_text(7, len));
            }
            if bytes[6] != JSON_OPEN {
                return Err(
                    wrong_byte_text(
                        "Invalid packet for protocol 1: expected byte after pipe to be 0x7B",
                        bytes[6],
                    ),
                );
            }
            if bytes[len - 1] != JSON_CLOSE {
                return Err(
                    wrong_byte_text(
                        "Invalid packet for protocol 1: expected last byte to be 0x7D",
                        bytes[len - 1],
                    ),
                );
            }
            Ok(ProtocolKind::Protocol1)
        } else {
            if len < 10 {
                return Err(short_packet_text(10, len));
            }
            if bytes[9] != PIPE {
                return Err(
                    wrong_byte_text(
                        "Invalid packet for protocol 2: expected byte after symbol length to be 0x7C",
                        bytes[9],
                    ),
                );
            }
            if bytes[len - 1] != BOOK_CLOSE {
                return Err(
                    wrong_byte_text(
                        "Invalid packet for protocol 2: expected last byte to be 0x4C",
                        bytes[len - 1],
                    ),
                );
            }
            Ok(ProtocolKind::Protocol2)
        }
    }
}

} // verus!
