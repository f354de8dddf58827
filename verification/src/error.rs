//! What can go wrong when a value is built or a frame is read.
use crate::{CONTROL_DATA_CAPACITY, MAD_CAPACITY, NODE_ID_CAPACITY};
use vstd::prelude::*;
use vstd::string::StringExecFns;

verus! {

/// Why a value could not be built or a frame could not be decoded.
#[derive(Clone, Debug, Eq, PartialEq, Structural)]
pub enum Error {
    InvalidWireSize { expected: usize, actual: usize },
    InvalidMagic(u32),
    UnknownControlType(u32),
    ControlDataTooLong(usize),
    MadTooLong(usize),
    InvalidMadLength(u64),
    NodeIdTooLong(usize),
    NodeIdContainsNul,
    NodeIdNotTerminated,
}

/// The character of a digit below sixteen: `0`-`9`, then `a`-`f`.
pub open spec fn digit_char(d: nat) -> char {
    if d < 10 {
        (48 + d) as char
    } else {
        (87 + d) as char
    }
}

/// The decimal digits of `n`, without leading zeros.
pub open spec fn decimal_text(n: nat) -> Seq<char>
    decreases n,
{
    if n < 10 {
        seq![digit_char(n)]
    } else {
        decimal_text(n / 10).push(digit_char(n % 10))
    }
}

/// The last `width` lower-case hexadecimal digits of `n`, zero-padded.
pub open spec fn hex_text(n: nat, width: nat) -> Seq<char>
    decreases width,
{
    if width == 0 {
        Seq::empty()
    } else {
        hex_text(n / 16, (width - 1) as nat).push(digit_char(n % 16))
    }
}

/// The message that describes an error.
pub open spec fn message_text(e: Error) -> Seq<char> {
    match e {
        Error::InvalidWireSize { expected, actual } => "invalid wire size: expected "@
            + decimal_text(expected as nat) + " bytes, got "@ + decimal_text(actual as nat),
        Error::InvalidMagic(value) => "invalid ibsim control magic 0x"@ + hex_text(
            value as nat,
            8,
        ),
        Error::UnknownControlType(value) => "unknown ibsim control type "@ + decimal_text(
            value as nat,
        ),
        Error::ControlDataTooLong(len) => "control payload is "@ + decimal_text(len as nat)
            + " bytes; maximum is "@ + decimal_text(CONTROL_DATA_CAPACITY as nat),
        Error::MadTooLong(len) => "MAD payload is "@ + decimal_text(len as nat)
            + " bytes; maximum is "@ + decimal_text(MAD_CAPACITY as nat),
        Error::InvalidMadLength(len) => "wire MAD length "@ + decimal_text(len as nat)
            + " exceeds "@ + decimal_text(MAD_CAPACITY as nat),
        Error::NodeIdTooLong(len) => "node ID is "@ + decimal_text(len as nat)
            + " bytes; maximum is "@ + decimal_text(NODE_ID_CAPACITY as nat),
        Error::NodeIdContainsNul => "node ID contains an interior NUL byte"@,
        Error::NodeIdNotTerminated => "wire node ID is not NUL terminated"@,
    }
}

/// The one-character text of a digit below sixteen.
fn digit_str(d: u8) -> (s: &'static str)
    requires
        d < 16,
    ensures
        s@ == seq![digit_char(d as nat)],
{
    match d {
        0 => {
            proof {
                reveal_strlit("0");
            }
            "0"
        },
        1 => {
            proof {
                reveal_strlit("1");
            }
            "1"
        },
        2 => {
            proof {
                reveal_strlit("2");
            }
            "2"
        },
        3 => {
            proof {
                reveal_strlit("3");
            }
            "3"
        },
        4 => {
            proof {
                reveal_strlit("4");
            }
            "4"
        },
        5 => {
            proof {
                reveal_strlit("5");
            }
            "5"
        },
        6 => {
            proof {
                reveal_strlit("6");
            }
            "6"
        },
        7 => {
            proof {
                reveal_strlit("7");
            }
            "7"
        },
        8 => {
            proof {
                reveal_strlit("8");
            }
            "8"
        },
        9 => {
            proof {
                reveal_strlit("9");
            }
            "9"
        },
        10 => {
            proof {
                reveal_strlit("a");
            }
            "a"
        },
        11 => {
            proof {
                reveal_strlit("b");
            }
            "b"
        },
        12 => {
            proof {
                reveal_strlit("c");
            }
            "c"
        },
        13 => {
            proof {
                reveal_strlit("d");
            }
            "d"
        },
        14 => {
            proof {
                reveal_strlit("e");
            }
            "e"
        },
        _ => {
            proof {
                reveal_strlit("f");
            }
            "f"
        },
    }
}

/// Appends the decimal digits of `n`, without sign or leading zeros.
fn push_decimal(s: &mut String, n: u64)
    ensures
        final(s)@ == old(s)@ + decimal_text(n as nat),
    decreases n,
{
    if n >= 10 {
        push_decimal(s, n / 10);
    }
    s.append(digit_str((n % 10) as u8));
    assert(s@ =~= old(s)@ + decimal_text(n as nat));
}

/// Appends the last `width` lower-case hexadecimal digits of `n`, zero-padded.
fn push_hex(s: &mut String, n: u32, width: u32)
    ensures
        final(s)@ == old(s)@ + hex_text(n as nat, width as nat),
    decreases width,
{
    if width > 0 {
        push_hex(s, n / 16, width - 1);
        s.append(digit_str((n % 16) as u8));
        assert(s@ =~= old(s)@ + hex_text(n as nat, width as nat));
    } else {
        assert(s@ =~= old(s)@ + hex_text(n as nat, width as nat));
    }
}

/// The decimal digits of `n`, without sign or leading zeros.
fn decimal_string(n: u64) -> (s: String)
    ensures
        s@ == decimal_text(n as nat),
{
    let mut s = String::new();
    push_decimal(&mut s, n);
    assert(s@ =~= decimal_text(n as nat));
    s
}

/// The eight lower-case hexadecimal digits of `n`, zero-padded.
fn hex8_string(n: u32) -> (s: String)
    ensures
        s@ == hex_text(n as nat, 8),
{
    let mut s = String::new();
    push_hex(&mut s, n, 8);
    assert(s@ =~= hex_text(n as nat, 8));
    s
}

impl Error {
    /// A sentence that describes the error.
    pub fn message(&self) -> (s: String)
        ensures
            s@ == message_text(*self),
    {
        match self {
            Error::InvalidWireSize { expected, actual } => {
                let mut s = String::from_str("invalid wire size: expected ");
                s.append(decimal_string(*expected as u64).as_str());
                s.append(" bytes, got ");
                s.append(decimal_string(*actual as u64).as_str());
                s
            },
            Error::InvalidMagic(value) => {
                let mut s = String::from_str("invalid ibsim control magic 0x");
                s.append(hex8_string(*value).as_str());
                s
            },
            Error::UnknownControlType(value) => {
                let mut s = String::from_str("unknown ibsim control type ");
                s.append(decimal_string(*value as u64).as_str());
                s
            },
            Error::ControlDataTooLong(len) => {
                let mut s = String::from_str("control payload is ");
                s.append(decimal_string(*len as u64).as_str());
                s.append(" bytes; maximum is ");
                s.append(decimal_string(CONTROL_DATA_CAPACITY as u64).as_str());
                s
            },
            Error::MadTooLong(len) => {
                let mut s = String::from_str("MAD payload is ");
                s.append(decimal_string(*len as u64).as_str());
                s.append(" bytes; maximum is ");
                s.append(decimal_string(MAD_CAPACITY as u64).as_str());
                s
            },
            Error::InvalidMadLength(len) => {
                let mut s = String::from_str("wire MAD length ");
                s.append(decimal_string(*len).as_str());
                s.append(" exceeds ");
                s.append(decimal_string(MAD_CAPACITY as u64).as_str());
                s
            },
            Error::NodeIdTooLong(len) => {
                let mut s = String::from_str("node ID is ");
                s.append(decimal_string(*len as u64).as_str());
                s.append(" bytes; maximum is ");
                s.append(decimal_string(NODE_ID_CAPACITY as u64).as_str());
                s
            },
            Error::NodeIdContainsNul => String::from_str("node ID contains an interior NUL byte"),
            Error::NodeIdNotTerminated => String::from_str("wire node ID is not NUL terminated"),
        }
    }
}

} // verus!
