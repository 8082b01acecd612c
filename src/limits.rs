//! Trust-boundary limits and the validation of untrusted inbound fields.

use vstd::prelude::*;
use vstd::string::*;
use vstd::utf8::{encode_utf8, is_ascii_chars};
use crate::text::{decimal, decimal_text, joined3};

verus! {

/// The length of `s` in bytes, encoded as UTF-8.
pub open spec fn byte_len(s: Seq<char>) -> nat {
    encode_utf8(s).len()
}

/// Largest inbound message, in bytes (1 MiB).
pub const MAX_MESSAGE_BYTES: usize = 1048576;

/// Largest device name, in bytes.
pub const MAX_DEVICE_NAME_BYTES: usize = 256;

/// Largest peer code (registration code or signal target), in bytes.
pub const MAX_PEER_CODE_BYTES: usize = 16;

/// Messages a connection may send per window.
pub const RATE_LIMIT_PER_SECOND: u32 = 50;

/// Consecutive rate violations after which the connection is closed.
pub const RATE_LIMIT_CLOSE_THRESHOLD: u32 = 3;

/// The error text for an inbound message of `len` bytes.
pub open spec fn message_too_large_text(len: nat) -> Seq<char> {
    "message too large ("@ + decimal(len) + " bytes, max 1048576)"@
}

/// Rejects messages longer than `MAX_MESSAGE_BYTES`.
pub fn validate_message_size(len: usize) -> (r: Result<(), String>)
    ensures
        r is Ok <==> len <= MAX_MESSAGE_BYTES,
        r is Err ==> r->Err_0@ == message_too_large_text(len as nat),
{
    if len > MAX_MESSAGE_BYTES {
        let n = decimal_text(len);
        return Err(joined3("message too large (", n.as_str(), " bytes, max 1048576)"));
    }
    Ok(())
}

/// The error text for a device name of `len` bytes.
pub open spec fn device_name_too_long_text(len: nat) -> Seq<char> {
    "device_name too long ("@ + decimal(len) + " bytes, max 256)"@
}

/// Rejects device names longer than `MAX_DEVICE_NAME_BYTES` bytes.
pub fn validate_device_name(name: &str) -> (r: Result<(), String>)
    ensures
        r is Ok <==> byte_len(name@) <= MAX_DEVICE_NAME_BYTES,
        r is Err ==> r->Err_0@ == device_name_too_long_text(byte_len(name@)),
{
    let len = name.as_bytes().len();
    if len > MAX_DEVICE_NAME_BYTES {
        let n = decimal_text(len);
        return Err(joined3("device_name too long (", n.as_str(), " bytes, max 256)"));
    }
    Ok(())
}

/// A character allowed in a peer code: an ASCII letter or digit.
pub open spec fn is_code_char(c: char) -> bool {
    ('0' <= c && c <= '9') || ('A' <= c && c <= 'Z') || ('a' <= c && c <= 'z')
}

/// Every character of `s` is an ASCII letter or digit.
pub open spec fn all_code_chars(s: Seq<char>) -> bool {
    forall|i: int| 0 <= i < s.len() ==> is_code_char(#[trigger] s[i])
}

/// A well-formed peer code: 1 to 16 ASCII letters and digits.
pub open spec fn is_valid_code(s: Seq<char>) -> bool {
    0 < s.len() <= MAX_PEER_CODE_BYTES && all_code_chars(s)
}

/// Why a candidate peer code is refused, in the order the checks are made.
#[derive(Clone, Copy, Debug, PartialEq, Eq, Structural)]
pub enum CodeFault {
    Empty,
    TooLong,
    NotAlphanumeric,
}

/// The first check that `s` fails: emptiness, then byte length, then alphabet.
pub open spec fn code_fault(s: Seq<char>) -> Option<CodeFault> {
    if s.len() == 0 {
        Some(CodeFault::Empty)
    } else if byte_len(s) > MAX_PEER_CODE_BYTES {
        Some(CodeFault::TooLong)
    } else if !all_code_chars(s) {
        Some(CodeFault::NotAlphanumeric)
    } else {
        None
    }
}

/// A string of letters and digits is ASCII, so its byte length is its length.
pub proof fn lemma_code_chars_bytes(s: &str)
    requires
        all_code_chars(s@),
    ensures
        s.spec_bytes().len() == s@.len(),
{
    assert(is_ascii_chars(s@)) by {
        assert forall|i: int| 0 <= i < s@.len() implies '\0' <= #[trigger] s@[i] <= '\u{7f}' by {
            assert(is_code_char(s@[i]));
        }
    }
    assert(is_ascii(s));
}

/// A string passes every check exactly when it is a well-formed peer code.
pub proof fn lemma_code_fault_none(s: &str)
    ensures
        code_fault(s@) is None <==> is_valid_code(s@),
{
    if all_code_chars(s@) {
        lemma_code_chars_bytes(s);
    }
}

fn is_code_byte(b: u8) -> (r: bool)
    ensures
        r == is_code_char(b as char),
{
    (48 <= b && b <= 57) || (65 <= b && b <= 90) || (97 <= b && b <= 122)
}

/// Runs the peer-code checks in order and reports the first failure.
pub fn check_code(s: &str) -> (r: Option<CodeFault>)
    ensures
        r == code_fault(s@),
{
    if s.is_empty() {
        return Some(CodeFault::Empty);
    }
    let n = s.as_bytes().len();
    if n > MAX_PEER_CODE_BYTES {
        return Some(CodeFault::TooLong);
    }
    if !s.is_ascii() {
        proof {
            assert(!all_code_chars(s@)) by {
                if all_code_chars(s@) {
                    assert forall|i: int| 0 <= i < s@.len() implies '\0' <= #[trigger] s@[i] <= '\u{7f}' by {
                        assert(is_code_char(s@[i]));
                    }
                }
            }
        }
        return Some(CodeFault::NotAlphanumeric);
    }
    proof {
        broadcast use is_ascii_spec_bytes;
        assert(s.spec_bytes().len() == s@.len());
    }
    let mut i: usize = 0;
    while i < n
        invariant
            is_ascii(s),
            n == s@.len(),
            s.spec_bytes().len() <= MAX_PEER_CODE_BYTES,
            s@.len() > 0,
            0 <= i <= n,
            forall|j: int| 0 <= j < i ==> is_code_char(#[trigger] s@[j]),
        decreases n - i,
    {
        let b = s.get_ascii(i);
        if !is_code_byte(b) {
            assert(s@[i as int] as u8 == b);
            assert('\0' <= s@[i as int] <= '\u{7f}');
            assert(s@[i as int] == b as char);
            assert(!all_code_chars(s@)) by {
                assert(!is_code_char(s@[i as int]));
            }
            return Some(CodeFault::NotAlphanumeric);
        }
        i = i + 1;
    }
    None
}

/// The error text for a registration code that fails `fault`.
pub open spec fn peer_code_fault_text(fault: CodeFault) -> Seq<char> {
    match fault {
        CodeFault::Empty => "Peer code cannot be empty"@,
        CodeFault::TooLong => "Peer code too long (max 16 characters)"@,
        CodeFault::NotAlphanumeric => "Peer code must be alphanumeric"@,
    }
}

/// The error text for a signal target that fails `fault`; `len` is its byte length.
pub open spec fn target_fault_text(fault: CodeFault, len: nat) -> Seq<char> {
    match fault {
        CodeFault::Empty => "target peer code cannot be empty"@,
        CodeFault::TooLong => "target peer code too long ("@ + decimal(len) + " bytes, max 16)"@,
        CodeFault::NotAlphanumeric => "target peer code must be alphanumeric"@,
    }
}

/// Validates a registration peer code: non-empty, at most 16 bytes, letters and digits.
pub fn validate_peer_code(code: &str) -> (r: Result<(), String>)
    ensures
        r is Ok <==> is_valid_code(code@),
        r is Err ==> code_fault(code@) is Some
            && r->Err_0@ == peer_code_fault_text(code_fault(code@)->Some_0),
{
    proof {
        lemma_code_fault_none(code);
    }
    match check_code(code) {
        None => Ok(()),
        Some(CodeFault::Empty) => Err("Peer code cannot be empty".to_owned()),
        Some(CodeFault::TooLong) => Err("Peer code too long (max 16 characters)".to_owned()),
        Some(CodeFault::NotAlphanumeric) => Err("Peer code must be alphanumeric".to_owned()),
    }
}

/// Validates the target of a signal with the same rules as a registration code.
pub fn validate_signal_target(to: &str) -> (r: Result<(), String>)
    ensures
        r is Ok <==> is_valid_code(to@),
        r is Err ==> code_fault(to@) is Some
            && r->Err_0@ == target_fault_text(code_fault(to@)->Some_0, byte_len(to@)),
{
    proof {
        lemma_code_fault_none(to);
    }
    match check_code(to) {
        None => Ok(()),
        Some(CodeFault::Empty) => Err("target peer code cannot be empty".to_owned()),
        Some(CodeFault::TooLong) => {
            let n = decimal_text(to.as_bytes().len());
            Err(joined3("target peer code too long (", n.as_str(), " bytes, max 16)"))
        },
        Some(CodeFault::NotAlphanumeric) => Err("target peer code must be alphanumeric".to_owned()),
    }
}

} // verus!
