//! The fixed message that the device delivers.
use vstd::prelude::*;

verus! {

/// Number of bytes in the message, the trailing NUL included.
pub const PAYLOAD_LEN: usize = 22;

/// The message: a crab emoji, " Hello from rust", a newline and a NUL byte, in UTF-8.
pub open spec fn payload_bytes() -> Seq<u8> {
    seq![
        0xF0u8, 0x9Fu8, 0xA6u8, 0x80u8,
        0x20u8, 0x48u8, 0x65u8, 0x6Cu8, 0x6Cu8, 0x6Fu8,
        0x20u8, 0x66u8, 0x72u8, 0x6Fu8, 0x6Du8,
        0x20u8, 0x72u8, 0x75u8, 0x73u8, 0x74u8,
        0x0Au8, 0x00u8,
    ]
}

/// The message as bytes.
pub const PAYLOAD: [u8; 22] = [
    0xF0, 0x9F, 0xA6, 0x80,
    0x20, 0x48, 0x65, 0x6C, 0x6C, 0x6F,
    0x20, 0x66, 0x72, 0x6F, 0x6D,
    0x20, 0x72, 0x75, 0x73, 0x74,
    0x0A, 0x00,
];

pub proof fn lemma_payload_len()
    ensures
        payload_bytes().len() == PAYLOAD_LEN,
        PAYLOAD@ == payload_bytes(),
{
    assert(PAYLOAD@ =~= payload_bytes());
}

} // verus!
